//! Cross-file type resolution. Fills `JavaReferenceType::resolved_fqn` on
//! every reachable reference whose target is also in the parsed file set.
//!
//! Types outside the parsed set (JDK, third-party libraries) stay unresolved;
//! an import is never taken as proof that a type exists.

use vstd::prelude::*;

use super::model::{
    JavaAnnotationElement, JavaAnnotationValue, JavaArgument, JavaConstructor, JavaField, JavaFile,
    JavaMethod, JavaReferenceType, JavaType, JavaTypeArgument, JavaTypeParameter, JavaTypeRef,
    JavaWildcardBound,
};
use crate::text::{copy_string, dotted, join_dotted, last_segment, last_segment_of, str_eq};

verus! {

// ---------------------------------------------------------------------------
// The model of the global index: the fully qualified names of the file set.
// ---------------------------------------------------------------------------

/// The package of a file as text (empty for the default package).
pub open spec fn pkg_of(f: JavaFile) -> Seq<char> {
    match f.package {
        Some(p) => p@,
        None => Seq::empty(),
    }
}

/// `pkg.name`, or just `name` in the default package.
pub open spec fn join_fqn(pkg: Seq<char>, name: Seq<char>) -> Seq<char> {
    if pkg.len() == 0 {
        name
    } else {
        dotted(pkg, name)
    }
}

/// The FQNs of the types nested (at any depth) under `types`, whose
/// enclosing type is `parent`, depth first in declaration order.
pub open spec fn nested_fqns(types: Seq<JavaType>, parent: Seq<char>) -> Seq<Seq<char>>
    decreases types,
{
    if types.len() == 0 {
        Seq::empty()
    } else {
        let t = types.last();
        let f = dotted(parent, t.name@);
        nested_fqns(types.drop_last(), parent) + seq![f] + nested_fqns(t.nested_types@, f)
    }
}

/// The FQNs declared by the top-level `types` of a file in package `pkg`,
/// each followed by those of its nested types.
pub open spec fn declared_fqns(types: Seq<JavaType>, pkg: Seq<char>) -> Seq<Seq<char>>
    decreases types.len(),
{
    if types.len() == 0 {
        Seq::empty()
    } else {
        let t = types.last();
        let f = join_fqn(pkg, t.name@);
        declared_fqns(types.drop_last(), pkg) + seq![f] + nested_fqns(t.nested_types@, f)
    }
}

/// Every FQN declared anywhere in the file set.
pub open spec fn known_fqns(files: Seq<JavaFile>) -> Seq<Seq<char>>
    decreases files.len(),
{
    if files.len() == 0 {
        Seq::empty()
    } else {
        known_fqns(files.drop_last()) + declared_fqns(files.last().types@, pkg_of(files.last()))
    }
}

/// The (package, simple name) pair of every top-level type of `types`.
pub open spec fn type_pairs(types: Seq<JavaType>, pkg: Seq<char>) -> Seq<(Seq<char>, Seq<char>)> {
    types.map_values(|t: JavaType| (pkg, t.name@))
}

/// The (package, simple name) pairs of all top-level types in the file set.
pub open spec fn package_pairs(files: Seq<JavaFile>) -> Seq<(Seq<char>, Seq<char>)>
    decreases files.len(),
{
    if files.len() == 0 {
        Seq::empty()
    } else {
        package_pairs(files.drop_last()) + type_pairs(files.last().types@, pkg_of(files.last()))
    }
}

/// Whether some file of package `pkg` declares a top-level type named `simple`.
pub open spec fn package_declares(files: Seq<JavaFile>, pkg: Seq<char>, simple: Seq<char>) -> bool {
    package_pairs(files).contains((pkg, simple))
}

// ---------------------------------------------------------------------------
// The model of one file's lexical scope.
// ---------------------------------------------------------------------------

/// The import strings of a file.
pub open spec fn imports_of(f: JavaFile) -> Seq<Seq<char>> {
    f.imports@.map_values(|s: String| s@)
}

/// Splits raw import entries into wildcard packages and single-type imports:
/// an entry followed by `*` names a wildcard package; a lone `*` is skipped.
pub open spec fn split_imports_spec(imports: Seq<Seq<char>>) -> (Seq<Seq<char>>, Seq<Seq<char>>)
    decreases imports.len(),
{
    if imports.len() == 0 {
        (Seq::empty(), Seq::empty())
    } else if imports[0] == seq!['*'] {
        split_imports_spec(imports.drop_first())
    } else if imports.len() > 1 && imports[1] == seq!['*'] {
        let rest = split_imports_spec(imports.skip(2));
        (seq![imports[0]] + rest.0, rest.1)
    } else {
        let rest = split_imports_spec(imports.drop_first());
        (rest.0, seq![imports[0]] + rest.1)
    }
}

/// The last single-type import that names a known type with simple name `simple`.
pub open spec fn explicit_binding(explicit: Seq<Seq<char>>, known: Seq<Seq<char>>, simple: Seq<char>) -> Option<Seq<char>>
    decreases explicit.len(),
{
    if explicit.len() == 0 {
        None
    } else if known.contains(explicit.last()) && last_segment(explicit.last()) == simple {
        Some(explicit.last())
    } else {
        explicit_binding(explicit.drop_last(), known, simple)
    }
}

/// The type `simple` of the last wildcard-imported package that declares it.
pub open spec fn wildcard_binding(wildcards: Seq<Seq<char>>, files: Seq<JavaFile>, simple: Seq<char>) -> Option<Seq<char>>
    decreases wildcards.len(),
{
    if wildcards.len() == 0 {
        None
    } else if package_declares(files, wildcards.last(), simple) {
        Some(join_fqn(wildcards.last(), simple))
    } else {
        wildcard_binding(wildcards.drop_last(), files, simple)
    }
}

/// What a simple type name means inside `file`: single-type imports of
/// parsed types win over types of the file's own package, which win over
/// wildcard imports; later imports win over earlier ones.
pub open spec fn scope_binding(file: JavaFile, files: Seq<JavaFile>, simple: Seq<char>) -> Option<Seq<char>> {
    let split = split_imports_spec(imports_of(file));
    match explicit_binding(split.1, known_fqns(files), simple) {
        Some(f) => Some(f),
        None => if package_declares(files, pkg_of(file), simple) {
            Some(join_fqn(pkg_of(file), simple))
        } else {
            wildcard_binding(split.0, files, simple)
        },
    }
}

// ---------------------------------------------------------------------------
// The model of resolving one reference.
// ---------------------------------------------------------------------------

/// The name segments contributed by a qualifier (`Outer` in `Outer.Inner`).
pub open spec fn qualifier_segments(q: JavaTypeRef) -> Seq<Seq<char>>
    decreases q,
{
    match q {
        JavaTypeRef::Reference(r) => match r.qualifier {
            Some(inner) => qualifier_segments(*inner).push(r.name@),
            None => seq![r.name@],
        },
        JavaTypeRef::Annotated { inner, .. } => qualifier_segments(*inner),
        _ => Seq::empty(),
    }
}

/// All name segments of a reference, outermost first.
pub open spec fn reference_segments(r: JavaReferenceType) -> Seq<Seq<char>> {
    match r.qualifier {
        Some(q) => qualifier_segments(*q).push(r.name@),
        None => seq![r.name@],
    }
}

/// Segments joined with dots.
pub open spec fn join_dots(segs: Seq<Seq<char>>) -> Seq<char>
    decreases segs.len(),
{
    if segs.len() == 0 {
        Seq::empty()
    } else if segs.len() == 1 {
        segs[0]
    } else {
        dotted(join_dots(segs.drop_last()), segs.last())
    }
}

/// The FQN a reference resolves to inside `file`: its dotted spelling when
/// that is a known FQN, otherwise its first segment looked up in the file's
/// scope with the remaining segments appended, provided the result is known.
pub open spec fn resolve_reference_spec(r: JavaReferenceType, file: JavaFile, files: Seq<JavaFile>) -> Option<Seq<char>> {
    let segs = reference_segments(r);
    let joined = join_dots(segs);
    if known_fqns(files).contains(joined) {
        Some(joined)
    } else {
        match scope_binding(file, files, segs[0]) {
            None => None,
            Some(anchor) => if segs.len() == 1 {
                Some(anchor)
            } else {
                let candidate = dotted(anchor, join_dots(segs.skip(1)));
                if known_fqns(files).contains(candidate) {
                    Some(candidate)
                } else {
                    None
                }
            },
        }
    }
}


// ---------------------------------------------------------------------------
// What resolution does to each part of the model: `new` is `old` with every
// reachable reference's `resolved_fqn` set as the scope of `file` dictates,
// and nothing else changed.
// ---------------------------------------------------------------------------

/// A type reference after resolution.
pub open spec fn ref_resolved(old: JavaTypeRef, new: JavaTypeRef, file: JavaFile, files: Seq<JavaFile>) -> bool
    decreases old,
{
    match old {
        JavaTypeRef::Reference(r) => match new {
            JavaTypeRef::Reference(n) => {
                &&& n.name == r.name
                &&& n.qualifier == r.qualifier
                &&& opt_text(n.resolved_fqn) == resolve_reference_spec(r, file, files)
                &&& n.args@.len() == r.args@.len()
                &&& forall|i: int| 0 <= i < r.args@.len()
                    ==> type_argument_resolved(r.args@[i], #[trigger] n.args@[i], file, files)
            },
            _ => false,
        },
        JavaTypeRef::Array { element, dimensions } => match new {
            JavaTypeRef::Array { element: e, dimensions: d } => d == dimensions && ref_resolved(*element, *e, file, files),
            _ => false,
        },
        JavaTypeRef::Wildcard { annotations, bound } => match new {
            JavaTypeRef::Wildcard { annotations: a, bound: b } => a == annotations && match bound {
                None => b is None,
                Some(JavaWildcardBound::Extends(t)) => match b {
                    Some(JavaWildcardBound::Extends(u)) => ref_resolved(*t, *u, file, files),
                    _ => false,
                },
                Some(JavaWildcardBound::Super(t)) => match b {
                    Some(JavaWildcardBound::Super(u)) => ref_resolved(*t, *u, file, files),
                    _ => false,
                },
            },
            _ => false,
        },
        JavaTypeRef::Annotated { annotations, inner } => match new {
            JavaTypeRef::Annotated { annotations: a, inner: i } => a == annotations && ref_resolved(*inner, *i, file, files),
            _ => false,
        },
        _ => new == old,
    }
}

/// A generic type argument after resolution.
pub open spec fn type_argument_resolved(old: JavaTypeArgument, new: JavaTypeArgument, file: JavaFile, files: Seq<JavaFile>) -> bool
    decreases old,
{
    match old {
        JavaTypeArgument::Type(t) => match new {
            JavaTypeArgument::Type(u) => ref_resolved(t, u, file, files),
            _ => false,
        },
        JavaTypeArgument::Wildcard(t) => match new {
            JavaTypeArgument::Wildcard(u) => ref_resolved(t, u, file, files),
            _ => false,
        },
    }
}

/// A list of type references after resolution, element by element.
pub open spec fn refs_resolved(old: Seq<JavaTypeRef>, new: Seq<JavaTypeRef>, file: JavaFile, files: Seq<JavaFile>) -> bool {
    &&& new.len() == old.len()
    &&& forall|i: int| 0 <= i < old.len() ==> ref_resolved(old[i], new[i], file, files)
}

/// A type parameter after resolution (only its bounds change).
pub open spec fn type_parameter_resolved(old: JavaTypeParameter, new: JavaTypeParameter, file: JavaFile, files: Seq<JavaFile>) -> bool {
    &&& new.annotations == old.annotations
    &&& new.name == old.name
    &&& refs_resolved(old.bounds@, new.bounds@, file, files)
}

/// A parameter after resolution (only its type changes).
pub open spec fn argument_resolved(old: JavaArgument, new: JavaArgument, file: JavaFile, files: Seq<JavaFile>) -> bool {
    &&& new.annotations == old.annotations
    &&& new.name == old.name
    &&& new.varargs == old.varargs
    &&& ref_resolved(old.ty, new.ty, file, files)
}

/// A parameter list after resolution.
pub open spec fn arguments_resolved(old: Seq<JavaArgument>, new: Seq<JavaArgument>, file: JavaFile, files: Seq<JavaFile>) -> bool {
    &&& new.len() == old.len()
    &&& forall|i: int| 0 <= i < old.len() ==> argument_resolved(old[i], new[i], file, files)
}

/// A field after resolution (only its type changes).
pub open spec fn field_resolved(old: JavaField, new: JavaField, file: JavaFile, files: Seq<JavaFile>) -> bool {
    &&& new.documentation == old.documentation
    &&& new.annotations == old.annotations
    &&& new.modifiers == old.modifiers
    &&& new.name == old.name
    &&& new.range == old.range
    &&& ref_resolved(old.ty, new.ty, file, files)
}

/// Each type parameter of a list after resolution.
pub open spec fn type_parameters_resolved(old: Seq<JavaTypeParameter>, new: Seq<JavaTypeParameter>, file: JavaFile, files: Seq<JavaFile>) -> bool {
    &&& new.len() == old.len()
    &&& forall|i: int| 0 <= i < old.len() ==> type_parameter_resolved(old[i], new[i], file, files)
}

/// A constructor after resolution (its type parameters' bounds, parameters
/// and thrown types change).
pub open spec fn constructor_resolved(old: JavaConstructor, new: JavaConstructor, file: JavaFile, files: Seq<JavaFile>) -> bool {
    &&& new.documentation == old.documentation
    &&& new.annotations == old.annotations
    &&& new.modifiers == old.modifiers
    &&& type_parameters_resolved(old.type_parameters@, new.type_parameters@, file, files)
    &&& new.name == old.name
    &&& new.range == old.range
    &&& arguments_resolved(old.args@, new.args@, file, files)
    &&& refs_resolved(old.throws@, new.throws@, file, files)
}

/// A method after resolution (its type parameters' bounds, return type,
/// parameters and thrown types change).
pub open spec fn method_resolved(old: JavaMethod, new: JavaMethod, file: JavaFile, files: Seq<JavaFile>) -> bool {
    &&& new.documentation == old.documentation
    &&& new.annotations == old.annotations
    &&& new.modifiers == old.modifiers
    &&& type_parameters_resolved(old.type_parameters@, new.type_parameters@, file, files)
    &&& new.name == old.name
    &&& new.range == old.range
    &&& match old.return_type {
        Some(t) => match new.return_type {
            Some(u) => ref_resolved(t, u, file, files),
            None => false,
        },
        None => new.return_type is None,
    }
    &&& arguments_resolved(old.args@, new.args@, file, files)
    &&& refs_resolved(old.throws@, new.throws@, file, files)
}

/// An annotation value after resolution (class literals, also inside arrays).
pub open spec fn value_resolved(old: JavaAnnotationValue, new: JavaAnnotationValue, file: JavaFile, files: Seq<JavaFile>) -> bool
    decreases old,
{
    match old {
        JavaAnnotationValue::ClassLiteral(t) => match new {
            JavaAnnotationValue::ClassLiteral(u) => ref_resolved(t, u, file, files),
            _ => false,
        },
        JavaAnnotationValue::Array(vs) => match new {
            JavaAnnotationValue::Array(ws) => ws@.len() == vs@.len() && forall|i: int|
                0 <= i < vs@.len() ==> value_resolved(vs@[i], ws@[i], file, files),
            _ => false,
        },
        _ => new == old,
    }
}

/// An annotation element after resolution (its type and default value change).
pub open spec fn element_resolved(old: JavaAnnotationElement, new: JavaAnnotationElement, file: JavaFile, files: Seq<JavaFile>) -> bool {
    &&& new.documentation == old.documentation
    &&& new.annotations == old.annotations
    &&& new.name == old.name
    &&& new.range == old.range
    &&& ref_resolved(old.return_type, new.return_type, file, files)
    &&& match old.default_value {
        Some(v) => match new.default_value {
            Some(w) => value_resolved(v, w, file, files),
            None => false,
        },
        None => new.default_value is None,
    }
}

/// A type declaration after resolution, including its nested types.
pub open spec fn type_resolved(old: JavaType, new: JavaType, file: JavaFile, files: Seq<JavaFile>) -> bool
    decreases old,
{
    &&& new.kind == old.kind
    &&& new.name == old.name
    &&& new.documentation == old.documentation
    &&& new.annotations == old.annotations
    &&& new.modifiers == old.modifiers
    &&& new.enum_constants == old.enum_constants
    &&& new.range == old.range
    &&& new.body_range == old.body_range
    &&& new.type_parameters@.len() == old.type_parameters@.len()
    &&& forall|i: int| 0 <= i < old.type_parameters@.len()
        ==> type_parameter_resolved(old.type_parameters@[i], new.type_parameters@[i], file, files)
    &&& refs_resolved(old.extends@, new.extends@, file, files)
    &&& refs_resolved(old.implements@, new.implements@, file, files)
    &&& new.fields@.len() == old.fields@.len()
    &&& forall|i: int| 0 <= i < old.fields@.len() ==> field_resolved(old.fields@[i], new.fields@[i], file, files)
    &&& new.constructors@.len() == old.constructors@.len()
    &&& forall|i: int| 0 <= i < old.constructors@.len()
        ==> constructor_resolved(old.constructors@[i], new.constructors@[i], file, files)
    &&& new.methods@.len() == old.methods@.len()
    &&& forall|i: int| 0 <= i < old.methods@.len() ==> method_resolved(old.methods@[i], new.methods@[i], file, files)
    &&& arguments_resolved(old.record_components@, new.record_components@, file, files)
    &&& new.annotation_elements@.len() == old.annotation_elements@.len()
    &&& forall|i: int| 0 <= i < old.annotation_elements@.len()
        ==> element_resolved(old.annotation_elements@[i], new.annotation_elements@[i], file, files)
    &&& new.nested_types@.len() == old.nested_types@.len()
    &&& forall|i: int| 0 <= i < old.nested_types@.len()
        ==> type_resolved(old.nested_types@[i], new.nested_types@[i], file, files)
}

/// A file after resolution against the file set `files`.
pub open spec fn file_resolved(old: JavaFile, new: JavaFile, files: Seq<JavaFile>) -> bool {
    &&& new.package == old.package
    &&& new.imports == old.imports
    &&& new.types@.len() == old.types@.len()
    &&& forall|i: int| 0 <= i < old.types@.len() ==> type_resolved(old.types@[i], new.types@[i], old, files)
}

/// The whole file set after resolution.
pub open spec fn files_resolved(old: Seq<JavaFile>, new: Seq<JavaFile>) -> bool {
    &&& new.len() == old.len()
    &&& forall|i: int| 0 <= i < old.len() ==> file_resolved(old[i], new[i], old)
}

// ---------------------------------------------------------------------------
// Laws.
// ---------------------------------------------------------------------------

proof fn lemma_declared_contains(types: Seq<JavaType>, pkg: Seq<char>, j: int)
    requires
        0 <= j < types.len(),
    ensures
        declared_fqns(types, pkg).contains(join_fqn(pkg, types[j].name@)),
    decreases types.len(),
{
    let last = types.len() - 1;
    let d = declared_fqns(types, pkg);
    let init = declared_fqns(types.drop_last(), pkg);
    let f = join_fqn(pkg, types.last().name@);
    assert(d == init + seq![f] + nested_fqns(types.last().nested_types@, f));
    if j == last {
        assert(d[init.len() as int] == f);
    } else {
        assert(types.drop_last()[j] == types[j]);
        lemma_declared_contains(types.drop_last(), pkg, j);
        let k = choose|k: int| 0 <= k < init.len() && init[k] == join_fqn(pkg, types[j].name@);
        assert(d[k] == init[k]);
    }
}

proof fn lemma_package_pairs_known(files: Seq<JavaFile>, pkg: Seq<char>, simple: Seq<char>)
    requires
        package_pairs(files).contains((pkg, simple)),
    ensures
        known_fqns(files).contains(join_fqn(pkg, simple)),
    decreases files.len(),
{
    let init = files.drop_last();
    let last = files.last();
    let pp = package_pairs(files);
    let pi = package_pairs(init);
    let tp = type_pairs(last.types@, pkg_of(last));
    assert(pp == pi + tp);
    let k = choose|k: int| 0 <= k < pp.len() && pp[k] == (pkg, simple);
    let known = known_fqns(files);
    let ki = known_fqns(init);
    let dl = declared_fqns(last.types@, pkg_of(last));
    assert(known == ki + dl);
    if k < pi.len() {
        assert(pi[k] == (pkg, simple));
        lemma_package_pairs_known(init, pkg, simple);
        let m = choose|m: int| 0 <= m < ki.len() && ki[m] == join_fqn(pkg, simple);
        assert(known[m] == ki[m]);
    } else {
        let j = k - pi.len();
        assert(tp[j] == (pkg, simple));
        lemma_declared_contains(last.types@, pkg_of(last), j);
        let m = choose|m: int| 0 <= m < dl.len() && dl[m] == join_fqn(pkg, simple);
        assert(known[ki.len() + m] == dl[m]);
    }
}

proof fn lemma_explicit_binding_known(explicit: Seq<Seq<char>>, known: Seq<Seq<char>>, simple: Seq<char>)
    ensures
        explicit_binding(explicit, known, simple) matches Some(f) ==> known.contains(f),
    decreases explicit.len(),
{
    if explicit.len() > 0 {
        lemma_explicit_binding_known(explicit.drop_last(), known, simple);
    }
}

proof fn lemma_wildcard_binding_known(wildcards: Seq<Seq<char>>, files: Seq<JavaFile>, simple: Seq<char>)
    ensures
        wildcard_binding(wildcards, files, simple) matches Some(f) ==> known_fqns(files).contains(f),
    decreases wildcards.len(),
{
    if wildcards.len() > 0 {
        if package_declares(files, wildcards.last(), simple) {
            lemma_package_pairs_known(files, wildcards.last(), simple);
        } else {
            lemma_wildcard_binding_known(wildcards.drop_last(), files, simple);
        }
    }
}

/// Resolution never names a type outside the parsed file set: whatever a
/// reference resolves to is the FQN of a type declared in one of the files
/// (an import alone is never taken as proof that a type exists).
pub proof fn lemma_resolution_names_only_parsed_types(r: JavaReferenceType, file: JavaFile, files: Seq<JavaFile>)
    ensures
        resolve_reference_spec(r, file, files) matches Some(f) ==> known_fqns(files).contains(f),
{
    let segs = reference_segments(r);
    let split = split_imports_spec(imports_of(file));
    lemma_explicit_binding_known(split.1, known_fqns(files), segs[0]);
    lemma_wildcard_binding_known(split.0, files, segs[0]);
    if package_declares(files, pkg_of(file), segs[0]) {
        lemma_package_pairs_known(files, pkg_of(file), segs[0]);
    }
}

/// After resolution, every reference a top-level type names in its
/// `extends` or `implements` list keeps its name and carries, as its FQN,
/// what that reference resolves to in the scope of the file that declares
/// the type.
pub proof fn lemma_supertypes_resolved(old: Seq<JavaFile>, new: Seq<JavaFile>, i: int, j: int)
    requires
        files_resolved(old, new),
        0 <= i < old.len(),
        0 <= j < old[i].types@.len(),
    ensures
        new[i].types@[j].implements@.len() == old[i].types@[j].implements@.len(),
        new[i].types@[j].extends@.len() == old[i].types@[j].extends@.len(),
        forall|k: int| 0 <= k < old[i].types@[j].implements@.len()
            ==> (#[trigger] old[i].types@[j].implements@[k] matches JavaTypeRef::Reference(r)
            ==> (new[i].types@[j].implements@[k] matches JavaTypeRef::Reference(n)
                && n.name@ == r.name@ && opt_text(n.resolved_fqn) == resolve_reference_spec(r, old[i], old))),
        forall|k: int| 0 <= k < old[i].types@[j].extends@.len()
            ==> (#[trigger] old[i].types@[j].extends@[k] matches JavaTypeRef::Reference(r)
            ==> (new[i].types@[j].extends@[k] matches JavaTypeRef::Reference(n)
                && n.name@ == r.name@ && opt_text(n.resolved_fqn) == resolve_reference_spec(r, old[i], old))),
{
    assert(file_resolved(old[i], new[i], old));
    assert(type_resolved(old[i].types@[j], new[i].types@[j], old[i], old));
    let ot = old[i].types@[j];
    let nt = new[i].types@[j];
    assert forall|k: int| 0 <= k < ot.implements@.len()
        implies (#[trigger] ot.implements@[k] matches JavaTypeRef::Reference(r)
            ==> (nt.implements@[k] matches JavaTypeRef::Reference(n)
                && n.name@ == r.name@ && opt_text(n.resolved_fqn) == resolve_reference_spec(r, old[i], old))) by {
        assert(ref_resolved(ot.implements@[k], nt.implements@[k], old[i], old));
    }
    assert forall|k: int| 0 <= k < ot.extends@.len()
        implies (#[trigger] ot.extends@[k] matches JavaTypeRef::Reference(r)
            ==> (nt.extends@[k] matches JavaTypeRef::Reference(n)
                && n.name@ == r.name@ && opt_text(n.resolved_fqn) == resolve_reference_spec(r, old[i], old))) by {
        assert(ref_resolved(ot.extends@[k], nt.extends@[k], old[i], old));
    }
}

/// A reference that names a type keeps its name and carries, as its FQN,
/// what it resolves to in the scope of `file`.
pub open spec fn carries_resolution(old: JavaTypeRef, new: JavaTypeRef, file: JavaFile, files: Seq<JavaFile>) -> bool {
    old matches JavaTypeRef::Reference(r) ==> (new matches JavaTypeRef::Reference(n)
        && n.name@ == r.name@ && opt_text(n.resolved_fqn) == resolve_reference_spec(r, file, files))
}

/// After resolution, the declared type of every field, every parameter of
/// every constructor and method, and every method's return type, in a
/// top-level type, carries what it resolves to in its file's scope.
pub proof fn lemma_member_types_resolved(old: Seq<JavaFile>, new: Seq<JavaFile>, i: int, j: int)
    requires
        files_resolved(old, new),
        0 <= i < old.len(),
        0 <= j < old[i].types@.len(),
    ensures
        forall|k: int| 0 <= k < old[i].types@[j].fields@.len() ==> carries_resolution(
            (#[trigger] old[i].types@[j].fields@[k]).ty, new[i].types@[j].fields@[k].ty, old[i], old),
        forall|k: int| 0 <= k < old[i].types@[j].methods@.len() ==> ({
            let om = #[trigger] old[i].types@[j].methods@[k];
            let nm = new[i].types@[j].methods@[k];
            &&& om.return_type matches Some(t) ==> (nm.return_type matches Some(u) && carries_resolution(t, u, old[i], old))
            &&& nm.args@.len() == om.args@.len()
            &&& forall|a: int| 0 <= a < om.args@.len() ==> carries_resolution(om.args@[a].ty, nm.args@[a].ty, old[i], old)
        }),
        forall|k: int| 0 <= k < old[i].types@[j].constructors@.len() ==> ({
            let oc = #[trigger] old[i].types@[j].constructors@[k];
            let nc = new[i].types@[j].constructors@[k];
            &&& nc.args@.len() == oc.args@.len()
            &&& forall|a: int| 0 <= a < oc.args@.len() ==> carries_resolution(oc.args@[a].ty, nc.args@[a].ty, old[i], old)
        }),
{
    assert(file_resolved(old[i], new[i], old));
    let ot = old[i].types@[j];
    let nt = new[i].types@[j];
    assert(type_resolved(ot, nt, old[i], old));
    assert forall|k: int| 0 <= k < ot.fields@.len() implies carries_resolution(
        (#[trigger] ot.fields@[k]).ty, nt.fields@[k].ty, old[i], old) by {
        assert(field_resolved(ot.fields@[k], nt.fields@[k], old[i], old));
    }
    assert forall|k: int| 0 <= k < ot.methods@.len() implies ({
        let om = #[trigger] ot.methods@[k];
        let nm = nt.methods@[k];
        &&& om.return_type matches Some(t) ==> (nm.return_type matches Some(u) && carries_resolution(t, u, old[i], old))
        &&& nm.args@.len() == om.args@.len()
        &&& forall|a: int| 0 <= a < om.args@.len() ==> carries_resolution(om.args@[a].ty, nm.args@[a].ty, old[i], old)
    }) by {
        let om = ot.methods@[k];
        let nm = nt.methods@[k];
        assert(method_resolved(om, nm, old[i], old));
        assert forall|a: int| 0 <= a < om.args@.len() implies carries_resolution(om.args@[a].ty, nm.args@[a].ty, old[i], old) by {
            assert(argument_resolved(om.args@[a], nm.args@[a], old[i], old));
        }
    }
    assert forall|k: int| 0 <= k < ot.constructors@.len() implies ({
        let oc = #[trigger] ot.constructors@[k];
        let nc = nt.constructors@[k];
        &&& nc.args@.len() == oc.args@.len()
        &&& forall|a: int| 0 <= a < oc.args@.len() ==> carries_resolution(oc.args@[a].ty, nc.args@[a].ty, old[i], old)
    }) by {
        let oc = ot.constructors@[k];
        let nc = nt.constructors@[k];
        assert(constructor_resolved(oc, nc, old[i], old));
        assert forall|a: int| 0 <= a < oc.args@.len() implies carries_resolution(oc.args@[a].ty, nc.args@[a].ty, old[i], old) by {
            assert(argument_resolved(oc.args@[a], nc.args@[a], old[i], old));
        }
    }
}

proof fn lemma_package_pairs_contains(files: Seq<JavaFile>, a: int, b: int)
    requires
        0 <= a < files.len(),
        0 <= b < files[a].types@.len(),
    ensures
        package_pairs(files).contains((pkg_of(files[a]), files[a].types@[b].name@)),
    decreases files.len(),
{
    let init = files.drop_last();
    if a < files.len() - 1 {
        assert(init[a] == files[a]);
        lemma_package_pairs_contains(init, a, b);
        let q = choose|q: int| 0 <= q < package_pairs(init).len()
            && package_pairs(init)[q] == (pkg_of(files[a]), files[a].types@[b].name@);
        assert(package_pairs(files)[q] == package_pairs(init)[q]);
    } else {
        let tp = type_pairs(files.last().types@, pkg_of(files.last()));
        assert(tp[b] == (pkg_of(files[a]), files[a].types@[b].name@));
        assert(package_pairs(files)[package_pairs(init).len() + b] == tp[b]);
    }
}

/// A simple (unqualified) name that a file without imports uses for a type
/// declared at top level in a file of its own package resolves to
/// `package.Name`, unless some default-package type is itself named `Name`.
pub proof fn lemma_same_package_name_resolves(r: JavaReferenceType, file: JavaFile, files: Seq<JavaFile>, a: int, b: int)
    requires
        r.qualifier is None,
        file.imports@.len() == 0,
        0 <= a < files.len(),
        0 <= b < files[a].types@.len(),
        pkg_of(files[a]) == pkg_of(file),
        files[a].types@[b].name@ == r.name@,
        !known_fqns(files).contains(r.name@),
    ensures
        resolve_reference_spec(r, file, files) == Some(join_fqn(pkg_of(file), r.name@)),
{
    lemma_package_pairs_contains(files, a, b);
    assert(reference_segments(r) == seq![r.name@]);
    assert(join_dots(seq![r.name@]) == r.name@);
    assert(imports_of(file) =~= Seq::<Seq<char>>::empty());
    assert(split_imports_spec(imports_of(file)).1 == Seq::<Seq<char>>::empty());
}

/// A simple name that a file imports by a single-type import of a parsed
/// type (its only import) resolves to that import's FQN, unless some
/// default-package type is itself named that way.
pub proof fn lemma_imported_name_resolves(r: JavaReferenceType, file: JavaFile, files: Seq<JavaFile>)
    requires
        r.qualifier is None,
        file.imports@.len() == 1,
        file.imports@[0]@ != seq!['*'],
        known_fqns(files).contains(file.imports@[0]@),
        last_segment(file.imports@[0]@) == r.name@,
        !known_fqns(files).contains(r.name@),
    ensures
        resolve_reference_spec(r, file, files) == Some(file.imports@[0]@),
{
    let fqn = file.imports@[0]@;
    assert(reference_segments(r) == seq![r.name@]);
    assert(join_dots(seq![r.name@]) == r.name@);
    assert(imports_of(file) =~= seq![fqn]);
    let split = split_imports_spec(seq![fqn]);
    assert(seq![fqn].drop_first() =~= Seq::<Seq<char>>::empty());
    let e = Seq::<Seq<char>>::empty();
    assert(split_imports_spec(e) == (e, e));
    assert(seq![fqn][0] == fqn);
    assert(split.1 == seq![fqn] + e);
    assert(seq![fqn] + e =~= seq![fqn]);
    assert(split.0 =~= e);
    assert(seq![fqn].drop_last() =~= Seq::<Seq<char>>::empty());
    assert(explicit_binding(seq![fqn], known_fqns(files), r.name@) == Some(fqn));
}

/// A simple name that a file brings in by a wildcard import (its only
/// import) of a package that declares it resolves to `package.Name`, unless
/// the file's own package or the default package has a type of that name.
pub proof fn lemma_wildcard_imported_name_resolves(r: JavaReferenceType, file: JavaFile, files: Seq<JavaFile>, a: int, b: int)
    requires
        r.qualifier is None,
        file.imports@.len() == 2,
        file.imports@[0]@ != seq!['*'],
        file.imports@[1]@ == seq!['*'],
        0 <= a < files.len(),
        0 <= b < files[a].types@.len(),
        pkg_of(files[a]) == file.imports@[0]@,
        files[a].types@[b].name@ == r.name@,
        !package_declares(files, pkg_of(file), r.name@),
        !known_fqns(files).contains(r.name@),
    ensures
        resolve_reference_spec(r, file, files) == Some(join_fqn(file.imports@[0]@, r.name@)),
{
    let pkg = file.imports@[0]@;
    lemma_package_pairs_contains(files, a, b);
    assert(reference_segments(r) == seq![r.name@]);
    assert(join_dots(seq![r.name@]) == r.name@);
    assert(imports_of(file) =~= seq![pkg, seq!['*']]);
    assert(seq![pkg, seq!['*']].skip(2) =~= Seq::<Seq<char>>::empty());
    let split = split_imports_spec(seq![pkg, seq!['*']]);
    let e = Seq::<Seq<char>>::empty();
    assert(split_imports_spec(e) == (e, e));
    assert(seq![pkg, seq!['*']][0] == pkg && seq![pkg, seq!['*']][1] == seq!['*']);
    assert(split.0 == seq![pkg] + e);
    assert(seq![pkg] + e =~= seq![pkg]);
    assert(split.1 =~= e);
    assert(seq![pkg].drop_last() =~= e);
    assert(wildcard_binding(seq![pkg], files, r.name@) == Some(join_fqn(pkg, r.name@)));
}

/// A supertype that a top-level type names by a simple name declared in its
/// own package (the file has no imports, and no default-package type carries
/// that bare name) is resolved to `package.Name`.
pub proof fn lemma_same_package_supertype_resolves(old: Seq<JavaFile>, new: Seq<JavaFile>, i: int, j: int, k: int, a: int, b: int)
    requires
        files_resolved(old, new),
        0 <= i < old.len(),
        0 <= j < old[i].types@.len(),
        0 <= k < old[i].types@[j].implements@.len(),
        old[i].types@[j].implements@[k] matches JavaTypeRef::Reference(r) && r.qualifier is None
            && files_name_same_package(old, i, a, b, r.name@),
        old[i].imports@.len() == 0,
    ensures
        new[i].types@[j].implements@[k] matches JavaTypeRef::Reference(n)
            && n.resolved_fqn matches Some(fqn) && fqn@ == join_fqn(pkg_of(old[i]), n.name@),
{
    lemma_supertypes_resolved(old, new, i, j);
    let r = old[i].types@[j].implements@[k]->Reference_0;
    lemma_same_package_name_resolves(r, old[i], old, a, b);
}

/// File `a` of `files` shares the package of file `i` and declares a
/// top-level type `b` named `name`, and no default-package type carries the
/// bare name `name`.
pub open spec fn files_name_same_package(files: Seq<JavaFile>, i: int, a: int, b: int, name: Seq<char>) -> bool {
    &&& 0 <= i < files.len()
    &&& 0 <= a < files.len()
    &&& 0 <= b < files[a].types@.len()
    &&& pkg_of(files[a]) == pkg_of(files[i])
    &&& files[a].types@[b].name@ == name
    &&& !known_fqns(files).contains(name)
}

/// Whether two (file, file set) contexts give every reference the same
/// meaning: same package and imports, same known types.
pub open spec fn same_scope(f1: JavaFile, fs1: Seq<JavaFile>, f2: JavaFile, fs2: Seq<JavaFile>) -> bool {
    &&& pkg_of(f1) == pkg_of(f2)
    &&& imports_of(f1) == imports_of(f2)
    &&& known_fqns(fs1) == known_fqns(fs2)
    &&& package_pairs(fs1) == package_pairs(fs2)
}

proof fn lemma_wildcard_binding_alike(wildcards: Seq<Seq<char>>, fs1: Seq<JavaFile>, fs2: Seq<JavaFile>, simple: Seq<char>)
    requires
        package_pairs(fs1) == package_pairs(fs2),
    ensures
        wildcard_binding(wildcards, fs1, simple) == wildcard_binding(wildcards, fs2, simple),
    decreases wildcards.len(),
{
    if wildcards.len() > 0 {
        lemma_wildcard_binding_alike(wildcards.drop_last(), fs1, fs2, simple);
    }
}

proof fn lemma_same_scope_resolves_alike(r: JavaReferenceType, f1: JavaFile, fs1: Seq<JavaFile>, f2: JavaFile, fs2: Seq<JavaFile>)
    requires
        same_scope(f1, fs1, f2, fs2),
    ensures
        resolve_reference_spec(r, f1, fs1) == resolve_reference_spec(r, f2, fs2),
{
    let segs = reference_segments(r);
    let split = split_imports_spec(imports_of(f1));
    lemma_wildcard_binding_alike(split.0, fs1, fs2, segs[0]);
    assert(scope_binding(f1, fs1, segs[0]) == scope_binding(f2, fs2, segs[0]));
}

proof fn lemma_ref_settled(old: JavaTypeRef, new: JavaTypeRef, f1: JavaFile, fs1: Seq<JavaFile>, f2: JavaFile, fs2: Seq<JavaFile>)
    requires
        ref_resolved(old, new, f1, fs1),
        same_scope(f1, fs1, f2, fs2),
    ensures
        ref_resolved(new, new, f2, fs2),
    decreases old,
{
    match old {
        JavaTypeRef::Reference(r) => {
            let n = new->Reference_0;
            lemma_same_scope_resolves_alike(n, f1, fs1, f2, fs2);
            assert(reference_segments(n) == reference_segments(r));
            assert forall|i: int| 0 <= i < n.args@.len()
                implies type_argument_resolved(n.args@[i], #[trigger] n.args@[i], f2, fs2) by {
                assert(type_argument_resolved(r.args@[i], n.args@[i], f1, fs1));
                lemma_argument_settled(r.args@[i], n.args@[i], f1, fs1, f2, fs2);
            }
        },
        JavaTypeRef::Array { element, dimensions } => {
            lemma_ref_settled(*element, *new->Array_element, f1, fs1, f2, fs2);
        },
        JavaTypeRef::Wildcard { annotations, bound } => {
            match bound {
                Some(JavaWildcardBound::Extends(t)) => {
                    let u = new->Wildcard_bound->0->Extends_0;
                    lemma_ref_settled(*t, *u, f1, fs1, f2, fs2);
                },
                Some(JavaWildcardBound::Super(t)) => {
                    let u = new->Wildcard_bound->0->Super_0;
                    lemma_ref_settled(*t, *u, f1, fs1, f2, fs2);
                },
                None => {},
            }
        },
        JavaTypeRef::Annotated { annotations, inner } => {
            lemma_ref_settled(*inner, *new->Annotated_inner, f1, fs1, f2, fs2);
        },
        _ => {},
    }
}

proof fn lemma_argument_settled(old: JavaTypeArgument, new: JavaTypeArgument, f1: JavaFile, fs1: Seq<JavaFile>, f2: JavaFile, fs2: Seq<JavaFile>)
    requires
        type_argument_resolved(old, new, f1, fs1),
        same_scope(f1, fs1, f2, fs2),
    ensures
        type_argument_resolved(new, new, f2, fs2),
    decreases old,
{
    match old {
        JavaTypeArgument::Type(t) => lemma_ref_settled(t, new->Type_0, f1, fs1, f2, fs2),
        JavaTypeArgument::Wildcard(t) => lemma_ref_settled(t, new->Wildcard_0, f1, fs1, f2, fs2),
    }
}

proof fn lemma_refs_settled(old: Seq<JavaTypeRef>, new: Seq<JavaTypeRef>, f1: JavaFile, fs1: Seq<JavaFile>, f2: JavaFile, fs2: Seq<JavaFile>)
    requires
        refs_resolved(old, new, f1, fs1),
        same_scope(f1, fs1, f2, fs2),
    ensures
        refs_resolved(new, new, f2, fs2),
{
    assert forall|i: int| 0 <= i < new.len() implies ref_resolved(new[i], new[i], f2, fs2) by {
        lemma_ref_settled(old[i], new[i], f1, fs1, f2, fs2);
    }
}

proof fn lemma_arguments_settled(old: Seq<JavaArgument>, new: Seq<JavaArgument>, f1: JavaFile, fs1: Seq<JavaFile>, f2: JavaFile, fs2: Seq<JavaFile>)
    requires
        arguments_resolved(old, new, f1, fs1),
        same_scope(f1, fs1, f2, fs2),
    ensures
        arguments_resolved(new, new, f2, fs2),
{
    assert forall|i: int| 0 <= i < new.len() implies argument_resolved(new[i], new[i], f2, fs2) by {
        lemma_ref_settled(old[i].ty, new[i].ty, f1, fs1, f2, fs2);
    }
}

proof fn lemma_type_parameters_settled(old: Seq<JavaTypeParameter>, new: Seq<JavaTypeParameter>, f1: JavaFile, fs1: Seq<JavaFile>, f2: JavaFile, fs2: Seq<JavaFile>)
    requires
        type_parameters_resolved(old, new, f1, fs1),
        same_scope(f1, fs1, f2, fs2),
    ensures
        type_parameters_resolved(new, new, f2, fs2),
{
    assert forall|i: int| 0 <= i < new.len() implies type_parameter_resolved(new[i], new[i], f2, fs2) by {
        lemma_refs_settled(old[i].bounds@, new[i].bounds@, f1, fs1, f2, fs2);
    }
}

proof fn lemma_value_settled(old: JavaAnnotationValue, new: JavaAnnotationValue, f1: JavaFile, fs1: Seq<JavaFile>, f2: JavaFile, fs2: Seq<JavaFile>)
    requires
        value_resolved(old, new, f1, fs1),
        same_scope(f1, fs1, f2, fs2),
    ensures
        value_resolved(new, new, f2, fs2),
    decreases old,
{
    match old {
        JavaAnnotationValue::ClassLiteral(t) => lemma_ref_settled(t, new->ClassLiteral_0, f1, fs1, f2, fs2),
        JavaAnnotationValue::Array(vs) => {
            let ws = new->Array_0;
            assert forall|i: int| 0 <= i < ws@.len() implies value_resolved(ws@[i], ws@[i], f2, fs2) by {
                lemma_value_settled(vs@[i], ws@[i], f1, fs1, f2, fs2);
            }
        },
        _ => {},
    }
}

proof fn lemma_type_settled(old: JavaType, new: JavaType, f1: JavaFile, fs1: Seq<JavaFile>, f2: JavaFile, fs2: Seq<JavaFile>)
    requires
        type_resolved(old, new, f1, fs1),
        same_scope(f1, fs1, f2, fs2),
    ensures
        type_resolved(new, new, f2, fs2),
    decreases old,
{
    assert forall|i: int| 0 <= i < new.type_parameters@.len()
        implies type_parameter_resolved(new.type_parameters@[i], new.type_parameters@[i], f2, fs2) by {
        lemma_refs_settled(old.type_parameters@[i].bounds@, new.type_parameters@[i].bounds@, f1, fs1, f2, fs2);
    }
    lemma_refs_settled(old.extends@, new.extends@, f1, fs1, f2, fs2);
    lemma_refs_settled(old.implements@, new.implements@, f1, fs1, f2, fs2);
    assert forall|i: int| 0 <= i < new.fields@.len() implies field_resolved(new.fields@[i], new.fields@[i], f2, fs2) by {
        lemma_ref_settled(old.fields@[i].ty, new.fields@[i].ty, f1, fs1, f2, fs2);
    }
    assert forall|i: int| 0 <= i < new.constructors@.len()
        implies constructor_resolved(new.constructors@[i], new.constructors@[i], f2, fs2) by {
        lemma_type_parameters_settled(old.constructors@[i].type_parameters@, new.constructors@[i].type_parameters@, f1, fs1, f2, fs2);
        lemma_arguments_settled(old.constructors@[i].args@, new.constructors@[i].args@, f1, fs1, f2, fs2);
        lemma_refs_settled(old.constructors@[i].throws@, new.constructors@[i].throws@, f1, fs1, f2, fs2);
    }
    assert forall|i: int| 0 <= i < new.methods@.len() implies method_resolved(new.methods@[i], new.methods@[i], f2, fs2) by {
        let (m, n) = (old.methods@[i], new.methods@[i]);
        lemma_type_parameters_settled(m.type_parameters@, n.type_parameters@, f1, fs1, f2, fs2);
        if let Some(t) = m.return_type {
            lemma_ref_settled(t, n.return_type->0, f1, fs1, f2, fs2);
        }
        lemma_arguments_settled(m.args@, n.args@, f1, fs1, f2, fs2);
        lemma_refs_settled(m.throws@, n.throws@, f1, fs1, f2, fs2);
    }
    lemma_arguments_settled(old.record_components@, new.record_components@, f1, fs1, f2, fs2);
    assert forall|i: int| 0 <= i < new.annotation_elements@.len()
        implies element_resolved(new.annotation_elements@[i], new.annotation_elements@[i], f2, fs2) by {
        let (e, n) = (old.annotation_elements@[i], new.annotation_elements@[i]);
        lemma_ref_settled(e.return_type, n.return_type, f1, fs1, f2, fs2);
        if let Some(v) = e.default_value {
            lemma_value_settled(v, n.default_value->0, f1, fs1, f2, fs2);
        }
    }
    assert forall|i: int| 0 <= i < new.nested_types@.len()
        implies type_resolved(new.nested_types@[i], new.nested_types@[i], f2, fs2) by {
        lemma_type_settled(old.nested_types@[i], new.nested_types@[i], f1, fs1, f2, fs2);
    }
}

proof fn lemma_nested_fqns_kept(old: Seq<JavaType>, new: Seq<JavaType>, parent: Seq<char>, f1: JavaFile, fs1: Seq<JavaFile>)
    requires
        new.len() == old.len(),
        forall|i: int| 0 <= i < old.len() ==> type_resolved(old[i], new[i], f1, fs1),
    ensures
        nested_fqns(new, parent) == nested_fqns(old, parent),
    decreases old,
{
    if old.len() > 0 {
        let (t, u) = (old.last(), new.last());
        assert(type_resolved(t, u, f1, fs1));
        lemma_nested_fqns_kept(old.drop_last(), new.drop_last(), parent, f1, fs1);
        lemma_nested_fqns_kept(t.nested_types@, u.nested_types@, dotted(parent, t.name@), f1, fs1);
    }
}

proof fn lemma_declared_fqns_kept(old: Seq<JavaType>, new: Seq<JavaType>, pkg: Seq<char>, f1: JavaFile, fs1: Seq<JavaFile>)
    requires
        new.len() == old.len(),
        forall|i: int| 0 <= i < old.len() ==> type_resolved(old[i], new[i], f1, fs1),
    ensures
        declared_fqns(new, pkg) == declared_fqns(old, pkg),
        type_pairs(new, pkg) == type_pairs(old, pkg),
    decreases old.len(),
{
    if old.len() > 0 {
        let (t, u) = (old.last(), new.last());
        assert(type_resolved(t, u, f1, fs1));
        lemma_declared_fqns_kept(old.drop_last(), new.drop_last(), pkg, f1, fs1);
        lemma_nested_fqns_kept(t.nested_types@, u.nested_types@, join_fqn(pkg, t.name@), f1, fs1);
    }
    assert(type_pairs(new, pkg) =~= type_pairs(old, pkg));
}

proof fn lemma_index_kept(old: Seq<JavaFile>, new: Seq<JavaFile>, all: Seq<JavaFile>)
    requires
        new.len() == old.len(),
        forall|i: int| 0 <= i < old.len() ==> file_resolved(old[i], new[i], all),
    ensures
        known_fqns(new) == known_fqns(old),
        package_pairs(new) == package_pairs(old),
    decreases old.len(),
{
    if old.len() > 0 {
        let (f, g) = (old.last(), new.last());
        assert(file_resolved(f, g, all));
        assert(new.drop_last().len() == old.drop_last().len());
        assert forall|i: int| 0 <= i < old.drop_last().len() implies file_resolved(old.drop_last()[i], new.drop_last()[i], all) by {
            assert(old.drop_last()[i] == old[i] && new.drop_last()[i] == new[i]);
        }
        lemma_index_kept(old.drop_last(), new.drop_last(), all);
        lemma_declared_fqns_kept(f.types@, g.types@, pkg_of(f), f, all);
        assert(pkg_of(g) == pkg_of(f));
    }
}

/// Resolution settles a file set: resolving the result of resolution again
/// changes nothing (every reference already carries the FQN it resolves to).
pub proof fn lemma_resolution_idempotent(old: Seq<JavaFile>, new: Seq<JavaFile>)
    requires
        files_resolved(old, new),
    ensures
        files_resolved(new, new),
{
    lemma_index_kept(old, new, old);
    assert forall|i: int| 0 <= i < new.len() implies file_resolved(new[i], new[i], new) by {
        let (f, g) = (old[i], new[i]);
        assert(file_resolved(f, g, old));
        assert(imports_of(g) == imports_of(f));
        assert(same_scope(f, old, g, new));
        assert forall|k: int| 0 <= k < g.types@.len() implies type_resolved(g.types@[k], g.types@[k], g, new) by {
            lemma_type_settled(f.types@[k], g.types@[k], f, old, g, new);
        }
    }
}

// ---------------------------------------------------------------------------
// Executable index and scope.
// ---------------------------------------------------------------------------

/// The texts of a sequence of strings.
pub open spec fn strs(v: Seq<String>) -> Seq<Seq<char>> {
    v.map_values(|s: String| s@)
}

/// The text of an optional string.
pub open spec fn opt_text(o: Option<String>) -> Option<Seq<char>> {
    match o {
        Some(s) => Some(s@),
        None => None,
    }
}

/// Set of known FQNs across all parsed files, plus the (package, simple
/// name) pairs of all top-level types for wildcard and same-package lookup.
struct GlobalIndex {
    all_fqns: Vec<String>,
    by_package: Vec<(String, String)>,
}

/// The texts of a sequence of string pairs.
pub open spec fn str_pairs(v: Seq<(String, String)>) -> Seq<(Seq<char>, Seq<char>)> {
    v.map_values(|p: (String, String)| (p.0@, p.1@))
}

impl GlobalIndex {
    /// The index describes exactly the file set `files`.
    spec fn models(&self, files: Seq<JavaFile>) -> bool {
        &&& strs(self.all_fqns@) == known_fqns(files)
        &&& str_pairs(self.by_package@) == package_pairs(files)
    }

    /// Builds the index of `files`.
    fn build(files: &Vec<JavaFile>) -> (idx: GlobalIndex)
        ensures
            idx.models(files@),
    {
        let mut all_fqns: Vec<String> = Vec::new();
        let mut by_package: Vec<(String, String)> = Vec::new();
        for i in 0..files.len()
            invariant
                strs(all_fqns@) == known_fqns(files@.take(i as int)),
                str_pairs(by_package@) == package_pairs(files@.take(i as int)),
        {
            let file = &files[i];
            let pkg: String = match &file.package {
                Some(p) => copy_string(p),
                None => String::new(),
            };
            let ghost before = all_fqns@;
            let ghost pairs_before = by_package@;
            for j in 0..file.types.len()
                invariant
                    file == files@[i as int],
                    pkg@ == pkg_of(*file),
                    strs(all_fqns@) == strs(before) + declared_fqns(file.types@.take(j as int), pkg@),
                    str_pairs(by_package@) == str_pairs(pairs_before) + type_pairs(file.types@.take(j as int), pkg@),
            {
                let ty = &file.types[j];
                let fqn = join_fqn_exec(&pkg, &ty.name);
                let ghost mid = all_fqns@;
                all_fqns.push(copy_string(&fqn));
                assert(strs(all_fqns@) =~= strs(mid).push(fqn@));
                let ghost pmid = by_package@;
                by_package.push((copy_string(&pkg), copy_string(&ty.name)));
                proof {
                    assert(str_pairs(by_package@) =~= str_pairs(pmid).push((pkg@, ty.name@)));
                    assert(type_pairs(file.types@.take(j + 1), pkg@) =~= type_pairs(file.types@.take(j as int), pkg@).push((pkg@, ty.name@)));
                }
                let ghost mid2 = all_fqns@;
                collect_nested_fqns(&ty.nested_types, &fqn, &mut all_fqns);
                proof {
                    let t = file.types@.take(j + 1);
                    assert(t.drop_last() == file.types@.take(j as int));
                    assert(t.last() == *ty);
                    assert(declared_fqns(t, pkg@) == declared_fqns(file.types@.take(j as int), pkg@) + seq![fqn@]
                        + nested_fqns(ty.nested_types@, fqn@));
                    assert(strs(all_fqns@) =~= strs(before) + declared_fqns(t, pkg@));
                }
            }
            proof {
                assert(file.types@.take(file.types@.len() as int) == file.types@);
                let f = files@.take(i + 1);
                assert(f.drop_last() == files@.take(i as int));
                assert(f.last() == *file);
            }
        }
        assert(files@.take(files@.len() as int) == files@);
        GlobalIndex { all_fqns, by_package }
    }

    /// Whether `fqn` is one of the known FQNs.
    fn contains(&self, fqn: &String) -> (r: bool)
        ensures
            r == strs(self.all_fqns@).contains(fqn@),
    {
        let mut i: usize = 0;
        while i < self.all_fqns.len()
            invariant
                i <= self.all_fqns@.len(),
                forall|k: int| 0 <= k < i ==> self.all_fqns@[k]@ != fqn@,
            decreases self.all_fqns@.len() - i,
        {
            if self.all_fqns[i] == *fqn {
                assert(strs(self.all_fqns@)[i as int] == fqn@);
                return true;
            }
            i = i + 1;
        }
        assert forall|k: int| 0 <= k < strs(self.all_fqns@).len() implies strs(self.all_fqns@)[k] != fqn@ by {
            assert(self.all_fqns@[k]@ != fqn@);
        }
        false
    }

    /// Whether package `pkg` declares a top-level type named `simple`.
    fn declares(&self, pkg: &String, simple: &String) -> (r: bool)
        ensures
            r == str_pairs(self.by_package@).contains((pkg@, simple@)),
    {
        let mut i: usize = 0;
        while i < self.by_package.len()
            invariant
                i <= self.by_package@.len(),
                forall|k: int| 0 <= k < i ==> str_pairs(self.by_package@)[k] != (pkg@, simple@),
            decreases self.by_package@.len() - i,
        {
            if self.by_package[i].0 == *pkg && self.by_package[i].1 == *simple {
                assert(str_pairs(self.by_package@)[i as int] == (pkg@, simple@));
                return true;
            }
            i = i + 1;
        }
        false
    }
}

/// `pkg.name`, or just `name` in the default package.
fn join_fqn_exec(pkg: &String, name: &String) -> (r: String)
    ensures
        r@ == join_fqn(pkg@, name@),
{
    if pkg.as_str().is_empty() {
        copy_string(name)
    } else {
        join_dotted(pkg.as_str(), name.as_str())
    }
}

/// Appends the FQNs of the types nested under `types` (whose enclosing type
/// is `parent_fqn`) to `out`.
fn collect_nested_fqns(types: &Vec<JavaType>, parent_fqn: &String, out: &mut Vec<String>)
    ensures
        strs(final(out)@) == strs(old(out)@) + nested_fqns(types@, parent_fqn@),
    decreases types@,
{
    let ghost start = out@;
    for i in 0..types.len()
        invariant
            strs(out@) == strs(start) + nested_fqns(types@.take(i as int), parent_fqn@),
    {
        let nested = &types[i];
        let fqn = join_dotted(parent_fqn.as_str(), nested.name.as_str());
        let ghost mid = out@;
        out.push(copy_string(&fqn));
        assert(strs(out@) =~= strs(mid).push(fqn@));
        collect_nested_fqns(&nested.nested_types, &fqn, out);
        proof {
            let t = types@.take(i + 1);
            assert(t.drop_last() == types@.take(i as int));
            assert(t.last() == *nested);
            assert(nested_fqns(t, parent_fqn@) == nested_fqns(types@.take(i as int), parent_fqn@) + seq![fqn@]
                + nested_fqns(nested.nested_types@, fqn@));
            assert(strs(out@) =~= strs(start) + nested_fqns(t, parent_fqn@));
        }
    }
    assert(types@.take(types@.len() as int) == types@);
}

/// Simple-name lookup for one file's lexical type scope.
struct FileScope {
    wildcards: Vec<String>,
    explicit: Vec<String>,
    package: String,
}

impl FileScope {
    /// The scope was built from the imports and package of `file`.
    spec fn models(&self, file: JavaFile) -> bool {
        &&& (strs(self.wildcards@), strs(self.explicit@)) == split_imports_spec(imports_of(file))
        &&& self.package@ == pkg_of(file)
    }

    /// Builds the scope of `file`.
    fn build(file: &JavaFile) -> (scope: FileScope)
        ensures
            scope.models(*file),
    {
        let (wildcards, explicit) = split_imports(&file.imports);
        let package = match &file.package {
            Some(p) => copy_string(p),
            None => String::new(),
        };
        FileScope { wildcards, explicit, package }
    }

    /// What the simple name `simple` refers to in this scope.
    fn lookup(&self, index: &GlobalIndex, simple: &String, Ghost(file): Ghost<JavaFile>, Ghost(files): Ghost<Seq<JavaFile>>) -> (r: Option<String>)
        requires
            self.models(file),
            index.models(files),
        ensures
            opt_text(r) == scope_binding(file, files, simple@),
    {
        let ghost explicit = strs(self.explicit@);
        let ghost known = known_fqns(files);
        let mut k = self.explicit.len();
        assert(explicit.take(k as int) == explicit);
        while k > 0
            invariant
                k <= self.explicit@.len(),
                self.models(file),
                explicit == strs(self.explicit@),
                known == strs(index.all_fqns@),
                known == known_fqns(files),
                explicit_binding(explicit, known, simple@) == explicit_binding(explicit.take(k as int), known, simple@),
            decreases k,
        {
            let candidate = &self.explicit[k - 1];
            assert(explicit.take(k as int).last() == candidate@);
            assert(explicit.take(k as int).drop_last() == explicit.take(k - 1));
            if index.contains(candidate) {
                let last = last_segment_of(candidate.as_str());
                if last == *simple {
                    assert(explicit_binding(explicit.take(k as int), known, simple@) == Some(candidate@));
                    return Some(copy_string(candidate));
                }
            }
            k = k - 1;
        }
        if index.declares(&self.package, simple) {
            return Some(join_fqn_exec(&self.package, simple));
        }
        let ghost wildcards = strs(self.wildcards@);
        let mut k = self.wildcards.len();
        assert(wildcards.take(k as int) == wildcards);
        assert(!package_declares(files, pkg_of(file), simple@));
        while k > 0
            invariant
                k <= self.wildcards@.len(),
                self.models(file),
                explicit_binding(strs(self.explicit@), known_fqns(files), simple@) is None,
                !package_declares(files, pkg_of(file), simple@),
                wildcards == strs(self.wildcards@),
                str_pairs(index.by_package@) == package_pairs(files),
                wildcard_binding(wildcards, files, simple@) == wildcard_binding(wildcards.take(k as int), files, simple@),
            decreases k,
        {
            let candidate = &self.wildcards[k - 1];
            assert(wildcards.take(k as int).last() == candidate@);
            assert(wildcards.take(k as int).drop_last() == wildcards.take(k - 1));
            if index.declares(candidate, simple) {
                assert(wildcard_binding(wildcards.take(k as int), files, simple@) == Some(join_fqn(candidate@, simple@)));
                return Some(join_fqn_exec(candidate, simple));
            }
            k = k - 1;
        }
        None
    }
}

/// Splits raw import entries (`[com.x, *, com.y.Z]`) into wildcard packages
/// and explicit single-type imports.
///
/// The parser records the imported name and the asterisk of a wildcard
/// import as separate entries, so the grouping is rebuilt with one-step
/// lookahead.
fn split_imports(imports: &Vec<String>) -> (r: (Vec<String>, Vec<String>))
    ensures
        (strs(r.0@), strs(r.1@)) == split_imports_spec(strs(imports@)),
{
    proof { reveal_strlit("*"); }
    let ghost all = strs(imports@);
    let mut wildcards: Vec<String> = Vec::new();
    let mut explicit: Vec<String> = Vec::new();
    let mut i: usize = 0;
    assert(all.skip(0) == all);
    while i < imports.len()
        invariant
            i <= imports@.len(),
            all == strs(imports@),
            split_imports_spec(all) == (strs(wildcards@) + split_imports_spec(all.skip(i as int)).0,
                strs(explicit@) + split_imports_spec(all.skip(i as int)).1),
        decreases imports@.len() - i,
    {
        proof {
            reveal_strlit("*");
            assert("*"@ =~= seq!['*']);
        }
        let ghost rest = all.skip(i as int);
        assert(rest[0] == imports@[i as int]@);
        if str_eq(imports[i].as_str(), "*") {
            assert(rest.drop_first() == all.skip(i + 1));
            i = i + 1;
        } else if i + 1 < imports.len() && str_eq(imports[i + 1].as_str(), "*") {
            assert(rest[1] == imports@[i + 1]@);
            assert(rest.skip(2) == all.skip(i + 2));
            let ghost w = wildcards@;
            wildcards.push(copy_string(&imports[i]));
            assert(strs(wildcards@) =~= strs(w) + seq![rest[0]]);
            assert(strs(wildcards@) + split_imports_spec(rest.skip(2)).0 =~= strs(w) + (seq![rest[0]] + split_imports_spec(rest.skip(2)).0));
            i = i + 2;
        } else {
            assert(rest.drop_first() == all.skip(i + 1));
            let ghost e = explicit@;
            explicit.push(copy_string(&imports[i]));
            assert(strs(explicit@) =~= strs(e) + seq![rest[0]]);
            assert(strs(explicit@) + split_imports_spec(rest.drop_first()).1 =~= strs(e) + (seq![rest[0]] + split_imports_spec(rest.drop_first()).1));
            i = i + 1;
        }
    }
    assert(all.skip(i as int) == Seq::<Seq<char>>::empty());
    assert(strs(wildcards@) + Seq::<Seq<char>>::empty() == strs(wildcards@));
    assert(strs(explicit@) + Seq::<Seq<char>>::empty() == strs(explicit@));
    (wildcards, explicit)
}

/// Appends the name segments of a qualifier to `out`.
fn collect_qualifier_segments(qualifier: &JavaTypeRef, out: &mut Vec<String>)
    ensures
        strs(final(out)@) == strs(old(out)@) + qualifier_segments(*qualifier),
    decreases qualifier,
{
    match qualifier {
        JavaTypeRef::Reference(r) => {
            if let Some(inner) = &r.qualifier {
                collect_qualifier_segments(inner, out);
            }
            let ghost mid = out@;
            out.push(copy_string(&r.name));
            assert(strs(out@) =~= strs(mid).push(r.name@));
        }
        JavaTypeRef::Annotated { inner, .. } => collect_qualifier_segments(inner, out),
        _ => {
            assert(strs(out@) =~= strs(out@) + Seq::<Seq<char>>::empty());
        }
    }
}

/// The name segments of a reference, outermost first.
fn collect_segments(reference: &JavaReferenceType) -> (segs: Vec<String>)
    ensures
        strs(segs@) == reference_segments(*reference),
{
    let mut segments: Vec<String> = Vec::new();
    if let Some(qualifier) = &reference.qualifier {
        collect_qualifier_segments(qualifier, &mut segments);
    }
    let ghost mid = segments@;
    segments.push(copy_string(&reference.name));
    assert(strs(segments@) =~= strs(mid).push(reference.name@));
    segments
}

/// The segments `segs[from..]` joined with dots.
fn join_segments(segs: &Vec<String>, from: usize) -> (r: String)
    requires
        from < segs@.len(),
    ensures
        r@ == join_dots(strs(segs@).subrange(from as int, segs@.len() as int)),
{
    let ghost all = strs(segs@);
    let n = segs.len();
    let mut acc = copy_string(&segs[from]);
    assert(all.subrange(from as int, from + 1) =~= seq![segs@[from as int]@]);
    let mut i = from + 1;
    while i < segs.len()
        invariant
            from < i <= segs@.len(),
            all == strs(segs@),
            acc@ == join_dots(all.subrange(from as int, i as int)),
        decreases segs@.len() - i,
    {
        let ghost sub = all.subrange(from as int, i + 1);
        assert(sub.drop_last() == all.subrange(from as int, i as int));
        assert(sub.last() == segs@[i as int]@);
        acc = join_dotted(acc.as_str(), segs[i].as_str());
        i = i + 1;
    }
    acc
}

/// Resolves one reference inside the scope of `file`.
fn resolve_reference(
    reference: &JavaReferenceType,
    scope: &FileScope,
    index: &GlobalIndex,
    Ghost(file): Ghost<JavaFile>,
    Ghost(files): Ghost<Seq<JavaFile>>,
) -> (r: Option<String>)
    requires
        scope.models(file),
        index.models(files),
    ensures
        opt_text(r) == resolve_reference_spec(*reference, file, files),
{
    let segments = collect_segments(reference);
    let ghost segs = strs(segments@);
    assert(segs.subrange(0, segs.len() as int) == segs);
    let joined = join_segments(&segments, 0);
    if index.contains(&joined) {
        return Some(joined);
    }
    let anchor = match scope.lookup(index, &segments[0], Ghost(file), Ghost(files)) {
        Some(anchor) => anchor,
        None => return None,
    };
    if segments.len() == 1 {
        return Some(anchor);
    }
    let rest = join_segments(&segments, 1);
    assert(segs.subrange(1, segs.len() as int) == segs.skip(1));
    let candidate = join_dotted(anchor.as_str(), rest.as_str());
    if index.contains(&candidate) {
        Some(candidate)
    } else {
        None
    }
}

// ---------------------------------------------------------------------------
// The resolution walk.
// ---------------------------------------------------------------------------

/// Resolves type references across the given files in place.
pub fn resolve_files(files: &mut Vec<JavaFile>)
    ensures
        files_resolved(old(files)@, final(files)@),
{
    let index = GlobalIndex::build(files);
    let ghost all = files@;
    let n = files.len();
    for i in 0..n
        invariant
            n == all.len(),
            files@.len() == all.len(),
            index.models(all),
            forall|j: int| 0 <= j < i ==> file_resolved(all[j], #[trigger] files@[j], all),
            forall|j: int| i <= j < all.len() ==> #[trigger] files@[j] == all[j],
    {
        let scope = FileScope::build(&files[i]);
        resolve_types(&mut files[i].types, &scope, &index, Ghost(all[i as int]), Ghost(all));
    }
}

/// Resolves each type declaration of a list in place.
fn resolve_types(
    types: &mut Vec<JavaType>,
    scope: &FileScope,
    index: &GlobalIndex,
    Ghost(file): Ghost<JavaFile>,
    Ghost(files): Ghost<Seq<JavaFile>>,
)
    requires
        scope.models(file),
        index.models(files),
    ensures
        final(types)@.len() == old(types)@.len(),
        forall|k: int| 0 <= k < old(types)@.len() ==> type_resolved(old(types)@[k], #[trigger] final(types)@[k], file, files),
    decreases old(types)@, 1nat,
{
    let ghost olds = types@;
    let n = types.len();
    for i in 0..n
        invariant
            n == olds.len(),
            olds == old(types)@,
            types@.len() == olds.len(),
            scope.models(file),
            index.models(files),
            forall|k: int| 0 <= k < i ==> type_resolved(olds[k], #[trigger] types@[k], file, files),
            forall|k: int| i <= k < olds.len() ==> #[trigger] types@[k] == olds[k],
    {
        proof { assert(decreases_to!(olds => olds[i as int])); }
        resolve_type(&mut types[i], scope, index, Ghost(file), Ghost(files));
    }
}

/// Resolves every reference reachable from one type declaration.
fn resolve_type(
    ty: &mut JavaType,
    scope: &FileScope,
    index: &GlobalIndex,
    Ghost(file): Ghost<JavaFile>,
    Ghost(files): Ghost<Seq<JavaFile>>,
)
    requires
        scope.models(file),
        index.models(files),
    ensures
        type_resolved(*old(ty), *final(ty), file, files),
    decreases *old(ty), 0nat,
{
    resolve_refs(&mut ty.extends, scope, index, Ghost(file), Ghost(files));
    resolve_refs(&mut ty.implements, scope, index, Ghost(file), Ghost(files));
    resolve_type_parameters(&mut ty.type_parameters, scope, index, Ghost(file), Ghost(files));
    resolve_fields(&mut ty.fields, scope, index, Ghost(file), Ghost(files));
    resolve_constructors(&mut ty.constructors, scope, index, Ghost(file), Ghost(files));
    resolve_methods(&mut ty.methods, scope, index, Ghost(file), Ghost(files));
    resolve_arguments(&mut ty.record_components, scope, index, Ghost(file), Ghost(files));
    resolve_elements(&mut ty.annotation_elements, scope, index, Ghost(file), Ghost(files));
    proof { assert(decreases_to!(*old(ty) => old(ty).nested_types@)); }
    resolve_types(&mut ty.nested_types, scope, index, Ghost(file), Ghost(files));
}

/// Resolves the bounds of each type parameter of a list in place.
fn resolve_type_parameters(
    items: &mut Vec<JavaTypeParameter>,
    scope: &FileScope,
    index: &GlobalIndex,
    Ghost(file): Ghost<JavaFile>,
    Ghost(files): Ghost<Seq<JavaFile>>,
)
    requires
        scope.models(file),
        index.models(files),
    ensures
        final(items)@.len() == old(items)@.len(),
        forall|k: int| 0 <= k < old(items)@.len() ==> type_parameter_resolved(old(items)@[k], #[trigger] final(items)@[k], file, files),
{
    let ghost olds = items@;
    let n = items.len();
    for i in 0..n
        invariant
            n == olds.len(),
            items@.len() == olds.len(),
            scope.models(file),
            index.models(files),
            forall|k: int| 0 <= k < i ==> type_parameter_resolved(olds[k], #[trigger] items@[k], file, files),
            forall|k: int| i <= k < olds.len() ==> #[trigger] items@[k] == olds[k],
    {
        resolve_refs(&mut items[i].bounds, scope, index, Ghost(file), Ghost(files));
    }
}

/// Resolves the type of each field of a list in place.
fn resolve_fields(
    items: &mut Vec<JavaField>,
    scope: &FileScope,
    index: &GlobalIndex,
    Ghost(file): Ghost<JavaFile>,
    Ghost(files): Ghost<Seq<JavaFile>>,
)
    requires
        scope.models(file),
        index.models(files),
    ensures
        final(items)@.len() == old(items)@.len(),
        forall|k: int| 0 <= k < old(items)@.len() ==> field_resolved(old(items)@[k], #[trigger] final(items)@[k], file, files),
{
    let ghost olds = items@;
    let n = items.len();
    for i in 0..n
        invariant
            n == olds.len(),
            items@.len() == olds.len(),
            scope.models(file),
            index.models(files),
            forall|k: int| 0 <= k < i ==> field_resolved(olds[k], #[trigger] items@[k], file, files),
            forall|k: int| i <= k < olds.len() ==> #[trigger] items@[k] == olds[k],
    {
        resolve_type_ref(&mut items[i].ty, scope, index, Ghost(file), Ghost(files));
    }
}

/// Resolves the type-parameter bounds, parameters and thrown types of each
/// constructor of a list in place.
fn resolve_constructors(
    items: &mut Vec<JavaConstructor>,
    scope: &FileScope,
    index: &GlobalIndex,
    Ghost(file): Ghost<JavaFile>,
    Ghost(files): Ghost<Seq<JavaFile>>,
)
    requires
        scope.models(file),
        index.models(files),
    ensures
        final(items)@.len() == old(items)@.len(),
        forall|k: int| 0 <= k < old(items)@.len() ==> constructor_resolved(old(items)@[k], #[trigger] final(items)@[k], file, files),
{
    let ghost olds = items@;
    let n = items.len();
    for i in 0..n
        invariant
            n == olds.len(),
            items@.len() == olds.len(),
            scope.models(file),
            index.models(files),
            forall|k: int| 0 <= k < i ==> constructor_resolved(olds[k], #[trigger] items@[k], file, files),
            forall|k: int| i <= k < olds.len() ==> #[trigger] items@[k] == olds[k],
    {
        resolve_type_parameters(&mut items[i].type_parameters, scope, index, Ghost(file), Ghost(files));
        resolve_arguments(&mut items[i].args, scope, index, Ghost(file), Ghost(files));
        resolve_refs(&mut items[i].throws, scope, index, Ghost(file), Ghost(files));
    }
}

/// Resolves each method of a list in place.
fn resolve_methods(
    items: &mut Vec<JavaMethod>,
    scope: &FileScope,
    index: &GlobalIndex,
    Ghost(file): Ghost<JavaFile>,
    Ghost(files): Ghost<Seq<JavaFile>>,
)
    requires
        scope.models(file),
        index.models(files),
    ensures
        final(items)@.len() == old(items)@.len(),
        forall|k: int| 0 <= k < old(items)@.len() ==> method_resolved(old(items)@[k], #[trigger] final(items)@[k], file, files),
{
    let ghost olds = items@;
    let n = items.len();
    for i in 0..n
        invariant
            n == olds.len(),
            items@.len() == olds.len(),
            scope.models(file),
            index.models(files),
            forall|k: int| 0 <= k < i ==> method_resolved(olds[k], #[trigger] items@[k], file, files),
            forall|k: int| i <= k < olds.len() ==> #[trigger] items@[k] == olds[k],
    {
        resolve_method(&mut items[i], scope, index, Ghost(file), Ghost(files));
    }
}

/// Resolves the type and default value of each annotation element of a list in place.
fn resolve_elements(
    items: &mut Vec<JavaAnnotationElement>,
    scope: &FileScope,
    index: &GlobalIndex,
    Ghost(file): Ghost<JavaFile>,
    Ghost(files): Ghost<Seq<JavaFile>>,
)
    requires
        scope.models(file),
        index.models(files),
    ensures
        final(items)@.len() == old(items)@.len(),
        forall|k: int| 0 <= k < old(items)@.len() ==> element_resolved(old(items)@[k], #[trigger] final(items)@[k], file, files),
{
    let ghost olds = items@;
    let n = items.len();
    for i in 0..n
        invariant
            n == olds.len(),
            items@.len() == olds.len(),
            scope.models(file),
            index.models(files),
            forall|k: int| 0 <= k < i ==> element_resolved(olds[k], #[trigger] items@[k], file, files),
            forall|k: int| i <= k < olds.len() ==> #[trigger] items@[k] == olds[k],
    {
        resolve_element(&mut items[i], scope, index, Ghost(file), Ghost(files));
    }
}

/// Resolves each reference of a list in place.
fn resolve_refs(
    items: &mut Vec<JavaTypeRef>,
    scope: &FileScope,
    index: &GlobalIndex,
    Ghost(file): Ghost<JavaFile>,
    Ghost(files): Ghost<Seq<JavaFile>>,
)
    requires
        scope.models(file),
        index.models(files),
    ensures
        final(items)@.len() == old(items)@.len(),
        forall|k: int| 0 <= k < old(items)@.len() ==> ref_resolved(old(items)@[k], #[trigger] final(items)@[k], file, files),
{
    let ghost olds = items@;
    let n = items.len();
    for i in 0..n
        invariant
            n == olds.len(),
            items@.len() == olds.len(),
            scope.models(file),
            index.models(files),
            forall|k: int| 0 <= k < i ==> ref_resolved(olds[k], #[trigger] items@[k], file, files),
            forall|k: int| i <= k < olds.len() ==> #[trigger] items@[k] == olds[k],
    {
        resolve_type_ref(&mut items[i], scope, index, Ghost(file), Ghost(files));
    }
}

/// Resolves the type of each parameter of a list in place.
fn resolve_arguments(
    items: &mut Vec<JavaArgument>,
    scope: &FileScope,
    index: &GlobalIndex,
    Ghost(file): Ghost<JavaFile>,
    Ghost(files): Ghost<Seq<JavaFile>>,
)
    requires
        scope.models(file),
        index.models(files),
    ensures
        final(items)@.len() == old(items)@.len(),
        forall|k: int| 0 <= k < old(items)@.len() ==> argument_resolved(old(items)@[k], #[trigger] final(items)@[k], file, files),
{
    let ghost olds = items@;
    let n = items.len();
    for i in 0..n
        invariant
            n == olds.len(),
            items@.len() == olds.len(),
            scope.models(file),
            index.models(files),
            forall|k: int| 0 <= k < i ==> argument_resolved(olds[k], #[trigger] items@[k], file, files),
            forall|k: int| i <= k < olds.len() ==> #[trigger] items@[k] == olds[k],
    {
        resolve_type_ref(&mut items[i].ty, scope, index, Ghost(file), Ghost(files));
    }
}

/// Resolves the type-parameter bounds, return type, parameters and thrown
/// types of one method.
fn resolve_method(
    method: &mut JavaMethod,
    scope: &FileScope,
    index: &GlobalIndex,
    Ghost(file): Ghost<JavaFile>,
    Ghost(files): Ghost<Seq<JavaFile>>,
)
    requires
        scope.models(file),
        index.models(files),
    ensures
        method_resolved(*old(method), *final(method), file, files),
{
    resolve_type_parameters(&mut method.type_parameters, scope, index, Ghost(file), Ghost(files));
    if let Some(rt) = &mut method.return_type {
        resolve_type_ref(rt, scope, index, Ghost(file), Ghost(files));
    }
    resolve_arguments(&mut method.args, scope, index, Ghost(file), Ghost(files));
    resolve_refs(&mut method.throws, scope, index, Ghost(file), Ghost(files));
}

/// Resolves the type and default value of one annotation element.
fn resolve_element(
    element: &mut JavaAnnotationElement,
    scope: &FileScope,
    index: &GlobalIndex,
    Ghost(file): Ghost<JavaFile>,
    Ghost(files): Ghost<Seq<JavaFile>>,
)
    requires
        scope.models(file),
        index.models(files),
    ensures
        element_resolved(*old(element), *final(element), file, files),
{
    resolve_type_ref(&mut element.return_type, scope, index, Ghost(file), Ghost(files));
    if let Some(dv) = &mut element.default_value {
        resolve_annotation_value(dv, scope, index, Ghost(file), Ghost(files));
    }
}

/// Resolves one type reference and, recursively, the references inside it.
fn resolve_type_ref(
    tref: &mut JavaTypeRef,
    scope: &FileScope,
    index: &GlobalIndex,
    Ghost(file): Ghost<JavaFile>,
    Ghost(files): Ghost<Seq<JavaFile>>,
)
    requires
        scope.models(file),
        index.models(files),
    ensures
        ref_resolved(*old(tref), *final(tref), file, files),
    decreases *old(tref), 1nat,
{
    match tref {
        JavaTypeRef::Reference(r) => {
            let fqn = resolve_reference(r, scope, index, Ghost(file), Ghost(files));
            r.resolved_fqn = fqn;
            proof { assert(decreases_to!(*old(tref) => old(tref)->Reference_0.args@)); }
            resolve_type_arguments(&mut r.args, scope, index, Ghost(file), Ghost(files));
        }
        JavaTypeRef::Array { element, .. } => resolve_type_ref(element, scope, index, Ghost(file), Ghost(files)),
        JavaTypeRef::Wildcard { bound, .. } => {
            match bound {
                Some(JavaWildcardBound::Extends(t)) => resolve_type_ref(t, scope, index, Ghost(file), Ghost(files)),
                Some(JavaWildcardBound::Super(t)) => resolve_type_ref(t, scope, index, Ghost(file), Ghost(files)),
                None => {},
            }
        }
        JavaTypeRef::Annotated { inner, .. } => resolve_type_ref(inner, scope, index, Ghost(file), Ghost(files)),
        _ => {},
    }
}

/// Resolves each argument of a generic type in place.
fn resolve_type_arguments(
    args: &mut Vec<JavaTypeArgument>,
    scope: &FileScope,
    index: &GlobalIndex,
    Ghost(file): Ghost<JavaFile>,
    Ghost(files): Ghost<Seq<JavaFile>>,
)
    requires
        scope.models(file),
        index.models(files),
    ensures
        final(args)@.len() == old(args)@.len(),
        forall|k: int| 0 <= k < old(args)@.len() ==> type_argument_resolved(old(args)@[k], #[trigger] final(args)@[k], file, files),
    decreases old(args)@, 0nat,
{
    let ghost olds = args@;
    let n = args.len();
    for i in 0..n
        invariant
            n == olds.len(),
            olds == old(args)@,
            args@.len() == olds.len(),
            scope.models(file),
            index.models(files),
            forall|k: int| 0 <= k < i ==> type_argument_resolved(olds[k], #[trigger] args@[k], file, files),
            forall|k: int| i <= k < olds.len() ==> #[trigger] args@[k] == olds[k],
    {
        proof { assert(decreases_to!(olds => olds[i as int])); }
        match &mut args[i] {
            JavaTypeArgument::Type(t) => resolve_type_ref(t, scope, index, Ghost(file), Ghost(files)),
            JavaTypeArgument::Wildcard(t) => resolve_type_ref(t, scope, index, Ghost(file), Ghost(files)),
        }
    }
}

/// Resolves class literals inside an annotation value.
fn resolve_annotation_value(
    value: &mut JavaAnnotationValue,
    scope: &FileScope,
    index: &GlobalIndex,
    Ghost(file): Ghost<JavaFile>,
    Ghost(files): Ghost<Seq<JavaFile>>,
)
    requires
        scope.models(file),
        index.models(files),
    ensures
        value_resolved(*old(value), *final(value), file, files),
    decreases *old(value),
{
    match value {
        JavaAnnotationValue::ClassLiteral(t) => resolve_type_ref(t, scope, index, Ghost(file), Ghost(files)),
        JavaAnnotationValue::Array(values) => {
            let ghost olds = values@;
            proof { assert(olds == old(value)->Array_0@); }
            let n = values.len();
            for i in 0..n
                invariant
                    n == olds.len(),
                    *old(value) is Array,
                    olds == old(value)->Array_0@,
                    values@.len() == olds.len(),
                    scope.models(file),
                    index.models(files),
                    forall|k: int| 0 <= k < i ==> value_resolved(olds[k], #[trigger] values@[k], file, files),
                    forall|k: int| i <= k < olds.len() ==> #[trigger] values@[k] == olds[k],
            {
                proof {
                    assert(decreases_to!(*old(value) => old(value)->Array_0));
                    assert(decreases_to!(old(value)->Array_0 => olds));
                    assert(decreases_to!(olds => olds[i as int]));
                }
                resolve_annotation_value(&mut values[i], scope, index, Ghost(file), Ghost(files));
            }
        }
        _ => {},
    }
}

} // verus!
