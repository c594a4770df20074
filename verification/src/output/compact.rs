//! Shared compaction rules for human- and AI-oriented output formats.

use vstd::prelude::*;

use crate::java_ast::display::{type_ref_string, type_ref_text};
use crate::java_ast::model::{JavaConstructor, JavaField, JavaMethod, JavaType};
use crate::text::{append_chars_from, char_uppercase, chars_of, str_eq, uppercase_of};

verus! {

/// What kind of standard accessor a method is for a field.
#[derive(Debug, Clone, Copy, PartialEq, Eq, Structural)]
pub enum AccessorKind {
    Getter,
    Setter,
    Add,
}

/// A field name with its first character upper-cased (`name` -> `Name`).
pub open spec fn property_suffix_spec(name: Seq<char>) -> Seq<char> {
    if name.len() == 0 {
        Seq::empty()
    } else {
        char_uppercase(name[0]) + name.skip(1)
    }
}

/// Whether a type is spelled `boolean` or `Boolean`.
pub open spec fn is_boolean_text(ty: Seq<char>) -> bool {
    ty == "boolean"@ || ty == "Boolean"@
}

/// Whether a return type is `void` or the declaring type itself (fluent setters).
pub open spec fn is_void_or_declaring(return_type: Seq<char>, declaring_type: Seq<char>) -> bool {
    return_type == "void"@ || return_type == declaring_type
}

/// A method with no Javadoc, annotations, type parameters or `throws`.
pub open spec fn is_plain_method_spec(m: JavaMethod) -> bool {
    &&& m.documentation is None
    &&& m.annotations@.len() == 0
    &&& m.type_parameters@.len() == 0
    &&& m.throws@.len() == 0
}

/// Whether the method's return type is present and satisfies `pred`.
pub open spec fn returns_text(m: JavaMethod, pred: spec_fn(Seq<char>) -> bool) -> bool {
    match m.return_type {
        Some(rt) => pred(type_ref_text(rt)),
        None => false,
    }
}

/// Whether `m` takes exactly one parameter, of the field's type.
pub open spec fn takes_field_type(m: JavaMethod, field: JavaField) -> bool {
    m.args@.len() == 1 && type_ref_text(m.args@[0].ty) == type_ref_text(field.ty)
}

/// The accessor kind of `m` for `field`, if any: `getX()` returning the
/// field's type, `isX()` returning a boolean for a boolean field, `setX(t)`
/// and `addX(t)` taking the field's type and returning `void` or the
/// declaring type. Only plain methods qualify.
pub open spec fn accessor_kind(m: JavaMethod, field: JavaField, declaring_type: Seq<char>) -> Option<AccessorKind> {
    let property = property_suffix_spec(field.name@);
    let field_ty = type_ref_text(field.ty);
    if !is_plain_method_spec(m) {
        None
    } else if m.name@ == "get"@ + property && m.args@.len() == 0
        && returns_text(m, |t: Seq<char>| t == field_ty) {
        Some(AccessorKind::Getter)
    } else if m.name@ == "is"@ + property && m.args@.len() == 0 && is_boolean_text(field_ty)
        && returns_text(m, |t: Seq<char>| is_boolean_text(t)) {
        Some(AccessorKind::Getter)
    } else if m.name@ == "set"@ + property && takes_field_type(m, field)
        && returns_text(m, |t: Seq<char>| is_void_or_declaring(t, declaring_type)) {
        Some(AccessorKind::Setter)
    } else if m.name@ == "add"@ + property && takes_field_type(m, field)
        && returns_text(m, |t: Seq<char>| is_void_or_declaring(t, declaring_type)) {
        Some(AccessorKind::Add)
    } else {
        None
    }
}

/// Whether some method of `ty` is an accessor of kind `kind` for `field`.
pub open spec fn has_accessor(ty: JavaType, field: JavaField, kind: AccessorKind) -> bool {
    exists|i: int| 0 <= i < ty.methods@.len() && accessor_kind(#[trigger] ty.methods@[i], field, ty.name@) == Some(kind)
}

/// The accessor labels of a field, in the order getter, setter, add.
pub open spec fn accessor_labels_spec(ty: JavaType, field: JavaField) -> Seq<Seq<char>> {
    (if has_accessor(ty, field, AccessorKind::Getter) { seq!["getter"@] } else { Seq::empty() })
        + (if has_accessor(ty, field, AccessorKind::Setter) { seq!["setter"@] } else { Seq::empty() })
        + (if has_accessor(ty, field, AccessorKind::Add) { seq!["add"@] } else { Seq::empty() })
}

/// Whether `m` is a standard accessor of some field of `ty`.
pub open spec fn is_compacted_accessor_spec(m: JavaMethod, ty: JavaType) -> bool {
    exists|i: int| 0 <= i < ty.fields@.len() && accessor_kind(m, #[trigger] ty.fields@[i], ty.name@) is Some
}

/// A no-argument constructor with no Javadoc, annotations, type parameters or `throws`.
pub open spec fn is_boring_constructor_spec(c: JavaConstructor) -> bool {
    &&& c.args@.len() == 0
    &&& c.documentation is None
    &&& c.annotations@.len() == 0
    &&& c.type_parameters@.len() == 0
    &&& c.throws@.len() == 0
}

/// The constructors the compact form keeps: all but the plain no-argument ones.
pub open spec fn kept_constructors(cs: Seq<JavaConstructor>) -> Seq<JavaConstructor>
    decreases cs.len(),
{
    if cs.len() == 0 {
        Seq::empty()
    } else if is_boring_constructor_spec(cs.last()) {
        kept_constructors(cs.drop_last())
    } else {
        kept_constructors(cs.drop_last()).push(cs.last())
    }
}

/// The methods the compact form keeps: all but the standard accessors of the type's fields.
pub open spec fn kept_methods(ms: Seq<JavaMethod>, ty: JavaType) -> Seq<JavaMethod>
    decreases ms.len(),
{
    if ms.len() == 0 {
        Seq::empty()
    } else if is_compacted_accessor_spec(ms.last(), ty) {
        kept_methods(ms.drop_last(), ty)
    } else {
        kept_methods(ms.drop_last(), ty).push(ms.last())
    }
}

/// The texts of a list of labels.
pub open spec fn label_texts(ls: Seq<&str>) -> Seq<Seq<char>> {
    ls.map_values(|l: &str| l@)
}

/// The compact form drops exactly the plain no-argument constructors: none
/// of those it keeps is plain, and every constructor that is not plain is kept.
pub proof fn lemma_kept_constructors_exact(cs: Seq<JavaConstructor>)
    ensures
        forall|i: int| 0 <= i < kept_constructors(cs).len()
            ==> !is_boring_constructor_spec(#[trigger] kept_constructors(cs)[i]),
        forall|i: int| 0 <= i < cs.len() && !is_boring_constructor_spec(#[trigger] cs[i])
            ==> kept_constructors(cs).contains(cs[i]),
        forall|c: JavaConstructor| kept_constructors(cs).contains(c) ==> cs.contains(c),
    decreases cs.len(),
{
    if cs.len() > 0 {
        let init = cs.drop_last();
        lemma_kept_constructors_exact(init);
        assert forall|i: int| 0 <= i < cs.len() && !is_boring_constructor_spec(#[trigger] cs[i])
            implies kept_constructors(cs).contains(cs[i]) by {
            if i < cs.len() - 1 {
                assert(init[i] == cs[i]);
                let j = choose|j: int| 0 <= j < kept_constructors(init).len() && kept_constructors(init)[j] == cs[i];
                assert(kept_constructors(cs)[j] == cs[i]);
            } else {
                assert(kept_constructors(cs).last() == cs[i]);
            }
        }
        assert forall|c: JavaConstructor| kept_constructors(cs).contains(c) implies cs.contains(c) by {
            let j = choose|j: int| 0 <= j < kept_constructors(cs).len() && kept_constructors(cs)[j] == c;
            if j < kept_constructors(init).len() {
                assert(kept_constructors(init)[j] == c);
                assert(kept_constructors(init).contains(c));
                assert(init.contains(c));
                let k = choose|k: int| 0 <= k < init.len() && init[k] == c;
                assert(cs[k] == c);
            } else {
                assert(cs[cs.len() - 1] == c);
            }
        }
    }
}

/// The compact form keeps every constructor that says anything beyond being
/// there: one with Javadoc, parameters, annotations, type parameters or a
/// `throws` clause is kept; and every constructor it leaves out is a bare
/// `Name() {}` with none of these.
pub proof fn lemma_informative_constructors_kept(cs: Seq<JavaConstructor>)
    ensures
        forall|i: int| 0 <= i < cs.len() && ({
            ||| cs[i].documentation is Some
            ||| cs[i].args@.len() > 0
            ||| cs[i].annotations@.len() > 0
            ||| cs[i].type_parameters@.len() > 0
            ||| cs[i].throws@.len() > 0
        }) ==> kept_constructors(cs).contains(#[trigger] cs[i]),
        forall|i: int| 0 <= i < cs.len() && !kept_constructors(cs).contains(#[trigger] cs[i]) ==> {
            &&& cs[i].documentation is None
            &&& cs[i].args@.len() == 0
            &&& cs[i].annotations@.len() == 0
            &&& cs[i].type_parameters@.len() == 0
            &&& cs[i].throws@.len() == 0
        },
{
    lemma_kept_constructors_exact(cs);
}

/// The compact form drops exactly the standard accessors: none of the
/// methods it keeps is an accessor of a field, and every other method is kept.
pub proof fn lemma_kept_methods_exact(ms: Seq<JavaMethod>, ty: JavaType)
    ensures
        forall|i: int| 0 <= i < kept_methods(ms, ty).len()
            ==> !is_compacted_accessor_spec(#[trigger] kept_methods(ms, ty)[i], ty),
        forall|i: int| 0 <= i < ms.len() && !is_compacted_accessor_spec(#[trigger] ms[i], ty)
            ==> kept_methods(ms, ty).contains(ms[i]),
        forall|m: JavaMethod| kept_methods(ms, ty).contains(m) ==> ms.contains(m),
    decreases ms.len(),
{
    if ms.len() > 0 {
        let init = ms.drop_last();
        lemma_kept_methods_exact(init, ty);
        assert forall|i: int| 0 <= i < ms.len() && !is_compacted_accessor_spec(#[trigger] ms[i], ty)
            implies kept_methods(ms, ty).contains(ms[i]) by {
            if i < ms.len() - 1 {
                assert(init[i] == ms[i]);
                let j = choose|j: int| 0 <= j < kept_methods(init, ty).len() && kept_methods(init, ty)[j] == ms[i];
                assert(kept_methods(ms, ty)[j] == ms[i]);
            } else {
                assert(kept_methods(ms, ty).last() == ms[i]);
            }
        }
        assert forall|m: JavaMethod| kept_methods(ms, ty).contains(m) implies ms.contains(m) by {
            let j = choose|j: int| 0 <= j < kept_methods(ms, ty).len() && kept_methods(ms, ty)[j] == m;
            if j < kept_methods(init, ty).len() {
                assert(kept_methods(init, ty)[j] == m);
                assert(kept_methods(init, ty).contains(m));
                assert(init.contains(m));
                let k = choose|k: int| 0 <= k < init.len() && init[k] == m;
                assert(ms[k] == m);
            } else {
                assert(ms[ms.len() - 1] == m);
            }
        }
    }
}

/// Only standard accessors are folded away: a method with Javadoc,
/// annotations, type parameters or a `throws` clause is always kept, and a
/// method that is left out is named `get`, `is`, `set` or `add` followed by
/// the capitalized name of one of the type's fields.
pub proof fn lemma_only_accessors_folded(ms: Seq<JavaMethod>, ty: JavaType)
    ensures
        forall|i: int| 0 <= i < ms.len() && ({
            ||| ms[i].documentation is Some
            ||| ms[i].annotations@.len() > 0
            ||| ms[i].type_parameters@.len() > 0
            ||| ms[i].throws@.len() > 0
        }) ==> kept_methods(ms, ty).contains(#[trigger] ms[i]),
        forall|i: int| 0 <= i < ms.len() && !kept_methods(ms, ty).contains(#[trigger] ms[i]) ==> exists|f: int| {
            let p = property_suffix_spec((#[trigger] ty.fields@[f]).name@);
            &&& 0 <= f < ty.fields@.len()
            &&& {
                ||| ms[i].name@ == "get"@ + p
                ||| ms[i].name@ == "is"@ + p
                ||| ms[i].name@ == "set"@ + p
                ||| ms[i].name@ == "add"@ + p
            }
        },
{
    lemma_kept_methods_exact(ms, ty);
    assert forall|i: int| 0 <= i < ms.len() && !kept_methods(ms, ty).contains(#[trigger] ms[i]) implies exists|f: int| {
            let p = property_suffix_spec((#[trigger] ty.fields@[f]).name@);
            &&& 0 <= f < ty.fields@.len()
            &&& {
                ||| ms[i].name@ == "get"@ + p
                ||| ms[i].name@ == "is"@ + p
                ||| ms[i].name@ == "set"@ + p
                ||| ms[i].name@ == "add"@ + p
            }
        } by {
        assert(is_compacted_accessor_spec(ms[i], ty));
        let f = choose|f: int| 0 <= f < ty.fields@.len() && accessor_kind(ms[i], #[trigger] ty.fields@[f], ty.name@) is Some;
        assert(accessor_kind(ms[i], ty.fields@[f], ty.name@) is Some);
    }
}

/// The constructors of `cs` that the compact form keeps, in order.
pub fn kept_constructor_refs<'a>(cs: &'a Vec<JavaConstructor>) -> (kept: Vec<&'a JavaConstructor>)
    ensures
        kept@.map_values(|r: &JavaConstructor| *r) == kept_constructors(cs@),
{
    let mut kept: Vec<&'a JavaConstructor> = Vec::new();
    let n = cs.len();
    for i in 0..n
        invariant
            n == cs@.len(),
            kept@.map_values(|r: &JavaConstructor| *r) == kept_constructors(cs@.take(i as int)),
    {
        let c = &cs[i];
        let ghost before = kept@;
        proof {
            let t = cs@.take(i + 1);
            assert(t.drop_last() == cs@.take(i as int));
            assert(t.last() == *c);
        }
        if !is_boring_no_arg_constructor(c) {
            kept.push(c);
            assert(kept@.map_values(|r: &JavaConstructor| *r) =~= before.map_values(|r: &JavaConstructor| *r).push(*c));
        }
    }
    assert(cs@.take(n as int) == cs@);
    kept
}

/// The methods of `ty` that the compact form keeps, in order.
pub fn kept_method_refs<'a>(ty: &'a JavaType) -> (kept: Vec<&'a JavaMethod>)
    ensures
        kept@.map_values(|r: &JavaMethod| *r) == kept_methods(ty.methods@, *ty),
{
    let mut kept: Vec<&'a JavaMethod> = Vec::new();
    let n = ty.methods.len();
    for i in 0..n
        invariant
            n == ty.methods@.len(),
            kept@.map_values(|r: &JavaMethod| *r) == kept_methods(ty.methods@.take(i as int), *ty),
    {
        let m = &ty.methods[i];
        let ghost before = kept@;
        proof {
            let t = ty.methods@.take(i + 1);
            assert(t.drop_last() == ty.methods@.take(i as int));
            assert(t.last() == *m);
        }
        if !is_compacted_accessor(m, ty) {
            kept.push(m);
            assert(kept@.map_values(|r: &JavaMethod| *r) =~= before.map_values(|r: &JavaMethod| *r).push(*m));
        }
    }
    assert(ty.methods@.take(n as int) == ty.methods@);
    kept
}

/// The labels of the standard accessors that `ty` declares for `field`.
pub fn field_accessor_labels(ty: &JavaType, field: &JavaField) -> (labels: Vec<&'static str>)
    ensures
        labels@.map_values(|l: &str| l@) == accessor_labels_spec(*ty, *field),
{
    let mut getter = false;
    let mut setter = false;
    let mut add = false;
    let n = ty.methods.len();
    for i in 0..n
        invariant
            n == ty.methods@.len(),
            getter == exists|k: int| 0 <= k < i && accessor_kind(#[trigger] ty.methods@[k], *field, ty.name@) == Some(AccessorKind::Getter),
            setter == exists|k: int| 0 <= k < i && accessor_kind(#[trigger] ty.methods@[k], *field, ty.name@) == Some(AccessorKind::Setter),
            add == exists|k: int| 0 <= k < i && accessor_kind(#[trigger] ty.methods@[k], *field, ty.name@) == Some(AccessorKind::Add),
    {
        match classify_accessor(&ty.methods[i], field, &ty.name) {
            Some(AccessorKind::Getter) => getter = true,
            Some(AccessorKind::Setter) => setter = true,
            Some(AccessorKind::Add) => add = true,
            None => {},
        }
    }
    let mut labels: Vec<&'static str> = Vec::new();
    if getter {
        labels.push("getter");
    }
    if setter {
        labels.push("setter");
    }
    if add {
        labels.push("add");
    }
    assert(labels@.map_values(|l: &str| l@) =~= accessor_labels_spec(*ty, *field));
    labels
}

/// Whether `method` is a standard accessor of one of the fields of `ty`.
pub fn is_compacted_accessor(method: &JavaMethod, ty: &JavaType) -> (r: bool)
    ensures
        r == is_compacted_accessor_spec(*method, *ty),
{
    let n = ty.fields.len();
    for i in 0..n
        invariant
            n == ty.fields@.len(),
            forall|k: int| 0 <= k < i ==> accessor_kind(*method, #[trigger] ty.fields@[k], ty.name@) is None,
    {
        if classify_accessor(method, &ty.fields[i], &ty.name).is_some() {
            return true;
        }
    }
    false
}

/// Whether a constructor is a plain no-argument constructor.
pub fn is_boring_no_arg_constructor(cons: &JavaConstructor) -> (r: bool)
    ensures
        r == is_boring_constructor_spec(*cons),
{
    cons.args.len() == 0 && cons.documentation.is_none() && cons.annotations.len() == 0
        && cons.type_parameters.len() == 0 && cons.throws.len() == 0
}

/// The accessor kind of `method` for `field` in a type named `declaring_type`.
pub fn classify_accessor(method: &JavaMethod, field: &JavaField, declaring_type: &String) -> (r: Option<AccessorKind>)
    ensures
        r == accessor_kind(*method, *field, declaring_type@),
{
    if !is_plain_method(method) {
        return None;
    }
    let property = property_suffix(&field.name);
    let field_ty = type_ref_string(&field.ty);
    let return_text: Option<String> = match &method.return_type {
        Some(rt) => Some(type_ref_string(rt)),
        None => None,
    };
    let ghost p = property@;
    proof {
        reveal_strlit("get");
        reveal_strlit("is");
        reveal_strlit("set");
        reveal_strlit("add");
    }
    if prefixed_eq(&method.name, "get", &property) && method.args.len() == 0 {
        if let Some(rt) = &return_text {
            if *rt == field_ty {
                return Some(AccessorKind::Getter);
            }
        }
    }
    if prefixed_eq(&method.name, "is", &property) && method.args.len() == 0 && is_boolean_type(&field_ty) {
        if let Some(rt) = &return_text {
            if is_boolean_type(rt) {
                return Some(AccessorKind::Getter);
            }
        }
    }
    let takes_field = method.args.len() == 1 && type_ref_string(&method.args[0].ty) == field_ty;
    if prefixed_eq(&method.name, "set", &property) && takes_field {
        if let Some(rt) = &return_text {
            if is_void_or_declaring_type(rt, declaring_type) {
                return Some(AccessorKind::Setter);
            }
        }
    }
    if prefixed_eq(&method.name, "add", &property) && takes_field {
        if let Some(rt) = &return_text {
            if is_void_or_declaring_type(rt, declaring_type) {
                return Some(AccessorKind::Add);
            }
        }
    }
    None
}

/// Whether `name` is `prefix` followed by `rest`.
fn prefixed_eq(name: &String, prefix: &str, rest: &String) -> (r: bool)
    ensures
        r == (name@ == prefix@ + rest@),
{
    let mut expected = prefix.to_owned();
    expected.append(rest.as_str());
    *name == expected
}

/// Whether a method has no Javadoc, annotations, type parameters or `throws`.
pub fn is_plain_method(method: &JavaMethod) -> (r: bool)
    ensures
        r == is_plain_method_spec(*method),
{
    method.documentation.is_none() && method.annotations.len() == 0 && method.type_parameters.len() == 0
        && method.throws.len() == 0
}

/// A field name with its first character upper-cased.
pub fn property_suffix(field_name: &String) -> (r: String)
    ensures
        r@ == property_suffix_spec(field_name@),
{
    let cs = chars_of(field_name.as_str());
    if cs.len() == 0 {
        return String::new();
    }
    let mut out = uppercase_of(cs[0]);
    append_chars_from(&mut out, &cs, 1);
    out
}

/// Whether a type is spelled `boolean` or `Boolean`.
pub fn is_boolean_type(ty: &String) -> (r: bool)
    ensures
        r == is_boolean_text(ty@),
{
    str_eq(ty.as_str(), "boolean") || str_eq(ty.as_str(), "Boolean")
}

/// Whether a return type is `void` or the declaring type.
pub fn is_void_or_declaring_type(return_type: &String, declaring_type: &String) -> (r: bool)
    ensures
        r == is_void_or_declaring(return_type@, declaring_type@),
{
    str_eq(return_type.as_str(), "void") || *return_type == *declaring_type
}

} // verus!
