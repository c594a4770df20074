//! Extraction of a Java file's model from its syntax tree: the package, the
//! imports and the top-level type declarations with their members.
//!
//! A type declaration is top-level when no enclosing node is a type
//! declaration or a type body. Members are read from the direct children of
//! a type's body; a field declaration gives one field per named declarator.
//! A declaration is documented by a Javadoc comment that is its previous
//! sibling.

use vstd::prelude::*;

use super::error::JavaAstError;
use super::helpers::{
    args_is, dims_type_is, metadata_is, modifier_annotations_is, parse_annotations, parse_args,
    parse_annotation_value, parse_dims_type, parse_metadata, parse_supertypes, parse_type_list, parse_type_params,
    supertypes_is, type_list_is, type_params_is, value_is,
};
use super::resolve::opt_text;
use super::javadoc::{doc_matches, is_javadoc, javadoc_of, parse_javadoc};
use super::model::{
    JavaAnnotationElement, JavaConstructor, JavaDoc, JavaField, JavaFile, JavaMethod, JavaType, TypeKind,
};
use super::syntax::{
    count_children_upto, field_name_is, first_child, first_child_of, is_child, is_child_of, java_syntax,
    java_syntax_nodes, kind_is, last_child, last_child_of, node_text, node_views, opt_pos,
    sel_matches_node, selected, subtree_end, subtree_end_of, text, ChildSel, SyntaxError, SyntaxNode,
    SyntaxNodeView,
};
use crate::text::chars_of;

verus! {

// ---------------------------------------------------------------------------
// Kinds, names, ranges and documentation.
// ---------------------------------------------------------------------------

/// Whether a kind is that of a type declaration.
pub open spec fn is_type_decl_kind(k: Seq<char>) -> bool {
    k == "class_declaration"@ || k == "interface_declaration"@ || k == "enum_declaration"@
        || k == "record_declaration"@ || k == "annotation_type_declaration"@
}

/// Whether a kind is that of a body that holds type members.
pub open spec fn is_type_body_kind(k: Seq<char>) -> bool {
    k == "class_body"@ || k == "interface_body"@ || k == "enum_body"@ || k == "annotation_type_body"@
}

/// The kind of type a declaration node of kind `k` declares.
pub open spec fn decl_kind(k: Seq<char>) -> TypeKind {
    if k == "interface_declaration"@ {
        TypeKind::Interface
    } else if k == "enum_declaration"@ {
        TypeKind::Enum
    } else if k == "record_declaration"@ {
        TypeKind::Record
    } else if k == "annotation_type_declaration"@ {
        TypeKind::Annotation
    } else {
        TypeKind::Class
    }
}

/// The text of an optional node (empty without one).
pub open spec fn opt_node_text(ns: Seq<SyntaxNodeView>, src: Seq<char>, o: Option<int>) -> Seq<char> {
    match o {
        Some(n) => text(ns, src, n),
        None => Seq::empty(),
    }
}

/// Whether `r` is the byte range of node `i`.
pub open spec fn range_is(ns: Seq<SyntaxNodeView>, i: int, r: (usize, usize)) -> bool {
    r.0 == ns[i].start && r.1 == ns[i].end
}

/// The last node at or before `k` at depth `d`, unless a shallower node
/// comes first.
pub open spec fn prev_sibling_from(ns: Seq<SyntaxNodeView>, d: nat, k: int) -> Option<int>
    decreases k + 1,
{
    if 0 <= k < ns.len() {
        if ns[k].depth > d {
            prev_sibling_from(ns, d, k - 1)
        } else if ns[k].depth == d {
            Some(k)
        } else {
            None
        }
    } else {
        None
    }
}

/// The node just before node `i` under the same parent.
pub open spec fn prev_sibling(ns: Seq<SyntaxNodeView>, i: int) -> Option<int> {
    prev_sibling_from(ns, ns[i].depth, i - 1)
}

/// `d` is the documentation of node `i`: the Javadoc comment that is its
/// previous sibling, if it has one.
pub open spec fn doc_is(ns: Seq<SyntaxNodeView>, src: Seq<char>, i: int, d: Option<JavaDoc>) -> bool {
    match prev_sibling(ns, i) {
        Some(k) => if ns[k].kind == "block_comment"@ && is_javadoc(text(ns, src, k)) {
            d matches Some(doc) && doc_matches(doc, javadoc_of(text(ns, src, k)))
        } else {
            d is None
        },
        None => d is None,
    }
}

// ---------------------------------------------------------------------------
// Members.
// ---------------------------------------------------------------------------

/// The name a variable declarator `d` declares.
pub open spec fn declarator_name(ns: Seq<SyntaxNodeView>, src: Seq<char>, d: int) -> Option<Seq<char>> {
    match first_child(ns, d, ChildSel::Field("name")) {
        Some(n) => Some(text(ns, src, n)),
        None => None,
    }
}

/// Whether child `c` of a field declaration `f` is one of its named
/// declarators.
pub open spec fn is_field_declarator(ns: Seq<SyntaxNodeView>, src: Seq<char>, f: int, c: int) -> bool {
    selected(ns, f, ChildSel::Field("declarator"), c) && declarator_name(ns, src, c) is Some
}

/// `x` is the field that declarator `d` of the field declaration `f`, whose
/// type node is `tn`, declares.
pub open spec fn field_is(ns: Seq<SyntaxNodeView>, src: Seq<char>, f: int, tn: int, d: int, x: JavaField) -> bool {
    &&& doc_is(ns, src, f, x.documentation)
    &&& metadata_is(ns, src, first_child(ns, f, ChildSel::Kind("modifiers")), x.annotations@, x.modifiers@)
    &&& dims_type_is(ns, src, tn, first_child(ns, d, ChildSel::Field("dimensions")), x.ty)
    &&& declarator_name(ns, src, d) == Some(x.name@)
    &&& range_is(ns, f, x.range)
}

/// `xs` are the fields that the declarators of `f` before `j` declare.
pub open spec fn decl_fields_upto(ns: Seq<SyntaxNodeView>, src: Seq<char>, f: int, tn: int, j: int, xs: Seq<JavaField>) -> bool
    decreases j - f,
{
    if 0 <= f && f + 1 < j <= ns.len() {
        let c = j - 1;
        if is_field_declarator(ns, src, f, c) {
            xs.len() > 0 && field_is(ns, src, f, tn, c, xs.last()) && decl_fields_upto(ns, src, f, tn, c, xs.drop_last())
        } else {
            decl_fields_upto(ns, src, f, tn, c, xs)
        }
    } else {
        xs.len() == 0
    }
}

/// The number of named declarators of `f` before `j`.
pub open spec fn count_declarators_upto(ns: Seq<SyntaxNodeView>, src: Seq<char>, f: int, j: int) -> nat
    decreases j - f,
{
    if f + 1 < j {
        count_declarators_upto(ns, src, f, j - 1) + if is_field_declarator(ns, src, f, j - 1) { 1nat } else { 0nat }
    } else {
        0
    }
}

/// Whether child `c` of body `b` is a field declaration with a type.
pub open spec fn is_typed_field_decl(ns: Seq<SyntaxNodeView>, b: int, c: int) -> bool {
    is_child(ns, b, c) && ns[c].kind == "field_declaration"@ && first_child(ns, c, ChildSel::Field("type")) is Some
}

/// `xs` are the fields that the field declarations among the children of
/// body `b` before `j` declare, in order.
pub open spec fn fields_upto(ns: Seq<SyntaxNodeView>, src: Seq<char>, b: int, j: int, xs: Seq<JavaField>) -> bool
    decreases j - b,
{
    if 0 <= b && b + 1 < j <= ns.len() {
        let c = j - 1;
        if is_typed_field_decl(ns, b, c) {
            let tn = first_child(ns, c, ChildSel::Field("type"))->0;
            let end = subtree_end(ns, c);
            let k = count_declarators_upto(ns, src, c, end);
            &&& k <= xs.len()
            &&& decl_fields_upto(ns, src, c, tn, end, xs.skip(xs.len() - k))
            &&& fields_upto(ns, src, b, c, xs.take(xs.len() - k))
        } else {
            fields_upto(ns, src, b, c, xs)
        }
    } else {
        xs.len() == 0
    }
}

/// `m` is the method that the `method_declaration` node `i` declares.
pub open spec fn method_is(ns: Seq<SyntaxNodeView>, src: Seq<char>, i: int, m: JavaMethod) -> bool {
    &&& doc_is(ns, src, i, m.documentation)
    &&& metadata_is(ns, src, first_child(ns, i, ChildSel::Kind("modifiers")), m.annotations@, m.modifiers@)
    &&& type_params_is(ns, src, first_child(ns, i, ChildSel::Field("type_parameters")), m.type_parameters@)
    &&& match first_child(ns, i, ChildSel::Field("type")) {
        Some(tn) => m.return_type matches Some(rt)
            && dims_type_is(ns, src, tn, first_child(ns, i, ChildSel::Field("dimensions")), rt),
        None => m.return_type is None,
    }
    &&& m.name@ == opt_node_text(ns, src, first_child(ns, i, ChildSel::Field("name")))
    &&& args_is(ns, src, first_child(ns, i, ChildSel::Field("parameters")), m.args@)
    &&& type_list_is(ns, src, first_child(ns, i, ChildSel::Kind("throws")), m.throws@)
    &&& range_is(ns, i, m.range)
}

/// `c` is the constructor that the `constructor_declaration` node `i`
/// declares.
pub open spec fn constructor_is(ns: Seq<SyntaxNodeView>, src: Seq<char>, i: int, c: JavaConstructor) -> bool {
    &&& doc_is(ns, src, i, c.documentation)
    &&& metadata_is(ns, src, first_child(ns, i, ChildSel::Kind("modifiers")), c.annotations@, c.modifiers@)
    &&& type_params_is(ns, src, first_child(ns, i, ChildSel::Field("type_parameters")), c.type_parameters@)
    &&& c.name@ == opt_node_text(ns, src, first_child(ns, i, ChildSel::Field("name")))
    &&& args_is(ns, src, first_child(ns, i, ChildSel::Field("parameters")), c.args@)
    &&& type_list_is(ns, src, first_child(ns, i, ChildSel::Kind("throws")), c.throws@)
    &&& range_is(ns, i, c.range)
}

/// `e` is the element that the `annotation_type_element_declaration` node
/// `i`, whose type node is `tn`, declares.
pub open spec fn element_is(ns: Seq<SyntaxNodeView>, src: Seq<char>, i: int, tn: int, e: JavaAnnotationElement) -> bool {
    &&& doc_is(ns, src, i, e.documentation)
    &&& modifier_annotations_is(ns, src, first_child(ns, i, ChildSel::Kind("modifiers")), e.annotations@)
    &&& e.name@ == opt_node_text(ns, src, first_child(ns, i, ChildSel::Field("name")))
    &&& dims_type_is(ns, src, tn, first_child(ns, i, ChildSel::Field("dimensions")), e.return_type)
    &&& match first_child(ns, i, ChildSel::Field("value")) {
        Some(v) => e.default_value matches Some(dv) && value_is(ns, src, v, dv),
        None => e.default_value is None,
    }
    &&& range_is(ns, i, e.range)
}

/// `xs` are the methods among the children of body `b` before `j`.
pub open spec fn methods_upto(ns: Seq<SyntaxNodeView>, src: Seq<char>, b: int, j: int, xs: Seq<JavaMethod>) -> bool
    decreases j - b,
{
    if 0 <= b && b + 1 < j <= ns.len() {
        let c = j - 1;
        if selected(ns, b, ChildSel::Kind("method_declaration"), c) {
            xs.len() > 0 && method_is(ns, src, c, xs.last()) && methods_upto(ns, src, b, c, xs.drop_last())
        } else {
            methods_upto(ns, src, b, c, xs)
        }
    } else {
        xs.len() == 0
    }
}

/// `xs` are the constructors among the children of body `b` before `j`.
pub open spec fn constructors_upto(ns: Seq<SyntaxNodeView>, src: Seq<char>, b: int, j: int, xs: Seq<JavaConstructor>) -> bool
    decreases j - b,
{
    if 0 <= b && b + 1 < j <= ns.len() {
        let c = j - 1;
        if selected(ns, b, ChildSel::Kind("constructor_declaration"), c) {
            xs.len() > 0 && constructor_is(ns, src, c, xs.last()) && constructors_upto(ns, src, b, c, xs.drop_last())
        } else {
            constructors_upto(ns, src, b, c, xs)
        }
    } else {
        xs.len() == 0
    }
}

/// `xs` are the texts of the enum constants among the children of body `b`
/// before `j`.
pub open spec fn constants_upto(ns: Seq<SyntaxNodeView>, src: Seq<char>, b: int, j: int, xs: Seq<String>) -> bool
    decreases j - b,
{
    if 0 <= b && b + 1 < j <= ns.len() {
        let c = j - 1;
        if selected(ns, b, ChildSel::Kind("enum_constant"), c) {
            xs.len() > 0 && xs.last()@ == text(ns, src, c) && constants_upto(ns, src, b, c, xs.drop_last())
        } else {
            constants_upto(ns, src, b, c, xs)
        }
    } else {
        xs.len() == 0
    }
}

/// `xs` are the annotation elements (those with a type) among the children
/// of body `b` before `j`.
pub open spec fn elements_upto(ns: Seq<SyntaxNodeView>, src: Seq<char>, b: int, j: int, xs: Seq<JavaAnnotationElement>) -> bool
    decreases j - b,
{
    if 0 <= b && b + 1 < j <= ns.len() {
        let c = j - 1;
        if selected(ns, b, ChildSel::Kind("annotation_type_element_declaration"), c)
            && first_child(ns, c, ChildSel::Field("type")) is Some {
            &&& xs.len() > 0
            &&& element_is(ns, src, c, first_child(ns, c, ChildSel::Field("type"))->0, xs.last())
            &&& elements_upto(ns, src, b, c, xs.drop_last())
        } else {
            elements_upto(ns, src, b, c, xs)
        }
    } else {
        xs.len() == 0
    }
}

// ---------------------------------------------------------------------------
// Types.
// ---------------------------------------------------------------------------

/// `t` is the type that the declaration node `i` declares, with the members
/// of its body.
pub open spec fn type_is(ns: Seq<SyntaxNodeView>, src: Seq<char>, i: int, t: JavaType) -> bool
    decreases ns.len() - i, 0int,
{
    if 0 <= i < ns.len() {
        let k = ns[i].kind;
        &&& t.kind == decl_kind(k)
        &&& t.name@ == opt_node_text(ns, src, first_child(ns, i, ChildSel::Field("name")))
        &&& doc_is(ns, src, i, t.documentation)
        &&& metadata_is(ns, src, first_child(ns, i, ChildSel::Kind("modifiers")), t.annotations@, t.modifiers@)
        &&& type_params_is(ns, src, first_child(ns, i, ChildSel::Field("type_parameters")), t.type_parameters@)
        &&& supertypes_is(ns, src, if k == "interface_declaration"@ {
            first_child(ns, i, ChildSel::Kind("extends_interfaces"))
        } else {
            first_child(ns, i, ChildSel::Field("superclass"))
        }, t.extends@)
        &&& supertypes_is(ns, src, first_child(ns, i, ChildSel::Field("interfaces")), t.implements@)
        &&& if t.kind == TypeKind::Record {
            args_is(ns, src, first_child(ns, i, ChildSel::Field("parameters")), t.record_components@)
        } else {
            t.record_components@.len() == 0
        }
        &&& range_is(ns, i, t.range)
        &&& match first_child(ns, i, ChildSel::Field("body")) {
            Some(b) => {
                let end = subtree_end(ns, b);
                &&& i < b < ns.len()
                &&& t.body_range matches Some(r) && range_is(ns, b, r)
                &&& fields_upto(ns, src, b, end, t.fields@)
                &&& constructors_upto(ns, src, b, end, t.constructors@)
                &&& methods_upto(ns, src, b, end, t.methods@)
                &&& if t.kind == TypeKind::Enum {
                    constants_upto(ns, src, b, end, t.enum_constants@)
                } else {
                    t.enum_constants@.len() == 0
                }
                &&& if t.kind == TypeKind::Annotation {
                    elements_upto(ns, src, b, end, t.annotation_elements@)
                } else {
                    t.annotation_elements@.len() == 0
                }
                &&& nested_types_upto(ns, src, b, end, t.nested_types@)
            },
            None => {
                &&& t.body_range is None
                &&& t.fields@.len() == 0
                &&& t.constructors@.len() == 0
                &&& t.methods@.len() == 0
                &&& t.enum_constants@.len() == 0
                &&& t.annotation_elements@.len() == 0
                &&& t.nested_types@.len() == 0
            },
        }
    } else {
        false
    }
}

/// `xs` are the types declared by the type declarations among the children
/// of body `b` before `j`.
pub open spec fn nested_types_upto(ns: Seq<SyntaxNodeView>, src: Seq<char>, b: int, j: int, xs: Seq<JavaType>) -> bool
    decreases ns.len() - b, j - b,
{
    if 0 <= b && b + 1 < j <= ns.len() {
        let c = j - 1;
        if is_child(ns, b, c) && is_type_decl_kind(ns[c].kind) {
            xs.len() > 0 && type_is(ns, src, c, xs.last()) && nested_types_upto(ns, src, b, c, xs.drop_last())
        } else {
            nested_types_upto(ns, src, b, c, xs)
        }
    } else {
        xs.len() == 0
    }
}

/// A type's `extends` list is read from its own declaration's clause: for an
/// interface, the types of its `extends` clause (an interface has no
/// superclass); for any other declaration, its superclass. Its `implements`
/// list is read from the `implements` clause.
pub proof fn lemma_supertypes_follow_declaration(ns: Seq<SyntaxNodeView>, src: Seq<char>, i: int, t: JavaType)
    requires
        type_is(ns, src, i, t),
    ensures
        ns[i].kind == "interface_declaration"@ ==> t.kind == TypeKind::Interface
            && supertypes_is(ns, src, first_child(ns, i, ChildSel::Kind("extends_interfaces")), t.extends@),
        ns[i].kind != "interface_declaration"@
            ==> supertypes_is(ns, src, first_child(ns, i, ChildSel::Field("superclass")), t.extends@),
        supertypes_is(ns, src, first_child(ns, i, ChildSel::Field("interfaces")), t.implements@),
{
    reveal_strlit("interface_declaration");
}

/// A type holds only the members its kind allows: enum constants only in an
/// enum, annotation elements only in an annotation type, components only in
/// a record.
pub proof fn lemma_members_follow_kind(ns: Seq<SyntaxNodeView>, src: Seq<char>, i: int, t: JavaType)
    requires
        type_is(ns, src, i, t),
    ensures
        t.kind != TypeKind::Enum ==> t.enum_constants@.len() == 0,
        t.kind != TypeKind::Annotation ==> t.annotation_elements@.len() == 0,
        t.kind != TypeKind::Record ==> t.record_components@.len() == 0,
{
}

// ---------------------------------------------------------------------------
// The file.
// ---------------------------------------------------------------------------

/// Whether, scanning back from `k` for the nodes that enclose a node at
/// depth `d`, one is a type declaration or a type body.
pub open spec fn ancestor_blocked(ns: Seq<SyntaxNodeView>, k: int, d: nat) -> bool
    decreases k + 1,
{
    if 0 <= k < ns.len() {
        if ns[k].depth < d {
            is_type_decl_kind(ns[k].kind) || is_type_body_kind(ns[k].kind) || ancestor_blocked(ns, k - 1, ns[k].depth)
        } else {
            ancestor_blocked(ns, k - 1, d)
        }
    } else {
        false
    }
}

/// Whether node `c` is a top-level type declaration: no node enclosing it is
/// a type declaration or a type body.
pub open spec fn is_top_level_type(ns: Seq<SyntaxNodeView>, c: int) -> bool {
    is_type_decl_kind(ns[c].kind) && !ancestor_blocked(ns, c - 1, ns[c].depth)
}

/// `xs` are the types declared by the top-level type declarations before
/// position `j`.
pub open spec fn top_types_upto(ns: Seq<SyntaxNodeView>, src: Seq<char>, j: int, xs: Seq<JavaType>) -> bool
    decreases j,
{
    if 0 < j <= ns.len() {
        let c = j - 1;
        if is_top_level_type(ns, c) {
            xs.len() > 0 && type_is(ns, src, c, xs.last()) && top_types_upto(ns, src, c, xs.drop_last())
        } else {
            top_types_upto(ns, src, c, xs)
        }
    } else {
        xs.len() == 0
    }
}

/// The package that the package declarations before position `j` name: the
/// last plain or scoped identifier of the last declaration that has one.
pub open spec fn package_upto(ns: Seq<SyntaxNodeView>, src: Seq<char>, j: int) -> Option<Seq<char>>
    decreases j,
{
    if 0 < j <= ns.len() {
        let c = j - 1;
        if ns[c].kind == "package_declaration"@ && last_child(ns, c, ChildSel::NameLike) is Some {
            Some(text(ns, src, last_child(ns, c, ChildSel::NameLike)->0))
        } else {
            package_upto(ns, src, c)
        }
    } else {
        None
    }
}

/// `xs` are the texts of what the import declaration `d` names before `j`.
pub open spec fn import_items_upto(ns: Seq<SyntaxNodeView>, src: Seq<char>, d: int, j: int, xs: Seq<String>) -> bool
    decreases j - d,
{
    if 0 <= d && d + 1 < j <= ns.len() {
        let c = j - 1;
        if selected(ns, d, ChildSel::ImportItem, c) {
            xs.len() > 0 && xs.last()@ == text(ns, src, c) && import_items_upto(ns, src, d, c, xs.drop_last())
        } else {
            import_items_upto(ns, src, d, c, xs)
        }
    } else {
        xs.len() == 0
    }
}

/// `xs` are the texts of what the import declarations before position `j`
/// name, in order: a scoped identifier, followed by `*` for an on-demand
/// import.
pub open spec fn imports_upto(ns: Seq<SyntaxNodeView>, src: Seq<char>, j: int, xs: Seq<String>) -> bool
    decreases j,
{
    if 0 < j <= ns.len() {
        let c = j - 1;
        if ns[c].kind == "import_declaration"@ {
            let end = subtree_end(ns, c);
            let k = count_children_upto(ns, c, ChildSel::ImportItem, end);
            &&& k <= xs.len()
            &&& import_items_upto(ns, src, c, end, xs.skip(xs.len() - k))
            &&& imports_upto(ns, src, c, xs.take(xs.len() - k))
        } else {
            imports_upto(ns, src, c, xs)
        }
    } else {
        xs.len() == 0
    }
}

/// `f` is the model of the Java file whose syntax tree has the preorder
/// nodes `ns` and whose source is `src`.
pub open spec fn file_is(ns: Seq<SyntaxNodeView>, src: Seq<char>, f: JavaFile) -> bool {
    &&& opt_text(f.package) == package_upto(ns, src, ns.len() as int)
    &&& imports_upto(ns, src, ns.len() as int, f.imports@)
    &&& top_types_upto(ns, src, ns.len() as int, f.types@)
}

// ---------------------------------------------------------------------------
// Reading declarations.
// ---------------------------------------------------------------------------

/// The node just before node `i` under the same parent.
fn prev_sibling_of(nodes: &Vec<SyntaxNode>, i: usize) -> (r: Option<usize>)
    requires
        i < nodes@.len(),
    ensures
        opt_pos(r) == prev_sibling(node_views(nodes@), i as int),
        r matches Some(k) ==> k < nodes@.len(),
{
    let ghost ns = node_views(nodes@);
    let d = nodes[i].depth;
    let mut k = i;
    while k > 0
        invariant
            k <= i < nodes@.len(),
            ns == node_views(nodes@),
            d == ns[i as int].depth,
            prev_sibling_from(ns, d as nat, k - 1) == prev_sibling(ns, i as int),
        decreases k,
    {
        let c = k - 1;
        if nodes[c].depth > d {
            k = c;
        } else if nodes[c].depth == d {
            return Some(c);
        } else {
            return None;
        }
    }
    None
}

/// The documentation of node `i`.
fn parse_doc(nodes: &Vec<SyntaxNode>, source: &str, i: usize) -> (d: Option<JavaDoc>)
    requires
        i < nodes@.len(),
    ensures
        doc_is(node_views(nodes@), source@, i as int, d),
{
    match prev_sibling_of(nodes, i) {
        Some(k) => {
            if kind_is(nodes, k, "block_comment") {
                let t = node_text(nodes, source, k);
                if is_javadoc_text(&t) {
                    return Some(parse_javadoc(t.as_str()));
                }
            }
            None
        },
        None => None,
    }
}

/// Whether a comment's text is a Javadoc comment.
fn is_javadoc_text(t: &String) -> (r: bool)
    ensures
        r == is_javadoc(t@),
{
    let cs = chars_of(t.as_str());
    proof {
        reveal_strlit("/**");
        reveal_strlit("/**/");
    }
    if cs.len() < 3 || cs[0] != '/' || cs[1] != '*' || cs[2] != '*' {
        proof {
            if cs@.len() >= 3 {
                assert(cs@.take(3)[0] == cs@[0] && cs@.take(3)[1] == cs@[1] && cs@.take(3)[2] == cs@[2]);
            }
        }
        return false;
    }
    assert(cs@.take(3) == "/**"@);
    let empty = cs.len() == 4 && cs[3] == '/';
    proof {
        if !empty && cs@.len() == 4 {
            assert(cs@[3] != "/**/"@[3]);
        }
        if empty {
            assert(cs@ == "/**/"@);
        }
    }
    !empty
}

/// The fields that the named declarators of the field declaration `f`,
/// whose type node is `tn`, declare.
fn parse_declarator_fields(nodes: &Vec<SyntaxNode>, source: &str, f: usize, tn: usize) -> (xs: Vec<JavaField>)
    requires
        f < nodes@.len(),
        tn < nodes@.len(),
    ensures
        decl_fields_upto(node_views(nodes@), source@, f as int, tn as int, subtree_end(node_views(nodes@), f as int), xs@),
        xs@.len() == count_declarators_upto(node_views(nodes@), source@, f as int, subtree_end(node_views(nodes@), f as int)),
{
    let ghost ns = node_views(nodes@);
    let end = subtree_end_of(nodes, f);
    let mut xs: Vec<JavaField> = Vec::new();
    let mut j = f + 1;
    while j < end
        invariant
            f < j <= end <= nodes@.len(),
            tn < nodes@.len(),
            ns == node_views(nodes@),
            end as int == subtree_end(ns, f as int),
            decl_fields_upto(ns, source@, f as int, tn as int, j as int, xs@),
            xs@.len() == count_declarators_upto(ns, source@, f as int, j as int),
        decreases end - j,
    {
        if is_child_of(nodes, f, end, j) && field_name_is(nodes, j, "declarator") {
            let d_end = subtree_end_of(nodes, j);
            if let Some(n) = first_child_of(nodes, j, d_end, ChildSel::Field("name")) {
                let documentation = parse_doc(nodes, source, f);
                let (annotations, modifiers) = parse_metadata(nodes, source, first_child_of(nodes, f, end, ChildSel::Kind("modifiers")));
                let ty = parse_dims_type(nodes, source, tn, first_child_of(nodes, j, d_end, ChildSel::Field("dimensions")));
                let name = node_text(nodes, source, n);
                let ghost before = xs@;
                xs.push(JavaField {
                    documentation,
                    annotations,
                    modifiers,
                    ty,
                    name,
                    range: (nodes[f].start, nodes[f].end),
                });
                assert(xs@.drop_last() == before);
            }
        }
        j = j + 1;
    }
    xs
}

/// The fields that the field declarations among the children of body `b`
/// declare.
fn parse_fields(nodes: &Vec<SyntaxNode>, source: &str, b: usize) -> (xs: Vec<JavaField>)
    requires
        b < nodes@.len(),
    ensures
        fields_upto(node_views(nodes@), source@, b as int, subtree_end(node_views(nodes@), b as int), xs@),
{
    let ghost ns = node_views(nodes@);
    let end = subtree_end_of(nodes, b);
    let mut xs: Vec<JavaField> = Vec::new();
    let mut j = b + 1;
    while j < end
        invariant
            b < j <= end <= nodes@.len(),
            ns == node_views(nodes@),
            end as int == subtree_end(ns, b as int),
            fields_upto(ns, source@, b as int, j as int, xs@),
        decreases end - j,
    {
        if is_child_of(nodes, b, end, j) && kind_is(nodes, j, "field_declaration") {
            let c_end = subtree_end_of(nodes, j);
            if let Some(tn) = first_child_of(nodes, j, c_end, ChildSel::Field("type")) {
                let mut more = parse_declarator_fields(nodes, source, j, tn);
                let ghost before = xs@;
                let ghost added = more@;
                xs.append(&mut more);
                assert(xs@.skip(xs@.len() - added.len()) == added);
                assert(xs@.take(xs@.len() - added.len()) == before);
            }
        }
        j = j + 1;
    }
    xs
}

/// The method that the `method_declaration` node `i` declares.
fn parse_method(nodes: &Vec<SyntaxNode>, source: &str, i: usize) -> (m: JavaMethod)
    requires
        i < nodes@.len(),
    ensures
        method_is(node_views(nodes@), source@, i as int, m),
{
    let end = subtree_end_of(nodes, i);
    let documentation = parse_doc(nodes, source, i);
    let (annotations, modifiers) = parse_metadata(nodes, source, first_child_of(nodes, i, end, ChildSel::Kind("modifiers")));
    let type_parameters = parse_type_params(nodes, source, first_child_of(nodes, i, end, ChildSel::Field("type_parameters")));
    let return_type = match first_child_of(nodes, i, end, ChildSel::Field("type")) {
        Some(tn) => Some(parse_dims_type(nodes, source, tn, first_child_of(nodes, i, end, ChildSel::Field("dimensions")))),
        None => None,
    };
    let name = match first_child_of(nodes, i, end, ChildSel::Field("name")) {
        Some(n) => node_text(nodes, source, n),
        None => String::new(),
    };
    let args = parse_args(nodes, source, first_child_of(nodes, i, end, ChildSel::Field("parameters")));
    let throws = parse_type_list(nodes, source, first_child_of(nodes, i, end, ChildSel::Kind("throws")));
    JavaMethod {
        documentation,
        annotations,
        modifiers,
        type_parameters,
        return_type,
        name,
        args,
        throws,
        range: (nodes[i].start, nodes[i].end),
    }
}

/// The constructor that the `constructor_declaration` node `i` declares.
fn parse_constructor(nodes: &Vec<SyntaxNode>, source: &str, i: usize) -> (c: JavaConstructor)
    requires
        i < nodes@.len(),
    ensures
        constructor_is(node_views(nodes@), source@, i as int, c),
{
    let end = subtree_end_of(nodes, i);
    let documentation = parse_doc(nodes, source, i);
    let (annotations, modifiers) = parse_metadata(nodes, source, first_child_of(nodes, i, end, ChildSel::Kind("modifiers")));
    let type_parameters = parse_type_params(nodes, source, first_child_of(nodes, i, end, ChildSel::Field("type_parameters")));
    let name = match first_child_of(nodes, i, end, ChildSel::Field("name")) {
        Some(n) => node_text(nodes, source, n),
        None => String::new(),
    };
    let args = parse_args(nodes, source, first_child_of(nodes, i, end, ChildSel::Field("parameters")));
    let throws = parse_type_list(nodes, source, first_child_of(nodes, i, end, ChildSel::Kind("throws")));
    JavaConstructor {
        documentation,
        annotations,
        modifiers,
        type_parameters,
        name,
        args,
        throws,
        range: (nodes[i].start, nodes[i].end),
    }
}

/// The element that the `annotation_type_element_declaration` node `i`,
/// whose type node is `tn`, declares.
fn parse_element(nodes: &Vec<SyntaxNode>, source: &str, i: usize, tn: usize) -> (e: JavaAnnotationElement)
    requires
        i < nodes@.len(),
        tn < nodes@.len(),
    ensures
        element_is(node_views(nodes@), source@, i as int, tn as int, e),
{
    let end = subtree_end_of(nodes, i);
    let documentation = parse_doc(nodes, source, i);
    let annotations = match first_child_of(nodes, i, end, ChildSel::Kind("modifiers")) {
        Some(m) => parse_annotations(nodes, source, m),
        None => Vec::new(),
    };
    let name = match first_child_of(nodes, i, end, ChildSel::Field("name")) {
        Some(n) => node_text(nodes, source, n),
        None => String::new(),
    };
    let return_type = parse_dims_type(nodes, source, tn, first_child_of(nodes, i, end, ChildSel::Field("dimensions")));
    let default_value = match first_child_of(nodes, i, end, ChildSel::Field("value")) {
        Some(v) => Some(parse_annotation_value(nodes, source, v)),
        None => None,
    };
    JavaAnnotationElement { documentation, annotations, name, return_type, default_value, range: (nodes[i].start, nodes[i].end) }
}

/// The methods among the children of body `b`.
fn parse_methods(nodes: &Vec<SyntaxNode>, source: &str, b: usize) -> (xs: Vec<JavaMethod>)
    requires
        b < nodes@.len(),
    ensures
        methods_upto(node_views(nodes@), source@, b as int, subtree_end(node_views(nodes@), b as int), xs@),
{
    let ghost ns = node_views(nodes@);
    let end = subtree_end_of(nodes, b);
    let mut xs: Vec<JavaMethod> = Vec::new();
    let mut j = b + 1;
    while j < end
        invariant
            b < j <= end <= nodes@.len(),
            ns == node_views(nodes@),
            end as int == subtree_end(ns, b as int),
            methods_upto(ns, source@, b as int, j as int, xs@),
        decreases end - j,
    {
        if is_child_of(nodes, b, end, j) && kind_is(nodes, j, "method_declaration") {
            let m = parse_method(nodes, source, j);
            let ghost before = xs@;
            xs.push(m);
            assert(xs@.drop_last() == before);
        }
        j = j + 1;
    }
    xs
}

/// The constructors among the children of body `b`.
fn parse_constructors(nodes: &Vec<SyntaxNode>, source: &str, b: usize) -> (xs: Vec<JavaConstructor>)
    requires
        b < nodes@.len(),
    ensures
        constructors_upto(node_views(nodes@), source@, b as int, subtree_end(node_views(nodes@), b as int), xs@),
{
    let ghost ns = node_views(nodes@);
    let end = subtree_end_of(nodes, b);
    let mut xs: Vec<JavaConstructor> = Vec::new();
    let mut j = b + 1;
    while j < end
        invariant
            b < j <= end <= nodes@.len(),
            ns == node_views(nodes@),
            end as int == subtree_end(ns, b as int),
            constructors_upto(ns, source@, b as int, j as int, xs@),
        decreases end - j,
    {
        if is_child_of(nodes, b, end, j) && kind_is(nodes, j, "constructor_declaration") {
            let c = parse_constructor(nodes, source, j);
            let ghost before = xs@;
            xs.push(c);
            assert(xs@.drop_last() == before);
        }
        j = j + 1;
    }
    xs
}

/// The texts of the enum constants among the children of body `b`.
fn parse_constants(nodes: &Vec<SyntaxNode>, source: &str, b: usize) -> (xs: Vec<String>)
    requires
        b < nodes@.len(),
    ensures
        constants_upto(node_views(nodes@), source@, b as int, subtree_end(node_views(nodes@), b as int), xs@),
{
    let ghost ns = node_views(nodes@);
    let end = subtree_end_of(nodes, b);
    let mut xs: Vec<String> = Vec::new();
    let mut j = b + 1;
    while j < end
        invariant
            b < j <= end <= nodes@.len(),
            ns == node_views(nodes@),
            end as int == subtree_end(ns, b as int),
            constants_upto(ns, source@, b as int, j as int, xs@),
        decreases end - j,
    {
        if is_child_of(nodes, b, end, j) && kind_is(nodes, j, "enum_constant") {
            let ghost before = xs@;
            xs.push(node_text(nodes, source, j));
            assert(xs@.drop_last() == before);
        }
        j = j + 1;
    }
    xs
}

/// The annotation elements among the children of body `b`.
fn parse_elements(nodes: &Vec<SyntaxNode>, source: &str, b: usize) -> (xs: Vec<JavaAnnotationElement>)
    requires
        b < nodes@.len(),
    ensures
        elements_upto(node_views(nodes@), source@, b as int, subtree_end(node_views(nodes@), b as int), xs@),
{
    let ghost ns = node_views(nodes@);
    let end = subtree_end_of(nodes, b);
    let mut xs: Vec<JavaAnnotationElement> = Vec::new();
    let mut j = b + 1;
    while j < end
        invariant
            b < j <= end <= nodes@.len(),
            ns == node_views(nodes@),
            end as int == subtree_end(ns, b as int),
            elements_upto(ns, source@, b as int, j as int, xs@),
        decreases end - j,
    {
        if is_child_of(nodes, b, end, j) && kind_is(nodes, j, "annotation_type_element_declaration") {
            let c_end = subtree_end_of(nodes, j);
            if let Some(tn) = first_child_of(nodes, j, c_end, ChildSel::Field("type")) {
                let e = parse_element(nodes, source, j, tn);
                let ghost before = xs@;
                xs.push(e);
                assert(xs@.drop_last() == before);
            }
        }
        j = j + 1;
    }
    xs
}

/// Whether node `i` is a type declaration.
fn is_type_decl_node(nodes: &Vec<SyntaxNode>, i: usize) -> (r: bool)
    requires
        i < nodes@.len(),
    ensures
        r == is_type_decl_kind(node_views(nodes@)[i as int].kind),
{
    kind_is(nodes, i, "class_declaration") || kind_is(nodes, i, "interface_declaration")
        || kind_is(nodes, i, "enum_declaration") || kind_is(nodes, i, "record_declaration")
        || kind_is(nodes, i, "annotation_type_declaration")
}

/// Whether node `i` is a body that holds type members.
fn is_type_body_node(nodes: &Vec<SyntaxNode>, i: usize) -> (r: bool)
    requires
        i < nodes@.len(),
    ensures
        r == is_type_body_kind(node_views(nodes@)[i as int].kind),
{
    kind_is(nodes, i, "class_body") || kind_is(nodes, i, "interface_body") || kind_is(nodes, i, "enum_body")
        || kind_is(nodes, i, "annotation_type_body")
}

/// The kind of type that the declaration node `i` declares.
fn decl_kind_of(nodes: &Vec<SyntaxNode>, i: usize) -> (k: TypeKind)
    requires
        i < nodes@.len(),
    ensures
        k == decl_kind(node_views(nodes@)[i as int].kind),
{
    if kind_is(nodes, i, "interface_declaration") {
        TypeKind::Interface
    } else if kind_is(nodes, i, "enum_declaration") {
        TypeKind::Enum
    } else if kind_is(nodes, i, "record_declaration") {
        TypeKind::Record
    } else if kind_is(nodes, i, "annotation_type_declaration") {
        TypeKind::Annotation
    } else {
        TypeKind::Class
    }
}

/// The type that the declaration node `i` declares, with the members of its
/// body.
pub fn parse_type(nodes: &Vec<SyntaxNode>, source: &str, i: usize) -> (t: JavaType)
    requires
        i < nodes@.len(),
    ensures
        type_is(node_views(nodes@), source@, i as int, t),
    decreases nodes@.len() - i, 0int,
{
    let end = subtree_end_of(nodes, i);
    let kind = decl_kind_of(nodes, i);
    let name = match first_child_of(nodes, i, end, ChildSel::Field("name")) {
        Some(n) => node_text(nodes, source, n),
        None => String::new(),
    };
    let documentation = parse_doc(nodes, source, i);
    let (annotations, modifiers) = parse_metadata(nodes, source, first_child_of(nodes, i, end, ChildSel::Kind("modifiers")));
    let type_parameters = parse_type_params(nodes, source, first_child_of(nodes, i, end, ChildSel::Field("type_parameters")));
    let extends_node = if kind_is(nodes, i, "interface_declaration") {
        first_child_of(nodes, i, end, ChildSel::Kind("extends_interfaces"))
    } else {
        first_child_of(nodes, i, end, ChildSel::Field("superclass"))
    };
    let extends = parse_supertypes(nodes, source, extends_node);
    let implements = parse_supertypes(nodes, source, first_child_of(nodes, i, end, ChildSel::Field("interfaces")));
    let record_components = if kind == TypeKind::Record {
        parse_args(nodes, source, first_child_of(nodes, i, end, ChildSel::Field("parameters")))
    } else {
        Vec::new()
    };
    let range = (nodes[i].start, nodes[i].end);
    match first_child_of(nodes, i, end, ChildSel::Field("body")) {
        Some(b) => {
            let fields = parse_fields(nodes, source, b);
            let constructors = parse_constructors(nodes, source, b);
            let methods = parse_methods(nodes, source, b);
            let enum_constants = if kind == TypeKind::Enum {
                parse_constants(nodes, source, b)
            } else {
                Vec::new()
            };
            let annotation_elements = if kind == TypeKind::Annotation {
                parse_elements(nodes, source, b)
            } else {
                Vec::new()
            };
            let nested_types = parse_nested_types(nodes, source, b);
            JavaType {
                kind,
                name,
                documentation,
                annotations,
                modifiers,
                type_parameters,
                extends,
                implements,
                fields,
                constructors,
                methods,
                enum_constants,
                record_components,
                annotation_elements,
                nested_types,
                range,
                body_range: Some((nodes[b].start, nodes[b].end)),
            }
        },
        None => JavaType {
            kind,
            name,
            documentation,
            annotations,
            modifiers,
            type_parameters,
            extends,
            implements,
            fields: Vec::new(),
            constructors: Vec::new(),
            methods: Vec::new(),
            enum_constants: Vec::new(),
            record_components,
            annotation_elements: Vec::new(),
            nested_types: Vec::new(),
            range,
            body_range: None,
        },
    }
}

/// The types declared by the type declarations among the children of body
/// `b`.
fn parse_nested_types(nodes: &Vec<SyntaxNode>, source: &str, b: usize) -> (xs: Vec<JavaType>)
    requires
        b < nodes@.len(),
    ensures
        nested_types_upto(node_views(nodes@), source@, b as int, subtree_end(node_views(nodes@), b as int), xs@),
    decreases nodes@.len() - b, nodes@.len() - b,
{
    let ghost ns = node_views(nodes@);
    let end = subtree_end_of(nodes, b);
    let mut xs: Vec<JavaType> = Vec::new();
    let mut j = b + 1;
    while j < end
        invariant
            b < j <= end <= nodes@.len(),
            ns == node_views(nodes@),
            end as int == subtree_end(ns, b as int),
            nested_types_upto(ns, source@, b as int, j as int, xs@),
        decreases end - j,
    {
        if is_child_of(nodes, b, end, j) && is_type_decl_node(nodes, j) {
            let t = parse_type(nodes, source, j);
            let ghost before = xs@;
            xs.push(t);
            assert(xs@.drop_last() == before);
        }
        j = j + 1;
    }
    xs
}

/// Whether node `c` is a top-level type declaration.
fn is_top_level_type_node(nodes: &Vec<SyntaxNode>, c: usize) -> (r: bool)
    requires
        c < nodes@.len(),
    ensures
        r == is_top_level_type(node_views(nodes@), c as int),
{
    let ghost ns = node_views(nodes@);
    if !is_type_decl_node(nodes, c) {
        return false;
    }
    let mut d = nodes[c].depth;
    let mut k = c;
    while k > 0
        invariant
            k <= c < nodes@.len(),
            ns == node_views(nodes@),
            ancestor_blocked(ns, k - 1, d as nat) == ancestor_blocked(ns, c - 1, ns[c as int].depth),
        decreases k,
    {
        let a = k - 1;
        if nodes[a].depth < d {
            if is_type_decl_node(nodes, a) || is_type_body_node(nodes, a) {
                return false;
            }
            d = nodes[a].depth;
        }
        k = a;
    }
    true
}

/// The types declared by the top-level type declarations.
fn parse_top_types(nodes: &Vec<SyntaxNode>, source: &str) -> (xs: Vec<JavaType>)
    ensures
        top_types_upto(node_views(nodes@), source@, nodes@.len() as int, xs@),
{
    let ghost ns = node_views(nodes@);
    let n = nodes.len();
    let mut xs: Vec<JavaType> = Vec::new();
    for j in 0..n
        invariant
            n == nodes@.len(),
            ns == node_views(nodes@),
            top_types_upto(ns, source@, j as int, xs@),
    {
        if is_top_level_type_node(nodes, j) {
            let t = parse_type(nodes, source, j);
            let ghost before = xs@;
            xs.push(t);
            assert(xs@.drop_last() == before);
        }
    }
    xs
}

/// The package that the package declarations name.
fn parse_package(nodes: &Vec<SyntaxNode>, source: &str) -> (r: Option<String>)
    ensures
        opt_text(r) == package_upto(node_views(nodes@), source@, nodes@.len() as int),
{
    let ghost ns = node_views(nodes@);
    let n = nodes.len();
    let mut r: Option<String> = None;
    for j in 0..n
        invariant
            n == nodes@.len(),
            ns == node_views(nodes@),
            opt_text(r) == package_upto(ns, source@, j as int),
    {
        if kind_is(nodes, j, "package_declaration") {
            let end = subtree_end_of(nodes, j);
            if let Some(name) = last_child_of(nodes, j, end, ChildSel::NameLike) {
                r = Some(node_text(nodes, source, name));
            }
        }
    }
    r
}

/// The texts of what the import declaration `d` names.
fn parse_import_items(nodes: &Vec<SyntaxNode>, source: &str, d: usize) -> (xs: Vec<String>)
    requires
        d < nodes@.len(),
    ensures
        import_items_upto(node_views(nodes@), source@, d as int, subtree_end(node_views(nodes@), d as int), xs@),
        xs@.len() == count_children_upto(node_views(nodes@), d as int, ChildSel::ImportItem, subtree_end(node_views(nodes@), d as int)),
{
    let ghost ns = node_views(nodes@);
    let end = subtree_end_of(nodes, d);
    let mut xs: Vec<String> = Vec::new();
    let mut j = d + 1;
    while j < end
        invariant
            d < j <= end <= nodes@.len(),
            ns == node_views(nodes@),
            end as int == subtree_end(ns, d as int),
            import_items_upto(ns, source@, d as int, j as int, xs@),
            xs@.len() == count_children_upto(ns, d as int, ChildSel::ImportItem, j as int),
        decreases end - j,
    {
        if is_child_of(nodes, d, end, j) && sel_matches_node(&nodes[j], &ChildSel::ImportItem) {
            let ghost before = xs@;
            xs.push(node_text(nodes, source, j));
            assert(xs@.drop_last() == before);
        }
        j = j + 1;
    }
    xs
}

/// The texts of what the import declarations name, in order.
fn parse_imports(nodes: &Vec<SyntaxNode>, source: &str) -> (xs: Vec<String>)
    ensures
        imports_upto(node_views(nodes@), source@, nodes@.len() as int, xs@),
{
    let ghost ns = node_views(nodes@);
    let n = nodes.len();
    let mut xs: Vec<String> = Vec::new();
    for j in 0..n
        invariant
            n == nodes@.len(),
            ns == node_views(nodes@),
            imports_upto(ns, source@, j as int, xs@),
    {
        if kind_is(nodes, j, "import_declaration") {
            let mut more = parse_import_items(nodes, source, j);
            let ghost before = xs@;
            let ghost added = more@;
            xs.append(&mut more);
            assert(xs@.skip(xs@.len() - added.len()) == added);
            assert(xs@.take(xs@.len() - added.len()) == before);
        }
    }
    xs
}

/// The model of the Java file whose syntax tree has the preorder nodes
/// `nodes` and whose source is `source`.
pub fn file_from_syntax(nodes: &Vec<SyntaxNode>, source: &str) -> (f: JavaFile)
    ensures
        file_is(node_views(nodes@), source@, f),
{
    let package = parse_package(nodes, source);
    let imports = parse_imports(nodes, source);
    let types = parse_top_types(nodes, source);
    JavaFile { package, imports, types }
}

/// Parses one Java source file into the model: always the model of the
/// syntax tree that tree-sitter-java builds for the source (tree-sitter
/// recovers from syntax errors, so every source has a tree).
pub fn parse_java_file(source: &str) -> (r: Result<JavaFile, JavaAstError>)
    ensures
        r matches Ok(f) && file_is(java_syntax(source@), source@, f),
{
    match java_syntax_nodes(source) {
        Ok(nodes) => Ok(file_from_syntax(&nodes, source)),
        Err(SyntaxError::Language(msg)) => Err(JavaAstError::LanguageSetup(msg)),
        Err(SyntaxError::NoTree) => Err(JavaAstError::ParseFailed),
    }
}

/// Each type of a file's top-level list is declared by a node that no type
/// declaration or type body encloses; nested declarations reach the model
/// only through their enclosing type's nested types.
pub proof fn lemma_top_types_are_top_level(ns: Seq<SyntaxNodeView>, src: Seq<char>, j: int, xs: Seq<JavaType>, k: int)
    requires
        top_types_upto(ns, src, j, xs),
        0 <= k < xs.len(),
    ensures
        exists|c: int| 0 <= c < j && is_top_level_type(ns, c) && #[trigger] type_is(ns, src, c, xs[k]),
    decreases j,
{
    if 0 < j <= ns.len() {
        let c = j - 1;
        if is_top_level_type(ns, c) {
            if k == xs.len() - 1 {
                assert(type_is(ns, src, c, xs[k]));
            } else {
                let rest = xs.drop_last();
                lemma_top_types_are_top_level(ns, src, c, rest, k);
                assert(xs[k] == rest[k]);
            }
        } else {
            lemma_top_types_are_top_level(ns, src, c, xs, k);
        }
    }
}

} // verus!
