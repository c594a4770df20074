//! Reading type references, annotations and annotation values out of the
//! syntax tree.
//!
//! Each `*_is` relation says which model value one syntax node stands for;
//! each `*_upto` relation says which values the children of a node before a
//! given position stand for, in order.

use vstd::prelude::*;

use super::display::primitive_of;
use super::model::{
    JavaAnnotation, JavaAnnotationArgument, JavaAnnotationValue, JavaArgument, JavaPrimitiveType,
    JavaReferenceType, JavaTypeArgument, JavaTypeParameter, JavaTypeRef, JavaWildcardBound,
};
use super::syntax::{
    opt_pos, count_children_upto, first_child, first_child_of, is_annotation_kind, is_child, is_child_of, kind_is, last_child, last_child_of,
    lemma_subtree_end_bounds, node_text, node_views, sel_matches, sel_matches_node, selected, sole_named_child,
    sole_named_child_of, subtree_end, subtree_end_of, text, ChildSel, SyntaxNode, SyntaxNodeView,
};
use crate::text::{chars_of, copy_string};

verus! {

// ---------------------------------------------------------------------------
// Array dimensions.
// ---------------------------------------------------------------------------

/// The number of `[]` pairs in `s`, read left to right.
pub open spec fn bracket_pairs(s: Seq<char>) -> nat
    decreases s.len(),
{
    if s.len() < 2 {
        0
    } else if s[0] == '[' && s[1] == ']' {
        1 + bracket_pairs(s.skip(2))
    } else {
        bracket_pairs(s.skip(1))
    }
}

/// The number of dimensions a `dimensions` node spells: its `[]` pairs, at
/// least one.
pub open spec fn dims_of(s: Seq<char>) -> nat {
    if bracket_pairs(s) == 0 {
        1
    } else {
        bracket_pairs(s)
    }
}

/// The number of dimensions that the text `s` spells.
pub fn count_dimensions(s: &String) -> (n: usize)
    ensures
        n as nat == dims_of(s@),
{
    let cs = chars_of(s.as_str());
    let len = cs.len();
    let mut i: usize = 0;
    let mut n: usize = 0;
    assert(cs@.skip(0) == cs@);
    while len >= 2 && i <= len - 2
        invariant
            i <= len,
            len == cs@.len(),
            cs@ == s@,
            n <= i,
            bracket_pairs(s@) == n + bracket_pairs(cs@.skip(i as int)),
        decreases len - i,
    {
        if cs[i] == '[' && cs[i + 1] == ']' {
            assert(cs@.skip(i as int).skip(2) == cs@.skip(i + 2));
            n = n + 1;
            i = i + 2;
        } else {
            assert(cs@.skip(i as int).skip(1) == cs@.skip(i + 1));
            i = i + 1;
        }
    }
    if n == 0 {
        1
    } else {
        n
    }
}

// ---------------------------------------------------------------------------
// The relations.
// ---------------------------------------------------------------------------

/// `t` is the fallback for a node of kind `k` and text `tx`.
pub open spec fn unsupported_is(t: JavaTypeRef, k: Seq<char>, tx: Seq<char>) -> bool {
    t matches JavaTypeRef::Unsupported { kind, text } && kind@ == k && text@ == tx
}

/// The kind of bound a wildcard's children before `j` set last: `Some(true)`
/// for `super`, `Some(false)` for `extends`.
pub open spec fn wildcard_kind_from(ns: Seq<SyntaxNodeView>, src: Seq<char>, p: int, j: int) -> Option<bool>
    decreases j - p,
{
    if 0 <= p && p + 1 < j <= ns.len() {
        let c = j - 1;
        if is_child(ns, p, c) && ns[c].kind == "super"@ {
            Some(true)
        } else if is_child(ns, p, c) && !is_annotation_kind(ns[c].kind) && text(ns, src, c) == "extends"@ {
            Some(false)
        } else {
            wildcard_kind_from(ns, src, p, c)
        }
    } else {
        None
    }
}

/// Whether child `c` of a wildcard is its bound type.
pub open spec fn is_wildcard_type(ns: Seq<SyntaxNodeView>, src: Seq<char>, p: int, c: int) -> bool {
    &&& is_child(ns, p, c)
    &&& ns[c].named
    &&& !is_annotation_kind(ns[c].kind)
    &&& ns[c].kind != "super"@
    &&& text(ns, src, c) != "extends"@
}

/// The last bound type among a wildcard's children before `j`.
pub open spec fn wildcard_type_from(ns: Seq<SyntaxNodeView>, src: Seq<char>, p: int, j: int) -> Option<int>
    decreases j - p,
{
    if 0 <= p && p + 1 < j <= ns.len() {
        let c = j - 1;
        if is_wildcard_type(ns, src, p, c) {
            Some(c)
        } else {
            wildcard_type_from(ns, src, p, c)
        }
    } else {
        None
    }
}

/// `t` is the type reference that node `i` spells.
pub open spec fn type_ref_is(ns: Seq<SyntaxNodeView>, src: Seq<char>, i: int, t: JavaTypeRef) -> bool
    decreases ns.len() - i, ns.len() - i + 2,
{
    if 0 <= i < ns.len() {
        proof { lemma_subtree_end_bounds(ns, i); }
        let k = ns[i].kind;
        let tx = text(ns, src, i);
        let end = subtree_end(ns, i);
        if primitive_of(tx) is Some {
            t == JavaTypeRef::Primitive(primitive_of(tx)->0)
        } else if k == "void_type"@ {
            t is Void
        } else if k == "integral_type"@ || k == "floating_point_type"@ || k == "boolean_type"@ {
            unsupported_is(t, k, tx)
        } else if sel_matches(ns[i], ChildSel::RefBase) {
            t matches JavaTypeRef::Reference(r) && ref_base_is(ns, src, i, r) && r.args@.len() == 0
                && r.resolved_fqn is None
        } else if k == "generic_type"@ {
            &&& t matches JavaTypeRef::Reference(r)
            &&& r.resolved_fqn is None
            &&& match first_child(ns, i, ChildSel::RefBase) {
                Some(b) => i < b < ns.len() && ref_base_is(ns, src, b, r),
                None => r.name@ == tx && r.qualifier is None,
            }
            &&& match last_child(ns, i, ChildSel::Kind("type_arguments")) {
                Some(a) => i < a < ns.len() && type_args_upto(ns, src, a, subtree_end(ns, a), r.args@),
                None => r.args@.len() == 0,
            }
        } else if k == "array_type"@ {
            &&& t matches JavaTypeRef::Array { element, dimensions }
            &&& match first_child(ns, i, ChildSel::Field("element")) {
                Some(e) => i < e < ns.len() && type_ref_is(ns, src, e, *element),
                None => unsupported_is(*element, k, tx),
            }
            &&& dimensions as nat == match first_child(ns, i, ChildSel::Field("dimensions")) {
                Some(d) => dims_of(text(ns, src, d)),
                None => 1,
            }
        } else if k == "annotated_type"@ {
            &&& t matches JavaTypeRef::Annotated { annotations, inner }
            &&& annotations_upto(ns, src, i, end, annotations@)
            &&& match last_child(ns, i, ChildSel::NamedNonAnnotation) {
                Some(c) => i < c < ns.len() && type_ref_is(ns, src, c, *inner),
                None => unsupported_is(*inner, k, tx),
            }
        } else if k == "wildcard"@ {
            &&& t matches JavaTypeRef::Wildcard { annotations, bound }
            &&& annotations_upto(ns, src, i, end, annotations@)
            &&& match (wildcard_kind_from(ns, src, i, end), wildcard_type_from(ns, src, i, end)) {
                (Some(is_super), Some(c)) => i < c < ns.len() && match bound {
                    Some(JavaWildcardBound::Super(b)) => is_super && type_ref_is(ns, src, c, *b),
                    Some(JavaWildcardBound::Extends(b)) => !is_super && type_ref_is(ns, src, c, *b),
                    None => false,
                },
                _ => bound is None,
            }
        } else {
            unsupported_is(t, k, tx)
        }
    } else {
        false
    }
}

/// `r`'s name and qualifier are what node `b`, a plain or scoped identifier,
/// spells: a scoped identifier is named by its last named child and
/// qualified by its first named child when that is another node.
pub open spec fn ref_base_is(ns: Seq<SyntaxNodeView>, src: Seq<char>, b: int, r: JavaReferenceType) -> bool
    decreases ns.len() - b, ns.len() - b + 1,
{
    if 0 <= b < ns.len() {
        if ns[b].kind == "scoped_type_identifier"@ || ns[b].kind == "scoped_identifier"@ {
            let last = last_child(ns, b, ChildSel::Named);
            let first = first_child(ns, b, ChildSel::Named);
            &&& r.name@ == match last {
                Some(l) => text(ns, src, l),
                None => text(ns, src, b),
            }
            &&& match first {
                Some(q) => if first != last {
                    b < q < ns.len() && (r.qualifier matches Some(qt) && type_ref_is(ns, src, q, *qt))
                } else {
                    r.qualifier is None
                },
                None => r.qualifier is None,
            }
        } else {
            r.name@ == text(ns, src, b) && r.qualifier is None
        }
    } else {
        false
    }
}

/// `xs` are the generic arguments that the named children of `p` before `j`
/// spell (a wildcard child gives a wildcard argument).
pub open spec fn type_args_upto(ns: Seq<SyntaxNodeView>, src: Seq<char>, p: int, j: int, xs: Seq<JavaTypeArgument>) -> bool
    decreases ns.len() - p, j - p,
{
    if 0 <= p && p + 1 < j <= ns.len() {
        let c = j - 1;
        if selected(ns, p, ChildSel::Named, c) {
            &&& xs.len() > 0
            &&& if ns[c].kind == "wildcard"@ {
                xs.last() matches JavaTypeArgument::Wildcard(t) && type_ref_is(ns, src, c, t)
            } else {
                xs.last() matches JavaTypeArgument::Type(t) && type_ref_is(ns, src, c, t)
            }
            &&& type_args_upto(ns, src, p, c, xs.drop_last())
        } else {
            type_args_upto(ns, src, p, c, xs)
        }
    } else {
        xs.len() == 0
    }
}

/// `xs` are the annotations among the children of `p` before `j`.
pub open spec fn annotations_upto(ns: Seq<SyntaxNodeView>, src: Seq<char>, p: int, j: int, xs: Seq<JavaAnnotation>) -> bool
    decreases ns.len() - p, j - p,
{
    if 0 <= p && p + 1 < j <= ns.len() {
        let c = j - 1;
        if selected(ns, p, ChildSel::Annotation, c) {
            xs.len() > 0 && annotation_is(ns, src, c, xs.last()) && annotations_upto(ns, src, p, c, xs.drop_last())
        } else {
            annotations_upto(ns, src, p, c, xs)
        }
    } else {
        xs.len() == 0
    }
}

/// `a` is the annotation that node `i` spells: named by its `name` field
/// (by its whole text without one), with the arguments of its `arguments`
/// field.
pub open spec fn annotation_is(ns: Seq<SyntaxNodeView>, src: Seq<char>, i: int, a: JavaAnnotation) -> bool
    decreases ns.len() - i, ns.len() - i + 1,
{
    if 0 <= i < ns.len() {
        &&& a.name@ == match first_child(ns, i, ChildSel::Field("name")) {
            Some(n) => text(ns, src, n),
            None => text(ns, src, i),
        }
        &&& match first_child(ns, i, ChildSel::Field("arguments")) {
            Some(g) => i < g < ns.len() && annotation_args_upto(ns, src, g, subtree_end(ns, g), a.arguments@),
            None => a.arguments@.len() == 0,
        }
    } else {
        false
    }
}

/// `xs` are the annotation arguments that the named children of `p` before
/// `j` spell: `key = value` pairs give named arguments (a pair without a
/// value gives none), anything else a default argument.
pub open spec fn annotation_args_upto(
    ns: Seq<SyntaxNodeView>,
    src: Seq<char>,
    p: int,
    j: int,
    xs: Seq<JavaAnnotationArgument>,
) -> bool
    decreases ns.len() - p, j - p,
{
    if 0 <= p && p + 1 < j <= ns.len() {
        let c = j - 1;
        if selected(ns, p, ChildSel::Named, c) {
            if ns[c].kind == "element_value_pair"@ {
                match first_child(ns, c, ChildSel::Field("value")) {
                    Some(v) => {
                        &&& c < v < ns.len()
                        &&& xs.len() > 0
                        &&& xs.last() matches JavaAnnotationArgument::Named { name, value }
                        &&& name@ == match first_child(ns, c, ChildSel::Field("key")) {
                            Some(key) => text(ns, src, key),
                            None => Seq::empty(),
                        }
                        &&& value_is(ns, src, v, value)
                        &&& annotation_args_upto(ns, src, p, c, xs.drop_last())
                    },
                    None => annotation_args_upto(ns, src, p, c, xs),
                }
            } else {
                &&& xs.len() > 0
                &&& xs.last() matches JavaAnnotationArgument::Default(value)
                &&& value_is(ns, src, c, value)
                &&& annotation_args_upto(ns, src, p, c, xs.drop_last())
            }
        } else {
            annotation_args_upto(ns, src, p, c, xs)
        }
    } else {
        xs.len() == 0
    }
}

/// `xs` are the annotation values that the named children of `p` before `j`
/// spell.
pub open spec fn values_upto(ns: Seq<SyntaxNodeView>, src: Seq<char>, p: int, j: int, xs: Seq<JavaAnnotationValue>) -> bool
    decreases ns.len() - p, j - p,
{
    if 0 <= p && p + 1 < j <= ns.len() {
        let c = j - 1;
        if selected(ns, p, ChildSel::Named, c) {
            xs.len() > 0 && value_is(ns, src, c, xs.last()) && values_upto(ns, src, p, c, xs.drop_last())
        } else {
            values_upto(ns, src, p, c, xs)
        }
    } else {
        xs.len() == 0
    }
}

/// Whether a kind is that of a numeric literal.
pub open spec fn is_number_kind(k: Seq<char>) -> bool {
    k == "decimal_integer_literal"@ || k == "hex_integer_literal"@ || k == "octal_integer_literal"@
        || k == "binary_integer_literal"@ || k == "decimal_floating_point_literal"@
        || k == "hex_floating_point_literal"@
}

/// `v` is the annotation value that node `i` spells. A node of another kind
/// with a single named child stands for that child's value.
pub open spec fn value_is(ns: Seq<SyntaxNodeView>, src: Seq<char>, i: int, v: JavaAnnotationValue) -> bool
    decreases ns.len() - i, ns.len() - i + 2,
{
    if 0 <= i < ns.len() {
        proof { lemma_subtree_end_bounds(ns, i); }
        let k = ns[i].kind;
        let tx = text(ns, src, i);
        if k == "string_literal"@ {
            v matches JavaAnnotationValue::String(s) && s@ == tx
        } else if k == "character_literal"@ {
            v matches JavaAnnotationValue::Char(s) && s@ == tx
        } else if is_number_kind(k) {
            v matches JavaAnnotationValue::Number(s) && s@ == tx
        } else if k == "true"@ {
            v == JavaAnnotationValue::Boolean(true)
        } else if k == "false"@ {
            v == JavaAnnotationValue::Boolean(false)
        } else if k == "null_literal"@ {
            v is Null
        } else if is_annotation_kind(k) {
            v matches JavaAnnotationValue::Annotation(a) && annotation_is(ns, src, i, a)
        } else if k == "element_value_array_initializer"@ {
            v matches JavaAnnotationValue::Array(vs) && values_upto(ns, src, i, subtree_end(ns, i), vs@)
        } else if k == "class_literal"@ {
            match first_child(ns, i, ChildSel::Named) {
                Some(c) => i < c < ns.len() && (v matches JavaAnnotationValue::ClassLiteral(t)
                    && type_ref_is(ns, src, c, t)),
                None => v matches JavaAnnotationValue::Unsupported { kind, text } && kind@ == k && text@ == tx,
            }
        } else if k == "identifier"@ || k == "scoped_identifier"@ || k == "field_access"@ {
            v matches JavaAnnotationValue::Reference(s) && s@ == tx
        } else if k == "unary_expression"@ || k == "binary_expression"@ || k == "parenthesized_expression"@ {
            v matches JavaAnnotationValue::Expression(s) && s@ == tx
        } else {
            match sole_named_child(ns, i) {
                Some(c) => i < c < ns.len() && value_is(ns, src, c, v),
                None => v matches JavaAnnotationValue::Unsupported { kind, text } && kind@ == k && text@ == tx,
            }
        }
    } else {
        false
    }
}

// ---------------------------------------------------------------------------
// Reading them.
// ---------------------------------------------------------------------------

/// The kind of bound a wildcard's children set last: `Some(true)` for
/// `super`, `Some(false)` for `extends`.
fn wildcard_kind(nodes: &Vec<SyntaxNode>, source: &str, p: usize, end: usize) -> (r: Option<bool>)
    requires
        p < nodes@.len(),
        end as int == subtree_end(node_views(nodes@), p as int),
    ensures
        r == wildcard_kind_from(node_views(nodes@), source@, p as int, end as int),
{
    let ghost ns = node_views(nodes@);
    proof { lemma_subtree_end_bounds(ns, p as int); }
    let mut j = end;
    while j > p + 1
        invariant
            p < j <= end <= nodes@.len(),
            ns == node_views(nodes@),
            end as int == subtree_end(ns, p as int),
            wildcard_kind_from(ns, source@, p as int, j as int) == wildcard_kind_from(ns, source@, p as int, end as int),
        decreases j,
    {
        let c = j - 1;
        if is_child_of(nodes, p, end, c) {
            if kind_is(nodes, c, "super") {
                return Some(true);
            }
            if !(kind_is(nodes, c, "annotation") || kind_is(nodes, c, "marker_annotation")) {
                let t = node_text(nodes, source, c);
                if crate::text::str_eq(t.as_str(), "extends") {
                    return Some(false);
                }
            }
        }
        j = c;
    }
    None
}

/// The last bound type among a wildcard's children.
fn wildcard_type(nodes: &Vec<SyntaxNode>, source: &str, p: usize, end: usize) -> (r: Option<usize>)
    requires
        p < nodes@.len(),
        end as int == subtree_end(node_views(nodes@), p as int),
    ensures
        match r {
            Some(c) => wildcard_type_from(node_views(nodes@), source@, p as int, end as int) == Some(c as int)
                && p < c < nodes@.len(),
            None => wildcard_type_from(node_views(nodes@), source@, p as int, end as int) is None,
        },
{
    let ghost ns = node_views(nodes@);
    proof { lemma_subtree_end_bounds(ns, p as int); }
    let mut j = end;
    while j > p + 1
        invariant
            p < j <= end <= nodes@.len(),
            ns == node_views(nodes@),
            end as int == subtree_end(ns, p as int),
            wildcard_type_from(ns, source@, p as int, j as int) == wildcard_type_from(ns, source@, p as int, end as int),
        decreases j,
    {
        let c = j - 1;
        if is_child_of(nodes, p, end, c) && nodes[c].named
            && !(kind_is(nodes, c, "annotation") || kind_is(nodes, c, "marker_annotation"))
            && !kind_is(nodes, c, "super") {
            let t = node_text(nodes, source, c);
            if !crate::text::str_eq(t.as_str(), "extends") {
                return Some(c);
            }
        }
        j = c;
    }
    None
}

/// The type reference that node `i` spells.
pub fn parse_type_ref(nodes: &Vec<SyntaxNode>, source: &str, i: usize) -> (t: JavaTypeRef)
    requires
        i < nodes@.len(),
    ensures
        type_ref_is(node_views(nodes@), source@, i as int, t),
    decreases nodes@.len() - i, nodes@.len() - i + 2,
{
    let ghost ns = node_views(nodes@);
    let end = subtree_end_of(nodes, i);
    let tx = node_text(nodes, source, i);
    if let Some(p) = JavaPrimitiveType::from_source(tx.as_str()) {
        return JavaTypeRef::Primitive(p);
    }
    if kind_is(nodes, i, "void_type") {
        JavaTypeRef::Void
    } else if kind_is(nodes, i, "integral_type") || kind_is(nodes, i, "floating_point_type")
        || kind_is(nodes, i, "boolean_type") {
        JavaTypeRef::Unsupported { kind: copy_string(&nodes[i].kind), text: tx }
    } else if sel_matches_node(&nodes[i], &ChildSel::RefBase) {
        JavaTypeRef::Reference(parse_ref_base(nodes, source, i, Vec::new()))
    } else if kind_is(nodes, i, "generic_type") {
        let args = match last_child_of(nodes, i, end, ChildSel::Kind("type_arguments")) {
            Some(a) => parse_type_args(nodes, source, a),
            None => Vec::new(),
        };
        let r = match first_child_of(nodes, i, end, ChildSel::RefBase) {
            Some(b) => parse_ref_base(nodes, source, b, args),
            None => JavaReferenceType { name: tx, qualifier: None, args, resolved_fqn: None },
        };
        JavaTypeRef::Reference(r)
    } else if kind_is(nodes, i, "array_type") {
        let element = match first_child_of(nodes, i, end, ChildSel::Field("element")) {
            Some(e) => parse_type_ref(nodes, source, e),
            None => JavaTypeRef::Unsupported { kind: copy_string(&nodes[i].kind), text: copy_string(&tx) },
        };
        let dimensions = match first_child_of(nodes, i, end, ChildSel::Field("dimensions")) {
            Some(d) => count_dimensions(&node_text(nodes, source, d)),
            None => 1,
        };
        JavaTypeRef::Array { element: Box::new(element), dimensions }
    } else if kind_is(nodes, i, "annotated_type") {
        let annotations = parse_annotations(nodes, source, i);
        let inner = match last_child_of(nodes, i, end, ChildSel::NamedNonAnnotation) {
            Some(c) => parse_type_ref(nodes, source, c),
            None => JavaTypeRef::Unsupported { kind: copy_string(&nodes[i].kind), text: tx },
        };
        JavaTypeRef::Annotated { annotations, inner: Box::new(inner) }
    } else if kind_is(nodes, i, "wildcard") {
        let annotations = parse_annotations(nodes, source, i);
        let bound = match (wildcard_kind(nodes, source, i, end), wildcard_type(nodes, source, i, end)) {
            (Some(is_super), Some(c)) => {
                let b = parse_type_ref(nodes, source, c);
                if is_super {
                    Some(JavaWildcardBound::Super(Box::new(b)))
                } else {
                    Some(JavaWildcardBound::Extends(Box::new(b)))
                }
            },
            _ => None,
        };
        JavaTypeRef::Wildcard { annotations, bound }
    } else {
        JavaTypeRef::Unsupported { kind: copy_string(&nodes[i].kind), text: tx }
    }
}

/// The reference named and qualified as node `b`, a plain or scoped
/// identifier, spells, with the generic arguments `args`.
fn parse_ref_base(nodes: &Vec<SyntaxNode>, source: &str, b: usize, args: Vec<JavaTypeArgument>) -> (r: JavaReferenceType)
    requires
        b < nodes@.len(),
    ensures
        ref_base_is(node_views(nodes@), source@, b as int, r),
        r.args == args,
        r.resolved_fqn is None,
    decreases nodes@.len() - b, nodes@.len() - b + 1,
{
    if kind_is(nodes, b, "scoped_type_identifier") || kind_is(nodes, b, "scoped_identifier") {
        let end = subtree_end_of(nodes, b);
        let last = last_child_of(nodes, b, end, ChildSel::Named);
        let first = first_child_of(nodes, b, end, ChildSel::Named);
        let name = match last {
            Some(l) => node_text(nodes, source, l),
            None => node_text(nodes, source, b),
        };
        let qualifier = match first {
            Some(q) => {
                let same = match last {
                    Some(l) => l == q,
                    None => false,
                };
                if same {
                    None
                } else {
                    Some(Box::new(parse_type_ref(nodes, source, q)))
                }
            },
            None => None,
        };
        JavaReferenceType { name, qualifier, args, resolved_fqn: None }
    } else {
        JavaReferenceType { name: node_text(nodes, source, b), qualifier: None, args, resolved_fqn: None }
    }
}

/// The generic arguments that the named children of `p` spell.
fn parse_type_args(nodes: &Vec<SyntaxNode>, source: &str, p: usize) -> (xs: Vec<JavaTypeArgument>)
    requires
        p < nodes@.len(),
    ensures
        type_args_upto(node_views(nodes@), source@, p as int, subtree_end(node_views(nodes@), p as int), xs@),
    decreases nodes@.len() - p, nodes@.len() - p,
{
    let ghost ns = node_views(nodes@);
    let end = subtree_end_of(nodes, p);
    let mut xs: Vec<JavaTypeArgument> = Vec::new();
    let mut j = p + 1;
    while j < end
        invariant
            p < j <= end <= nodes@.len(),
            ns == node_views(nodes@),
            end as int == subtree_end(ns, p as int),
            type_args_upto(ns, source@, p as int, j as int, xs@),
        decreases end - j,
    {
        if is_child_of(nodes, p, end, j) && nodes[j].named {
            let t = parse_type_ref(nodes, source, j);
            let arg = if kind_is(nodes, j, "wildcard") {
                JavaTypeArgument::Wildcard(t)
            } else {
                JavaTypeArgument::Type(t)
            };
            let ghost before = xs@;
            xs.push(arg);
            assert(xs@.drop_last() == before);
        }
        j = j + 1;
    }
    xs
}

/// The annotations among the children of `p`.
pub fn parse_annotations(nodes: &Vec<SyntaxNode>, source: &str, p: usize) -> (xs: Vec<JavaAnnotation>)
    requires
        p < nodes@.len(),
    ensures
        annotations_upto(node_views(nodes@), source@, p as int, subtree_end(node_views(nodes@), p as int), xs@),
    decreases nodes@.len() - p, nodes@.len() - p,
{
    let ghost ns = node_views(nodes@);
    let end = subtree_end_of(nodes, p);
    let mut xs: Vec<JavaAnnotation> = Vec::new();
    let mut j = p + 1;
    while j < end
        invariant
            p < j <= end <= nodes@.len(),
            ns == node_views(nodes@),
            end as int == subtree_end(ns, p as int),
            annotations_upto(ns, source@, p as int, j as int, xs@),
        decreases end - j,
    {
        if is_child_of(nodes, p, end, j) && sel_matches_node(&nodes[j], &ChildSel::Annotation) {
            let a = parse_annotation(nodes, source, j);
            let ghost before = xs@;
            xs.push(a);
            assert(xs@.drop_last() == before);
        }
        j = j + 1;
    }
    xs
}

/// The annotation that node `i` spells.
pub fn parse_annotation(nodes: &Vec<SyntaxNode>, source: &str, i: usize) -> (a: JavaAnnotation)
    requires
        i < nodes@.len(),
    ensures
        annotation_is(node_views(nodes@), source@, i as int, a),
    decreases nodes@.len() - i, nodes@.len() - i + 1,
{
    let end = subtree_end_of(nodes, i);
    let name = match first_child_of(nodes, i, end, ChildSel::Field("name")) {
        Some(n) => node_text(nodes, source, n),
        None => node_text(nodes, source, i),
    };
    let arguments = match first_child_of(nodes, i, end, ChildSel::Field("arguments")) {
        Some(g) => parse_annotation_args(nodes, source, g),
        None => Vec::new(),
    };
    JavaAnnotation { name, arguments }
}

/// The annotation arguments that the named children of `p` spell.
fn parse_annotation_args(nodes: &Vec<SyntaxNode>, source: &str, p: usize) -> (xs: Vec<JavaAnnotationArgument>)
    requires
        p < nodes@.len(),
    ensures
        annotation_args_upto(node_views(nodes@), source@, p as int, subtree_end(node_views(nodes@), p as int), xs@),
    decreases nodes@.len() - p, nodes@.len() - p,
{
    let ghost ns = node_views(nodes@);
    let end = subtree_end_of(nodes, p);
    let mut xs: Vec<JavaAnnotationArgument> = Vec::new();
    let mut j = p + 1;
    while j < end
        invariant
            p < j <= end <= nodes@.len(),
            ns == node_views(nodes@),
            end as int == subtree_end(ns, p as int),
            annotation_args_upto(ns, source@, p as int, j as int, xs@),
        decreases end - j,
    {
        if is_child_of(nodes, p, end, j) && nodes[j].named {
            if kind_is(nodes, j, "element_value_pair") {
                let pair_end = subtree_end_of(nodes, j);
                if let Some(v) = first_child_of(nodes, j, pair_end, ChildSel::Field("value")) {
                    let name = match first_child_of(nodes, j, pair_end, ChildSel::Field("key")) {
                        Some(key) => node_text(nodes, source, key),
                        None => String::new(),
                    };
                    let value = parse_annotation_value(nodes, source, v);
                    let ghost before = xs@;
                    xs.push(JavaAnnotationArgument::Named { name, value });
                    assert(xs@.drop_last() == before);
                }
            } else {
                let value = parse_annotation_value(nodes, source, j);
                let ghost before = xs@;
                xs.push(JavaAnnotationArgument::Default(value));
                assert(xs@.drop_last() == before);
            }
        }
        j = j + 1;
    }
    xs
}

/// The annotation values that the named children of `p` spell.
fn parse_annotation_values(nodes: &Vec<SyntaxNode>, source: &str, p: usize) -> (xs: Vec<JavaAnnotationValue>)
    requires
        p < nodes@.len(),
    ensures
        values_upto(node_views(nodes@), source@, p as int, subtree_end(node_views(nodes@), p as int), xs@),
    decreases nodes@.len() - p, nodes@.len() - p,
{
    let ghost ns = node_views(nodes@);
    let end = subtree_end_of(nodes, p);
    let mut xs: Vec<JavaAnnotationValue> = Vec::new();
    let mut j = p + 1;
    while j < end
        invariant
            p < j <= end <= nodes@.len(),
            ns == node_views(nodes@),
            end as int == subtree_end(ns, p as int),
            values_upto(ns, source@, p as int, j as int, xs@),
        decreases end - j,
    {
        if is_child_of(nodes, p, end, j) && nodes[j].named {
            let v = parse_annotation_value(nodes, source, j);
            let ghost before = xs@;
            xs.push(v);
            assert(xs@.drop_last() == before);
        }
        j = j + 1;
    }
    xs
}

/// The annotation value that node `i` spells.
pub fn parse_annotation_value(nodes: &Vec<SyntaxNode>, source: &str, i: usize) -> (v: JavaAnnotationValue)
    requires
        i < nodes@.len(),
    ensures
        value_is(node_views(nodes@), source@, i as int, v),
    decreases nodes@.len() - i, nodes@.len() - i + 2,
{
    let end = subtree_end_of(nodes, i);
    let tx = node_text(nodes, source, i);
    if kind_is(nodes, i, "string_literal") {
        JavaAnnotationValue::String(tx)
    } else if kind_is(nodes, i, "character_literal") {
        JavaAnnotationValue::Char(tx)
    } else if kind_is(nodes, i, "decimal_integer_literal") || kind_is(nodes, i, "hex_integer_literal")
        || kind_is(nodes, i, "octal_integer_literal") || kind_is(nodes, i, "binary_integer_literal")
        || kind_is(nodes, i, "decimal_floating_point_literal") || kind_is(nodes, i, "hex_floating_point_literal") {
        JavaAnnotationValue::Number(tx)
    } else if kind_is(nodes, i, "true") {
        JavaAnnotationValue::Boolean(true)
    } else if kind_is(nodes, i, "false") {
        JavaAnnotationValue::Boolean(false)
    } else if kind_is(nodes, i, "null_literal") {
        JavaAnnotationValue::Null
    } else if kind_is(nodes, i, "annotation") || kind_is(nodes, i, "marker_annotation") {
        JavaAnnotationValue::Annotation(parse_annotation(nodes, source, i))
    } else if kind_is(nodes, i, "element_value_array_initializer") {
        JavaAnnotationValue::Array(parse_annotation_values(nodes, source, i))
    } else if kind_is(nodes, i, "class_literal") {
        match first_child_of(nodes, i, end, ChildSel::Named) {
            Some(c) => JavaAnnotationValue::ClassLiteral(parse_type_ref(nodes, source, c)),
            None => JavaAnnotationValue::Unsupported { kind: copy_string(&nodes[i].kind), text: tx },
        }
    } else if kind_is(nodes, i, "identifier") || kind_is(nodes, i, "scoped_identifier") || kind_is(nodes, i, "field_access") {
        JavaAnnotationValue::Reference(tx)
    } else if kind_is(nodes, i, "unary_expression") || kind_is(nodes, i, "binary_expression")
        || kind_is(nodes, i, "parenthesized_expression") {
        JavaAnnotationValue::Expression(tx)
    } else {
        match sole_named_child_of(nodes, i, end) {
            Some(c) => parse_annotation_value(nodes, source, c),
            None => JavaAnnotationValue::Unsupported { kind: copy_string(&nodes[i].kind), text: tx },
        }
    }
}

// ---------------------------------------------------------------------------
// Declaration parts: modifiers, dimensions, parameters, type parameters and
// lists of types.
// ---------------------------------------------------------------------------

/// `xs` are the texts of the children of `m` before `j` that are not
/// annotations (the modifier keywords of a `modifiers` node).
pub open spec fn keywords_upto(ns: Seq<SyntaxNodeView>, src: Seq<char>, m: int, j: int, xs: Seq<String>) -> bool
    decreases j - m,
{
    if 0 <= m && m + 1 < j <= ns.len() {
        let c = j - 1;
        if is_child(ns, m, c) && !is_annotation_kind(ns[c].kind) {
            xs.len() > 0 && xs.last()@ == text(ns, src, c) && keywords_upto(ns, src, m, c, xs.drop_last())
        } else {
            keywords_upto(ns, src, m, c, xs)
        }
    } else {
        xs.len() == 0
    }
}

/// `anns` and `mods` are the annotations and the modifier keywords of the
/// `modifiers` node `mo` (both empty without one).
pub open spec fn metadata_is(
    ns: Seq<SyntaxNodeView>,
    src: Seq<char>,
    mo: Option<int>,
    anns: Seq<JavaAnnotation>,
    mods: Seq<String>,
) -> bool {
    match mo {
        Some(m) => 0 <= m < ns.len() && annotations_upto(ns, src, m, subtree_end(ns, m), anns)
            && keywords_upto(ns, src, m, subtree_end(ns, m), mods),
        None => anns.len() == 0 && mods.len() == 0,
    }
}

/// Whether node `tn` spells an array type (and so reads as one).
pub open spec fn is_array_node(ns: Seq<SyntaxNodeView>, src: Seq<char>, tn: int) -> bool {
    ns[tn].kind == "array_type"@ && primitive_of(text(ns, src, tn)) is None
}

/// `t` is the type that node `tn` spells with the extra dimensions of the
/// `dimensions` node `dn` (as in `String names[]`): an array type gains
/// them, any other type becomes their element type.
pub open spec fn dims_type_is(ns: Seq<SyntaxNodeView>, src: Seq<char>, tn: int, dn: Option<int>, t: JavaTypeRef) -> bool {
    match dn {
        None => type_ref_is(ns, src, tn, t),
        Some(d) => {
            let extra = dims_of(text(ns, src, d));
            if is_array_node(ns, src, tn) {
                exists|base: JavaTypeRef| #[trigger] type_ref_is(ns, src, tn, base) && (base matches JavaTypeRef::Array {
                    element,
                    dimensions,
                } && t == (JavaTypeRef::Array {
                    element,
                    dimensions: if dimensions + extra > usize::MAX { usize::MAX } else { (dimensions + extra) as usize },
                }))
            } else {
                t matches JavaTypeRef::Array { element, dimensions } && (type_ref_is(ns, src, tn, *element)
                    && dimensions as nat == extra)
            }
        },
    }
}

/// `t` with `extra` more dimensions: an array gains them, any other type
/// becomes their element type.
fn add_dimensions(t: JavaTypeRef, extra: usize) -> (r: JavaTypeRef)
    ensures
        t is Array ==> r == (JavaTypeRef::Array {
            element: t->element,
            dimensions: t->dimensions.saturating_add(extra),
        }),
        !(t is Array) ==> r == (JavaTypeRef::Array { element: Box::new(t), dimensions: extra }),
{
    match t {
        JavaTypeRef::Array { element, dimensions } => JavaTypeRef::Array {
            element,
            dimensions: dimensions.saturating_add(extra),
        },
        other => JavaTypeRef::Array { element: Box::new(other), dimensions: extra },
    }
}

/// The type that node `tn` spells, with the extra dimensions of the
/// optional `dimensions` node `dn`.
pub fn parse_dims_type(nodes: &Vec<SyntaxNode>, source: &str, tn: usize, dn: Option<usize>) -> (t: JavaTypeRef)
    requires
        tn < nodes@.len(),
        dn matches Some(d) ==> d < nodes@.len(),
    ensures
        dims_type_is(node_views(nodes@), source@, tn as int, opt_pos(dn), t),
{
    let ghost ns = node_views(nodes@);
    let base = parse_type_ref(nodes, source, tn);
    match dn {
        None => base,
        Some(d) => {
            let extra = count_dimensions(&node_text(nodes, source, d));
            let ghost b = base;
            let r = add_dimensions(base, extra);
            proof {
                if is_array_node(ns, source@, tn as int) {
                    reveal_strlit("array_type");
                    reveal_strlit("void_type");
                    reveal_strlit("integral_type");
                    reveal_strlit("floating_point_type");
                    reveal_strlit("boolean_type");
                    reveal_strlit("type_identifier");
                    reveal_strlit("scoped_type_identifier");
                    reveal_strlit("identifier");
                    reveal_strlit("scoped_identifier");
                    reveal_strlit("generic_type");
                    assert("array_type"@[0] != "identifier"@[0]);
                    assert("array_type"@[0] != "generic_type"@[0]);
                    assert(b is Array);
                    assert(type_ref_is(ns, source@, tn as int, b));
                } else {
                    assert(!(b is Array));
                }
            }
            r
        },
    }
}

/// `xs` are the types that the named children of `p` before `j` spell.
pub open spec fn named_types_upto(ns: Seq<SyntaxNodeView>, src: Seq<char>, p: int, j: int, xs: Seq<JavaTypeRef>) -> bool
    decreases j - p,
{
    if 0 <= p && p + 1 < j <= ns.len() {
        let c = j - 1;
        if selected(ns, p, ChildSel::Named, c) {
            xs.len() > 0 && type_ref_is(ns, src, c, xs.last()) && named_types_upto(ns, src, p, c, xs.drop_last())
        } else {
            named_types_upto(ns, src, p, c, xs)
        }
    } else {
        xs.len() == 0
    }
}

/// `xs` are the types listed by the optional node `o` (a `throws` clause or
/// a type bound): its named children (none without one).
pub open spec fn type_list_is(ns: Seq<SyntaxNodeView>, src: Seq<char>, o: Option<int>, xs: Seq<JavaTypeRef>) -> bool {
    match o {
        Some(p) => 0 <= p < ns.len() && named_types_upto(ns, src, p, subtree_end(ns, p), xs),
        None => xs.len() == 0,
    }
}

/// `xs` are the supertypes that the optional `superclass`,
/// `super_interfaces` or `extends_interfaces` node `o` names: the named
/// children of its `type_list` child, or its own named children without one.
pub open spec fn supertypes_is(ns: Seq<SyntaxNodeView>, src: Seq<char>, o: Option<int>, xs: Seq<JavaTypeRef>) -> bool {
    match o {
        Some(s) => 0 <= s < ns.len() && match first_child(ns, s, ChildSel::Kind("type_list")) {
            Some(l) => type_list_is(ns, src, Some(l), xs),
            None => type_list_is(ns, src, Some(s), xs),
        },
        None => xs.len() == 0,
    }
}

/// The modifier keywords among the children of `m`.
fn parse_keywords(nodes: &Vec<SyntaxNode>, source: &str, m: usize) -> (xs: Vec<String>)
    requires
        m < nodes@.len(),
    ensures
        keywords_upto(node_views(nodes@), source@, m as int, subtree_end(node_views(nodes@), m as int), xs@),
{
    let ghost ns = node_views(nodes@);
    let end = subtree_end_of(nodes, m);
    let mut xs: Vec<String> = Vec::new();
    let mut j = m + 1;
    while j < end
        invariant
            m < j <= end <= nodes@.len(),
            ns == node_views(nodes@),
            end as int == subtree_end(ns, m as int),
            keywords_upto(ns, source@, m as int, j as int, xs@),
        decreases end - j,
    {
        if is_child_of(nodes, m, end, j) && !sel_matches_node(&nodes[j], &ChildSel::Annotation) {
            let ghost before = xs@;
            xs.push(node_text(nodes, source, j));
            assert(xs@.drop_last() == before);
        }
        j = j + 1;
    }
    xs
}

/// The annotations and modifier keywords of the optional `modifiers` node
/// `mo`.
pub fn parse_metadata(nodes: &Vec<SyntaxNode>, source: &str, mo: Option<usize>) -> (r: (Vec<JavaAnnotation>, Vec<String>))
    requires
        mo matches Some(m) ==> m < nodes@.len(),
    ensures
        metadata_is(node_views(nodes@), source@, opt_pos(mo), r.0@, r.1@),
{
    match mo {
        Some(m) => (parse_annotations(nodes, source, m), parse_keywords(nodes, source, m)),
        None => (Vec::new(), Vec::new()),
    }
}

/// The types that the named children of `p` spell.
fn parse_named_types(nodes: &Vec<SyntaxNode>, source: &str, p: usize) -> (xs: Vec<JavaTypeRef>)
    requires
        p < nodes@.len(),
    ensures
        named_types_upto(node_views(nodes@), source@, p as int, subtree_end(node_views(nodes@), p as int), xs@),
{
    let ghost ns = node_views(nodes@);
    let end = subtree_end_of(nodes, p);
    let mut xs: Vec<JavaTypeRef> = Vec::new();
    let mut j = p + 1;
    while j < end
        invariant
            p < j <= end <= nodes@.len(),
            ns == node_views(nodes@),
            end as int == subtree_end(ns, p as int),
            named_types_upto(ns, source@, p as int, j as int, xs@),
        decreases end - j,
    {
        if is_child_of(nodes, p, end, j) && nodes[j].named {
            let t = parse_type_ref(nodes, source, j);
            let ghost before = xs@;
            xs.push(t);
            assert(xs@.drop_last() == before);
        }
        j = j + 1;
    }
    xs
}

/// The types listed by the optional node `o`.
pub fn parse_type_list(nodes: &Vec<SyntaxNode>, source: &str, o: Option<usize>) -> (xs: Vec<JavaTypeRef>)
    requires
        o matches Some(p) ==> p < nodes@.len(),
    ensures
        type_list_is(node_views(nodes@), source@, opt_pos(o), xs@),
{
    match o {
        Some(p) => parse_named_types(nodes, source, p),
        None => Vec::new(),
    }
}

/// The supertypes that the optional node `o` names.
pub fn parse_supertypes(nodes: &Vec<SyntaxNode>, source: &str, o: Option<usize>) -> (xs: Vec<JavaTypeRef>)
    requires
        o matches Some(p) ==> p < nodes@.len(),
    ensures
        supertypes_is(node_views(nodes@), source@, opt_pos(o), xs@),
{
    match o {
        Some(s) => {
            let end = subtree_end_of(nodes, s);
            match first_child_of(nodes, s, end, ChildSel::Kind("type_list")) {
                Some(l) => parse_named_types(nodes, source, l),
                None => parse_named_types(nodes, source, s),
            }
        },
        None => Vec::new(),
    }
}

// ---------------------------------------------------------------------------
// Parameters and type parameters.
// ---------------------------------------------------------------------------

/// `anns` are the annotations of the optional `modifiers` node `mo`.
pub open spec fn modifier_annotations_is(ns: Seq<SyntaxNodeView>, src: Seq<char>, mo: Option<int>, anns: Seq<JavaAnnotation>) -> bool {
    match mo {
        Some(m) => 0 <= m < ns.len() && annotations_upto(ns, src, m, subtree_end(ns, m), anns),
        None => anns.len() == 0,
    }
}

/// The name a varargs parameter `c` declares: the `name` field of its last
/// variable declarator.
pub open spec fn spread_name(ns: Seq<SyntaxNodeView>, src: Seq<char>, c: int) -> Option<Seq<char>> {
    match last_child(ns, c, ChildSel::Kind("variable_declarator")) {
        Some(d) => match first_child(ns, d, ChildSel::Field("name")) {
            Some(n) => Some(text(ns, src, n)),
            None => None,
        },
        None => None,
    }
}

/// `a` is the parameter that the `formal_parameter` node `c` declares, with
/// type node `tn` and name node `nn`.
pub open spec fn formal_arg_is(ns: Seq<SyntaxNodeView>, src: Seq<char>, c: int, tn: int, nn: int, a: JavaArgument) -> bool {
    &&& modifier_annotations_is(ns, src, first_child(ns, c, ChildSel::Kind("modifiers")), a.annotations@)
    &&& dims_type_is(ns, src, tn, first_child(ns, c, ChildSel::Field("dimensions")), a.ty)
    &&& a.name@ == text(ns, src, nn)
    &&& !a.varargs
}

/// `a` is the varargs parameter that the `spread_parameter` node `c`
/// declares, with type node `tn`: the annotations of its modifiers, then its
/// own annotations.
pub open spec fn spread_arg_is(ns: Seq<SyntaxNodeView>, src: Seq<char>, c: int, tn: int, a: JavaArgument) -> bool {
    let anns = a.annotations@;
    let own = count_children_upto(ns, c, ChildSel::Annotation, subtree_end(ns, c));
    &&& own <= anns.len()
    &&& modifier_annotations_is(ns, src, first_child(ns, c, ChildSel::Kind("modifiers")), anns.take(anns.len() - own))
    &&& annotations_upto(ns, src, c, subtree_end(ns, c), anns.skip(anns.len() - own))
    &&& type_ref_is(ns, src, tn, a.ty)
    &&& Some(a.name@) == spread_name(ns, src, c)
    &&& a.varargs
}

/// `xs` are the parameters that the children of `p` before `j` declare:
/// formal parameters with a type and a name, and varargs parameters with a
/// type and a name.
pub open spec fn args_upto(ns: Seq<SyntaxNodeView>, src: Seq<char>, p: int, j: int, xs: Seq<JavaArgument>) -> bool
    decreases j - p,
{
    if 0 <= p && p + 1 < j <= ns.len() {
        let c = j - 1;
        if is_child(ns, p, c) && ns[c].kind == "formal_parameter"@ {
            match (first_child(ns, c, ChildSel::Field("type")), first_child(ns, c, ChildSel::Field("name"))) {
                (Some(tn), Some(nn)) => xs.len() > 0 && formal_arg_is(ns, src, c, tn, nn, xs.last())
                    && args_upto(ns, src, p, c, xs.drop_last()),
                _ => args_upto(ns, src, p, c, xs),
            }
        } else if is_child(ns, p, c) && ns[c].kind == "spread_parameter"@ {
            match (first_child(ns, c, ChildSel::SpreadType), spread_name(ns, src, c)) {
                (Some(tn), Some(_)) => xs.len() > 0 && spread_arg_is(ns, src, c, tn, xs.last())
                    && args_upto(ns, src, p, c, xs.drop_last()),
                _ => args_upto(ns, src, p, c, xs),
            }
        } else {
            args_upto(ns, src, p, c, xs)
        }
    } else {
        xs.len() == 0
    }
}

/// `xs` are the parameters that the optional `formal_parameters` node `o`
/// declares.
pub open spec fn args_is(ns: Seq<SyntaxNodeView>, src: Seq<char>, o: Option<int>, xs: Seq<JavaArgument>) -> bool {
    match o {
        Some(p) => 0 <= p < ns.len() && args_upto(ns, src, p, subtree_end(ns, p), xs),
        None => xs.len() == 0,
    }
}

/// `x` is the type parameter that the `type_parameter` node `c` declares:
/// its annotations, its type identifier and the types of its bound.
pub open spec fn type_param_is(ns: Seq<SyntaxNodeView>, src: Seq<char>, c: int, x: JavaTypeParameter) -> bool {
    &&& annotations_upto(ns, src, c, subtree_end(ns, c), x.annotations@)
    &&& x.name@ == match first_child(ns, c, ChildSel::Kind("type_identifier")) {
        Some(n) => text(ns, src, n),
        None => text(ns, src, c),
    }
    &&& type_list_is(ns, src, first_child(ns, c, ChildSel::Kind("type_bound")), x.bounds@)
}

/// `xs` are the type parameters among the children of `p` before `j`.
pub open spec fn type_params_upto(ns: Seq<SyntaxNodeView>, src: Seq<char>, p: int, j: int, xs: Seq<JavaTypeParameter>) -> bool
    decreases j - p,
{
    if 0 <= p && p + 1 < j <= ns.len() {
        let c = j - 1;
        if selected(ns, p, ChildSel::Kind("type_parameter"), c) {
            xs.len() > 0 && type_param_is(ns, src, c, xs.last()) && type_params_upto(ns, src, p, c, xs.drop_last())
        } else {
            type_params_upto(ns, src, p, c, xs)
        }
    } else {
        xs.len() == 0
    }
}

/// `xs` are the type parameters of the optional `type_parameters` node `o`.
pub open spec fn type_params_is(ns: Seq<SyntaxNodeView>, src: Seq<char>, o: Option<int>, xs: Seq<JavaTypeParameter>) -> bool {
    match o {
        Some(p) => 0 <= p < ns.len() && type_params_upto(ns, src, p, subtree_end(ns, p), xs),
        None => xs.len() == 0,
    }
}

/// A list of annotations read from the children of `p` has one entry per
/// annotation child.
pub proof fn lemma_annotations_count(ns: Seq<SyntaxNodeView>, src: Seq<char>, p: int, j: int, xs: Seq<JavaAnnotation>)
    requires
        0 <= p < j <= ns.len(),
        annotations_upto(ns, src, p, j, xs),
    ensures
        xs.len() == count_children_upto(ns, p, ChildSel::Annotation, j),
    decreases j - p,
{
    if p + 1 < j {
        let c = j - 1;
        if selected(ns, p, ChildSel::Annotation, c) {
            lemma_annotations_count(ns, src, p, c, xs.drop_last());
        } else {
            lemma_annotations_count(ns, src, p, c, xs);
        }
    }
}

/// The annotations of the optional `modifiers` node `mo`.
fn parse_modifier_annotations(nodes: &Vec<SyntaxNode>, source: &str, mo: Option<usize>) -> (xs: Vec<JavaAnnotation>)
    requires
        mo matches Some(m) ==> m < nodes@.len(),
    ensures
        modifier_annotations_is(node_views(nodes@), source@, opt_pos(mo), xs@),
{
    match mo {
        Some(m) => parse_annotations(nodes, source, m),
        None => Vec::new(),
    }
}

/// The name a varargs parameter `c` declares.
fn parse_spread_name(nodes: &Vec<SyntaxNode>, source: &str, c: usize, end: usize) -> (r: Option<String>)
    requires
        c < nodes@.len(),
        end as int == subtree_end(node_views(nodes@), c as int),
    ensures
        match r {
            Some(s) => spread_name(node_views(nodes@), source@, c as int) == Some(s@),
            None => spread_name(node_views(nodes@), source@, c as int) is None,
        },
{
    match last_child_of(nodes, c, end, ChildSel::Kind("variable_declarator")) {
        Some(d) => {
            let d_end = subtree_end_of(nodes, d);
            match first_child_of(nodes, d, d_end, ChildSel::Field("name")) {
                Some(n) => Some(node_text(nodes, source, n)),
                None => None,
            }
        },
        None => None,
    }
}

/// The parameters that the children of `p` declare.
fn parse_args_of(nodes: &Vec<SyntaxNode>, source: &str, p: usize) -> (xs: Vec<JavaArgument>)
    requires
        p < nodes@.len(),
    ensures
        args_upto(node_views(nodes@), source@, p as int, subtree_end(node_views(nodes@), p as int), xs@),
{
    let ghost ns = node_views(nodes@);
    let end = subtree_end_of(nodes, p);
    let mut xs: Vec<JavaArgument> = Vec::new();
    let mut j = p + 1;
    while j < end
        invariant
            p < j <= end <= nodes@.len(),
            ns == node_views(nodes@),
            end as int == subtree_end(ns, p as int),
            args_upto(ns, source@, p as int, j as int, xs@),
        decreases end - j,
    {
        if is_child_of(nodes, p, end, j) && kind_is(nodes, j, "formal_parameter") {
            let c_end = subtree_end_of(nodes, j);
            let tn = first_child_of(nodes, j, c_end, ChildSel::Field("type"));
            let nn = first_child_of(nodes, j, c_end, ChildSel::Field("name"));
            if let (Some(tn), Some(nn)) = (tn, nn) {
                let annotations = parse_modifier_annotations(nodes, source, first_child_of(nodes, j, c_end, ChildSel::Kind("modifiers")));
                let ty = parse_dims_type(nodes, source, tn, first_child_of(nodes, j, c_end, ChildSel::Field("dimensions")));
                let name = node_text(nodes, source, nn);
                let ghost before = xs@;
                xs.push(JavaArgument { annotations, ty, name, varargs: false });
                assert(xs@.drop_last() == before);
            }
        } else if is_child_of(nodes, p, end, j) && kind_is(nodes, j, "spread_parameter") {
            let c_end = subtree_end_of(nodes, j);
            let tn = first_child_of(nodes, j, c_end, ChildSel::SpreadType);
            let name = parse_spread_name(nodes, source, j, c_end);
            if let (Some(tn), Some(name)) = (tn, name) {
                let mut annotations = parse_modifier_annotations(nodes, source, first_child_of(nodes, j, c_end, ChildSel::Kind("modifiers")));
                let mut own = parse_annotations(nodes, source, j);
                let ghost mods = annotations@;
                let ghost own_v = own@;
                proof {
                    lemma_subtree_end_bounds(ns, j as int);
                    lemma_annotations_count(ns, source@, j as int, c_end as int, own_v);
                }
                annotations.append(&mut own);
                assert(annotations@.take(annotations@.len() - own_v.len()) == mods);
                assert(annotations@.skip(annotations@.len() - own_v.len()) == own_v);
                let ty = parse_type_ref(nodes, source, tn);
                let ghost before = xs@;
                xs.push(JavaArgument { annotations, ty, name, varargs: true });
                assert(xs@.drop_last() == before);
            }
        }
        j = j + 1;
    }
    xs
}

/// The parameters that the optional `formal_parameters` node `o` declares.
pub fn parse_args(nodes: &Vec<SyntaxNode>, source: &str, o: Option<usize>) -> (xs: Vec<JavaArgument>)
    requires
        o matches Some(p) ==> p < nodes@.len(),
    ensures
        args_is(node_views(nodes@), source@, opt_pos(o), xs@),
{
    match o {
        Some(p) => parse_args_of(nodes, source, p),
        None => Vec::new(),
    }
}

/// The type parameters among the children of `p`.
fn parse_type_params_of(nodes: &Vec<SyntaxNode>, source: &str, p: usize) -> (xs: Vec<JavaTypeParameter>)
    requires
        p < nodes@.len(),
    ensures
        type_params_upto(node_views(nodes@), source@, p as int, subtree_end(node_views(nodes@), p as int), xs@),
{
    let ghost ns = node_views(nodes@);
    let end = subtree_end_of(nodes, p);
    let mut xs: Vec<JavaTypeParameter> = Vec::new();
    let mut j = p + 1;
    while j < end
        invariant
            p < j <= end <= nodes@.len(),
            ns == node_views(nodes@),
            end as int == subtree_end(ns, p as int),
            type_params_upto(ns, source@, p as int, j as int, xs@),
        decreases end - j,
    {
        if is_child_of(nodes, p, end, j) && kind_is(nodes, j, "type_parameter") {
            let c_end = subtree_end_of(nodes, j);
            let annotations = parse_annotations(nodes, source, j);
            let name = match first_child_of(nodes, j, c_end, ChildSel::Kind("type_identifier")) {
                Some(n) => node_text(nodes, source, n),
                None => node_text(nodes, source, j),
            };
            let bounds = parse_type_list(nodes, source, first_child_of(nodes, j, c_end, ChildSel::Kind("type_bound")));
            let ghost before = xs@;
            xs.push(JavaTypeParameter { annotations, name, bounds });
            assert(xs@.drop_last() == before);
        }
        j = j + 1;
    }
    xs
}

/// The type parameters of the optional `type_parameters` node `o`.
pub fn parse_type_params(nodes: &Vec<SyntaxNode>, source: &str, o: Option<usize>) -> (xs: Vec<JavaTypeParameter>)
    requires
        o matches Some(p) ==> p < nodes@.len(),
    ensures
        type_params_is(node_views(nodes@), source@, opt_pos(o), xs@),
{
    match o {
        Some(p) => parse_type_params_of(nodes, source, p),
        None => Vec::new(),
    }
}

} // verus!
