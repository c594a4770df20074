//! The Java syntax tree that tree-sitter builds, flattened into its nodes in
//! preorder, and the navigation that extraction uses on that list.
//!
//! Node `i`'s subtree is `i` and the nodes after it that are deeper than it;
//! its children are the nodes of its subtree exactly one level deeper.

use vstd::prelude::*;
use vstd::utf8::*;
use vstd::string::StringSliceAdditionalSpecFns;

use tree_sitter::{Parser, Tree};

use crate::text::str_eq;

verus! {

broadcast use {vstd::utf8::encode_utf8_decode_utf8, vstd::utf8::encode_utf8_valid_utf8};

#[verifier::external_type_specification]
#[verifier::external_body]
pub struct ExTree(Tree);

/// One syntax node: its grammar kind, whether it is named, the field under
/// which it hangs from its parent, its depth below the root and the byte
/// range of source it covers.
#[derive(Debug)]
pub struct SyntaxNode {
    pub kind: String,
    pub named: bool,
    pub field: Option<String>,
    pub depth: usize,
    pub start: usize,
    pub end: usize,
}

/// A syntax node as plain values.
pub struct SyntaxNodeView {
    pub kind: Seq<char>,
    pub named: bool,
    pub field: Option<Seq<char>>,
    pub depth: nat,
    pub start: nat,
    pub end: nat,
}

impl View for SyntaxNode {
    type V = SyntaxNodeView;

    open spec fn view(&self) -> SyntaxNodeView {
        SyntaxNodeView {
            kind: self.kind@,
            named: self.named,
            field: match self.field {
                Some(f) => Some(f@),
                None => None,
            },
            depth: self.depth as nat,
            start: self.start as nat,
            end: self.end as nat,
        }
    }
}

/// The views of a list of nodes.
pub open spec fn node_views(v: Seq<SyntaxNode>) -> Seq<SyntaxNodeView> {
    v.map_values(|n: SyntaxNode| n@)
}

/// The nodes, in preorder, of the tree that tree-sitter-java builds for
/// `source` (the root first, at depth 0).
pub uninterp spec fn java_syntax(source: Seq<char>) -> Seq<SyntaxNodeView>;

/// The nodes a syntax tree holds, in preorder.
pub uninterp spec fn tree_nodes(tree: Tree) -> Seq<SyntaxNodeView>;

/// Parses `source` with tree-sitter-java: `Parser::new`, then
/// `Parser::set_language` with `tree_sitter_java::LANGUAGE` (whose error is
/// reported as text), then `Parser::parse` without an old tree. It returns
/// the tree whose nodes `java_syntax` names for `source`. `set_language`
/// fails only for a grammar outside the ABI versions the runtime accepts,
/// which tree-sitter-java's grammar is not, and `parse` returns no tree only
/// without a language or on a timeout or cancellation, none of which is set
/// here; so the call always yields a tree.
#[verifier::external_body]
fn parse_java_tree(source: &str) -> (r: Result<Option<Tree>, String>)
    ensures
        r matches Ok(Some(_)),
        r matches Ok(Some(t)) ==> tree_nodes(t) == java_syntax(source@),
{
    let mut parser = Parser::new();
    parser.set_language(&tree_sitter_java::LANGUAGE.into()).map_err(|e| e.to_string())?;
    Ok(parser.parse(source, None))
}

/// The number of nodes in the tree (`Node::descendant_count` of the root,
/// which counts the root itself).
#[verifier::external_body]
fn syntax_node_count(tree: &Tree) -> (n: usize)
    ensures
        n == tree_nodes(*tree).len(),
{
    tree.root_node().descendant_count()
}

/// The node at preorder position `index`: a `TreeCursor` from the root moved
/// there with `goto_descendant`, read with `node`, `field_name` and `depth`,
/// the node read with `kind`, `is_named`, `start_byte` and `end_byte`.
#[verifier::external_body]
fn syntax_node_at(tree: &Tree, index: usize) -> (n: SyntaxNode)
    requires
        index < tree_nodes(*tree).len(),
    ensures
        n@ == tree_nodes(*tree)[index as int],
{
    let mut cursor = tree.walk();
    cursor.goto_descendant(index);
    let node = cursor.node();
    SyntaxNode {
        kind: node.kind().to_string(),
        named: node.is_named(),
        field: cursor.field_name().map(|f| f.to_string()),
        depth: cursor.depth() as usize,
        start: node.start_byte(),
        end: node.end_byte(),
    }
}

/// All nodes of a tree, in preorder.
pub fn syntax_nodes(tree: &Tree) -> (v: Vec<SyntaxNode>)
    ensures
        node_views(v@) == tree_nodes(*tree),
{
    let n = syntax_node_count(tree);
    let mut v: Vec<SyntaxNode> = Vec::new();
    for i in 0..n
        invariant
            n == tree_nodes(*tree).len(),
            node_views(v@) == tree_nodes(*tree).take(i as int),
    {
        let node = syntax_node_at(tree, i);
        let ghost before = v@;
        v.push(node);
        assert(node_views(v@) =~= node_views(before).push(node@));
        assert(node_views(v@) =~= tree_nodes(*tree).take(i + 1));
    }
    assert(tree_nodes(*tree).take(n as int) == tree_nodes(*tree));
    v
}

/// Why the Java syntax tree could not be had.
pub enum SyntaxError {
    /// The grammar could not be loaded into the parser.
    Language(String),
    /// The parser returned no tree.
    NoTree,
}

/// The preorder nodes of `source`'s Java syntax tree.
pub fn java_syntax_nodes(source: &str) -> (r: Result<Vec<SyntaxNode>, SyntaxError>)
    ensures
        r matches Ok(v) && node_views(v@) == java_syntax(source@),
{
    match parse_java_tree(source) {
        Err(e) => Err(SyntaxError::Language(e)),
        Ok(None) => Err(SyntaxError::NoTree),
        Ok(Some(tree)) => Ok(syntax_nodes(&tree)),
    }
}

// ---------------------------------------------------------------------------
// Source text of a node.
// ---------------------------------------------------------------------------

/// The characters of `src` between two byte offsets of its UTF-8 encoding,
/// when both offsets fall on character boundaries (empty otherwise).
pub open spec fn span(src: Seq<char>, start: nat, end: nat) -> Seq<char> {
    let bytes = encode_utf8(src);
    if start <= end && is_char_boundary(bytes, end as int)
        && is_char_boundary(bytes.subrange(0, end as int), start as int) {
        decode_utf8(bytes.subrange(start as int, end as int))
    } else {
        Seq::empty()
    }
}

/// The source text that node `i` covers.
pub open spec fn text(ns: Seq<SyntaxNodeView>, src: Seq<char>, i: int) -> Seq<char> {
    span(src, ns[i].start, ns[i].end)
}

/// The characters of `source` between byte offsets `start` and `end`.
pub fn span_text(source: &str, start: usize, end: usize) -> (r: String)
    ensures
        r@ == span(source@, start as nat, end as nat),
{
    let ghost bytes = encode_utf8(source@);
    if start <= end && source.is_char_boundary(end) {
        let (head, _) = source.split_at(end);
        assert(head.spec_bytes() == bytes.subrange(0, end as int));
        if head.is_char_boundary(start) {
            let (_, mid) = head.split_at(start);
            proof {
                assert(mid.spec_bytes() == bytes.subrange(start as int, end as int));
                assert(decode_utf8(encode_utf8(mid@)) == mid@);
            }
            mid.to_owned()
        } else {
            assert(span(source@, start as nat, end as nat) == Seq::<char>::empty());
            String::new()
        }
    } else {
        assert(span(source@, start as nat, end as nat) == Seq::<char>::empty());
        String::new()
    }
}

/// The source text of node `i`.
pub fn node_text(nodes: &Vec<SyntaxNode>, source: &str, i: usize) -> (r: String)
    requires
        i < nodes@.len(),
    ensures
        r@ == text(node_views(nodes@), source@, i as int),
{
    span_text(source, nodes[i].start, nodes[i].end)
}

// ---------------------------------------------------------------------------
// Subtrees and children.
// ---------------------------------------------------------------------------

/// The first position at or after `j` that holds no node deeper than `depth`.
pub open spec fn scan_end(ns: Seq<SyntaxNodeView>, depth: nat, j: int) -> int
    decreases ns.len() - j,
{
    if 0 <= j < ns.len() && ns[j].depth > depth {
        scan_end(ns, depth, j + 1)
    } else {
        j
    }
}

/// The position just past node `i`'s subtree.
pub open spec fn subtree_end(ns: Seq<SyntaxNodeView>, i: int) -> int {
    scan_end(ns, ns[i].depth, i + 1)
}

/// Whether node `c` is a child of node `p`.
pub open spec fn is_child(ns: Seq<SyntaxNodeView>, p: int, c: int) -> bool {
    0 <= p < c < subtree_end(ns, p) && ns[c].depth == ns[p].depth + 1
}

proof fn lemma_scan_end_bounds(ns: Seq<SyntaxNodeView>, depth: nat, j: int)
    requires
        0 <= j <= ns.len(),
    ensures
        j <= scan_end(ns, depth, j) <= ns.len(),
    decreases ns.len() - j,
{
    if 0 <= j < ns.len() && ns[j].depth > depth {
        lemma_scan_end_bounds(ns, depth, j + 1);
    }
}

/// A node's subtree ends after the node and no later than the list.
pub proof fn lemma_subtree_end_bounds(ns: Seq<SyntaxNodeView>, i: int)
    requires
        0 <= i < ns.len(),
    ensures
        i < subtree_end(ns, i) <= ns.len(),
{
    lemma_scan_end_bounds(ns, ns[i].depth, i + 1);
}

/// The position just past node `i`'s subtree.
pub fn subtree_end_of(nodes: &Vec<SyntaxNode>, i: usize) -> (e: usize)
    requires
        i < nodes@.len(),
    ensures
        e as int == subtree_end(node_views(nodes@), i as int),
        i < e <= nodes@.len(),
{
    let ghost ns = node_views(nodes@);
    let d = nodes[i].depth;
    let n = nodes.len();
    let mut j = i + 1;
    while j < n && nodes[j].depth > d
        invariant
            i < j <= nodes@.len(),
            n == nodes@.len(),
            ns == node_views(nodes@),
            d == ns[i as int].depth,
            scan_end(ns, d as nat, j as int) == subtree_end(ns, i as int),
        decreases nodes@.len() - j,
    {
        j = j + 1;
    }
    j
}

/// Whether node `c` is a child of node `p`, whose subtree ends at `end`.
pub fn is_child_of(nodes: &Vec<SyntaxNode>, p: usize, end: usize, c: usize) -> (r: bool)
    requires
        p < nodes@.len(),
        c < nodes@.len(),
        end as int == subtree_end(node_views(nodes@), p as int),
    ensures
        r == is_child(node_views(nodes@), p as int, c as int),
{
    p < c && c < end && nodes[c].depth > nodes[p].depth && nodes[c].depth - 1 == nodes[p].depth
}

/// Whether node `i` has the grammar kind `kind`.
pub fn kind_is(nodes: &Vec<SyntaxNode>, i: usize, kind: &str) -> (r: bool)
    requires
        i < nodes@.len(),
    ensures
        r == (node_views(nodes@)[i as int].kind == kind@),
{
    str_eq(nodes[i].kind.as_str(), kind)
}

/// Whether node `i` hangs from its parent under the field `field`.
pub fn field_name_is(nodes: &Vec<SyntaxNode>, i: usize, field: &str) -> (r: bool)
    requires
        i < nodes@.len(),
    ensures
        r == (node_views(nodes@)[i as int].field == Some(field@)),
{
    match &nodes[i].field {
        Some(f) => str_eq(f.as_str(), field),
        None => false,
    }
}

// ---------------------------------------------------------------------------
// Finding children.
// ---------------------------------------------------------------------------

/// Which children a search looks for.
pub enum ChildSel {
    /// Children under the given field name.
    Field(&'static str),
    /// Children of the given grammar kind.
    Kind(&'static str),
    /// Named children.
    Named,
    /// Identifiers and type identifiers, plain or scoped.
    RefBase,
    /// Named children that are not annotations.
    NamedNonAnnotation,
    /// Children that are neither modifiers, annotations, the `...` token nor
    /// a variable declarator.
    SpreadType,
    /// Plain or scoped identifiers.
    NameLike,
    /// Annotation uses, with or without arguments.
    Annotation,
    /// What an import names: a scoped identifier or the `*` of an
    /// on-demand import.
    ImportItem,
}

/// Whether a kind is that of an annotation use.
pub open spec fn is_annotation_kind(k: Seq<char>) -> bool {
    k == "annotation"@ || k == "marker_annotation"@
}

/// Whether a node is one that the selector looks for.
pub open spec fn sel_matches(n: SyntaxNodeView, sel: ChildSel) -> bool {
    match sel {
        ChildSel::Field(f) => n.field == Some(f@),
        ChildSel::Kind(k) => n.kind == k@,
        ChildSel::Named => n.named,
        ChildSel::RefBase => n.kind == "type_identifier"@ || n.kind == "scoped_type_identifier"@
            || n.kind == "identifier"@ || n.kind == "scoped_identifier"@,
        ChildSel::NamedNonAnnotation => n.named && !is_annotation_kind(n.kind),
        ChildSel::SpreadType => !(n.kind == "modifiers"@ || is_annotation_kind(n.kind) || n.kind == "..."@
            || n.kind == "variable_declarator"@),
        ChildSel::NameLike => n.kind == "scoped_identifier"@ || n.kind == "identifier"@,
        ChildSel::Annotation => is_annotation_kind(n.kind),
        ChildSel::ImportItem => n.kind == "scoped_identifier"@ || n.kind == "asterisk"@,
    }
}

/// Whether node `c` is a child of `p` that the selector looks for.
pub open spec fn selected(ns: Seq<SyntaxNodeView>, p: int, sel: ChildSel, c: int) -> bool {
    is_child(ns, p, c) && sel_matches(ns[c], sel)
}

/// The first selected child of `p` at or after position `j`.
pub open spec fn first_child_from(ns: Seq<SyntaxNodeView>, p: int, sel: ChildSel, j: int) -> Option<int>
    decreases ns.len() - j,
{
    if p < j < ns.len() && j < subtree_end(ns, p) {
        if selected(ns, p, sel, j) {
            Some(j)
        } else {
            first_child_from(ns, p, sel, j + 1)
        }
    } else {
        None
    }
}

/// The first selected child of `p`.
pub open spec fn first_child(ns: Seq<SyntaxNodeView>, p: int, sel: ChildSel) -> Option<int> {
    first_child_from(ns, p, sel, p + 1)
}

/// The last selected child of `p` at or before position `j`.
pub open spec fn last_child_from(ns: Seq<SyntaxNodeView>, p: int, sel: ChildSel, j: int) -> Option<int>
    decreases j,
{
    if 0 <= p < j < ns.len() {
        if selected(ns, p, sel, j) {
            Some(j)
        } else {
            last_child_from(ns, p, sel, j - 1)
        }
    } else {
        None
    }
}

/// The last selected child of `p`.
pub open spec fn last_child(ns: Seq<SyntaxNodeView>, p: int, sel: ChildSel) -> Option<int> {
    last_child_from(ns, p, sel, subtree_end(ns, p) - 1)
}

/// The number of selected children of `p` before position `j`.
pub open spec fn count_children_upto(ns: Seq<SyntaxNodeView>, p: int, sel: ChildSel, j: int) -> nat
    decreases j - p,
{
    if p + 1 < j {
        count_children_upto(ns, p, sel, j - 1) + if selected(ns, p, sel, j - 1) { 1nat } else { 0nat }
    } else {
        0
    }
}

/// The only named child of `p`, if it has exactly one.
pub open spec fn sole_named_child(ns: Seq<SyntaxNodeView>, p: int) -> Option<int> {
    if count_children_upto(ns, p, ChildSel::Named, subtree_end(ns, p)) == 1 {
        first_child(ns, p, ChildSel::Named)
    } else {
        None
    }
}

/// The positions of an optional child, as integers.
pub open spec fn opt_pos(o: Option<usize>) -> Option<int> {
    match o {
        Some(c) => Some(c as int),
        None => None,
    }
}

/// Whether a node is one that the selector looks for.
pub fn sel_matches_node(n: &SyntaxNode, sel: &ChildSel) -> (r: bool)
    ensures
        r == sel_matches(n@, *sel),
{
    let k = n.kind.as_str();
    match sel {
        ChildSel::Field(f) => match &n.field {
            Some(g) => str_eq(g.as_str(), f),
            None => false,
        },
        ChildSel::Kind(want) => str_eq(k, want),
        ChildSel::Named => n.named,
        ChildSel::RefBase => str_eq(k, "type_identifier") || str_eq(k, "scoped_type_identifier")
            || str_eq(k, "identifier") || str_eq(k, "scoped_identifier"),
        ChildSel::NamedNonAnnotation => n.named && !(str_eq(k, "annotation") || str_eq(k, "marker_annotation")),
        ChildSel::SpreadType => !(str_eq(k, "modifiers") || str_eq(k, "annotation") || str_eq(k, "marker_annotation")
            || str_eq(k, "...") || str_eq(k, "variable_declarator")),
        ChildSel::NameLike => str_eq(k, "scoped_identifier") || str_eq(k, "identifier"),
        ChildSel::Annotation => str_eq(k, "annotation") || str_eq(k, "marker_annotation"),
        ChildSel::ImportItem => str_eq(k, "scoped_identifier") || str_eq(k, "asterisk"),
    }
}

/// The first selected child of `p`, whose subtree ends at `end`.
pub fn first_child_of(nodes: &Vec<SyntaxNode>, p: usize, end: usize, sel: ChildSel) -> (r: Option<usize>)
    requires
        p < nodes@.len(),
        end as int == subtree_end(node_views(nodes@), p as int),
    ensures
        opt_pos(r) == first_child(node_views(nodes@), p as int, sel),
        r matches Some(c) ==> is_child(node_views(nodes@), p as int, c as int) && c < nodes@.len(),
{
    let ghost ns = node_views(nodes@);
    proof { lemma_subtree_end_bounds(ns, p as int); }
    let mut j = p + 1;
    while j < end
        invariant
            p < j <= end <= nodes@.len(),
            ns == node_views(nodes@),
            end as int == subtree_end(ns, p as int),
            first_child_from(ns, p as int, sel, j as int) == first_child(ns, p as int, sel),
        decreases end - j,
    {
        if is_child_of(nodes, p, end, j) && sel_matches_node(&nodes[j], &sel) {
            return Some(j);
        }
        j = j + 1;
    }
    None
}

/// The last selected child of `p`, whose subtree ends at `end`.
pub fn last_child_of(nodes: &Vec<SyntaxNode>, p: usize, end: usize, sel: ChildSel) -> (r: Option<usize>)
    requires
        p < nodes@.len(),
        end as int == subtree_end(node_views(nodes@), p as int),
    ensures
        opt_pos(r) == last_child(node_views(nodes@), p as int, sel),
        r matches Some(c) ==> is_child(node_views(nodes@), p as int, c as int) && c < nodes@.len(),
{
    let ghost ns = node_views(nodes@);
    proof { lemma_subtree_end_bounds(ns, p as int); }
    let mut j = end;
    while j > p + 1
        invariant
            p < j <= end <= nodes@.len(),
            ns == node_views(nodes@),
            end as int == subtree_end(ns, p as int),
            last_child_from(ns, p as int, sel, j - 1) == last_child(ns, p as int, sel),
        decreases j,
    {
        let c = j - 1;
        if is_child_of(nodes, p, end, c) && sel_matches_node(&nodes[c], &sel) {
            return Some(c);
        }
        j = c;
    }
    None
}

/// The number of selected children of `p`, whose subtree ends at `end`.
pub fn count_children_of(nodes: &Vec<SyntaxNode>, p: usize, end: usize, sel: ChildSel) -> (n: usize)
    requires
        p < nodes@.len(),
        end as int == subtree_end(node_views(nodes@), p as int),
    ensures
        n as nat == count_children_upto(node_views(nodes@), p as int, sel, end as int),
{
    let ghost ns = node_views(nodes@);
    proof { lemma_subtree_end_bounds(ns, p as int); }
    let mut n: usize = 0;
    let mut j = p + 1;
    while j < end
        invariant
            p < j <= end <= nodes@.len(),
            ns == node_views(nodes@),
            end as int == subtree_end(ns, p as int),
            n as nat == count_children_upto(ns, p as int, sel, j as int),
            n <= j - p - 1,
        decreases end - j,
    {
        if is_child_of(nodes, p, end, j) && sel_matches_node(&nodes[j], &sel) {
            n = n + 1;
        }
        j = j + 1;
    }
    n
}

/// The only named child of `p`, if it has exactly one.
pub fn sole_named_child_of(nodes: &Vec<SyntaxNode>, p: usize, end: usize) -> (r: Option<usize>)
    requires
        p < nodes@.len(),
        end as int == subtree_end(node_views(nodes@), p as int),
    ensures
        opt_pos(r) == sole_named_child(node_views(nodes@), p as int),
        r matches Some(c) ==> is_child(node_views(nodes@), p as int, c as int) && c < nodes@.len(),
{
    if count_children_of(nodes, p, end, ChildSel::Named) == 1 {
        first_child_of(nodes, p, end, ChildSel::Named)
    } else {
        None
    }
}

} // verus!
