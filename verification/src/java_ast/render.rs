//! Markdown rendering for parsed Java models.

use vstd::prelude::*;

use super::display::{
    annotations_prefix, annotations_text, type_list_text, type_parameters_text, type_ref_text,
    write_annotations, write_annotations_prefix, write_type_list, write_type_parameters, write_type_ref,
};
use super::error::JavaAstError;
use super::parse::{decl_kind, is_type_decl_kind};
use super::model::{
    JavaAnnotationElement, JavaArgument, JavaConstructor, JavaDoc, JavaField, JavaFile, JavaMethod, JavaType,
    TypeKind,
};
use crate::output::compact::{
    accessor_labels_spec, field_accessor_labels, kept_constructor_refs, kept_constructors, kept_method_refs,
    kept_methods, label_texts,
};
use crate::text::str_eq;

verus! {

// ---------------------------------------------------------------------------
// The document model.
// ---------------------------------------------------------------------------

/// `n` hash characters, clamped at six (Markdown has no h7).
pub open spec fn hashes(n: nat) -> Seq<char>
    decreases n,
{
    if n == 0 {
        Seq::empty()
    } else if n > 6 {
        hashes(6)
    } else {
        hashes((n - 1) as nat) + "#"@
    }
}

/// Heading markers never exceed six levels, however deep the nesting.
pub proof fn lemma_heading_depth_at_most_six(n: nat)
    ensures
        hashes(n).len() == if n > 6 { 6 } else { n },
        forall|i: int| 0 <= i < hashes(n).len() ==> hashes(n)[i] == '#',
    decreases n,
{
    reveal_strlit("#");
    if n > 6 {
        lemma_heading_depth_at_most_six(6);
    } else if n > 0 {
        lemma_heading_depth_at_most_six((n - 1) as nat);
        let prev = hashes((n - 1) as nat);
        assert forall|i: int| 0 <= i < hashes(n).len() implies hashes(n)[i] == '#' by {
            if i < prev.len() {
                assert(hashes(n)[i] == prev[i]);
            }
        }
    }
}

/// The heading word of a type kind.
pub open spec fn kind_label(k: TypeKind) -> Seq<char> {
    match k {
        TypeKind::Class => "Class"@,
        TypeKind::Interface => "Interface"@,
        TypeKind::Enum => "Enum"@,
        TypeKind::Record => "Record"@,
        TypeKind::Annotation => "Annotation"@,
    }
}

/// Distinct kinds of type get distinct heading words.
pub proof fn lemma_kind_labels_distinct(k1: TypeKind, k2: TypeKind)
    ensures
        kind_label(k1) == kind_label(k2) ==> k1 == k2,
{
    reveal_strlit("Class");
    reveal_strlit("Interface");
    reveal_strlit("Enum");
    reveal_strlit("Record");
    reveal_strlit("Annotation");
    if kind_label(k1) == kind_label(k2) {
        assert(kind_label(k1).len() == kind_label(k2).len());
        match k1 {
            TypeKind::Class => assert(kind_label(k1).len() == 5),
            TypeKind::Interface => assert(kind_label(k1).len() == 9),
            TypeKind::Enum => assert(kind_label(k1).len() == 4),
            TypeKind::Record => assert(kind_label(k1).len() == 6),
            TypeKind::Annotation => assert(kind_label(k1).len() == 10),
        }
    }
}

/// Whether `w` is the first word of `k` (the text before its first `_`),
/// capitalized from lower-case ASCII.
pub open spec fn capitalized_first_word(w: Seq<char>, k: Seq<char>) -> bool {
    &&& 0 < w.len() < k.len()
    &&& k[w.len() as int] == '_'
    &&& forall|j: int| 0 <= j < w.len() ==> k[j] != '_'
    &&& 'a' <= k[0] && k[0] <= 'z' && (w[0] as u32) + 32 == (k[0] as u32)
    &&& forall|j: int| 1 <= j < w.len() ==> w[j] == k[j]
}

/// The heading word of a declared type is the first word of the syntax kind
/// of its declaration, capitalized: `class_declaration` gives `Class`,
/// `interface_declaration` gives `Interface`, `annotation_type_declaration`
/// gives `Annotation`.
pub proof fn lemma_kind_label_names_declaration(k: Seq<char>)
    requires
        is_type_decl_kind(k),
    ensures
        capitalized_first_word(kind_label(decl_kind(k)), k),
{
    reveal_strlit("class_declaration");
    reveal_strlit("interface_declaration");
    reveal_strlit("enum_declaration");
    reveal_strlit("record_declaration");
    reveal_strlit("annotation_type_declaration");
    reveal_strlit("Class");
    reveal_strlit("Interface");
    reveal_strlit("Enum");
    reveal_strlit("Record");
    reveal_strlit("Annotation");
    let w = kind_label(decl_kind(k));
    assert forall|j: int| 0 <= j < w.len() implies k[j] != '_' by {}
    assert forall|j: int| 1 <= j < w.len() implies w[j] == k[j] by {}
}

/// Strings separated by `sep`.
pub open spec fn join_texts(items: Seq<Seq<char>>, sep: Seq<char>) -> Seq<char>
    decreases items.len(),
{
    if items.len() == 0 {
        Seq::empty()
    } else if items.len() == 1 {
        items[0]
    } else {
        join_texts(items.drop_last(), sep) + sep + items.last()
    }
}

/// The texts of a list of strings.
pub open spec fn texts(v: Seq<String>) -> Seq<Seq<char>> {
    v.map_values(|s: String| s@)
}

/// `**label:** `value``
pub open spec fn meta_line(label: Seq<char>, value: Seq<char>) -> Seq<char> {
    "**"@ + label + ":** `"@ + value + "`"@
}

/// A one-line list when `cond` holds, otherwise no lines.
#[verifier::opaque]
pub open spec fn opt_line(cond: bool, line: Seq<char>) -> Seq<Seq<char>> {
    if cond { seq![line] } else { Seq::empty() }
}

/// Metadata lines joined by newlines and closed by a blank line; nothing when there are none.
#[verifier::opaque]
pub open spec fn meta_block(lines: Seq<Seq<char>>) -> Seq<char> {
    if lines.len() == 0 {
        Seq::empty()
    } else {
        join_texts(lines, "\n"@) + "\n\n"@
    }
}

/// Like `meta_block`, but a lone newline when there are no lines.
#[verifier::opaque]
pub open spec fn member_meta_block(lines: Seq<Seq<char>>) -> Seq<char> {
    if lines.len() == 0 {
        "\n"@
    } else {
        join_texts(lines, "\n"@) + "\n\n"@
    }
}

/// How a parameter is listed: annotations, type (`...` for varargs), name.
pub open spec fn argument_text(a: JavaArgument) -> Seq<char> {
    annotations_prefix(a.annotations@) + type_ref_text(a.ty) + (if a.varargs { "..."@ } else { Seq::empty() })
        + " "@ + a.name@
}

/// Parameters separated by `, `.
pub open spec fn arguments_text(args: Seq<JavaArgument>) -> Seq<char>
    decreases args.len(),
{
    if args.len() == 0 {
        Seq::empty()
    } else if args.len() == 1 {
        argument_text(args[0])
    } else {
        arguments_text(args.drop_last()) + ", "@ + argument_text(args.last())
    }
}

/// The metadata lines of a type heading.
pub open spec fn type_meta_lines(ty: JavaType, detailed: bool) -> Seq<Seq<char>> {
    opt_line(ty.annotations@.len() > 0, meta_line("Annotations"@, annotations_text(ty.annotations@)))
        + opt_line(ty.modifiers@.len() > 0, meta_line("Modifiers"@, join_texts(texts(ty.modifiers@), " "@)))
        + opt_line(detailed && ty.type_parameters@.len() > 0,
            meta_line("Type Parameters"@, type_parameters_text(ty.type_parameters@)))
        + opt_line(ty.extends@.len() > 0, meta_line("Extends"@, type_list_text(ty.extends@, ", "@)))
        + opt_line(ty.implements@.len() > 0, meta_line("Implements"@, type_list_text(ty.implements@, ", "@)))
}

/// The description of a Javadoc comment; nothing without one.
pub open spec fn doc_text(d: Option<JavaDoc>) -> Seq<char> {
    match d {
        Some(doc) => doc.description@,
        None => Seq::empty(),
    }
}

/// The description as a paragraph of its own; nothing when it is empty.
pub open spec fn doc_paragraph(d: Option<JavaDoc>) -> Seq<char> {
    if doc_text(d).len() > 0 { doc_text(d) + "\n\n"@ } else { Seq::empty() }
}

/// Accessor labels, each written ` [label]`.
pub open spec fn label_suffix(ls: Seq<Seq<char>>) -> Seq<char>
    decreases ls.len(),
{
    if ls.len() == 0 { Seq::empty() } else { label_suffix(ls.drop_last()) + " ["@ + ls.last() + "]"@ }
}

/// The description after a field's name, `: description`; nothing when it is empty.
pub open spec fn doc_suffix(d: Option<JavaDoc>) -> Seq<char> {
    if doc_text(d).len() > 0 { ": "@ + doc_text(d) } else { Seq::empty() }
}

/// One row of the fields table of `ty`: the field's standard accessors and
/// then its description follow its name in the name cell.
pub open spec fn field_row(f: JavaField, ty: JavaType) -> Seq<char> {
    "| `"@ + annotations_text(f.annotations@) + "` | `"@ + join_texts(texts(f.modifiers@), " "@) + "` | `"@
        + type_ref_text(f.ty) + "` | `"@ + f.name@ + "`"@ + label_suffix(accessor_labels_spec(ty, f))
        + doc_suffix(f.documentation) + " |\n"@
}

/// Rows concatenated.
pub open spec fn field_rows(fs: Seq<JavaField>, ty: JavaType) -> Seq<char>
    decreases fs.len(),
{
    if fs.len() == 0 { Seq::empty() } else { field_rows(fs.drop_last(), ty) + field_row(fs.last(), ty) }
}

/// The fields section of `ty` (empty when it has no fields).
#[verifier::opaque]
pub open spec fn fields_section(ty: JavaType, sh: Seq<char>) -> Seq<char> {
    if ty.fields@.len() == 0 {
        Seq::empty()
    } else {
        sh + " Fields\n\n"@ + "| Annotations | Modifiers | Type | Name |\n"@ + "| --- | --- | --- | --- |\n"@
            + field_rows(ty.fields@, ty) + "\n"@
    }
}

/// The metadata lines of a constructor.
pub open spec fn constructor_meta_lines(c: JavaConstructor, detailed: bool) -> Seq<Seq<char>> {
    opt_line(c.annotations@.len() > 0, meta_line("Annotations"@, annotations_text(c.annotations@)))
        + opt_line(c.modifiers@.len() > 0, meta_line("Modifiers"@, join_texts(texts(c.modifiers@), " "@)))
        + opt_line(detailed && c.type_parameters@.len() > 0,
            meta_line("Type Parameters"@, type_parameters_text(c.type_parameters@)))
        + opt_line(c.args@.len() > 0, meta_line("Arguments"@, arguments_text(c.args@)))
        + opt_line(detailed && c.throws@.len() > 0, meta_line("Throws"@, type_list_text(c.throws@, ", "@)))
}

/// One constructor entry.
pub open spec fn constructor_entry(c: JavaConstructor, ih: Seq<char>, detailed: bool) -> Seq<char> {
    ih + " `"@ + c.name@ + "`\n\n"@ + doc_paragraph(c.documentation) + member_meta_block(constructor_meta_lines(c, detailed))
}

/// Constructor entries concatenated.
pub open spec fn constructor_entries(cs: Seq<JavaConstructor>, ih: Seq<char>, detailed: bool) -> Seq<char>
    decreases cs.len(),
{
    if cs.len() == 0 {
        Seq::empty()
    } else {
        constructor_entries(cs.drop_last(), ih, detailed) + constructor_entry(cs.last(), ih, detailed)
    }
}

/// The constructors section (empty when there are none).
#[verifier::opaque]
pub open spec fn constructors_section(cs: Seq<JavaConstructor>, sh: Seq<char>, ih: Seq<char>, detailed: bool) -> Seq<char> {
    if cs.len() == 0 { Seq::empty() } else { sh + " Constructors\n\n"@ + constructor_entries(cs, ih, detailed) }
}

/// The metadata lines of a method.
pub open spec fn method_meta_lines(m: JavaMethod, detailed: bool) -> Seq<Seq<char>> {
    opt_line(m.annotations@.len() > 0, meta_line("Annotations"@, annotations_text(m.annotations@)))
        + opt_line(m.modifiers@.len() > 0, meta_line("Modifiers"@, join_texts(texts(m.modifiers@), " "@)))
        + opt_line(detailed && m.type_parameters@.len() > 0,
            meta_line("Type Parameters"@, type_parameters_text(m.type_parameters@)))
        + (match m.return_type {
            Some(rt) => seq![meta_line("Returns"@, type_ref_text(rt))],
            None => Seq::empty(),
        })
        + opt_line(m.args@.len() > 0, meta_line("Arguments"@, arguments_text(m.args@)))
        + opt_line(detailed && m.throws@.len() > 0, meta_line("Throws"@, type_list_text(m.throws@, ", "@)))
}

/// One method entry.
pub open spec fn method_entry(m: JavaMethod, ih: Seq<char>, detailed: bool) -> Seq<char> {
    ih + " `"@ + m.name@ + "`\n\n"@ + doc_paragraph(m.documentation) + member_meta_block(method_meta_lines(m, detailed))
}

/// Method entries concatenated.
pub open spec fn method_entries(ms: Seq<JavaMethod>, ih: Seq<char>, detailed: bool) -> Seq<char>
    decreases ms.len(),
{
    if ms.len() == 0 {
        Seq::empty()
    } else {
        method_entries(ms.drop_last(), ih, detailed) + method_entry(ms.last(), ih, detailed)
    }
}

/// The methods section (empty when there are none).
#[verifier::opaque]
pub open spec fn methods_section(ms: Seq<JavaMethod>, sh: Seq<char>, ih: Seq<char>, detailed: bool) -> Seq<char> {
    if ms.len() == 0 { Seq::empty() } else { sh + " Methods\n\n"@ + method_entries(ms, ih, detailed) }
}

/// Bullet items `- `text``, one per line.
pub open spec fn bullet_items(items: Seq<Seq<char>>) -> Seq<char>
    decreases items.len(),
{
    if items.len() == 0 {
        Seq::empty()
    } else {
        bullet_items(items.drop_last()) + "- `"@ + items.last() + "`\n"@
    }
}

/// The enum constants section (empty when there are none).
#[verifier::opaque]
pub open spec fn constants_section(cs: Seq<Seq<char>>, sh: Seq<char>) -> Seq<char> {
    if cs.len() == 0 { Seq::empty() } else { sh + " Constants\n\n"@ + bullet_items(cs) + "\n"@ }
}

/// One row of the record components table.
pub open spec fn component_row(a: JavaArgument) -> Seq<char> {
    "| `"@ + annotations_text(a.annotations@) + "` | `"@ + type_ref_text(a.ty) + "` | `"@ + a.name@ + "` |\n"@
}

/// Rows concatenated.
pub open spec fn component_rows(cs: Seq<JavaArgument>) -> Seq<char>
    decreases cs.len(),
{
    if cs.len() == 0 { Seq::empty() } else { component_rows(cs.drop_last()) + component_row(cs.last()) }
}

/// The record components section (empty when there are none).
#[verifier::opaque]
pub open spec fn components_section(cs: Seq<JavaArgument>, sh: Seq<char>) -> Seq<char> {
    if cs.len() == 0 {
        Seq::empty()
    } else {
        sh + " Components\n\n"@ + "| Annotations | Type | Name |\n"@ + "| --- | --- | --- |\n"@ + component_rows(cs)
            + "\n"@
    }
}

/// One annotation element entry.
pub open spec fn element_entry(e: JavaAnnotationElement, ih: Seq<char>) -> Seq<char> {
    ih + " `"@ + e.name@ + "`\n\n"@ + doc_paragraph(e.documentation)
        + (if e.annotations@.len() > 0 {
            "- **Annotations:** `"@ + annotations_text(e.annotations@) + "`\n"@
        } else {
            Seq::empty()
        })
        + "- **Returns:** `"@ + type_ref_text(e.return_type) + "`\n\n"@
}

/// Element entries concatenated.
pub open spec fn element_entries(es: Seq<JavaAnnotationElement>, ih: Seq<char>) -> Seq<char>
    decreases es.len(),
{
    if es.len() == 0 { Seq::empty() } else { element_entries(es.drop_last(), ih) + element_entry(es.last(), ih) }
}

/// The annotation elements section (empty when there are none).
#[verifier::opaque]
pub open spec fn elements_section(es: Seq<JavaAnnotationElement>, sh: Seq<char>, ih: Seq<char>) -> Seq<char> {
    if es.len() == 0 { Seq::empty() } else { sh + " Elements\n\n"@ + element_entries(es, ih) }
}

/// One nesting level deeper; depths past six all render alike, so the
/// depth stops growing there.
pub open spec fn deeper(level: nat) -> nat {
    if level < 6 { level + 1 } else { 6 }
}

/// One nesting level deeper (see `deeper`).
fn deeper_level(level: usize) -> (r: usize)
    ensures
        r == deeper(level as nat),
{
    if level < 6 { level + 1 } else { 6 }
}

/// The Markdown of one type at nesting depth `level`, whose heading has
/// `level + base` hashes (clamped at six); member sections sit one level
/// deeper and member entries two. With `detailed`, type parameters and
/// thrown types are listed too.
pub open spec fn type_markdown(ty: JavaType, level: nat, base: nat, detailed: bool) -> Seq<char>
    decreases ty, 1nat,
{
    type_heading(ty, level, base) + type_members(ty, level, base, detailed)
        + types_markdown(ty.nested_types@, deeper(level), base, detailed)
}

/// The heading line of a type.
#[verifier::opaque]
pub open spec fn type_heading(ty: JavaType, level: nat, base: nat) -> Seq<char> {
    hashes(level + base) + " "@ + kind_label(ty.kind) + " `"@ + ty.name@ + "`\n\n"@
}

/// The description, metadata and member sections of a type (nested types
/// excluded). Members are listed in compact form: plain no-argument
/// constructors are skipped, and standard accessors appear as labels on
/// their fields rather than as methods.
#[verifier::opaque]
pub open spec fn type_members(ty: JavaType, level: nat, base: nat, detailed: bool) -> Seq<char> {
    let sh = hashes(level + base + 1);
    let ih = hashes(level + base + 2);
    doc_paragraph(ty.documentation)
        + meta_block(type_meta_lines(ty, detailed))
        + fields_section(ty, sh)
        + constructors_section(kept_constructors(ty.constructors@), sh, ih, detailed)
        + methods_section(kept_methods(ty.methods@, ty), sh, ih, detailed)
        + constants_section(texts(ty.enum_constants@), sh)
        + components_section(ty.record_components@, sh)
        + elements_section(ty.annotation_elements@, sh, ih)
}

/// A type's heading tells its kind: two types of the same name whose
/// headings at the same depth agree are of the same kind, so for instance
/// an interface never gets a class's heading.
pub proof fn lemma_heading_tells_kind(t1: JavaType, t2: JavaType, level: nat, base: nat)
    requires
        t1.name@ == t2.name@,
        type_heading(t1, level, base) == type_heading(t2, level, base),
    ensures
        t1.kind == t2.kind,
{
    reveal(type_heading);
    let pre = hashes(level + base) + " "@;
    let post = " `"@ + t1.name@ + "`\n\n"@;
    let h1 = pre + kind_label(t1.kind) + post;
    let h2 = pre + kind_label(t2.kind) + post;
    assert(type_heading(t1, level, base) =~= h1);
    assert(type_heading(t2, level, base) =~= h2);
    assert(kind_label(t1.kind).len() == kind_label(t2.kind).len());
    assert(kind_label(t1.kind) =~= h1.subrange(pre.len() as int, (pre.len() + kind_label(t1.kind).len()) as int));
    assert(kind_label(t2.kind) =~= h2.subrange(pre.len() as int, (pre.len() + kind_label(t2.kind).len()) as int));
    lemma_kind_labels_distinct(t1.kind, t2.kind);
}

/// The Markdown of a list of types at the same depth, concatenated.
pub open spec fn types_markdown(tys: Seq<JavaType>, level: nat, base: nat, detailed: bool) -> Seq<char>
    decreases tys, 0nat,
{
    if tys.len() == 0 {
        Seq::empty()
    } else {
        types_markdown(tys.drop_last(), level, base, detailed) + type_markdown(tys.last(), level, base, detailed)
    }
}

/// Past depth six every heading has six hashes, so a list of types renders
/// alike at any depth from six on.
proof fn lemma_types_markdown_past_six(tys: Seq<JavaType>, level: nat, base: nat, detailed: bool)
    requires
        level >= 6,
    ensures
        types_markdown(tys, level, base, detailed) == types_markdown(tys, 6, base, detailed),
    decreases tys.len(),
{
    if tys.len() > 0 {
        lemma_types_markdown_past_six(tys.drop_last(), level, base, detailed);
        let ty = tys.last();
        assert(hashes(level + base) == hashes(6 + base));
        assert(hashes(level + base + 1) == hashes(6 + base + 1));
        assert(hashes(level + base + 2) == hashes(6 + base + 2));
        assert(type_heading(ty, level, base) == type_heading(ty, 6, base)) by {
            reveal(type_heading);
        }
        assert(type_members(ty, level, base, detailed) == type_members(ty, 6, base, detailed)) by {
            reveal(type_members);
        }
        assert(type_markdown(ty, level, base, detailed) == type_markdown(ty, 6, base, detailed));
    }
}

/// A type renders as its heading, then its own description, metadata and
/// members, then its nested types in order, one level deeper.
pub proof fn lemma_nested_types_follow_members(ty: JavaType, level: nat, base: nat, detailed: bool)
    ensures
        type_markdown(ty, level, base, detailed) == type_heading(ty, level, base)
            + type_members(ty, level, base, detailed) + types_markdown(ty.nested_types@, level + 1, base, detailed),
{
    if level >= 6 {
        lemma_types_markdown_past_six(ty.nested_types@, level + 1, base, detailed);
    }
}

// ---------------------------------------------------------------------------
// Writers.
// ---------------------------------------------------------------------------

/// Appends the hashes of a heading `level + extra` deep (clamped at six).
fn write_hashes(level: usize, extra: usize, out: &mut String)
    requires
        extra <= 6,
    ensures
        final(out)@ == old(out)@ + hashes((level + extra) as nat),
{
    let count: usize = if level >= 6 { 6 } else if level + extra > 6 { 6 } else { level + extra };
    let ghost start = out@;
    assert(hashes((level + extra) as nat) == hashes(count as nat)) by {
        if level + extra > 6 {
            assert(hashes((level + extra) as nat) == hashes(6));
        }
    }
    let mut k: usize = 0;
    while k < count
        invariant
            k <= count <= 6,
            out@ == start + hashes(k as nat),
        decreases count - k,
    {
        out.append("#");
        k = k + 1;
    }
}

/// Appends strings separated by `sep`.
fn write_joined(items: &Vec<String>, sep: &str, out: &mut String)
    ensures
        final(out)@ == old(out)@ + join_texts(texts(items@), sep@),
{
    let ghost start = out@;
    let n = items.len();
    for i in 0..n
        invariant
            n == items@.len(),
            out@ == start + join_texts(texts(items@).take(i as int), sep@),
    {
        if i > 0 {
            out.append(sep);
        }
        out.append(items[i].as_str());
        proof {
            let tk = texts(items@).take(i + 1);
            assert(tk.drop_last() == texts(items@).take(i as int));
            assert(tk.last() == items@[i as int]@);
            assert(out@ =~= start + join_texts(tk, sep@));
        }
    }
    assert(texts(items@).take(n as int) == texts(items@));
}

/// `**label:** `value`` as a new string.
fn meta_line_string(label: &str, value: &String) -> (s: String)
    ensures
        s@ == meta_line(label@, value@),
{
    let mut s = String::new();
    s.append("**");
    s.append(label);
    s.append(":** `");
    s.append(value.as_str());
    s.append("`");
    assert(s@ =~= meta_line(label@, value@));
    s
}

/// Pushes a line onto a list of lines.
fn push_line(lines: &mut Vec<String>, line: String)
    ensures
        texts(final(lines)@) == texts(old(lines)@).push(line@),
{
    let ghost before = lines@;
    lines.push(line);
    assert(texts(lines@) =~= texts(before).push(line@));
}

/// Appends lines joined by newlines plus a blank line (nothing when empty).
fn write_meta_block(lines: &Vec<String>, out: &mut String)
    ensures
        final(out)@ == old(out)@ + meta_block(texts(lines@)),
{
    reveal(meta_block);
    if lines.len() > 0 {
        write_joined(lines, "\n", out);
        out.append("\n\n");
        assert(final(out)@ =~= old(out)@ + meta_block(texts(lines@))) by {
            assert(texts(lines@).len() > 0);
        }
    }
}

/// Appends lines joined by newlines plus a blank line (a lone newline when empty).
fn write_member_meta_block(lines: &Vec<String>, out: &mut String)
    ensures
        final(out)@ == old(out)@ + member_meta_block(texts(lines@)),
{
    reveal(member_meta_block);
    if lines.len() > 0 {
        write_joined(lines, "\n", out);
        out.append("\n\n");
        assert(texts(lines@).len() > 0);
    } else {
        out.append("\n");
    }
}

/// The annotations of a declaration spelled out.
fn annotations_string(anns: &Vec<super::model::JavaAnnotation>) -> (s: String)
    ensures
        s@ == annotations_text(anns@),
{
    let mut s = String::new();
    write_annotations(anns, &mut s);
    s
}

/// Strings joined with spaces.
fn spaced(items: &Vec<String>) -> (s: String)
    ensures
        s@ == join_texts(texts(items@), " "@),
{
    let mut s = String::new();
    write_joined(items, " ", &mut s);
    s
}

/// Types joined with `sep`.
fn type_list_string(ts: &Vec<super::model::JavaTypeRef>, sep: &str) -> (s: String)
    ensures
        s@ == type_list_text(ts@, sep@),
{
    let mut s = String::new();
    write_type_list(ts, sep, &mut s);
    s
}

/// Type parameters spelled out.
fn type_parameters_string(ps: &Vec<super::model::JavaTypeParameter>) -> (s: String)
    ensures
        s@ == type_parameters_text(ps@),
{
    let mut s = String::new();
    write_type_parameters(ps, &mut s);
    s
}

/// Parameters spelled out and separated by `, `.
fn arguments_string(args: &Vec<JavaArgument>) -> (s: String)
    ensures
        s@ == arguments_text(args@),
{
    let mut s = String::new();
    let n = args.len();
    for i in 0..n
        invariant
            n == args@.len(),
            s@ == arguments_text(args@.take(i as int)),
    {
        let ghost before = s@;
        if i > 0 {
            s.append(", ");
        }
        let a = &args[i];
        write_annotations_prefix(&a.annotations, &mut s);
        write_type_ref(&a.ty, &mut s);
        if a.varargs {
            s.append("...");
        }
        s.append(" ");
        s.append(a.name.as_str());
        proof {
            let tk = args@.take(i + 1);
            assert(tk.drop_last() == args@.take(i as int));
            assert(tk.last() == *a);
            if i > 0 {
                assert(s@ =~= before + ", "@ + argument_text(*a));
            } else {
                assert(s@ =~= before + argument_text(*a));
            }
        }
    }
    assert(args@.take(n as int) == args@);
    s
}

/// Appends the metadata lines and block of a type heading.
fn write_type_meta(ty: &JavaType, detailed: bool, out: &mut String)
    ensures
        final(out)@ == old(out)@ + meta_block(type_meta_lines(*ty, detailed)),
{
    let mut lines: Vec<String> = Vec::new();
    if ty.annotations.len() > 0 {
        push_line(&mut lines, meta_line_string("Annotations", &annotations_string(&ty.annotations)));
    }
    assert(texts(lines@) == opt_line(ty.annotations@.len() > 0, meta_line("Annotations"@, annotations_text(ty.annotations@)))) by {
        reveal(opt_line);
        assert(texts(lines@) =~= opt_line(ty.annotations@.len() > 0, meta_line("Annotations"@, annotations_text(ty.annotations@))));
    }
    let ghost l1 = texts(lines@);
    if ty.modifiers.len() > 0 {
        push_line(&mut lines, meta_line_string("Modifiers", &spaced(&ty.modifiers)));
    }
    assert(texts(lines@) == l1 + opt_line(ty.modifiers@.len() > 0, meta_line("Modifiers"@, join_texts(texts(ty.modifiers@), " "@)))) by {
        reveal(opt_line);
        assert(texts(lines@) =~= l1 + opt_line(ty.modifiers@.len() > 0, meta_line("Modifiers"@, join_texts(texts(ty.modifiers@), " "@))));
    }
    let ghost l2 = texts(lines@);
    if detailed && ty.type_parameters.len() > 0 {
        push_line(&mut lines, meta_line_string("Type Parameters", &type_parameters_string(&ty.type_parameters)));
    }
    assert(texts(lines@) == l2 + opt_line(detailed && ty.type_parameters@.len() > 0,
            meta_line("Type Parameters"@, type_parameters_text(ty.type_parameters@)))) by {
        reveal(opt_line);
        assert(texts(lines@) =~= l2 + opt_line(detailed && ty.type_parameters@.len() > 0,
            meta_line("Type Parameters"@, type_parameters_text(ty.type_parameters@))));
    }
    let ghost l3 = texts(lines@);
    if ty.extends.len() > 0 {
        push_line(&mut lines, meta_line_string("Extends", &type_list_string(&ty.extends, ", ")));
    }
    assert(texts(lines@) == l3 + opt_line(ty.extends@.len() > 0, meta_line("Extends"@, type_list_text(ty.extends@, ", "@)))) by {
        reveal(opt_line);
        assert(texts(lines@) =~= l3 + opt_line(ty.extends@.len() > 0, meta_line("Extends"@, type_list_text(ty.extends@, ", "@))));
    }
    let ghost l4 = texts(lines@);
    if ty.implements.len() > 0 {
        push_line(&mut lines, meta_line_string("Implements", &type_list_string(&ty.implements, ", ")));
    }
    assert(texts(lines@) == l4 + opt_line(ty.implements@.len() > 0, meta_line("Implements"@, type_list_text(ty.implements@, ", "@)))) by {
        reveal(opt_line);
        assert(texts(lines@) =~= l4 + opt_line(ty.implements@.len() > 0, meta_line("Implements"@, type_list_text(ty.implements@, ", "@))));
    }
    write_meta_block(&lines, out);
}

/// Appends the description paragraph of a Javadoc comment, if any.
fn write_doc_paragraph(d: &Option<JavaDoc>, out: &mut String)
    ensures
        final(out)@ == old(out)@ + doc_paragraph(*d),
{
    let ghost start = out@;
    if let Some(doc) = d {
        proof {
            reveal_strlit("");
            assert(""@ =~= Seq::<char>::empty());
        }
        if !str_eq(doc.description.as_str(), "") {
            assert(doc.description@.len() > 0) by {
                if doc.description@.len() == 0 {
                    assert(doc.description@ =~= ""@);
                }
            }
            out.append(doc.description.as_str());
            out.append("\n\n");
            assert(out@ =~= start + doc_paragraph(*d));
        } else {
            assert(doc_paragraph(*d) =~= Seq::<char>::empty());
        }
    }
}

/// Appends `: description` for a Javadoc comment with a description.
fn write_doc_suffix(d: &Option<JavaDoc>, out: &mut String)
    ensures
        final(out)@ == old(out)@ + doc_suffix(*d),
{
    let ghost start = out@;
    if let Some(doc) = d {
        proof {
            reveal_strlit("");
            assert(""@ =~= Seq::<char>::empty());
        }
        if !str_eq(doc.description.as_str(), "") {
            assert(doc.description@.len() > 0) by {
                if doc.description@.len() == 0 {
                    assert(doc.description@ =~= ""@);
                }
            }
            out.append(": ");
            out.append(doc.description.as_str());
            assert(out@ =~= start + doc_suffix(*d));
        } else {
            assert(doc_suffix(*d) =~= Seq::<char>::empty());
        }
    }
}

/// Appends ` [label]` for each label.
fn write_labels(labels: &Vec<&str>, out: &mut String)
    ensures
        final(out)@ == old(out)@ + label_suffix(label_texts(labels@)),
{
    let ghost start = out@;
    let n = labels.len();
    for i in 0..n
        invariant
            n == labels@.len(),
            out@ == start + label_suffix(label_texts(labels@).take(i as int)),
    {
        out.append(" [");
        out.append(labels[i]);
        out.append("]");
        proof {
            let tk = label_texts(labels@).take(i + 1);
            assert(tk.drop_last() == label_texts(labels@).take(i as int));
            assert(tk.last() == labels@[i as int]@);
            assert(out@ =~= start + label_suffix(tk));
        }
    }
    assert(label_texts(labels@).take(n as int) == label_texts(labels@));
}

/// Appends one row of the fields table of `ty`.
fn write_field_row(f: &JavaField, ty: &JavaType, out: &mut String)
    ensures
        final(out)@ == old(out)@ + field_row(*f, *ty),
{
    let ghost start = out@;
    out.append("| `");
    write_annotations(&f.annotations, out);
    out.append("` | `");
    write_joined(&f.modifiers, " ", out);
    out.append("` | `");
    write_type_ref(&f.ty, out);
    out.append("` | `");
    out.append(f.name.as_str());
    out.append("`");
    let labels = field_accessor_labels(ty, f);
    write_labels(&labels, out);
    write_doc_suffix(&f.documentation, out);
    out.append(" |\n");
    assert(out@ =~= start + field_row(*f, *ty));
}

/// Appends the fields section of `ty`.
fn write_fields(ty: &JavaType, level: usize, base: usize, out: &mut String)
    requires
        base <= 4,
    ensures
        final(out)@ == old(out)@ + fields_section(*ty, hashes((level + base + 1) as nat)),
{
    reveal(fields_section);
    let fs = &ty.fields;
    if fs.len() == 0 {
        return;
    }
    let ghost start = out@;
    write_hashes(level, base + 1, out);
    out.append(" Fields\n\n");
    out.append("| Annotations | Modifiers | Type | Name |\n");
    out.append("| --- | --- | --- | --- |\n");
    let ghost head = out@;
    let n = fs.len();
    for i in 0..n
        invariant
            n == fs@.len(),
            *fs == ty.fields,
            out@ == head + field_rows(fs@.take(i as int), *ty),
    {
        let f = &fs[i];
        let ghost before = out@;
        write_field_row(f, ty, out);
        proof {
            let tk = fs@.take(i + 1);
            assert(tk.drop_last() == fs@.take(i as int));
            assert(tk.last() == *f);
            assert(out@ =~= head + field_rows(tk, *ty));
        }
    }
    assert(fs@.take(n as int) == fs@);
    out.append("\n");
    assert(out@ =~= start + fields_section(*ty, hashes((level + base + 1) as nat)));
}

/// The metadata lines of a constructor.
fn constructor_meta(c: &JavaConstructor, detailed: bool) -> (lines: Vec<String>)
    ensures
        texts(lines@) == constructor_meta_lines(*c, detailed),
{
    let mut lines: Vec<String> = Vec::new();
    if c.annotations.len() > 0 {
        push_line(&mut lines, meta_line_string("Annotations", &annotations_string(&c.annotations)));
    }
    assert(texts(lines@) == opt_line(c.annotations@.len() > 0, meta_line("Annotations"@, annotations_text(c.annotations@)))) by {
        reveal(opt_line);
        assert(texts(lines@) =~= opt_line(c.annotations@.len() > 0, meta_line("Annotations"@, annotations_text(c.annotations@))));
    }
    let ghost l1 = texts(lines@);
    if c.modifiers.len() > 0 {
        push_line(&mut lines, meta_line_string("Modifiers", &spaced(&c.modifiers)));
    }
    assert(texts(lines@) == l1 + opt_line(c.modifiers@.len() > 0, meta_line("Modifiers"@, join_texts(texts(c.modifiers@), " "@)))) by {
        reveal(opt_line);
        assert(texts(lines@) =~= l1 + opt_line(c.modifiers@.len() > 0, meta_line("Modifiers"@, join_texts(texts(c.modifiers@), " "@))));
    }
    let ghost l2 = texts(lines@);
    if detailed && c.type_parameters.len() > 0 {
        push_line(&mut lines, meta_line_string("Type Parameters", &type_parameters_string(&c.type_parameters)));
    }
    assert(texts(lines@) == l2 + opt_line(detailed && c.type_parameters@.len() > 0,
            meta_line("Type Parameters"@, type_parameters_text(c.type_parameters@)))) by {
        reveal(opt_line);
        assert(texts(lines@) =~= l2 + opt_line(detailed && c.type_parameters@.len() > 0,
            meta_line("Type Parameters"@, type_parameters_text(c.type_parameters@))));
    }
    let ghost l3 = texts(lines@);
    if c.args.len() > 0 {
        push_line(&mut lines, meta_line_string("Arguments", &arguments_string(&c.args)));
    }
    assert(texts(lines@) == l3 + opt_line(c.args@.len() > 0, meta_line("Arguments"@, arguments_text(c.args@)))) by {
        reveal(opt_line);
        assert(texts(lines@) =~= l3 + opt_line(c.args@.len() > 0, meta_line("Arguments"@, arguments_text(c.args@))));
    }
    let ghost l4 = texts(lines@);
    if detailed && c.throws.len() > 0 {
        push_line(&mut lines, meta_line_string("Throws", &type_list_string(&c.throws, ", ")));
    }
    assert(texts(lines@) == l4 + opt_line(detailed && c.throws@.len() > 0, meta_line("Throws"@, type_list_text(c.throws@, ", "@)))) by {
        reveal(opt_line);
        assert(texts(lines@) =~= l4 + opt_line(detailed && c.throws@.len() > 0, meta_line("Throws"@, type_list_text(c.throws@, ", "@))));
    }
    lines
}

/// The metadata lines of a method.
fn method_meta(m: &JavaMethod, detailed: bool) -> (lines: Vec<String>)
    ensures
        texts(lines@) == method_meta_lines(*m, detailed),
{
    let mut lines: Vec<String> = Vec::new();
    if m.annotations.len() > 0 {
        push_line(&mut lines, meta_line_string("Annotations", &annotations_string(&m.annotations)));
    }
    assert(texts(lines@) == opt_line(m.annotations@.len() > 0, meta_line("Annotations"@, annotations_text(m.annotations@)))) by {
        reveal(opt_line);
        assert(texts(lines@) =~= opt_line(m.annotations@.len() > 0, meta_line("Annotations"@, annotations_text(m.annotations@))));
    }
    let ghost l1 = texts(lines@);
    if m.modifiers.len() > 0 {
        push_line(&mut lines, meta_line_string("Modifiers", &spaced(&m.modifiers)));
    }
    assert(texts(lines@) == l1 + opt_line(m.modifiers@.len() > 0, meta_line("Modifiers"@, join_texts(texts(m.modifiers@), " "@)))) by {
        reveal(opt_line);
        assert(texts(lines@) =~= l1 + opt_line(m.modifiers@.len() > 0, meta_line("Modifiers"@, join_texts(texts(m.modifiers@), " "@))));
    }
    let ghost l2 = texts(lines@);
    if detailed && m.type_parameters.len() > 0 {
        push_line(&mut lines, meta_line_string("Type Parameters", &type_parameters_string(&m.type_parameters)));
    }
    assert(texts(lines@) == l2 + opt_line(detailed && m.type_parameters@.len() > 0,
            meta_line("Type Parameters"@, type_parameters_text(m.type_parameters@)))) by {
        reveal(opt_line);
        assert(texts(lines@) =~= l2 + opt_line(detailed && m.type_parameters@.len() > 0,
            meta_line("Type Parameters"@, type_parameters_text(m.type_parameters@))));
    }
    let ghost l3 = texts(lines@);
    if let Some(rt) = &m.return_type {
        let mut t = String::new();
        write_type_ref(rt, &mut t);
        push_line(&mut lines, meta_line_string("Returns", &t));
    }
    assert(texts(lines@) == l3 + (match m.return_type {
            Some(rt) => seq![meta_line("Returns"@, type_ref_text(rt))],
            None => Seq::empty(),
        })) by {
        assert(texts(lines@) =~= l3 + (match m.return_type {
            Some(rt) => seq![meta_line("Returns"@, type_ref_text(rt))],
            None => Seq::empty(),
        }));
    }
    let ghost l4 = texts(lines@);
    if m.args.len() > 0 {
        push_line(&mut lines, meta_line_string("Arguments", &arguments_string(&m.args)));
    }
    assert(texts(lines@) == l4 + opt_line(m.args@.len() > 0, meta_line("Arguments"@, arguments_text(m.args@)))) by {
        reveal(opt_line);
        assert(texts(lines@) =~= l4 + opt_line(m.args@.len() > 0, meta_line("Arguments"@, arguments_text(m.args@))));
    }
    let ghost l5 = texts(lines@);
    if detailed && m.throws.len() > 0 {
        push_line(&mut lines, meta_line_string("Throws", &type_list_string(&m.throws, ", ")));
    }
    assert(texts(lines@) == l5 + opt_line(detailed && m.throws@.len() > 0, meta_line("Throws"@, type_list_text(m.throws@, ", "@)))) by {
        reveal(opt_line);
        assert(texts(lines@) =~= l5 + opt_line(detailed && m.throws@.len() > 0, meta_line("Throws"@, type_list_text(m.throws@, ", "@))));
    }
    lines
}

/// Appends one constructor entry.
fn write_constructor(c: &JavaConstructor, level: usize, base: usize, detailed: bool, out: &mut String)
    requires
        base <= 4,
    ensures
        final(out)@ == old(out)@ + constructor_entry(*c, hashes((level + base + 2) as nat), detailed),
{
    let ghost start = out@;
    write_hashes(level, base + 2, out);
    out.append(" `");
    out.append(c.name.as_str());
    out.append("`\n\n");
    write_doc_paragraph(&c.documentation, out);
    let lines = constructor_meta(c, detailed);
    write_member_meta_block(&lines, out);
    assert(out@ =~= start + constructor_entry(*c, hashes((level + base + 2) as nat), detailed));
}

/// Appends the constructors section listing the constructors `cs`.
fn write_constructors(cs: &Vec<&JavaConstructor>, level: usize, base: usize, detailed: bool, out: &mut String)
    requires
        base <= 4,
    ensures
        final(out)@ == old(out)@ + constructors_section(cs@.map_values(|r: &JavaConstructor| *r),
            hashes((level + base + 1) as nat), hashes((level + base + 2) as nat), detailed),
{
    reveal(constructors_section);
    let ghost vs = cs@.map_values(|r: &JavaConstructor| *r);
    if cs.len() == 0 {
        return;
    }
    let ghost start = out@;
    write_hashes(level, base + 1, out);
    out.append(" Constructors\n\n");
    let ghost head = out@;
    let ghost ih = hashes((level + base + 2) as nat);
    let n = cs.len();
    for i in 0..n
        invariant
            n == cs@.len(),
            base <= 4,
            ih == hashes((level + base + 2) as nat),
            vs == cs@.map_values(|r: &JavaConstructor| *r),
            out@ == head + constructor_entries(vs.take(i as int), ih, detailed),
    {
        write_constructor(cs[i], level, base, detailed, out);
        proof {
            let tk = vs.take(i + 1);
            assert(tk.drop_last() == vs.take(i as int));
            assert(tk.last() == *cs@[i as int]);
            assert(out@ =~= head + constructor_entries(tk, ih, detailed));
        }
    }
    assert(vs.take(n as int) == vs);
    assert(out@ =~= start + constructors_section(vs, hashes((level + base + 1) as nat), ih, detailed));
}

/// Appends one method entry.
fn write_method(m: &JavaMethod, level: usize, base: usize, detailed: bool, out: &mut String)
    requires
        base <= 4,
    ensures
        final(out)@ == old(out)@ + method_entry(*m, hashes((level + base + 2) as nat), detailed),
{
    let ghost start = out@;
    write_hashes(level, base + 2, out);
    out.append(" `");
    out.append(m.name.as_str());
    out.append("`\n\n");
    write_doc_paragraph(&m.documentation, out);
    let lines = method_meta(m, detailed);
    write_member_meta_block(&lines, out);
    assert(out@ =~= start + method_entry(*m, hashes((level + base + 2) as nat), detailed));
}

/// Appends the methods section listing the methods `ms`.
fn write_methods(ms: &Vec<&JavaMethod>, level: usize, base: usize, detailed: bool, out: &mut String)
    requires
        base <= 4,
    ensures
        final(out)@ == old(out)@ + methods_section(ms@.map_values(|r: &JavaMethod| *r),
            hashes((level + base + 1) as nat), hashes((level + base + 2) as nat), detailed),
{
    reveal(methods_section);
    let ghost vs = ms@.map_values(|r: &JavaMethod| *r);
    if ms.len() == 0 {
        return;
    }
    let ghost start = out@;
    write_hashes(level, base + 1, out);
    out.append(" Methods\n\n");
    let ghost head = out@;
    let ghost ih = hashes((level + base + 2) as nat);
    let n = ms.len();
    for i in 0..n
        invariant
            n == ms@.len(),
            base <= 4,
            ih == hashes((level + base + 2) as nat),
            vs == ms@.map_values(|r: &JavaMethod| *r),
            out@ == head + method_entries(vs.take(i as int), ih, detailed),
    {
        write_method(ms[i], level, base, detailed, out);
        proof {
            let tk = vs.take(i + 1);
            assert(tk.drop_last() == vs.take(i as int));
            assert(tk.last() == *ms@[i as int]);
            assert(out@ =~= head + method_entries(tk, ih, detailed));
        }
    }
    assert(vs.take(n as int) == vs);
    assert(out@ =~= start + methods_section(vs, hashes((level + base + 1) as nat), ih, detailed));
}

/// Appends `- `item`` lines.
fn write_bullets(items: &Vec<String>, out: &mut String)
    ensures
        final(out)@ == old(out)@ + bullet_items(texts(items@)),
{
    let ghost start = out@;
    let n = items.len();
    for i in 0..n
        invariant
            n == items@.len(),
            out@ == start + bullet_items(texts(items@).take(i as int)),
    {
        out.append("- `");
        out.append(items[i].as_str());
        out.append("`\n");
        proof {
            let tk = texts(items@).take(i + 1);
            assert(tk.drop_last() == texts(items@).take(i as int));
            assert(tk.last() == items@[i as int]@);
            assert(out@ =~= start + bullet_items(tk));
        }
    }
    assert(texts(items@).take(n as int) == texts(items@));
}

/// Appends the enum constants section.
fn write_constants(cs: &Vec<String>, level: usize, base: usize, out: &mut String)
    requires
        base <= 4,
    ensures
        final(out)@ == old(out)@ + constants_section(texts(cs@), hashes((level + base + 1) as nat)),
{
    reveal(constants_section);
    if cs.len() == 0 {
        return;
    }
    let ghost start = out@;
    write_hashes(level, base + 1, out);
    out.append(" Constants\n\n");
    write_bullets(cs, out);
    out.append("\n");
    assert(out@ =~= start + constants_section(texts(cs@), hashes((level + base + 1) as nat)));
}

/// Appends the record components section.
fn write_components(cs: &Vec<JavaArgument>, level: usize, base: usize, out: &mut String)
    requires
        base <= 4,
    ensures
        final(out)@ == old(out)@ + components_section(cs@, hashes((level + base + 1) as nat)),
{
    reveal(components_section);
    if cs.len() == 0 {
        return;
    }
    let ghost start = out@;
    write_hashes(level, base + 1, out);
    out.append(" Components\n\n");
    out.append("| Annotations | Type | Name |\n");
    out.append("| --- | --- | --- |\n");
    let ghost head = out@;
    let n = cs.len();
    for i in 0..n
        invariant
            n == cs@.len(),
            out@ == head + component_rows(cs@.take(i as int)),
    {
        let c = &cs[i];
        let ghost before = out@;
        out.append("| `");
        write_annotations(&c.annotations, out);
        out.append("` | `");
        write_type_ref(&c.ty, out);
        out.append("` | `");
        out.append(c.name.as_str());
        out.append("` |\n");
        proof {
            let tk = cs@.take(i + 1);
            assert(tk.drop_last() == cs@.take(i as int));
            assert(tk.last() == *c);
            assert(out@ =~= before + component_row(*c));
        }
    }
    assert(cs@.take(n as int) == cs@);
    out.append("\n");
    assert(out@ =~= start + components_section(cs@, hashes((level + base + 1) as nat)));
}

/// Appends one annotation element entry.
fn write_element(e: &JavaAnnotationElement, level: usize, base: usize, out: &mut String)
    requires
        base <= 4,
    ensures
        final(out)@ == old(out)@ + element_entry(*e, hashes((level + base + 2) as nat)),
{
    let ghost start = out@;
    write_hashes(level, base + 2, out);
    out.append(" `");
    out.append(e.name.as_str());
    out.append("`\n\n");
    write_doc_paragraph(&e.documentation, out);
    let ghost mid = out@;
    if e.annotations.len() > 0 {
        out.append("- **Annotations:** `");
        write_annotations(&e.annotations, out);
        out.append("`\n");
    }
    let ghost mid2 = out@;
    assert(mid2 =~= mid + (if e.annotations@.len() > 0 {
            "- **Annotations:** `"@ + annotations_text(e.annotations@) + "`\n"@
        } else {
            Seq::empty()
        }));
    out.append("- **Returns:** `");
    write_type_ref(&e.return_type, out);
    out.append("`\n\n");
    assert(out@ =~= start + element_entry(*e, hashes((level + base + 2) as nat)));
}

/// Appends the annotation elements section.
fn write_elements(es: &Vec<JavaAnnotationElement>, level: usize, base: usize, out: &mut String)
    requires
        base <= 4,
    ensures
        final(out)@ == old(out)@ + elements_section(es@, hashes((level + base + 1) as nat),
            hashes((level + base + 2) as nat)),
{
    reveal(elements_section);
    if es.len() == 0 {
        return;
    }
    let ghost start = out@;
    write_hashes(level, base + 1, out);
    out.append(" Elements\n\n");
    let ghost head = out@;
    let ghost ih = hashes((level + base + 2) as nat);
    let n = es.len();
    for i in 0..n
        invariant
            n == es@.len(),
            base <= 4,
            ih == hashes((level + base + 2) as nat),
            out@ == head + element_entries(es@.take(i as int), ih),
    {
        write_element(&es[i], level, base, out);
        proof {
            let tk = es@.take(i + 1);
            assert(tk.drop_last() == es@.take(i as int));
            assert(tk.last() == es@[i as int]);
            assert(out@ =~= head + element_entries(tk, ih));
        }
    }
    assert(es@.take(n as int) == es@);
    assert(out@ =~= start + elements_section(es@, hashes((level + base + 1) as nat), ih));
}

/// Appends the Markdown of one type and, recursively, of its nested types.
pub fn write_type(ty: &JavaType, level: usize, base: usize, detailed: bool, out: &mut String)
    requires
        base <= 4,
    ensures
        final(out)@ == old(out)@ + type_markdown(*ty, level as nat, base as nat, detailed),
    decreases ty, 1nat,
{
    let ghost start = out@;
    write_type_heading(ty, level, base, out);
    let ghost p1 = out@;
    write_type_members(ty, level, base, detailed, out);
    let ghost p2 = out@;
    proof { assert(decreases_to!(*ty => ty.nested_types@)); }
    write_types(&ty.nested_types, deeper_level(level), base, detailed, out);
    assert(out@ =~= start + type_markdown(*ty, level as nat, base as nat, detailed));
}

/// Appends the heading line of a type.
fn write_type_heading(ty: &JavaType, level: usize, base: usize, out: &mut String)
    requires
        base <= 4,
    ensures
        final(out)@ == old(out)@ + type_heading(*ty, level as nat, base as nat),
{
    reveal(type_heading);
    let ghost start = out@;
    write_hashes(level, base, out);
    out.append(" ");
    match ty.kind {
        TypeKind::Class => out.append("Class"),
        TypeKind::Interface => out.append("Interface"),
        TypeKind::Enum => out.append("Enum"),
        TypeKind::Record => out.append("Record"),
        TypeKind::Annotation => out.append("Annotation"),
    }
    out.append(" `");
    out.append(ty.name.as_str());
    out.append("`\n\n");
    assert(out@ =~= start + type_heading(*ty, level as nat, base as nat));
}

/// Appends the description, metadata and member sections of a type.
fn write_type_members(ty: &JavaType, level: usize, base: usize, detailed: bool, out: &mut String)
    requires
        base <= 4,
    ensures
        final(out)@ == old(out)@ + type_members(*ty, level as nat, base as nat, detailed),
{
    reveal(type_members);
    let ghost start = out@;
    write_doc_paragraph(&ty.documentation, out);
    write_type_meta(ty, detailed, out);
    write_fields(ty, level, base, out);
    let constructors = kept_constructor_refs(&ty.constructors);
    write_constructors(&constructors, level, base, detailed, out);
    let methods = kept_method_refs(ty);
    write_methods(&methods, level, base, detailed, out);
    write_constants(&ty.enum_constants, level, base, out);
    write_components(&ty.record_components, level, base, out);
    write_elements(&ty.annotation_elements, level, base, out);
    assert(out@ =~= start + type_members(*ty, level as nat, base as nat, detailed));
}

/// Appends the Markdown of a list of types at the same depth.
pub fn write_types(tys: &Vec<JavaType>, level: usize, base: usize, detailed: bool, out: &mut String)
    requires
        base <= 4,
    ensures
        final(out)@ == old(out)@ + types_markdown(tys@, level as nat, base as nat, detailed),
    decreases tys@, 0nat,
{
    let ghost start = out@;
    let n = tys.len();
    for i in 0..n
        invariant
            n == tys@.len(),
            base <= 4,
            out@ == start + types_markdown(tys@.take(i as int), level as nat, base as nat, detailed),
    {
        proof { assert(decreases_to!(tys@ => tys@[i as int])); }
        write_type(&tys[i], level, base, detailed, out);
        proof {
            let tk = tys@.take(i + 1);
            assert(tk.drop_last() == tys@.take(i as int));
            assert(tk.last() == tys@[i as int]);
            assert(out@ =~= start + types_markdown(tk, level as nat, base as nat, detailed));
        }
    }
    assert(tys@.take(n as int) == tys@);
}

// ---------------------------------------------------------------------------
// Whole files.
// ---------------------------------------------------------------------------

/// `**Package:** `pkg`` followed by a blank line (`_default_` without a package).
pub open spec fn package_line(f: JavaFile) -> Seq<char> {
    "**Package:** `"@ + (match f.package {
        Some(p) => p@,
        None => "_default_"@,
    }) + "`\n\n"@
}

/// A file's package line and types; types start at depth zero with `base`
/// hashes. Imports are left out of Markdown.
pub open spec fn file_body_markdown(f: JavaFile, base: nat, detailed: bool) -> Seq<char> {
    package_line(f) + types_markdown(f.types@, 0, base, detailed)
}

/// The Markdown document of one parsed file.
pub open spec fn file_markdown(f: JavaFile) -> Seq<char> {
    "# Java Atlas\n\n"@ + file_body_markdown(f, 2, false)
}

/// Markdown leaves imports out: two files that differ only in their
/// imports render alike.
pub proof fn lemma_markdown_ignores_imports(f: JavaFile, g: JavaFile, base: nat, detailed: bool)
    requires
        f.package == g.package,
        f.types == g.types,
    ensures
        file_body_markdown(f, base, detailed) == file_body_markdown(g, base, detailed),
        file_markdown(f) == file_markdown(g),
{
}

/// Appends a file's package line and types.
pub fn write_file_body(file: &JavaFile, base: usize, detailed: bool, out: &mut String)
    requires
        base <= 4,
    ensures
        final(out)@ == old(out)@ + file_body_markdown(*file, base as nat, detailed),
{
    let ghost start = out@;
    out.append("**Package:** `");
    match &file.package {
        Some(p) => out.append(p.as_str()),
        None => out.append("_default_"),
    }
    out.append("`\n\n");
    assert(out@ =~= start + package_line(*file));
    write_types(&file.types, 0, base, detailed, out);
    assert(out@ =~= start + file_body_markdown(*file, base as nat, detailed));
}

/// Renders a parsed Java file model as Markdown.
pub fn render_markdown(file: &JavaFile) -> (r: Result<String, JavaAstError>)
    ensures
        r matches Ok(s) && s@ == file_markdown(*file),
{
    let mut out = String::new();
    out.append("# Java Atlas\n\n");
    write_file_body(file, 2, false, &mut out);
    Ok(out)
}

} // verus!
