//! Compact JSON Lines layout: where each package's shard goes, how file
//! paths are shortened, what each file record keeps, and how records are
//! grouped into package shards.

use vstd::prelude::*;

use super::compact::{
    accessor_labels_spec, field_accessor_labels, kept_constructor_refs, kept_constructors, kept_method_refs,
    kept_methods, label_texts,
};
use super::FileOutput;
use crate::java_ast::model::{JavaConstructor, JavaFile, JavaMethod, JavaType};
use crate::text::{chars_of, copy_string, split_chars, split_on, str_eq, string_of};

verus! {

// ---------------------------------------------------------------------------
// Paths.
// ---------------------------------------------------------------------------

/// `s` split at every `/` (always at least one, possibly empty, segment).
pub open spec fn split_slash(s: Seq<char>) -> Seq<Seq<char>> {
    split_on(s, '/')
}

/// A path segment that `Path::components` reports as a normal component
/// (not empty, not `.` and not `..`).
pub open spec fn is_normal_segment(seg: Seq<char>) -> bool {
    seg.len() > 0 && seg != "."@ && seg != ".."@
}

/// A segment with every backslash turned into a forward slash.
pub open spec fn forward_slashes(seg: Seq<char>) -> Seq<char> {
    seg.map_values(|c: char| if c == '\\' { '/' } else { c })
}

/// The normal components of a `/`-separated path, backslashes turned into
/// forward slashes.
pub open spec fn normal_parts(segs: Seq<Seq<char>>) -> Seq<Seq<char>>
    decreases segs.len(),
{
    if segs.len() == 0 {
        Seq::empty()
    } else if is_normal_segment(segs.last()) {
        normal_parts(segs.drop_last()).push(forward_slashes(segs.last()))
    } else {
        normal_parts(segs.drop_last())
    }
}

/// The last component of a path that is not empty or `.` (the component
/// `Path::file_name` looks at), if any.
pub open spec fn last_named_segment(segs: Seq<Seq<char>>) -> Option<Seq<char>>
    decreases segs.len(),
{
    if segs.len() == 0 {
        None
    } else if segs.last().len() > 0 && segs.last() != "."@ {
        Some(segs.last())
    } else {
        last_named_segment(segs.drop_last())
    }
}

/// The file name of a path (`Path::file_name`, backslashes turned into
/// slashes), or the whole path when it has none.
pub open spec fn file_name_spec(path: Seq<char>) -> Seq<char> {
    match last_named_segment(split_slash(path)) {
        Some(seg) => if seg != ".."@ { forward_slashes(seg) } else { forward_slashes(path) },
        None => forward_slashes(path),
    }
}

/// The index of the first window of `parts` equal to `pkg`, searching from `from`.
pub open spec fn first_window(parts: Seq<Seq<char>>, pkg: Seq<Seq<char>>, from: int) -> Option<int>
    decreases parts.len() - from,
{
    if from < 0 || from >= parts.len() || from + pkg.len() > parts.len() {
        None
    } else if parts.subrange(from, from + pkg.len()) == pkg {
        Some(from)
    } else {
        first_window(parts, pkg, from + 1)
    }
}

/// Segments separated by `sep`.
pub open spec fn join_with(items: Seq<Seq<char>>, sep: Seq<char>) -> Seq<char>
    decreases items.len(),
{
    if items.len() == 0 {
        Seq::empty()
    } else if items.len() == 1 {
        items[0]
    } else {
        join_with(items.drop_last(), sep) + sep + items.last()
    }
}

/// `s` split at every `.`.
pub open spec fn split_dot(s: Seq<char>) -> Seq<Seq<char>> {
    split_on(s, '.')
}

/// The path below the package directories: the components after the first
/// run of components spelling the package, joined with `/`; none when the
/// package does not occur or nothing follows it.
pub open spec fn path_relative_to_package_spec(path: Seq<char>, package: Seq<char>) -> Option<Seq<char>> {
    let parts = normal_parts(split_slash(path));
    let pkg = split_dot(package);
    if parts.len() <= pkg.len() {
        None
    } else {
        match first_window(parts, pkg, 0) {
            Some(i) => if i + pkg.len() < parts.len() {
                Some(join_with(parts.skip(i + pkg.len()), "/"@))
            } else {
                None
            },
            None => None,
        }
    }
}

/// The path a record shows: the file name in the default package, else the
/// path below the package directories, falling back to the file name.
pub open spec fn short_file_path_spec(path: Seq<char>, package: Seq<char>) -> Seq<char> {
    if package == "_default_"@ {
        file_name_spec(path)
    } else {
        match path_relative_to_package_spec(path, package) {
            Some(r) => r,
            None => file_name_spec(path),
        }
    }
}

/// The package a file's record belongs to (`_default_` without a package).
pub open spec fn package_name_spec(f: JavaFile) -> Seq<char> {
    match f.package {
        Some(p) => if p@.len() > 0 { p@ } else { "_default_"@ },
        None => "_default_"@,
    }
}

/// The non-empty segments of a list.
pub open spec fn non_empty(segs: Seq<Seq<char>>) -> Seq<Seq<char>>
    decreases segs.len(),
{
    if segs.len() == 0 {
        Seq::empty()
    } else if segs.last().len() > 0 {
        non_empty(segs.drop_last()).push(segs.last())
    } else {
        non_empty(segs.drop_last())
    }
}

/// Where a package's shard is written: the package's segments as
/// directories, with a `.jsonl` file for the last one.
pub open spec fn package_jsonl_path_spec(package: Seq<char>) -> Seq<char> {
    if package == "_default_"@ {
        "_default_.jsonl"@
    } else {
        let dirs = non_empty(split_dot(package));
        if dirs.len() == 0 {
            Seq::empty()
        } else {
            join_with(dirs, "/"@) + ".jsonl"@
        }
    }
}

/// Whether the characters `v` spell `lit`.
fn chars_eq(v: &Vec<char>, lit: &str) -> (r: bool)
    ensures
        r == (v@ == lit@),
{
    let s = string_of(v);
    str_eq(s.as_str(), lit)
}

/// A segment with backslashes turned into forward slashes, as a string.
fn forward_slash_string(seg: &Vec<char>) -> (r: String)
    ensures
        r@ == forward_slashes(seg@),
{
    let mut out: Vec<char> = Vec::new();
    let n = seg.len();
    for i in 0..n
        invariant
            n == seg@.len(),
            out@ == forward_slashes(seg@.take(i as int)),
    {
        let c = seg[i];
        out.push(if c == '\\' { '/' } else { c });
        assert(out@ =~= forward_slashes(seg@.take(i + 1)));
    }
    assert(seg@.take(n as int) == seg@);
    string_of(&out)
}

/// The texts of a list of strings.
pub open spec fn texts_of(v: Seq<String>) -> Seq<Seq<char>> {
    v.map_values(|s: String| s@)
}

/// The normal components of a path, backslashes turned into forward slashes.
fn normal_path_parts(path: &str) -> (r: Vec<String>)
    ensures
        texts_of(r@) == normal_parts(split_slash(path@)),
{
    let segs = split_chars(path, '/');
    let ghost all = segs@.map_values(|v: Vec<char>| v@);
    let mut parts: Vec<String> = Vec::new();
    let n = segs.len();
    for i in 0..n
        invariant
            n == segs@.len(),
            all == segs@.map_values(|v: Vec<char>| v@),
            texts_of(parts@) == normal_parts(all.take(i as int)),
    {
        let seg = &segs[i];
        proof {
            let t = all.take(i + 1);
            assert(t.drop_last() == all.take(i as int));
            assert(t.last() == seg@);
        }
        if seg.len() > 0 && !chars_eq(seg, ".") && !chars_eq(seg, "..") {
            let ghost before = parts@;
            parts.push(forward_slash_string(seg));
            assert(texts_of(parts@) =~= texts_of(before).push(forward_slashes(seg@)));
        }
    }
    assert(all.take(n as int) == all);
    parts
}

/// The file name of a path (backslashes turned into slashes), or the whole
/// path when it has no file name.
pub fn file_name(path: &str) -> (r: String)
    ensures
        r@ == file_name_spec(path@),
{
    let segs = split_chars(path, '/');
    let ghost all = segs@.map_values(|v: Vec<char>| v@);
    let mut k = segs.len();
    assert(all.take(k as int) == all);
    while k > 0
        invariant
            k <= segs@.len(),
            all == segs@.map_values(|v: Vec<char>| v@),
            all == split_slash(path@),
            last_named_segment(all) == last_named_segment(all.take(k as int)),
        decreases k,
    {
        let seg = &segs[k - 1];
        proof {
            let t = all.take(k as int);
            assert(t.drop_last() == all.take(k - 1));
            assert(t.last() == seg@);
        }
        if seg.len() > 0 && !chars_eq(seg, ".") {
            if chars_eq(seg, "..") {
                let whole = chars_of(path);
                return forward_slash_string(&whole);
            }
            return forward_slash_string(seg);
        }
        k = k - 1;
    }
    let whole = chars_of(path);
    forward_slash_string(&whole)
}

/// Strings separated by `sep`.
fn join_strings(items: &Vec<String>, sep: &str) -> (r: String)
    ensures
        r@ == join_with(texts_of(items@), sep@),
{
    let mut out = String::new();
    let n = items.len();
    for i in 0..n
        invariant
            n == items@.len(),
            out@ == join_with(texts_of(items@).take(i as int), sep@),
    {
        if i > 0 {
            out.append(sep);
        }
        out.append(items[i].as_str());
        proof {
            let t = texts_of(items@).take(i + 1);
            assert(t.drop_last() == texts_of(items@).take(i as int));
            assert(t.last() == items@[i as int]@);
        }
    }
    assert(texts_of(items@).take(n as int) == texts_of(items@));
    out
}

/// The path below the package directories, if the package occurs in the
/// path and something follows it.
fn path_relative_to_package(path: &str, package: &str) -> (r: Option<String>)
    ensures
        opt_texts(r) == path_relative_to_package_spec(path@, package@),
{
    let parts = normal_path_parts(path);
    let pkg_chars = split_chars(package, '.');
    let mut pkg: Vec<String> = Vec::new();
    let m = pkg_chars.len();
    for j in 0..m
        invariant
            m == pkg_chars@.len(),
            texts_of(pkg@) == pkg_chars@.map_values(|v: Vec<char>| v@).take(j as int),
    {
        let ghost before = pkg@;
        pkg.push(string_of(&pkg_chars[j]));
        assert(texts_of(pkg@) =~= texts_of(before).push(pkg_chars@[j as int]@));
        assert(pkg_chars@.map_values(|v: Vec<char>| v@).take(j + 1) =~= pkg_chars@.map_values(|v: Vec<char>| v@).take(j as int).push(pkg_chars@[j as int]@));
    }
    assert(pkg_chars@.map_values(|v: Vec<char>| v@).take(m as int) == pkg_chars@.map_values(|v: Vec<char>| v@));
    let ghost ps = texts_of(parts@);
    let ghost pk = texts_of(pkg@);
    if parts.len() <= pkg.len() {
        return None;
    }
    let plen = pkg.len();
    let mut start: usize = 0;
    while start < parts.len()
        invariant
            start <= parts@.len(),
            plen == pkg@.len() >= 1,
            ps == texts_of(parts@),
            pk == texts_of(pkg@),
            parts@.len() > plen,
            ps == normal_parts(split_slash(path@)),
            pk == split_dot(package@),
            first_window(ps, pk, 0) == first_window(ps, pk, start as int),
        decreases parts@.len() - start,
    {
        if parts.len() - start < plen {
            return None;
        }
        let mut matches = true;
        let mut k: usize = 0;
        while k < plen
            invariant
                k <= plen,
                start + plen <= parts@.len(),
                parts@.len() <= usize::MAX,
                plen == pkg@.len(),
                matches == (forall|q: int| 0 <= q < k ==> parts@[start + q]@ == pkg@[q]@),
            decreases plen - k,
        {
            if parts[start + k] != pkg[k] {
                matches = false;
            }
            k = k + 1;
        }
        if matches {
            assert(ps.subrange(start as int, start + pk.len()) =~= pk);
            if start + plen < parts.len() {
                let mut rest: Vec<String> = Vec::new();
                let mut q = start + plen;
                while q < parts.len()
                    invariant
                        start + plen <= q <= parts@.len(),
                        ps == texts_of(parts@),
                        texts_of(rest@) == ps.subrange(start + plen, q as int),
                    decreases parts@.len() - q,
                {
                    let ghost before = rest@;
                    rest.push(copy_string(&parts[q]));
                    assert(texts_of(rest@) =~= texts_of(before).push(ps[q as int]));
                    assert(ps.subrange(start + plen, q + 1) =~= ps.subrange(start + plen, q as int).push(ps[q as int]));
                    q = q + 1;
                }
                assert(ps.subrange(start + plen, ps.len() as int) == ps.skip(start + plen));
                return Some(join_strings(&rest, "/"));
            }
            return None;
        } else {
            assert(ps.subrange(start as int, start + pk.len()) != pk) by {
                let q = choose|q: int| 0 <= q < plen && !(parts@[start + q]@ == pkg@[q]@);
                assert(ps.subrange(start as int, start + pk.len())[q] != pk[q]);
            }
        }
        start = start + 1;
    }
    None
}

/// The text of an optional string.
pub open spec fn opt_texts(o: Option<String>) -> Option<Seq<char>> {
    match o {
        Some(s) => Some(s@),
        None => None,
    }
}

/// The path a record shows for a file of `package`.
pub fn short_file_path(path: &str, package: &str) -> (r: String)
    ensures
        r@ == short_file_path_spec(path@, package@),
{
    if str_eq(package, "_default_") {
        return file_name(path);
    }
    match path_relative_to_package(path, package) {
        Some(relative) => relative,
        None => file_name(path),
    }
}

/// The package a file's record belongs to.
pub fn package_name(file: &JavaFile) -> (r: String)
    ensures
        r@ == package_name_spec(*file),
{
    match &file.package {
        Some(p) => if p.as_str().is_empty() {
            "_default_".to_owned()
        } else {
            copy_string(p)
        },
        None => "_default_".to_owned(),
    }
}

/// Where a package's JSONL shard is written, relative to the shard root.
pub fn package_jsonl_path(package: &str) -> (r: String)
    ensures
        r@ == package_jsonl_path_spec(package@),
{
    if str_eq(package, "_default_") {
        return "_default_.jsonl".to_owned();
    }
    let segs = split_chars(package, '.');
    let ghost all = segs@.map_values(|v: Vec<char>| v@);
    let mut dirs: Vec<String> = Vec::new();
    let n = segs.len();
    for i in 0..n
        invariant
            n == segs@.len(),
            all == segs@.map_values(|v: Vec<char>| v@),
            texts_of(dirs@) == non_empty(all.take(i as int)),
    {
        proof {
            let t = all.take(i + 1);
            assert(t.drop_last() == all.take(i as int));
            assert(t.last() == segs@[i as int]@);
        }
        if segs[i].len() > 0 {
            let ghost before = dirs@;
            dirs.push(string_of(&segs[i]));
            assert(texts_of(dirs@) =~= texts_of(before).push(segs@[i as int]@));
        }
    }
    assert(all.take(n as int) == all);
    if dirs.len() == 0 {
        return String::new();
    }
    let mut out = join_strings(&dirs, "/");
    out.append(".jsonl");
    out
}

// ---------------------------------------------------------------------------
// Compact file records.
// ---------------------------------------------------------------------------

/// A type as a JSONL record shows it: standard accessor methods are folded
/// into accessor labels on their fields, plain no-argument constructors are
/// left out, and nested types are compacted the same way.
pub struct CompactType<'a> {
    pub ty: &'a JavaType,
    pub field_accessors: Vec<Vec<&'static str>>,
    pub constructors: Vec<&'a JavaConstructor>,
    pub methods: Vec<&'a JavaMethod>,
    pub nested_types: Vec<CompactType<'a>>,
}

/// One file as a JSONL record shows it.
pub struct JsonlRecord<'a> {
    pub path: String,
    pub package: String,
    pub imports: &'a Vec<String>,
    pub types: Vec<CompactType<'a>>,
}

/// `c` is the compact form of `ty`.
pub open spec fn compacts(c: CompactType, ty: JavaType) -> bool
    decreases ty,
{
    &&& *c.ty == ty
    &&& c.field_accessors@.len() == ty.fields@.len()
    &&& forall|i: int| 0 <= i < ty.fields@.len()
        ==> label_texts(#[trigger] c.field_accessors@[i]@) == accessor_labels_spec(ty, ty.fields@[i])
    &&& c.constructors@.map_values(|r: &JavaConstructor| *r) == kept_constructors(ty.constructors@)
    &&& c.methods@.map_values(|r: &JavaMethod| *r) == kept_methods(ty.methods@, ty)
    &&& c.nested_types@.len() == ty.nested_types@.len()
    &&& forall|i: int| 0 <= i < ty.nested_types@.len() ==> compacts(#[trigger] c.nested_types@[i], ty.nested_types@[i])
}

/// The compact form of one type.
pub fn compact_type<'a>(ty: &'a JavaType) -> (c: CompactType<'a>)
    ensures
        compacts(c, *ty),
    decreases ty, 1nat,
{
    let mut field_accessors: Vec<Vec<&'static str>> = Vec::new();
    let nf = ty.fields.len();
    for i in 0..nf
        invariant
            nf == ty.fields@.len(),
            field_accessors@.len() == i,
            forall|k: int| 0 <= k < i
                ==> label_texts(#[trigger] field_accessors@[k]@) == accessor_labels_spec(*ty, ty.fields@[k]),
    {
        field_accessors.push(field_accessor_labels(ty, &ty.fields[i]));
    }
    let constructors = kept_constructor_refs(&ty.constructors);
    let methods = kept_method_refs(ty);
    proof { assert(decreases_to!(*ty => ty.nested_types@)); }
    let nested_types = compact_types(&ty.nested_types);
    CompactType { ty, field_accessors, constructors, methods, nested_types }
}

/// The compact forms of a list of types.
pub fn compact_types<'a>(tys: &'a Vec<JavaType>) -> (cs: Vec<CompactType<'a>>)
    ensures
        cs@.len() == tys@.len(),
        forall|i: int| 0 <= i < tys@.len() ==> compacts(#[trigger] cs@[i], tys@[i]),
    decreases tys@, 0nat,
{
    let mut cs: Vec<CompactType<'a>> = Vec::new();
    let n = tys.len();
    for i in 0..n
        invariant
            n == tys@.len(),
            cs@.len() == i,
            forall|k: int| 0 <= k < i ==> compacts(#[trigger] cs@[k], tys@[k]),
    {
        proof { assert(decreases_to!(tys@ => tys@[i as int])); }
        cs.push(compact_type(&tys[i]));
    }
    cs
}

/// The JSONL record of one file: its shortened path, its package, its
/// imports and its compacted types.
pub fn file_record<'a>(file: &FileOutput<'a>) -> (r: JsonlRecord<'a>)
    ensures
        r.package@ == package_name_spec(*file.ast),
        r.path@ == short_file_path_spec(file.path@, package_name_spec(*file.ast)),
        *r.imports == file.ast.imports,
        r.types@.len() == file.ast.types@.len(),
        forall|i: int| 0 <= i < file.ast.types@.len() ==> compacts(#[trigger] r.types@[i], file.ast.types@[i]),
{
    let package = package_name(file.ast);
    let path = short_file_path(file.path, package.as_str());
    let types = compact_types(&file.ast.types);
    JsonlRecord { path, package, imports: &file.ast.imports, types }
}

// ---------------------------------------------------------------------------
// Package shards.
// ---------------------------------------------------------------------------

/// Whether `a` sorts strictly before `b`: a proper prefix, or smaller at
/// the first character where they differ (the order of Rust strings).
pub open spec fn lex_lt(a: Seq<char>, b: Seq<char>) -> bool
    decreases a.len(),
{
    if a.len() == 0 {
        b.len() > 0
    } else if b.len() == 0 {
        false
    } else if a[0] != b[0] {
        a[0] < b[0]
    } else {
        lex_lt(a.drop_first(), b.drop_first())
    }
}

/// Adds one line of package `p` to the shards `gs`: appended to the
/// package's shard, or as a new shard placed before the first package that
/// sorts after `p`.
pub open spec fn insert_line(gs: Seq<(Seq<char>, Seq<char>)>, p: Seq<char>, l: Seq<char>) -> Seq<(Seq<char>, Seq<char>)>
    decreases gs.len(),
{
    if gs.len() == 0 {
        seq![(p, l)]
    } else if gs[0].0 == p {
        gs.update(0, (p, gs[0].1 + l))
    } else if lex_lt(p, gs[0].0) {
        seq![(p, l)] + gs
    } else {
        seq![gs[0]] + insert_line(gs.drop_first(), p, l)
    }
}

/// The shards that (package, line) entries make, in order.
pub open spec fn group_lines(entries: Seq<(Seq<char>, Seq<char>)>) -> Seq<(Seq<char>, Seq<char>)>
    decreases entries.len(),
{
    if entries.len() == 0 {
        Seq::empty()
    } else {
        insert_line(group_lines(entries.drop_last()), entries.last().0, entries.last().1)
    }
}

/// The views of (package, contents) pairs.
pub open spec fn string_pairs(v: Seq<(String, String)>) -> Seq<(Seq<char>, Seq<char>)> {
    v.map_values(|p: (String, String)| (p.0@, p.1@))
}

/// Whether `a` sorts strictly before `b`.
fn str_lt(a: &String, b: &String) -> (r: bool)
    ensures
        r == lex_lt(a@, b@),
{
    let x = chars_of(a.as_str());
    let y = chars_of(b.as_str());
    let mut i: usize = 0;
    assert(x@.skip(0) == x@ && y@.skip(0) == y@);
    while i < x.len() && i < y.len() && x[i] == y[i]
        invariant
            i <= x@.len(),
            i <= y@.len(),
            x@ == a@,
            y@ == b@,
            lex_lt(a@, b@) == lex_lt(x@.skip(i as int), y@.skip(i as int)),
        decreases x@.len() - i,
    {
        assert(x@.skip(i as int).drop_first() == x@.skip(i + 1));
        assert(y@.skip(i as int).drop_first() == y@.skip(i + 1));
        i = i + 1;
    }
    if i == x.len() {
        i < y.len()
    } else if i == y.len() {
        false
    } else {
        x[i] < y[i]
    }
}

/// Adds one line of package `p` to the shards.
fn add_line(groups: &mut Vec<(String, String)>, p: String, l: &String)
    ensures
        string_pairs(final(groups)@) == insert_line(string_pairs(old(groups)@), p@, l@),
{
    let ghost gs = string_pairs(groups@);
    let n = groups.len();
    let mut k: usize = 0;
    assert(gs.take(0) + gs.skip(0) == gs);
    while k < n
        invariant
            n == groups@.len(),
            k <= n,
            gs == string_pairs(groups@),
            gs == string_pairs(old(groups)@),
            insert_line(gs, p@, l@) == gs.take(k as int) + insert_line(gs.skip(k as int), p@, l@),
        decreases n - k,
    {
        let ghost rest = gs.skip(k as int);
        assert(rest.len() > 0);
        assert(rest[0] == gs[k as int]);
        assert(gs[k as int].0 == groups@[k as int].0@);
        assert(rest.drop_first() == gs.skip(k + 1));
        if str_eq(groups[k].0.as_str(), p.as_str()) {
            let (name, mut contents) = groups.remove(k);
            contents.append(l.as_str());
            groups.insert(k, (name, contents));
            assert(insert_line(rest, p@, l@) == rest.update(0, (p@, rest[0].1 + l@)));
            assert(string_pairs(groups@) =~= gs.take(k as int) + rest.update(0, (p@, rest[0].1 + l@)));
            return;
        }
        if str_lt(&p, &groups[k].0) {
            groups.insert(k, (p, copy_string(l)));
            assert(insert_line(rest, p@, l@) == seq![(p@, l@)] + rest);
            assert(string_pairs(groups@) =~= gs.take(k as int) + (seq![(p@, l@)] + rest));
            return;
        }
        assert(gs.take(k as int) + (seq![rest[0]] + insert_line(rest.drop_first(), p@, l@))
            == gs.take(k + 1) + insert_line(gs.skip(k + 1), p@, l@));
        k = k + 1;
    }
    assert(gs.skip(n as int) == Seq::<(Seq<char>, Seq<char>)>::empty());
    assert(gs.take(n as int) == gs);
    groups.push((p, copy_string(l)));
    assert(string_pairs(groups@) =~= gs.push((p@, l@)));
}

/// The (package, line) entries of a file set whose records were encoded as
/// `lines`, one per file.
pub open spec fn jsonl_entries(files: Seq<FileOutput>, lines: Seq<String>) -> Seq<(Seq<char>, Seq<char>)> {
    Seq::new(files.len(), |i: int| (package_name_spec(*files[i].ast), lines[i]@))
}

/// Groups the encoded records into one shard per package, in package
/// order: the `_default_` package for files without one, contents the
/// package's lines in file order.
pub fn group_packages(files: &[FileOutput<'_>], lines: &Vec<String>) -> (r: Vec<(String, String)>)
    requires
        lines@.len() == files@.len(),
    ensures
        string_pairs(r@) == group_lines(jsonl_entries(files@, lines@)),
{
    let ghost entries = jsonl_entries(files@, lines@);
    let mut groups: Vec<(String, String)> = Vec::new();
    let n = files.len();
    for i in 0..n
        invariant
            n == files@.len(),
            lines@.len() == n,
            entries == jsonl_entries(files@, lines@),
            string_pairs(groups@) == group_lines(entries.take(i as int)),
    {
        let p = package_name(files[i].ast);
        add_line(&mut groups, p, &lines[i]);
        proof {
            let t = entries.take(i + 1);
            assert(t.drop_last() == entries.take(i as int));
            assert(t.last() == entries[i as int]);
        }
    }
    assert(entries.take(n as int) == entries);
    groups
}

// ---------------------------------------------------------------------------
// What the shards hold.
// ---------------------------------------------------------------------------

/// No string sorts before itself.
pub proof fn lemma_lex_lt_irreflexive(a: Seq<char>)
    ensures
        !lex_lt(a, a),
    decreases a.len(),
{
    if a.len() > 0 {
        lemma_lex_lt_irreflexive(a.drop_first());
    }
}

/// The string order is transitive.
pub proof fn lemma_lex_lt_transitive(a: Seq<char>, b: Seq<char>, c: Seq<char>)
    requires
        lex_lt(a, b),
        lex_lt(b, c),
    ensures
        lex_lt(a, c),
    decreases a.len(),
{
    if a.len() > 0 && b.len() > 0 && c.len() > 0 && a[0] == b[0] && b[0] == c[0] {
        lemma_lex_lt_transitive(a.drop_first(), b.drop_first(), c.drop_first());
    }
}

/// Of two different strings, one sorts before the other.
pub proof fn lemma_lex_lt_total(a: Seq<char>, b: Seq<char>)
    requires
        a != b,
    ensures
        lex_lt(a, b) || lex_lt(b, a),
    decreases a.len(),
{
    if a.len() > 0 && b.len() > 0 && a[0] == b[0] {
        assert(a =~= seq![a[0]] + a.drop_first());
        assert(b =~= seq![b[0]] + b.drop_first());
        lemma_lex_lt_total(a.drop_first(), b.drop_first());
    } else if a.len() == 0 && b.len() == 0 {
        assert(a =~= b);
    } else if a.len() > 0 && b.len() > 0 {
        assert(a[0] != b[0]);
    }
}

/// Whether the shards' packages are in strictly increasing order.
pub open spec fn sorted_packages(gs: Seq<(Seq<char>, Seq<char>)>) -> bool {
    forall|i: int, j: int| 0 <= i < j < gs.len() ==> lex_lt(#[trigger] gs[i].0, #[trigger] gs[j].0)
}

/// The contents of the first shard of package `q`, if there is one.
pub open spec fn lookup(gs: Seq<(Seq<char>, Seq<char>)>, q: Seq<char>) -> Option<Seq<char>>
    decreases gs.len(),
{
    if gs.len() == 0 {
        None
    } else if gs[0].0 == q {
        Some(gs[0].1)
    } else {
        lookup(gs.drop_first(), q)
    }
}

/// Whether some entry belongs to package `q`.
pub open spec fn has_package(entries: Seq<(Seq<char>, Seq<char>)>, q: Seq<char>) -> bool {
    exists|i: int| 0 <= i < entries.len() && (#[trigger] entries[i]).0 == q
}

/// The lines of the entries of package `q`, in order.
pub open spec fn lines_of(entries: Seq<(Seq<char>, Seq<char>)>, q: Seq<char>) -> Seq<char>
    decreases entries.len(),
{
    if entries.len() == 0 {
        Seq::empty()
    } else {
        lines_of(entries.drop_last(), q) + if entries.last().0 == q { entries.last().1 } else { Seq::empty() }
    }
}

proof fn lemma_insert_keys(gs: Seq<(Seq<char>, Seq<char>)>, p: Seq<char>, l: Seq<char>)
    ensures
        forall|k: int| 0 <= k < insert_line(gs, p, l).len() ==> {
            ||| (#[trigger] insert_line(gs, p, l)[k]).0 == p
            ||| exists|m: int| 0 <= m < gs.len() && gs[m].0 == insert_line(gs, p, l)[k].0
        },
    decreases gs.len(),
{
    let r = insert_line(gs, p, l);
    if gs.len() > 0 && gs[0].0 != p && !lex_lt(p, gs[0].0) {
        let rest = gs.drop_first();
        lemma_insert_keys(rest, p, l);
        assert forall|k: int| 0 <= k < r.len() implies {
            ||| (#[trigger] r[k]).0 == p
            ||| exists|m: int| 0 <= m < gs.len() && gs[m].0 == r[k].0
        } by {
            if k == 0 {
                assert(gs[0].0 == r[k].0);
            } else {
                assert(r[k] == insert_line(rest, p, l)[k - 1]);
                if insert_line(rest, p, l)[k - 1].0 != p {
                    let m = choose|m: int| 0 <= m < rest.len() && rest[m].0 == insert_line(rest, p, l)[k - 1].0;
                    assert(gs[m + 1].0 == r[k].0);
                }
            }
        }
    } else if gs.len() > 0 && gs[0].0 != p {
        assert forall|k: int| 0 <= k < r.len() implies {
            ||| (#[trigger] r[k]).0 == p
            ||| exists|m: int| 0 <= m < gs.len() && gs[m].0 == r[k].0
        } by {
            if k > 0 {
                assert(gs[k - 1].0 == r[k].0);
            }
        }
    } else if gs.len() > 0 {
        assert forall|k: int| 0 <= k < r.len() implies {
            ||| (#[trigger] r[k]).0 == p
            ||| exists|m: int| 0 <= m < gs.len() && gs[m].0 == r[k].0
        } by {
            assert(gs[k].0 == r[k].0);
        }
    }
}

proof fn lemma_insert_sorted(gs: Seq<(Seq<char>, Seq<char>)>, p: Seq<char>, l: Seq<char>)
    requires
        sorted_packages(gs),
    ensures
        sorted_packages(insert_line(gs, p, l)),
    decreases gs.len(),
{
    let r = insert_line(gs, p, l);
    if gs.len() == 0 {
    } else if gs[0].0 == p {
        assert forall|i: int, j: int| 0 <= i < j < r.len() implies lex_lt(#[trigger] r[i].0, #[trigger] r[j].0) by {
            assert(r[i].0 == gs[i].0 && r[j].0 == gs[j].0);
        }
    } else if lex_lt(p, gs[0].0) {
        assert forall|i: int, j: int| 0 <= i < j < r.len() implies lex_lt(#[trigger] r[i].0, #[trigger] r[j].0) by {
            if i == 0 {
                if j > 1 {
                    lemma_lex_lt_transitive(p, gs[0].0, gs[j - 1].0);
                }
            } else {
                assert(r[i] == gs[i - 1] && r[j] == gs[j - 1]);
            }
        }
    } else {
        let rest = gs.drop_first();
        lemma_lex_lt_total(p, gs[0].0);
        assert(sorted_packages(rest)) by {
            assert forall|i: int, j: int| 0 <= i < j < rest.len() implies lex_lt(#[trigger] rest[i].0, #[trigger] rest[j].0) by {
                assert(rest[i] == gs[i + 1] && rest[j] == gs[j + 1]);
            }
        }
        lemma_insert_sorted(rest, p, l);
        lemma_insert_keys(rest, p, l);
        let ir = insert_line(rest, p, l);
        assert forall|i: int, j: int| 0 <= i < j < r.len() implies lex_lt(#[trigger] r[i].0, #[trigger] r[j].0) by {
            if i == 0 {
                assert(r[j] == ir[j - 1]);
                if ir[j - 1].0 != p {
                    let m = choose|m: int| 0 <= m < rest.len() && rest[m].0 == ir[j - 1].0;
                    assert(rest[m] == gs[m + 1]);
                }
            } else {
                assert(r[i] == ir[i - 1] && r[j] == ir[j - 1]);
            }
        }
    }
}

proof fn lemma_insert_lookup(gs: Seq<(Seq<char>, Seq<char>)>, p: Seq<char>, l: Seq<char>, q: Seq<char>)
    requires
        sorted_packages(gs),
    ensures
        lookup(insert_line(gs, p, l), q) == if q == p {
            Some(match lookup(gs, p) {
                Some(c) => c,
                None => Seq::empty(),
            } + l)
        } else {
            lookup(gs, q)
        },
    decreases gs.len(),
{
    let r = insert_line(gs, p, l);
    let before = match lookup(gs, p) {
        Some(c) => c,
        None => Seq::<char>::empty(),
    };
    let expected = if q == p { Some(before + l) } else { lookup(gs, q) };
    if gs.len() == 0 {
        assert(r == seq![(p, l)]);
        assert(r.drop_first() =~= Seq::<(Seq<char>, Seq<char>)>::empty());
        assert(Seq::<char>::empty() + l =~= l);
        assert(lookup(gs, p) is None && lookup(gs, q) is None);
        if q == p {
            assert(lookup(r, q) == Some(l));
        } else {
            assert(lookup(r.drop_first(), q) is None);
        }
        assert(lookup(r, q) == expected);
    } else if gs[0].0 == p {
        assert(r == gs.update(0, (p, gs[0].1 + l)));
        assert(r[0] == (p, gs[0].1 + l));
        assert(before == gs[0].1);
        if q != p {
            assert(r.drop_first() =~= gs.drop_first());
        }
        assert(lookup(r, q) == expected);
    } else if lex_lt(p, gs[0].0) {
        assert(r == seq![(p, l)] + gs);
        assert(r[0] == (p, l));
        assert(r.drop_first() =~= gs);
        if q == p {
            lemma_lookup_absent(gs, p);
            assert(Seq::<char>::empty() + l =~= l);
        }
        assert(lookup(r, q) == expected);
    } else {
        let rest = gs.drop_first();
        assert(sorted_packages(rest)) by {
            assert forall|i: int, j: int| 0 <= i < j < rest.len() implies lex_lt(#[trigger] rest[i].0, #[trigger] rest[j].0) by {
                assert(rest[i] == gs[i + 1] && rest[j] == gs[j + 1]);
            }
        }
        lemma_insert_lookup(rest, p, l, q);
        assert(r == seq![gs[0]] + insert_line(rest, p, l));
        assert(r[0] == gs[0]);
        assert(r.drop_first() =~= insert_line(rest, p, l));
        assert(lookup(gs, p) == lookup(rest, p));
        assert(lookup(r, q) == expected);
    }
}

proof fn lemma_lookup_absent(gs: Seq<(Seq<char>, Seq<char>)>, p: Seq<char>)
    requires
        sorted_packages(gs),
        gs.len() > 0,
        lex_lt(p, gs[0].0),
    ensures
        lookup(gs, p) is None,
    decreases gs.len(),
{
    lemma_lex_lt_irreflexive(p);
    assert(gs[0].0 != p);
    let rest = gs.drop_first();
    assert(lookup(gs, p) == lookup(rest, p));
    if rest.len() > 0 {
        assert(sorted_packages(rest)) by {
            assert forall|i: int, j: int| 0 <= i < j < rest.len() implies lex_lt(#[trigger] rest[i].0, #[trigger] rest[j].0) by {
                assert(rest[i] == gs[i + 1] && rest[j] == gs[j + 1]);
            }
        }
        assert(rest[0] == gs[1]);
        lemma_lex_lt_transitive(p, gs[0].0, gs[1].0);
        lemma_lookup_absent(rest, p);
    }
}

/// The shards are in strictly increasing package order, so no package has
/// two shards.
pub proof fn lemma_shards_sorted(entries: Seq<(Seq<char>, Seq<char>)>)
    ensures
        sorted_packages(group_lines(entries)),
    decreases entries.len(),
{
    if entries.len() > 0 {
        lemma_shards_sorted(entries.drop_last());
        lemma_insert_sorted(group_lines(entries.drop_last()), entries.last().0, entries.last().1);
    }
}

/// There is a shard for exactly the packages that occur, and a package's
/// shard holds the lines of that package's entries, in entry order.
pub proof fn lemma_shard_contents(entries: Seq<(Seq<char>, Seq<char>)>, q: Seq<char>)
    ensures
        lookup(group_lines(entries), q) == if has_package(entries, q) {
            Some(lines_of(entries, q))
        } else {
            None::<Seq<char>>
        },
    decreases entries.len(),
{
    if entries.len() > 0 {
        let prev = entries.drop_last();
        let x = entries.last();
        lemma_shard_contents(prev, q);
        lemma_shards_sorted(prev);
        lemma_insert_lookup(group_lines(prev), x.0, x.1, q);
        if has_package(prev, q) {
            let i = choose|i: int| 0 <= i < prev.len() && (#[trigger] prev[i]).0 == q;
            assert(entries[i] == prev[i]);
        }
        if has_package(entries, q) && x.0 != q {
            let i = choose|i: int| 0 <= i < entries.len() && (#[trigger] entries[i]).0 == q;
            assert(prev[i] == entries[i]);
        }
        if x.0 == q {
            assert(entries[entries.len() - 1].0 == q);
            if !has_package(prev, q) {
                lemma_lines_of_absent(prev, q);
                assert(Seq::<char>::empty() + x.1 =~= x.1);
            }
        } else {
            assert(lines_of(entries, q) =~= lines_of(prev, q));
        }
    }
}

proof fn lemma_lines_of_absent(entries: Seq<(Seq<char>, Seq<char>)>, q: Seq<char>)
    requires
        !has_package(entries, q),
    ensures
        lines_of(entries, q) == Seq::<char>::empty(),
    decreases entries.len(),
{
    if entries.len() > 0 {
        let prev = entries.drop_last();
        assert(!has_package(prev, q)) by {
            if has_package(prev, q) {
                let i = choose|i: int| 0 <= i < prev.len() && (#[trigger] prev[i]).0 == q;
                assert(entries[i] == prev[i]);
            }
        }
        lemma_lines_of_absent(prev, q);
        assert(entries[entries.len() - 1] == entries.last());
        assert(lines_of(entries, q) =~= Seq::<char>::empty());
    }
}

} // verus!
