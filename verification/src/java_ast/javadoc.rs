//! Javadoc comments: a description followed by block tags.
//!
//! The comment's lines lose their surrounding whitespace and one leading
//! `*`. Non-empty lines before the first tag make up the description, joined
//! with single spaces. A line starting with `@` opens a tag: its name is the
//! word after `@`, its text the rest of the line; non-empty lines after it
//! continue that tag's text, again joined with single spaces.

use vstd::prelude::*;

use super::model::{JavaDoc, JavaDocTag};
use crate::text::{chars_of, char_is_whitespace, is_whitespace_char, split_chars, split_on, string_of, trim, trim_spec};

verus! {

/// Whether a comment is a Javadoc comment: it opens with `/**` and is not
/// the empty block comment `/**/`.
pub open spec fn is_javadoc(c: Seq<char>) -> bool {
    c.len() >= 3 && c.take(3) == "/**"@ && c != "/**/"@
}

/// The comment without its opening `/**` and its closing `*/`.
pub open spec fn javadoc_body(c: Seq<char>) -> Seq<char> {
    let inner = c.skip(3);
    if inner.len() >= 2 && inner[inner.len() - 2] == '*' && inner[inner.len() - 1] == '/' {
        inner.take(inner.len() - 2)
    } else {
        inner
    }
}

/// A comment line without surrounding whitespace and without one leading `*`.
pub open spec fn clean_line(line: Seq<char>) -> Seq<char> {
    let t = trim_spec(line);
    if t.len() > 0 && t[0] == '*' {
        trim_spec(t.skip(1))
    } else {
        t
    }
}

/// The leading run of non-whitespace characters of `s`.
pub open spec fn leading_word(s: Seq<char>) -> Seq<char>
    decreases s.len(),
{
    if s.len() == 0 || is_whitespace_char(s[0]) {
        Seq::empty()
    } else {
        seq![s[0]] + leading_word(s.drop_first())
    }
}

/// `acc` continued by `l`, with a space between when `acc` is not empty.
pub open spec fn append_text(acc: Seq<char>, l: Seq<char>) -> Seq<char> {
    if acc.len() == 0 {
        l
    } else {
        acc + seq![' '] + l
    }
}

/// What has been read of a Javadoc comment: the description and the tags
/// (name, text) so far.
pub struct DocState {
    pub description: Seq<char>,
    pub tags: Seq<(Seq<char>, Seq<char>)>,
}

/// Reads one cleaned line.
pub open spec fn doc_step(st: DocState, l: Seq<char>) -> DocState {
    if l.len() == 0 {
        st
    } else if l[0] == '@' {
        let after = l.drop_first();
        let name = leading_word(after);
        DocState { description: st.description, tags: st.tags.push((name, trim_spec(after.skip(name.len() as int)))) }
    } else if st.tags.len() == 0 {
        DocState { description: append_text(st.description, l), tags: st.tags }
    } else {
        let last = st.tags.last();
        DocState { description: st.description, tags: st.tags.update(st.tags.len() - 1, (last.0, append_text(last.1, l))) }
    }
}

/// Reads the lines in order.
pub open spec fn doc_run(lines: Seq<Seq<char>>) -> DocState
    decreases lines.len(),
{
    if lines.len() == 0 {
        DocState { description: Seq::empty(), tags: Seq::empty() }
    } else {
        doc_step(doc_run(lines.drop_last()), clean_line(lines.last()))
    }
}

/// The description and tags of a Javadoc comment.
pub open spec fn javadoc_of(c: Seq<char>) -> DocState {
    doc_run(split_on(javadoc_body(c), '\n'))
}

/// Whether `d` holds exactly the description and tags `st`.
pub open spec fn doc_matches(d: JavaDoc, st: DocState) -> bool {
    &&& d.description@ == st.description
    &&& d.tags@.len() == st.tags.len()
    &&& forall|k: int| 0 <= k < st.tags.len() ==> {
        &&& (#[trigger] d.tags@[k]).name@ == st.tags[k].0
        &&& d.tags@[k].text@ == st.tags[k].1
    }
}

/// The views of (name, text) pairs.
pub open spec fn pair_views(v: Seq<(Vec<char>, Vec<char>)>) -> Seq<(Seq<char>, Seq<char>)> {
    v.map_values(|p: (Vec<char>, Vec<char>)| (p.0@, p.1@))
}

/// A line without surrounding whitespace and one leading `*`.
fn clean_comment_line(line: &Vec<char>) -> (r: Vec<char>)
    ensures
        r@ == clean_line(line@),
{
    let s = string_of(line);
    let t = chars_of(trim(s.as_str()).as_str());
    if t.len() > 0 && t[0] == '*' {
        let mut rest: Vec<char> = Vec::new();
        let mut i: usize = 1;
        while i < t.len()
            invariant
                1 <= i <= t@.len(),
                rest@ == t@.subrange(1, i as int),
            decreases t@.len() - i,
        {
            rest.push(t[i]);
            assert(t@.subrange(1, i + 1) == t@.subrange(1, i as int).push(t@[i as int]));
            i = i + 1;
        }
        assert(rest@ == t@.skip(1));
        chars_of(trim(string_of(&rest).as_str()).as_str())
    } else {
        t
    }
}

/// `acc` continued by `l`, with a space between when `acc` is not empty.
fn append_line(acc: &mut Vec<char>, l: &Vec<char>)
    ensures
        final(acc)@ == append_text(old(acc)@, l@),
{
    if acc.len() > 0 {
        acc.push(' ');
    }
    let ghost start = acc@;
    let n = l.len();
    for i in 0..n
        invariant
            n == l@.len(),
            acc@ == start + l@.take(i as int),
    {
        acc.push(l[i]);
        assert(l@.take(i + 1) == l@.take(i as int).push(l@[i as int]));
    }
    assert(l@.take(n as int) == l@);
}

/// Splits a tag line (without its `@`) into the tag's name and text.
fn split_tag(after: &Vec<char>) -> (r: (Vec<char>, Vec<char>))
    ensures
        r.0@ == leading_word(after@),
        r.1@ == trim_spec(after@.skip(leading_word(after@).len() as int)),
{
    let mut k: usize = 0;
    let mut name: Vec<char> = Vec::new();
    assert(after@.skip(0) == after@);
    assert(name@ + leading_word(after@) == leading_word(after@));
    while k < after.len() && !char_is_whitespace(after[k])
        invariant
            k <= after@.len(),
            name@ == after@.take(k as int),
            leading_word(after@) == name@ + leading_word(after@.skip(k as int)),
        decreases after@.len() - k,
    {
        assert(after@.skip(k as int).drop_first() == after@.skip(k + 1));
        name.push(after[k]);
        assert(after@.take(k + 1) == after@.take(k as int).push(after@[k as int]));
        k = k + 1;
    }
    assert(leading_word(after@.skip(k as int)) == Seq::<char>::empty());
    assert(name@ + Seq::<char>::empty() == name@);
    let mut rest: Vec<char> = Vec::new();
    let mut i = k;
    while i < after.len()
        invariant
            k <= i <= after@.len(),
            rest@ == after@.subrange(k as int, i as int),
        decreases after@.len() - i,
    {
        rest.push(after[i]);
        assert(after@.subrange(k as int, i + 1) == after@.subrange(k as int, i as int).push(after@[i as int]));
        i = i + 1;
    }
    assert(rest@ == after@.skip(k as int));
    let text = chars_of(trim(string_of(&rest).as_str()).as_str());
    (name, text)
}

/// The description and tags of a Javadoc comment.
pub fn parse_javadoc(comment: &str) -> (d: JavaDoc)
    requires
        is_javadoc(comment@),
    ensures
        doc_matches(d, javadoc_of(comment@)),
{
    let cs = chars_of(comment);
    let n = cs.len();
    let stop: usize = if n >= 5 && cs[n - 2] == '*' && cs[n - 1] == '/' { n - 2 } else { n };
    let mut body: Vec<char> = Vec::new();
    let mut i: usize = 3;
    while i < stop
        invariant
            3 <= i <= stop <= n,
            n == cs@.len(),
            body@ == cs@.subrange(3, i as int),
        decreases stop - i,
    {
        body.push(cs[i]);
        assert(cs@.subrange(3, i + 1) == cs@.subrange(3, i as int).push(cs@[i as int]));
        i = i + 1;
    }
    assert(body@ == javadoc_body(comment@));
    let lines = split_chars(string_of(&body).as_str(), '\n');
    let ghost all = lines@.map_values(|v: Vec<char>| v@);
    let mut description: Vec<char> = Vec::new();
    let mut tags: Vec<(Vec<char>, Vec<char>)> = Vec::new();
    let count = lines.len();
    for k in 0..count
        invariant
            count == lines@.len(),
            all == lines@.map_values(|v: Vec<char>| v@),
            all == split_on(javadoc_body(comment@), '\n'),
            description@ == doc_run(all.take(k as int)).description,
            pair_views(tags@) == doc_run(all.take(k as int)).tags,
    {
        let ghost st = doc_run(all.take(k as int));
        let ghost before = tags@;
        assert(all.take(k + 1).drop_last() == all.take(k as int));
        let l = clean_comment_line(&lines[k]);
        if l.len() == 0 {
        } else if l[0] == '@' {
            let mut after: Vec<char> = Vec::new();
            let mut j: usize = 1;
            while j < l.len()
                invariant
                    1 <= j <= l@.len(),
                    after@ == l@.subrange(1, j as int),
                decreases l@.len() - j,
            {
                after.push(l[j]);
                assert(l@.subrange(1, j + 1) == l@.subrange(1, j as int).push(l@[j as int]));
                j = j + 1;
            }
            assert(after@ == l@.drop_first());
            let pair = split_tag(&after);
            tags.push(pair);
            assert(pair_views(tags@) =~= pair_views(before).push((pair.0@, pair.1@)));
        } else if tags.len() == 0 {
            append_line(&mut description, &l);
        } else {
            let last = tags.len() - 1;
            let (name, mut text) = tags.remove(last);
            append_line(&mut text, &l);
            tags.push((name, text));
            assert(pair_views(tags@) =~= pair_views(before).update(last as int, (pair_views(before)[last as int].0, append_text(pair_views(before)[last as int].1, l@))));
        }
    }
    assert(all.take(count as int) == all);
    let mut out: Vec<JavaDocTag> = Vec::new();
    let ghost final_tags = pair_views(tags@);
    let m = tags.len();
    for k in 0..m
        invariant
            m == tags@.len(),
            final_tags == pair_views(tags@),
            out@.len() == k,
            forall|q: int| 0 <= q < k ==> {
                &&& (#[trigger] out@[q]).name@ == final_tags[q].0
                &&& out@[q].text@ == final_tags[q].1
            },
    {
        out.push(JavaDocTag { name: string_of(&tags[k].0), text: string_of(&tags[k].1) });
    }
    JavaDoc { description: string_of(&description), tags: out }
}

} // verus!
