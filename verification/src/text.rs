//! Character-level string helpers shared by the parser, resolver and renderers.

use vstd::prelude::*;

verus! {

/// Appends one character to a `String` (`String::push`).
#[verifier::external_body]
pub(crate) fn push_char(s: &mut String, c: char)
    ensures
        final(s)@ == old(s)@.push(c),
{
    s.push(c);
}

/// The characters of `s`, in order.
pub fn chars_of(s: &str) -> (v: Vec<char>)
    ensures
        v@ == s@,
{
    let mut v: Vec<char> = Vec::new();
    for c in it: s.chars()
        invariant
            v@ == it.seq().take(it.index() as int),
            it.seq() == s@,
    {
        v.push(c);
    }
    v
}

} // verus!

verus! {

/// A `String` holding exactly the characters of `v`.
pub fn string_of(v: &Vec<char>) -> (s: String)
    ensures
        s@ == v@,
{
    let mut s = String::new();
    for i in 0..v.len()
        invariant
            s@ == v@.take(i as int),
    {
        push_char(&mut s, v[i]);
        assert(v@.take(i + 1) == v@.take(i as int).push(v@[i as int]));
    }
    assert(v@.take(v@.len() as int) == v@);
    s
}

/// Whether two strings hold the same characters.
pub fn str_eq(a: &str, b: &str) -> (r: bool)
    ensures
        r == (a@ == b@),
{
    a.to_owned() == b.to_owned()
}

/// A copy of `s`.
pub fn copy_string(s: &String) -> (r: String)
    ensures
        r@ == s@,
{
    s.clone()
}

/// `a`, a dot, then `b`.
pub open spec fn dotted(a: Seq<char>, b: Seq<char>) -> Seq<char> {
    a + seq!['.'] + b
}

/// `a` followed by a dot and `b`.
pub fn join_dotted(a: &str, b: &str) -> (r: String)
    ensures
        r@ == dotted(a@, b@),
{
    let mut r = a.to_owned();
    push_char(&mut r, '.');
    r.append(b);
    r
}

/// The part of `s` after its last dot (all of `s` when it has no dot).
pub open spec fn last_segment(s: Seq<char>) -> Seq<char>
    decreases s.len(),
{
    if s.len() == 0 {
        s
    } else if s.last() == '.' {
        Seq::empty()
    } else {
        last_segment(s.drop_last()).push(s.last())
    }
}

/// The part of `s` after its last dot (`rsplit('.').next()`).
pub fn last_segment_of(s: &str) -> (r: String)
    ensures
        r@ == last_segment(s@),
{
    let cs = chars_of(s);
    let mut start: usize = cs.len();
    assert(cs@.take(start as int) == cs@);
    assert(cs@.skip(start as int) == Seq::<char>::empty());
    while start > 0 && cs[start - 1] != '.'
        invariant
            start <= cs@.len(),
            cs@ == s@,
            last_segment(s@) == last_segment(cs@.take(start as int)) + cs@.skip(start as int),
        decreases start,
    {
        assert(cs@.take(start as int).drop_last() == cs@.take(start - 1));
        assert(cs@.skip(start - 1) == seq![cs@[start - 1]] + cs@.skip(start as int));
        assert(cs@.take(start as int).last() == cs@[start - 1]);
        assert(last_segment(cs@.take(start as int)) == last_segment(cs@.take(start - 1)).push(cs@[start - 1]));
        assert(last_segment(cs@.take(start - 1)).push(cs@[start - 1]) + cs@.skip(start as int)
            == last_segment(cs@.take(start - 1)) + cs@.skip(start - 1));
        start = start - 1;
    }
    let mut tail: Vec<char> = Vec::new();
    let mut i = start;
    while i < cs.len()
        invariant
            start <= i <= cs@.len(),
            tail@ == cs@.subrange(start as int, i as int),
        decreases cs@.len() - i,
    {
        tail.push(cs[i]);
        assert(cs@.subrange(start as int, i + 1) == cs@.subrange(start as int, i as int).push(cs@[i as int]));
        i = i + 1;
    }
    assert(last_segment(cs@.take(start as int)) == Seq::<char>::empty()) by {
        if start > 0 {
            assert(cs@.take(start as int).last() == '.');
        }
    }
    assert(cs@.skip(start as int) == cs@.subrange(start as int, cs@.len() as int));
    string_of(&tail)
}

} // verus!

verus! {

/// The uppercase mapping of a character, as `char::to_uppercase` yields it
/// (one or more characters, per the Unicode case tables).
pub uninterp spec fn char_uppercase(c: char) -> Seq<char>;

/// The uppercase mapping of `c` (`char::to_uppercase`, collected). Of
/// ASCII characters the contract states what std documents: `a` to `z` map
/// to `A` to `Z`, and every other ASCII character has no uppercase mapping,
/// so it maps to itself. Other characters follow the Unicode tables, which
/// are named, not stated.
#[verifier::external_body]
pub(crate) fn uppercase_of(c: char) -> (s: String)
    ensures
        s@ == char_uppercase(c),
        ('a' <= c && c <= 'z') ==> s@ == seq![((c as u32) - 32) as char],
        ((c as u32) < 128 && !('a' <= c && c <= 'z')) ==> s@ == seq![c],
{
    c.to_uppercase().collect()
}

/// Appends the characters `v[from..]` to `out`.
pub fn append_chars_from(out: &mut String, v: &Vec<char>, from: usize)
    requires
        from <= v@.len(),
    ensures
        final(out)@ == old(out)@ + v@.skip(from as int),
{
    let ghost start = out@;
    let mut i = from;
    while i < v.len()
        invariant
            from <= i <= v@.len(),
            out@ == start + v@.subrange(from as int, i as int),
        decreases v@.len() - i,
    {
        push_char(out, v[i]);
        assert(v@.subrange(from as int, i + 1) == v@.subrange(from as int, i as int).push(v@[i as int]));
        i = i + 1;
    }
    assert(v@.subrange(from as int, v@.len() as int) == v@.skip(from as int));
}

} // verus!

verus! {

/// Whether `c` has the Unicode White_Space property (what
/// `char::is_whitespace` tests): tab through carriage return, space, next
/// line, no-break space, Ogham space mark, the spaces U+2000 to U+200A, line
/// and paragraph separators, narrow no-break space, medium mathematical space
/// and ideographic space.
pub open spec fn is_whitespace_char(c: char) -> bool {
    let u = c as u32;
    ||| 0x9 <= u <= 0xD
    ||| u == 0x20
    ||| u == 0x85
    ||| u == 0xA0
    ||| u == 0x1680
    ||| 0x2000 <= u <= 0x200A
    ||| u == 0x2028
    ||| u == 0x2029
    ||| u == 0x202F
    ||| u == 0x205F
    ||| u == 0x3000
}

/// Whether `c` has the Unicode White_Space property.
pub(crate) fn char_is_whitespace(c: char) -> (r: bool)
    ensures
        r == is_whitespace_char(c),
{
    let u = c as u32;
    (0x9 <= u && u <= 0xD) || u == 0x20 || u == 0x85 || u == 0xA0 || u == 0x1680 || (0x2000 <= u && u <= 0x200A)
        || u == 0x2028 || u == 0x2029 || u == 0x202F || u == 0x205F || u == 0x3000
}

/// `s` without its leading whitespace.
pub open spec fn trim_start_spec(s: Seq<char>) -> Seq<char>
    decreases s.len(),
{
    if s.len() > 0 && is_whitespace_char(s[0]) {
        trim_start_spec(s.drop_first())
    } else {
        s
    }
}

/// `s` without its trailing whitespace.
pub open spec fn trim_end_spec(s: Seq<char>) -> Seq<char>
    decreases s.len(),
{
    if s.len() > 0 && is_whitespace_char(s.last()) {
        trim_end_spec(s.drop_last())
    } else {
        s
    }
}

/// `s` without leading and trailing whitespace (`str::trim`).
pub open spec fn trim_spec(s: Seq<char>) -> Seq<char> {
    trim_end_spec(trim_start_spec(s))
}

/// `s` without leading and trailing whitespace.
pub fn trim(s: &str) -> (r: String)
    ensures
        r@ == trim_spec(s@),
{
    let cs = chars_of(s);
    let mut start: usize = 0;
    assert(cs@.skip(0) == cs@);
    while start < cs.len() && char_is_whitespace(cs[start])
        invariant
            start <= cs@.len(),
            cs@ == s@,
            trim_start_spec(s@) == trim_start_spec(cs@.skip(start as int)),
        decreases cs@.len() - start,
    {
        assert(cs@.skip(start as int).drop_first() == cs@.skip(start + 1));
        start = start + 1;
    }
    let mut end: usize = cs.len();
    assert(cs@.subrange(start as int, end as int) == cs@.skip(start as int));
    while end > start && char_is_whitespace(cs[end - 1])
        invariant
            start <= end <= cs@.len(),
            cs@ == s@,
            trim_start_spec(s@) == cs@.skip(start as int),
            trim_spec(s@) == trim_end_spec(cs@.subrange(start as int, end as int)),
        decreases end - start,
    {
        assert(cs@.subrange(start as int, end as int).drop_last() == cs@.subrange(start as int, end - 1));
        end = end - 1;
    }
    let mut out: Vec<char> = Vec::new();
    let mut i = start;
    while i < end
        invariant
            start <= i <= end <= cs@.len(),
            out@ == cs@.subrange(start as int, i as int),
        decreases end - i,
    {
        out.push(cs[i]);
        assert(cs@.subrange(start as int, i + 1) == cs@.subrange(start as int, i as int).push(cs@[i as int]));
        i = i + 1;
    }
    string_of(&out)
}

} // verus!

verus! {

/// `s` split at every `sep` (always at least one, possibly empty, piece).
pub open spec fn split_on(s: Seq<char>, sep: char) -> Seq<Seq<char>>
    decreases s.len(),
{
    if s.len() == 0 {
        seq![Seq::empty()]
    } else {
        let p = split_on(s.drop_last(), sep);
        if s.last() == sep {
            p.push(Seq::empty())
        } else {
            p.update(p.len() - 1, p.last().push(s.last()))
        }
    }
}

/// Splits a string at every occurrence of `sep`.
pub fn split_chars(s: &str, sep: char) -> (r: Vec<Vec<char>>)
    ensures
        r@.map_values(|v: Vec<char>| v@) == split_on(s@, sep),
        r@.len() >= 1,
{
    let cs = chars_of(s);
    let mut segs: Vec<Vec<char>> = Vec::new();
    let mut cur: Vec<char> = Vec::new();
    let n = cs.len();
    for i in 0..n
        invariant
            n == cs@.len(),
            cs@ == s@,
            segs@.map_values(|v: Vec<char>| v@).push(cur@) == split_on(cs@.take(i as int), sep),
    {
        let ghost prev = segs@.map_values(|v: Vec<char>| v@);
        let ghost prev_cur = cur@;
        proof {
            let t = cs@.take(i + 1);
            assert(t.drop_last() == cs@.take(i as int));
            assert(t.last() == cs@[i as int]);
        }
        if cs[i] == sep {
            let mut done: Vec<char> = Vec::new();
            std::mem::swap(&mut done, &mut cur);
            segs.push(done);
            assert(segs@.map_values(|v: Vec<char>| v@) =~= prev.push(prev_cur));
            assert(segs@.map_values(|v: Vec<char>| v@).push(cur@) =~= prev.push(prev_cur).push(Seq::empty()));
        } else {
            cur.push(cs[i]);
            assert(segs@.map_values(|v: Vec<char>| v@).push(cur@) =~= prev.push(prev_cur).update(prev.len() as int, prev_cur.push(cs@[i as int])));
        }
    }
    assert(cs@.take(n as int) == cs@);
    let ghost prev = segs@.map_values(|v: Vec<char>| v@);
    segs.push(cur);
    assert(segs@.map_values(|v: Vec<char>| v@) =~= prev.push(segs@.last()@));
    segs
}

} // verus!
