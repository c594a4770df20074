//! Markdown validation: every heading is non-empty and no heading is more
//! than one level deeper than the heading before it.

use vstd::prelude::*;

use pulldown_cmark::{Event, Options, Parser, Tag, TagEnd};

use crate::text::{trim, trim_spec};

verus! {

/// Why a Markdown document was rejected.
#[derive(Debug, PartialEq, Eq)]
pub enum MarkdownError {
    EmptyHeading { level: u8 },
    HeadingLevelJump { previous: u8, current: u8, text: String },
    NoHeadings,
    UnmatchedHeadingEnd,
    UnterminatedHeading,
}

/// The parts of the CommonMark event stream that validation reads.
#[derive(Debug)]
pub enum MdEvent {
    /// Start of a heading of the given level (1 to 6).
    HeadingStart(u8),
    /// End of a heading of the given level (1 to 6).
    HeadingEnd(u8),
    /// A text node.
    Text(String),
    /// An inline code node.
    Code(String),
    /// Start of any other element.
    OtherStart,
    /// End of any other element.
    OtherEnd,
    /// Any other event.
    Other,
}

/// The events that CommonMark parsing (with tables enabled) yields for `text`,
/// as `pulldown_cmark` reports them.
pub uninterp spec fn markdown_events(text: Seq<char>) -> Seq<MdEvent>;

/// Parses Markdown with tables enabled (`pulldown_cmark::Parser::new_ext`)
/// and lists its events, keeping heading levels and text.
#[verifier::external_body]
fn parse_markdown_events(markdown: &str) -> (events: Vec<MdEvent>)
    ensures
        events@ == markdown_events(markdown@),
        forall|i: int| 0 <= i < events@.len() ==> match #[trigger] events@[i] {
            MdEvent::HeadingStart(l) => 1 <= l <= 6,
            MdEvent::HeadingEnd(l) => 1 <= l <= 6,
            _ => true,
        },
{
    Parser::new_ext(markdown, Options::ENABLE_TABLES).map(|event| match event {
        Event::Start(Tag::Heading { level, .. }) => MdEvent::HeadingStart(level as u8),
        Event::Start(_) => MdEvent::OtherStart,
        Event::End(TagEnd::Heading(level)) => MdEvent::HeadingEnd(level as u8),
        Event::End(_) => MdEvent::OtherEnd,
        Event::Text(text) => MdEvent::Text(text.to_string()),
        Event::Code(text) => MdEvent::Code(text.to_string()),
        _ => MdEvent::Other,
    }).collect()
}

// ---------------------------------------------------------------------------
// The model of validation: a left fold over the event stream.
// ---------------------------------------------------------------------------

/// Validation state after some events: the heading being read (its start
/// level and text so far), the level of the last completed heading, and the
/// number of completed headings.
pub struct HeadingState {
    pub current: Option<(u8, Seq<char>)>,
    pub previous: Option<u8>,
    pub count: nat,
}

/// The ways validation can fail, mirroring `MarkdownError`.
pub enum HeadingFailure {
    Empty(u8),
    Jump(u8, u8, Seq<char>),
    NoHeadings,
    Unmatched,
    Unterminated,
}

/// The failure an error value reports.
pub open spec fn failure_of(e: MarkdownError) -> HeadingFailure {
    match e {
        MarkdownError::EmptyHeading { level } => HeadingFailure::Empty(level),
        MarkdownError::HeadingLevelJump { previous, current, text } => HeadingFailure::Jump(previous, current, text@),
        MarkdownError::NoHeadings => HeadingFailure::NoHeadings,
        MarkdownError::UnmatchedHeadingEnd => HeadingFailure::Unmatched,
        MarkdownError::UnterminatedHeading => HeadingFailure::Unterminated,
    }
}

/// The state before any event.
pub open spec fn initial_state() -> HeadingState {
    HeadingState { current: None, previous: None, count: 0 }
}

/// The smaller of two levels.
pub open spec fn min_level(a: u8, b: u8) -> u8 {
    if a <= b { a } else { b }
}

/// One validation step. A heading start begins collecting text; text and
/// code inside a heading are collected; a heading end checks that the
/// (trimmed) heading text is not empty and that the heading is at most one
/// level deeper than the previous one.
pub open spec fn heading_step(st: HeadingState, e: MdEvent) -> Result<HeadingState, HeadingFailure> {
    match e {
        MdEvent::HeadingStart(l) => Ok(HeadingState { current: Some((l, Seq::empty())), ..st }),
        MdEvent::Text(t) => Ok(match st.current {
            Some((l, h)) => HeadingState { current: Some((l, h + t@)), ..st },
            None => st,
        }),
        MdEvent::Code(t) => Ok(match st.current {
            Some((l, h)) => HeadingState { current: Some((l, h + t@)), ..st },
            None => st,
        }),
        MdEvent::HeadingEnd(l) => match st.current {
            None => Err(HeadingFailure::Unmatched),
            Some((start, h)) => {
                let level = min_level(l, start);
                let text = trim_spec(h);
                if text.len() == 0 {
                    Err(HeadingFailure::Empty(level))
                } else if st.previous matches Some(p) && level > p + 1 {
                    Err(HeadingFailure::Jump(st.previous->0, level, text))
                } else {
                    Ok(HeadingState { current: None, previous: Some(level), count: st.count + 1 })
                }
            },
        },
        _ => Ok(st),
    }
}

/// The state after all of `events`, or the first failure.
pub open spec fn heading_run(events: Seq<MdEvent>) -> Result<HeadingState, HeadingFailure>
    decreases events.len(),
{
    if events.len() == 0 {
        Ok(initial_state())
    } else {
        match heading_run(events.drop_last()) {
            Ok(st) => heading_step(st, events.last()),
            Err(f) => Err(f),
        }
    }
}

/// The verdict on a whole event stream: the first failure, or else an
/// unterminated heading, or else no headings at all, or else success.
pub open spec fn heading_check(events: Seq<MdEvent>) -> Result<(), HeadingFailure> {
    match heading_run(events) {
        Err(f) => Err(f),
        Ok(st) => if st.current is Some {
            Err(HeadingFailure::Unterminated)
        } else if st.count == 0 {
            Err(HeadingFailure::NoHeadings)
        } else {
            Ok(())
        },
    }
}

proof fn lemma_failure_persists(events: Seq<MdEvent>, k: int)
    requires
        0 <= k <= events.len(),
        heading_run(events.take(k)) is Err,
    ensures
        heading_run(events) == heading_run(events.take(k)),
    decreases events.len() - k,
{
    if k < events.len() {
        let t = events.take(k + 1);
        assert(t.drop_last() == events.take(k));
        lemma_failure_persists(events, k + 1);
    } else {
        assert(events.take(k) == events);
    }
}

/// Whether `evs` is a run of `levels.len()` headings, heading `i` being
/// three events: its start at level `levels[i]`, a text that is not blank,
/// and its end at the same level.
pub open spec fn plain_headings(evs: Seq<MdEvent>, levels: Seq<u8>) -> bool {
    &&& evs.len() == 3 * levels.len()
    &&& forall|i: int| 0 <= i < levels.len() ==> {
        &&& #[trigger] evs[3 * i] == MdEvent::HeadingStart(levels[i])
        &&& evs[3 * i + 1] matches MdEvent::Text(t) && trim_spec(t@).len() > 0
        &&& evs[3 * i + 2] == MdEvent::HeadingEnd(levels[i])
    }
}

/// Whether each level is at most one more than the level before it.
pub open spec fn no_level_jump(levels: Seq<u8>) -> bool {
    forall|i: int| 1 <= i < levels.len() ==> #[trigger] levels[i] <= levels[i - 1] + 1
}

proof fn lemma_plain_headings_prefix(evs: Seq<MdEvent>, levels: Seq<u8>, m: int)
    requires
        plain_headings(evs, levels),
        0 <= m <= levels.len(),
    ensures
        no_level_jump(levels.take(m)) ==> heading_run(evs.take(3 * m)) == Ok::<HeadingState, HeadingFailure>(
            HeadingState { current: None, previous: if m == 0 { None } else { Some(levels[m - 1]) }, count: m as nat }),
        !no_level_jump(levels.take(m)) ==> (heading_run(evs.take(3 * m)) matches Err(HeadingFailure::Jump(p, c, _))
            && c > p + 1),
    decreases m,
{
    if m == 0 {
        assert(evs.take(0) =~= Seq::<MdEvent>::empty());
        assert(no_level_jump(levels.take(0)));
    } else {
        let k = m - 1;
        lemma_plain_headings_prefix(evs, levels, k);
        let e3 = evs.take(3 * m);
        assert(e3.drop_last() =~= evs.take(3 * k + 2));
        assert(evs.take(3 * k + 2).drop_last() =~= evs.take(3 * k + 1));
        assert(evs.take(3 * k + 1).drop_last() =~= evs.take(3 * k));
        assert(evs[3 * k] == MdEvent::HeadingStart(levels[k]));
        let t = evs[3 * k + 1]->Text_0;
        assert(e3.last() == MdEvent::HeadingEnd(levels[k]));
        assert(evs.take(3 * k + 2).last() == evs[3 * k + 1]);
        assert(evs.take(3 * k + 1).last() == evs[3 * k]);
        assert(Seq::<char>::empty() + t@ =~= t@);
        let l = levels[k];
        let r0 = heading_run(evs.take(3 * k));
        let r1 = heading_run(evs.take(3 * k + 1));
        let r2 = heading_run(evs.take(3 * k + 2));
        let r3 = heading_run(e3);
        assert(r1 == match r0 { Ok(st) => heading_step(st, evs[3 * k]), Err(f) => Err(f) });
        assert(r2 == match r1 { Ok(st) => heading_step(st, evs[3 * k + 1]), Err(f) => Err(f) });
        assert(r3 == match r2 { Ok(st) => heading_step(st, MdEvent::HeadingEnd(l)), Err(f) => Err(f) });
        if r0 is Ok {
            let st0 = r0->Ok_0;
            assert(st0.current is None);
            let st1 = HeadingState { current: Some((l, Seq::<char>::empty())), ..st0 };
            assert(r1 == Ok::<HeadingState, HeadingFailure>(st1));
            let st2 = HeadingState { current: Some((l, Seq::<char>::empty() + t@)), ..st0 };
            assert(r2 == Ok::<HeadingState, HeadingFailure>(st2));
            assert(min_level(l, l) == l);
            assert(trim_spec(Seq::<char>::empty() + t@).len() > 0);
            if st0.previous is Some && l > st0.previous->0 + 1 {
                assert(r3 == Err::<HeadingState, HeadingFailure>(
                    HeadingFailure::Jump(st0.previous->0, l, trim_spec(Seq::<char>::empty() + t@))));
            } else {
                assert(r3 == Ok::<HeadingState, HeadingFailure>(HeadingState { current: None, previous: Some(l), count: st0.count + 1 }));
            }
        } else {
            assert(r3 == r0);
        }
        assert forall|i: int| 1 <= i < k implies #[trigger] levels.take(k)[i] == levels.take(m)[i] && levels.take(k)[i - 1] == levels.take(m)[i - 1] by {}
        if no_level_jump(levels.take(k)) {
            if k > 0 && levels[k] > levels[k - 1] + 1 {
                assert(levels.take(m)[k] == levels[k] && levels.take(m)[k - 1] == levels[k - 1]);
                assert(!no_level_jump(levels.take(m)));
            } else {
                assert(no_level_jump(levels.take(m))) by {
                    assert forall|i: int| 1 <= i < m implies #[trigger] levels.take(m)[i] <= levels.take(m)[i - 1] + 1 by {
                        if i < k {
                            assert(levels.take(k)[i] <= levels.take(k)[i - 1] + 1);
                        }
                    }
                }
            }
        } else {
            assert(!no_level_jump(levels.take(m))) by {
                let i = choose|i: int| 1 <= i < k && !(#[trigger] levels.take(k)[i] <= levels.take(k)[i - 1] + 1);
                assert(levels.take(m)[i] == levels.take(k)[i]);
            }
        }
    }
}

/// Validation of a run of headings, each a start, a non-blank text and an
/// end at one level: it passes exactly when no heading is more than one
/// level deeper than the heading before it, and otherwise reports a jump
/// from a level to one more than a level deeper.
pub proof fn lemma_heading_jumps_rejected(evs: Seq<MdEvent>, levels: Seq<u8>)
    requires
        plain_headings(evs, levels),
        levels.len() > 0,
    ensures
        heading_check(evs) is Ok <==> no_level_jump(levels),
        !no_level_jump(levels) ==> (heading_check(evs) matches Err(HeadingFailure::Jump(p, c, _)) && c > p + 1),
{
    lemma_plain_headings_prefix(evs, levels, levels.len() as int);
    assert(evs.take(3 * (levels.len() as int)) =~= evs);
    assert(levels.take(levels.len() as int) =~= levels);
}

/// A heading whose text is blank is rejected as empty, at its level.
pub proof fn lemma_blank_heading_rejected(evs: Seq<MdEvent>, l: u8)
    requires
        evs.len() == 3,
        evs[0] == MdEvent::HeadingStart(l),
        evs[1] matches MdEvent::Text(t) && trim_spec(t@).len() == 0,
        evs[2] == MdEvent::HeadingEnd(l),
    ensures
        heading_check(evs) == Err::<(), HeadingFailure>(HeadingFailure::Empty(l)),
{
    let t = evs[1]->Text_0;
    assert(evs.drop_last() =~= evs.take(2));
    assert(evs.take(2).drop_last() =~= evs.take(1));
    assert(evs.take(1).drop_last() =~= Seq::<MdEvent>::empty());
    assert(Seq::<char>::empty() + t@ =~= t@);
    assert(heading_run(Seq::<MdEvent>::empty()) == Ok::<HeadingState, HeadingFailure>(initial_state()));
    assert(evs.take(1).last() == evs[0]);
    assert(evs.take(2).last() == evs[1]);
    assert(evs.last() == evs[2]);
    assert(heading_run(evs.take(1)) == Ok::<HeadingState, HeadingFailure>(
        HeadingState { current: Some((l, Seq::<char>::empty())), previous: None, count: 0 }));
    assert(heading_run(evs.take(2)) == Ok::<HeadingState, HeadingFailure>(
        HeadingState { current: Some((l, Seq::<char>::empty() + t@)), previous: None, count: 0 }));
}

proof fn lemma_no_heading_events_prefix(evs: Seq<MdEvent>, m: int)
    requires
        0 <= m <= evs.len(),
        forall|i: int| 0 <= i < evs.len() ==> !(#[trigger] evs[i] is HeadingStart) && !(evs[i] is HeadingEnd),
    ensures
        heading_run(evs.take(m)) == Ok::<HeadingState, HeadingFailure>(initial_state()),
    decreases m,
{
    if m == 0 {
        assert(evs.take(0) =~= Seq::<MdEvent>::empty());
    } else {
        lemma_no_heading_events_prefix(evs, m - 1);
        assert(evs.take(m).drop_last() =~= evs.take(m - 1));
        assert(evs.take(m).last() == evs[m - 1]);
        assert(!(evs[m - 1] is HeadingStart) && !(evs[m - 1] is HeadingEnd));
    }
}

/// A document without any heading is rejected.
pub proof fn lemma_no_headings_rejected(evs: Seq<MdEvent>)
    requires
        forall|i: int| 0 <= i < evs.len() ==> !(#[trigger] evs[i] is HeadingStart) && !(evs[i] is HeadingEnd),
    ensures
        heading_check(evs) == Err::<(), HeadingFailure>(HeadingFailure::NoHeadings),
{
    lemma_no_heading_events_prefix(evs, evs.len() as int);
    assert(evs.take(evs.len() as int) =~= evs);
}

/// Validates the Markdown structure expected from the atlas output.
pub fn validate_markdown(markdown: &str) -> (r: Result<(), MarkdownError>)
    ensures
        match r {
            Ok(()) => heading_check(markdown_events(markdown@)) is Ok,
            Err(e) => heading_check(markdown_events(markdown@)) == Err::<(), HeadingFailure>(failure_of(e)),
        },
{
    let events = parse_markdown_events(markdown);
    let ghost evs = events@;
    let mut current: Option<(u8, String)> = None;
    let mut previous: Option<u8> = None;
    let mut count: usize = 0;
    let n = events.len();
    for i in 0..n
        invariant
            n == evs.len(),
            evs == events@,
            evs == markdown_events(markdown@),
            forall|j: int| 0 <= j < evs.len() ==> match #[trigger] evs[j] {
                MdEvent::HeadingStart(l) => 1 <= l <= 6,
                MdEvent::HeadingEnd(l) => 1 <= l <= 6,
                _ => true,
            },
            count <= i,
            previous matches Some(p) ==> 1 <= p <= 6,
            current matches Some((l, _)) ==> 1 <= l <= 6,
            heading_run(evs.take(i as int)) == Ok::<HeadingState, HeadingFailure>(HeadingState {
                current: match current {
                    Some((l, h)) => Some((l, h@)),
                    None => None,
                },
                previous: previous,
                count: count as nat,
            }),
    {
        let ghost t = evs.take(i + 1);
        proof {
            assert(t.drop_last() == evs.take(i as int));
            assert(t.last() == evs[i as int]);
        }
        match &events[i] {
            MdEvent::HeadingStart(level) => {
                current = Some((*level, String::new()));
            },
            MdEvent::Text(text) | MdEvent::Code(text) => {
                if let Some((_, heading)) = &mut current {
                    heading.append(text.as_str());
                }
            },
            MdEvent::HeadingEnd(end_level) => {
                let (start_level, text) = match current {
                    Some(c) => c,
                    None => {
                        proof { lemma_failure_persists(evs, i + 1); }
                        return Err(MarkdownError::UnmatchedHeadingEnd);
                    },
                };
                current = None;
                let level = if *end_level <= start_level { *end_level } else { start_level };
                let text = trim(text.as_str());
                if text.as_str().is_empty() {
                    proof { lemma_failure_persists(evs, i + 1); }
                    return Err(MarkdownError::EmptyHeading { level });
                }
                if let Some(p) = previous {
                    if level > p + 1 {
                        proof { lemma_failure_persists(evs, i + 1); }
                        return Err(MarkdownError::HeadingLevelJump { previous: p, current: level, text });
                    }
                }
                previous = Some(level);
                count = count + 1;
            },
            _ => {},
        }
    }
    assert(evs.take(n as int) == evs);
    if current.is_some() {
        return Err(MarkdownError::UnterminatedHeading);
    }
    if count == 0 {
        return Err(MarkdownError::NoHeadings);
    }
    Ok(())
}

/// The decimal digits of `n`.
pub open spec fn decimal(n: nat) -> Seq<char>
    decreases n,
{
    if n < 10 {
        seq![digit_char(n)]
    } else {
        decimal(n / 10).push(digit_char(n % 10))
    }
}

/// The character of a digit below ten.
pub open spec fn digit_char(d: nat) -> char {
    if d == 0 { '0' } else if d == 1 { '1' } else if d == 2 { '2' } else if d == 3 { '3' } else if d == 4 { '4' }
    else if d == 5 { '5' } else if d == 6 { '6' } else if d == 7 { '7' } else if d == 8 { '8' } else { '9' }
}

/// How a validation failure is reported in words.
pub open spec fn failure_message(f: HeadingFailure) -> Seq<char> {
    match f {
        HeadingFailure::Empty(level) => "empty h"@ + decimal(level as nat) + " heading"@,
        HeadingFailure::Jump(previous, current, text) => "heading level jumps from h"@ + decimal(previous as nat)
            + " to h"@ + decimal(current as nat) + " at `"@ + text + "`"@,
        HeadingFailure::NoHeadings => "markdown contains no headings"@,
        HeadingFailure::Unmatched => "heading ended without a start event"@,
        HeadingFailure::Unterminated => "heading started without an end event"@,
    }
}

/// Appends the decimal digits of `n`.
fn write_decimal(n: u8, out: &mut String)
    ensures
        final(out)@ == old(out)@ + decimal(n as nat),
    decreases n,
{
    if n >= 10 {
        write_decimal(n / 10, out);
    }
    let d = n % 10;
    let c = if d == 0 { '0' } else if d == 1 { '1' } else if d == 2 { '2' } else if d == 3 { '3' } else if d == 4 { '4' }
        else if d == 5 { '5' } else if d == 6 { '6' } else if d == 7 { '7' } else if d == 8 { '8' } else { '9' };
    crate::text::push_char(out, c);
}

impl MarkdownError {
    /// The error in words.
    pub fn message(&self) -> (s: String)
        ensures
            s@ == failure_message(failure_of(*self)),
    {
        let mut s = String::new();
        match self {
            MarkdownError::EmptyHeading { level } => {
                s.append("empty h");
                write_decimal(*level, &mut s);
                s.append(" heading");
            },
            MarkdownError::HeadingLevelJump { previous, current, text } => {
                s.append("heading level jumps from h");
                write_decimal(*previous, &mut s);
                s.append(" to h");
                write_decimal(*current, &mut s);
                s.append(" at `");
                s.append(text.as_str());
                s.append("`");
            },
            MarkdownError::NoHeadings => s.append("markdown contains no headings"),
            MarkdownError::UnmatchedHeadingEnd => s.append("heading ended without a start event"),
            MarkdownError::UnterminatedHeading => s.append("heading started without an end event"),
        }
        s
    }
}

} // verus!
