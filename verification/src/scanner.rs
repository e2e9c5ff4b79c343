//! Splitting a blob of concatenated JSON objects into byte ranges.
//!
//! The scanner walks the text one character at a time and keeps three pieces
//! of state: whether it is outside a string, inside one, or just behind a
//! backslash inside one; how many objects are currently open; and where the
//! outermost open object began. Only braces met outside strings count.

use vstd::prelude::*;
use vstd::std_specs::iter::IteratorSpec;
use vstd::string::StringExecFns;
use crate::notation::{append_decimal, decimal_text};
use crate::scanner_laws::{covers_object, lemma_ranges_cover_objects};
use crate::text::{byte_len, char_width, utf8_width, lemma_byte_len_prefix, lemma_byte_len_push};

verus! {

/// Half-open range `[start, end)` of byte offsets into a blob.
#[derive(Debug, Clone, Copy, PartialEq, Eq, Structural)]
pub struct DigestRange {
    pub start: usize,
    pub end: usize,
}

/// Mathematical form of a [`DigestRange`].
pub ghost struct Span {
    pub start: nat,
    pub end: nat,
}

impl View for DigestRange {
    type V = Span;

    open spec fn view(&self) -> Span {
        Span { start: self.start as nat, end: self.end as nat }
    }
}

/// The spans of a list of ranges, in order.
pub open spec fn spans_of(ranges: Seq<DigestRange>) -> Seq<Span> {
    Seq::new(ranges.len(), |i: int| ranges[i]@)
}

/// Why a blob could not be split.
#[derive(Debug, Clone, Copy, PartialEq, Eq, Structural)]
pub enum ParseError {
    /// A `}` was met outside any string while no object was open.
    UnmatchedClosingBrace { offset: usize },
    /// The text ended while `depth` objects were still open.
    UnclosedObject { depth: usize },
}

impl ParseError {
    /// The wording of the error.
    pub open spec fn message_text(self) -> Seq<char> {
        match self {
            ParseError::UnmatchedClosingBrace { offset } => "Unmatched closing brace at byte "@
                + decimal_text(offset as nat),
            ParseError::UnclosedObject { depth } => "Unclosed JSON object(s); brace depth at end is "@
                + decimal_text(depth as nat),
        }
    }

    /// Words the error for a reader, with the offset or depth in decimal.
    pub fn message(&self) -> (msg: String)
        ensures
            msg@ == self.message_text(),
    {
        match self {
            ParseError::UnmatchedClosingBrace { offset } => {
                let mut msg = String::from_str("Unmatched closing brace at byte ");
                append_decimal(*offset, &mut msg);
                msg
            },
            ParseError::UnclosedObject { depth } => {
                let mut msg = String::from_str("Unclosed JSON object(s); brace depth at end is ");
                append_decimal(*depth, &mut msg);
                msg
            },
        }
    }
}

/// Where the scanner stands relative to string literals.
pub enum ScanMode {
    Outside,
    InString,
    Escaped,
}

/// State of the scanner after some prefix of the text.
pub ghost struct ScanState {
    pub mode: ScanMode,
    /// Number of objects currently open.
    pub depth: nat,
    /// Byte offset of the `{` that opened the outermost open object.
    pub start: Option<nat>,
    /// Byte offset of the next character; once `failed`, of the offending `}`.
    pub offset: nat,
    /// Top-level objects closed so far.
    pub ranges: Seq<Span>,
    /// An unmatched `}` was met; the state no longer changes.
    pub failed: bool,
}

/// State before any character has been read.
pub open spec fn initial_state() -> ScanState {
    ScanState {
        mode: ScanMode::Outside,
        depth: 0,
        start: None,
        offset: 0,
        ranges: Seq::empty(),
        failed: false,
    }
}

/// One transition of the scanner on character `c`.
pub open spec fn step(st: ScanState, c: char) -> ScanState {
    let next = st.offset + char_width(c);
    if st.failed {
        st
    } else {
        match st.mode {
            ScanMode::Escaped => ScanState { mode: ScanMode::InString, offset: next, ..st },
            ScanMode::InString => if c == '\\' {
                ScanState { mode: ScanMode::Escaped, offset: next, ..st }
            } else if c == '"' {
                ScanState { mode: ScanMode::Outside, offset: next, ..st }
            } else {
                ScanState { offset: next, ..st }
            },
            ScanMode::Outside => if c == '"' {
                ScanState { mode: ScanMode::InString, offset: next, ..st }
            } else if c == '{' {
                ScanState {
                    depth: st.depth + 1,
                    start: if st.depth == 0 {
                        Some(st.offset)
                    } else {
                        st.start
                    },
                    offset: next,
                    ..st
                }
            } else if c == '}' {
                if st.depth == 0 {
                    ScanState { failed: true, ..st }
                } else if st.depth == 1 {
                    ScanState {
                        depth: 0,
                        start: None,
                        offset: next,
                        ranges: st.ranges.push(Span { start: st.start.unwrap(), end: next }),
                        ..st
                    }
                } else {
                    ScanState { depth: (st.depth - 1) as nat, offset: next, ..st }
                }
            } else {
                ScanState { offset: next, ..st }
            },
        }
    }
}

/// State reached from `st` after reading all of `s`.
pub open spec fn scan_from(st: ScanState, s: Seq<char>) -> ScanState
    decreases s.len(),
{
    if s.len() == 0 {
        st
    } else {
        step(scan_from(st, s.drop_last()), s.last())
    }
}

/// State reached after reading all of `s` from the beginning.
pub open spec fn scan(s: Seq<char>) -> ScanState {
    scan_from(initial_state(), s)
}

/// What splitting a text yields.
pub ghost enum Verdict {
    /// The top-level objects, in order.
    Ranges(Seq<Span>),
    /// A `}` at this byte offset had no object to close.
    UnmatchedClose(nat),
    /// The text ended with this many objects open.
    Unclosed(nat),
}

/// The verdict on a whole text: all or nothing.
pub open spec fn verdict(s: Seq<char>) -> Verdict {
    let st = scan(s);
    if st.failed {
        Verdict::UnmatchedClose(st.offset)
    } else if st.depth != 0 {
        Verdict::Unclosed(st.depth)
    } else {
        Verdict::Ranges(st.ranges)
    }
}

/// The verdict that an outcome of [`find_concatenated_json_ranges`] stands for.
pub open spec fn verdict_of(res: Result<Vec<DigestRange>, ParseError>) -> Verdict {
    match res {
        Ok(ranges) => Verdict::Ranges(spans_of(ranges@)),
        Err(ParseError::UnmatchedClosingBrace { offset }) => Verdict::UnmatchedClose(offset as nat),
        Err(ParseError::UnclosedObject { depth }) => Verdict::Unclosed(depth as nat),
    }
}

/// The ranges are non-empty, lie in increasing order without overlap, and end
/// at or before `limit`.
pub open spec fn ordered_within(ranges: Seq<Span>, limit: nat) -> bool {
    &&& forall|i: int| 0 <= i < ranges.len() ==> (#[trigger] ranges[i]).start < ranges[i].end
    &&& forall|i: int, j: int|
        0 <= i < j < ranges.len() ==> (#[trigger] ranges[i]).end <= (#[trigger] ranges[j]).start
    &&& forall|i: int| 0 <= i < ranges.len() ==> (#[trigger] ranges[i]).end <= limit
}

/// What holds of every state that the scanner can reach.
pub open spec fn well_formed(st: ScanState) -> bool {
    &&& st.start is Some <==> st.depth > 0
    &&& st.start matches Some(b) ==> b < st.offset
    &&& ordered_within(
        st.ranges,
        match st.start {
            Some(b) => b,
            None => st.offset,
        },
    )
}

/// A transition keeps a state well formed and never moves the offset back.
pub proof fn lemma_step_well_formed(st: ScanState, c: char)
    requires
        well_formed(st),
    ensures
        well_formed(step(st, c)),
        st.offset <= step(st, c).offset,
        step(st, c).depth <= st.depth + 1,
        !step(st, c).failed ==> !st.failed && step(st, c).offset == st.offset + char_width(c),
        st.failed ==> step(st, c) == st,
{
    crate::text::lemma_char_width_bounds(c);
}

/// Reading one more character is one more transition.
pub proof fn lemma_scan_push(s: Seq<char>, c: char)
    ensures
        scan(s.push(c)) == step(scan(s), c),
{
    assert(s.push(c).drop_last() == s);
}

/// Every reachable state is well formed. While the scan has not failed, the
/// offset is the byte length of what was read and at most one object is open
/// per character read; once it has failed, the offset is that of the `}`
/// that had nothing to close.
pub proof fn lemma_scan_well_formed(s: Seq<char>)
    ensures
        well_formed(scan(s)),
        scan(s).depth <= s.len(),
        !scan(s).failed ==> scan(s).offset == byte_len(s),
        scan(s).failed ==> scan(s).offset < byte_len(s),
    decreases s.len(),
{
    if s.len() > 0 {
        let head = s.drop_last();
        lemma_scan_well_formed(head);
        lemma_step_well_formed(scan(head), s.last());
        assert(head.push(s.last()) == s);
        lemma_byte_len_push(head, s.last());
        crate::text::lemma_char_width_bounds(s.last());
    }
}

/// Once the scan has failed on a prefix, reading on changes nothing.
pub proof fn lemma_failure_is_final(s: Seq<char>, k: int)
    requires
        0 <= k <= s.len(),
        scan(s.take(k)).failed,
    ensures
        scan(s) == scan(s.take(k)),
    decreases s.len() - k,
{
    if k == s.len() {
        assert(s.take(k) == s);
    } else {
        assert(s.take(k + 1) == s.take(k).push(s[k]));
        lemma_scan_push(s.take(k), s[k]);
        lemma_failure_is_final(s, k + 1);
    }
}

/// Finds the byte ranges of the top-level `{...}` objects of `input`.
///
/// Braces inside string literals are ignored, nested objects only change the
/// depth, and anything between two top-level objects is skipped. The result
/// is all or nothing: on an unmatched `}` or on an object left open no range
/// is returned. The ranges come in increasing order without overlap, and
/// each covers exactly the bytes of one object.
pub fn find_concatenated_json_ranges(input: &str) -> (res: Result<Vec<DigestRange>, ParseError>)
    ensures
        verdict_of(res) == verdict(input@),
        res matches Ok(ranges) ==> ordered_within(spans_of(ranges@), byte_len(input@)),
        res matches Ok(ranges) ==> forall|k: int|
            0 <= k < ranges.len() ==> covers_object(input@, (#[trigger] ranges[k])@),
{
    broadcast use vstd::string::group_string_axioms;

    // Offsets stay within the length of the input in bytes, which fits a `usize`.
    let total: usize = input.as_bytes().len();
    let mut ranges: Vec<DigestRange> = Vec::new();
    let mut depth: usize = 0;
    let mut in_string = false;
    let mut escape = false;
    let mut current_start: usize = 0;
    let mut idx: usize = 0;
    let mut chars = input.chars();
    let ghost mut pos: int = 0;

    proof {
        assert(input@.take(0) == Seq::<char>::empty());
        assert(spans_of(ranges@) == Seq::<Span>::empty());
    }
    loop
        invariant
            0 <= pos <= input@.len(),
            chars.remaining() == input@.skip(pos),
            total == byte_len(input@),
            !scan(input@.take(pos)).failed,
            scan(input@.take(pos)).mode == (if escape {
                ScanMode::Escaped
            } else if in_string {
                ScanMode::InString
            } else {
                ScanMode::Outside
            }),
            escape ==> in_string,
            scan(input@.take(pos)).depth == depth,
            scan(input@.take(pos)).start matches Some(b) ==> b == current_start,
            scan(input@.take(pos)).offset == idx,
            scan(input@.take(pos)).ranges == spans_of(ranges@),
        decreases input@.len() - pos,
    {
        let ghost before = scan(input@.take(pos));
        match chars.next() {
            None => {
                proof {
                    assert(input@.skip(pos).len() == 0);
                    assert(input@.take(pos) == input@);
                    lemma_scan_well_formed(input@);
                }
                if depth != 0 {
                    return Err(ParseError::UnclosedObject { depth });
                }
                proof {
                    lemma_ranges_cover_objects(input@);
                    assert forall|k: int| 0 <= k < ranges.len() implies covers_object(
                        input@,
                        (#[trigger] ranges[k])@,
                    ) by {
                        assert(spans_of(ranges@)[k] == ranges[k]@);
                    }
                }
                return Ok(ranges);
            },
            Some(ch) => {
                proof {
                    assert(input@.skip(pos)[0] == input@[pos]);
                    assert(input@.take(pos + 1) == input@.take(pos).push(ch));
                    lemma_scan_push(input@.take(pos), ch);
                    lemma_scan_well_formed(input@.take(pos));
                    lemma_scan_well_formed(input@.take(pos + 1));
                    lemma_byte_len_prefix(input@, pos);
                    lemma_byte_len_prefix(input@, pos + 1);
                    lemma_byte_len_push(input@.take(pos), ch);
                    assert(input@.skip(pos).drop_first() == input@.skip(pos + 1));
                }
                let width = utf8_width(ch);
                if in_string {
                    if escape {
                        escape = false;
                    } else if ch == '\\' {
                        escape = true;
                    } else if ch == '"' {
                        in_string = false;
                    }
                } else if ch == '"' {
                    in_string = true;
                } else if ch == '{' {
                    if depth == 0 {
                        current_start = idx;
                    }
                    depth = depth + 1;
                } else if ch == '}' {
                    if depth == 0 {
                        proof {
                            lemma_failure_is_final(input@, pos + 1);
                        }
                        return Err(ParseError::UnmatchedClosingBrace { offset: idx });
                    }
                    depth = depth - 1;
                    if depth == 0 {
                        let range = DigestRange { start: current_start, end: idx + width };
                        ranges.push(range);
                        proof {
                            assert(spans_of(ranges@) == before.ranges.push(range@));
                        }
                    }
                }
                idx = idx + width;
                proof {
                    pos = pos + 1;
                }
            },
        }
    }
}

} // verus!
