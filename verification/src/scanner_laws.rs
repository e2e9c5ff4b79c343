//! Laws of the boundary scanner: how it composes over concatenation, what it
//! returns on a batch of documents, what its ranges cover on any input, and
//! what it ignores.

use vstd::prelude::*;
use vstd::utf8::encode_utf8;
use crate::scanner::{
    DigestRange, ParseError, ScanState, Span, Verdict, initial_state, lemma_failure_is_final,
    lemma_scan_push, lemma_scan_well_formed, lemma_step_well_formed, ordered_within, scan, scan_from,
    spans_of, step, verdict, verdict_of, well_formed,
};
use crate::text::{byte_len, char_width, lemma_byte_len_push, lemma_encode_concat};

verus! {

/// The scanner stands between two top-level objects, outside any string.
pub open spec fn neutral(st: ScanState) -> bool {
    &&& !st.failed
    &&& st.depth == 0
    &&& st.mode is Outside
}

/// The span `r` moved `k` bytes to the right.
pub open spec fn shift_span(r: Span, k: nat) -> Span {
    Span { start: r.start + k, end: r.end + k }
}

/// Every span of `rs` moved `k` bytes to the right.
pub open spec fn shift_spans(rs: Seq<Span>, k: nat) -> Seq<Span> {
    Seq::new(rs.len(), |i: int| shift_span(rs[i], k))
}

/// The state `st` as it would be had `k` more bytes, holding the top-level
/// objects `pre`, come before everything it has read.
pub open spec fn rebase(st: ScanState, k: nat, pre: Seq<Span>) -> ScanState {
    ScanState {
        mode: st.mode,
        depth: st.depth,
        start: match st.start {
            Some(b) => Some(b + k),
            None => None,
        },
        offset: st.offset + k,
        ranges: pre + shift_spans(st.ranges, k),
        failed: st.failed,
    }
}

/// Reading `a` and then `b` is reading `a + b`.
pub proof fn lemma_scan_from_concat(st: ScanState, a: Seq<char>, b: Seq<char>)
    ensures
        scan_from(st, a + b) == scan_from(scan_from(st, a), b),
    decreases b.len(),
{
    if b.len() == 0 {
        assert(a + b == a);
    } else {
        lemma_scan_from_concat(st, a, b.drop_last());
        assert((a + b).drop_last() == a + b.drop_last());
        assert((a + b).last() == b.last());
    }
}

/// Reading on from a well-formed state gives a well-formed state.
pub proof fn lemma_scan_from_well_formed(st: ScanState, s: Seq<char>)
    requires
        well_formed(st),
    ensures
        well_formed(scan_from(st, s)),
    decreases s.len(),
{
    if s.len() > 0 {
        lemma_scan_from_well_formed(st, s.drop_last());
        lemma_step_well_formed(scan_from(st, s.drop_last()), s.last());
    }
}

/// A transition does not depend on where in the blob the scanner stands.
pub proof fn lemma_step_rebase(st: ScanState, c: char, k: nat, pre: Seq<Span>)
    requires
        well_formed(st),
    ensures
        step(rebase(st, k, pre), c) == rebase(step(st, c), k, pre),
{
    let left = step(rebase(st, k, pre), c);
    let right = rebase(step(st, c), k, pre);
    assert(left.ranges =~= right.ranges);
}

/// Scanning does not depend on where in the blob the scanner stands.
pub proof fn lemma_scan_from_rebase(st: ScanState, s: Seq<char>, k: nat, pre: Seq<Span>)
    requires
        well_formed(st),
    ensures
        scan_from(rebase(st, k, pre), s) == rebase(scan_from(st, s), k, pre),
    decreases s.len(),
{
    if s.len() > 0 {
        lemma_scan_from_rebase(st, s.drop_last(), k, pre);
        lemma_scan_from_well_formed(st, s.drop_last());
        lemma_step_rebase(scan_from(st, s.drop_last()), s.last(), k, pre);
    }
}

/// Where a text `a` leaves the scanner between two objects, scanning `a + b`
/// is scanning `b` on its own, with every offset moved past `a` and the
/// objects of `a` in front.
pub proof fn lemma_scan_concat(a: Seq<char>, b: Seq<char>)
    requires
        neutral(scan(a)),
    ensures
        scan(a + b) == rebase(scan(b), byte_len(a), scan(a).ranges),
{
    lemma_scan_well_formed(a);
    lemma_scan_from_concat(initial_state(), a, b);
    let base = rebase(initial_state(), byte_len(a), scan(a).ranges);
    assert(base.ranges =~= scan(a).ranges);
    assert(base == scan(a));
    lemma_scan_from_rebase(initial_state(), b, byte_len(a), scan(a).ranges);
}

/// The verdict on `a + b`, where `a` leaves the scanner between two objects.
pub proof fn lemma_verdict_concat(a: Seq<char>, b: Seq<char>)
    requires
        neutral(scan(a)),
    ensures
        verdict(a + b) == (match verdict(b) {
            Verdict::Ranges(rs) => Verdict::Ranges(scan(a).ranges + shift_spans(rs, byte_len(a))),
            Verdict::UnmatchedClose(at) => Verdict::UnmatchedClose(at + byte_len(a)),
            Verdict::Unclosed(depth) => Verdict::Unclosed(depth),
        }),
{
    lemma_scan_concat(a, b);
}

/// Text that the scanner passes over between objects: it holds no brace and
/// no quote.
pub open spec fn is_filler(w: Seq<char>) -> bool {
    forall|i: int| 0 <= i < w.len() ==> w[i] != '{' && w[i] != '}' && w[i] != '"'
}

/// Text made of the four JSON whitespace characters.
pub open spec fn is_json_whitespace(w: Seq<char>) -> bool {
    forall|i: int| 0 <= i < w.len() ==> w[i] == ' ' || w[i] == '\t' || w[i] == '\n' || w[i] == '\r'
}

/// JSON whitespace is filler.
pub proof fn lemma_whitespace_is_filler(w: Seq<char>)
    requires
        is_json_whitespace(w),
    ensures
        is_filler(w),
{
}

/// Filler is skipped: it yields no range and leaves the scanner where it was,
/// further along.
pub proof fn lemma_scan_filler(w: Seq<char>)
    requires
        is_filler(w),
    ensures
        scan(w) == (ScanState { offset: byte_len(w), ..initial_state() }),
    decreases w.len(),
{
    if w.len() == 0 {
    } else {
        let head = w.drop_last();
        assert(is_filler(head)) by {
            assert forall|i: int| 0 <= i < head.len() implies head[i] != '{' && head[i] != '}'
                && head[i] != '"' by {
                assert(head[i] == w[i]);
            }
        }
        lemma_scan_filler(head);
        lemma_scan_well_formed(w);
        assert(w.last() == w[w.len() - 1]);
    }
}

/// A text that is one top-level object to the scanner: it opens with `{`,
/// every proper prefix leaves that object open, and its last character
/// closes it.
pub open spec fn is_object_text(o: Seq<char>) -> bool {
    &&& o.len() > 0
    &&& o[0] == '{'
    &&& neutral(scan(o))
    &&& forall|k: int| 0 < k < o.len() ==> (#[trigger] scan(o.take(k))).depth > 0
}

proof fn lemma_object_prefix(o: Seq<char>, k: int)
    requires
        is_object_text(o),
        0 < k < o.len(),
    ensures
        scan(o.take(k)).ranges == Seq::<Span>::empty(),
        scan(o.take(k)).start == Some(0nat),
        scan(o.take(k)).depth > 0,
        !scan(o.take(k)).failed,
    decreases k,
{
    if scan(o.take(k)).failed {
        lemma_failure_is_final(o, k);
    }
    if k == 1 {
        assert(o.take(1) == Seq::<char>::empty().push(o[0]));
        lemma_scan_push(Seq::<char>::empty(), o[0]);
    } else {
        lemma_object_prefix(o, k - 1);
        assert(o.take(k) == o.take(k - 1).push(o[k - 1]));
        lemma_scan_push(o.take(k - 1), o[k - 1]);
    }
}

/// An object text on its own yields exactly one range, which covers it.
pub proof fn lemma_scan_object(o: Seq<char>)
    requires
        is_object_text(o),
    ensures
        scan(o).ranges == seq![Span { start: 0, end: byte_len(o) }],
        verdict(o) == Verdict::Ranges(seq![Span { start: 0, end: byte_len(o) }]),
{
    lemma_scan_well_formed(o);
    let n = o.len() as int;
    if n == 1 {
        assert(o == Seq::<char>::empty().push(o[0]));
        lemma_scan_push(Seq::<char>::empty(), o[0]);
    } else {
        lemma_object_prefix(o, n - 1);
        assert(o == o.take(n - 1).push(o[n - 1]));
        lemma_scan_push(o.take(n - 1), o[n - 1]);
        lemma_scan_well_formed(o.take(n - 1));
        let before = scan(o.take(n - 1));
        assert(scan(o) == step(before, o[n - 1]));
        assert(scan(o).ranges =~= seq![Span { start: 0, end: byte_len(o) }]);
    }
}

/// The text of a batch: `gaps[0]`, then each document followed by the next
/// gap. There is one more gap than there are documents.
pub open spec fn batch_text(gaps: Seq<Seq<char>>, docs: Seq<Seq<char>>) -> Seq<char>
    decreases docs.len(),
{
    if docs.len() == 0 {
        gaps[0]
    } else {
        batch_text(gaps.drop_last(), docs.drop_last()) + docs.last() + gaps.last()
    }
}

/// Where each document of a batch lies in the batch's bytes.
pub open spec fn batch_spans(gaps: Seq<Seq<char>>, docs: Seq<Seq<char>>) -> Seq<Span>
    decreases docs.len(),
{
    if docs.len() == 0 {
        Seq::empty()
    } else {
        let before = byte_len(batch_text(gaps.drop_last(), docs.drop_last()));
        batch_spans(gaps.drop_last(), docs.drop_last()).push(
            Span { start: before, end: before + byte_len(docs.last()) },
        )
    }
}

/// A batch as the scanner is meant to be given: object texts with filler
/// before, between and after them.
pub open spec fn is_batch(gaps: Seq<Seq<char>>, docs: Seq<Seq<char>>) -> bool {
    &&& gaps.len() == docs.len() + 1
    &&& forall|i: int| 0 <= i < gaps.len() ==> is_filler(#[trigger] gaps[i])
    &&& forall|i: int| 0 <= i < docs.len() ==> is_object_text(#[trigger] docs[i])
}

/// On a batch of `N` documents the scanner finds exactly `N` ranges, in
/// order and without overlap, and the bytes of the blob under the `i`-th
/// range are the bytes of the `i`-th document.
pub proof fn lemma_scan_batch(gaps: Seq<Seq<char>>, docs: Seq<Seq<char>>)
    requires
        is_batch(gaps, docs),
    ensures
        neutral(scan(batch_text(gaps, docs))),
        verdict(batch_text(gaps, docs)) == Verdict::Ranges(batch_spans(gaps, docs)),
        batch_spans(gaps, docs).len() == docs.len(),
        ordered_within(batch_spans(gaps, docs), byte_len(batch_text(gaps, docs))),
        forall|i: int|
            0 <= i < docs.len() ==> encode_utf8(batch_text(gaps, docs)).subrange(
                (#[trigger] batch_spans(gaps, docs)[i]).start as int,
                batch_spans(gaps, docs)[i].end as int,
            ) == encode_utf8(docs[i]),
    decreases docs.len(),
{
    let text = batch_text(gaps, docs);
    let spans = batch_spans(gaps, docs);
    if docs.len() == 0 {
        lemma_scan_filler(gaps[0]);
    } else {
        let gaps0 = gaps.drop_last();
        let docs0 = docs.drop_last();
        let text0 = batch_text(gaps0, docs0);
        let spans0 = batch_spans(gaps0, docs0);
        let doc = docs.last();
        let gap = gaps.last();
        assert(is_batch(gaps0, docs0)) by {
            assert forall|i: int| 0 <= i < gaps0.len() implies is_filler(#[trigger] gaps0[i]) by {
                assert(gaps0[i] == gaps[i]);
            }
            assert forall|i: int| 0 <= i < docs0.len() implies is_object_text(
                #[trigger] docs0[i],
            ) by {
                assert(docs0[i] == docs[i]);
            }
        }
        lemma_scan_batch(gaps0, docs0);
        assert(is_object_text(doc)) by {
            assert(doc == docs[docs.len() - 1]);
        }
        assert(is_filler(gap)) by {
            assert(gap == gaps[gaps.len() - 1]);
        }
        lemma_scan_object(doc);
        lemma_scan_filler(gap);
        lemma_scan_well_formed(doc);
        lemma_scan_concat(text0, doc);
        lemma_scan_concat(text0 + doc, gap);
        lemma_encode_concat(text0, doc);
        lemma_encode_concat(text0 + doc, gap);
        let n0 = byte_len(text0);
        let last = Span { start: n0, end: n0 + byte_len(doc) };
        assert(scan(text0 + doc).ranges =~= spans0.push(last));
        assert(scan(text).ranges =~= spans0.push(last));
        assert(spans == spans0.push(last));
        assert forall|i: int| 0 <= i < docs.len() implies encode_utf8(text).subrange(
            (#[trigger] spans[i]).start as int,
            spans[i].end as int,
        ) == encode_utf8(docs[i]) by {
            if i < docs0.len() {
                assert(spans[i] == spans0[i]);
                assert(docs[i] == docs0[i]);
                assert(encode_utf8(text).subrange(spans[i].start as int, spans[i].end as int)
                    =~= encode_utf8(text0).subrange(spans0[i].start as int, spans0[i].end as int));
            } else {
                assert(spans[i] == last);
                assert(docs[i] == doc);
                assert(encode_utf8(text).subrange(last.start as int, last.end as int)
                    =~= encode_utf8(doc));
            }
        }
    }
}

/// The same law, read off an outcome of the scanner on a batch: it is `Ok`,
/// it holds one range per document, and slicing the blob by the `i`-th range
/// gives back the `i`-th document byte for byte.
pub proof fn lemma_batch_outcome(
    res: Result<Vec<DigestRange>, ParseError>,
    gaps: Seq<Seq<char>>,
    docs: Seq<Seq<char>>,
)
    requires
        is_batch(gaps, docs),
        verdict_of(res) == verdict(batch_text(gaps, docs)),
    ensures
        res is Ok,
        res->Ok_0.len() == docs.len(),
        forall|i: int|
            0 <= i < docs.len() ==> encode_utf8(batch_text(gaps, docs)).subrange(
                (#[trigger] res->Ok_0[i]).start as int,
                res->Ok_0[i].end as int,
            ) == encode_utf8(docs[i]),
        forall|i: int, j: int|
            0 <= i < j < docs.len() ==> (#[trigger] res->Ok_0[i]).end <= (
            #[trigger] res->Ok_0[j]).start,
{
    lemma_scan_batch(gaps, docs);
    let ranges = res->Ok_0;
    let spans = batch_spans(gaps, docs);
    assert(spans_of(ranges@) == spans);
    assert forall|i: int| 0 <= i < docs.len() implies encode_utf8(
        batch_text(gaps, docs),
    ).subrange((#[trigger] ranges[i]).start as int, ranges[i].end as int) == encode_utf8(
        docs[i],
    ) by {
        assert(spans[i] == ranges[i]@);
    }
    assert forall|i: int, j: int| 0 <= i < j < docs.len() implies (#[trigger] ranges[i]).end <= (
    #[trigger] ranges[j]).start by {
        assert(spans[i] == ranges[i]@);
        assert(spans[j] == ranges[j]@);
    }
}

/// Two outcomes say the same: the same ranges in the same order, or the same
/// error.
pub open spec fn same_outcome(
    first: Result<Vec<DigestRange>, ParseError>,
    second: Result<Vec<DigestRange>, ParseError>,
) -> bool {
    match (first, second) {
        (Ok(a), Ok(b)) => a@ == b@,
        (Err(e), Err(f)) => e == f,
        _ => false,
    }
}

/// Scanning the same text again gives the same outcome.
pub proof fn lemma_rescan_same_outcome(
    input: Seq<char>,
    first: Result<Vec<DigestRange>, ParseError>,
    second: Result<Vec<DigestRange>, ParseError>,
)
    requires
        verdict_of(first) == verdict(input),
        verdict_of(second) == verdict(input),
    ensures
        same_outcome(first, second),
{
    if let (Ok(a), Ok(b)) = (first, second) {
        assert(spans_of(a@) == spans_of(b@));
        assert(a@.len() == spans_of(a@).len());
        assert(b@.len() == spans_of(b@).len());
        assert forall|i: int| 0 <= i < a@.len() implies a@[i] == b@[i] by {
            assert(spans_of(a@)[i] == a@[i]@);
            assert(spans_of(b@)[i] == b@[i]@);
        }
        assert(a@ =~= b@);
    }
}

/// Inside a string literal no character changes the depth, opens or closes
/// a range, or fails the scan.
pub proof fn lemma_in_string_step_inert(st: ScanState, c: char)
    requires
        !st.failed,
        !(st.mode is Outside),
    ensures
        step(st, c).depth == st.depth,
        step(st, c).start == st.start,
        step(st, c).ranges == st.ranges,
        !step(st, c).failed,
        step(st, c).offset == st.offset + char_width(c),
{
}

/// Inside a string literal a backslash protects the quote behind it: the
/// string goes on, and a `}` that follows is still inside it.
pub proof fn lemma_escaped_quote_keeps_string(st: ScanState)
    requires
        !st.failed,
        st.mode is InString,
    ensures
        step(step(st, '\\'), '"').mode is InString,
        step(step(step(st, '\\'), '"'), '}').mode is InString,
        step(step(step(st, '\\'), '"'), '}').depth == st.depth,
        step(step(step(st, '\\'), '"'), '}').ranges == st.ranges,
        !step(step(step(st, '\\'), '"'), '}').failed,
{
}

/// A character that does not end a string or start an escape.
pub open spec fn is_plain_in_string(c: char) -> bool {
    c != '"' && c != '\\'
}

/// A brace inside a string literal may be replaced by any other character of
/// one byte that is plain in a string, and the scanner returns the same
/// state: the brace counted for nothing.
pub proof fn lemma_brace_in_string_is_inert(s: Seq<char>, i: int, other: char)
    requires
        0 <= i < s.len(),
        s[i] == '{' || s[i] == '}',
        !scan(s.take(i)).failed,
        !(scan(s.take(i)).mode is Outside),
        is_plain_in_string(other),
        char_width(other) == 1,
    ensures
        scan(s.update(i, other)) == scan(s),
        verdict(s.update(i, other)) == verdict(s),
{
    let t = s.update(i, other);
    let head = s.take(i);
    let tail = s.skip(i + 1);
    assert(s == head.push(s[i]) + tail);
    assert(t == head.push(other) + tail);
    lemma_scan_push(head, s[i]);
    lemma_scan_push(head, other);
    assert(char_width('{') == 1 && char_width('}') == 1) by {
        assert(vstd::utf8::encode_scalar('{' as u32).len() == 1);
        assert(vstd::utf8::encode_scalar('}' as u32).len() == 1);
    }
    assert(step(scan(head), s[i]) == step(scan(head), other));
    lemma_scan_from_concat(initial_state(), head.push(s[i]), tail);
    lemma_scan_from_concat(initial_state(), head.push(other), tail);
}

/// The characters of `s` from `from` up to `to` are an object that the
/// scanner met between two others: it stood outside any string with nothing
/// open before the `{` at `from`, the object stayed open up to `to`, and
/// there it was closed.
#[verifier::opaque]
pub open spec fn closed_at(s: Seq<char>, from: int, to: int) -> bool {
    &&& 0 <= from < to <= s.len()
    &&& neutral(scan(s.take(from)))
    &&& s[from] == '{'
    &&& forall|m: int| from < m < to ==> (#[trigger] scan(s.take(m))).depth > 0
    &&& neutral(scan(s.take(to)))
}

/// An object opened at `from` is still open at the end of `s`.
#[verifier::opaque]
pub open spec fn opened_at(s: Seq<char>, from: int) -> bool {
    &&& 0 <= from < s.len()
    &&& neutral(scan(s.take(from)))
    &&& s[from] == '{'
    &&& forall|m: int| from < m <= s.len() ==> (#[trigger] scan(s.take(m))).depth > 0
}

/// The bytes that the characters of `s` from `from` up to `to` occupy.
pub open spec fn span_of_chars(s: Seq<char>, from: int, to: int) -> Span {
    Span { start: byte_len(s.take(from)), end: byte_len(s.take(to)) }
}

/// The range `r` is that of an object closed in `s`.
pub open spec fn range_is_closed(s: Seq<char>, r: Span) -> bool {
    exists|from: int, to: int|
        #![trigger closed_at(s, from, to)]
        closed_at(s, from, to) && r == span_of_chars(s, from, to)
}

/// The byte offset `start` is that of an object still open at the end of
/// `s`.
pub open spec fn start_is_open(s: Seq<char>, start: nat) -> bool {
    exists|from: int| #![trigger opened_at(s, from)] opened_at(s, from) && start == byte_len(s.take(from))
}

/// What the scanner has found in `s`: each range is that of an object
/// closed in `s`, and the start it remembers is that of an object still
/// open.
pub open spec fn trace_holds(s: Seq<char>) -> bool {
    &&& forall|k: int|
        0 <= k < scan(s).ranges.len() ==> range_is_closed(s, #[trigger] scan(s).ranges[k])
    &&& !scan(s).failed && scan(s).depth > 0 ==> scan(s).start is Some && start_is_open(
        s,
        scan(s).start->Some_0,
    )
}

proof fn lemma_range_stays_closed(head: Seq<char>, c: char, r: Span)
    requires
        range_is_closed(head, r),
    ensures
        range_is_closed(head.push(c), r),
{
    reveal(closed_at);
    let s = head.push(c);
    let (from, to) = choose|from: int, to: int|
        #![trigger closed_at(head, from, to)]
        closed_at(head, from, to) && r == span_of_chars(head, from, to);
    assert(s.take(from) == head.take(from));
    assert(s.take(to) == head.take(to));
    assert forall|m: int| from < m < to implies (#[trigger] scan(s.take(m))).depth > 0 by {
        assert(s.take(m) == head.take(m));
    }
    assert(closed_at(s, from, to));
}

proof fn lemma_start_stays_open(head: Seq<char>, c: char, start: nat)
    requires
        start_is_open(head, start),
        scan(head.push(c)).depth > 0,
    ensures
        start_is_open(head.push(c), start),
{
    reveal(opened_at);
    let s = head.push(c);
    let from = choose|from: int|
        #![trigger opened_at(head, from)]
        opened_at(head, from) && start == byte_len(head.take(from));
    assert(s.take(from) == head.take(from));
    assert forall|m: int| from < m <= s.len() implies (#[trigger] scan(s.take(m))).depth > 0 by {
        if m <= head.len() {
            assert(s.take(m) == head.take(m));
        } else {
            assert(s.take(m) == s);
        }
    }
    assert(opened_at(s, from));
}

proof fn lemma_start_opens(head: Seq<char>)
    requires
        neutral(scan(head)),
    ensures
        start_is_open(head.push('{'), byte_len(head)),
{
    reveal(opened_at);
    let s = head.push('{');
    let n = head.len() as int;
    assert(s.take(n) == head);
    lemma_scan_push(head, '{');
    assert forall|m: int| n < m <= s.len() implies (#[trigger] scan(s.take(m))).depth > 0 by {
        assert(s.take(m) == s);
    }
    assert(opened_at(s, n));
}

proof fn lemma_start_closes(head: Seq<char>, c: char, start: nat)
    requires
        start_is_open(head, start),
        neutral(scan(head.push(c))),
    ensures
        range_is_closed(head.push(c), Span { start, end: byte_len(head.push(c)) }),
{
    reveal(opened_at);
    reveal(closed_at);
    let s = head.push(c);
    let n = head.len() as int;
    let from = choose|from: int|
        #![trigger opened_at(head, from)]
        opened_at(head, from) && start == byte_len(head.take(from));
    assert(s.take(from) == head.take(from));
    assert(s.take(n + 1) == s);
    assert forall|m: int| from < m < n + 1 implies (#[trigger] scan(s.take(m))).depth > 0 by {
        assert(s.take(m) == head.take(m));
    }
    assert(closed_at(s, from, n + 1));
}

proof fn lemma_trace(s: Seq<char>)
    ensures
        trace_holds(s),
    decreases s.len(),
{
    if s.len() == 0 {
        return ;
    }
    let head = s.drop_last();
    let c = s.last();
    lemma_trace(head);
    lemma_scan_well_formed(head);
    lemma_scan_well_formed(s);
    assert(head.push(c) == s);
    lemma_scan_push(head, c);
    lemma_byte_len_push(head, c);
    let before = scan(head);
    let after = scan(s);
    assert forall|k: int| 0 <= k < after.ranges.len() implies range_is_closed(
        s,
        #[trigger] after.ranges[k],
    ) by {
        if k < before.ranges.len() {
            assert(after.ranges[k] == before.ranges[k]);
            lemma_range_stays_closed(head, c, before.ranges[k]);
        } else {
            assert(neutral(after));
            assert(after.ranges[k] == Span { start: before.start->Some_0, end: byte_len(s) });
            lemma_start_closes(head, c, before.start->Some_0);
        }
    }
    if !after.failed && after.depth > 0 {
        if before.depth == 0 {
            assert(c == '{');
            lemma_start_opens(head);
        } else {
            lemma_start_stays_open(head, c, before.start->Some_0);
        }
    }
}

/// An object that the scanner met and closed is an object text on its own.
pub proof fn lemma_closed_is_object_text(s: Seq<char>, from: int, to: int)
    requires
        closed_at(s, from, to),
    ensures
        0 <= from < to <= s.len(),
        is_object_text(s.subrange(from, to)),
{
    reveal(closed_at);
    let o = s.subrange(from, to);
    let lead = s.take(from);
    assert forall|k: int| 0 <= k <= o.len() implies scan(s.take(from + k)) == rebase(
        #[trigger] scan(o.take(k)),
        byte_len(lead),
        scan(lead).ranges,
    ) by {
        assert(lead + o.take(k) == s.take(from + k));
        lemma_scan_concat(lead, o.take(k));
    }
    assert(o.take(o.len() as int) == o);
    assert(rebase(scan(o), byte_len(lead), scan(lead).ranges).depth == scan(o).depth);
    assert forall|k: int| 0 < k < o.len() implies (#[trigger] scan(o.take(k))).depth > 0 by {
        assert(scan(s.take(from + k)).depth > 0);
    }
}

/// The range `r` is that of the characters of `s` from `from` up to `to`,
/// which are an object text, and the bytes of `s` under `r` are the bytes of
/// those characters.
pub open spec fn covers(s: Seq<char>, r: Span, from: int, to: int) -> bool {
    &&& 0 <= from < to <= s.len()
    &&& r == span_of_chars(s, from, to)
    &&& is_object_text(s.subrange(from, to))
    &&& encode_utf8(s).subrange(r.start as int, r.end as int) == encode_utf8(s.subrange(from, to))
}

/// The range `r` covers an object text of `s`.
pub open spec fn covers_object(s: Seq<char>, r: Span) -> bool {
    exists|from: int, to: int| #![trigger covers(s, r, from, to)] covers(s, r, from, to)
}

/// Whatever the input, each range that the scanner returns lies on
/// character boundaries and covers exactly one object text: slicing the
/// bytes of the input by the range gives the bytes of that object.
pub proof fn lemma_ranges_cover_objects(s: Seq<char>)
    ensures
        forall|k: int|
            0 <= k < scan(s).ranges.len() ==> covers_object(s, #[trigger] scan(s).ranges[k]),
{
    lemma_trace(s);
    assert forall|k: int| 0 <= k < scan(s).ranges.len() implies covers_object(
        s,
        #[trigger] scan(s).ranges[k],
    ) by {
        let r = scan(s).ranges[k];
        assert(range_is_closed(s, r));
        let (from, to) = choose|from: int, to: int|
            #![trigger closed_at(s, from, to)]
            closed_at(s, from, to) && r == span_of_chars(s, from, to);
        lemma_closed_is_object_text(s, from, to);
        let a = s.take(from);
        let o = s.subrange(from, to);
        let z = s.skip(to);
        assert(s == a + o + z);
        assert(s.take(to) == a + o);
        lemma_encode_concat(a, o);
        lemma_encode_concat(a + o, z);
        assert(encode_utf8(s).subrange(r.start as int, r.end as int) =~= encode_utf8(o));
        assert(covers(s, r, from, to));
    }
}

} // verus!
