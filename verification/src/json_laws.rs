//! Why every well-formed JSON object is one top-level object to the
//! scanner, and what follows for batches of JSON documents.

use vstd::prelude::*;
use vstd::utf8::encode_utf8;
use crate::json::{
    Element, Elements, Json, Member, Members, is_json_object, is_string_body, number_part_after,
    render, render_element, render_elements, render_member, render_members, string_part_after,
    well_formed_element, well_formed_elements, well_formed_json, well_formed_member,
    well_formed_members,
};
use crate::scanner::{
    ScanState, Verdict, initial_state, ordered_within, scan, scan_from, step, verdict,
};
use crate::scanner_laws::{
    batch_spans, batch_text, is_batch, is_filler, is_json_whitespace, is_object_text,
    lemma_scan_batch, lemma_scan_from_concat,
};
use crate::text::byte_len;

verus! {

/// The scanner stands outside any string and has not failed.
pub open spec fn steady(st: ScanState) -> bool {
    st.mode is Outside && !st.failed
}

/// Reading `t` from `st` never fails and never closes an object that was
/// open in `st`, and it ends outside any string with the same objects open
/// as in `st`.
pub open spec fn keeps_level(st: ScanState, t: Seq<char>) -> bool {
    &&& forall|k: int|
        0 <= k <= t.len() ==> !(#[trigger] scan_from(st, t.take(k))).failed && scan_from(
            st,
            t.take(k),
        ).depth >= st.depth
    &&& steady(scan_from(st, t))
    &&& scan_from(st, t).depth == st.depth
}

/// Reading one character is one transition.
pub proof fn lemma_scan_from_single(st: ScanState, c: char)
    ensures
        scan_from(st, seq![c]) == step(st, c),
{
    assert(seq![c].drop_last() == Seq::<char>::empty());
    assert(scan_from(st, Seq::<char>::empty()) == st);
}

/// Two texts that each keep the level keep it one after the other.
pub proof fn lemma_keeps_level_concat(st: ScanState, a: Seq<char>, b: Seq<char>)
    requires
        keeps_level(st, a),
        keeps_level(scan_from(st, a), b),
    ensures
        keeps_level(st, a + b),
{
    let t = a + b;
    let mid = scan_from(st, a);
    lemma_scan_from_concat(st, a, b);
    assert forall|k: int| 0 <= k <= t.len() implies !(#[trigger] scan_from(st, t.take(k))).failed
        && scan_from(st, t.take(k)).depth >= st.depth by {
        if k <= a.len() {
            assert(t.take(k) == a.take(k));
        } else {
            let j = k - a.len();
            assert(t.take(k) == a + b.take(j));
            lemma_scan_from_concat(st, a, b.take(j));
            assert(!scan_from(mid, b.take(j)).failed);
        }
    }
}

/// Filler keeps the level.
pub proof fn lemma_keeps_level_filler(st: ScanState, w: Seq<char>)
    requires
        steady(st),
        is_filler(w),
    ensures
        keeps_level(st, w),
{
    assert forall|k: int| 0 <= k <= w.len() implies steady(#[trigger] scan_from(st, w.take(k)))
        && scan_from(st, w.take(k)).depth == st.depth by {
        lemma_scan_from_filler(st, w.take(k));
    }
    assert(w.take(w.len() as int) == w);
}

proof fn lemma_scan_from_filler(st: ScanState, w: Seq<char>)
    requires
        steady(st),
        is_filler(w),
    ensures
        steady(scan_from(st, w)),
        scan_from(st, w).depth == st.depth,
    decreases w.len(),
{
    if w.len() > 0 {
        let head = w.drop_last();
        assert forall|i: int| 0 <= i < head.len() implies head[i] != '{' && head[i] != '}'
            && head[i] != '"' by {
            assert(head[i] == w[i]);
        }
        lemma_scan_from_filler(st, head);
        assert(w.last() == w[w.len() - 1]);
    }
}

/// A single character other than a brace or a quote keeps the level.
pub proof fn lemma_keeps_level_mark(st: ScanState, c: char)
    requires
        steady(st),
        c != '{' && c != '}' && c != '"',
    ensures
        keeps_level(st, seq![c]),
{
    lemma_keeps_level_filler(st, seq![c]);
}

/// A text that is not yet refused as a string body has no prefix that is.
pub proof fn lemma_string_prefix(body: Seq<char>, k: int)
    requires
        0 <= k <= body.len(),
        !(string_part_after(body) is Bad),
    ensures
        !(string_part_after(body.take(k)) is Bad),
    decreases body.len(),
{
    if k == body.len() {
        assert(body.take(k) == body);
    } else {
        assert(body.drop_last().take(k) == body.take(k));
        lemma_string_prefix(body.drop_last(), k);
    }
}

/// Inside a string body the scanner stays inside the string: it is behind a
/// backslash exactly where the grammar is, and the depth does not move.
pub proof fn lemma_scan_string_body(st: ScanState, body: Seq<char>)
    requires
        st.mode is InString,
        !st.failed,
        !(string_part_after(body) is Bad),
    ensures
        !scan_from(st, body).failed,
        scan_from(st, body).depth == st.depth,
        string_part_after(body) is Escape ==> scan_from(st, body).mode is Escaped,
        !(string_part_after(body) is Escape) ==> scan_from(st, body).mode is InString,
    decreases body.len(),
{
    if body.len() > 0 {
        lemma_scan_string_body(st, body.drop_last());
    }
}

/// A string literal keeps the level, whatever stands between its quotes.
pub proof fn lemma_keeps_level_string(st: ScanState, body: Seq<char>)
    requires
        steady(st),
        is_string_body(body),
    ensures
        keeps_level(st, seq!['"'] + body + seq!['"']),
{
    let open = seq!['"'];
    let t = open + body + seq!['"'];
    let inside = step(st, '"');
    lemma_scan_from_single(st, '"');
    assert forall|k: int| 0 <= k <= t.len() implies !(#[trigger] scan_from(st, t.take(k))).failed
        && scan_from(st, t.take(k)).depth >= st.depth by {
        if k == 0 {
            assert(t.take(0) == Seq::<char>::empty());
        } else if k <= body.len() + 1 {
            assert(t.take(k) == open + body.take(k - 1));
            lemma_scan_from_concat(st, open, body.take(k - 1));
            lemma_string_prefix(body, k - 1);
            lemma_scan_string_body(inside, body.take(k - 1));
        } else {
            assert(t.take(k) == t);
            lemma_scan_from_concat(st, open, body);
            lemma_scan_from_concat(st, open + body, seq!['"']);
            lemma_scan_string_body(inside, body);
            lemma_scan_from_single(scan_from(inside, body), '"');
        }
    }
    lemma_scan_from_concat(st, open, body);
    lemma_scan_from_concat(st, open + body, seq!['"']);
    lemma_scan_string_body(inside, body);
    lemma_scan_from_single(scan_from(inside, body), '"');
}

/// A number holds no brace and no quote.
pub proof fn lemma_number_is_filler(text: Seq<char>)
    requires
        !(number_part_after(text) is Bad),
    ensures
        is_filler(text),
    decreases text.len(),
{
    if text.len() > 0 {
        let head = text.drop_last();
        lemma_number_is_filler(head);
        assert forall|i: int| 0 <= i < text.len() implies text[i] != '{' && text[i] != '}'
            && text[i] != '"' by {
            if i < head.len() {
                assert(head[i] == text[i]);
            } else {
                assert(text[i] == text.last());
            }
        }
    }
}

/// Between a `{` and its `}` the level is one higher: where the inside
/// keeps that level, the whole keeps the level outside.
pub proof fn lemma_keeps_level_braces(st: ScanState, inner: Seq<char>)
    requires
        steady(st),
        keeps_level(step(st, '{'), inner),
    ensures
        keeps_level(st, seq!['{'] + inner + seq!['}']),
{
    let open = seq!['{'];
    let t = open + inner + seq!['}'];
    let inside = step(st, '{');
    lemma_scan_from_single(st, '{');
    lemma_scan_from_concat(st, open, inner);
    lemma_scan_from_concat(st, open + inner, seq!['}']);
    lemma_scan_from_single(scan_from(inside, inner), '}');
    assert forall|k: int| 0 <= k <= t.len() implies !(#[trigger] scan_from(st, t.take(k))).failed
        && scan_from(st, t.take(k)).depth >= st.depth by {
        if k == 0 {
            assert(t.take(0) == Seq::<char>::empty());
        } else if k <= inner.len() + 1 {
            assert(t.take(k) == open + inner.take(k - 1));
            lemma_scan_from_concat(st, open, inner.take(k - 1));
            assert(!scan_from(inside, inner.take(k - 1)).failed);
        } else {
            assert(t.take(k) == t);
        }
    }
}

/// Every well-formed JSON value keeps the level.
pub proof fn lemma_json_keeps_level(value: Json, st: ScanState)
    requires
        well_formed_json(value),
        steady(st),
    ensures
        keeps_level(st, render(value)),
    decreases value,
{
    match value {
        Json::Null | Json::True | Json::False => {
            lemma_keeps_level_filler(st, render(value));
        },
        Json::Number(text) => {
            lemma_number_is_filler(text);
            lemma_keeps_level_filler(st, text);
        },
        Json::Text(body) => {
            lemma_keeps_level_string(st, body);
        },
        Json::EmptyArray(space) => {
            lemma_keeps_level_filler(st, render(value));
        },
        Json::Array(elements) => {
            let open = seq!['['];
            let inner = render_elements(*elements);
            lemma_keeps_level_mark(st, '[');
            lemma_elements_keep_level(*elements, scan_from(st, open));
            lemma_keeps_level_concat(st, open, inner);
            lemma_keeps_level_mark(scan_from(st, open + inner), ']');
            lemma_keeps_level_concat(st, open + inner, seq![']']);
        },
        Json::EmptyObject(space) => {
            lemma_keeps_level_filler(step(st, '{'), space);
            lemma_keeps_level_braces(st, space);
        },
        Json::Object(members) => {
            lemma_members_keep_level(*members, step(st, '{'));
            lemma_keeps_level_braces(st, render_members(*members));
        },
    }
}

/// Every well-formed value keeps the level with its whitespace around it.
pub proof fn lemma_element_keeps_level(element: Element, st: ScanState)
    requires
        well_formed_element(element),
        steady(st),
    ensures
        keeps_level(st, render_element(element)),
    decreases element,
{
    let a = element.before;
    let v = render(element.value);
    lemma_keeps_level_filler(st, a);
    lemma_json_keeps_level(element.value, scan_from(st, a));
    lemma_keeps_level_concat(st, a, v);
    lemma_keeps_level_filler(scan_from(st, a + v), element.behind);
    lemma_keeps_level_concat(st, a + v, element.behind);
}

/// Every well-formed list of elements keeps the level.
pub proof fn lemma_elements_keep_level(elements: Elements, st: ScanState)
    requires
        well_formed_elements(elements),
        steady(st),
    ensures
        keeps_level(st, render_elements(elements)),
    decreases elements,
{
    match elements {
        Elements::Last(element) => {
            lemma_element_keeps_level(element, st);
        },
        Elements::More(element, rest) => {
            let first = render_element(element);
            lemma_element_keeps_level(element, st);
            lemma_keeps_level_mark(scan_from(st, first), ',');
            lemma_keeps_level_concat(st, first, seq![',']);
            lemma_elements_keep_level(*rest, scan_from(st, first + seq![',']));
            lemma_keeps_level_concat(st, first + seq![','], render_elements(*rest));
        },
    }
}

/// Every well-formed member keeps the level.
pub proof fn lemma_member_keeps_level(member: Member, st: ScanState)
    requires
        well_formed_member(member),
        steady(st),
    ensures
        keeps_level(st, render_member(member)),
    decreases member,
{
    let a = member.before_key;
    let key = seq!['"'] + member.key + seq!['"'];
    lemma_keeps_level_filler(st, a);
    lemma_keeps_level_string(scan_from(st, a), member.key);
    assert(a + seq!['"'] + member.key + seq!['"'] == a + key);
    lemma_keeps_level_concat(st, a, key);
    let b = a + key;
    lemma_keeps_level_filler(scan_from(st, b), member.behind_key);
    lemma_keeps_level_concat(st, b, member.behind_key);
    let c = b + member.behind_key;
    lemma_keeps_level_mark(scan_from(st, c), ':');
    lemma_keeps_level_concat(st, c, seq![':']);
    let d = c + seq![':'];
    lemma_element_keeps_level(member.value, scan_from(st, d));
    lemma_keeps_level_concat(st, d, render_element(member.value));
}

/// Every well-formed list of members keeps the level.
pub proof fn lemma_members_keep_level(members: Members, st: ScanState)
    requires
        well_formed_members(members),
        steady(st),
    ensures
        keeps_level(st, render_members(members)),
    decreases members,
{
    match members {
        Members::Last(member) => {
            lemma_member_keeps_level(member, st);
        },
        Members::More(member, rest) => {
            let first = render_member(member);
            lemma_member_keeps_level(member, st);
            lemma_keeps_level_mark(scan_from(st, first), ',');
            lemma_keeps_level_concat(st, first, seq![',']);
            lemma_members_keep_level(*rest, scan_from(st, first + seq![',']));
            lemma_keeps_level_concat(st, first + seq![','], render_members(*rest));
        },
    }
}

/// What stands between the braces of an object.
pub open spec fn object_inside(value: Json) -> Seq<char> {
    match value {
        Json::EmptyObject(space) => space,
        Json::Object(members) => render_members(*members),
        _ => Seq::empty(),
    }
}

/// A well-formed JSON object is one top-level object to the scanner.
pub proof fn lemma_json_object_is_object_text(text: Seq<char>)
    requires
        is_json_object(text),
    ensures
        is_object_text(text),
{
    let value = choose|value: Json|
        #![trigger render(value)]
        (value is Object || value is EmptyObject) && well_formed_json(value) && render(value)
            == text;
    let open = seq!['{'];
    let inner = object_inside(value);
    let st = initial_state();
    let inside = step(st, '{');
    assert(text == open + inner + seq!['}']);
    match value {
        Json::EmptyObject(space) => {
            lemma_keeps_level_filler(inside, space);
        },
        Json::Object(members) => {
            lemma_members_keep_level(*members, inside);
        },
        _ => {},
    }
    assert(keeps_level(inside, inner));
    lemma_scan_from_single(st, '{');
    lemma_scan_from_concat(st, open, inner);
    lemma_scan_from_concat(st, open + inner, seq!['}']);
    lemma_scan_from_single(scan_from(inside, inner), '}');
    assert forall|k: int| 0 < k < text.len() implies (#[trigger] scan(text.take(k))).depth > 0 by {
        assert(text.take(k) == open + inner.take(k - 1));
        lemma_scan_from_concat(st, open, inner.take(k - 1));
        assert(!scan_from(inside, inner.take(k - 1)).failed);
    }
}

/// A batch of JSON documents: well-formed JSON objects with nothing but
/// whitespace before, between and behind them.
pub open spec fn is_json_batch(gaps: Seq<Seq<char>>, docs: Seq<Seq<char>>) -> bool {
    &&& gaps.len() == docs.len() + 1
    &&& forall|i: int| 0 <= i < gaps.len() ==> is_json_whitespace(#[trigger] gaps[i])
    &&& forall|i: int| 0 <= i < docs.len() ==> is_json_object(#[trigger] docs[i])
}

/// A batch of JSON documents is a batch to the scanner.
pub proof fn lemma_json_batch_is_batch(gaps: Seq<Seq<char>>, docs: Seq<Seq<char>>)
    requires
        is_json_batch(gaps, docs),
    ensures
        is_batch(gaps, docs),
{
    assert forall|i: int| 0 <= i < gaps.len() implies is_filler(#[trigger] gaps[i]) by {
        crate::scanner_laws::lemma_whitespace_is_filler(gaps[i]);
    }
    assert forall|i: int| 0 <= i < docs.len() implies is_object_text(#[trigger] docs[i]) by {
        lemma_json_object_is_object_text(docs[i]);
    }
}

/// On `N` well-formed JSON objects, one after the other and with whitespace
/// at most between them, the scanner finds exactly `N` ranges. They lie in
/// increasing order without overlap, and the bytes under the `i`-th range
/// are the bytes of the `i`-th object: each slice is again a well-formed
/// JSON object, the one that was put there.
pub proof fn lemma_scan_json_batch(gaps: Seq<Seq<char>>, docs: Seq<Seq<char>>)
    requires
        is_json_batch(gaps, docs),
    ensures
        verdict(batch_text(gaps, docs)) == Verdict::Ranges(batch_spans(gaps, docs)),
        batch_spans(gaps, docs).len() == docs.len(),
        ordered_within(batch_spans(gaps, docs), byte_len(batch_text(gaps, docs))),
        forall|i: int|
            0 <= i < docs.len() ==> encode_utf8(batch_text(gaps, docs)).subrange(
                (#[trigger] batch_spans(gaps, docs)[i]).start as int,
                batch_spans(gaps, docs)[i].end as int,
            ) == encode_utf8(docs[i]) && is_json_object(docs[i]),
{
    lemma_json_batch_is_batch(gaps, docs);
    lemma_scan_batch(gaps, docs);
}

} // verus!
