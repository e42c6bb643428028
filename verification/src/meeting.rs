//! Meeting-level extraction: the sitting's date, time of day, start
//! and end times, and (for committee sittings) the committee and its
//! chair, all read from the document's spans by keyword search and
//! small fixed grammars.
use crate::discussion::{collapse_spaces, spec_collapse_spaces};
use crate::lang::{dutch_month_to_number, spec_dutch_month_number};
use crate::patterns::{is_ascii_letter, spec_is_ascii_letter};
use crate::records::{ClockTime, Commission, Date, Node, NodeV, SpanV};
use crate::text::{
    chars_eq, chars_of, clean_chars, contains_sub, copy_range, find_char, find_sub, is_digit,
    is_space, lemma_find_char_range, lower, push_all, skip_spaces, spec_clean_text, spec_contains,
    spec_find_char_from, spec_find_from, spec_is_digit, spec_is_space, spec_lower, spec_match_at,
    spec_skip_spaces, spec_split, spec_starts_with, spec_trim, split_on, starts_with_sub,
    string_of, trim_chars, matches_at, lemma_find_from_range,
};
use crate::text::{join_with, spec_join};
use crate::votes::spec_find_table_from;
use vstd::prelude::*;

verus! {

/// The texts of a node's spans, in order.
pub open spec fn spec_spans_of(node: NodeV) -> Seq<Seq<char>> {
    node.spans.map_values(|sp: SpanV| sp.text)
}

/// The texts of every span of the document, in document order.
pub open spec fn spec_span_texts_from(nodes: Seq<NodeV>, i: int) -> Seq<Seq<char>>
    decreases nodes.len() - i when 0 <= i <= nodes.len()
{
    if i >= nodes.len() {
        Seq::empty()
    } else {
        spec_spans_of(nodes[i]) + spec_span_texts_from(nodes, i + 1)
    }
}

fn span_texts_of(node: &Node) -> (r: Vec<Vec<char>>)
    ensures
        r.deep_view() == spec_spans_of(node.deep_view()),
{
    let mut out: Vec<Vec<char>> = Vec::new();
    let mut j: usize = 0;
    while j < node.spans.len()
        invariant
            j <= node.spans.len(),
            out.deep_view() =~~= spec_spans_of(node.deep_view()).subrange(0, j as int),
        decreases node.spans.len() - j,
    {
        let ghost out0 = out.deep_view();
        out.push(chars_of(node.spans[j].text.as_str()));
        proof {
            assert(out.deep_view() =~~= out0.push(node.spans@[j as int].text@));
            assert(spec_spans_of(node.deep_view()).subrange(0, j + 1) =~~= spec_spans_of(
                node.deep_view(),
            ).subrange(0, j as int).push(spec_spans_of(node.deep_view())[j as int]));
            assert(spec_spans_of(node.deep_view())[j as int] == node.deep_view().spans[j as int].text);
            assert(node.deep_view().spans[j as int] == node.spans@[j as int].deep_view());
        }
        j += 1;
    }
    proof {
        assert(spec_spans_of(node.deep_view()).subrange(
            0,
            spec_spans_of(node.deep_view()).len() as int,
        ) =~~= spec_spans_of(node.deep_view()));
        assert(spec_spans_of(node.deep_view()).len() == node.spans.len());
    }
    out
}

fn all_span_texts(nodes: &Vec<Node>) -> (r: Vec<Vec<char>>)
    ensures
        r.deep_view() == spec_span_texts_from(nodes.deep_view(), 0),
{
    let mut out: Vec<Vec<char>> = Vec::new();
    let mut i: usize = 0;
    while i < nodes.len()
        invariant
            i <= nodes.len(),
            nodes.deep_view().len() == nodes.len(),
            spec_span_texts_from(nodes.deep_view(), 0) =~~= out.deep_view()
                + spec_span_texts_from(nodes.deep_view(), i as int),
        decreases nodes.len() - i,
    {
        let ghost out0 = out.deep_view();
        proof {
            assert(nodes.deep_view()[i as int] == nodes@[i as int].deep_view());
        }
        let spans = span_texts_of(&nodes[i]);
        let mut j: usize = 0;
        while j < spans.len()
            invariant
                j <= spans.len(),
                out.deep_view() =~~= out0 + spans.deep_view().subrange(0, j as int),
            decreases spans.len() - j,
        {
            let ghost mid = out.deep_view();
            let span = copy_range(&spans[j], 0, spans[j].len());
            proof {
                assert(span@ =~= spans@[j as int]@);
                assert(spans.deep_view()[j as int] =~= spans@[j as int]@);
            }
            out.push(span);
            proof {
                assert(out.deep_view() =~~= mid.push(spans.deep_view()[j as int]));
                assert(mid.push(spans.deep_view()[j as int]) =~~= out0 + spans.deep_view().subrange(
                    0,
                    j + 1,
                ));
            }
            j += 1;
        }
        proof {
            assert(spans.deep_view().subrange(0, spans.deep_view().len() as int) =~~= spans.deep_view());
            assert(out.deep_view() =~~= out0 + spans.deep_view());
        }
        i += 1;
    }
    assert(out.deep_view() =~~= spec_span_texts_from(nodes.deep_view(), 0));
    out
}

/// Whether the text contains any of the keywords, both sides folded to
/// lower case.
pub open spec fn spec_any_keyword(t: Seq<char>, kws: Seq<Seq<char>>, k: int) -> bool
    decreases kws.len() - k when 0 <= k <= kws.len()
{
    if k >= kws.len() {
        false
    } else if spec_contains(spec_lower(t), spec_lower(kws[k])) {
        true
    } else {
        spec_any_keyword(t, kws, k + 1)
    }
}

fn any_keyword(t: &Vec<char>, kws: &Vec<String>) -> (r: bool)
    ensures
        r == spec_any_keyword(t@, kws.deep_view(), 0),
{
    let lt = lower(t);
    let mut k: usize = 0;
    while k < kws.len()
        invariant
            k <= kws.len(),
            kws.deep_view().len() == kws.len(),
            lt@ == spec_lower(t@),
            spec_any_keyword(t@, kws.deep_view(), 0) == spec_any_keyword(
                t@,
                kws.deep_view(),
                k as int,
            ),
        decreases kws.len() - k,
    {
        proof {
            assert(kws.deep_view()[k as int] == kws@[k as int]@);
        }
        let kv = chars_of(kws[k].as_str());
        let lk = lower(&kv);
        if contains_sub(&lt, &lk) {
            return true;
        }
        k += 1;
    }
    false
}

/// The clock time written at position `p`, when the text there reads
/// `H.MM` or `HH.MM` followed by optional spaces, an optional stray
/// `0`, and the word `uur`.
pub open spec fn spec_time_at(s: Seq<char>, p: int) -> Option<ClockTime> {
    if p + 5 <= s.len() && spec_is_digit(s[p]) && spec_is_digit(s[p + 1]) && s[p + 2] == '.'
        && spec_is_digit(s[p + 3]) && spec_is_digit(s[p + 4]) && spec_time_tail(s, p + 5) {
        Some(
            ClockTime {
                hour: (10 * (s[p] as int - 48) + (s[p + 1] as int - 48)) as u32,
                minute: (10 * (s[p + 3] as int - 48) + (s[p + 4] as int - 48)) as u32,
            },
        )
    } else if p + 4 <= s.len() && spec_is_digit(s[p]) && s[p + 1] == '.' && spec_is_digit(s[p + 2])
        && spec_is_digit(s[p + 3]) && spec_time_tail(s, p + 4) {
        Some(
            ClockTime {
                hour: (s[p] as int - 48) as u32,
                minute: (10 * (s[p + 2] as int - 48) + (s[p + 3] as int - 48)) as u32,
            },
        )
    } else {
        None
    }
}

/// After the minutes: optional spaces, an optional stray `0`, and the
/// word `uur`.
pub open spec fn spec_time_tail(s: Seq<char>, p: int) -> bool {
    if 0 <= p <= s.len() {
        let j = spec_skip_spaces(s, p);
        spec_match_at(s, "uur"@, j) || (j < s.len() && s[j] == '0' && spec_match_at(
            s,
            "uur"@,
            j + 1,
        ))
    } else {
        false
    }
}

fn time_tail(s: &Vec<char>, p: usize) -> (r: bool)
    requires
        p <= s.len(),
    ensures
        r == spec_time_tail(s@, p as int),
{
    let j = skip_spaces(s, p);
    let uur = chars_of("uur");
    matches_at(s, &uur, j) || (j < s.len() && s[j] == '0' && matches_at(s, &uur, j + 1))
}

fn time_at(s: &Vec<char>, p: usize) -> (r: Option<ClockTime>)
    requires
        p <= s.len(),
    ensures
        r == spec_time_at(s@, p as int),
{
    if s.len() - p >= 5 && is_digit(s[p]) && is_digit(s[p + 1]) && s[p + 2] == '.' && is_digit(
        s[p + 3],
    ) && is_digit(s[p + 4]) && time_tail(s, p + 5) {
        let hour: u32 = 10 * ((s[p] as u32) - 48) + ((s[p + 1] as u32) - 48);
        let minute: u32 = 10 * ((s[p + 3] as u32) - 48) + ((s[p + 4] as u32) - 48);
        Some(ClockTime { hour, minute })
    } else if s.len() - p >= 4 && is_digit(s[p]) && s[p + 1] == '.' && is_digit(s[p + 2])
        && is_digit(s[p + 3]) && time_tail(s, p + 4) {
        let hour: u32 = (s[p] as u32) - 48;
        let minute: u32 = 10 * ((s[p + 2] as u32) - 48) + ((s[p + 3] as u32) - 48);
        Some(ClockTime { hour, minute })
    } else {
        None
    }
}

/// The first clock time written in the text at or after `p`.
pub open spec fn spec_first_time(s: Seq<char>, p: int) -> Option<ClockTime>
    decreases s.len() - p when 0 <= p <= s.len()
{
    if p >= s.len() {
        None
    } else {
        match spec_time_at(s, p) {
            Option::Some(ct) => Some(ct),
            Option::None => spec_first_time(s, p + 1),
        }
    }
}

fn first_time(s: &Vec<char>) -> (r: Option<ClockTime>)
    ensures
        r == spec_first_time(s@, 0),
{
    let mut p: usize = 0;
    while p < s.len()
        invariant
            p <= s.len(),
            spec_first_time(s@, 0) == spec_first_time(s@, p as int),
        decreases s.len() - p,
    {
        match time_at(s, p) {
            Some(ct) => {
                return Some(ct);
            },
            None => {
                p += 1;
            },
        }
    }
    None
}

/// The scan over all spans: each span containing one of the keywords
/// and a clock time updates the running answer, so the last such span
/// wins.
pub open spec fn spec_time_scan(
    spans: Seq<Seq<char>>,
    kws: Seq<Seq<char>>,
    i: int,
    last: Option<ClockTime>,
) -> Option<ClockTime>
    decreases spans.len() - i when 0 <= i <= spans.len()
{
    if i >= spans.len() {
        last
    } else {
        let next = if spec_any_keyword(spans[i], kws, 0) {
            match spec_first_time(spans[i], 0) {
                Option::Some(ct) => Some(ct),
                Option::None => last,
            }
        } else {
            last
        };
        spec_time_scan(spans, kws, i + 1, next)
    }
}

/// The clock time a document states for the spans matching the given
/// keywords: the last matching span's first written time.
pub open spec fn spec_extract_time(nodes: Seq<NodeV>, kws: Seq<Seq<char>>) -> Option<ClockTime> {
    spec_time_scan(spec_span_texts_from(nodes, 0), kws, 0, None)
}

/// Finds the clock time stated by the last span that contains any of
/// the keywords (case folded); within a span the first written
/// `H.MM uur` / `HH.MM uur` time counts.
pub fn extract_time_from_document(nodes: &Vec<Node>, keywords: &Vec<String>) -> (r: Option<
    ClockTime,
>)
    ensures
        r == spec_extract_time(nodes.deep_view(), keywords.deep_view()),
{
    let spans = all_span_texts(nodes);
    let mut last: Option<ClockTime> = None;
    let mut i: usize = 0;
    while i < spans.len()
        invariant
            i <= spans.len(),
            spans.deep_view() == spec_span_texts_from(nodes.deep_view(), 0),
            spec_time_scan(spans.deep_view(), keywords.deep_view(), 0, None) == spec_time_scan(
                spans.deep_view(),
                keywords.deep_view(),
                i as int,
                last,
            ),
        decreases spans.len() - i,
    {
        proof {
            assert(spans.deep_view()[i as int] =~= spans@[i as int]@);
        }
        if any_keyword(&spans[i], keywords) {
            match first_time(&spans[i]) {
                Some(ct) => {
                    last = Some(ct);
                },
                None => {},
            }
        }
        i += 1;
    }
    last
}

} // verus!

verus! {

fn keywords_of_one(s: &str) -> (r: Vec<String>)
    ensures
        r.deep_view() =~~= seq![s@],
{
    let mut v: Vec<String> = Vec::new();
    v.push(String::from_str(s));
    v
}

/// The opening time of a plenary sitting: the time at which the
/// sitting was opened, or failing that, resumed.
pub open spec fn spec_start_time(nodes: Seq<NodeV>) -> Option<ClockTime> {
    match spec_extract_time(nodes, seq!["De vergadering wordt geopend"@]) {
        Option::Some(ct) => Some(ct),
        Option::None => spec_extract_time(nodes, seq!["De vergadering wordt hervat"@]),
    }
}

pub fn extract_start_time_from_document(nodes: &Vec<Node>) -> (r: Option<ClockTime>)
    ensures
        r == spec_start_time(nodes.deep_view()),
{
    let k1 = keywords_of_one("De vergadering wordt geopend");
    match extract_time_from_document(nodes, &k1) {
        Some(ct) => Some(ct),
        None => {
            let k2 = keywords_of_one("De vergadering wordt hervat");
            extract_time_from_document(nodes, &k2)
        },
    }
}

/// The closing time of a plenary sitting: the time at which the
/// sitting was closed, or failing that, suspended.
pub open spec fn spec_end_time(nodes: Seq<NodeV>) -> Option<ClockTime> {
    match spec_extract_time(nodes, seq!["De vergadering wordt gesloten"@]) {
        Option::Some(ct) => Some(ct),
        Option::None => spec_extract_time(nodes, seq!["De vergadering wordt geschorst"@]),
    }
}

pub fn extract_end_time_from_document(nodes: &Vec<Node>) -> (r: Option<ClockTime>)
    ensures
        r == spec_end_time(nodes.deep_view()),
{
    let k1 = keywords_of_one("De vergadering wordt gesloten");
    match extract_time_from_document(nodes, &k1) {
        Some(ct) => Some(ct),
        None => {
            let k2 = keywords_of_one("De vergadering wordt geschorst");
            extract_time_from_document(nodes, &k2)
        },
    }
}

/// The opening phrases a committee report may use.
pub open spec fn spec_commission_start_keywords() -> Seq<Seq<char>> {
    seq![
        "De behandeling van de"@,
        "De openbare commissievergadering wordt geopend"@,
        "De vergadering wordt geopend"@,
        "De gedachtewisseling vangt aan"@,
    ]
}

/// The closing phrases a committee report may use.
pub open spec fn spec_commission_end_keywords() -> Seq<Seq<char>> {
    seq![
        "De openbare commissievergadering wordt gesloten"@,
        "De gedachtewisseling met de ministers eindigt"@,
        "De behandeling van de vragen eindigt"@,
        "De gedachtewisseling eindigt"@,
        "De vergadering wordt gesloten"@,
        "De behandeling van de interpellatie eindigt"@,
        "De behandeling van de interpellaties eindigt"@,
    ]
}

pub open spec fn spec_commission_start_time(nodes: Seq<NodeV>) -> Option<ClockTime> {
    spec_extract_time(nodes, spec_commission_start_keywords())
}

/// The opening time of a committee sitting, matched against the whole
/// family of opening phrases at once.
pub fn extract_commission_start_time(nodes: &Vec<Node>) -> (r: Option<ClockTime>)
    ensures
        r == spec_commission_start_time(nodes.deep_view()),
{
    let mut kws: Vec<String> = Vec::new();
    kws.push(String::from_str("De behandeling van de"));
    kws.push(String::from_str("De openbare commissievergadering wordt geopend"));
    kws.push(String::from_str("De vergadering wordt geopend"));
    kws.push(String::from_str("De gedachtewisseling vangt aan"));
    assert(kws.deep_view() =~~= spec_commission_start_keywords());
    extract_time_from_document(nodes, &kws)
}

pub open spec fn spec_commission_end_time(nodes: Seq<NodeV>) -> Option<ClockTime> {
    spec_extract_time(nodes, spec_commission_end_keywords())
}

/// The closing time of a committee sitting, matched against the whole
/// family of closing phrases at once.
pub fn extract_commission_end_time(nodes: &Vec<Node>) -> (r: Option<ClockTime>)
    ensures
        r == spec_commission_end_time(nodes.deep_view()),
{
    let mut kws: Vec<String> = Vec::new();
    kws.push(String::from_str("De openbare commissievergadering wordt gesloten"));
    kws.push(String::from_str("De gedachtewisseling met de ministers eindigt"));
    kws.push(String::from_str("De behandeling van de vragen eindigt"));
    kws.push(String::from_str("De gedachtewisseling eindigt"));
    kws.push(String::from_str("De vergadering wordt gesloten"));
    kws.push(String::from_str("De behandeling van de interpellatie eindigt"));
    kws.push(String::from_str("De behandeling van de interpellaties eindigt"));
    assert(kws.deep_view() =~~= spec_commission_end_keywords());
    extract_time_from_document(nodes, &kws)
}

/// The part of day a span text names, when trimmed and folded to
/// lower case it is exactly one of the three markers.
pub open spec fn spec_tod_of(t: Seq<char>) -> Option<crate::records::TimeOfDay> {
    let l = spec_trim(spec_lower(t));
    if l == "namiddag"@ {
        Some(crate::records::TimeOfDay::Afternoon)
    } else if l == "voormiddag"@ {
        Some(crate::records::TimeOfDay::Morning)
    } else if l == "avond"@ {
        Some(crate::records::TimeOfDay::Evening)
    } else {
        None
    }
}

pub open spec fn spec_tod_scan(spans: Seq<Seq<char>>, i: int) -> Option<crate::records::TimeOfDay>
    decreases spans.len() - i when 0 <= i <= spans.len()
{
    if i >= spans.len() {
        None
    } else {
        match spec_tod_of(spans[i]) {
            Option::Some(t) => Some(t),
            Option::None => spec_tod_scan(spans, i + 1),
        }
    }
}

/// The part of day the document states: the first span that is
/// exactly one of the three markers.
pub open spec fn spec_time_of_day(nodes: Seq<NodeV>) -> Option<crate::records::TimeOfDay> {
    spec_tod_scan(spec_span_texts_from(nodes, 0), 0)
}

/// Finds whether the sitting was a morning, afternoon or evening one:
/// the first span reading exactly `voormiddag`, `namiddag` or `avond`.
pub fn extract_time_of_day_from_document(nodes: &Vec<Node>) -> (r: Option<
    crate::records::TimeOfDay,
>)
    ensures
        r == spec_time_of_day(nodes.deep_view()),
{
    let spans = all_span_texts(nodes);
    let mut i: usize = 0;
    while i < spans.len()
        invariant
            i <= spans.len(),
            spans.deep_view() == spec_span_texts_from(nodes.deep_view(), 0),
            spec_time_of_day(nodes.deep_view()) == spec_tod_scan(spans.deep_view(), i as int),
        decreases spans.len() - i,
    {
        proof {
            assert(spans.deep_view()[i as int] =~= spans@[i as int]@);
        }
        let l0 = lower(&spans[i]);
        let l = trim_chars(&l0);
        let nam = chars_of("namiddag");
        if chars_eq(&l, &nam) {
            return Some(crate::records::TimeOfDay::Afternoon);
        }
        let voor = chars_of("voormiddag");
        if chars_eq(&l, &voor) {
            return Some(crate::records::TimeOfDay::Morning);
        }
        let avond = chars_of("avond");
        if chars_eq(&l, &avond) {
            return Some(crate::records::TimeOfDay::Evening);
        }
        i += 1;
    }
    None
}

} // verus!

verus! {

/// Index of the first non-ASCII-letter character at or after `i`.
pub open spec fn spec_skip_letters(s: Seq<char>, i: int) -> int
    decreases s.len() - i when 0 <= i <= s.len()
{
    if i >= s.len() {
        i
    } else if spec_is_ascii_letter(s[i]) {
        spec_skip_letters(s, i + 1)
    } else {
        i
    }
}


fn skip_letters(v: &Vec<char>, from: usize) -> (r: usize)
    requires
        from <= v.len(),
    ensures
        r == spec_skip_letters(v@, from as int),
        from <= r <= v.len(),
{
    let mut i: usize = from;
    while i < v.len() && is_ascii_letter(v[i])
        invariant
            from <= i <= v.len(),
            spec_skip_letters(v@, from as int) == spec_skip_letters(v@, i as int),
        decreases v.len() - i,
    {
        i += 1;
    }
    i
}

/// A printed date read at position `p`: one or two day digits,
/// whitespace, a month name in letters, whitespace, and a four-digit
/// year.
pub open spec fn spec_date_at(s: Seq<char>, p: int) -> Option<(int, Seq<char>, int)> {
    if p + 2 < s.len() && spec_is_digit(s[p]) && spec_is_digit(s[p + 1]) && spec_is_space(
        s[p + 2],
    ) {
        spec_date_tail(s, 10 * (s[p] as int - 48) + (s[p + 1] as int - 48), p + 2)
    } else if p + 1 < s.len() && spec_is_digit(s[p]) && spec_is_space(s[p + 1]) {
        spec_date_tail(s, s[p] as int - 48, p + 1)
    } else {
        None
    }
}

/// After the day digits: the month letters and the four year digits.
pub open spec fn spec_date_tail(s: Seq<char>, day: int, p: int) -> Option<(int, Seq<char>, int)> {
    if 0 <= p <= s.len() {
        let a = spec_skip_spaces(s, p);
        let e = spec_skip_letters(s, a);
        if e > a && e < s.len() && spec_is_space(s[e]) {
            let y = spec_skip_spaces(s, e);
            if y + 4 <= s.len() && spec_is_digit(s[y]) && spec_is_digit(s[y + 1]) && spec_is_digit(
                s[y + 2],
            ) && spec_is_digit(s[y + 3]) {
                Some(
                    (
                        day,
                        s.subrange(a, e),
                        1000 * (s[y] as int - 48) + 100 * (s[y + 1] as int - 48) + 10 * (s[y + 2] as int
                            - 48) + (s[y + 3] as int - 48),
                    ),
                )
            } else {
                None
            }
        } else {
            None
        }
    } else {
        None
    }
}

fn date_tail(s: &Vec<char>, day: u32, p: usize) -> (r: Option<(u32, Vec<char>, u32)>)
    requires
        p <= s.len(),
        day < 100,
    ensures
        match r {
            Some(t) => spec_date_at_result(spec_date_tail(s@, day as int, p as int), t.0, t.1@, t.2),
            None => spec_date_tail(s@, day as int, p as int) is None,
        },
{
    let a = skip_spaces(s, p);
    let e = skip_letters(s, a);
    if e > a && e < s.len() && is_space(s[e]) {
        let y = skip_spaces(s, e);
        if s.len() - y >= 4 && is_digit(s[y]) && is_digit(s[y + 1]) && is_digit(s[y + 2])
            && is_digit(s[y + 3]) {
            let month = copy_range(s, a, e);
            let year: u32 = 1000 * ((s[y] as u32) - 48) + 100 * ((s[y + 1] as u32) - 48) + 10 * ((
            s[y + 2] as u32) - 48) + ((s[y + 3] as u32) - 48);
            Some((day, month, year))
        } else {
            None
        }
    } else {
        None
    }
}

/// Whether a found date triple has exactly these components.
pub open spec fn spec_date_at_result(
    r: Option<(int, Seq<char>, int)>,
    day: u32,
    month: Seq<char>,
    year: u32,
) -> bool {
    r == Some((day as int, month, year as int))
}

fn date_at(s: &Vec<char>, p: usize) -> (r: Option<(u32, Vec<char>, u32)>)
    requires
        p <= s.len(),
    ensures
        match r {
            Some(t) => spec_date_at_result(spec_date_at(s@, p as int), t.0, t.1@, t.2),
            None => spec_date_at(s@, p as int) is None,
        },
{
    if s.len() - p > 2 && is_digit(s[p]) && is_digit(s[p + 1]) && is_space(s[p + 2]) {
        let day: u32 = 10 * ((s[p] as u32) - 48) + ((s[p + 1] as u32) - 48);
        date_tail(s, day, p + 2)
    } else if s.len() - p > 1 && is_digit(s[p]) && is_space(s[p + 1]) {
        let day: u32 = (s[p] as u32) - 48;
        date_tail(s, day, p + 1)
    } else {
        None
    }
}

/// The first printed date in the text at or after `p`.
pub open spec fn spec_find_date(s: Seq<char>, p: int) -> Option<(int, Seq<char>, int)>
    decreases s.len() - p when 0 <= p <= s.len()
{
    if p >= s.len() {
        None
    } else {
        match spec_date_at(s, p) {
            Option::Some(d) => Some(d),
            Option::None => spec_find_date(s, p + 1),
        }
    }
}

fn find_date(s: &Vec<char>) -> (r: Option<(u32, Vec<char>, u32)>)
    ensures
        match r {
            Some(t) => spec_date_at_result(spec_find_date(s@, 0), t.0, t.1@, t.2),
            None => spec_find_date(s@, 0) is None,
        },
{
    let mut p: usize = 0;
    while p < s.len()
        invariant
            p <= s.len(),
            spec_find_date(s@, 0) == spec_find_date(s@, p as int),
        decreases s.len() - p,
    {
        match date_at(s, p) {
            Some(d) => {
                return Some(d);
            },
            None => {
                p += 1;
            },
        }
    }
    None
}

/// The spans of the first table joined, each followed by one space:
/// the header text in which the sitting's date is printed.
pub open spec fn spec_date_text(spans: Seq<Seq<char>>) -> Seq<char>
    decreases spans.len(),
{
    if spans.len() == 0 {
        Seq::empty()
    } else {
        spec_date_text(spans.drop_last()) + spans.last() + " "@
    }
}

/// The sitting's date: the first `day month year` group printed in the
/// first table's spans, with a recognised Dutch month name.
pub open spec fn spec_extract_date(nodes: Seq<NodeV>) -> Option<Date> {
    match spec_find_table_from(nodes, 0) {
        Option::None => None,
        Option::Some(t) => match spec_find_date(spec_date_text(spec_spans_of(nodes[t])), 0) {
            Option::None => None,
            Option::Some(d) => match spec_dutch_month_number(d.1) {
                Option::None => None,
                Option::Some(m) => Some(Date { year: d.2 as u32, month: m, day: d.0 as u32 }),
            },
        },
    }
}

/// Finds the sitting's date in the first table of the document. The
/// result is absent when the document has no table, no printed date,
/// or an unrecognised month name.
pub fn extract_date_from_document(nodes: &Vec<Node>) -> (r: Option<Date>)
    ensures
        r == spec_extract_date(nodes.deep_view()),
{
    let t = match crate::votes::find_table_from(nodes, 0) {
        None => {
            return None;
        },
        Some(t) => t,
    };
    proof {
        assert(nodes.deep_view()[t as int] == nodes@[t as int].deep_view());
    }
    let spans = span_texts_of(&nodes[t]);
    let mut text: Vec<char> = Vec::new();
    let mut j: usize = 0;
    while j < spans.len()
        invariant
            j <= spans.len(),
            text@ =~= spec_date_text(spans.deep_view().subrange(0, j as int)),
        decreases spans.len() - j,
    {
        let ghost t0 = text@;
        proof {
            reveal_strlit(" ");
            assert(spans.deep_view()[j as int] =~= spans@[j as int]@);
        }
        push_all(&mut text, &spans[j]);
        text.push(' ');
        proof {
            let sv = spans.deep_view();
            assert(sv.subrange(0, j + 1).drop_last() =~= sv.subrange(0, j as int));
            assert(sv.subrange(0, j + 1).last() == sv[j as int]);
            assert(text@ =~= t0 + sv[j as int] + " "@);
        }
        j += 1;
    }
    proof {
        assert(spans.deep_view().subrange(0, spans.deep_view().len() as int) =~= spans.deep_view());
    }
    match find_date(&text) {
        None => None,
        Some((day, month_chars, year)) => {
            let month_str = string_of(&month_chars);
            match dutch_month_to_number(month_str.as_str()) {
                None => None,
                Some(m) => Some(Date { year, month: m, day }),
            }
        },
    }
}

} // verus!

verus! {

/// A chair name with its leading courtesy title removed (matched
/// without regard to letter case) and trimmed.
pub open spec fn spec_strip_chair_title(part: Seq<char>) -> Seq<char> {
    let t = spec_trim(part);
    let l = spec_lower(t);
    let n: int = if spec_starts_with(l, "de mevrouwen "@) {
        "de mevrouwen "@.len() as int
    } else if spec_starts_with(l, "de mevrouw "@) {
        "de mevrouw "@.len() as int
    } else if spec_starts_with(l, "de heren "@) {
        "de heren "@.len() as int
    } else if spec_starts_with(l, "de heer "@) {
        "de heer "@.len() as int
    } else if spec_starts_with(l, "mevrouwen "@) {
        "mevrouwen "@.len() as int
    } else if spec_starts_with(l, "mevrouw "@) {
        "mevrouw "@.len() as int
    } else if spec_starts_with(l, "heren "@) {
        "heren "@.len() as int
    } else if spec_starts_with(l, "heer "@) {
        "heer "@.len() as int
    } else {
        0
    };
    spec_trim(t.subrange(n, t.len() as int))
}

fn strip_chair_title(part: &Vec<char>) -> (r: Vec<char>)
    ensures
        r@ == spec_strip_chair_title(part@),
{
    let t = trim_chars(part);
    let l = lower(&t);
    let p1 = chars_of("de mevrouwen ");
    let p2 = chars_of("de mevrouw ");
    let p3 = chars_of("de heren ");
    let p4 = chars_of("de heer ");
    let p5 = chars_of("mevrouwen ");
    let p6 = chars_of("mevrouw ");
    let p7 = chars_of("heren ");
    let p8 = chars_of("heer ");
    let n: usize = if starts_with_sub(&l, &p1) {
        p1.len()
    } else if starts_with_sub(&l, &p2) {
        p2.len()
    } else if starts_with_sub(&l, &p3) {
        p3.len()
    } else if starts_with_sub(&l, &p4) {
        p4.len()
    } else if starts_with_sub(&l, &p5) {
        p5.len()
    } else if starts_with_sub(&l, &p6) {
        p6.len()
    } else if starts_with_sub(&l, &p7) {
        p7.len()
    } else if starts_with_sub(&l, &p8) {
        p8.len()
    } else {
        0
    };
    assert(l@.len() == t@.len());
    let head = copy_range(&t, n, t.len());
    trim_chars(&head)
}

/// The non-empty chair names among the split parts, titles stripped.
pub open spec fn spec_chair_names(parts: Seq<Seq<char>>, i: int) -> Seq<Seq<char>>
    decreases parts.len() - i when 0 <= i <= parts.len()
{
    if i >= parts.len() {
        Seq::empty()
    } else {
        let name = spec_strip_chair_title(parts[i]);
        (if name.len() > 0 {
            seq![name]
        } else {
            Seq::<Seq<char>>::empty()
        }) + spec_chair_names(parts, i + 1)
    }
}

/// The chair names a text states, when it contains the phrase
/// `voorgezeten door`: everything up to the next full stop, split on
/// ` en `, each part stripped of its title; the names joined with a
/// comma. Nothing when the phrase is absent or no name is left.
pub open spec fn spec_chair_in(text: Seq<char>) -> Option<Seq<char>> {
    let c = spec_collapse_spaces(spec_clean_text(text));
    let lc = spec_lower(c);
    match spec_find_from(lc, "voorgezeten door "@, 0) {
        Option::None => None,
        Option::Some(m) => {
            let start = m + "voorgezeten door "@.len();
            let stop: int = match spec_find_char_from(c, '.', start) {
                Option::None => c.len() as int,
                Option::Some(k) => k,
            };
            let chunk = spec_trim(c.subrange(start, stop));
            let names = spec_chair_names(spec_split(chunk, " en "@), 0);
            if names.len() > 0 {
                Some(spec_join(names, ", "@))
            } else {
                None
            }
        },
    }
}

fn chair_in(text: &Vec<char>) -> (r: Option<Vec<char>>)
    ensures
        match r {
            Some(v) => spec_chair_in(text@) == Some(v@),
            None => spec_chair_in(text@) is None,
        },
{
    let cleaned = clean_chars(text);
    let c = collapse_spaces(&cleaned);
    let lc = lower(&c);
    let phrase = chars_of("voorgezeten door ");
    let m = match find_sub(&lc, &phrase, 0) {
        None => {
            return None;
        },
        Some(m) => m,
    };
    proof {
        lemma_find_from_range(lc@, "voorgezeten door "@, 0);
        assert(lc@.len() == c@.len());
    }
    let start = m + phrase.len();
    let stop: usize = match find_char(&c, '.', start) {
        None => c.len(),
        Some(k) => {
            proof {
                lemma_find_char_range(c@, '.', start as int);
            }
            k
        },
    };
    let head = copy_range(&c, start, stop);
    let chunk = trim_chars(&head);
    let en = chars_of(" en ");
    proof {
        reveal_strlit(" en ");
    }
    let parts = split_on(&chunk, &en);
    let ghost partsv = parts.deep_view();
    let mut names: Vec<Vec<char>> = Vec::new();
    let mut i: usize = 0;
    while i < parts.len()
        invariant
            i <= parts.len(),
            partsv == parts.deep_view(),
            partsv.len() == parts.len(),
            names.deep_view() =~~= spec_chair_names(partsv, 0).subrange(
                0,
                names.deep_view().len() as int,
            ),
            spec_chair_names(partsv, 0) =~~= names.deep_view() + spec_chair_names(partsv, i as int),
        decreases parts.len() - i,
    {
        let ghost names0 = names.deep_view();
        proof {
            assert(parts.deep_view()[i as int] =~= parts@[i as int]@);
        }
        let name = strip_chair_title(&parts[i]);
        if name.len() > 0 {
            names.push(name);
            proof {
                assert(names.deep_view() =~~= names0.push(name@));
            }
        }
        proof {
            assert(spec_chair_names(partsv, i as int) =~~= (if spec_strip_chair_title(
                partsv[i as int],
            ).len() > 0 {
                seq![spec_strip_chair_title(partsv[i as int])]
            } else {
                Seq::<Seq<char>>::empty()
            }) + spec_chair_names(partsv, i + 1));
            assert(names.deep_view() + spec_chair_names(partsv, i + 1) =~~= names0
                + spec_chair_names(partsv, i as int));
        }
        i += 1;
    }
    if names.len() > 0 {
        let sep = chars_of(", ");
        Some(join_with(&names, &sep))
    } else {
        None
    }
}

/// The chair of the sitting: the first node whose text yields chair
/// names.
pub open spec fn spec_extract_chair(nodes: Seq<NodeV>, i: int) -> Option<Seq<char>>
    decreases nodes.len() - i when 0 <= i <= nodes.len()
{
    if i >= nodes.len() {
        None
    } else {
        match spec_chair_in(nodes[i].text) {
            Option::Some(c) => Some(c),
            Option::None => spec_extract_chair(nodes, i + 1),
        }
    }
}

/// Finds who chaired the sitting: the first node stating
/// `voorgezeten door ...`, with titles stripped and several names
/// joined by commas.
pub fn extract_chair_from_document(nodes: &Vec<Node>) -> (r: Option<String>)
    ensures
        match r {
            Some(s) => spec_extract_chair(nodes.deep_view(), 0) == Some(s@),
            None => spec_extract_chair(nodes.deep_view(), 0) is None,
        },
{
    let mut i: usize = 0;
    while i < nodes.len()
        invariant
            i <= nodes.len(),
            nodes.deep_view().len() == nodes.len(),
            spec_extract_chair(nodes.deep_view(), 0) == spec_extract_chair(
                nodes.deep_view(),
                i as int,
            ),
        decreases nodes.len() - i,
    {
        proof {
            assert(nodes.deep_view()[i as int] == nodes@[i as int].deep_view());
        }
        let text = chars_of(nodes[i].text.as_str());
        match chair_in(&text) {
            Some(v) => {
                return Some(string_of(&v));
            },
            None => {
                i += 1;
            },
        }
    }
    None
}

} // verus!

verus! {

/// The committee a report header names, classified by substring
/// matching on the lowercased text; an unmatched header is Onbekend.
pub open spec fn spec_parse_commission(s: Seq<char>) -> Commission {
    let l = spec_lower(spec_trim(s));
    if spec_contains(l, "binnenlandse"@) {
        Commission::BinnenlandseZakenVeiligheidMigratieEnBestuurszaken
    } else if spec_contains(l, "justitie"@) {
        Commission::Justitie
    } else if spec_contains(l, "gezondheid"@) {
        Commission::GezondheidEnGelijkeKansen
    } else if spec_contains(l, "economie"@) {
        Commission::EconomieConsumentenBeschermingEnDigitalisering
    } else if spec_contains(l, "buitenlandse"@) {
        Commission::BuitenlandseBetrekkingen
    } else if spec_contains(l, "mobiliteit"@) {
        Commission::MobiliteitOverheidsbedrijvenEnFederaleInstellingen
    } else if spec_contains(l, "landsverdediging"@) {
        Commission::Landsverdediging
    } else if spec_contains(l, "energie"@) {
        Commission::EnergieLeefmilieuEnKlimaat
    } else if spec_contains(l, "sociale"@) {
        Commission::SocialeZakenWerkEnPensioenen
    } else if spec_contains(l, "begroting"@) {
        Commission::FinancienEnBegroting
    } else if spec_contains(l, "klimaatdialoog"@) {
        Commission::InterparlementaireKlimaatdialoog
    } else {
        Commission::Onbekend
    }
}

/// Classifies which committee a header names, by keyword containment.
pub fn parse_commission_type(raw: &str) -> (r: Commission)
    ensures
        r == spec_parse_commission(raw@),
{
    let v = chars_of(raw);
    let t = trim_chars(&v);
    let l = lower(&t);
    let k1 = chars_of("binnenlandse");
    if contains_sub(&l, &k1) {
        return Commission::BinnenlandseZakenVeiligheidMigratieEnBestuurszaken;
    }
    let k2 = chars_of("justitie");
    if contains_sub(&l, &k2) {
        return Commission::Justitie;
    }
    let k3 = chars_of("gezondheid");
    if contains_sub(&l, &k3) {
        return Commission::GezondheidEnGelijkeKansen;
    }
    let k4 = chars_of("economie");
    if contains_sub(&l, &k4) {
        return Commission::EconomieConsumentenBeschermingEnDigitalisering;
    }
    let k5 = chars_of("buitenlandse");
    if contains_sub(&l, &k5) {
        return Commission::BuitenlandseBetrekkingen;
    }
    let k6 = chars_of("mobiliteit");
    if contains_sub(&l, &k6) {
        return Commission::MobiliteitOverheidsbedrijvenEnFederaleInstellingen;
    }
    let k7 = chars_of("landsverdediging");
    if contains_sub(&l, &k7) {
        return Commission::Landsverdediging;
    }
    let k8 = chars_of("energie");
    if contains_sub(&l, &k8) {
        return Commission::EnergieLeefmilieuEnKlimaat;
    }
    let k9 = chars_of("sociale");
    if contains_sub(&l, &k9) {
        return Commission::SocialeZakenWerkEnPensioenen;
    }
    let k10 = chars_of("begroting");
    if contains_sub(&l, &k10) {
        return Commission::FinancienEnBegroting;
    }
    let k11 = chars_of("klimaatdialoog");
    if contains_sub(&l, &k11) {
        return Commission::InterparlementaireKlimaatdialoog;
    }
    Commission::Onbekend
}

/// The committee a document belongs to: classified from the first
/// span of its first table, whitespace-normalised.
pub open spec fn spec_extract_commission(nodes: Seq<NodeV>) -> Option<Commission> {
    match spec_find_table_from(nodes, 0) {
        Option::None => None,
        Option::Some(t) => {
            let spans = spec_spans_of(nodes[t]);
            if spans.len() == 0 {
                None
            } else {
                Some(spec_parse_commission(spec_collapse_spaces(spec_clean_text(spans[0]))))
            }
        },
    }
}

/// Finds which committee the document's header names; absent when the
/// document has no table or the table has no span.
pub fn extract_commission_from_document(nodes: &Vec<Node>) -> (r: Option<Commission>)
    ensures
        r == spec_extract_commission(nodes.deep_view()),
{
    let t = match crate::votes::find_table_from(nodes, 0) {
        None => {
            return None;
        },
        Some(t) => t,
    };
    proof {
        assert(nodes.deep_view()[t as int] == nodes@[t as int].deep_view());
    }
    let spans = span_texts_of(&nodes[t]);
    if spans.len() == 0 {
        return None;
    }
    proof {
        assert(spans.deep_view()[0] =~= spans@[0]@);
    }
    let cleaned = clean_chars(&spans[0]);
    let c = collapse_spaces(&cleaned);
    let s = string_of(&c);
    Some(parse_commission_type(s.as_str()))
}

} // verus!
