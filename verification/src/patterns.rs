//! Ordered fallback extraction rules: each entity kind has a chain of
//! rules from most specific to most permissive, and the first rule
//! that applies to an item's text determines its structured fields.
//! Partial data is always preferred over data loss: the loosest rule
//! keeps everything before the first opening parenthesis as the topic.
use crate::text::{
    chars_eq, chars_of, contains_string, copy_range, find_char, find_sub, is_digit_run, is_space,
    lemma_find_char_range, lemma_find_from_range, lemma_rfind_before_range, matches_at, push_all,
    rfind_before, skip_digits, skip_spaces, spec_find_char_from, spec_find_from,
    spec_is_digit_run, spec_is_space, spec_match_at, spec_min_opt, spec_rfind_before,
    spec_skip_digits, spec_skip_spaces, spec_skip_spaces_back, spec_split, spec_starts_with,
    spec_trim, split_on, starts_with_sub, string_of, trim_chars,
};
use vstd::prelude::*;

verus! {

/// Structured fields pulled out of one accumulated question block.
/// The lists run in parallel: entry `i` of `questioners`, `topics` and
/// `dossier_ids` belongs to sub-question `i`; `respondents` is the
/// deduplicated list over the whole block.
#[derive(Clone, Debug, PartialEq, Eq)]
pub struct QuestionData {
    pub questioners: Vec<String>,
    pub respondents: Vec<String>,
    pub topics: Vec<String>,
    pub dossier_ids: Vec<String>,
}

#[verifier::ext_equal]
pub struct QuestionDataV {
    pub questioners: Seq<Seq<char>>,
    pub respondents: Seq<Seq<char>>,
    pub topics: Seq<Seq<char>>,
    pub dossier_ids: Seq<Seq<char>>,
}

impl DeepView for QuestionData {
    type V = QuestionDataV;

    open spec fn deep_view(&self) -> QuestionDataV {
        QuestionDataV {
            questioners: self.questioners.deep_view(),
            respondents: self.respondents.deep_view(),
            topics: self.topics.deep_view(),
            dossier_ids: self.dossier_ids.deep_view(),
        }
    }
}

impl Default for QuestionData {
    /// An extraction that matched nothing: all lists empty.
    fn default() -> (r: QuestionData)
        ensures
            r.questioners@.len() == 0,
            r.respondents@.len() == 0,
            r.topics@.len() == 0,
            r.dossier_ids@.len() == 0,
    {
        QuestionData {
            questioners: Vec::new(),
            respondents: Vec::new(),
            topics: Vec::new(),
            dossier_ids: Vec::new(),
        }
    }
}

/// Structured fields pulled out of one proposition title.
#[derive(Clone, Debug, PartialEq, Eq)]
pub struct PropositionData {
    pub topic: String,
    pub dossier_id: Option<String>,
    pub document_id: Option<String>,
}

#[verifier::ext_equal]
pub struct PropositionDataV {
    pub topic: Seq<char>,
    pub dossier_id: Option<Seq<char>>,
    pub document_id: Option<Seq<char>>,
}

impl DeepView for PropositionData {
    type V = PropositionDataV;

    open spec fn deep_view(&self) -> PropositionDataV {
        PropositionDataV {
            topic: self.topic@,
            dossier_id: self.dossier_id.deep_view(),
            document_id: self.document_id.deep_view(),
        }
    }
}

/// Structured fields pulled out of one vote title.
#[derive(Clone, Debug, PartialEq, Eq)]
pub struct VoteData {
    pub topic: String,
    pub dossier_id: Option<String>,
    pub document_id: Option<String>,
    pub motion_id: Option<String>,
}

#[verifier::ext_equal]
pub struct VoteDataV {
    pub topic: Seq<char>,
    pub dossier_id: Option<Seq<char>>,
    pub document_id: Option<Seq<char>>,
    pub motion_id: Option<Seq<char>>,
}

impl DeepView for VoteData {
    type V = VoteDataV;

    open spec fn deep_view(&self) -> VoteDataV {
        VoteDataV {
            topic: self.topic@,
            dossier_id: self.dossier_id.deep_view(),
            document_id: self.document_id.deep_view(),
            motion_id: self.motion_id.deep_view(),
        }
    }
}

/// A document reference: digits, optionally followed by a dash and a
/// second digit run (`4` or `4-5`).
pub open spec fn spec_is_doc_ref(s: Seq<char>) -> bool {
    match spec_find_char_from(s, '-', 0) {
        Option::None => spec_is_digit_run(s),
        Option::Some(i) => spec_is_digit_run(s.subrange(0, i)) && spec_is_digit_run(
            s.subrange(i + 1, s.len() as int),
        ),
    }
}

pub fn is_doc_ref(v: &Vec<char>) -> (r: bool)
    ensures
        r == spec_is_doc_ref(v@),
{
    match find_char(v, '-', 0) {
        None => is_digit_run(v),
        Some(i) => {
            proof {
                lemma_find_char_range(v@, '-', 0);
            }
            assert(i < v.len());
            let a = copy_range(v, 0, i);
            let b = copy_range(v, i + 1, v.len());
            is_digit_run(&a) && is_digit_run(&b)
        },
    }
}

/// A dossier/document reference pair: digits, a slash, a document
/// reference (`123/4` or `123/4-5`).
pub open spec fn spec_is_ref_pair(s: Seq<char>) -> bool {
    match spec_find_char_from(s, '/', 0) {
        Option::None => false,
        Option::Some(k) => spec_is_digit_run(s.subrange(0, k)) && spec_is_doc_ref(
            s.subrange(k + 1, s.len() as int),
        ),
    }
}

pub fn is_ref_pair(v: &Vec<char>) -> (r: bool)
    ensures
        r == spec_is_ref_pair(v@),
{
    match find_char(v, '/', 0) {
        None => false,
        Some(k) => {
            proof {
                lemma_find_char_range(v@, '/', 0);
            }
            assert(k < v.len());
            let a = copy_range(v, 0, k);
            let b = copy_range(v, k + 1, v.len());
            is_digit_run(&a) && is_doc_ref(&b)
        },
    }
}

/// The motion number inside a `(nr. 7)` / `(n° 7)` group, when the
/// content has that shape.
pub open spec fn spec_motion_ref(content: Seq<char>) -> Option<Seq<char>> {
    let after: int = if spec_starts_with(content, "nr."@) {
        "nr."@.len() as int
    } else if spec_starts_with(content, "n°"@) {
        "n°"@.len() as int
    } else {
        -1
    };
    if after >= 0 {
        let d = spec_skip_spaces(content, after);
        let digits = content.subrange(d, content.len() as int);
        if spec_is_digit_run(digits) {
            Some(digits)
        } else {
            None
        }
    } else {
        None
    }
}

pub fn motion_ref(content: &Vec<char>) -> (r: Option<Vec<char>>)
    ensures
        match r {
            Some(v) => spec_motion_ref(content@) == Some(v@),
            None => spec_motion_ref(content@) is None,
        },
{
    let nr = chars_of("nr.");
    let no = chars_of("n°");
    let after: usize = if starts_with_sub(content, &nr) {
        nr.len()
    } else if starts_with_sub(content, &no) {
        no.len()
    } else {
        return None;
    };
    let d = skip_spaces(content, after);
    let digits = copy_range(content, d, content.len());
    if is_digit_run(&digits) {
        Some(digits)
    } else {
        None
    }
}

/// The vote-title fallback: everything before the first opening
/// parenthesis, trimmed, and no identifiers.
pub open spec fn spec_vote_fallback(s: Seq<char>) -> VoteDataV {
    let cut: int = match spec_find_char_from(s, '(', 0) {
        Option::None => s.len() as int,
        Option::Some(i) => i,
    };
    VoteDataV {
        topic: spec_trim(s.subrange(0, cut)),
        dossier_id: None,
        document_id: None,
        motion_id: None,
    }
}

/// The three-tier vote-title rule chain: a trailing `(dossier/document)`
/// group, else a trailing `(nr. motion)` group, else the bare topic.
pub open spec fn spec_vote_data(s: Seq<char>) -> VoteDataV {
    let e = spec_skip_spaces_back(s, s.len() as int);
    if e > 0 && s[e - 1] == ')' && spec_rfind_before(s, '(', e - 1) is Some {
        let p = spec_rfind_before(s, '(', e - 1)->Some_0;
        let content = s.subrange(p + 1, e - 1);
        if spec_is_ref_pair(content) {
            let k = spec_find_char_from(content, '/', 0)->Some_0;
            VoteDataV {
                topic: spec_trim(s.subrange(0, p)),
                dossier_id: Some(content.subrange(0, k)),
                document_id: Some(content.subrange(k + 1, content.len() as int)),
                motion_id: None,
            }
        } else if p > 0 && spec_is_space(s[p - 1]) && spec_motion_ref(content) is Some {
            VoteDataV {
                topic: spec_trim(s.subrange(0, p)),
                dossier_id: None,
                document_id: None,
                motion_id: spec_motion_ref(content),
            }
        } else {
            spec_vote_fallback(s)
        }
    } else {
        spec_vote_fallback(s)
    }
}

fn vote_fallback(v: &Vec<char>) -> (r: VoteData)
    ensures
        r.deep_view() == spec_vote_fallback(v@),
{
    let cut: usize = match find_char(v, '(', 0) {
        None => v.len(),
        Some(i) => {
            proof {
                lemma_find_char_range(v@, '(', 0);
            }
            i
        },
    };
    let head = copy_range(v, 0, cut);
    let topic = trim_chars(&head);
    VoteData { topic: string_of(&topic), dossier_id: None, document_id: None, motion_id: None }
}

/// Applies the vote-title rule chain: a title ending in
/// `(dossier/document)` yields both identifiers, one ending in
/// `(nr. N)` or `(n° N)` yields the motion number, and any other title
/// yields only the text before its first parenthesis. Identifiers that
/// are absent stay absent; no tier ever fails the title.
pub fn extract_vote_data(vote_text: &str) -> (r: VoteData)
    ensures
        r.deep_view() == spec_vote_data(vote_text@),
{
    let v = chars_of(vote_text);
    let e = v.len() - skip_back_count(&v);
    if e > 0 && v[e - 1] == ')' {
        match rfind_before(&v, '(', e - 1) {
            None => vote_fallback(&v),
            Some(p) => {
                proof {
                    lemma_rfind_before_range(v@, '(', e - 1);
                }
                let content = copy_range(&v, p + 1, e - 1);
                if is_ref_pair(&content) {
                    let k = match find_char(&content, '/', 0) {
                        Some(k) => k,
                        None => {
                            proof {
                                assert(false);
                            }
                            0
                        },
                    };
                    proof {
                        lemma_find_char_range(content@, '/', 0);
                    }
                    let head = copy_range(&v, 0, p);
                    let topic = trim_chars(&head);
                    let dossier = copy_range(&content, 0, k);
                    let document = copy_range(&content, k + 1, content.len());
                    VoteData {
                        topic: string_of(&topic),
                        dossier_id: Some(string_of(&dossier)),
                        document_id: Some(string_of(&document)),
                        motion_id: None,
                    }
                } else if p > 0 && is_space(v[p - 1]) {
                    match motion_ref(&content) {
                        Some(m) => {
                            let head = copy_range(&v, 0, p);
                            let topic = trim_chars(&head);
                            VoteData {
                                topic: string_of(&topic),
                                dossier_id: None,
                                document_id: None,
                                motion_id: Some(string_of(&m)),
                            }
                        },
                        None => vote_fallback(&v),
                    }
                } else {
                    vote_fallback(&v)
                }
            },
        }
    } else {
        vote_fallback(&v)
    }
}

/// Number of whitespace characters at the end of `v`.
fn skip_back_count(v: &Vec<char>) -> (r: usize)
    ensures
        v.len() - r == spec_skip_spaces_back(v@, v@.len() as int),
        r <= v.len(),
{
    let mut b: usize = v.len();
    while b > 0 && is_space(v[b - 1])
        invariant
            b <= v.len(),
            spec_skip_spaces_back(v@, v@.len() as int) == spec_skip_spaces_back(v@, b as int),
        decreases b,
    {
        b -= 1;
    }
    v.len() - b
}

/// Whether a proposition title begins with one of the recognised
/// proposition keywords (either language).
pub open spec fn spec_prop_keyword(s: Seq<char>) -> bool {
    ||| spec_starts_with(s, "Voorstel van resolutie"@)
    ||| spec_starts_with(s, "Proposition de résolution"@)
    ||| spec_starts_with(s, "Wetsvoorstel"@)
    ||| spec_starts_with(s, "Proposition de loi"@)
    ||| spec_starts_with(s, "Wetsontwerp"@)
    ||| spec_starts_with(s, "Projet de loi"@)
    ||| spec_starts_with(s, "Voorstel tot"@)
    ||| spec_starts_with(s, "Proposition visant"@)
}

fn prop_keyword(v: &Vec<char>) -> (r: bool)
    ensures
        r == spec_prop_keyword(v@),
{
    let k1 = chars_of("Voorstel van resolutie");
    let k2 = chars_of("Proposition de résolution");
    let k3 = chars_of("Wetsvoorstel");
    let k4 = chars_of("Proposition de loi");
    let k5 = chars_of("Wetsontwerp");
    let k6 = chars_of("Projet de loi");
    let k7 = chars_of("Voorstel tot");
    let k8 = chars_of("Proposition visant");
    starts_with_sub(v, &k1) || starts_with_sub(v, &k2) || starts_with_sub(v, &k3)
        || starts_with_sub(v, &k4) || starts_with_sub(v, &k5) || starts_with_sub(v, &k6)
        || starts_with_sub(v, &k7) || starts_with_sub(v, &k8)
}

/// The two-tier proposition-title rule chain: a recognised keyword
/// title ending in `(dossier/document)` yields both identifiers; any
/// other title yields only the text before its first parenthesis.
pub open spec fn spec_proposition_data(s: Seq<char>) -> PropositionDataV {
    let fallback_cut: int = match spec_find_char_from(s, '(', 0) {
        Option::None => s.len() as int,
        Option::Some(i) => i,
    };
    if spec_prop_keyword(s) && s.len() > 0 && s[s.len() - 1] == ')' && spec_rfind_before(
        s,
        '(',
        s.len() - 1,
    ) is Some {
        let p = spec_rfind_before(s, '(', s.len() - 1)->Some_0;
        let content = s.subrange(p + 1, s.len() - 1);
        if spec_is_ref_pair(content) {
            let k = spec_find_char_from(content, '/', 0)->Some_0;
            PropositionDataV {
                topic: spec_trim(s.subrange(0, p)),
                dossier_id: Some(content.subrange(0, k)),
                document_id: Some(content.subrange(k + 1, content.len() as int)),
            }
        } else {
            PropositionDataV {
                topic: spec_trim(s.subrange(0, fallback_cut)),
                dossier_id: None,
                document_id: None,
            }
        }
    } else {
        PropositionDataV {
            topic: spec_trim(s.subrange(0, fallback_cut)),
            dossier_id: None,
            document_id: None,
        }
    }
}

fn proposition_fallback(v: &Vec<char>) -> (r: PropositionData)
    ensures
        r.deep_view().topic == spec_trim(
            v@.subrange(
                0,
                match spec_find_char_from(v@, '(', 0) {
                    Option::None => v@.len() as int,
                    Option::Some(i) => i,
                },
            ),
        ),
        r.deep_view().dossier_id is None,
        r.deep_view().document_id is None,
{
    let cut: usize = match find_char(v, '(', 0) {
        None => v.len(),
        Some(i) => {
            proof {
                lemma_find_char_range(v@, '(', 0);
            }
            i
        },
    };
    let head = copy_range(v, 0, cut);
    let topic = trim_chars(&head);
    PropositionData { topic: string_of(&topic), dossier_id: None, document_id: None }
}

/// Applies the proposition-title rule chain: a title that starts with
/// a proposition keyword and ends with a `(dossier/document)` group
/// yields topic and both identifiers; otherwise everything before the
/// first parenthesis is the topic and there are no identifiers.
pub fn extract_proposition_data(proposition_text: &str) -> (r: PropositionData)
    ensures
        r.deep_view() == spec_proposition_data(proposition_text@),
{
    let v = chars_of(proposition_text);
    if prop_keyword(&v) && v.len() > 0 && v[v.len() - 1] == ')' {
        match rfind_before(&v, '(', v.len() - 1) {
            None => proposition_fallback(&v),
            Some(p) => {
                proof {
                    lemma_rfind_before_range(v@, '(', v@.len() - 1);
                }
                let content = copy_range(&v, p + 1, v.len() - 1);
                if is_ref_pair(&content) {
                    let k = match find_char(&content, '/', 0) {
                        Some(k) => k,
                        None => {
                            proof {
                                assert(false);
                            }
                            0
                        },
                    };
                    proof {
                        lemma_find_char_range(content@, '/', 0);
                    }
                    let head = copy_range(&v, 0, p);
                    let topic = trim_chars(&head);
                    let dossier = copy_range(&content, 0, k);
                    let document = copy_range(&content, k + 1, content.len());
                    PropositionData {
                        topic: string_of(&topic),
                        dossier_id: Some(string_of(&dossier)),
                        document_id: Some(string_of(&document)),
                    }
                } else {
                    proposition_fallback(&v)
                }
            },
        }
    } else {
        proposition_fallback(&v)
    }
}

} // verus!

verus! {

/// The fields of one parsed sub-question line.
#[verifier::ext_equal]
pub struct QLineV {
    pub questioner: Seq<char>,
    pub respondent: Seq<char>,
    pub topic: Seq<char>,
    pub dossier_id: Seq<char>,
}

/// The transcription-typo correction table: known misspellings of
/// proper names are corrected here, centrally, and nowhere else.
pub open spec fn spec_fix_typo(name: Seq<char>) -> Seq<char> {
    if name == "Steven Coengrachts"@ {
        "Steven Coenegrachts"@
    } else if name == "Ridouhane Chahid"@ {
        "Ridouane Chahid"@
    } else {
        name
    }
}

pub fn fix_typo(name: &Vec<char>) -> (r: Vec<char>)
    ensures
        r@ == spec_fix_typo(name@),
{
    let t1 = chars_of("Steven Coengrachts");
    if chars_eq(name, &t1) {
        return chars_of("Steven Coenegrachts");
    }
    let t2 = chars_of("Ridouhane Chahid");
    if chars_eq(name, &t2) {
        return chars_of("Ridouane Chahid");
    }
    let mut r: Vec<char> = Vec::new();
    push_all(&mut r, name);
    assert(r@ =~= name@);
    r
}

/// A leading courtesy title is not part of a questioner's name.
pub open spec fn spec_strip_title(name: Seq<char>) -> Seq<char> {
    if spec_starts_with(name, "de heer "@) {
        name.subrange("de heer "@.len() as int, name.len() as int)
    } else {
        name
    }
}

fn strip_title(name: &Vec<char>) -> (r: Vec<char>)
    ensures
        r@ == spec_strip_title(name@),
{
    let t = chars_of("de heer ");
    if starts_with_sub(name, &t) {
        copy_range(name, t.len(), name.len())
    } else {
        let mut r: Vec<char> = Vec::new();
        push_all(&mut r, name);
        assert(r@ =~= name@);
        r
    }
}

pub open spec fn spec_is_quote(c: char) -> bool {
    c == '"' || c == '\u{201C}' || c == '\''
}

pub fn is_quote(c: char) -> (r: bool)
    ensures
        r == spec_is_quote(c),
{
    c == '"' || c == '\u{201C}' || c == '\''
}

pub open spec fn spec_close_quote(c: char) -> char {
    if c == '\u{201C}' {
        '\u{201D}'
    } else {
        c
    }
}

pub fn close_quote(c: char) -> (r: char)
    ensures
        r == spec_close_quote(c),
{
    if c == '\u{201C}' {
        '\u{201D}'
    } else {
        c
    }
}

pub open spec fn spec_is_ascii_letter(c: char) -> bool {
    ('a' <= c && c <= 'z') || ('A' <= c && c <= 'Z')
}

pub fn is_ascii_letter(c: char) -> (r: bool)
    ensures
        r == spec_is_ascii_letter(c),
{
    ('a' <= c && c <= 'z') || ('A' <= c && c <= 'Z')
}

/// The first position at or after `i` where a topic marker (`over` or
/// `sur`) is followed, after optional spaces, by an opening quote that
/// has a matching closing quote; yields the marker position and the
/// quote position.
pub open spec fn spec_find_topic_marker(s: Seq<char>, i: int) -> Option<(int, int)>
    decreases s.len() - i when 0 <= i <= s.len() via spec_find_topic_marker_dec
{
    match spec_min_opt(spec_find_from(s, "over"@, i), spec_find_from(s, "sur"@, i)) {
        Option::None => None,
        Option::Some(m) => {
            let wlen: int = if spec_match_at(s, "over"@, m) {
                "over"@.len() as int
            } else {
                "sur"@.len() as int
            };
            let q = spec_skip_spaces(s, m + wlen);
            if q < s.len() && spec_is_quote(s[q]) && spec_find_char_from(
                s,
                spec_close_quote(s[q]),
                q + 1,
            ) is Some {
                Some((m, q))
            } else {
                spec_find_topic_marker(s, m + 1)
            }
        },
    }
}

#[via_fn]
proof fn spec_find_topic_marker_dec(s: Seq<char>, i: int) {
    if spec_find_from(s, "over"@, i) is Some {
        lemma_find_from_range(s, "over"@, i);
    }
    if spec_find_from(s, "sur"@, i) is Some {
        lemma_find_from_range(s, "sur"@, i);
    }
    reveal_strlit("over");
    reveal_strlit("sur");
}

fn find_topic_marker(v: &Vec<char>, from: usize) -> (r: Option<(usize, usize)>)
    requires
        from <= v.len(),
    ensures
        match r {
            Some(mq) => {
                &&& spec_find_topic_marker(v@, from as int) == Some((mq.0 as int, mq.1 as int))
                &&& from <= mq.0 <= mq.1 < v.len()
                &&& spec_is_quote(v@[mq.1 as int])
                &&& spec_find_char_from(v@, spec_close_quote(v@[mq.1 as int]), mq.1 + 1) is Some
            },
            None => spec_find_topic_marker(v@, from as int) is None,
        },
{
    let over = chars_of("over");
    let sur = chars_of("sur");
    let mut i: usize = from;
    loop
        invariant
            from <= i <= v.len(),
            over@ == "over"@,
            sur@ == "sur"@,
            spec_find_topic_marker(v@, from as int) == spec_find_topic_marker(v@, i as int),
        decreases v.len() - i,
    {
        let o = find_sub(v, &over, i);
        let u = find_sub(v, &sur, i);
        let m: usize = match (o, u) {
            (None, None) => { return None },
            (Some(x), None) => x,
            (None, Some(y)) => y,
            (Some(x), Some(y)) => if x <= y {
                x
            } else {
                y
            },
        };
        proof {
            if spec_find_from(v@, "over"@, i as int) is Some {
                lemma_find_from_range(v@, "over"@, i as int);
            }
            if spec_find_from(v@, "sur"@, i as int) is Some {
                lemma_find_from_range(v@, "sur"@, i as int);
            }
        }
        let wlen: usize = if matches_at(v, &over, m) {
            over.len()
        } else {
            sur.len()
        };
        proof {
            reveal_strlit("over");
            reveal_strlit("sur");
        }
        let q = skip_spaces(v, m + wlen);
        if q < v.len() && is_quote(v[q]) {
            let close = close_quote(v[q]);
            if find_char(v, close, q + 1).is_some() {
                return Some((m, q));
            }
        }
        i = m + 1;
    }
}

/// The optional trailing dossier reference of a plenary question:
/// eight digits and a capital letter in parentheses, prefixed `Q`;
/// empty when absent.
pub open spec fn spec_plenary_qid(s: Seq<char>, pos: int) -> Seq<char> {
    let a = spec_skip_spaces(s, pos);
    if a + 11 <= s.len() && s[a] == '(' && spec_is_digit_run(s.subrange(a + 1, a + 9)) && 'A'
        <= s[a + 9] && s[a + 9] <= 'Z' && s[a + 10] == ')' {
        seq!['Q'] + s.subrange(a + 1, a + 10)
    } else {
        Seq::empty()
    }
}

fn plenary_qid(v: &Vec<char>, pos: usize) -> (r: Vec<char>)
    requires
        pos <= v.len(),
    ensures
        r@ == spec_plenary_qid(v@, pos as int),
{
    let a = skip_spaces(v, pos);
    if v.len() - a >= 11 && v[a] == '(' {
        let digits = copy_range(v, a + 1, a + 9);
        if is_digit_run(&digits) && 'A' <= v[a + 9] && v[a + 9] <= 'Z' && v[a + 10] == ')' {
            let mut r: Vec<char> = Vec::new();
            r.push('Q');
            let body = copy_range(v, a + 1, a + 10);
            push_all(&mut r, &body);
            assert(r@ =~= seq!['Q'] + v@.subrange(a + 1, a + 10));
            return r;
        }
    }
    assert(Seq::<char>::empty() =~= spec_plenary_qid(v@, pos as int));
    Vec::new()
}

/// The mandatory trailing dossier reference of a committee question:
/// six to eight digits and a letter, optionally parenthesised and
/// optionally prefixed `nr.`, prefixed `Q`.
pub open spec fn spec_commission_qid(s: Seq<char>, pos: int) -> Option<Seq<char>> {
    let a = spec_skip_spaces(s, pos);
    let b: int = if a < s.len() && s[a] == '(' {
        a + 1
    } else {
        a
    };
    let b2: int = if spec_match_at(s, "nr"@, b) {
        if b + 2 < s.len() && s[b + 2] == '.' {
            b + 3
        } else {
            b + 2
        }
    } else {
        b
    };
    let d = spec_skip_spaces(s, b2);
    let e = spec_skip_digits(s, d);
    if 6 <= e - d <= 8 && e < s.len() && spec_is_ascii_letter(s[e]) {
        Some(seq!['Q'] + s.subrange(d, e + 1))
    } else {
        None
    }
}

fn commission_qid(v: &Vec<char>, pos: usize) -> (r: Option<Vec<char>>)
    requires
        pos <= v.len(),
    ensures
        match r {
            Some(id) => spec_commission_qid(v@, pos as int) == Some(id@),
            None => spec_commission_qid(v@, pos as int) is None,
        },
{
    let a = skip_spaces(v, pos);
    let b: usize = if a < v.len() && v[a] == '(' {
        a + 1
    } else {
        a
    };
    let nr = chars_of("nr");
    proof {
        reveal_strlit("nr");
    }
    let b2: usize = if matches_at(v, &nr, b) {
        if b + 2 < v.len() && v[b + 2] == '.' {
            b + 3
        } else {
            b + 2
        }
    } else {
        b
    };
    let d = skip_spaces(v, b2);
    let e = skip_digits(v, d);
    if 6 <= e - d && e - d <= 8 && e < v.len() && is_ascii_letter(v[e]) {
        let mut r: Vec<char> = Vec::new();
        r.push('Q');
        let body = copy_range(v, d, e + 1);
        push_all(&mut r, &body);
        assert(r@ =~= seq!['Q'] + v@.subrange(d as int, e + 1));
        Some(r)
    } else {
        None
    }
}

} // verus!

verus! {

/// The single question rule, applied to one sub-question line: an
/// optional `Vraag van` / `Question de` prefix, the questioner up to
/// the first `aan` / `à`, the respondent up to its parenthesised role
/// (mandatory for plenary lines, optional for committee lines), the
/// quoted topic after `over` / `sur` in any of the three quote styles,
/// and a trailing dossier reference (optional for plenary lines,
/// mandatory for committee lines). A line that lacks a required part
/// yields nothing rather than a fabricated entity.
pub open spec fn spec_question_line(line: Seq<char>, commission: bool) -> Option<QLineV> {
    let t0 = spec_trim(line);
    let t = if spec_starts_with(t0, "- "@) {
        spec_trim(t0.subrange("- "@.len() as int, t0.len() as int))
    } else {
        t0
    };
    let q0: int = if spec_starts_with(t, "Vraag van "@) {
        "Vraag van "@.len() as int
    } else if spec_starts_with(t, "Question de "@) {
        "Question de "@.len() as int
    } else {
        0
    };
    match spec_min_opt(spec_find_from(t, " aan "@, q0), spec_find_from(t, " à "@, q0)) {
        Option::None => None,
        Option::Some(sp) => {
            let seplen: int = if spec_match_at(t, " aan "@, sp) {
                " aan "@.len() as int
            } else {
                " à "@.len() as int
            };
            let rest = sp + seplen;
            match spec_find_topic_marker(t, rest) {
                Option::None => None,
                Option::Some(mq) => {
                    let m = mq.0;
                    let q = mq.1;
                    let cq = spec_find_char_from(t, spec_close_quote(t[q]), q + 1)->Some_0;
                    let region = t.subrange(rest, m);
                    let questioner0 = spec_trim(t.subrange(q0, sp));
                    let topic = spec_trim(t.subrange(q + 1, cq));
                    match spec_find_char_from(region, '(', 0) {
                        Option::Some(pp) => spec_question_result(
                            t,
                            cq,
                            questioner0,
                            spec_trim(region.subrange(0, pp)),
                            topic,
                            commission,
                        ),
                        Option::None => if commission {
                            spec_question_result(
                                t,
                                cq,
                                questioner0,
                                spec_trim(region),
                                topic,
                                commission,
                            )
                        } else {
                            None
                        },
                    }
                },
            }
        },
    }
}

pub open spec fn spec_question_result(
    t: Seq<char>,
    cq: int,
    questioner0: Seq<char>,
    resp: Seq<char>,
    topic: Seq<char>,
    commission: bool,
) -> Option<QLineV> {
    if commission {
        match spec_commission_qid(t, cq + 1) {
            Option::None => None,
            Option::Some(id) => Some(
                QLineV {
                    questioner: spec_strip_title(questioner0),
                    respondent: resp,
                    topic: topic,
                    dossier_id: id,
                },
            ),
        }
    } else {
        Some(
            QLineV {
                questioner: spec_fix_typo(questioner0),
                respondent: resp,
                topic: topic,
                dossier_id: spec_plenary_qid(t, cq + 1),
            },
        )
    }
}

/// Position of the first `aan` / `à` separator at or after `q0`, and
/// the position right after it.
fn find_separator(t: &Vec<char>, q0: usize) -> (r: Option<(usize, usize)>)
    requires
        q0 <= t.len(),
    ensures
        match r {
            Some(pair) => {
                &&& spec_min_opt(
                    spec_find_from(t@, " aan "@, q0 as int),
                    spec_find_from(t@, " à "@, q0 as int),
                ) == Some(pair.0 as int)
                &&& pair.1 as int == pair.0 + (if spec_match_at(t@, " aan "@, pair.0 as int) {
                    " aan "@.len() as int
                } else {
                    " à "@.len() as int
                })
                &&& q0 <= pair.0 <= pair.1 <= t.len()
            },
            None => spec_min_opt(
                spec_find_from(t@, " aan "@, q0 as int),
                spec_find_from(t@, " à "@, q0 as int),
            ) is None,
        },
{
    let aan = chars_of(" aan ");
    let a_fr = chars_of(" à ");
    let o1 = find_sub(t, &aan, q0);
    let o2 = find_sub(t, &a_fr, q0);
    let sp: usize = match (o1, o2) {
        (None, None) => {
            return None;
        },
        (Some(x), None) => x,
        (None, Some(y)) => y,
        (Some(x), Some(y)) => if x <= y {
            x
        } else {
            y
        },
    };
    proof {
        if spec_find_from(t@, " aan "@, q0 as int) is Some {
            lemma_find_from_range(t@, " aan "@, q0 as int);
        }
        if spec_find_from(t@, " à "@, q0 as int) is Some {
            lemma_find_from_range(t@, " à "@, q0 as int);
        }
        reveal_strlit(" aan ");
        reveal_strlit(" à ");
    }
    let seplen: usize = if matches_at(t, &aan, sp) {
        aan.len()
    } else {
        a_fr.len()
    };
    proof {
        if spec_match_at(t@, " aan "@, sp as int) {
            assert(sp + " aan "@.len() <= t@.len());
        } else {
            assert(spec_match_at(t@, " à "@, sp as int));
            assert(sp + " à "@.len() <= t@.len());
        }
    }
    Some((sp, sp + seplen))
}

#[verifier::rlimit(100)]
fn question_line(line: &Vec<char>, commission: bool) -> (r: Option<
    (Vec<char>, Vec<char>, Vec<char>, Vec<char>),
>)
    ensures
        match r {
            Some(parts) => spec_question_line(line@, commission) == Some(
                QLineV {
                    questioner: parts.0@,
                    respondent: parts.1@,
                    topic: parts.2@,
                    dossier_id: parts.3@,
                },
            ),
            None => spec_question_line(line@, commission) is None,
        },
{
    let t0 = trim_chars(line);
    let dash = chars_of("- ");
    let t = if starts_with_sub(&t0, &dash) {
        let tail = copy_range(&t0, dash.len(), t0.len());
        trim_chars(&tail)
    } else {
        t0
    };
    let p_nl = chars_of("Vraag van ");
    let p_fr = chars_of("Question de ");
    let q0: usize = if starts_with_sub(&t, &p_nl) {
        p_nl.len()
    } else if starts_with_sub(&t, &p_fr) {
        p_fr.len()
    } else {
        0
    };
    let (sp, rest) = match find_separator(&t, q0) {
        None => { return None },
        Some(pair) => pair,
    };
    match find_topic_marker(&t, rest) {
        None => None,
        Some((m, q)) => {
            let close = close_quote(t[q]);
            let cq: usize = match find_char(&t, close, q + 1) {
                Some(cq) => cq,
                None => {
                    proof {
                        assert(false);
                    }
                    0
                },
            };
            proof {
                lemma_find_char_range(t@, spec_close_quote(t@[q as int]), q + 1);
            }
            let region = copy_range(&t, rest, m);
            let head = copy_range(&t, q0, sp);
            let questioner0 = trim_chars(&head);
            let tbody = copy_range(&t, q + 1, cq);
            let topic = trim_chars(&tbody);
            let resp: Vec<char> = match find_char(&region, '(', 0) {
                Some(pp) => {
                    proof {
                        lemma_find_char_range(region@, '(', 0);
                    }
                    let rr = copy_range(&region, 0, pp);
                    trim_chars(&rr)
                },
                None => {
                    if !commission {
                        return None;
                    }
                    trim_chars(&region)
                },
            };
            if commission {
                match commission_qid(&t, cq + 1) {
                    None => None,
                    Some(id) => Some((strip_title(&questioner0), resp, topic, id)),
                }
            } else {
                let id = plenary_qid(&t, cq + 1);
                Some((fix_typo(&questioner0), resp, topic, id))
            }
        },
    }
}

/// One step of the block fold: a line that parses contributes its
/// fields; the respondent is appended only when not yet present.
pub open spec fn spec_qd_step(acc: QuestionDataV, line: Seq<char>, commission: bool) -> QuestionDataV {
    match spec_question_line(line, commission) {
        Option::None => acc,
        Option::Some(q) => QuestionDataV {
            questioners: acc.questioners.push(q.questioner),
            respondents: if acc.respondents.contains(q.respondent) {
                acc.respondents
            } else {
                acc.respondents.push(q.respondent)
            },
            topics: acc.topics.push(q.topic),
            dossier_ids: acc.dossier_ids.push(q.dossier_id),
        },
    }
}

pub open spec fn spec_qd_fold(
    lines: Seq<Seq<char>>,
    i: int,
    acc: QuestionDataV,
    commission: bool,
) -> QuestionDataV
    decreases lines.len() - i when 0 <= i <= lines.len()
{
    if i >= lines.len() {
        acc
    } else {
        spec_qd_fold(lines, i + 1, spec_qd_step(acc, lines[i], commission), commission)
    }
}

pub open spec fn spec_qd_empty() -> QuestionDataV {
    QuestionDataV {
        questioners: Seq::empty(),
        respondents: Seq::empty(),
        topics: Seq::empty(),
        dossier_ids: Seq::empty(),
    }
}

/// The fields of a whole accumulated question block: the single
/// question rule applied to each of its lines in order.
pub open spec fn spec_question_data(s: Seq<char>, commission: bool) -> QuestionDataV {
    spec_qd_fold(spec_split(s, "\n"@), 0, spec_qd_empty(), commission)
}

fn question_block(text: &str, commission: bool) -> (r: QuestionData)
    ensures
        r.deep_view() == spec_question_data(text@, commission),
{
    let v = chars_of(text);
    let nl = chars_of("\n");
    proof {
        reveal_strlit("\n");
    }
    let lines = split_on(&v, &nl);
    let ghost linesv = lines.deep_view();
    let mut acc = QuestionData {
        questioners: Vec::new(),
        respondents: Vec::new(),
        topics: Vec::new(),
        dossier_ids: Vec::new(),
    };
    assert(acc.deep_view() =~~= spec_qd_empty());
    let mut i: usize = 0;
    while i < lines.len()
        invariant
            i <= lines.len(),
            linesv == lines.deep_view(),
            linesv.len() == lines.len(),
            spec_question_data(text@, commission) == spec_qd_fold(
                linesv,
                i as int,
                acc.deep_view(),
                commission,
            ),
        decreases lines.len() - i,
    {
        let ghost accv = acc.deep_view();
        proof {
            assert(lines@[i as int].deep_view() =~= lines@[i as int]@);
            assert(linesv[i as int] == lines@[i as int]@);
        }
        match question_line(&lines[i], commission) {
            None => {
                assert(spec_qd_step(accv, linesv[i as int], commission) == accv);
            },
            Some((questioner, respondent, topic, dossier_id)) => {
                acc.questioners.push(string_of(&questioner));
                if !contains_string(&acc.respondents, &respondent) {
                    acc.respondents.push(string_of(&respondent));
                }
                acc.topics.push(string_of(&topic));
                acc.dossier_ids.push(string_of(&dossier_id));
                assert(acc.deep_view().questioners =~~= accv.questioners.push(questioner@));
                assert(acc.deep_view().topics =~~= accv.topics.push(topic@));
                assert(acc.deep_view().dossier_ids =~~= accv.dossier_ids.push(dossier_id@));
                proof {
                    if accv.respondents.contains(respondent@) {
                        assert(acc.deep_view().respondents =~~= accv.respondents);
                    } else {
                        assert(acc.deep_view().respondents =~~= accv.respondents.push(respondent@));
                    }
                }
                assert(acc.deep_view() =~~= spec_qd_step(accv, linesv[i as int], commission));
            },
        }
        i += 1;
    }
    acc
}

/// Applies the question rule chain to one accumulated plenary question
/// block: one entry per sub-question line that carries a questioner, a
/// respondent and a quoted topic, with the transcription-typo table
/// applied to questioner names and respondents deduplicated across the
/// block.
pub fn extract_question_data(question_text: &str) -> (r: QuestionData)
    ensures
        r.deep_view() == spec_question_data(question_text@, false),
{
    question_block(question_text, false)
}

/// Applies the question rule chain to one accumulated committee
/// question block: as the plenary rule, but the respondent's
/// parenthesised role may be absent, the trailing dossier reference is
/// required (six to eight digits and a letter, optionally prefixed
/// `nr.`), and a leading `de heer` title is stripped from the
/// questioner.
pub fn extract_question_data_commission(question_text: &str) -> (r: QuestionData)
    ensures
        r.deep_view() == spec_question_data(question_text@, true),
{
    question_block(question_text, true)
}

} // verus!

verus! {

/// No entry of the list occurs twice.
pub open spec fn spec_no_duplicates(s: Seq<Seq<char>>) -> bool {
    forall|i: int, j: int| 0 <= i < j < s.len() ==> s[i] != s[j]
}

proof fn lemma_qd_fold_respondents(
    lines: Seq<Seq<char>>,
    i: int,
    acc: QuestionDataV,
    commission: bool,
)
    requires
        0 <= i <= lines.len(),
        spec_no_duplicates(acc.respondents),
    ensures
        spec_no_duplicates(spec_qd_fold(lines, i, acc, commission).respondents),
    decreases lines.len() - i,
{
    if i < lines.len() {
        let acc2 = spec_qd_step(acc, lines[i], commission);
        assert(spec_no_duplicates(acc2.respondents)) by {
            match spec_question_line(lines[i], commission) {
                Option::None => {},
                Option::Some(q) => {
                    if !acc.respondents.contains(q.respondent) {
                        assert forall|a: int, b: int|
                            0 <= a < b < acc2.respondents.len() implies acc2.respondents[a]
                            != acc2.respondents[b] by {
                            if b == acc.respondents.len() as int {
                                assert(acc2.respondents[a] == acc.respondents[a]);
                            }
                        }
                    }
                },
            }
        }
        lemma_qd_fold_respondents(lines, i + 1, acc2, commission);
    }
}

/// The respondent list of an extracted question block never contains
/// duplicates, whatever the block's text; questioner lists may.
pub proof fn lemma_respondents_deduplicated(s: Seq<char>, commission: bool)
    ensures
        spec_no_duplicates(spec_question_data(s, commission).respondents),
{
    lemma_qd_fold_respondents(spec_split(s, "\n"@), 0, spec_qd_empty(), commission);
}

} // verus!
