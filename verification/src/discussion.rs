//! The discussion segmenter: turns the concatenated paragraph text
//! that follows a question (paragraphs joined with an explicit
//! `NEWPARAGRAPH` marker) into an ordered list of speaker turns. A
//! turn opens at an `HH.MM` timestamp anchored to the start of a
//! paragraph and followed by a speaker label ending in a colon, or at
//! the fixed chairperson marker; boilerplate closing phrases are
//! removed, and empty segments are dropped. The sequence is computed
//! from the raw text alone: no state crosses question boundaries.
use crate::records::{DiscussionTurn, DiscussionTurnV};
use crate::text::{
    chars_of, copy_range, find_char, lemma_find_char_range, matches_at, replace_all, skip_spaces, spec_clean_text, spec_find_char_from,
    spec_is_digit, spec_is_space, spec_match_at, spec_replace_all, spec_skip_spaces,
    spec_starts_with, spec_trim, starts_with_sub, string_of, trim_chars, clean_chars,
};
use vstd::prelude::*;

verus! {

/// The text with every run of consecutive spaces shortened to one
/// space; `prev_space` says whether the character before position `i`
/// was a space.
pub open spec fn spec_collapse_from(s: Seq<char>, i: int, prev_space: bool) -> Seq<char>
    decreases s.len() - i when 0 <= i <= s.len()
{
    if i >= s.len() {
        Seq::empty()
    } else {
        let keep = !(s[i] == ' ' && prev_space);
        (if keep {
            seq![s[i]]
        } else {
            Seq::empty()
        }) + spec_collapse_from(s, i + 1, s[i] == ' ')
    }
}

pub open spec fn spec_collapse_spaces(s: Seq<char>) -> Seq<char> {
    spec_collapse_from(s, 0, false)
}

pub fn collapse_spaces(v: &Vec<char>) -> (r: Vec<char>)
    ensures
        r@ == spec_collapse_spaces(v@),
{
    let mut out: Vec<char> = Vec::new();
    let mut i: usize = 0;
    let mut prev_space = false;
    while i < v.len()
        invariant
            i <= v.len(),
            spec_collapse_spaces(v@) == out@ + spec_collapse_from(v@, i as int, prev_space),
        decreases v.len() - i,
    {
        let ghost out0 = out@;
        let ghost prev0 = prev_space;
        let ghost i0 = i as int;
        let c = v[i];
        if !(c == ' ' && prev_space) {
            out.push(c);
        }
        prev_space = c == ' ';
        i += 1;
        assert(out0 + spec_collapse_from(v@, i0, prev0) =~= out@ + spec_collapse_from(
            v@,
            i as int,
            prev_space,
        ));
    }
    assert(out@ =~= spec_collapse_spaces(v@));
    out
}

/// A turn boundary found in the text: where its match begins, where
/// the turn's own text resumes, and the resolved speaker name.
pub struct BoundaryV {
    pub start: int,
    pub resume: int,
    pub speaker: Seq<char>,
}

/// The recognised courtesy and office titles that are stripped from
/// the front of a speaker label.
pub open spec fn spec_title_len(s: Seq<char>) -> int {
    if spec_starts_with(s, "Eerste minister "@) {
        "Eerste minister "@.len() as int
    } else if spec_starts_with(s, "Staatssecretaris "@) {
        "Staatssecretaris "@.len() as int
    } else if spec_starts_with(s, "Le ministre "@) {
        "Le ministre "@.len() as int
    } else if spec_starts_with(s, "La ministre "@) {
        "La ministre "@.len() as int
    } else if spec_starts_with(s, "De heer "@) {
        "De heer "@.len() as int
    } else if spec_starts_with(s, "Mevrouw "@) {
        "Mevrouw "@.len() as int
    } else if spec_starts_with(s, "Monsieur "@) {
        "Monsieur "@.len() as int
    } else if spec_starts_with(s, "Madame "@) {
        "Madame "@.len() as int
    } else if spec_starts_with(s, "Minister "@) {
        "Minister "@.len() as int
    } else {
        0
    }
}

fn title_len(v: &Vec<char>) -> (r: usize)
    ensures
        r == spec_title_len(v@),
        r <= v.len(),
{
    let t1 = chars_of("Eerste minister ");
    let t2 = chars_of("Staatssecretaris ");
    let t3 = chars_of("Le ministre ");
    let t4 = chars_of("La ministre ");
    let t5 = chars_of("De heer ");
    let t6 = chars_of("Mevrouw ");
    let t7 = chars_of("Monsieur ");
    let t8 = chars_of("Madame ");
    let t9 = chars_of("Minister ");
    if starts_with_sub(v, &t1) {
        t1.len()
    } else if starts_with_sub(v, &t2) {
        t2.len()
    } else if starts_with_sub(v, &t3) {
        t3.len()
    } else if starts_with_sub(v, &t4) {
        t4.len()
    } else if starts_with_sub(v, &t5) {
        t5.len()
    } else if starts_with_sub(v, &t6) {
        t6.len()
    } else if starts_with_sub(v, &t7) {
        t7.len()
    } else if starts_with_sub(v, &t8) {
        t8.len()
    } else if starts_with_sub(v, &t9) {
        t9.len()
    } else {
        0
    }
}

/// Resolution of a raw speaker label: the title is stripped, the name
/// runs to the first parenthesis, comma or colon, and an empty result
/// names the speaker unknown.
pub open spec fn spec_speaker_name(raw: Seq<char>) -> Seq<char> {
    let stripped = raw.subrange(spec_title_len(raw), raw.len() as int);
    let stop1: int = match spec_find_char_from(stripped, '(', 0) {
        Option::None => stripped.len() as int,
        Option::Some(k) => k,
    };
    let stop2: int = match spec_find_char_from(stripped, ',', 0) {
        Option::None => stop1,
        Option::Some(k) => if k < stop1 {
            k
        } else {
            stop1
        },
    };
    let stop3: int = match spec_find_char_from(stripped, ':', 0) {
        Option::None => stop2,
        Option::Some(k) => if k < stop2 {
            k
        } else {
            stop2
        },
    };
    let name = spec_trim(stripped.subrange(0, stop3));
    if name.len() == 0 {
        "Onbekend"@
    } else {
        name
    }
}

fn speaker_name(raw: &Vec<char>) -> (r: Vec<char>)
    ensures
        r@ == spec_speaker_name(raw@),
{
    let tl = title_len(raw);
    let stripped = copy_range(raw, tl, raw.len());
    let stop1: usize = match find_char(&stripped, '(', 0) {
        None => stripped.len(),
        Some(k) => {
            proof {
                lemma_find_char_range(stripped@, '(', 0);
            }
            k
        },
    };
    let stop2: usize = match find_char(&stripped, ',', 0) {
        None => stop1,
        Some(k) => {
            proof {
                lemma_find_char_range(stripped@, ',', 0);
            }
            if k < stop1 {
                k
            } else {
                stop1
            }
        },
    };
    let stop3: usize = match find_char(&stripped, ':', 0) {
        None => stop2,
        Some(k) => {
            proof {
                lemma_find_char_range(stripped@, ':', 0);
            }
            if k < stop2 {
                k
            } else {
                stop2
            }
        },
    };
    let head = copy_range(&stripped, 0, stop3);
    let name = trim_chars(&head);
    if name.len() == 0 {
        chars_of("Onbekend")
    } else {
        name
    }
}

/// The boundary that begins at exactly position `p`, if any: either
/// the chairperson marker followed by a colon, or — at the start of
/// the text or right after a paragraph separator — an `HH.MM`
/// timestamp, whitespace, and a speaker label ending in a colon.
pub open spec fn spec_boundary_at(c: Seq<char>, p: int) -> Option<BoundaryV> {
    if spec_match_at(c, "De voorzitter"@, p) || spec_match_at(c, "Le président"@, p) {
        let w: int = if spec_match_at(c, "De voorzitter"@, p) {
            "De voorzitter"@.len() as int
        } else {
            "Le président"@.len() as int
        };
        let k = spec_skip_spaces(c, p + w);
        if k < c.len() && c[k] == ':' {
            Some(BoundaryV { start: p, resume: k + 1, speaker: "Voorzitter"@ })
        } else {
            None
        }
    } else if p == 0 || spec_match_at(c, "NEWPARAGRAPH"@, p) {
        let npw: int = if p == 0 {
            0
        } else {
            "NEWPARAGRAPH"@.len() as int
        };
        let j = spec_skip_spaces(c, p + npw);
        if j + 5 < c.len() && spec_is_digit(c[j]) && spec_is_digit(c[j + 1]) && c[j + 2] == '.'
            && spec_is_digit(c[j + 3]) && spec_is_digit(c[j + 4]) && spec_is_space(c[j + 5]) {
            let k = spec_skip_spaces(c, j + 5);
            match spec_find_char_from(c, ':', k) {
                Option::None => None,
                Option::Some(colon) => Some(
                    BoundaryV {
                        start: p,
                        resume: colon + 1,
                        speaker: spec_speaker_name(c.subrange(k, colon)),
                    },
                ),
            }
        } else {
            None
        }
    } else {
        None
    }
}

fn boundary_at(c: &Vec<char>, p: usize) -> (r: Option<(usize, Vec<char>)>)
    requires
        p <= c.len(),
    ensures
        match r {
            Some(b) => {
                &&& spec_boundary_at(c@, p as int) is Some
                &&& spec_boundary_at(c@, p as int)->Some_0.start == p
                &&& spec_boundary_at(c@, p as int)->Some_0.resume == b.0 as int
                &&& spec_boundary_at(c@, p as int)->Some_0.speaker == b.1@
                &&& p < b.0 <= c.len()
            },
            None => spec_boundary_at(c@, p as int) is None,
        },
{
    let chair_nl = chars_of("De voorzitter");
    let chair_fr = chars_of("Le président");
    let np = chars_of("NEWPARAGRAPH");
    if matches_at(c, &chair_nl, p) || matches_at(c, &chair_fr, p) {
        let w: usize = if matches_at(c, &chair_nl, p) {
            chair_nl.len()
        } else {
            chair_fr.len()
        };
        let k = skip_spaces(c, p + w);
        if k < c.len() && c[k] == ':' {
            proof {
                reveal_strlit("De voorzitter");
                reveal_strlit("Le président");
            }
            Some((k + 1, chars_of("Voorzitter")))
        } else {
            None
        }
    } else if p == 0 || matches_at(c, &np, p) {
        let npw: usize = if p == 0 {
            0
        } else {
            np.len()
        };
        let j = skip_spaces(c, p + npw);
        if c.len() - j > 5 && is_digit_at(c, j) && is_digit_at(c, j + 1) && c[j + 2] == '.'
            && is_digit_at(c, j + 3) && is_digit_at(c, j + 4) && is_space_at(c, j + 5) {
            let k = skip_spaces(c, j + 5);
            match find_char(c, ':', k) {
                None => None,
                Some(colon) => {
                    proof {
                        lemma_find_char_range(c@, ':', k as int);
                    }
                    let raw = copy_range(c, k, colon);
                    Some((colon + 1, speaker_name(&raw)))
                },
            }
        } else {
            None
        }
    } else {
        None
    }
}

fn is_digit_at(c: &Vec<char>, i: usize) -> (r: bool)
    requires
        i < c.len(),
    ensures
        r == spec_is_digit(c@[i as int]),
{
    '0' <= c[i] && c[i] <= '9'
}

fn is_space_at(c: &Vec<char>, i: usize) -> (r: bool)
    requires
        i < c.len(),
    ensures
        r == spec_is_space(c@[i as int]),
{
    let x = c[i];
    x == ' ' || x == '\t' || x == '\n' || x == '\r'
}

/// The earliest turn boundary at or after position `i`.
pub open spec fn spec_next_boundary(c: Seq<char>, i: int) -> Option<BoundaryV>
    decreases c.len() - i when 0 <= i <= c.len()
{
    if i >= c.len() {
        None
    } else {
        match spec_boundary_at(c, i) {
            Option::Some(b) => Some(b),
            Option::None => spec_next_boundary(c, i + 1),
        }
    }
}

pub proof fn lemma_next_boundary_range(c: Seq<char>, i: int)
    requires
        0 <= i <= c.len(),
        spec_next_boundary(c, i) is Some,
    ensures
        i <= spec_next_boundary(c, i)->Some_0.start,
        spec_next_boundary(c, i)->Some_0.start < spec_next_boundary(c, i)->Some_0.resume,
        spec_next_boundary(c, i)->Some_0.resume <= c.len(),
    decreases c.len() - i,
{
    if i < c.len() {
        match spec_boundary_at(c, i) {
            Option::Some(b) => {
                lemma_boundary_at_range(c, i);
            },
            Option::None => {
                lemma_next_boundary_range(c, i + 1);
            },
        }
    }
}

proof fn lemma_boundary_at_range(c: Seq<char>, p: int)
    requires
        0 <= p <= c.len(),
        spec_boundary_at(c, p) is Some,
    ensures
        spec_boundary_at(c, p)->Some_0.start == p,
        p < spec_boundary_at(c, p)->Some_0.resume <= c.len(),
{
    reveal_strlit("De voorzitter");
    reveal_strlit("Le président");
    reveal_strlit("NEWPARAGRAPH");
    if spec_match_at(c, "De voorzitter"@, p) || spec_match_at(c, "Le président"@, p) {
        let w: int = if spec_match_at(c, "De voorzitter"@, p) {
            "De voorzitter"@.len() as int
        } else {
            "Le président"@.len() as int
        };
        crate::text::lemma_skip_spaces_range(c, p + w);
    } else {
        let npw: int = if p == 0 {
            0
        } else {
            "NEWPARAGRAPH"@.len() as int
        };
        crate::text::lemma_skip_spaces_range(c, p + npw);
        let j = spec_skip_spaces(c, p + npw);
        crate::text::lemma_skip_spaces_range(c, j + 5);
        let k = spec_skip_spaces(c, j + 5);
        crate::text::lemma_find_char_range(c, ':', k);
    }
}

fn next_boundary(c: &Vec<char>, from: usize) -> (r: Option<(usize, usize, Vec<char>)>)
    requires
        from <= c.len(),
    ensures
        match r {
            Some(b) => {
                &&& spec_next_boundary(c@, from as int) == Some(
                    BoundaryV { start: b.0 as int, resume: b.1 as int, speaker: b.2@ },
                )
                &&& from <= b.0 < b.1 <= c.len()
            },
            None => spec_next_boundary(c@, from as int) is None,
        },
{
    let mut p: usize = from;
    while p < c.len()
        invariant
            from <= p <= c.len(),
            spec_next_boundary(c@, from as int) == spec_next_boundary(c@, p as int),
        decreases c.len() - p,
    {
        match boundary_at(c, p) {
            Some(b) => {
                return Some((p, b.0, b.1));
            },
            None => {
                p += 1;
            },
        }
    }
    None
}

/// The processing of one raw turn segment: paragraph separators become
/// line breaks, the boilerplate closing phrases disappear, and the
/// result is trimmed.
pub open spec fn spec_turn_text(raw: Seq<char>) -> Seq<char> {
    spec_trim(
        spec_replace_all(
            spec_replace_all(
                spec_replace_all(raw, "NEWPARAGRAPH"@, "\n"@),
                "Het incident is gesloten."@,
                Seq::empty(),
            ),
            "L'incident est clos."@,
            Seq::empty(),
        ),
    )
}

fn turn_text(raw: &Vec<char>) -> (r: Vec<char>)
    ensures
        r@ == spec_turn_text(raw@),
{
    let np = chars_of("NEWPARAGRAPH");
    let nl = chars_of("\n");
    let inc_nl = chars_of("Het incident is gesloten.");
    let inc_fr = chars_of("L'incident est clos.");
    let empty: Vec<char> = Vec::new();
    proof {
        reveal_strlit("NEWPARAGRAPH");
        reveal_strlit("Het incident is gesloten.");
        reveal_strlit("L'incident est clos.");
    }
    let a = replace_all(raw, &np, &nl);
    let b = replace_all(&a, &inc_nl, &empty);
    let c = replace_all(&b, &inc_fr, &empty);
    trim_chars(&c)
}

/// Zero or one turns from a closed segment: a turn exists when the
/// processed text is non-empty.
pub open spec fn spec_maybe_turn(speaker: Seq<char>, raw: Seq<char>) -> Seq<DiscussionTurnV> {
    let t = spec_turn_text(raw);
    if t.len() > 0 {
        seq![DiscussionTurnV { speaker: spec_trim(speaker), text: t }]
    } else {
        Seq::empty()
    }
}

/// The turns of the text from position `i` on, with `speaker` holding
/// the floor.
pub open spec fn spec_segment_from(c: Seq<char>, i: int, speaker: Seq<char>) -> Seq<
    DiscussionTurnV,
>
    decreases c.len() - i when 0 <= i <= c.len() via spec_segment_from_dec
{
    match spec_next_boundary(c, i) {
        Option::None => {
            if speaker.len() > 0 {
                spec_maybe_turn(speaker, c.subrange(i, c.len() as int))
            } else {
                Seq::empty()
            }
        },
        Option::Some(b) => {
            (if speaker.len() > 0 {
                spec_maybe_turn(speaker, c.subrange(i, b.start))
            } else {
                Seq::empty()
            }) + spec_segment_from(c, b.resume, b.speaker)
        },
    }
}

#[via_fn]
proof fn spec_segment_from_dec(c: Seq<char>, i: int, speaker: Seq<char>) {
    if spec_next_boundary(c, i) is Some {
        lemma_next_boundary_range(c, i);
    }
}

/// The turns of a whole discussion text: the text is normalised and
/// space-collapsed, then cut at each turn boundary.
pub open spec fn spec_segment_discussion(s: Seq<char>) -> Seq<DiscussionTurnV> {
    spec_segment_from(spec_collapse_spaces(spec_clean_text(s)), 0, Seq::empty())
}

/// Segments a discussion text into its ordered speaker turns: a turn
/// opens at an `HH.MM` timestamp at the start of a paragraph followed
/// by a speaker label ending in a colon, or at the chairperson marker
/// (`De voorzitter` / `Le président`), whose speaker is `Voorzitter`.
/// Titles are stripped from speaker names, boilerplate closing
/// phrases are removed, and empty segments are dropped.
pub fn segment_discussion(input: &str) -> (r: Vec<DiscussionTurn>)
    ensures
        r.deep_view() == spec_segment_discussion(input@),
{
    let raw = chars_of(input);
    let cleaned = clean_chars(&raw);
    let c = collapse_spaces(&cleaned);
    let mut turns: Vec<DiscussionTurn> = Vec::new();
    let mut i: usize = 0;
    let mut speaker: Vec<char> = Vec::new();
    loop
        invariant
            0 <= i <= c.len(),
            spec_segment_discussion(input@) == turns.deep_view() + spec_segment_from(
                c@,
                i as int,
                speaker@,
            ),
        decreases c.len() - i + 1,
    {
        match next_boundary(&c, i) {
            None => {
                if speaker.len() > 0 {
                    let raw_seg = copy_range(&c, i, c.len());
                    let t = turn_text(&raw_seg);
                    if t.len() > 0 {
                        let ghost turns0 = turns.deep_view();
                        let sp = trim_chars(&speaker);
                        turns.push(
                            DiscussionTurn { speaker: string_of(&sp), text: string_of(&t) },
                        );
                        assert(turns.deep_view() =~~= turns0 + spec_maybe_turn(speaker@, c@.subrange(i as int, c@.len() as int)));
                    } else {
                        assert(turns.deep_view() =~~= turns.deep_view() + spec_segment_from(
                            c@,
                            i as int,
                            speaker@,
                        ));
                    }
                } else {
                    assert(turns.deep_view() =~~= turns.deep_view() + spec_segment_from(
                        c@,
                        i as int,
                        speaker@,
                    ));
                }
                assert(turns.deep_view() =~~= spec_segment_discussion(input@));
                return turns;
            },
            Some((start, resume, next_speaker)) => {
                let ghost turns0 = turns.deep_view();
                if speaker.len() > 0 {
                    let raw_seg = copy_range(&c, i, start);
                    let t = turn_text(&raw_seg);
                    if t.len() > 0 {
                        let sp = trim_chars(&speaker);
                        turns.push(
                            DiscussionTurn { speaker: string_of(&sp), text: string_of(&t) },
                        );
                        assert(turns.deep_view() =~~= turns0 + spec_maybe_turn(speaker@, c@.subrange(i as int, start as int)));
                    }
                }
                proof {
                    assert(turns.deep_view() + spec_segment_from(c@, resume as int, next_speaker@)
                        =~= (turns0 + (turns.deep_view().skip(turns0.len() as int)
                        + spec_segment_from(c@, resume as int, next_speaker@))));
                    assert(turns.deep_view().skip(turns0.len() as int) =~= if speaker@.len() > 0 {
                        spec_maybe_turn(speaker@, c@.subrange(i as int, start as int))
                    } else {
                        Seq::<DiscussionTurnV>::empty()
                    });
                }
                i = resume;
                speaker = next_speaker;
            },
        }
    }
}

} // verus!
