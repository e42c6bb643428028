//! The bilingual group accumulator: within an active section,
//! consecutive sub-item headings (one per language, with unreliable
//! language tags) are buffered into one logical item text per
//! language. A heading that starts a new group or single item flushes
//! the buffered item first; a dash heading continues the current group
//! on a new line; anything else clears the buffers without flushing,
//! so that no entity is fabricated from noise. At section end a
//! non-empty buffer is flushed exactly once.
use crate::records::{Lang, SpanV, Span};
use crate::text::{
    chars_of, clean_chars, contains_sub, lower, quote_norm, spec_clean_text,
    spec_contains, spec_lower, spec_quote_norm, spec_starts_with, starts_with_sub,
};
use vstd::prelude::*;

verus! {

/// The text of the last span claiming the wanted language, searching
/// backward from position `i`.
pub open spec fn spec_last_lang_text(spans: Seq<SpanV>, i: int, want_nl: bool) -> Option<Seq<char>>
    decreases i when 0 <= i <= spans.len()
{
    if i <= 0 {
        None
    } else if (want_nl && spans[i - 1].lang == Lang::Nl) || (!want_nl && spans[i - 1].lang
        == Lang::Fr) {
        Some(spans[i - 1].text)
    } else {
        spec_last_lang_text(spans, i - 1, want_nl)
    }
}

pub fn last_span_text(spans: &Vec<Span>, want_nl: bool) -> (r: Option<Vec<char>>)
    ensures
        match r {
            Some(v) => spec_last_lang_text(spans.deep_view(), spans.deep_view().len() as int, want_nl)
                == Some(v@),
            None => spec_last_lang_text(
                spans.deep_view(),
                spans.deep_view().len() as int,
                want_nl,
            ) is None,
        },
{
    let mut i: usize = spans.len();
    proof {
        assert(spans.deep_view().len() == spans.len());
    }
    while i > 0
        invariant
            i <= spans.len(),
            spans.deep_view().len() == spans.len(),
            spec_last_lang_text(spans.deep_view(), spans.deep_view().len() as int, want_nl)
                == spec_last_lang_text(spans.deep_view(), i as int, want_nl),
        decreases i,
    {
        proof {
            assert(spans.deep_view()[i - 1] == spans@[i - 1].deep_view());
        }
        let is_want = if want_nl {
            matches!(spans[i - 1].lang, Lang::Nl)
        } else {
            matches!(spans[i - 1].lang, Lang::Fr)
        };
        if is_want {
            return Some(chars_of(spans[i - 1].text.as_str()));
        }
        i -= 1;
    }
    None
}

/// Which entity kind a heading is being classified for; the indicator
/// words and normalisation differ per kind.
#[derive(Clone, Copy, Debug, PartialEq, Eq)]
pub enum ItemKind {
    PlenaryQuestion,
    CommissionQuestion,
    Proposition,
}

/// Whether a span tagged Dutch is actually French: it contains one of
/// the French indicator words for the entity kind.
pub open spec fn spec_likely_french(t: Seq<char>, kind: ItemKind) -> bool {
    let l = spec_lower(t);
    match kind {
        ItemKind::PlenaryQuestion => spec_contains(l, "questions jointes"@),
        ItemKind::CommissionQuestion => spec_contains(l, "questions jointes"@) || spec_contains(
            l,
            "question de"@,
        ),
        ItemKind::Proposition => spec_contains(l, "à"@) || spec_contains(l, "membre"@),
    }
}

/// Whether a span tagged French is actually Dutch: it contains one of
/// the Dutch indicator words for the entity kind.
pub open spec fn spec_likely_dutch(t: Seq<char>, kind: ItemKind) -> bool {
    let l = spec_lower(t);
    match kind {
        ItemKind::PlenaryQuestion => spec_contains(l, "samengevoegde vragen"@),
        ItemKind::CommissionQuestion => spec_contains(l, "samengevoegde vragen"@) || spec_contains(
            l,
            "toegevoegde vragen"@,
        ) || spec_contains(l, "vraag van"@),
        ItemKind::Proposition => spec_contains(l, "oproep"@),
    }
}

fn likely_french(t: &Vec<char>, kind: ItemKind) -> (r: bool)
    ensures
        r == spec_likely_french(t@, kind),
{
    let l = lower(t);
    match kind {
        ItemKind::PlenaryQuestion => {
            let k = chars_of("questions jointes");
            contains_sub(&l, &k)
        },
        ItemKind::CommissionQuestion => {
            let k1 = chars_of("questions jointes");
            let k2 = chars_of("question de");
            contains_sub(&l, &k1) || contains_sub(&l, &k2)
        },
        ItemKind::Proposition => {
            let k1 = chars_of("à");
            let k2 = chars_of("membre");
            contains_sub(&l, &k1) || contains_sub(&l, &k2)
        },
    }
}

fn likely_dutch(t: &Vec<char>, kind: ItemKind) -> (r: bool)
    ensures
        r == spec_likely_dutch(t@, kind),
{
    let l = lower(t);
    match kind {
        ItemKind::PlenaryQuestion => {
            let k = chars_of("samengevoegde vragen");
            contains_sub(&l, &k)
        },
        ItemKind::CommissionQuestion => {
            let k1 = chars_of("samengevoegde vragen");
            let k2 = chars_of("toegevoegde vragen");
            let k3 = chars_of("vraag van");
            contains_sub(&l, &k1) || contains_sub(&l, &k2) || contains_sub(&l, &k3)
        },
        ItemKind::Proposition => {
            let k = chars_of("oproep");
            contains_sub(&l, &k)
        },
    }
}

/// The normalisation a heading text gets before classification: raw
/// span text cleaned, and (except for the Dutch span of a plenary
/// question, which keeps its quotes for the question rule) double
/// quotes turned into single quotes.
pub open spec fn spec_heading_norm(raw: Seq<char>, keep_quotes: bool) -> Seq<char> {
    if keep_quotes {
        spec_clean_text(raw)
    } else {
        spec_quote_norm(spec_clean_text(raw))
    }
}

fn heading_norm(raw: &Vec<char>, keep_quotes: bool) -> (r: Vec<char>)
    ensures
        r@ == spec_heading_norm(raw@, keep_quotes),
{
    let c = clean_chars(raw);
    if keep_quotes {
        c
    } else {
        quote_norm(&c)
    }
}

/// The language-resolved heading texts of a sub-heading: the last span
/// per claimed language is taken, normalised, and re-classified by the
/// opposite language's indicator words; a span whose claim the
/// indicators contradict is moved to the other language.
pub open spec fn spec_heading_texts(spans: Seq<SpanV>, kind: ItemKind) -> (
    Option<Seq<char>>,
    Option<Seq<char>>,
) {
    let nl_raw = spec_last_lang_text(spans, spans.len() as int, true);
    let fr_raw = spec_last_lang_text(spans, spans.len() as int, false);
    let keep = kind == ItemKind::PlenaryQuestion;
    let after_nl: (Option<Seq<char>>, Option<Seq<char>>) = match nl_raw {
        Option::None => (None, None),
        Option::Some(raw) => {
            let t = spec_heading_norm(raw, keep);
            if spec_likely_french(t, kind) {
                (None, Some(t))
            } else {
                (Some(t), None)
            }
        },
    };
    match fr_raw {
        Option::None => after_nl,
        Option::Some(raw) => {
            let t = spec_heading_norm(raw, false);
            if spec_likely_dutch(t, kind) {
                (Some(t), after_nl.1)
            } else {
                (after_nl.0, Some(t))
            }
        },
    }
}

pub fn heading_texts(spans: &Vec<Span>, kind: ItemKind) -> (r: (Option<Vec<char>>, Option<Vec<char>>))
    ensures
        ({
            let s = spec_heading_texts(spans.deep_view(), kind);
            &&& match r.0 {
                Some(v) => s.0 == Some(v@),
                None => s.0 is None,
            }
            &&& match r.1 {
                Some(v) => s.1 == Some(v@),
                None => s.1 is None,
            }
        }),
{
    let nl_raw = last_span_text(spans, true);
    let fr_raw = last_span_text(spans, false);
    let keep = matches!(kind, ItemKind::PlenaryQuestion);
    let mut found_nl: Option<Vec<char>> = None;
    let mut found_fr: Option<Vec<char>> = None;
    match nl_raw {
        None => {},
        Some(raw) => {
            let t = heading_norm(&raw, keep);
            if likely_french(&t, kind) {
                found_fr = Some(t);
            } else {
                found_nl = Some(t);
            }
        },
    }
    match fr_raw {
        None => {},
        Some(raw) => {
            let t = heading_norm(&raw, false);
            if likely_dutch(&t, kind) {
                found_nl = Some(t);
            } else {
                found_fr = Some(t);
            }
        },
    }
    (found_nl, found_fr)
}

/// The role of a classified heading within its section.
#[derive(Clone, Copy, Debug, PartialEq, Eq)]
pub enum Role {
    Start,
    Sub,
    Neither,
}

/// The role of a question heading: a grouping keyword or a single-item
/// marker starts an item, a leading dash continues one, anything else
/// is noise.
pub open spec fn spec_question_role(
    found_nl: Option<Seq<char>>,
    found_fr: Option<Seq<char>>,
    kind: ItemKind,
) -> Role {
    let nl_group = match found_nl {
        Option::Some(t) => spec_starts_with(t, "Samengevoegde"@) || (kind
            == ItemKind::CommissionQuestion && spec_contains(t, "toegevoegde vragen"@)),
        Option::None => false,
    };
    let fr_group = match found_fr {
        Option::Some(t) => spec_contains(t, "jointes"@),
        Option::None => false,
    };
    let single = (match found_nl {
        Option::Some(t) => spec_starts_with(t, "Vraag van"@),
        Option::None => false,
    }) || (match found_fr {
        Option::Some(t) => spec_starts_with(t, "Question de"@),
        Option::None => false,
    });
    let sub = (match found_nl {
        Option::Some(t) => spec_starts_with(t, "-"@),
        Option::None => false,
    }) || (match found_fr {
        Option::Some(t) => spec_starts_with(t, "-"@),
        Option::None => false,
    });
    if nl_group || fr_group || single {
        Role::Start
    } else if sub {
        Role::Sub
    } else {
        Role::Neither
    }
}

pub fn question_role(found_nl: &Option<Vec<char>>, found_fr: &Option<Vec<char>>, kind: ItemKind) -> (r:
    Role)
    ensures
        r == spec_question_role(
            match *found_nl {
                Some(ref v) => Some(v@),
                None => None,
            },
            match *found_fr {
                Some(ref v) => Some(v@),
                None => None,
            },
            kind,
        ),
{
    let samen = chars_of("Samengevoegde");
    let toegevoegd = chars_of("toegevoegde vragen");
    let jointes = chars_of("jointes");
    let vraag = chars_of("Vraag van");
    let question = chars_of("Question de");
    let dash = chars_of("-");
    let nl_group = match found_nl {
        Some(t) => starts_with_sub(t, &samen) || (matches!(kind, ItemKind::CommissionQuestion)
            && contains_sub(t, &toegevoegd)),
        None => false,
    };
    let fr_group = match found_fr {
        Some(t) => contains_sub(t, &jointes),
        None => false,
    };
    let single = (match found_nl {
        Some(t) => starts_with_sub(t, &vraag),
        None => false,
    }) || (match found_fr {
        Some(t) => starts_with_sub(t, &question),
        None => false,
    });
    let sub = (match found_nl {
        Some(t) => starts_with_sub(t, &dash),
        None => false,
    }) || (match found_fr {
        Some(t) => starts_with_sub(t, &dash),
        None => false,
    });
    if nl_group || fr_group || single {
        Role::Start
    } else if sub {
        Role::Sub
    } else {
        Role::Neither
    }
}

/// The accumulator's state: the buffered item text per language.
#[verifier::ext_equal]
pub struct QAccV {
    pub nl: Seq<char>,
    pub fr: Seq<char>,
}

pub open spec fn spec_qacc_empty() -> QAccV {
    QAccV { nl: Seq::empty(), fr: Seq::empty() }
}

/// One heading applied to the accumulator: a start flushes whatever is
/// buffered (when any side is non-empty) and begins a new buffer from
/// the heading's texts; a sub-item appends each present text on a new
/// line; noise clears the buffers and flushes nothing.
pub open spec fn spec_qacc_step(
    st: QAccV,
    found_nl: Option<Seq<char>>,
    found_fr: Option<Seq<char>>,
    role: Role,
) -> (QAccV, Option<(Seq<char>, Seq<char>)>) {
    match role {
        Role::Start => {
            let flush: Option<(Seq<char>, Seq<char>)> = if st.nl.len() > 0 || st.fr.len() > 0 {
                Some((st.nl, st.fr))
            } else {
                None
            };
            let st2 = QAccV {
                nl: match found_nl {
                    Option::Some(t) => t,
                    Option::None => Seq::empty(),
                },
                fr: match found_fr {
                    Option::Some(t) => t,
                    Option::None => Seq::empty(),
                },
            };
            (st2, flush)
        },
        Role::Sub => {
            let st2 = QAccV {
                nl: match found_nl {
                    Option::Some(t) => st.nl + "\n"@ + t,
                    Option::None => st.nl,
                },
                fr: match found_fr {
                    Option::Some(t) => st.fr + "\n"@ + t,
                    Option::None => st.fr,
                },
            };
            (st2, None)
        },
        Role::Neither => (spec_qacc_empty(), None),
    }
}

/// The flush at section end: a non-empty buffer leaves exactly once.
pub open spec fn spec_qacc_finish(st: QAccV) -> Option<(Seq<char>, Seq<char>)> {
    if st.nl.len() > 0 || st.fr.len() > 0 {
        Some((st.nl, st.fr))
    } else {
        None
    }
}

/// The law of the group accumulator: feeding a group start, two
/// sub-items and another group start, from an empty state, flushes
/// exactly two groups in original order — the first holding the first
/// three texts joined by line breaks, the second holding the fourth.
pub proof fn lemma_group_accumulator_two_groups(
    t1: Seq<char>,
    t2: Seq<char>,
    t3: Seq<char>,
    t4: Seq<char>,
)
    requires
        t1.len() > 0,
        t4.len() > 0,
    ensures
        ({
            let s1 = spec_qacc_step(spec_qacc_empty(), Some(t1), None, Role::Start);
            let s2 = spec_qacc_step(s1.0, Some(t2), None, Role::Sub);
            let s3 = spec_qacc_step(s2.0, Some(t3), None, Role::Sub);
            let s4 = spec_qacc_step(s3.0, Some(t4), None, Role::Start);
            &&& s1.1 is None
            &&& s2.1 is None
            &&& s3.1 is None
            &&& s4.1 == Some((t1 + "\n"@ + t2 + "\n"@ + t3, Seq::<char>::empty()))
            &&& spec_qacc_finish(s4.0) == Some((t4, Seq::<char>::empty()))
        }),
{
    reveal_strlit("\n");
}

} // verus!
