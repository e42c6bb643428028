//! Small bilingual lookup helpers: month names, language codes and
//! time-of-day labels as the source documents print them.
use crate::text::{chars_eq, chars_of, lower, spec_lower, string_of};
use vstd::prelude::*;

verus! {

/// The month number a lowercased Dutch month name denotes.
pub open spec fn spec_dutch_month_number(s: Seq<char>) -> Option<u32> {
    let l = spec_lower(s);
    if l == "januari"@ {
        Some(1u32)
    } else if l == "februari"@ {
        Some(2u32)
    } else if l == "maart"@ {
        Some(3u32)
    } else if l == "april"@ {
        Some(4u32)
    } else if l == "mei"@ {
        Some(5u32)
    } else if l == "juni"@ {
        Some(6u32)
    } else if l == "juli"@ {
        Some(7u32)
    } else if l == "augustus"@ {
        Some(8u32)
    } else if l == "september"@ {
        Some(9u32)
    } else if l == "oktober"@ {
        Some(10u32)
    } else if l == "november"@ {
        Some(11u32)
    } else if l == "december"@ {
        Some(12u32)
    } else {
        None
    }
}

/// Maps a Dutch month name (in any letter case) to its number, or
/// nothing for an unrecognised name.
pub fn dutch_month_to_number(month: &str) -> (r: Option<u32>)
    ensures
        r == spec_dutch_month_number(month@),
{
    let v = chars_of(month);
    let l = lower(&v);
    let m1 = chars_of("januari");
    if chars_eq(&l, &m1) {
        return Some(1);
    }
    let m2 = chars_of("februari");
    if chars_eq(&l, &m2) {
        return Some(2);
    }
    let m3 = chars_of("maart");
    if chars_eq(&l, &m3) {
        return Some(3);
    }
    let m4 = chars_of("april");
    if chars_eq(&l, &m4) {
        return Some(4);
    }
    let m5 = chars_of("mei");
    if chars_eq(&l, &m5) {
        return Some(5);
    }
    let m6 = chars_of("juni");
    if chars_eq(&l, &m6) {
        return Some(6);
    }
    let m7 = chars_of("juli");
    if chars_eq(&l, &m7) {
        return Some(7);
    }
    let m8 = chars_of("augustus");
    if chars_eq(&l, &m8) {
        return Some(8);
    }
    let m9 = chars_of("september");
    if chars_eq(&l, &m9) {
        return Some(9);
    }
    let m10 = chars_of("oktober");
    if chars_eq(&l, &m10) {
        return Some(10);
    }
    let m11 = chars_of("november");
    if chars_eq(&l, &m11) {
        return Some(11);
    }
    let m12 = chars_of("december");
    if chars_eq(&l, &m12) {
        return Some(12);
    }
    None
}

/// The two-letter code a lowercased Dutch language name denotes.
pub open spec fn spec_language_code(s: Seq<char>) -> Option<Seq<char>> {
    let l = spec_lower(s);
    if l == "nederlands"@ {
        Some("NL"@)
    } else if l == "frans"@ {
        Some("FR"@)
    } else {
        None
    }
}

/// Maps a Dutch language name to its two-letter code, or nothing for
/// an unrecognised name.
pub fn dutch_language_to_language_code(language: &str) -> (r: Option<&'static str>)
    ensures
        match r {
            Some(code) => spec_language_code(language@) == Some(code@),
            None => spec_language_code(language@) is None,
        },
{
    let v = chars_of(language);
    let l = lower(&v);
    let nl = chars_of("nederlands");
    if chars_eq(&l, &nl) {
        return Some("NL");
    }
    let fr = chars_of("frans");
    if chars_eq(&l, &fr) {
        return Some("FR");
    }
    None
}

/// The Dutch label for a time-of-day word (English or Dutch input);
/// any other input is passed through unchanged.
pub open spec fn spec_translate_time_of_day(s: Seq<char>) -> Seq<char> {
    if s == "morning"@ || s == "voormiddag"@ {
        "Voormiddag"@
    } else if s == "afternoon"@ || s == "namiddag"@ {
        "Namiddag"@
    } else if s == "evening"@ || s == "avond"@ {
        "Avond"@
    } else {
        s
    }
}

/// Translates a time-of-day word to its Dutch label.
pub fn translate_time_of_day(s: &str) -> (r: String)
    ensures
        r@ == spec_translate_time_of_day(s@),
{
    let v = chars_of(s);
    let c1 = chars_of("morning");
    let c2 = chars_of("voormiddag");
    if chars_eq(&v, &c1) || chars_eq(&v, &c2) {
        let out = chars_of("Voormiddag");
        return string_of(&out);
    }
    let c3 = chars_of("afternoon");
    let c4 = chars_of("namiddag");
    if chars_eq(&v, &c3) || chars_eq(&v, &c4) {
        let out = chars_of("Namiddag");
        return string_of(&out);
    }
    let c5 = chars_of("evening");
    let c6 = chars_of("avond");
    if chars_eq(&v, &c5) || chars_eq(&v, &c6) {
        let out = chars_of("Avond");
        return string_of(&out);
    }
    string_of(&v)
}

} // verus!
