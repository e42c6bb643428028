//! The incremental crawl boundary and the dossier-cache staleness
//! rule: pure decisions over plain values. Probing itself — fetching
//! identifier after identifier until a not-found response — is outside
//! work; this module says what the new boundary is for any sequence of
//! probe outcomes, and when a cached dossier file is stale.
use crate::records::Date;
use crate::text::{chars_of, is_digit, spec_is_digit};
use vstd::prelude::*;

verus! {

/// How many probes succeeded before the first not-found response.
pub open spec fn spec_found_prefix(found: Seq<bool>, i: int) -> int
    decreases found.len() - i when 0 <= i <= found.len()
{
    if i >= found.len() {
        0
    } else if found[i] {
        1 + spec_found_prefix(found, i + 1)
    } else {
        0
    }
}

/// The new upper bound after a probe run: the last known identifier
/// advanced once per consecutive successful probe, stopping at the
/// first not-found response (saturating at the identifier type's
/// maximum, which no archive approaches).
pub open spec fn spec_new_boundary(last_known: u32, found: Seq<bool>) -> u32 {
    if last_known + spec_found_prefix(found, 0) <= u32::MAX {
        (last_known + spec_found_prefix(found, 0)) as u32
    } else {
        u32::MAX
    }
}

pub proof fn lemma_found_prefix_bound(found: Seq<bool>, i: int)
    requires
        0 <= i <= found.len(),
    ensures
        0 <= spec_found_prefix(found, i) <= found.len() - i,
    decreases found.len() - i,
{
    if i < found.len() && found[i] {
        lemma_found_prefix_bound(found, i + 1);
    }
}

/// Extends the processed range by the probe outcomes: identifier after
/// identifier counts as discovered until the first not-found response.
pub fn new_boundary(last_known: u32, found: &Vec<bool>) -> (r: u32)
    ensures
        r == spec_new_boundary(last_known, found@),
        r >= last_known,
{
    let mut cur: u32 = last_known;
    let mut i: usize = 0;
    loop
        invariant
            i <= found.len(),
            last_known <= cur,
            spec_new_boundary(last_known, found@) == if cur + spec_found_prefix(found@, i as int)
                <= u32::MAX {
                (cur + spec_found_prefix(found@, i as int)) as u32
            } else {
                u32::MAX
            },
        decreases found.len() - i,
    {
        if i >= found.len() || !found[i] {
            proof {
                lemma_found_prefix_bound(found@, i as int);
            }
            return cur;
        }
        proof {
            lemma_found_prefix_bound(found@, i + 1);
        }
        if cur == u32::MAX {
            return cur;
        }
        cur = cur + 1;
        i += 1;
    }
}

/// Dates ordered as calendars order them.
pub open spec fn spec_date_ge(a: Date, b: Date) -> bool {
    if a.year != b.year {
        a.year > b.year
    } else if a.month != b.month {
        a.month > b.month
    } else {
        a.day >= b.day
    }
}

/// Whether a cached dossier file must be fetched anew: yes when the
/// meeting that references the dossier is as recent as the cached
/// file's embedded date, or more recent.
pub fn should_refresh_dossier(meeting_date: Date, cached_date: Date) -> (r: bool)
    ensures
        r == spec_date_ge(meeting_date, cached_date),
{
    if meeting_date.year != cached_date.year {
        meeting_date.year > cached_date.year
    } else if meeting_date.month != cached_date.month {
        meeting_date.month > cached_date.month
    } else {
        meeting_date.day >= cached_date.day
    }
}

/// Whether a year has a 29th of February.
pub open spec fn spec_is_leap_year(y: int) -> bool {
    (y % 4 == 0 && y % 100 != 0) || y % 400 == 0
}

/// The number of days of a month.
pub open spec fn spec_days_in_month(y: int, m: int) -> int {
    if m == 2 {
        if spec_is_leap_year(y) {
            29
        } else {
            28
        }
    } else if m == 4 || m == 6 || m == 9 || m == 11 {
        30
    } else {
        31
    }
}

/// A real calendar date.
pub open spec fn spec_valid_date(d: Date) -> bool {
    1 <= d.month <= 12 && 1 <= d.day <= spec_days_in_month(d.year as int, d.month as int)
}

/// Whether year, month and day form a real calendar date.
pub fn is_valid_date(d: Date) -> (r: bool)
    ensures
        r == spec_valid_date(d),
{
    if d.month < 1 || d.month > 12 {
        return false;
    }
    let days: u32 = if d.month == 2 {
        if (d.year % 4 == 0 && d.year % 100 != 0) || d.year % 400 == 0 {
            29
        } else {
            28
        }
    } else if d.month == 4 || d.month == 6 || d.month == 9 || d.month == 11 {
        30
    } else {
        31
    };
    1 <= d.day && d.day <= days
}

/// An ISO date (`YYYY-MM-DD`) written at position `p` right after an
/// underscore, as the dossier cache embeds it in file names.
pub open spec fn spec_iso_at(s: Seq<char>, p: int) -> Option<Date> {
    if p + 11 <= s.len() && s[p] == '_' && spec_is_digit(s[p + 1]) && spec_is_digit(s[p + 2])
        && spec_is_digit(s[p + 3]) && spec_is_digit(s[p + 4]) && s[p + 5] == '-' && spec_is_digit(
        s[p + 6],
    ) && spec_is_digit(s[p + 7]) && s[p + 8] == '-' && spec_is_digit(s[p + 9]) && spec_is_digit(
        s[p + 10],
    ) {
        Some(
            Date {
                year: (1000 * (s[p + 1] as int - 48) + 100 * (s[p + 2] as int - 48) + 10 * (s[p + 3] as int
                    - 48) + (s[p + 4] as int - 48)) as u32,
                month: (10 * (s[p + 6] as int - 48) + (s[p + 7] as int - 48)) as u32,
                day: (10 * (s[p + 9] as int - 48) + (s[p + 10] as int - 48)) as u32,
            },
        )
    } else {
        None
    }
}

pub open spec fn spec_find_iso(s: Seq<char>, p: int) -> Option<Date>
    decreases s.len() - p when 0 <= p <= s.len()
{
    if p >= s.len() {
        None
    } else {
        match spec_iso_at(s, p) {
            Option::Some(d) => Some(d),
            Option::None => spec_find_iso(s, p + 1),
        }
    }
}

/// The date a cached dossier file name embeds: the first
/// `_YYYY-MM-DD` group that forms a real calendar date.
pub open spec fn spec_filename_date(s: Seq<char>) -> Option<Date> {
    match spec_find_iso(s, 0) {
        Option::None => None,
        Option::Some(d) => if spec_valid_date(d) {
            Some(d)
        } else {
            None
        },
    }
}

fn iso_at(v: &Vec<char>, p: usize) -> (r: Option<Date>)
    requires
        p <= v.len(),
    ensures
        r == spec_iso_at(v@, p as int),
{
    if v.len() - p >= 11 && v[p] == '_' && is_digit(v[p + 1]) && is_digit(v[p + 2]) && is_digit(
        v[p + 3],
    ) && is_digit(v[p + 4]) && v[p + 5] == '-' && is_digit(v[p + 6]) && is_digit(v[p + 7]) && v[p
        + 8] == '-' && is_digit(v[p + 9]) && is_digit(v[p + 10]) {
        let year: u32 = 1000 * ((v[p + 1] as u32) - 48) + 100 * ((v[p + 2] as u32) - 48) + 10 * ((
        v[p + 3] as u32) - 48) + ((v[p + 4] as u32) - 48);
        let month: u32 = 10 * ((v[p + 6] as u32) - 48) + ((v[p + 7] as u32) - 48);
        let day: u32 = 10 * ((v[p + 9] as u32) - 48) + ((v[p + 10] as u32) - 48);
        Some(Date { year, month, day })
    } else {
        None
    }
}

/// Reads the embedded `_YYYY-MM-DD` date out of a cached dossier file
/// name; absent when no such group exists or it is not a real date.
pub fn filename_embedded_date(name: &str) -> (r: Option<Date>)
    ensures
        r == spec_filename_date(name@),
{
    let v = chars_of(name);
    let mut p: usize = 0;
    while p < v.len()
        invariant
            p <= v.len(),
            v@ == name@,
            spec_find_iso(v@, 0) == spec_find_iso(v@, p as int),
        decreases v.len() - p,
    {
        match iso_at(&v, p) {
            Some(d) => {
                if is_valid_date(d) {
                    return Some(d);
                } else {
                    return None;
                }
            },
            None => {
                p += 1;
            },
        }
    }
    None
}

} // verus!
