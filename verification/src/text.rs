//! Character-sequence primitives: substring search, trimming, case
//! folding, splitting and digit parsing. Every executable function is
//! specified exactly against a spec-level counterpart, so that every
//! consumer higher up can state its own result as a function of its
//! input alone.
use vstd::prelude::*;
use vstd::string::*;

verus! {

/// Whitespace as the transcripts use it (non-breaking spaces are
/// normalised to plain spaces before trimming ever happens).
pub open spec fn spec_is_space(c: char) -> bool {
    c == ' ' || c == '\t' || c == '\n' || c == '\r'
}

pub fn is_space(c: char) -> (r: bool)
    ensures
        r == spec_is_space(c),
{
    c == ' ' || c == '\t' || c == '\n' || c == '\r'
}

/// ASCII decimal digit.
pub open spec fn spec_is_digit(c: char) -> bool {
    '0' <= c && c <= '9'
}

pub fn is_digit(c: char) -> (r: bool)
    ensures
        r == spec_is_digit(c),
{
    '0' <= c && c <= '9'
}

/// ASCII case folding. The keyword tables of this library are ASCII, so
/// folding the ASCII range is all that classification needs; any other
/// character is kept as it is.
pub open spec fn spec_lower_char(c: char) -> char {
    match c {
        'A' => 'a',
        'B' => 'b',
        'C' => 'c',
        'D' => 'd',
        'E' => 'e',
        'F' => 'f',
        'G' => 'g',
        'H' => 'h',
        'I' => 'i',
        'J' => 'j',
        'K' => 'k',
        'L' => 'l',
        'M' => 'm',
        'N' => 'n',
        'O' => 'o',
        'P' => 'p',
        'Q' => 'q',
        'R' => 'r',
        'S' => 's',
        'T' => 't',
        'U' => 'u',
        'V' => 'v',
        'W' => 'w',
        'X' => 'x',
        'Y' => 'y',
        'Z' => 'z',
        _ => c,
    }
}

#[verifier::when_used_as_spec(spec_lower_char)]
pub fn lower_char(c: char) -> (r: char)
    ensures
        r == spec_lower_char(c),
{
    match c {
        'A' => 'a',
        'B' => 'b',
        'C' => 'c',
        'D' => 'd',
        'E' => 'e',
        'F' => 'f',
        'G' => 'g',
        'H' => 'h',
        'I' => 'i',
        'J' => 'j',
        'K' => 'k',
        'L' => 'l',
        'M' => 'm',
        'N' => 'n',
        'O' => 'o',
        'P' => 'p',
        'Q' => 'q',
        'R' => 'r',
        'S' => 's',
        'T' => 't',
        'U' => 'u',
        'V' => 'v',
        'W' => 'w',
        'X' => 'x',
        'Y' => 'y',
        'Z' => 'z',
        _ => c,
    }
}

/// The ASCII-lowercased image of a character sequence.
pub open spec fn spec_lower(s: Seq<char>) -> Seq<char> {
    Seq::new(s.len(), |i: int| spec_lower_char(s[i]))
}

pub fn lower(v: &Vec<char>) -> (r: Vec<char>)
    ensures
        r@ == spec_lower(v@),
{
    let mut r: Vec<char> = Vec::new();
    let mut i: usize = 0;
    while i < v.len()
        invariant
            i <= v.len(),
            r@.len() == i,
            forall|k: int| 0 <= k < i ==> r@[k] == spec_lower_char(v@[k]),
        decreases v.len() - i,
    {
        r.push(lower_char(v[i]));
        i += 1;
    }
    assert(r@ =~= spec_lower(v@));
    r
}

/// The needle occurs in the haystack at exactly position `i`.
pub open spec fn spec_match_at(hay: Seq<char>, needle: Seq<char>, i: int) -> bool {
    0 <= i && i + needle.len() <= hay.len() && hay.subrange(i, i + needle.len() as int) == needle
}

/// Position of the first occurrence of `needle` at or after `i`.
pub open spec fn spec_find_from(hay: Seq<char>, needle: Seq<char>, i: int) -> Option<int>
    decreases hay.len() - i when 0 <= i <= hay.len()
{
    if needle.len() == 0 {
        Some(i)
    } else if i + needle.len() > hay.len() {
        None
    } else if spec_match_at(hay, needle, i) {
        Some(i)
    } else {
        spec_find_from(hay, needle, i + 1)
    }
}

/// A found occurrence lies within the haystack, at or after the start
/// of the search.
pub proof fn lemma_find_from_range(hay: Seq<char>, needle: Seq<char>, i: int)
    requires
        0 <= i <= hay.len(),
        spec_find_from(hay, needle, i) is Some,
    ensures
        i <= spec_find_from(hay, needle, i)->Some_0,
        spec_find_from(hay, needle, i)->Some_0 + needle.len() <= hay.len(),
        spec_match_at(hay, needle, spec_find_from(hay, needle, i)->Some_0),
    decreases hay.len() - i,
{
    if needle.len() == 0 {
        assert(hay.subrange(i, i) =~= needle);
    } else if i + needle.len() > hay.len() {
    } else if spec_match_at(hay, needle, i) {
    } else {
        lemma_find_from_range(hay, needle, i + 1);
    }
}

fn eq_at(hay: &Vec<char>, needle: &Vec<char>, i: usize) -> (r: bool)
    requires
        i + needle.len() <= hay.len(),
    ensures
        r == spec_match_at(hay@, needle@, i as int),
{
    let mut j: usize = 0;
    while j < needle.len()
        invariant
            j <= needle.len(),
            i + needle.len() <= hay.len(),
            forall|k: int| 0 <= k < j ==> hay@[i + k] == needle@[k],
        decreases needle.len() - j,
    {
        if hay[i + j] != needle[j] {
            assert(!spec_match_at(hay@, needle@, i as int)) by {
                if spec_match_at(hay@, needle@, i as int) {
                    assert(hay@.subrange(i as int, i + needle@.len() as int)[j as int] == hay@[i as int + j as int]);
                }
            }
            return false;
        }
        j += 1;
    }
    assert(hay@.subrange(i as int, i + needle@.len() as int) =~= needle@);
    true
}

/// First occurrence of `needle` in `hay` at or after `from`.
pub fn find_sub(hay: &Vec<char>, needle: &Vec<char>, from: usize) -> (r: Option<usize>)
    requires
        from <= hay.len(),
    ensures
        match r {
            Some(i) => spec_find_from(hay@, needle@, from as int) == Some(i as int),
            None => spec_find_from(hay@, needle@, from as int) is None,
        },
{
    if needle.len() == 0 {
        return Some(from);
    }
    let mut i: usize = from;
    loop
        invariant
            from <= i <= hay.len(),
            needle@.len() >= 1,
            spec_find_from(hay@, needle@, from as int) == spec_find_from(hay@, needle@, i as int),
        decreases hay.len() - i,
    {
        if needle.len() > hay.len() - i {
            return None;
        }
        if eq_at(hay, needle, i) {
            return Some(i);
        }
        i += 1;
    }
}

/// Whether `needle` occurs anywhere in `hay`.
pub open spec fn spec_contains(hay: Seq<char>, needle: Seq<char>) -> bool {
    spec_find_from(hay, needle, 0) is Some
}

pub fn contains_sub(hay: &Vec<char>, needle: &Vec<char>) -> (r: bool)
    ensures
        r == spec_contains(hay@, needle@),
{
    find_sub(hay, needle, 0).is_some()
}

/// Whether `s` begins with `prefix`.
pub open spec fn spec_starts_with(s: Seq<char>, prefix: Seq<char>) -> bool {
    spec_match_at(s, prefix, 0)
}

pub fn starts_with_sub(s: &Vec<char>, prefix: &Vec<char>) -> (r: bool)
    ensures
        r == spec_starts_with(s@, prefix@),
{
    if prefix.len() > s.len() {
        return false;
    }
    eq_at(s, prefix, 0)
}

/// The characters of a string slice, in order.
pub fn chars_of(s: &str) -> (r: Vec<char>)
    ensures
        r@ == s@,
{
    let n = s.unicode_len();
    let mut r: Vec<char> = Vec::new();
    let mut i: usize = 0;
    while i < n
        invariant
            i <= n,
            n == s@.len(),
            r@ == s@.subrange(0, i as int),
        decreases n - i,
    {
        r.push(s.get_char(i));
        assert(r@ =~= s@.subrange(0, i + 1));
        i += 1;
    }
    assert(s@.subrange(0, n as int) =~= s@);
    r
}

/// Relies on String::push: appends exactly the given character to the
/// end of the string.
#[verifier::external_body]
fn push_char(s: &mut String, c: char)
    ensures
        final(s)@ == old(s)@.push(c),
{
    s.push(c);
}

/// A `String` holding exactly the given characters.
pub fn string_of(v: &Vec<char>) -> (r: String)
    ensures
        r@ == v@,
{
    let mut r = String::new();
    let mut i: usize = 0;
    while i < v.len()
        invariant
            i <= v.len(),
            r@ == v@.subrange(0, i as int),
        decreases v.len() - i,
    {
        push_char(&mut r, v[i]);
        assert(r@ =~= v@.subrange(0, i + 1));
        i += 1;
    }
    assert(v@.subrange(0, v@.len() as int) =~= v@);
    r
}

/// A copy of `v[a..b]`.
pub fn copy_range(v: &Vec<char>, a: usize, b: usize) -> (r: Vec<char>)
    requires
        a <= b <= v.len(),
    ensures
        r@ == v@.subrange(a as int, b as int),
{
    let mut r: Vec<char> = Vec::new();
    let mut i: usize = a;
    while i < b
        invariant
            a <= i <= b <= v.len(),
            r@ == v@.subrange(a as int, i as int),
        decreases b - i,
    {
        r.push(v[i]);
        assert(r@ =~= v@.subrange(a as int, i + 1));
        i += 1;
    }
    r
}

/// Index of the first non-space character at or after `i`, or the
/// length when the rest is all spaces.
pub open spec fn spec_skip_spaces(s: Seq<char>, i: int) -> int
    decreases s.len() - i when 0 <= i <= s.len()
{
    if i >= s.len() {
        i
    } else if spec_is_space(s[i]) {
        spec_skip_spaces(s, i + 1)
    } else {
        i
    }
}

pub proof fn lemma_skip_spaces_range(s: Seq<char>, i: int)
    requires
        0 <= i <= s.len(),
    ensures
        i <= spec_skip_spaces(s, i) <= s.len(),
    decreases s.len() - i,
{
    if i < s.len() && spec_is_space(s[i]) {
        lemma_skip_spaces_range(s, i + 1);
    }
}

pub fn skip_spaces(v: &Vec<char>, from: usize) -> (r: usize)
    requires
        from <= v.len(),
    ensures
        r == spec_skip_spaces(v@, from as int),
        from <= r <= v.len(),
{
    let mut i: usize = from;
    while i < v.len() && is_space(v[i])
        invariant
            from <= i <= v.len(),
            spec_skip_spaces(v@, from as int) == spec_skip_spaces(v@, i as int),
        decreases v.len() - i,
    {
        i += 1;
    }
    i
}

/// End (exclusive) of the last non-space character before `i`, or 0
/// when everything before `i` is spaces.
pub open spec fn spec_skip_spaces_back(s: Seq<char>, i: int) -> int
    decreases i when 0 <= i <= s.len()
{
    if i <= 0 {
        0
    } else if spec_is_space(s[i - 1]) {
        spec_skip_spaces_back(s, i - 1)
    } else {
        i
    }
}


/// The sequence with leading and trailing whitespace removed.
pub open spec fn spec_trim(s: Seq<char>) -> Seq<char> {
    let a = spec_skip_spaces(s, 0);
    let b = spec_skip_spaces_back(s, s.len() as int);
    if a <= b {
        s.subrange(a, b)
    } else {
        Seq::empty()
    }
}

pub fn trim_chars(v: &Vec<char>) -> (r: Vec<char>)
    ensures
        r@ == spec_trim(v@),
{
    let a = skip_spaces(v, 0);
    let mut b: usize = v.len();
    while b > 0 && is_space(v[b - 1])
        invariant
            b <= v.len(),
            spec_skip_spaces_back(v@, v@.len() as int) == spec_skip_spaces_back(v@, b as int),
        decreases b,
    {
        b -= 1;
    }
    if a <= b {
        copy_range(v, a, b)
    } else {
        Vec::new()
    }
}

} // verus!

verus! {

/// Appends all characters of `src` to `dst`.
pub fn push_all(dst: &mut Vec<char>, src: &Vec<char>)
    ensures
        final(dst)@ == old(dst)@ + src@,
{
    let mut i: usize = 0;
    while i < src.len()
        invariant
            i <= src.len(),
            dst@ == old(dst)@ + src@.subrange(0, i as int),
        decreases src.len() - i,
    {
        dst.push(src[i]);
        assert(old(dst)@ + src@.subrange(0, i + 1) =~= (old(dst)@ + src@.subrange(0, i as int)).push(
            src@[i as int],
        ));
        i += 1;
    }
    assert(dst@ =~= old(dst)@ + src@);
}

/// The pieces of `s` between occurrences of the separator, scanning
/// from position `i`; the piece currently being read began at `start`.
pub open spec fn spec_split_from(s: Seq<char>, sep: Seq<char>, start: int, i: int) -> Seq<
    Seq<char>,
>
    decreases s.len() - i when 0 <= start <= i <= s.len() && sep.len() >= 1
{
    if i + sep.len() > s.len() {
        seq![s.subrange(start, s.len() as int)]
    } else if spec_match_at(s, sep, i) {
        seq![s.subrange(start, i)] + spec_split_from(s, sep, i + sep.len(), i + sep.len())
    } else {
        spec_split_from(s, sep, start, i + 1)
    }
}

/// The pieces of `s` between occurrences of `sep`. The separator must
/// be non-empty; an input without any separator is a single piece.
pub open spec fn spec_split(s: Seq<char>, sep: Seq<char>) -> Seq<Seq<char>> {
    spec_split_from(s, sep, 0, 0)
}

pub fn split_on(v: &Vec<char>, sep: &Vec<char>) -> (r: Vec<Vec<char>>)
    requires
        sep.len() >= 1,
    ensures
        r.deep_view() == spec_split(v@, sep@),
{
    let mut pieces: Vec<Vec<char>> = Vec::new();
    let mut start: usize = 0;
    let mut i: usize = 0;
    while v.len() - i >= sep.len()
        invariant
            0 <= start <= i <= v.len(),
            sep.len() >= 1,
            spec_split(v@, sep@) == pieces.deep_view() + spec_split_from(
                v@,
                sep@,
                start as int,
                i as int,
            ),
        decreases v.len() - i,
    {
        if eq_at(v, sep, i) {
            let piece = copy_range(v, start, i);
            let ghost old_pieces = pieces.deep_view();
            pieces.push(piece);
            assert(pieces.deep_view() =~~= old_pieces.push(piece@));
            i += sep.len();
            start = i;
        } else {
            i += 1;
        }
    }
    let last = copy_range(v, start, v.len());
    let ghost old_pieces = pieces.deep_view();
    pieces.push(last);
    assert(pieces.deep_view() =~~= old_pieces.push(last@));
    assert(pieces.deep_view() =~~= spec_split(v@, sep@));
    pieces
}

/// Ten to the given power.
pub open spec fn spec_pow10(n: nat) -> int
    decreases n,
{
    if n == 0 {
        1
    } else {
        10 * spec_pow10((n - 1) as nat)
    }
}

pub proof fn lemma_pow10_pos(n: nat)
    ensures
        spec_pow10(n) >= 1,
    decreases n,
{
    if n > 0 {
        lemma_pow10_pos((n - 1) as nat);
    }
}

/// The numeric value of a non-empty run of decimal digits.
pub open spec fn spec_digits_val(s: Seq<char>) -> int
    decreases s.len(),
{
    if s.len() == 0 {
        0
    } else {
        spec_digits_val(s.drop_last()) * 10 + (s.last() as int - 48)
    }
}

pub open spec fn spec_all_digits(s: Seq<char>) -> bool {
    forall|i: int| 0 <= i < s.len() ==> spec_is_digit(s[i])
}

pub proof fn lemma_digits_val_bound(s: Seq<char>)
    requires
        spec_all_digits(s),
    ensures
        0 <= spec_digits_val(s) < spec_pow10(s.len()),
    decreases s.len(),
{
    if s.len() > 0 {
        assert(spec_all_digits(s.drop_last())) by {
            assert(forall|i: int|
                0 <= i < s.len() - 1 ==> s.drop_last()[i] == s[i] && spec_is_digit(s[i]));
        }
        lemma_digits_val_bound(s.drop_last());
        assert(s.last() as int - 48 <= 9);
    }
}

/// The number a digit run denotes: defined for one to nine digits (the
/// identifiers and tallies of the source never need more), `None` for
/// anything else or any non-digit.
pub open spec fn spec_parse_u32(s: Seq<char>) -> Option<u32> {
    if 1 <= s.len() <= 9 && spec_all_digits(s) {
        Some(spec_digits_val(s) as u32)
    } else {
        None
    }
}

pub fn parse_u32(v: &Vec<char>) -> (r: Option<u32>)
    ensures
        r == spec_parse_u32(v@),
{
    if v.len() == 0 || v.len() > 9 {
        return None;
    }
    proof {
        lemma_pow10_pos(0);
    }
    let mut val: u32 = 0;
    let mut i: usize = 0;
    while i < v.len()
        invariant
            i <= v.len() <= 9,
            forall|k: int| 0 <= k < i ==> spec_is_digit(v@[k]),
            val == spec_digits_val(v@.subrange(0, i as int)),
            val < spec_pow10(i as nat),
        decreases v.len() - i,
    {
        let c = v[i];
        if !is_digit(c) {
            return None;
        }
        proof {
            lemma_digits_val_bound(v@.subrange(0, i as int));
            assert(spec_pow10((i + 1) as nat) == 10 * spec_pow10(i as nat));
            lemma_pow10_mono(i as nat, 8);
            reveal_with_fuel(spec_pow10, 10);
            assert(spec_pow10(8nat) == 100000000);
        }
        let d: u32 = (c as u32) - 48;
        val = val * 10 + d;
        proof {
            assert(v@.subrange(0, i + 1).drop_last() =~= v@.subrange(0, i as int));
            assert(v@.subrange(0, i + 1).last() == v@[i as int]);
        }
        i += 1;
    }
    assert(v@.subrange(0, v@.len() as int) =~= v@);
    Some(val)
}

pub proof fn lemma_pow10_mono(a: nat, b: nat)
    requires
        a <= b,
    ensures
        spec_pow10(a) <= spec_pow10(b),
    decreases b,
{
    if a < b {
        lemma_pow10_mono(a, (b - 1) as nat);
        lemma_pow10_pos((b - 1) as nat);
    }
}

/// How one character of raw transcript text is normalised: soft
/// hyphens vanish, newlines and non-breaking spaces become plain
/// spaces, everything else is kept.
pub open spec fn spec_clean_step(c: char) -> Seq<char> {
    if c == '\u{00AD}' {
        Seq::empty()
    } else if c == '\n' || c == '\u{00A0}' {
        seq![' ']
    } else {
        seq![c]
    }
}

pub open spec fn spec_cleaned(s: Seq<char>) -> Seq<char>
    decreases s.len(),
{
    if s.len() == 0 {
        Seq::empty()
    } else {
        spec_cleaned(s.drop_last()) + spec_clean_step(s.last())
    }
}

/// Normalised and trimmed transcript text.
pub open spec fn spec_clean_text(s: Seq<char>) -> Seq<char> {
    spec_trim(spec_cleaned(s))
}

pub fn clean_chars(v: &Vec<char>) -> (r: Vec<char>)
    ensures
        r@ == spec_clean_text(v@),
{
    let mut acc: Vec<char> = Vec::new();
    let mut i: usize = 0;
    while i < v.len()
        invariant
            i <= v.len(),
            acc@ == spec_cleaned(v@.subrange(0, i as int)),
        decreases v.len() - i,
    {
        let c = v[i];
        if c == '\u{00AD}' {
        } else if c == '\n' || c == '\u{00A0}' {
            acc.push(' ');
        } else {
            acc.push(c);
        }
        proof {
            assert(v@.subrange(0, i + 1).drop_last() =~= v@.subrange(0, i as int));
            assert(v@.subrange(0, i + 1).last() == v@[i as int]);
            assert(acc@ =~= spec_cleaned(v@.subrange(0, i + 1)));
        }
        i += 1;
    }
    assert(v@.subrange(0, v@.len() as int) =~= v@);
    trim_chars(&acc)
}

/// Normalises raw node text: newlines and non-breaking spaces become
/// spaces, soft hyphens are removed, and the result is trimmed.
pub fn clean_text(raw: &str) -> (r: String)
    ensures
        r@ == spec_clean_text(raw@),
{
    let v = chars_of(raw);
    let cleaned = clean_chars(&v);
    string_of(&cleaned)
}

/// Double quotes replaced by single quotes, as item headings are
/// normalised before pattern matching.
pub open spec fn spec_quote_norm(s: Seq<char>) -> Seq<char> {
    Seq::new(s.len(), |i: int| if s[i] == '"' { '\'' } else { s[i] })
}

pub fn quote_norm(v: &Vec<char>) -> (r: Vec<char>)
    ensures
        r@ == spec_quote_norm(v@),
{
    let mut r: Vec<char> = Vec::new();
    let mut i: usize = 0;
    while i < v.len()
        invariant
            i <= v.len(),
            r@.len() == i,
            forall|k: int| 0 <= k < i ==> r@[k] == spec_quote_norm(v@)[k],
        decreases v.len() - i,
    {
        if v[i] == '"' {
            r.push('\'');
        } else {
            r.push(v[i]);
        }
        i += 1;
    }
    assert(r@ =~= spec_quote_norm(v@));
    r
}

/// Position of the last whitespace character strictly before `i`.
pub open spec fn spec_last_space_before(s: Seq<char>, i: int) -> Option<int>
    decreases i when 0 <= i <= s.len()
{
    if i <= 0 {
        None
    } else if spec_is_space(s[i - 1]) {
        Some(i - 1)
    } else {
        spec_last_space_before(s, i - 1)
    }
}

/// Reordering of a "Last First" name into "First Last": the final
/// whitespace-delimited token is the first name; a name without
/// whitespace is returned unchanged (trimmed either way).
pub open spec fn spec_convert_name(s: Seq<char>) -> Seq<char> {
    let t = spec_trim(s);
    match spec_last_space_before(t, t.len() as int) {
        None => t,
        Some(k) => t.subrange(k + 1, t.len() as int) + seq![' '] + spec_trim(t.subrange(0, k)),
    }
}

pub fn convert_name_chars(v: &Vec<char>) -> (r: Vec<char>)
    ensures
        r@ == spec_convert_name(v@),
{
    let t = trim_chars(v);
    let mut i: usize = t.len();
    while i > 0 && !is_space(t[i - 1])
        invariant
            i <= t.len(),
            spec_last_space_before(t@, t@.len() as int) == spec_last_space_before(t@, i as int),
        decreases i,
    {
        i -= 1;
    }
    if i == 0 {
        t
    } else {
        let k: usize = i - 1;
        let first = copy_range(&t, i, t.len());
        let head = copy_range(&t, 0, k);
        let rest = trim_chars(&head);
        let mut r: Vec<char> = Vec::new();
        push_all(&mut r, &first);
        r.push(' ');
        push_all(&mut r, &rest);
        assert(r@ =~= t@.subrange(k + 1, t@.len() as int) + seq![' '] + spec_trim(
            t@.subrange(0, k as int),
        ));
        r
    }
}

/// Reorders `"Last First"` into `"First Last"`, treating only the
/// final whitespace-delimited token as the first name; a single-token
/// name is unchanged.
pub fn convert_name(name: &str) -> (r: String)
    ensures
        r@ == spec_convert_name(name@),
{
    let v = chars_of(name);
    let converted = convert_name_chars(&v);
    string_of(&converted)
}

} // verus!

verus! {

/// Whether two character vectors hold the same sequence.
pub fn chars_eq(a: &Vec<char>, b: &Vec<char>) -> (r: bool)
    ensures
        r == (a@ == b@),
{
    if a.len() != b.len() {
        return false;
    }
    let mut j: usize = 0;
    while j < a.len()
        invariant
            j <= a.len(),
            a.len() == b.len(),
            forall|k: int| 0 <= k < j ==> a@[k] == b@[k],
        decreases a.len() - j,
    {
        if a[j] != b[j] {
            return false;
        }
        j += 1;
    }
    assert(a@ =~= b@);
    true
}

/// Position of the first occurrence of character `c` at or after `i`.
pub open spec fn spec_find_char_from(s: Seq<char>, c: char, i: int) -> Option<int>
    decreases s.len() - i when 0 <= i <= s.len()
{
    if i >= s.len() {
        None
    } else if s[i] == c {
        Some(i)
    } else {
        spec_find_char_from(s, c, i + 1)
    }
}

pub proof fn lemma_find_char_range(s: Seq<char>, c: char, i: int)
    requires
        0 <= i <= s.len(),
        spec_find_char_from(s, c, i) is Some,
    ensures
        i <= spec_find_char_from(s, c, i)->Some_0 < s.len(),
        s[spec_find_char_from(s, c, i)->Some_0] == c,
    decreases s.len() - i,
{
    if i < s.len() && s[i] != c {
        lemma_find_char_range(s, c, i + 1);
    }
}

pub fn find_char(v: &Vec<char>, c: char, from: usize) -> (r: Option<usize>)
    requires
        from <= v.len(),
    ensures
        match r {
            Some(i) => spec_find_char_from(v@, c, from as int) == Some(i as int),
            None => spec_find_char_from(v@, c, from as int) is None,
        },
{
    let mut i: usize = from;
    while i < v.len()
        invariant
            from <= i <= v.len(),
            spec_find_char_from(v@, c, from as int) == spec_find_char_from(v@, c, i as int),
        decreases v.len() - i,
    {
        if v[i] == c {
            return Some(i);
        }
        i += 1;
    }
    None
}

/// Position of the last occurrence of character `c` strictly before `i`.
pub open spec fn spec_rfind_before(s: Seq<char>, c: char, i: int) -> Option<int>
    decreases i when 0 <= i <= s.len()
{
    if i <= 0 {
        None
    } else if s[i - 1] == c {
        Some(i - 1)
    } else {
        spec_rfind_before(s, c, i - 1)
    }
}

pub proof fn lemma_rfind_before_range(s: Seq<char>, c: char, i: int)
    requires
        0 <= i <= s.len(),
        spec_rfind_before(s, c, i) is Some,
    ensures
        0 <= spec_rfind_before(s, c, i)->Some_0 < i,
        s[spec_rfind_before(s, c, i)->Some_0] == c,
    decreases i,
{
    if i > 0 && s[i - 1] != c {
        lemma_rfind_before_range(s, c, i - 1);
    }
}

pub fn rfind_before(v: &Vec<char>, c: char, from: usize) -> (r: Option<usize>)
    requires
        from <= v.len(),
    ensures
        match r {
            Some(i) => spec_rfind_before(v@, c, from as int) == Some(i as int),
            None => spec_rfind_before(v@, c, from as int) is None,
        },
{
    let mut i: usize = from;
    while i > 0
        invariant
            i <= from <= v.len(),
            spec_rfind_before(v@, c, from as int) == spec_rfind_before(v@, c, i as int),
        decreases i,
    {
        if v[i - 1] == c {
            return Some(i - 1);
        }
        i -= 1;
    }
    None
}

/// Whether every character of a non-empty sequence is a decimal digit.
pub open spec fn spec_is_digit_run(s: Seq<char>) -> bool {
    s.len() >= 1 && spec_all_digits(s)
}

pub fn is_digit_run(v: &Vec<char>) -> (r: bool)
    ensures
        r == spec_is_digit_run(v@),
{
    if v.len() == 0 {
        return false;
    }
    let mut i: usize = 0;
    while i < v.len()
        invariant
            i <= v.len(),
            forall|k: int| 0 <= k < i ==> spec_is_digit(v@[k]),
        decreases v.len() - i,
    {
        if !is_digit(v[i]) {
            return false;
        }
        i += 1;
    }
    true
}

/// The smaller of two optional positions.
pub open spec fn spec_min_opt(a: Option<int>, b: Option<int>) -> Option<int> {
    match (a, b) {
        (Option::None, Option::None) => None,
        (Option::Some(x), Option::None) => Some(x),
        (Option::None, Option::Some(y)) => Some(y),
        (Option::Some(x), Option::Some(y)) => Some(
            if x <= y {
                x
            } else {
                y
            },
        ),
    }
}

} // verus!

verus! {

/// Whether `needle` occurs in `hay` at exactly position `i`.
pub fn matches_at(hay: &Vec<char>, needle: &Vec<char>, i: usize) -> (r: bool)
    requires
        i <= hay.len(),
    ensures
        r == spec_match_at(hay@, needle@, i as int),
{
    if needle.len() > hay.len() - i {
        return false;
    }
    let mut j: usize = 0;
    while j < needle.len()
        invariant
            j <= needle.len(),
            i + needle.len() <= hay.len(),
            forall|k: int| 0 <= k < j ==> hay@[i + k] == needle@[k],
        decreases needle.len() - j,
    {
        if hay[i + j] != needle[j] {
            assert(!spec_match_at(hay@, needle@, i as int)) by {
                if spec_match_at(hay@, needle@, i as int) {
                    assert(hay@.subrange(i as int, i + needle@.len() as int)[j as int] == hay@[i as int + j as int]);
                }
            }
            return false;
        }
        j += 1;
    }
    assert(hay@.subrange(i as int, i + needle@.len() as int) =~= needle@);
    true
}

/// Index of the first non-digit character at or after `i`, or the
/// length when the rest is all digits.
pub open spec fn spec_skip_digits(s: Seq<char>, i: int) -> int
    decreases s.len() - i when 0 <= i <= s.len()
{
    if i >= s.len() {
        i
    } else if spec_is_digit(s[i]) {
        spec_skip_digits(s, i + 1)
    } else {
        i
    }
}


pub fn skip_digits(v: &Vec<char>, from: usize) -> (r: usize)
    requires
        from <= v.len(),
    ensures
        r == spec_skip_digits(v@, from as int),
        from <= r <= v.len(),
{
    let mut i: usize = from;
    while i < v.len() && is_digit(v[i])
        invariant
            from <= i <= v.len(),
            spec_skip_digits(v@, from as int) == spec_skip_digits(v@, i as int),
        decreases v.len() - i,
    {
        i += 1;
    }
    i
}

/// Whether the list holds a string with exactly these characters.
pub fn contains_string(list: &Vec<String>, x: &Vec<char>) -> (r: bool)
    ensures
        r == list.deep_view().contains(x@),
{
    let mut i: usize = 0;
    while i < list.len()
        invariant
            i <= list.len(),
            forall|k: int| 0 <= k < i ==> list.deep_view()[k] != x@,
        decreases list.len() - i,
    {
        let item = chars_of(list[i].as_str());
        if chars_eq(&item, x) {
            assert(list.deep_view()[i as int] == x@);
            return true;
        }
        i += 1;
    }
    false
}

} // verus!

verus! {

/// The image of `s` from position `i` on, with every occurrence of
/// `needle` replaced by `repl`.
pub open spec fn spec_replace_from(s: Seq<char>, needle: Seq<char>, repl: Seq<char>, i: int) -> Seq<
    char,
>
    decreases s.len() - i when 0 <= i <= s.len() && needle.len() >= 1 via spec_replace_from_dec
{
    match spec_find_from(s, needle, i) {
        Option::None => s.subrange(i, s.len() as int),
        Option::Some(m) => s.subrange(i, m) + repl + spec_replace_from(
            s,
            needle,
            repl,
            m + needle.len(),
        ),
    }
}

#[via_fn]
proof fn spec_replace_from_dec(s: Seq<char>, needle: Seq<char>, repl: Seq<char>, i: int) {
    if spec_find_from(s, needle, i) is Some {
        lemma_find_from_range(s, needle, i);
    }
}

/// The image of `s` with every occurrence of `needle` replaced by
/// `repl` (which may be empty, removing the occurrences).
pub open spec fn spec_replace_all(s: Seq<char>, needle: Seq<char>, repl: Seq<char>) -> Seq<char> {
    spec_replace_from(s, needle, repl, 0)
}

pub fn replace_all(v: &Vec<char>, needle: &Vec<char>, repl: &Vec<char>) -> (r: Vec<char>)
    requires
        needle.len() >= 1,
    ensures
        r@ == spec_replace_all(v@, needle@, repl@),
{
    let mut out: Vec<char> = Vec::new();
    let mut i: usize = 0;
    loop
        invariant
            0 <= i <= v.len(),
            needle@.len() >= 1,
            spec_replace_all(v@, needle@, repl@) == out@ + spec_replace_from(
                v@,
                needle@,
                repl@,
                i as int,
            ),
        decreases v.len() - i,
    {
        match find_sub(v, needle, i) {
            None => {
                let rest = copy_range(v, i, v.len());
                push_all(&mut out, &rest);
                assert(out@ =~= spec_replace_all(v@, needle@, repl@));
                return out;
            },
            Some(m) => {
                proof {
                    lemma_find_from_range(v@, needle@, i as int);
                }
                let ghost out0 = out@;
                let piece = copy_range(v, i, m);
                push_all(&mut out, &piece);
                push_all(&mut out, repl);
                i = m + needle.len();
                assert(out@ + spec_replace_from(v@, needle@, repl@, i as int) =~= out0 + (piece@
                    + repl@ + spec_replace_from(v@, needle@, repl@, i as int)));
            },
        }
    }
}

} // verus!

verus! {

/// The parts joined with the separator between consecutive parts.
pub open spec fn spec_join(parts: Seq<Seq<char>>, sep: Seq<char>) -> Seq<char>
    decreases parts.len(),
{
    if parts.len() == 0 {
        Seq::empty()
    } else if parts.len() == 1 {
        parts[0]
    } else {
        spec_join(parts.drop_last(), sep) + sep + parts.last()
    }
}

pub fn join_with(parts: &Vec<Vec<char>>, sep: &Vec<char>) -> (r: Vec<char>)
    ensures
        r@ == spec_join(parts.deep_view(), sep@),
{
    let mut out: Vec<char> = Vec::new();
    let mut i: usize = 0;
    while i < parts.len()
        invariant
            i <= parts.len(),
            out@ == spec_join(parts.deep_view().subrange(0, i as int), sep@),
        decreases parts.len() - i,
    {
        let ghost out0 = out@;
        if i > 0 {
            push_all(&mut out, sep);
        }
        let part = copy_range(&parts[i], 0, parts[i].len());
        proof {
            assert(part@ =~= parts@[i as int]@);
            assert(parts.deep_view()[i as int] =~= parts@[i as int]@);
        }
        push_all(&mut out, &part);
        proof {
            let pv = parts.deep_view();
            assert(pv.subrange(0, i + 1).drop_last() =~= pv.subrange(0, i as int));
            assert(pv.subrange(0, i + 1).last() == pv[i as int]);
            if i > 0 {
                assert(out@ =~= out0 + sep@ + pv[i as int]);
            } else {
                assert(out@ =~= pv.subrange(0, 1)[0]);
            }
        }
        i += 1;
    }
    assert(parts.deep_view().subrange(0, parts.deep_view().len() as int) =~= parts.deep_view());
    out
}

} // verus!

verus! {

proof fn lemma_no_space_no_last(t: Seq<char>, i: int)
    requires
        0 <= i <= t.len(),
        forall|k: int| 0 <= k < t.len() ==> !spec_is_space(t[k]),
    ensures
        spec_last_space_before(t, i) is None,
    decreases i,
{
    if i > 0 {
        lemma_no_space_no_last(t, i - 1);
    }
}

/// A name without any whitespace is not reordered: the conversion
/// returns it unchanged (trimmed).
pub proof fn lemma_convert_name_single_token(s: Seq<char>)
    requires
        forall|i: int| 0 <= i < spec_trim(s).len() ==> !spec_is_space(spec_trim(s)[i]),
    ensures
        spec_convert_name(s) == spec_trim(s),
{
    lemma_no_space_no_last(spec_trim(s), spec_trim(s).len() as int);
}

} // verus!

verus! {

/// How one character contributes to a name slug: the common accented
/// letters are transliterated to ASCII (in either letter case), ASCII
/// letters are folded to lower case, digits, spaces and hyphens stay,
/// and everything else is dropped.
pub open spec fn spec_slug_step(c: char) -> Seq<char> {
    if c == 'ä' || c == 'Ä' {
        seq!['a', 'e']
    } else if c == 'ö' || c == 'Ö' {
        seq!['o', 'e']
    } else if c == 'ü' || c == 'Ü' {
        seq!['u', 'e']
    } else if c == 'ß' {
        seq!['s', 's']
    } else if c == 'é' || c == 'É' || c == 'è' || c == 'È' {
        seq!['e']
    } else if c == 'à' || c == 'À' {
        seq!['a']
    } else if c == 'ç' || c == 'Ç' {
        seq!['c']
    } else if c == 'ñ' || c == 'Ñ' {
        seq!['n']
    } else if c == 'ø' || c == 'Ø' {
        seq!['o']
    } else {
        let l = spec_lower_char(c);
        if ('a' <= l && l <= 'z') || ('0' <= l && l <= '9') || l == ' ' || l == '-' {
            seq![l]
        } else {
            Seq::empty()
        }
    }
}

pub open spec fn spec_slug_chars(s: Seq<char>) -> Seq<char>
    decreases s.len(),
{
    if s.len() == 0 {
        Seq::empty()
    } else {
        spec_slug_chars(s.drop_last()) + spec_slug_step(s.last())
    }
}

/// A file-safe slug of a name: transliterated, lowercased, stripped of
/// other punctuation, trimmed, with spaces as hyphens.
pub open spec fn spec_slugify(s: Seq<char>) -> Seq<char> {
    let t = spec_trim(spec_slug_chars(s));
    Seq::new(
        t.len(),
        |i: int|
            if t[i] == ' ' {
                '-'
            } else {
                t[i]
            },
    )
}

fn slug_step(c: char, out: &mut Vec<char>)
    ensures
        final(out)@ == old(out)@ + spec_slug_step(c),
{
    if c == 'ä' || c == 'Ä' {
        out.push('a');
        out.push('e');
    } else if c == 'ö' || c == 'Ö' {
        out.push('o');
        out.push('e');
    } else if c == 'ü' || c == 'Ü' {
        out.push('u');
        out.push('e');
    } else if c == 'ß' {
        out.push('s');
        out.push('s');
    } else if c == 'é' || c == 'É' || c == 'è' || c == 'È' {
        out.push('e');
    } else if c == 'à' || c == 'À' {
        out.push('a');
    } else if c == 'ç' || c == 'Ç' {
        out.push('c');
    } else if c == 'ñ' || c == 'Ñ' {
        out.push('n');
    } else if c == 'ø' || c == 'Ø' {
        out.push('o');
    } else {
        let l = lower_char(c);
        if ('a' <= l && l <= 'z') || ('0' <= l && l <= '9') || l == ' ' || l == '-' {
            out.push(l);
        }
    }
    assert(out@ =~= old(out)@ + spec_slug_step(c));
}

/// Turns a member's name into a file-safe slug: lower case, common
/// accents transliterated, punctuation removed, spaces as hyphens.
pub fn slugify_name(name: &str) -> (r: String)
    ensures
        r@ == spec_slugify(name@),
{
    let v = chars_of(name);
    let mut acc: Vec<char> = Vec::new();
    let mut i: usize = 0;
    while i < v.len()
        invariant
            i <= v.len(),
            acc@ == spec_slug_chars(v@.subrange(0, i as int)),
        decreases v.len() - i,
    {
        slug_step(v[i], &mut acc);
        proof {
            assert(v@.subrange(0, i + 1).drop_last() =~= v@.subrange(0, i as int));
            assert(v@.subrange(0, i + 1).last() == v@[i as int]);
        }
        i += 1;
    }
    assert(v@.subrange(0, v@.len() as int) =~= v@);
    let t = trim_chars(&acc);
    let mut out: Vec<char> = Vec::new();
    let mut j: usize = 0;
    while j < t.len()
        invariant
            j <= t.len(),
            t@ == spec_trim(spec_slug_chars(name@)),
            out@.len() == j,
            forall|k: int| 0 <= k < j ==> out@[k] == spec_slugify(name@)[k],
        decreases t.len() - j,
    {
        if t[j] == ' ' {
            out.push('-');
        } else {
            out.push(t[j]);
        }
        j += 1;
    }
    assert(out@ =~= spec_slugify(name@));
    string_of(&out)
}

/// The text with the markdown bold markers removed: only the double
/// markers are stripped, so single-marker emphasis and lists are kept;
/// the result is trimmed.
pub open spec fn spec_strip_markdown(s: Seq<char>) -> Seq<char> {
    spec_trim(
        spec_replace_all(spec_replace_all(s, "**"@, Seq::empty()), "__"@, Seq::empty()),
    )
}

/// Removes markdown bold markers, preserving the inner text.
pub fn strip_markdown(input: &str) -> (r: String)
    ensures
        r@ == spec_strip_markdown(input@),
{
    let v = chars_of(input);
    let stars = chars_of("**");
    let unders = chars_of("__");
    let empty: Vec<char> = Vec::new();
    proof {
        reveal_strlit("**");
        reveal_strlit("__");
    }
    let a = replace_all(&v, &stars, &empty);
    let b = replace_all(&a, &unders, &empty);
    let t = trim_chars(&b);
    string_of(&t)
}

} // verus!
