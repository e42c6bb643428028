//! Roll-call vote extraction: the tally-table parser, which reads the
//! yes/no/abstain counts and the vote's textual index out of a results
//! table, and the voter-roster resolver, which locates the three
//! name-list blocks belonging to a vote by anchor-text search and
//! forward traversal over the node sequence, independent of nesting.
use crate::records::{Node, NodeKind, NodeV};
use crate::text::{
    chars_eq, chars_of, contains_sub, push_all, replace_all, spec_contains,
    spec_parse_u32, spec_replace_all, spec_trim, parse_u32, string_of, trim_chars,
};
use vstd::prelude::*;

verus! {

/// The tallies read out of one results table, with the table's own
/// description text (which carries the vote's index).
#[derive(Clone, Debug, PartialEq, Eq)]
pub struct VoteTally {
    pub name: String,
    pub yes: u32,
    pub no: u32,
    pub abstain: u32,
}

#[verifier::ext_equal]
pub struct VoteTallyV {
    pub name: Seq<char>,
    pub yes: u32,
    pub no: u32,
    pub abstain: u32,
}

impl DeepView for VoteTally {
    type V = VoteTallyV;

    open spec fn deep_view(&self) -> VoteTallyV {
        VoteTallyV { name: self.name@, yes: self.yes, no: self.no, abstain: self.abstain }
    }
}

/// The cells of a row joined into one text with single spaces.
pub open spec fn spec_join_space(cells: Seq<Seq<char>>) -> Seq<char>
    decreases cells.len(),
{
    if cells.len() == 0 {
        Seq::empty()
    } else if cells.len() == 1 {
        cells[0]
    } else {
        spec_join_space(cells.drop_last()) + " "@ + cells.last()
    }
}

pub fn join_space(cells: &Vec<String>) -> (r: Vec<char>)
    ensures
        r@ == spec_join_space(cells.deep_view()),
{
    let mut out: Vec<char> = Vec::new();
    let mut i: usize = 0;
    proof {
        reveal_strlit(" ");
    }
    while i < cells.len()
        invariant
            i <= cells.len(),
            out@ == spec_join_space(cells.deep_view().subrange(0, i as int)),
        decreases cells.len() - i,
    {
        let ghost out0 = out@;
        proof {
            reveal_strlit(" ");
        }
        if i > 0 {
            out.push(' ');
            assert(out@ =~= out0 + " "@);
        }
        let cell = chars_of(cells[i].as_str());
        push_all(&mut out, &cell);
        proof {
            let cv = cells.deep_view();
            assert(cv.subrange(0, i + 1).drop_last() =~= cv.subrange(0, i as int));
            assert(cv.subrange(0, i + 1).last() == cv[i as int]);
            assert(cv[i as int] == cells@[i as int]@);
            if i == 0 {
                assert(out@ =~= cv.subrange(0, 1)[0]);
            }
        }
        i += 1;
    }
    assert(cells.deep_view().subrange(0, cells.deep_view().len() as int) =~= cells.deep_view());
    out
}

/// One tally row applied to the running counts: a row whose first cell
/// is `Ja`, `Nee` or `Onthoudingen` and whose second cell is a number
/// overwrites that count; anything else changes nothing, so an
/// unparseable count stays 0 rather than failing the table.
pub open spec fn spec_tally_step(t: VoteTallyV, row: Seq<Seq<char>>) -> VoteTallyV {
    if row.len() >= 2 {
        let label = spec_trim(row[0]);
        match spec_parse_u32(spec_trim(row[1])) {
            Option::None => t,
            Option::Some(v) => {
                if label == "Ja"@ {
                    VoteTallyV { yes: v, ..t }
                } else if label == "Nee"@ {
                    VoteTallyV { no: v, ..t }
                } else if label == "Onthoudingen"@ {
                    VoteTallyV { abstain: v, ..t }
                } else {
                    t
                }
            },
        }
    } else {
        t
    }
}

pub open spec fn spec_tally_fold(t: VoteTallyV, rows: Seq<Seq<Seq<char>>>, i: int) -> VoteTallyV
    decreases rows.len() - i when 0 <= i <= rows.len()
{
    if i >= rows.len() {
        t
    } else {
        spec_tally_fold(spec_tally_step(t, rows[i]), rows, i + 1)
    }
}

/// The description text of a tally table: its first row's text with
/// parentheses removed and `/vote` dropped.
pub open spec fn spec_tally_name(first_row: Seq<Seq<char>>) -> Seq<char> {
    spec_replace_all(
        spec_replace_all(
            spec_replace_all(spec_trim(spec_join_space(first_row)), "("@, Seq::empty()),
            ")"@,
            Seq::empty(),
        ),
        "/vote"@,
        Seq::empty(),
    )
}

/// What the tally-table parser yields: a table whose first row carries
/// the `Stemming/vote` marker has its description kept and its
/// labelled rows read as counts; any other table yields the empty
/// description and zero counts and is thereby ignored.
pub open spec fn spec_extract_vote(rows: Seq<Seq<Seq<char>>>) -> VoteTallyV {
    let zero = VoteTallyV { name: Seq::empty(), yes: 0, no: 0, abstain: 0 };
    if rows.len() > 0 && rows[0].len() > 0 && spec_contains(
        spec_trim(spec_join_space(rows[0])),
        "Stemming/vote"@,
    ) {
        let named = VoteTallyV { name: spec_tally_name(rows[0]), ..zero };
        spec_tally_fold(named, rows, 1)
    } else {
        zero
    }
}

/// Parses one results table: the first row must carry the literal
/// `Stemming/vote` marker, else the table is not a vote table and the
/// result is empty with zero counts; the following rows map the labels
/// `Ja`, `Nee` and `Onthoudingen` to their numbers, and a count that
/// does not parse stays 0.
pub fn extract_vote(rows: &Vec<Vec<String>>) -> (r: VoteTally)
    ensures
        r.deep_view() == spec_extract_vote(rows.deep_view()),
{
    let zero = VoteTally { name: String::new(), yes: 0, no: 0, abstain: 0 };
    if rows.len() == 0 || rows[0].len() == 0 {
        return zero;
    }
    proof {
        assert(rows.deep_view()[0] == rows@[0].deep_view());
    }
    let joined = join_space(&rows[0]);
    let first_text = trim_chars(&joined);
    let marker = chars_of("Stemming/vote");
    if !contains_sub(&first_text, &marker) {
        return zero;
    }
    let empty: Vec<char> = Vec::new();
    let open_paren = chars_of("(");
    let close_paren = chars_of(")");
    let vote_word = chars_of("/vote");
    proof {
        reveal_strlit("(");
        reveal_strlit(")");
        reveal_strlit("/vote");
    }
    let n1 = replace_all(&first_text, &open_paren, &empty);
    let n2 = replace_all(&n1, &close_paren, &empty);
    let name = replace_all(&n2, &vote_word, &empty);
    let mut tally = VoteTally { name: string_of(&name), yes: 0, no: 0, abstain: 0 };
    let ghost named = tally.deep_view();
    let mut i: usize = 1;
    while i < rows.len()
        invariant
            1 <= i <= rows.len(),
            spec_tally_fold(named, rows.deep_view(), 1) == spec_tally_fold(
                tally.deep_view(),
                rows.deep_view(),
                i as int,
            ),
        decreases rows.len() - i,
    {
        let ghost t0 = tally.deep_view();
        proof {
            assert(rows.deep_view()[i as int] == rows@[i as int].deep_view());
        }
        let row = &rows[i];
        if row.len() >= 2 {
            let c0 = chars_of(row[0].as_str());
            let label = trim_chars(&c0);
            let c1 = chars_of(row[1].as_str());
            let value = trim_chars(&c1);
            proof {
                assert(rows@[i as int].deep_view()[0] == rows@[i as int]@[0]@);
                assert(rows@[i as int].deep_view()[1] == rows@[i as int]@[1]@);
            }
            match parse_u32(&value) {
                None => {},
                Some(v) => {
                    let ja = chars_of("Ja");
                    let nee = chars_of("Nee");
                    let ont = chars_of("Onthoudingen");
                    if chars_eq(&label, &ja) {
                        tally.yes = v;
                    } else if chars_eq(&label, &nee) {
                        tally.no = v;
                    } else if chars_eq(&label, &ont) {
                        tally.abstain = v;
                    }
                },
            }
        }
        assert(tally.deep_view() =~~= spec_tally_step(t0, rows.deep_view()[i as int]));
        i += 1;
    }
    tally
}

} // verus!

verus! {

/// A letter as the roster heuristic understands it: the ASCII letters
/// and the accented Latin letters the member names use.
pub open spec fn spec_is_letter(c: char) -> bool {
    ('a' <= c && c <= 'z') || ('A' <= c && c <= 'Z') || ('\u{00C0}' <= c && c <= '\u{00FF}' && c
        != '\u{00D7}' && c != '\u{00F7}')
}

pub fn is_letter(c: char) -> (r: bool)
    ensures
        r == spec_is_letter(c),
{
    ('a' <= c && c <= 'z') || ('A' <= c && c <= 'Z') || ('\u{00C0}' <= c && c <= '\u{00FF}' && c
        != '\u{00D7}' && c != '\u{00F7}')
}

/// The `n`-th cell of a table in row-major order.
pub open spec fn spec_table_cell(rows: Seq<Seq<Seq<char>>>, n: int) -> Option<Seq<char>>
    decreases rows.len() when n >= 0
{
    if rows.len() == 0 {
        None
    } else if n < rows[0].len() {
        Some(rows[0][n])
    } else {
        spec_table_cell(rows.drop_first(), n - rows[0].len())
    }
}

/// The count a roster table declares: the number in its second cell,
/// or 0 when that cell is absent or does not parse.
pub open spec fn spec_roster_count(rows: Seq<Seq<Seq<char>>>) -> u32 {
    match spec_table_cell(rows, 1) {
        Option::None => 0u32,
        Option::Some(cell) => match spec_parse_u32(spec_trim(cell)) {
            Option::None => 0u32,
            Option::Some(v) => v,
        },
    }
}

fn table_cell(rows: &Vec<Vec<String>>, n: usize) -> (r: Option<String>)
    ensures
        match r {
            Some(cell) => spec_table_cell(rows.deep_view(), n as int) == Some(cell@),
            None => spec_table_cell(rows.deep_view(), n as int) is None,
        },
{
    let mut i: usize = 0;
    let mut rem: usize = n;
    assert(rows.deep_view().subrange(0, rows.deep_view().len() as int) =~= rows.deep_view());
    while i < rows.len()
        invariant
            i <= rows.len(),
            spec_table_cell(rows.deep_view(), n as int) == spec_table_cell(
                rows.deep_view().subrange(i as int, rows.deep_view().len() as int),
                rem as int,
            ),
        decreases rows.len() - i,
    {
        let ghost suffix = rows.deep_view().subrange(i as int, rows.deep_view().len() as int);
        proof {
            assert(suffix[0] == rows.deep_view()[i as int]);
            assert(rows.deep_view()[i as int] == rows@[i as int].deep_view());
        }
        if rem < rows[i].len() {
            let cell = rows[i][rem].clone();
            proof {
                assert(rows@[i as int].deep_view()[rem as int] == rows@[i as int]@[rem as int]@);
            }
            return Some(cell);
        }
        proof {
            assert(suffix.drop_first() =~~= rows.deep_view().subrange(
                i + 1,
                rows.deep_view().len() as int,
            ));
        }
        rem = rem - rows[i].len();
        i += 1;
    }
    None
}

fn roster_count(rows: &Vec<Vec<String>>) -> (r: u32)
    ensures
        r == spec_roster_count(rows.deep_view()),
{
    match table_cell(rows, 1) {
        None => 0,
        Some(cell) => {
            let c = chars_of(cell.as_str());
            let t = trim_chars(&c);
            match parse_u32(&t) {
                None => 0,
                Some(v) => v,
            }
        },
    }
}

/// Whether a paragraph's trimmed text plausibly holds a name list: it
/// starts with a letter and does not repeat the anchor phrase.
pub open spec fn spec_looks_like_names(raw: Seq<char>) -> bool {
    raw.len() > 0 && spec_is_letter(raw[0]) && !spec_contains(raw, "Vote nominatif"@)
}

/// A found name list normalised: comma spacing tightened and line
/// breaks flattened to spaces.
pub open spec fn spec_names_text(raw: Seq<char>) -> Seq<char> {
    spec_replace_all(
        spec_replace_all(spec_replace_all(raw, ", "@, ","@), ",\n"@, ","@),
        "\n"@,
        " "@,
    )
}

/// Position of the first table node at or after `i`.
pub open spec fn spec_find_table_from(nodes: Seq<NodeV>, i: int) -> Option<int>
    decreases nodes.len() - i when 0 <= i <= nodes.len()
{
    if i >= nodes.len() {
        None
    } else if nodes[i].kind == NodeKind::Table {
        Some(i)
    } else {
        spec_find_table_from(nodes, i + 1)
    }
}


/// The first plausible name list in the paragraphs after a roster
/// table, stopping at the next table.
pub open spec fn spec_find_names(nodes: Seq<NodeV>, j: int) -> Seq<char>
    decreases nodes.len() - j when 0 <= j <= nodes.len()
{
    if j >= nodes.len() {
        Seq::empty()
    } else if nodes[j].kind == NodeKind::Table {
        Seq::empty()
    } else if nodes[j].kind == NodeKind::Paragraph && spec_looks_like_names(
        spec_trim(nodes[j].text),
    ) {
        spec_names_text(spec_trim(nodes[j].text))
    } else {
        spec_find_names(nodes, j + 1)
    }
}

/// The roster text belonging to the table at `t`: empty at once when
/// the table's declared count is 0 (no scan happens), else the first
/// plausible name list before the next table.
pub open spec fn spec_roster_for(nodes: Seq<NodeV>, t: int) -> Seq<char> {
    if 0 <= t < nodes.len() && spec_roster_count(nodes[t].rows) != 0 {
        spec_find_names(nodes, t + 1)
    } else {
        Seq::empty()
    }
}

/// A table that declares a zero count never triggers a name-block
/// scan: its roster is empty by definition, whatever follows it.
pub proof fn lemma_zero_count_empty_roster(nodes: Seq<NodeV>, t: int)
    requires
        0 <= t < nodes.len(),
        spec_roster_count(nodes[t].rows) == 0,
    ensures
        spec_roster_for(nodes, t) == Seq::<char>::empty(),
{
}

pub open spec fn spec_roster_opt(nodes: Seq<NodeV>, t: Option<int>) -> Seq<char> {
    match t {
        Option::None => Seq::empty(),
        Option::Some(ti) => spec_roster_for(nodes, ti),
    }
}

/// Position of the first node whose text contains the roll-call
/// anchor phrase for the given vote index, in either language order.
pub open spec fn spec_find_anchor(nodes: Seq<NodeV>, index: Seq<char>, i: int) -> Option<int>
    decreases nodes.len() - i when 0 <= i <= nodes.len()
{
    if i >= nodes.len() {
        None
    } else if spec_contains(nodes[i].text, "Vote nominatif - Naamstemming: "@ + index)
        || spec_contains(nodes[i].text, "Naamstemming - Vote nominatif: "@ + index) {
        Some(i)
    } else {
        spec_find_anchor(nodes, index, i + 1)
    }
}


/// The three roster texts of the vote with the given index: the first
/// node containing the anchor phrase is located, the first three
/// tables from it on are taken as the yes, no and abstain tables in
/// that order, and each contributes its roster text (empty when the
/// table is missing or declares a zero count).
pub open spec fn spec_extract_voter_names(nodes: Seq<NodeV>, index: Seq<char>) -> (
    Seq<char>,
    Seq<char>,
    Seq<char>,
) {
    match spec_find_anchor(nodes, index, 0) {
        Option::None => (Seq::empty(), Seq::empty(), Seq::empty()),
        Option::Some(a) => {
            let t1 = spec_find_table_from(nodes, a);
            let t2 = match t1 {
                Option::None => None,
                Option::Some(x) => spec_find_table_from(nodes, x + 1),
            };
            let t3 = match t2 {
                Option::None => None,
                Option::Some(x) => spec_find_table_from(nodes, x + 1),
            };
            (spec_roster_opt(nodes, t1), spec_roster_opt(nodes, t2), spec_roster_opt(nodes, t3))
        },
    }
}

fn node_is_table(n: &Node) -> (r: bool)
    ensures
        r == (n.deep_view().kind == NodeKind::Table),
{
    matches!(n.kind, NodeKind::Table)
}

fn node_is_paragraph(n: &Node) -> (r: bool)
    ensures
        r == (n.deep_view().kind == NodeKind::Paragraph),
{
    matches!(n.kind, NodeKind::Paragraph)
}

pub fn find_table_from(nodes: &Vec<Node>, from: usize) -> (r: Option<usize>)
    requires
        from <= nodes.len(),
    ensures
        match r {
            Some(t) => spec_find_table_from(nodes.deep_view(), from as int) == Some(t as int) && from
                <= t < nodes.len(),
            None => spec_find_table_from(nodes.deep_view(), from as int) is None,
        },
{
    let mut i: usize = from;
    while i < nodes.len()
        invariant
            from <= i <= nodes.len(),
            nodes.deep_view().len() == nodes.len(),
            spec_find_table_from(nodes.deep_view(), from as int) == spec_find_table_from(
                nodes.deep_view(),
                i as int,
            ),
        decreases nodes.len() - i,
    {
        proof {
            assert(nodes.deep_view()[i as int] == nodes@[i as int].deep_view());
        }
        if node_is_table(&nodes[i]) {
            return Some(i);
        }
        i += 1;
    }
    None
}

fn find_names(nodes: &Vec<Node>, from: usize) -> (r: Vec<char>)
    requires
        from <= nodes.len(),
    ensures
        r@ == spec_find_names(nodes.deep_view(), from as int),
{
    let mut j: usize = from;
    while j < nodes.len()
        invariant
            from <= j <= nodes.len(),
            nodes.deep_view().len() == nodes.len(),
            spec_find_names(nodes.deep_view(), from as int) == spec_find_names(
                nodes.deep_view(),
                j as int,
            ),
        decreases nodes.len() - j,
    {
        proof {
            assert(nodes.deep_view()[j as int] == nodes@[j as int].deep_view());
        }
        if node_is_table(&nodes[j]) {
            return Vec::new();
        }
        if node_is_paragraph(&nodes[j]) {
            let c = chars_of(nodes[j].text.as_str());
            let raw = trim_chars(&c);
            let anchor_word = chars_of("Vote nominatif");
            let looks = raw.len() > 0 && is_letter(raw[0]) && !contains_sub(&raw, &anchor_word);
            if looks {
                let comma_space = chars_of(", ");
                let comma_nl = chars_of(",\n");
                let comma = chars_of(",");
                let nl = chars_of("\n");
                let space = chars_of(" ");
                proof {
                    reveal_strlit(", ");
                    reveal_strlit(",\n");
                    reveal_strlit(",");
                    reveal_strlit("\n");
                    reveal_strlit(" ");
                }
                let a = replace_all(&raw, &comma_space, &comma);
                let b = replace_all(&a, &comma_nl, &comma);
                return replace_all(&b, &nl, &space);
            }
        }
        j += 1;
    }
    Vec::new()
}

fn roster_for(nodes: &Vec<Node>, t: usize) -> (r: Vec<char>)
    requires
        t < nodes.len(),
    ensures
        r@ == spec_roster_for(nodes.deep_view(), t as int),
{
    proof {
        assert(nodes.deep_view()[t as int] == nodes@[t as int].deep_view());
    }
    let count = roster_count(&nodes[t].rows);
    if count == 0 {
        Vec::new()
    } else {
        find_names(nodes, t + 1)
    }
}

/// Resolves the three voter-name blocks of the vote with the given
/// textual index. The search is anchor-based: the node containing
/// `Vote nominatif - Naamstemming: {index}` (or the reversed language
/// order) is located, the three following tables are the yes, no and
/// abstain tables, and for each the first plausible name paragraph
/// before the next table is its roster. A table whose declared count
/// is zero yields an empty roster without any scan.
pub fn extract_voter_names(nodes: &Vec<Node>, vote_index: &str) -> (r: (String, String, String))
    ensures
        ({
            let s = spec_extract_voter_names(nodes.deep_view(), vote_index@);
            r.0@ == s.0 && r.1@ == s.1 && r.2@ == s.2
        }),
{
    let index = chars_of(vote_index);
    let prefix1 = chars_of("Vote nominatif - Naamstemming: ");
    let prefix2 = chars_of("Naamstemming - Vote nominatif: ");
    let mut anchor1 = Vec::new();
    push_all(&mut anchor1, &prefix1);
    push_all(&mut anchor1, &index);
    let mut anchor2 = Vec::new();
    push_all(&mut anchor2, &prefix2);
    push_all(&mut anchor2, &index);
    let mut i: usize = 0;
    let mut anchor: Option<usize> = None;
    while i < nodes.len() && anchor.is_none()
        invariant
            i <= nodes.len(),
            nodes.deep_view().len() == nodes.len(),
            anchor1@ == "Vote nominatif - Naamstemming: "@ + vote_index@,
            anchor2@ == "Naamstemming - Vote nominatif: "@ + vote_index@,
            match anchor {
                Some(a) => spec_find_anchor(nodes.deep_view(), vote_index@, 0) == Some(a as int)
                    && a < nodes.len(),
                None => spec_find_anchor(nodes.deep_view(), vote_index@, 0) == spec_find_anchor(
                    nodes.deep_view(),
                    vote_index@,
                    i as int,
                ),
            },
        decreases
                nodes.len() - i + (if anchor is Some {
                    0int
                } else {
                    1int
                }),
    {
        proof {
            assert(nodes.deep_view()[i as int] == nodes@[i as int].deep_view());
        }
        let text = chars_of(nodes[i].text.as_str());
        if contains_sub(&text, &anchor1) || contains_sub(&text, &anchor2) {
            anchor = Some(i);
        } else {
            i += 1;
        }
    }
    match anchor {
        None => {
            assert(spec_find_anchor(nodes.deep_view(), vote_index@, 0) is None);
            (String::new(), String::new(), String::new())
        },
        Some(a) => {
            let t1 = find_table_from(nodes, a);
            let t2 = match t1 {
                None => None,
                Some(x) => find_table_from(nodes, x + 1),
            };
            let t3 = match t2 {
                None => None,
                Some(x) => find_table_from(nodes, x + 1),
            };
            let r1 = match t1 {
                None => Vec::new(),
                Some(x) => roster_for(nodes, x),
            };
            let r2 = match t2 {
                None => Vec::new(),
                Some(x) => roster_for(nodes, x),
            };
            let r3 = match t3 {
                None => Vec::new(),
                Some(x) => roster_for(nodes, x),
            };
            (string_of(&r1), string_of(&r2), string_of(&r3))
        },
    }
}

} // verus!
