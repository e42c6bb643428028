//! The section scanner: walks the document's block-level nodes in
//! order and classifies each as belonging to no section or to the
//! questions, propositions or votes section, by bilingual keyword
//! matching on top-level heading text. A repeated heading of the same
//! section (the translation duplicate some reports print) does not end
//! the section; a heading recognised as nothing ends it.
use crate::records::{Node, NodeKind, NodeV};
use crate::text::{
    chars_of, clean_chars, contains_sub, lower, spec_clean_text, spec_contains, spec_lower,
};
use vstd::prelude::*;

verus! {

/// The section a node belongs to.
#[derive(Clone, Copy, Debug, PartialEq, Eq)]
pub enum SectionKind {
    Outside,
    Questions,
    Propositions,
    Votes,
}

/// The section a top-level heading opens, if any: the oral-questions
/// keywords and the roll-call keywords match as printed, the
/// proposition keywords match case-folded. Questions take precedence
/// over votes, votes over propositions.
pub open spec fn spec_match_section(text: Seq<char>) -> Option<SectionKind> {
    let t = spec_clean_text(text);
    if spec_contains(t, "Mondelinge vragen"@) || spec_contains(t, "Vragen"@) || spec_contains(
        t,
        "Questions orales"@,
    ) || spec_contains(t, "Questions"@) {
        Some(SectionKind::Questions)
    } else if spec_contains(t, "Naamstemmingen"@) || spec_contains(t, "Naamstemming"@) {
        Some(SectionKind::Votes)
    } else if spec_contains(spec_lower(t), "voorstel"@) || spec_contains(
        spec_lower(t),
        "proposition"@,
    ) {
        Some(SectionKind::Propositions)
    } else {
        None
    }
}

pub fn match_section(text: &str) -> (r: Option<SectionKind>)
    ensures
        r == spec_match_section(text@),
{
    let v = chars_of(text);
    let t = clean_chars(&v);
    let k1 = chars_of("Mondelinge vragen");
    let k2 = chars_of("Vragen");
    let k3 = chars_of("Questions orales");
    let k4 = chars_of("Questions");
    if contains_sub(&t, &k1) || contains_sub(&t, &k2) || contains_sub(&t, &k3) || contains_sub(
        &t,
        &k4,
    ) {
        return Some(SectionKind::Questions);
    }
    let k5 = chars_of("Naamstemmingen");
    let k6 = chars_of("Naamstemming");
    if contains_sub(&t, &k5) || contains_sub(&t, &k6) {
        return Some(SectionKind::Votes);
    }
    let l = lower(&t);
    let k7 = chars_of("voorstel");
    let k8 = chars_of("proposition");
    if contains_sub(&l, &k7) || contains_sub(&l, &k8) {
        return Some(SectionKind::Propositions);
    }
    None
}

/// The active section after one node: a heading switches to whichever
/// section it matches (or to no section); any other node keeps the
/// active section.
pub open spec fn spec_scan_step(active: SectionKind, node: NodeV) -> SectionKind {
    if node.kind == NodeKind::Heading {
        match spec_match_section(node.text) {
            Option::Some(k) => k,
            Option::None => SectionKind::Outside,
        }
    } else {
        active
    }
}

/// The per-node classification of a whole document: node `i` belongs
/// to the section active once node `i` itself has been processed.
pub open spec fn spec_scan_from(nodes: Seq<NodeV>, i: int, active: SectionKind) -> Seq<SectionKind>
    decreases nodes.len() - i when 0 <= i <= nodes.len()
{
    if i >= nodes.len() {
        Seq::empty()
    } else {
        let next = spec_scan_step(active, nodes[i]);
        seq![next] + spec_scan_from(nodes, i + 1, next)
    }
}

pub open spec fn spec_scan_sections(nodes: Seq<NodeV>) -> Seq<SectionKind> {
    spec_scan_from(nodes, 0, SectionKind::Outside)
}

/// Classifies every node of the document: the scanner's state starts
/// outside any section, and each top-level heading either opens the
/// section whose keywords it carries (a repeated heading of the same
/// section therefore keeps it open) or closes the current one.
pub fn scan_sections(nodes: &Vec<Node>) -> (r: Vec<SectionKind>)
    ensures
        r@ == spec_scan_sections(nodes.deep_view()),
        r.len() == nodes.len(),
{
    let mut out: Vec<SectionKind> = Vec::new();
    let mut active = SectionKind::Outside;
    let mut i: usize = 0;
    while i < nodes.len()
        invariant
            i <= nodes.len(),
            out@.len() == i,
            nodes.deep_view().len() == nodes.len(),
            spec_scan_sections(nodes.deep_view()) =~= out@ + spec_scan_from(
                nodes.deep_view(),
                i as int,
                active,
            ),
        decreases nodes.len() - i,
    {
        let ghost out0 = out@;
        proof {
            assert(nodes.deep_view()[i as int] == nodes@[i as int].deep_view());
        }
        if matches!(nodes[i].kind, NodeKind::Heading) {
            match match_section(nodes[i].text.as_str()) {
                Some(k) => {
                    active = k;
                },
                None => {
                    active = SectionKind::Outside;
                },
            }
        }
        out.push(active);
        proof {
            assert(out@ =~= out0 + seq![active]);
            assert(out@ + spec_scan_from(nodes.deep_view(), i + 1, active) =~= out0 + (seq![active]
                + spec_scan_from(nodes.deep_view(), i + 1, active)));
        }
        i += 1;
    }
    proof {
        assert(out@ =~= spec_scan_sections(nodes.deep_view()));
    }
    out
}

/// A document in which no heading matches any section keywords is
/// classified outside a section throughout: the scanner never places a
/// node in a section that no heading opened.
pub proof fn lemma_no_heading_no_section(nodes: Seq<NodeV>, i: int, k: int)
    requires
        0 <= i <= nodes.len(),
        forall|j: int|
            0 <= j < nodes.len() && nodes[j].kind == NodeKind::Heading ==> spec_match_section(
                nodes[j].text,
            ) is None,
        0 <= k < spec_scan_from(nodes, i, SectionKind::Outside).len(),
    ensures
        spec_scan_from(nodes, i, SectionKind::Outside)[k] == SectionKind::Outside,
    decreases nodes.len() - i,
{
    if i < nodes.len() {
        let next = spec_scan_step(SectionKind::Outside, nodes[i]);
        assert(next == SectionKind::Outside);
        if k > 0 {
            lemma_no_heading_no_section(nodes, i + 1, k - 1);
        }
    }
}

} // verus!
