//! The dossier detail-page parser: reads the label/value metadata
//! table of a dossier page into one Dossier record, classifies its
//! document type and status against closed keyword tables, and walks
//! the nested, repeating sub-document rows with an explicit
//! accumulator — a row without a second cell closes one sub-document
//! group, and a group is only emitted once both its identifier and its
//! date are present.
use crate::records::{DocumentStatus, DocumentType, Dossier, DossierV, Subdocument, SubdocumentV};
use crate::text::{
    chars_of, contains_sub, lower, replace_all, spec_contains, spec_lower,
    spec_replace_all, spec_trim, string_of, trim_chars,
};
use vstd::prelude::*;

verus! {

/// One label/value row of the dossier metadata table, with the texts
/// of its hyperlinks, its raw text nodes, and the rows of a nested
/// sub-document table where one exists.
#[derive(Clone, Debug, PartialEq, Eq)]
pub struct DossierRow {
    pub label: String,
    pub value: String,
    pub link_texts: Vec<String>,
    pub text_nodes: Vec<String>,
    pub sub_rows: Vec<SubRow>,
}

/// One row of the nested sub-document table. A row without a second
/// cell terminates a sub-document group.
#[derive(Clone, Debug, PartialEq, Eq)]
pub struct SubRow {
    pub has_second_cell: bool,
    pub label: String,
    pub value: String,
    pub id_link: Option<String>,
    pub type_text: Option<String>,
    pub author_link: Option<String>,
}

/// A fetched dossier page reduced to plain values: its title and the
/// rows of its metadata table.
#[derive(Clone, Debug, PartialEq, Eq)]
pub struct DossierPage {
    pub title: String,
    pub rows: Vec<DossierRow>,
}

#[verifier::ext_equal]
pub struct DossierRowV {
    pub label: Seq<char>,
    pub value: Seq<char>,
    pub link_texts: Seq<Seq<char>>,
    pub text_nodes: Seq<Seq<char>>,
    pub sub_rows: Seq<SubRowV>,
}

#[verifier::ext_equal]
pub struct SubRowV {
    pub has_second_cell: bool,
    pub label: Seq<char>,
    pub value: Seq<char>,
    pub id_link: Option<Seq<char>>,
    pub type_text: Option<Seq<char>>,
    pub author_link: Option<Seq<char>>,
}

#[verifier::ext_equal]
pub struct DossierPageV {
    pub title: Seq<char>,
    pub rows: Seq<DossierRowV>,
}

impl DeepView for SubRow {
    type V = SubRowV;

    open spec fn deep_view(&self) -> SubRowV {
        SubRowV {
            has_second_cell: self.has_second_cell,
            label: self.label@,
            value: self.value@,
            id_link: self.id_link.deep_view(),
            type_text: self.type_text.deep_view(),
            author_link: self.author_link.deep_view(),
        }
    }
}

impl DeepView for DossierRow {
    type V = DossierRowV;

    open spec fn deep_view(&self) -> DossierRowV {
        DossierRowV {
            label: self.label@,
            value: self.value@,
            link_texts: self.link_texts.deep_view(),
            text_nodes: self.text_nodes.deep_view(),
            sub_rows: self.sub_rows.deep_view(),
        }
    }
}

impl DeepView for DossierPage {
    type V = DossierPageV;

    open spec fn deep_view(&self) -> DossierPageV {
        DossierPageV { title: self.title@, rows: self.rows.deep_view() }
    }
}

/// The status a dossier page states, classified by keyword
/// containment on the lowercased text; unmatched text is Onbekend.
pub open spec fn spec_parse_status(s: Seq<char>) -> DocumentStatus {
    let l = spec_lower(spec_trim(s));
    if spec_contains(l, "aangenomen"@) {
        DocumentStatus::Aangenomen
    } else if spec_contains(l, "verworpen"@) {
        DocumentStatus::Verworpen
    } else if spec_contains(l, "zonder voorwerp"@) {
        DocumentStatus::ZonderVoorwerp
    } else {
        DocumentStatus::Onbekend
    }
}

/// Classifies a dossier status text.
pub fn parse_status(raw: &str) -> (r: DocumentStatus)
    ensures
        r == spec_parse_status(raw@),
{
    let v = chars_of(raw);
    let t = trim_chars(&v);
    let l = lower(&t);
    let k1 = chars_of("aangenomen");
    if contains_sub(&l, &k1) {
        return DocumentStatus::Aangenomen;
    }
    let k2 = chars_of("verworpen");
    if contains_sub(&l, &k2) {
        return DocumentStatus::Verworpen;
    }
    let k3 = chars_of("zonder voorwerp");
    if contains_sub(&l, &k3) {
        return DocumentStatus::ZonderVoorwerp;
    }
    DocumentStatus::Onbekend
}

/// The document kind a text names, classified by keyword containment
/// on the lowercased text, most specific keyword first; unmatched
/// text is Unknown.
pub open spec fn spec_parse_document_type(s: Seq<char>) -> DocumentType {
    let l = spec_lower(spec_trim(s));
    if spec_contains(l, "voorstel van resolutie"@) {
        DocumentType::VoorstelVanResolutie
    } else if spec_contains(l, "amendement"@) {
        DocumentType::Amendement
    } else if spec_contains(l, "voorstel tot herziening"@) {
        DocumentType::VoorstelTotHerziening
    } else if spec_contains(l, "wetsvoorstel"@) {
        DocumentType::WetsVoorstel
    } else if spec_contains(l, "wetsontwerp"@) {
        DocumentType::WetsOntwerp
    } else if spec_contains(l, "overgezonden ontwerp"@) {
        DocumentType::OvergezondenOntwerp
    } else if spec_contains(l, "verslag"@) {
        DocumentType::Verslag
    } else if spec_contains(l, "advies van de raad van state"@) {
        DocumentType::AdviesVanDeRaadVanState
    } else if spec_contains(l, "advies"@) {
        DocumentType::Advies
    } else if spec_contains(l, "voorstel onderzoekscommissie"@) {
        DocumentType::VoorstelOnderzoekscommissie
    } else if spec_contains(l, "voorstel reglement"@) {
        DocumentType::VoorstelReglement
    } else if spec_contains(l, "artikelen bij 1e stemming aangenomen"@) {
        DocumentType::ArtikelenBijEersteStemmingAangenomen
    } else if spec_contains(l, "aangenomen tekst"@) {
        DocumentType::AangenomenTekst
    } else {
        DocumentType::Unknown
    }
}

/// Classifies a document-type text.
pub fn parse_document_type(raw: &str) -> (r: DocumentType)
    ensures
        r == spec_parse_document_type(raw@),
{
    let v = chars_of(raw);
    let t = trim_chars(&v);
    let l = lower(&t);
    let k1 = chars_of("voorstel van resolutie");
    if contains_sub(&l, &k1) {
        return DocumentType::VoorstelVanResolutie;
    }
    let k2 = chars_of("amendement");
    if contains_sub(&l, &k2) {
        return DocumentType::Amendement;
    }
    let k3 = chars_of("voorstel tot herziening");
    if contains_sub(&l, &k3) {
        return DocumentType::VoorstelTotHerziening;
    }
    let k4 = chars_of("wetsvoorstel");
    if contains_sub(&l, &k4) {
        return DocumentType::WetsVoorstel;
    }
    let k5 = chars_of("wetsontwerp");
    if contains_sub(&l, &k5) {
        return DocumentType::WetsOntwerp;
    }
    let k6 = chars_of("overgezonden ontwerp");
    if contains_sub(&l, &k6) {
        return DocumentType::OvergezondenOntwerp;
    }
    let k7 = chars_of("verslag");
    if contains_sub(&l, &k7) {
        return DocumentType::Verslag;
    }
    let k8 = chars_of("advies van de raad van state");
    if contains_sub(&l, &k8) {
        return DocumentType::AdviesVanDeRaadVanState;
    }
    let k9 = chars_of("advies");
    if contains_sub(&l, &k9) {
        return DocumentType::Advies;
    }
    let k10 = chars_of("voorstel onderzoekscommissie");
    if contains_sub(&l, &k10) {
        return DocumentType::VoorstelOnderzoekscommissie;
    }
    let k11 = chars_of("voorstel reglement");
    if contains_sub(&l, &k11) {
        return DocumentType::VoorstelReglement;
    }
    let k12 = chars_of("artikelen bij 1e stemming aangenomen");
    if contains_sub(&l, &k12) {
        return DocumentType::ArtikelenBijEersteStemmingAangenomen;
    }
    let k13 = chars_of("aangenomen tekst");
    if contains_sub(&l, &k13) {
        return DocumentType::AangenomenTekst;
    }
    DocumentType::Unknown
}

} // verus!

verus! {

/// The accumulator that walks the nested sub-document rows: the fields
/// gathered so far, whether an author sub-section is open, whether the
/// gathered fields form a complete sub-document, and the sub-documents
/// emitted so far.
#[verifier::ext_equal]
pub struct SubStateV {
    pub id: Seq<char>,
    pub dtype: DocumentType,
    pub date: Seq<char>,
    pub authors: Seq<Seq<char>>,
    pub parsing: bool,
    pub complete: bool,
    pub emitted: Seq<SubdocumentV>,
}

pub open spec fn spec_substate_init() -> SubStateV {
    SubStateV {
        id: Seq::empty(),
        dtype: DocumentType::Unknown,
        date: Seq::empty(),
        authors: Seq::empty(),
        parsing: false,
        complete: false,
        emitted: Seq::empty(),
    }
}

/// One sub-document row applied to the accumulator. A row without a
/// second cell ends the current group: a complete group is emitted and
/// the accumulator cleared, an incomplete one is dropped silently. Any
/// other row fills in whichever fields it carries; author links count
/// only once an author sub-section has opened.
pub open spec fn spec_sub_step(dossier_id: Seq<char>, st: SubStateV, row: SubRowV) -> SubStateV {
    if !row.has_second_cell {
        if st.complete {
            SubStateV {
                id: Seq::empty(),
                dtype: st.dtype,
                date: Seq::empty(),
                authors: Seq::empty(),
                parsing: false,
                complete: false,
                emitted: st.emitted.push(
                    SubdocumentV {
                        dossier_id: dossier_id,
                        id: st.id,
                        document_type: st.dtype,
                        date: st.date,
                        authors: st.authors,
                    },
                ),
            }
        } else {
            st
        }
    } else {
        let label = spec_lower(spec_trim(row.label));
        let value = spec_lower(spec_trim(row.value));
        let id2 = match row.id_link {
            Option::Some(t) => spec_trim(t),
            Option::None => st.id,
        };
        let dtype2 = match row.type_text {
            Option::Some(t) => spec_parse_document_type(t),
            Option::None => st.dtype,
        };
        let date2 = if spec_contains(label, "datum ronddeling"@) {
            value
        } else {
            st.date
        };
        let parsing2 = st.parsing || spec_contains(label, "auteur(s)"@);
        let authors2 = if parsing2 {
            match row.author_link {
                Option::Some(n) => st.authors.push(
                    spec_trim(spec_replace_all(n, ","@, Seq::empty())),
                ),
                Option::None => st.authors,
            }
        } else {
            st.authors
        };
        let complete2 = st.complete || (id2.len() > 0 && date2.len() > 0);
        SubStateV {
            id: id2,
            dtype: dtype2,
            date: date2,
            authors: authors2,
            parsing: parsing2,
            complete: complete2,
            emitted: st.emitted,
        }
    }
}

pub open spec fn spec_sub_fold(
    dossier_id: Seq<char>,
    st: SubStateV,
    rows: Seq<SubRowV>,
    i: int,
) -> SubStateV
    decreases rows.len() - i when 0 <= i <= rows.len()
{
    if i >= rows.len() {
        st
    } else {
        spec_sub_fold(dossier_id, spec_sub_step(dossier_id, st, rows[i]), rows, i + 1)
    }
}

/// The sub-documents of one `Subdocumenten` row.
pub open spec fn spec_subdocuments(dossier_id: Seq<char>, rows: Seq<SubRowV>) -> Seq<SubdocumentV> {
    spec_sub_fold(dossier_id, spec_substate_init(), rows, 0).emitted
}

/// The author names of an author row: the hyperlink texts (commas
/// removed, trimmed); when there is no link at all, the non-empty raw
/// text nodes instead.
pub open spec fn spec_link_authors(links: Seq<Seq<char>>, i: int) -> Seq<Seq<char>>
    decreases links.len() - i when 0 <= i <= links.len()
{
    if i >= links.len() {
        Seq::empty()
    } else {
        seq![spec_replace_all(spec_trim(links[i]), ","@, Seq::empty())] + spec_link_authors(
            links,
            i + 1,
        )
    }
}

pub open spec fn spec_text_authors(texts: Seq<Seq<char>>, i: int) -> Seq<Seq<char>>
    decreases texts.len() - i when 0 <= i <= texts.len()
{
    if i >= texts.len() {
        Seq::empty()
    } else {
        let t = spec_trim(texts[i]);
        (if t.len() > 0 {
            seq![t]
        } else {
            Seq::<Seq<char>>::empty()
        }) + spec_text_authors(texts, i + 1)
    }
}

pub open spec fn spec_row_authors(row: DossierRowV) -> Seq<Seq<char>> {
    let from_links = spec_link_authors(row.link_texts, 0);
    if from_links.len() > 0 {
        from_links
    } else {
        spec_text_authors(row.text_nodes, 0)
    }
}

/// One metadata row applied to the dossier record: the first label
/// keyword that matches decides which field the row fills.
pub open spec fn spec_dossier_step(dossier_id: Seq<char>, d: DossierV, row: DossierRowV) -> DossierV {
    let label = spec_lower(spec_trim(row.label));
    let value = spec_lower(spec_trim(row.value));
    if spec_contains(label, "indieningsdatum"@) {
        DossierV { submission_date: value, ..d }
    } else if spec_contains(label, "stemming kamer"@) {
        DossierV { vote_date: value, ..d }
    } else if spec_contains(label, "einddatum"@) {
        DossierV { end_date: value, ..d }
    } else if spec_contains(label, "auteur(s)"@) {
        DossierV { authors: spec_row_authors(row), ..d }
    } else if spec_contains(label, "document type"@) {
        DossierV { document_type: spec_parse_document_type(value), ..d }
    } else if spec_contains(label, "status"@) {
        DossierV { status: spec_parse_status(value), ..d }
    } else if spec_contains(label, "subdocumenten"@) {
        DossierV { subdocuments: d.subdocuments + spec_subdocuments(dossier_id, row.sub_rows), ..d }
    } else {
        d
    }
}

pub open spec fn spec_dossier_fold(
    dossier_id: Seq<char>,
    d: DossierV,
    rows: Seq<DossierRowV>,
    i: int,
) -> DossierV
    decreases rows.len() - i when 0 <= i <= rows.len()
{
    if i >= rows.len() {
        d
    } else {
        spec_dossier_fold(dossier_id, spec_dossier_step(dossier_id, d, rows[i]), rows, i + 1)
    }
}

pub open spec fn spec_dossier_init(title: Seq<char>) -> DossierV {
    DossierV {
        title: spec_trim(title),
        authors: Seq::empty(),
        submission_date: Seq::empty(),
        end_date: Seq::empty(),
        vote_date: Seq::empty(),
        document_type: DocumentType::Unknown,
        status: DocumentStatus::Onbekend,
        subdocuments: Seq::empty(),
    }
}

/// The dossier a detail page describes.
pub open spec fn spec_parse_dossier(page: DossierPageV, dossier_id: Seq<char>) -> DossierV {
    spec_dossier_fold(dossier_id, spec_dossier_init(page.title), page.rows, 0)
}

} // verus!

verus! {

fn parse_subdocuments(dossier_id: &Vec<char>, sub_rows: &Vec<SubRow>) -> (r: Vec<Subdocument>)
    ensures
        r.deep_view() == spec_subdocuments(dossier_id@, sub_rows.deep_view()),
{
    let ghost srv = sub_rows.deep_view();
    let mut id: Vec<char> = Vec::new();
    let mut dtype = DocumentType::Unknown;
    let mut date: Vec<char> = Vec::new();
    let mut authors: Vec<String> = Vec::new();
    let mut parsing = false;
    let mut complete = false;
    let mut emitted: Vec<Subdocument> = Vec::new();
    let ghost init = spec_substate_init();
    assert(SubStateV {
        id: id@,
        dtype: dtype,
        date: date@,
        authors: authors.deep_view(),
        parsing: parsing,
        complete: complete,
        emitted: emitted.deep_view(),
    } =~~= init);
    let mut k: usize = 0;
    while k < sub_rows.len()
        invariant
            k <= sub_rows.len(),
            srv == sub_rows.deep_view(),
            srv.len() == sub_rows.len(),
            spec_sub_fold(dossier_id@, spec_substate_init(), srv, 0) == spec_sub_fold(
                dossier_id@,
                SubStateV {
                    id: id@,
                    dtype: dtype,
                    date: date@,
                    authors: authors.deep_view(),
                    parsing: parsing,
                    complete: complete,
                    emitted: emitted.deep_view(),
                },
                srv,
                k as int,
            ),
        decreases sub_rows.len() - k,
    {
        let ghost st0 = SubStateV {
            id: id@,
            dtype: dtype,
            date: date@,
            authors: authors.deep_view(),
            parsing: parsing,
            complete: complete,
            emitted: emitted.deep_view(),
        };
        proof {
            assert(srv[k as int] == sub_rows@[k as int].deep_view());
        }
        let row = &sub_rows[k];
        if !row.has_second_cell {
            if complete {
                let ghost emitted0 = emitted.deep_view();
                emitted.push(
                    Subdocument {
                        dossier_id: string_of(dossier_id),
                        id: string_of(&id),
                        document_type: dtype,
                        date: string_of(&date),
                        authors: authors,
                    },
                );
                proof {
                    assert(emitted.deep_view() =~~= emitted0.push(
                        SubdocumentV {
                            dossier_id: dossier_id@,
                            id: st0.id,
                            document_type: st0.dtype,
                            date: st0.date,
                            authors: st0.authors,
                        },
                    ));
                }
                id = Vec::new();
                date = Vec::new();
                authors = Vec::new();
                parsing = false;
                complete = false;
            }
        } else {
            let lc = chars_of(row.label.as_str());
            let lt = trim_chars(&lc);
            let label = lower(&lt);
            let vc = chars_of(row.value.as_str());
            let vt = trim_chars(&vc);
            let value = lower(&vt);
            match &row.id_link {
                Some(t) => {
                    let tc = chars_of(t.as_str());
                    id = trim_chars(&tc);
                },
                None => {},
            }
            match &row.type_text {
                Some(t) => {
                    dtype = parse_document_type(t.as_str());
                },
                None => {},
            }
            let ronddeling = chars_of("datum ronddeling");
            if contains_sub(&label, &ronddeling) {
                date = vt.clone();
                let lv = lower(&vt);
                date = lv;
            }
            let auteurs = chars_of("auteur(s)");
            if contains_sub(&label, &auteurs) {
                parsing = true;
            }
            if parsing {
                match &row.author_link {
                    Some(n) => {
                        let ghost authors0 = authors.deep_view();
                        let nc = chars_of(n.as_str());
                        let comma = chars_of(",");
                        let empty: Vec<char> = Vec::new();
                        proof {
                            reveal_strlit(",");
                        }
                        let stripped = replace_all(&nc, &comma, &empty);
                        let name = trim_chars(&stripped);
                        authors.push(string_of(&name));
                        proof {
                            assert(authors.deep_view() =~~= authors0.push(
                                spec_trim(
                                    spec_replace_all(n@, ","@, Seq::empty()),
                                ),
                            ));
                        }
                    },
                    None => {},
                }
            }
            if id.len() > 0 && date.len() > 0 {
                complete = true;
            }
            proof {
                let row_v = srv[k as int];
                let step = spec_sub_step(dossier_id@, st0, row_v);
                assert(id@ == step.id);
                assert(date@ == step.date);
                assert(authors.deep_view() =~~= step.authors);
            }
        }
        proof {
            assert(SubStateV {
                id: id@,
                dtype: dtype,
                date: date@,
                authors: authors.deep_view(),
                parsing: parsing,
                complete: complete,
                emitted: emitted.deep_view(),
            } =~~= spec_sub_step(dossier_id@, st0, srv[k as int]));
        }
        k += 1;
    }
    emitted
}

/// Parses one fetched dossier page into its Dossier record: the
/// label/value rows fill the dates, authors, document type and status,
/// and the nested sub-document rows are grouped and emitted by the
/// accumulator, one Subdocument per complete group.
pub fn parse_dossier(dossier_id: &str, page: &DossierPage) -> (r: Dossier)
    ensures
        r.deep_view() == spec_parse_dossier(page.deep_view(), dossier_id@),
{
    let did = chars_of(dossier_id);
    let tc = chars_of(page.title.as_str());
    let title = trim_chars(&tc);
    let mut d = Dossier {
        title: string_of(&title),
        authors: Vec::new(),
        submission_date: String::new(),
        end_date: String::new(),
        vote_date: String::new(),
        document_type: DocumentType::Unknown,
        status: DocumentStatus::Onbekend,
        subdocuments: Vec::new(),
    };
    assert(d.deep_view() =~~= spec_dossier_init(page.deep_view().title));
    let ghost rowsv = page.rows.deep_view();
    let mut i: usize = 0;
    while i < page.rows.len()
        invariant
            i <= page.rows.len(),
            did@ == dossier_id@,
            rowsv == page.rows.deep_view(),
            rowsv.len() == page.rows.len(),
            spec_parse_dossier(page.deep_view(), dossier_id@) == spec_dossier_fold(
                dossier_id@,
                d.deep_view(),
                rowsv,
                i as int,
            ),
        decreases page.rows.len() - i,
    {
        let ghost d0 = d.deep_view();
        proof {
            assert(rowsv[i as int] == page.rows@[i as int].deep_view());
        }
        let row = &page.rows[i];
        let lc = chars_of(row.label.as_str());
        let lt = trim_chars(&lc);
        let label = lower(&lt);
        let vc = chars_of(row.value.as_str());
        let vt = trim_chars(&vc);
        let value = lower(&vt);
        let k_sub = chars_of("indieningsdatum");
        let k_vote = chars_of("stemming kamer");
        let k_end = chars_of("einddatum");
        let k_auth = chars_of("auteur(s)");
        let k_type = chars_of("document type");
        let k_status = chars_of("status");
        let k_subdoc = chars_of("subdocumenten");
        if contains_sub(&label, &k_sub) {
            d.submission_date = string_of(&value);
        } else if contains_sub(&label, &k_vote) {
            d.vote_date = string_of(&value);
        } else if contains_sub(&label, &k_end) {
            d.end_date = string_of(&value);
        } else if contains_sub(&label, &k_auth) {
            let mut names: Vec<String> = Vec::new();
            let mut j: usize = 0;
            while j < row.link_texts.len()
                invariant
                    j <= row.link_texts.len(),
                    spec_link_authors(row.link_texts.deep_view(), 0) =~~= names.deep_view()
                        + spec_link_authors(row.link_texts.deep_view(), j as int),
                decreases row.link_texts.len() - j,
            {
                let ghost names0 = names.deep_view();
                proof {
                    assert(row.link_texts.deep_view()[j as int] == row.link_texts@[j as int]@);
                    reveal_strlit(",");
                }
                let nc = chars_of(row.link_texts[j].as_str());
                let nt = trim_chars(&nc);
                let comma = chars_of(",");
                let empty: Vec<char> = Vec::new();
                let name = replace_all(&nt, &comma, &empty);
                names.push(string_of(&name));
                proof {
                    assert(names.deep_view() =~~= names0.push(name@));
                    let lv = row.link_texts.deep_view();
                    assert(names.deep_view() + spec_link_authors(lv, j + 1) =~~= names0
                        + spec_link_authors(lv, j as int));
                }
                j += 1;
            }
            if names.len() > 0 {
                proof {
                    assert(spec_link_authors(row.link_texts.deep_view(), row.link_texts@.len() as int)
                        =~~= Seq::<Seq<char>>::empty());
                    assert(names.deep_view() =~~= spec_row_authors(rowsv[i as int]));
                }
                d.authors = names;
            } else {
                let mut tnames: Vec<String> = Vec::new();
                let mut j2: usize = 0;
                while j2 < row.text_nodes.len()
                    invariant
                        j2 <= row.text_nodes.len(),
                        spec_text_authors(row.text_nodes.deep_view(), 0) =~~= tnames.deep_view()
                            + spec_text_authors(row.text_nodes.deep_view(), j2 as int),
                    decreases row.text_nodes.len() - j2,
                {
                    let ghost tnames0 = tnames.deep_view();
                    proof {
                        assert(row.text_nodes.deep_view()[j2 as int] == row.text_nodes@[j2 as int]@);
                    }
                    let nc = chars_of(row.text_nodes[j2].as_str());
                    let nt = trim_chars(&nc);
                    if nt.len() > 0 {
                        tnames.push(string_of(&nt));
                        proof {
                            assert(tnames.deep_view() =~~= tnames0.push(nt@));
                        }
                    }
                    proof {
                        let tv = row.text_nodes.deep_view();
                        assert(tnames.deep_view() + spec_text_authors(tv, j2 + 1) =~~= tnames0
                            + spec_text_authors(tv, j2 as int));
                    }
                    j2 += 1;
                }
                proof {
                    assert(spec_text_authors(
                        row.text_nodes.deep_view(),
                        row.text_nodes@.len() as int,
                    ) =~~= Seq::<Seq<char>>::empty());
                    assert(tnames.deep_view() =~~= spec_text_authors(row.text_nodes.deep_view(), 0));
                    assert(names.deep_view() =~~= spec_link_authors(row.link_texts.deep_view(), 0));
                    assert(tnames.deep_view() =~~= spec_row_authors(rowsv[i as int]));
                }
                d.authors = tnames;
            }
        } else if contains_sub(&label, &k_type) {
            let vs = string_of(&value);
            d.document_type = parse_document_type(vs.as_str());
        } else if contains_sub(&label, &k_status) {
            let vs = string_of(&value);
            d.status = parse_status(vs.as_str());
        } else if contains_sub(&label, &k_subdoc) {
            let ghost subs0 = d.subdocuments.deep_view();
            let mut new_subs = parse_subdocuments(&did, &row.sub_rows);
            let ghost newv = new_subs.deep_view();
            d.subdocuments.append(&mut new_subs);
            proof {
                assert(d.subdocuments.deep_view() =~~= subs0 + newv);
                assert(d.subdocuments.deep_view() =~~= subs0 + spec_subdocuments(
                    dossier_id@,
                    rowsv[i as int].sub_rows,
                ));
            }
        }
        proof {
            assert(d.deep_view() =~~= spec_dossier_step(dossier_id@, d0, rowsv[i as int]));
        }
        i += 1;
    }
    d
}

} // verus!
