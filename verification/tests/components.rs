use plenum::crawl::{filename_embedded_date, is_valid_date, new_boundary, should_refresh_dossier};
use plenum::discussion::segment_discussion;
use plenum::dossier::{
    parse_document_type, parse_dossier, parse_status, DossierPage, DossierRow, SubRow,
};
use plenum::lang::{dutch_language_to_language_code, dutch_month_to_number, translate_time_of_day};
use plenum::meeting::parse_commission_type;
use plenum::patterns::{
    extract_proposition_data, extract_question_data, extract_question_data_commission,
    extract_vote_data,
};
use plenum::records::{Commission, Date, DocumentStatus, DocumentType};
use plenum::text::{clean_text, convert_name};
use plenum::votes::extract_vote;

#[test]
fn clean_text_normalises_whitespace() {
    assert_eq!(clean_text("  een\ntekst\u{00AD} met\u{00A0}ruis  "), "een tekst met ruis");
}

#[test]
fn clean_text_empty_input_stays_empty() {
    assert_eq!(clean_text("   \n "), "");
}

#[test]
fn convert_name_reorders_last_first() {
    assert_eq!(convert_name("Peeters Jan"), "Jan Peeters");
}

#[test]
fn convert_name_single_token_unchanged() {
    assert_eq!(convert_name("Peeters"), "Peeters");
}

#[test]
fn convert_name_multiword_last_name() {
    assert_eq!(convert_name("Van der Berg Jan"), "Jan Van der Berg");
}

#[test]
fn convert_name_empty_is_empty() {
    assert_eq!(convert_name("   "), "");
}

#[test]
fn vote_data_with_dossier_and_document() {
    let v = extract_vote_data("Wetsontwerp XYZ (123/4)");
    assert_eq!(v.topic, "Wetsontwerp XYZ");
    assert_eq!(v.dossier_id, Some(String::from("123")));
    assert_eq!(v.document_id, Some(String::from("4")));
    assert_eq!(v.motion_id, None);
}

#[test]
fn vote_data_with_motion_number() {
    let v = extract_vote_data("Wetsontwerp XYZ (nr. 7)");
    assert_eq!(v.topic, "Wetsontwerp XYZ");
    assert_eq!(v.dossier_id, None);
    assert_eq!(v.document_id, None);
    assert_eq!(v.motion_id, Some(String::from("7")));
}

#[test]
fn vote_data_bare_title() {
    let v = extract_vote_data("Wetsontwerp XYZ");
    assert_eq!(v.topic, "Wetsontwerp XYZ");
    assert_eq!(v.dossier_id, None);
    assert_eq!(v.document_id, None);
    assert_eq!(v.motion_id, None);
}

#[test]
fn vote_data_document_range() {
    let v = extract_vote_data("Amendement (55/1-2)");
    assert_eq!(v.topic, "Amendement");
    assert_eq!(v.dossier_id, Some(String::from("55")));
    assert_eq!(v.document_id, Some(String::from("1-2")));
}

#[test]
fn vote_data_french_motion_marker() {
    let v = extract_vote_data("Motion de rejet (n° 12)");
    assert_eq!(v.topic, "Motion de rejet");
    assert_eq!(v.motion_id, Some(String::from("12")));
}

#[test]
fn proposition_data_with_ids() {
    let p = extract_proposition_data("Wetsvoorstel over iets belangrijks (456/7)");
    assert_eq!(p.topic, "Wetsvoorstel over iets belangrijks");
    assert_eq!(p.dossier_id, Some(String::from("456")));
    assert_eq!(p.document_id, Some(String::from("7")));
}

#[test]
fn proposition_data_without_keyword_keeps_topic() {
    let p = extract_proposition_data("Een ander agendapunt (456/7)");
    assert_eq!(p.topic, "Een ander agendapunt");
    assert_eq!(p.dossier_id, None);
    assert_eq!(p.document_id, None);
}

#[test]
fn proposition_data_bare_topic() {
    let p = extract_proposition_data("Voorstel tot wijziging van het reglement");
    assert_eq!(p.topic, "Voorstel tot wijziging van het reglement");
    assert_eq!(p.dossier_id, None);
}

#[test]
fn question_data_plenary_single() {
    let q = extract_question_data(
        "Vraag van Jan Peeters aan de minister van Financiën (Open Vld) over \"De begroting\" (55001234A)",
    );
    assert_eq!(q.questioners, vec![String::from("Jan Peeters")]);
    assert_eq!(q.respondents, vec![String::from("de minister van Financiën")]);
    assert_eq!(q.topics, vec![String::from("De begroting")]);
    assert_eq!(q.dossier_ids, vec![String::from("Q55001234A")]);
}

#[test]
fn question_data_plenary_group_dedups_respondents() {
    let text = "Samengevoegde vragen van\n- Vraag van Jan Peeters aan de minister van Werk (PS) over \"Banen\" (55000001A)\n- Vraag van Marie Dubois aan de minister van Werk (PS) over \"Emplois\" (55000002B)";
    let q = extract_question_data(text);
    assert_eq!(
        q.questioners,
        vec![String::from("Jan Peeters"), String::from("Marie Dubois")]
    );
    assert_eq!(q.respondents, vec![String::from("de minister van Werk")]);
    assert_eq!(q.topics, vec![String::from("Banen"), String::from("Emplois")]);
}

#[test]
fn question_data_plenary_typo_table_applies() {
    let q = extract_question_data(
        "Vraag van Steven Coengrachts aan de minister (X) over \"Iets\" (55009999C)",
    );
    assert_eq!(q.questioners, vec![String::from("Steven Coenegrachts")]);
}

#[test]
fn question_data_plenary_id_optional() {
    let q = extract_question_data("Vraag van Jan Peeters aan de minister (X) over \"Iets\"");
    assert_eq!(q.topics, vec![String::from("Iets")]);
    assert_eq!(q.dossier_ids, vec![String::from("")]);
}

#[test]
fn question_data_commission_requires_id() {
    let with_id = extract_question_data_commission(
        "Vraag van de heer Steven Coenegrachts aan de minister van Werk over 'Het banenverlies' (nr. 6003263c)",
    );
    assert_eq!(with_id.questioners, vec![String::from("Steven Coenegrachts")]);
    assert_eq!(with_id.topics, vec![String::from("Het banenverlies")]);
    assert_eq!(with_id.dossier_ids, vec![String::from("Q6003263c")]);
    let without_id = extract_question_data_commission(
        "Vraag van de heer Steven Coenegrachts aan de minister van Werk over 'Het banenverlies'",
    );
    assert_eq!(without_id.topics.len(), 0);
}

#[test]
fn discussion_two_turns() {
    let turns = segment_discussion("08.01 Jan Peeters: Hello.NEWPARAGRAPHDe voorzitter: Thank you.");
    assert_eq!(turns.len(), 2);
    assert_eq!(turns[0].speaker, "Jan Peeters");
    assert_eq!(turns[0].text, "Hello.");
    assert_eq!(turns[1].speaker, "Voorzitter");
    assert_eq!(turns[1].text, "Thank you.");
}

#[test]
fn discussion_strips_title_and_boilerplate() {
    let turns = segment_discussion(
        "05.02 Minister Els Jacobs: Antwoord. Het incident is gesloten.",
    );
    assert_eq!(turns.len(), 1);
    assert_eq!(turns[0].speaker, "Els Jacobs");
    assert_eq!(turns[0].text, "Antwoord.");
}

#[test]
fn discussion_timestamp_mid_text_is_no_boundary() {
    let turns = segment_discussion("08.01 Jan Peeters: Om 20.00 uur begint het.");
    assert_eq!(turns.len(), 1);
    assert_eq!(turns[0].speaker, "Jan Peeters");
    assert_eq!(turns[0].text, "Om 20.00 uur begint het.");
}

#[test]
fn discussion_empty_input_no_turns() {
    let turns = segment_discussion("");
    assert_eq!(turns.len(), 0);
}

#[test]
fn tally_table_reads_counts() {
    let rows = vec![
        vec![String::from("(Stemming/vote 3)")],
        vec![String::from("Ja"), String::from("80")],
        vec![String::from("Nee"), String::from("40")],
        vec![String::from("Onthoudingen"), String::from("5")],
    ];
    let t = extract_vote(&rows);
    assert_eq!(t.name, "Stemming 3");
    assert_eq!((t.yes, t.no, t.abstain), (80, 40, 5));
}

#[test]
fn tally_table_without_marker_is_ignored() {
    let rows = vec![
        vec![String::from("Agenda")],
        vec![String::from("Ja"), String::from("80")],
    ];
    let t = extract_vote(&rows);
    assert_eq!(t.name, "");
    assert_eq!((t.yes, t.no, t.abstain), (0, 0, 0));
}

#[test]
fn tally_table_unparseable_count_stays_zero() {
    let rows = vec![
        vec![String::from("(Stemming/vote 4)")],
        vec![String::from("Ja"), String::from("tachtig")],
        vec![String::from("Nee"), String::from("12")],
    ];
    let t = extract_vote(&rows);
    assert_eq!((t.yes, t.no, t.abstain), (0, 12, 0));
}

#[test]
fn month_names_map_to_numbers() {
    assert_eq!(dutch_month_to_number("maart"), Some(3));
    assert_eq!(dutch_month_to_number("December"), Some(12));
    assert_eq!(dutch_month_to_number("brumaire"), None);
}

#[test]
fn language_names_map_to_codes() {
    assert_eq!(dutch_language_to_language_code("Nederlands"), Some("NL"));
    assert_eq!(dutch_language_to_language_code("FRANS"), Some("FR"));
    assert_eq!(dutch_language_to_language_code("Duits"), None);
}

#[test]
fn time_of_day_translation() {
    assert_eq!(translate_time_of_day("morning"), "Voormiddag");
    assert_eq!(translate_time_of_day("namiddag"), "Namiddag");
    assert_eq!(translate_time_of_day("evening"), "Avond");
    assert_eq!(translate_time_of_day("noon"), "noon");
}

#[test]
fn status_classification() {
    assert_eq!(parse_status(" AANGENOMEN "), DocumentStatus::Aangenomen);
    assert_eq!(parse_status("verworpen"), DocumentStatus::Verworpen);
    assert_eq!(parse_status("zonder voorwerp"), DocumentStatus::ZonderVoorwerp);
    assert_eq!(parse_status("hangende"), DocumentStatus::Onbekend);
}

#[test]
fn document_type_classification() {
    assert_eq!(parse_document_type("Wetsontwerp"), DocumentType::WetsOntwerp);
    assert_eq!(
        parse_document_type("voorstel van resolutie"),
        DocumentType::VoorstelVanResolutie
    );
    assert_eq!(parse_document_type("Amendement"), DocumentType::Amendement);
    assert_eq!(parse_document_type("iets anders"), DocumentType::Unknown);
}

#[test]
fn commission_classification() {
    assert_eq!(
        parse_commission_type("Commissie voor Justitie"),
        Commission::Justitie
    );
    assert_eq!(
        parse_commission_type("Commissie voor Energie, Leefmilieu en Klimaat"),
        Commission::EnergieLeefmilieuEnKlimaat
    );
    assert_eq!(parse_commission_type("iets"), Commission::Onbekend);
}

#[test]
fn dossier_page_parses_fields_and_subdocuments() {
    let page = DossierPage {
        title: String::from("  Wetsontwerp over iets  "),
        rows: vec![
            DossierRow {
                label: String::from("Indieningsdatum"),
                value: String::from("7 maart 2024"),
                link_texts: vec![],
                text_nodes: vec![],
                sub_rows: vec![],
            },
            DossierRow {
                label: String::from("Auteur(s)"),
                value: String::from(""),
                link_texts: vec![String::from(" Peeters, Jan ")],
                text_nodes: vec![],
                sub_rows: vec![],
            },
            DossierRow {
                label: String::from("Document type"),
                value: String::from("Wetsontwerp"),
                link_texts: vec![],
                text_nodes: vec![],
                sub_rows: vec![],
            },
            DossierRow {
                label: String::from("Status"),
                value: String::from("Aangenomen"),
                link_texts: vec![],
                text_nodes: vec![],
                sub_rows: vec![],
            },
            DossierRow {
                label: String::from("Subdocumenten"),
                value: String::from(""),
                link_texts: vec![],
                text_nodes: vec![],
                sub_rows: vec![
                    SubRow {
                        has_second_cell: true,
                        label: String::from("55K0123001"),
                        value: String::from("Wetsontwerp"),
                        id_link: Some(String::from("55K0123001")),
                        type_text: Some(String::from("Wetsontwerp")),
                        author_link: None,
                    },
                    SubRow {
                        has_second_cell: true,
                        label: String::from("Datum ronddeling"),
                        value: String::from("8 maart 2024"),
                        id_link: None,
                        type_text: None,
                        author_link: None,
                    },
                    SubRow {
                        has_second_cell: true,
                        label: String::from("Auteur(s)"),
                        value: String::from("Peeters, Jan"),
                        id_link: None,
                        type_text: None,
                        author_link: Some(String::from("Peeters, Jan")),
                    },
                    SubRow {
                        has_second_cell: false,
                        label: String::from(""),
                        value: String::from(""),
                        id_link: None,
                        type_text: None,
                        author_link: None,
                    },
                ],
            },
        ],
    };
    let d = parse_dossier("123", &page);
    assert_eq!(d.title, "Wetsontwerp over iets");
    assert_eq!(d.submission_date, "7 maart 2024");
    assert_eq!(d.authors, vec![String::from("Peeters Jan")]);
    assert_eq!(d.document_type, DocumentType::WetsOntwerp);
    assert_eq!(d.status, DocumentStatus::Aangenomen);
    assert_eq!(d.subdocuments.len(), 1);
    assert_eq!(d.subdocuments[0].dossier_id, "123");
    assert_eq!(d.subdocuments[0].id, "55K0123001");
    assert_eq!(d.subdocuments[0].date, "8 maart 2024");
    assert_eq!(d.subdocuments[0].document_type, DocumentType::WetsOntwerp);
    assert_eq!(d.subdocuments[0].authors, vec![String::from("Peeters Jan")]);
}

#[test]
fn dossier_incomplete_subdocument_not_emitted() {
    let page = DossierPage {
        title: String::from("T"),
        rows: vec![DossierRow {
            label: String::from("Subdocumenten"),
            value: String::from(""),
            link_texts: vec![],
            text_nodes: vec![],
            sub_rows: vec![
                SubRow {
                    has_second_cell: true,
                    label: String::from("x"),
                    value: String::from("y"),
                    id_link: Some(String::from("55K0123002")),
                    type_text: None,
                    author_link: None,
                },
                SubRow {
                    has_second_cell: false,
                    label: String::from(""),
                    value: String::from(""),
                    id_link: None,
                    type_text: None,
                    author_link: None,
                },
            ],
        }],
    };
    let d = parse_dossier("123", &page);
    assert_eq!(d.subdocuments.len(), 0);
}

#[test]
fn boundary_extends_over_found_prefix() {
    assert_eq!(new_boundary(74, &vec![true, true, false, true]), 76);
    assert_eq!(new_boundary(74, &vec![false]), 74);
    assert_eq!(new_boundary(74, &vec![]), 74);
}

#[test]
fn staleness_refetches_when_meeting_is_newer_or_same() {
    let meeting = Date { year: 2024, month: 3, day: 7 };
    let older = Date { year: 2024, month: 2, day: 20 };
    let same = Date { year: 2024, month: 3, day: 7 };
    let newer = Date { year: 2024, month: 3, day: 8 };
    assert!(should_refresh_dossier(meeting, older));
    assert!(should_refresh_dossier(meeting, same));
    assert!(!should_refresh_dossier(meeting, newer));
}

#[test]
fn filename_date_is_read_and_validated() {
    assert_eq!(
        filename_embedded_date("56_123_2024-03-07.html"),
        Some(Date { year: 2024, month: 3, day: 7 })
    );
    assert_eq!(filename_embedded_date("56_123.html"), None);
    assert_eq!(filename_embedded_date("56_123_2024-13-07.html"), None);
}

#[test]
fn calendar_validity() {
    assert!(is_valid_date(Date { year: 2024, month: 2, day: 29 }));
    assert!(!is_valid_date(Date { year: 2023, month: 2, day: 29 }));
    assert!(!is_valid_date(Date { year: 2023, month: 4, day: 31 }));
}

use plenum::text::{slugify_name, strip_markdown};

#[test]
fn slugify_transliterates_and_hyphenates() {
    assert_eq!(slugify_name("Céline Müller"), "celine-mueller");
    assert_eq!(slugify_name("  Jan  Peeters "), "jan--peeters");
    assert_eq!(slugify_name("O'Brien"), "obrien");
}

#[test]
fn strip_markdown_removes_double_markers() {
    assert_eq!(strip_markdown("**Belangrijk** en __ook dit__"), "Belangrijk en ook dit");
    assert_eq!(strip_markdown(" *enkel* blijft "), "*enkel* blijft");
}
