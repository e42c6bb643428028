use plenum::engine::{extract_commission_meeting, extract_meeting};
use plenum::records::{
    Commission, Date, ExtractError, Lang, Node, NodeKind, Span, TimeOfDay,
};
use plenum::votes::extract_voter_names;

fn span(lang: Lang, text: &str) -> Span {
    Span { lang, text: String::from(text) }
}

fn heading(text: &str) -> Node {
    Node {
        kind: NodeKind::Heading,
        text: String::from(text),
        spans: vec![span(Lang::Other, text)],
        rows: vec![],
    }
}

fn subheading(spans: Vec<Span>) -> Node {
    Node { kind: NodeKind::SubHeading, text: String::new(), spans, rows: vec![] }
}

fn paragraph(text: &str) -> Node {
    Node {
        kind: NodeKind::Paragraph,
        text: String::from(text),
        spans: vec![span(Lang::Other, text)],
        rows: vec![],
    }
}

fn table(text: &str, rows: Vec<Vec<&str>>, spans: Vec<Span>) -> Node {
    Node {
        kind: NodeKind::Table,
        text: String::from(text),
        spans,
        rows: rows
            .into_iter()
            .map(|r| r.into_iter().map(String::from).collect())
            .collect(),
    }
}

/// The header nodes every well-formed plenary document carries: the
/// first table with the printed date, the time-of-day marker, and the
/// opening and closing phrases.
fn plenary_header() -> Vec<Node> {
    vec![
        table(
            "Plenumvergadering",
            vec![],
            vec![span(Lang::Other, "Plenumvergadering donderdag 7 maart 2024")],
        ),
        paragraph("Namiddag"),
        paragraph("De vergadering wordt geopend om 14.15 uur."),
        paragraph("De vergadering wordt gesloten om 17.20 uur."),
    ]
}

fn grouped_question_nodes() -> Vec<Node> {
    vec![
        heading("Mondelinge vragen"),
        subheading(vec![
            span(Lang::Nl, "Samengevoegde vragen van"),
            span(Lang::Fr, "Questions jointes de"),
        ]),
        subheading(vec![
            span(
                Lang::Nl,
                "- Vraag van Jan Peeters aan de minister van Financiën (Open Vld) over \"De begroting\" (55001234A)",
            ),
            span(
                Lang::Fr,
                "- Question de Jan Peeters à le ministre des Finances (Open Vld) sur \"Le budget\" (55001234A)",
            ),
        ]),
        subheading(vec![
            span(
                Lang::Nl,
                "- Vraag van Marie Dubois aan de minister van Financiën (Open Vld) over \"De pensioenen\" (55005678B)",
            ),
            span(
                Lang::Fr,
                "- Question de Marie Dubois à le ministre des Finances (Open Vld) sur \"Les pensions\" (55005678B)",
            ),
        ]),
        paragraph("08.01 Jan Peeters: Eerste vraag."),
        paragraph("De voorzitter: Dank u."),
    ]
}

fn vote_section_nodes() -> Vec<Node> {
    vec![
        heading("Naamstemmingen"),
        subheading(vec![
            span(Lang::Nl, "Wetsontwerp over iets (123/4)"),
            span(Lang::Fr, "Projet de loi sur quelque chose (123/4)"),
        ]),
        table(
            "(Stemming/vote 1)",
            vec![
                vec!["(Stemming/vote 1)"],
                vec!["Ja", "80"],
                vec!["Nee", "40"],
                vec!["Onthoudingen", "5"],
            ],
            vec![],
        ),
        table(
            "Vote nominatif - Naamstemming: 1",
            vec![vec!["Ja", "80"]],
            vec![],
        ),
        paragraph("Peeters Jan, Dubois Marie"),
        table("", vec![vec!["Nee", "40"]], vec![]),
        paragraph("Smith John"),
        table("", vec![vec!["Onthoudingen", "5"]], vec![]),
        paragraph("Janssens Piet"),
    ]
}

fn full_document() -> Vec<Node> {
    let mut nodes = plenary_header();
    nodes.extend(grouped_question_nodes());
    nodes.extend(vote_section_nodes());
    nodes
}

#[test]
fn end_to_end_two_sections() {
    let nodes = full_document();
    let e = extract_meeting(&nodes, 56, 90).expect("document extracts");

    assert_eq!(e.meeting.session_id, 56);
    assert_eq!(e.meeting.meeting_id, 90);
    assert_eq!(e.meeting.date, Date { year: 2024, month: 3, day: 7 });
    assert_eq!(e.meeting.time_of_day, TimeOfDay::Afternoon);
    assert_eq!((e.meeting.start_time.hour, e.meeting.start_time.minute), (14, 15));
    assert_eq!((e.meeting.end_time.hour, e.meeting.end_time.minute), (17, 20));

    assert_eq!(e.questions.len(), 2);
    let q0 = &e.questions[0];
    let q1 = &e.questions[1];
    assert_eq!(q0.id, 0);
    assert_eq!(q1.id, 1);
    assert_eq!(q0.topic_nl, "De begroting");
    assert_eq!(q0.topic_fr, "Le budget");
    assert_eq!(q1.topic_nl, "De pensioenen");
    assert_eq!(q1.topic_fr, "Les pensions");
    assert_eq!(q0.questioners, vec![String::from("Jan Peeters")]);
    assert_eq!(q1.questioners, vec![String::from("Marie Dubois")]);
    assert_eq!(q0.dossier_ids, vec![String::from("Q55001234A")]);
    assert_eq!(q1.dossier_ids, vec![String::from("Q55005678B")]);
    assert_eq!(q0.respondents, vec![String::from("de minister van Financiën")]);
    assert_eq!(q0.discussion, q1.discussion);
    assert_eq!(q0.discussion.len(), 2);
    assert_eq!(q0.discussion[0].speaker, "Jan Peeters");
    assert_eq!(q0.discussion[0].text, "Eerste vraag.");
    assert_eq!(q0.discussion[1].speaker, "Voorzitter");
    assert_eq!(q0.discussion[1].text, "Dank u.");

    assert_eq!(e.propositions.len(), 0);

    assert_eq!(e.votes.len(), 1);
    let v = &e.votes[0];
    assert_eq!(v.id, 0);
    assert_eq!(v.title_nl, "Wetsontwerp over iets");
    assert_eq!(v.title_fr, "Projet de loi sur quelque chose");
    assert_eq!((v.yes, v.no, v.abstain), (80, 40, 5));
    assert_eq!(v.dossier_id, Some(String::from("123")));
    assert_eq!(v.document_id, Some(String::from("4")));
    assert_eq!(v.motion_id, None);
    assert_eq!(
        v.voters_yes,
        vec![String::from("Jan Peeters"), String::from("Marie Dubois")]
    );
    assert_eq!(v.voters_no, vec![String::from("John Smith")]);
    assert_eq!(v.voters_abstain, vec![String::from("Piet Janssens")]);
    assert!(!v.voters_yes.is_empty() && !v.voters_no.is_empty() && !v.voters_abstain.is_empty());
}

#[test]
fn engine_is_idempotent_on_identical_input() {
    let nodes = full_document();
    let first = extract_meeting(&nodes, 56, 90);
    let second = extract_meeting(&nodes, 56, 90);
    assert_eq!(first, second);
}

#[test]
fn no_recognised_sections_yield_no_entities() {
    let mut nodes = plenary_header();
    nodes.push(heading("Agenda"));
    nodes.push(paragraph("08.01 Jan Peeters: Tekst."));
    // A tally table outside any recognised section is not a vote.
    nodes.push(table(
        "(Stemming/vote 1)",
        vec![vec!["(Stemming/vote 1)"], vec!["Ja", "80"]],
        vec![],
    ));
    let e = extract_meeting(&nodes, 56, 90).expect("header extracts");
    assert_eq!(e.questions.len(), 0);
    assert_eq!(e.propositions.len(), 0);
    assert_eq!(e.votes.len(), 0);
}

#[test]
fn accumulator_start_sub_sub_start_flushes_two_groups() {
    let mut nodes = plenary_header();
    nodes.push(heading("Mondelinge vragen"));
    nodes.push(subheading(vec![span(
        Lang::Nl,
        "Vraag van Jan Peeters aan de minister van Werk (PS) over \"Banen\" (55000001A)",
    )]));
    nodes.push(subheading(vec![span(
        Lang::Nl,
        "- Vraag van An Maes aan de minister van Werk (PS) over \"Lonen\" (55000002B)",
    )]));
    nodes.push(subheading(vec![span(
        Lang::Nl,
        "- Vraag van Tom Claes aan de minister van Werk (PS) over \"Uren\" (55000003C)",
    )]));
    nodes.push(subheading(vec![span(
        Lang::Nl,
        "Vraag van Els Jacobs aan de minister van Werk (PS) over \"Verlof\" (55000004D)",
    )]));
    let e = extract_meeting(&nodes, 56, 90).expect("document extracts");
    // First group: three sub-questions in original order; second group: one.
    assert_eq!(e.questions.len(), 4);
    assert_eq!(e.questions[0].topic_nl, "Banen");
    assert_eq!(e.questions[1].topic_nl, "Lonen");
    assert_eq!(e.questions[2].topic_nl, "Uren");
    assert_eq!(e.questions[3].topic_nl, "Verlof");
    assert_eq!(e.questions[0].id, 0);
    assert_eq!(e.questions[3].id, 3);
}

#[test]
fn propositions_pair_by_line() {
    let mut nodes = plenary_header();
    nodes.push(heading("Wetsontwerpen en voorstellen"));
    nodes.push(subheading(vec![
        span(Lang::Nl, "Wetsvoorstel over arbeid (456/7)"),
        span(Lang::Fr, "Proposition de loi sur le travail (456/7)"),
    ]));
    let e = extract_meeting(&nodes, 56, 90).expect("document extracts");
    assert_eq!(e.propositions.len(), 1);
    let p = &e.propositions[0];
    assert_eq!(p.title_nl, "Wetsvoorstel over arbeid");
    assert_eq!(p.title_fr, "Proposition de loi sur le travail");
    assert_eq!(p.dossier_id, Some(String::from("456")));
    assert_eq!(p.document_id, Some(String::from("7")));
}

#[test]
fn missing_date_fails_the_document() {
    let nodes = vec![paragraph("Namiddag")];
    assert_eq!(extract_meeting(&nodes, 56, 90), Err(ExtractError::MissingDate));
}

#[test]
fn missing_time_of_day_fails_the_document() {
    let nodes = vec![table(
        "",
        vec![],
        vec![span(Lang::Other, "Plenumvergadering donderdag 7 maart 2024")],
    )];
    assert_eq!(extract_meeting(&nodes, 56, 90), Err(ExtractError::MissingTimeOfDay));
}

#[test]
fn missing_start_time_fails_the_document() {
    let nodes = vec![
        table(
            "",
            vec![],
            vec![span(Lang::Other, "Plenumvergadering donderdag 7 maart 2024")],
        ),
        paragraph("Namiddag"),
    ];
    assert_eq!(extract_meeting(&nodes, 56, 90), Err(ExtractError::MissingStartTime));
}

#[test]
fn missing_end_time_fails_the_document() {
    let nodes = vec![
        table(
            "",
            vec![],
            vec![span(Lang::Other, "Plenumvergadering donderdag 7 maart 2024")],
        ),
        paragraph("Namiddag"),
        paragraph("De vergadering wordt geopend om 14.15 uur."),
    ];
    assert_eq!(extract_meeting(&nodes, 56, 90), Err(ExtractError::MissingEndTime));
}

#[test]
fn zero_count_roster_is_empty_without_scanning() {
    let nodes = vec![
        table(
            "Vote nominatif - Naamstemming: 2",
            vec![vec!["Ja", "0"]],
            vec![],
        ),
        paragraph("Peeters Jan, Dubois Marie"),
    ];
    let (yes, no, abstain) = extract_voter_names(&nodes, "2");
    assert_eq!(yes, "");
    assert_eq!(no, "");
    assert_eq!(abstain, "");
}

#[test]
fn nonzero_count_roster_finds_names() {
    let nodes = vec![
        table(
            "Vote nominatif - Naamstemming: 2",
            vec![vec!["Ja", "2"]],
            vec![],
        ),
        paragraph("Peeters Jan, Dubois Marie"),
    ];
    let (yes, _, _) = extract_voter_names(&nodes, "2");
    assert_eq!(yes, "Peeters Jan,Dubois Marie");
}

#[test]
fn commission_document_extracts() {
    let nodes = vec![
        table(
            "Commissie",
            vec![],
            vec![span(
                Lang::Other,
                "Commissie voor Justitie woensdag 6 maart 2024",
            )],
        ),
        paragraph("Voormiddag"),
        paragraph(
            "De openbare commissievergadering wordt geopend om 10.05 uur en voorgezeten door de heer Koen Metsu.",
        ),
        paragraph("De openbare commissievergadering wordt gesloten om 12.30 uur."),
        subheading(vec![span(
            Lang::Nl,
            "Vraag van de heer Steven Coenegrachts aan de minister van Werk over \"Het banenverlies\" (nr. 6003263c)",
        )]),
        paragraph("01.01 Steven Coenegrachts: Mijn vraag."),
    ];
    let e = extract_commission_meeting(&nodes, 56, 17).expect("document extracts");
    assert_eq!(e.meeting.date, Date { year: 2024, month: 3, day: 6 });
    assert_eq!(e.meeting.time_of_day, TimeOfDay::Morning);
    assert_eq!((e.meeting.start_time.hour, e.meeting.start_time.minute), (10, 5));
    assert_eq!((e.meeting.end_time.hour, e.meeting.end_time.minute), (12, 30));
    assert_eq!(e.meeting.commission, Commission::Justitie);
    assert_eq!(e.meeting.chair, "Koen Metsu");
    assert_eq!(e.questions.len(), 1);
    assert_eq!(e.questions[0].questioners, vec![String::from("Steven Coenegrachts")]);
    assert_eq!(e.questions[0].topic_nl, "Het banenverlies");
    assert_eq!(e.questions[0].dossier_ids, vec![String::from("Q6003263c")]);
    assert_eq!(e.questions[0].discussion.len(), 1);
    assert_eq!(e.questions[0].discussion[0].speaker, "Steven Coenegrachts");
    assert_eq!(e.questions[0].discussion[0].text, "Mijn vraag.");
}

#[test]
fn commission_extraction_is_idempotent() {
    let nodes = vec![
        table(
            "Commissie",
            vec![],
            vec![span(
                Lang::Other,
                "Commissie voor Justitie woensdag 6 maart 2024",
            )],
        ),
        paragraph("Voormiddag"),
        paragraph("De vergadering wordt geopend om 10.05 uur, voorgezeten door mevrouw An Maes."),
        paragraph("De vergadering wordt gesloten om 12.30 uur."),
    ];
    assert_eq!(
        extract_commission_meeting(&nodes, 56, 17),
        extract_commission_meeting(&nodes, 56, 17)
    );
}
