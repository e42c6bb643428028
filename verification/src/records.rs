//! The data model: the block-level node shape that a parsed transcript
//! document is reduced to before extraction, and the typed records the
//! extraction engine produces. Each type carries a mathematical view
//! (`deep_view`) over which all contracts are stated.
use vstd::prelude::*;

verus! {

/// The block-level shape of one document node. Headings open and close
/// topical sections, sub-headings carry bilingual item titles, tables
/// carry roll-call tallies, paragraphs carry discussion text.
#[derive(Clone, Copy, Debug, PartialEq, Eq)]
pub enum NodeKind {
    Heading,
    SubHeading,
    Paragraph,
    Table,
}

/// The language a span of a sub-heading claims to be written in. The
/// claim is unreliable and is re-checked against indicator words.
#[derive(Clone, Copy, Debug, PartialEq, Eq)]
pub enum Lang {
    Nl,
    Fr,
    Other,
}

/// One language-tagged span of a sub-heading.
#[derive(Clone, Debug, PartialEq, Eq)]
pub struct Span {
    pub lang: Lang,
    pub text: String,
}

#[verifier::ext_equal]
pub struct SpanV {
    pub lang: Lang,
    pub text: Seq<char>,
}

impl DeepView for Span {
    type V = SpanV;

    open spec fn deep_view(&self) -> SpanV {
        SpanV { lang: self.lang, text: self.text@ }
    }
}

/// One block-level node of a parsed document: its kind, its full text
/// content, its language-tagged spans (sub-headings), and its rows of
/// cell texts (tables). Fields that a kind does not use are empty.
#[derive(Clone, Debug, PartialEq, Eq)]
pub struct Node {
    pub kind: NodeKind,
    pub text: String,
    pub spans: Vec<Span>,
    pub rows: Vec<Vec<String>>,
}

#[verifier::ext_equal]
pub struct NodeV {
    pub kind: NodeKind,
    pub text: Seq<char>,
    pub spans: Seq<SpanV>,
    pub rows: Seq<Seq<Seq<char>>>,
}

impl DeepView for Node {
    type V = NodeV;

    open spec fn deep_view(&self) -> NodeV {
        NodeV {
            kind: self.kind,
            text: self.text@,
            spans: self.spans.deep_view(),
            rows: self.rows.deep_view(),
        }
    }
}

/// Which part of the day a sitting took place in.
#[derive(Clone, Copy, Debug, PartialEq, Eq)]
pub enum TimeOfDay {
    Morning,
    Afternoon,
    Evening,
}

/// A calendar date as the transcripts state it; day and month are kept
/// exactly as printed.
#[derive(Clone, Copy, Debug, PartialEq, Eq)]
pub struct Date {
    pub year: u32,
    pub month: u32,
    pub day: u32,
}

/// A wall-clock time as the transcripts state it.
#[derive(Clone, Copy, Debug, PartialEq, Eq)]
pub struct ClockTime {
    pub hour: u32,
    pub minute: u32,
}

/// One plenary sitting.
#[derive(Clone, Copy, Debug, PartialEq, Eq)]
pub struct Meeting {
    pub session_id: u32,
    pub meeting_id: u32,
    pub date: Date,
    pub time_of_day: TimeOfDay,
    pub start_time: ClockTime,
    pub end_time: ClockTime,
}

/// One speaker turn of a discussion transcript.
#[derive(Clone, Debug, PartialEq, Eq)]
pub struct DiscussionTurn {
    pub speaker: String,
    pub text: String,
}

#[verifier::ext_equal]
pub struct DiscussionTurnV {
    pub speaker: Seq<char>,
    pub text: Seq<char>,
}

impl DeepView for DiscussionTurn {
    type V = DiscussionTurnV;

    open spec fn deep_view(&self) -> DiscussionTurnV {
        DiscussionTurnV { speaker: self.speaker@, text: self.text@ }
    }
}

/// One oral question; a grouped heading yields one record per embedded
/// sub-question, all sharing the same discussion.
#[derive(Clone, Debug, PartialEq, Eq)]
pub struct Question {
    pub id: u32,
    pub topic_nl: String,
    pub topic_fr: String,
    pub questioners: Vec<String>,
    pub respondents: Vec<String>,
    pub dossier_ids: Vec<String>,
    pub discussion: Vec<DiscussionTurn>,
}

#[verifier::ext_equal]
pub struct QuestionV {
    pub id: u32,
    pub topic_nl: Seq<char>,
    pub topic_fr: Seq<char>,
    pub questioners: Seq<Seq<char>>,
    pub respondents: Seq<Seq<char>>,
    pub dossier_ids: Seq<Seq<char>>,
    pub discussion: Seq<DiscussionTurnV>,
}

impl DeepView for Question {
    type V = QuestionV;

    open spec fn deep_view(&self) -> QuestionV {
        QuestionV {
            id: self.id,
            topic_nl: self.topic_nl@,
            topic_fr: self.topic_fr@,
            questioners: self.questioners.deep_view(),
            respondents: self.respondents.deep_view(),
            dossier_ids: self.dossier_ids.deep_view(),
            discussion: self.discussion.deep_view(),
        }
    }
}

/// One legislative proposition announced in a sitting.
#[derive(Clone, Debug, PartialEq, Eq)]
pub struct Proposition {
    pub id: u32,
    pub title_nl: String,
    pub title_fr: String,
    pub dossier_id: Option<String>,
    pub document_id: Option<String>,
}

#[verifier::ext_equal]
pub struct PropositionV {
    pub id: u32,
    pub title_nl: Seq<char>,
    pub title_fr: Seq<char>,
    pub dossier_id: Option<Seq<char>>,
    pub document_id: Option<Seq<char>>,
}

impl DeepView for Proposition {
    type V = PropositionV;

    open spec fn deep_view(&self) -> PropositionV {
        PropositionV {
            id: self.id,
            title_nl: self.title_nl@,
            title_fr: self.title_fr@,
            dossier_id: self.dossier_id.deep_view(),
            document_id: self.document_id.deep_view(),
        }
    }
}

/// One roll-call vote: its bilingual title, its tallies, the resolved
/// voter rosters, and whichever identifiers its title carried. Absent
/// identifiers are valid, not an error.
#[derive(Clone, Debug, PartialEq, Eq)]
pub struct Vote {
    pub id: u32,
    pub title_nl: String,
    pub title_fr: String,
    pub yes: u32,
    pub no: u32,
    pub abstain: u32,
    pub voters_yes: Vec<String>,
    pub voters_no: Vec<String>,
    pub voters_abstain: Vec<String>,
    pub dossier_id: Option<String>,
    pub document_id: Option<String>,
    pub motion_id: Option<String>,
}

#[verifier::ext_equal]
pub struct VoteV {
    pub id: u32,
    pub title_nl: Seq<char>,
    pub title_fr: Seq<char>,
    pub yes: u32,
    pub no: u32,
    pub abstain: u32,
    pub voters_yes: Seq<Seq<char>>,
    pub voters_no: Seq<Seq<char>>,
    pub voters_abstain: Seq<Seq<char>>,
    pub dossier_id: Option<Seq<char>>,
    pub document_id: Option<Seq<char>>,
    pub motion_id: Option<Seq<char>>,
}

impl DeepView for Vote {
    type V = VoteV;

    open spec fn deep_view(&self) -> VoteV {
        VoteV {
            id: self.id,
            title_nl: self.title_nl@,
            title_fr: self.title_fr@,
            yes: self.yes,
            no: self.no,
            abstain: self.abstain,
            voters_yes: self.voters_yes.deep_view(),
            voters_no: self.voters_no.deep_view(),
            voters_abstain: self.voters_abstain.deep_view(),
            dossier_id: self.dossier_id.deep_view(),
            document_id: self.document_id.deep_view(),
            motion_id: self.motion_id.deep_view(),
        }
    }
}

/// Final state of a dossier as its detail page states it.
#[derive(Clone, Copy, Debug, PartialEq, Eq)]
pub enum DocumentStatus {
    ZonderVoorwerp,
    Verworpen,
    Aangenomen,
    Onbekend,
}

/// Kind of a dossier or of one of its sub-documents, classified by
/// substring matching against a closed keyword table.
#[derive(Clone, Copy, Debug, PartialEq, Eq)]
pub enum DocumentType {
    AangenomenTekst,
    Amendement,
    Advies,
    AdviesVanDeRaadVanState,
    Verslag,
    WetsOntwerp,
    OvergezondenOntwerp,
    WetsVoorstel,
    VoorstelVanResolutie,
    VoorstelTotHerziening,
    VoorstelOnderzoekscommissie,
    VoorstelReglement,
    ArtikelenBijEersteStemmingAangenomen,
    Unknown,
}

/// One sub-document (amendment, report, opinion) of a dossier.
#[derive(Clone, Debug, PartialEq, Eq)]
pub struct Subdocument {
    pub dossier_id: String,
    pub id: String,
    pub document_type: DocumentType,
    pub date: String,
    pub authors: Vec<String>,
}

#[verifier::ext_equal]
pub struct SubdocumentV {
    pub dossier_id: Seq<char>,
    pub id: Seq<char>,
    pub document_type: DocumentType,
    pub date: Seq<char>,
    pub authors: Seq<Seq<char>>,
}

impl DeepView for Subdocument {
    type V = SubdocumentV;

    open spec fn deep_view(&self) -> SubdocumentV {
        SubdocumentV {
            dossier_id: self.dossier_id@,
            id: self.id@,
            document_type: self.document_type,
            date: self.date@,
            authors: self.authors.deep_view(),
        }
    }
}

/// One legislative dossier with its sub-documents, as parsed from its
/// detail page.
#[derive(Clone, Debug, PartialEq, Eq)]
pub struct Dossier {
    pub title: String,
    pub authors: Vec<String>,
    pub submission_date: String,
    pub end_date: String,
    pub vote_date: String,
    pub document_type: DocumentType,
    pub status: DocumentStatus,
    pub subdocuments: Vec<Subdocument>,
}

#[verifier::ext_equal]
pub struct DossierV {
    pub title: Seq<char>,
    pub authors: Seq<Seq<char>>,
    pub submission_date: Seq<char>,
    pub end_date: Seq<char>,
    pub vote_date: Seq<char>,
    pub document_type: DocumentType,
    pub status: DocumentStatus,
    pub subdocuments: Seq<SubdocumentV>,
}

impl DeepView for Dossier {
    type V = DossierV;

    open spec fn deep_view(&self) -> DossierV {
        DossierV {
            title: self.title@,
            authors: self.authors.deep_view(),
            submission_date: self.submission_date@,
            end_date: self.end_date@,
            vote_date: self.vote_date@,
            document_type: self.document_type,
            status: self.status,
            subdocuments: self.subdocuments.deep_view(),
        }
    }
}

/// Which committee a committee sitting belonged to.
#[derive(Clone, Copy, Debug, PartialEq, Eq)]
pub enum Commission {
    Landsverdediging,
    Justitie,
    BuitenlandseBetrekkingen,
    FinancienEnBegroting,
    SocialeZakenWerkEnPensioenen,
    BinnenlandseZakenVeiligheidMigratieEnBestuurszaken,
    EconomieConsumentenBeschermingEnDigitalisering,
    MobiliteitOverheidsbedrijvenEnFederaleInstellingen,
    GezondheidEnGelijkeKansen,
    EnergieLeefmilieuEnKlimaat,
    InterparlementaireKlimaatdialoog,
    Onbekend,
}

/// Why a document could not be extracted. Only genuinely absent
/// required structure fails a document; malformed but present text
/// never does.
#[derive(Clone, Copy, Debug, PartialEq, Eq)]
pub enum ExtractError {
    MissingDate,
    MissingTimeOfDay,
    MissingStartTime,
    MissingEndTime,
    MissingCommission,
    MissingChair,
}

} // verus!
