//! The document extraction engine: one stateful scan per entity kind
//! over the classified node sequence, driven by the section scanner,
//! the bilingual group accumulator, the pattern rule chains, the
//! discussion segmenter and the roster resolver. Every record the
//! engine produces is a function of the document's nodes and the two
//! identifiers alone, so re-running it on byte-identical input yields
//! identical output.
use crate::accumulate::{
    heading_texts, question_role, spec_heading_norm, spec_heading_texts, spec_last_lang_text,
    spec_qacc_empty, spec_qacc_finish, spec_qacc_step, spec_question_role, ItemKind, QAccV, Role,
};
use crate::discussion::{segment_discussion, spec_segment_discussion};
use crate::meeting::{
    extract_chair_from_document, extract_commission_end_time, extract_commission_from_document,
    extract_commission_start_time, extract_date_from_document, extract_end_time_from_document,
    extract_start_time_from_document, extract_time_of_day_from_document, spec_commission_end_time,
    spec_commission_start_time, spec_end_time, spec_extract_chair, spec_extract_commission,
    spec_extract_date, spec_start_time, spec_time_of_day,
};
use crate::patterns::{
    extract_proposition_data, extract_question_data, extract_question_data_commission,
    extract_vote_data, spec_proposition_data, spec_question_data, spec_vote_data, QuestionDataV,
};
use crate::records::{
    ClockTime, Commission, Date, DiscussionTurn, DiscussionTurnV, ExtractError, Meeting, Node,
    NodeKind, NodeV, Proposition, PropositionV, Question, QuestionV, TimeOfDay, Vote, VoteV,
};
use crate::section::{scan_sections, spec_match_section, spec_scan_sections, SectionKind};
use crate::text::{
    chars_of, clean_chars, push_all, replace_all, spec_clean_text, spec_convert_name,
    spec_replace_all, spec_split, spec_starts_with, spec_trim, split_on, starts_with_sub,
    string_of, trim_chars, convert_name_chars,
    quote_norm,
};
use crate::votes::{extract_vote, extract_voter_names, spec_extract_vote, spec_extract_voter_names};
use vstd::prelude::*;

verus! {

/// Everything extracted from one plenary document.
#[derive(Clone, Debug, PartialEq, Eq)]
pub struct MeetingExtract {
    pub meeting: Meeting,
    pub questions: Vec<Question>,
    pub propositions: Vec<Proposition>,
    pub votes: Vec<Vote>,
}

#[verifier::ext_equal]
pub struct MeetingExtractV {
    pub meeting: Meeting,
    pub questions: Seq<QuestionV>,
    pub propositions: Seq<PropositionV>,
    pub votes: Seq<VoteV>,
}

impl DeepView for MeetingExtract {
    type V = MeetingExtractV;

    open spec fn deep_view(&self) -> MeetingExtractV {
        MeetingExtractV {
            meeting: self.meeting,
            questions: self.questions.deep_view(),
            propositions: self.propositions.deep_view(),
            votes: self.votes.deep_view(),
        }
    }
}

/// One committee sitting.
#[derive(Clone, Debug, PartialEq, Eq)]
pub struct CommissionMeeting {
    pub session_id: u32,
    pub commission_id: u32,
    pub date: Date,
    pub time_of_day: TimeOfDay,
    pub start_time: ClockTime,
    pub end_time: ClockTime,
    pub commission: Commission,
    pub chair: String,
}

#[verifier::ext_equal]
pub struct CommissionMeetingV {
    pub session_id: u32,
    pub commission_id: u32,
    pub date: Date,
    pub time_of_day: TimeOfDay,
    pub start_time: ClockTime,
    pub end_time: ClockTime,
    pub commission: Commission,
    pub chair: Seq<char>,
}

impl DeepView for CommissionMeeting {
    type V = CommissionMeetingV;

    open spec fn deep_view(&self) -> CommissionMeetingV {
        CommissionMeetingV {
            session_id: self.session_id,
            commission_id: self.commission_id,
            date: self.date,
            time_of_day: self.time_of_day,
            start_time: self.start_time,
            end_time: self.end_time,
            commission: self.commission,
            chair: self.chair@,
        }
    }
}

/// Everything extracted from one committee document.
#[derive(Clone, Debug, PartialEq, Eq)]
pub struct CommissionExtract {
    pub meeting: CommissionMeeting,
    pub questions: Vec<Question>,
}

#[verifier::ext_equal]
pub struct CommissionExtractV {
    pub meeting: CommissionMeetingV,
    pub questions: Seq<QuestionV>,
}

impl DeepView for CommissionExtract {
    type V = CommissionExtractV;

    open spec fn deep_view(&self) -> CommissionExtractV {
        CommissionExtractV { meeting: self.meeting.deep_view(), questions: self.questions.deep_view() }
    }
}

/// Sequential identifiers, saturating far beyond any real document's
/// item count.
pub open spec fn spec_sat_add(base: u32, n: int) -> u32 {
    if base + n <= u32::MAX {
        (base + n) as u32
    } else {
        u32::MAX
    }
}

/// The state of the question pass: the group accumulator, the
/// discussion paragraphs gathered since the last flush, the next
/// record identifier, and the questions produced so far.
#[verifier::ext_equal]
pub struct QPassV {
    pub acc: QAccV,
    pub disc: Seq<char>,
    pub next_id: u32,
    pub questions: Seq<QuestionV>,
}

pub open spec fn spec_qpass_init() -> QPassV {
    QPassV { acc: spec_qacc_empty(), disc: Seq::empty(), next_id: 0, questions: Seq::empty() }
}

/// The question records of one flushed group: one record per embedded
/// sub-question match on either language side, sharing the segmented
/// discussion; sides that matched fewer sub-questions contribute empty
/// fields rather than losing the record.
pub open spec fn spec_group_questions(
    qnl: QuestionDataV,
    qfr: QuestionDataV,
    turns: Seq<DiscussionTurnV>,
    base: u32,
    j: int,
    n: int,
) -> Seq<QuestionV>
    decreases n - j when 0 <= j <= n
{
    if j >= n {
        Seq::empty()
    } else {
        seq![
            QuestionV {
                id: spec_sat_add(base, j),
                topic_nl: if j < qnl.topics.len() {
                    qnl.topics[j]
                } else {
                    Seq::empty()
                },
                topic_fr: if j < qfr.topics.len() {
                    qfr.topics[j]
                } else {
                    Seq::empty()
                },
                questioners: if j < qnl.questioners.len() {
                    seq![qnl.questioners[j]]
                } else {
                    Seq::empty()
                },
                respondents: qnl.respondents,
                dossier_ids: if j < qnl.dossier_ids.len() && qnl.dossier_ids[j].len() > 0 {
                    seq![qnl.dossier_ids[j]]
                } else {
                    Seq::empty()
                },
                discussion: turns,
            },
        ] + spec_group_questions(qnl, qfr, turns, base, j + 1, n)
    }
}

/// How many question records a flushed group yields: one per
/// sub-question on the longer language side.
pub open spec fn spec_group_len(qnl: QuestionDataV, qfr: QuestionDataV) -> int {
    if qnl.topics.len() >= qfr.topics.len() {
        qnl.topics.len() as int
    } else {
        qfr.topics.len() as int
    }
}

/// A flush applied to the pass state: the buffered group is run
/// through the question rule chain per language, the gathered
/// discussion is segmented and shared by the group's records, and the
/// discussion buffer is cleared.
pub open spec fn spec_qflush(
    st: QPassV,
    flush: Option<(Seq<char>, Seq<char>)>,
    commission: bool,
) -> QPassV {
    match flush {
        Option::None => st,
        Option::Some(pair) => {
            let qnl = spec_question_data(pair.0, commission);
            let qfr = spec_question_data(pair.1, commission);
            let turns = spec_segment_discussion(st.disc);
            let n = spec_group_len(qnl, qfr);
            QPassV {
                acc: st.acc,
                disc: Seq::empty(),
                next_id: spec_sat_add(st.next_id, n),
                questions: st.questions + spec_group_questions(qnl, qfr, turns, st.next_id, 0, n),
            }
        },
    }
}

/// One node applied to the question pass. Inside the questions
/// section, a sub-heading drives the group accumulator (a flush event
/// emits the group's records) and a non-blank paragraph extends the
/// discussion buffer; the first node outside the section flushes any
/// buffered group.
pub open spec fn spec_qpass_step(
    st: QPassV,
    node: NodeV,
    class: SectionKind,
    kind: ItemKind,
) -> QPassV {
    let commission = kind == ItemKind::CommissionQuestion;
    if class == SectionKind::Questions {
        if node.kind == NodeKind::SubHeading {
            let texts = spec_heading_texts(node.spans, kind);
            let role = spec_question_role(texts.0, texts.1, kind);
            let sr = spec_qacc_step(st.acc, texts.0, texts.1, role);
            let st2 = spec_qflush(st, sr.1, commission);
            QPassV { acc: sr.0, ..st2 }
        } else if node.kind == NodeKind::Paragraph && spec_trim(node.text).len() > 0 {
            QPassV { disc: st.disc + spec_clean_text(node.text) + "NEWPARAGRAPH"@, ..st }
        } else {
            st
        }
    } else {
        let st2 = spec_qflush(st, spec_qacc_finish(st.acc), commission);
        QPassV { acc: spec_qacc_empty(), ..st2 }
    }
}

pub open spec fn spec_qpass_fold(
    nodes: Seq<NodeV>,
    classes: Seq<SectionKind>,
    i: int,
    st: QPassV,
    kind: ItemKind,
) -> QPassV
    decreases nodes.len() - i when 0 <= i <= nodes.len() && classes.len() == nodes.len()
{
    if i >= nodes.len() {
        st
    } else {
        spec_qpass_fold(nodes, classes, i + 1, spec_qpass_step(st, nodes[i], classes[i], kind), kind)
    }
}

/// All question records of a document: the pass over every node, with
/// one final flush for a group still buffered at the end.
pub open spec fn spec_questions(
    nodes: Seq<NodeV>,
    classes: Seq<SectionKind>,
    kind: ItemKind,
) -> Seq<QuestionV> {
    let st = spec_qpass_fold(nodes, classes, 0, spec_qpass_init(), kind);
    spec_qflush(st, spec_qacc_finish(st.acc), kind == ItemKind::CommissionQuestion).questions
}

} // verus!

verus! {

/// A copy of a string list with the same contents.
fn clone_strings(v: &Vec<String>) -> (r: Vec<String>)
    ensures
        r.deep_view() == v.deep_view(),
{
    let mut r: Vec<String> = Vec::new();
    let mut i: usize = 0;
    while i < v.len()
        invariant
            i <= v.len(),
            r.deep_view() =~~= v.deep_view().subrange(0, i as int),
        decreases v.len() - i,
    {
        let ghost r0 = r.deep_view();
        r.push(v[i].clone());
        proof {
            assert(r.deep_view() =~~= r0.push(v.deep_view()[i as int]));
            assert(v.deep_view().subrange(0, i + 1) =~~= v.deep_view().subrange(0, i as int).push(
                v.deep_view()[i as int],
            ));
        }
        i += 1;
    }
    assert(v.deep_view().subrange(0, v.deep_view().len() as int) =~~= v.deep_view());
    r
}

/// A copy of a turn list with the same contents.
fn clone_turns(v: &Vec<DiscussionTurn>) -> (r: Vec<DiscussionTurn>)
    ensures
        r.deep_view() == v.deep_view(),
{
    let mut r: Vec<DiscussionTurn> = Vec::new();
    let mut i: usize = 0;
    while i < v.len()
        invariant
            i <= v.len(),
            r.deep_view() =~~= v.deep_view().subrange(0, i as int),
        decreases v.len() - i,
    {
        let ghost r0 = r.deep_view();
        r.push(DiscussionTurn { speaker: v[i].speaker.clone(), text: v[i].text.clone() });
        proof {
            assert(v.deep_view()[i as int] == v@[i as int].deep_view());
            assert(r.deep_view() =~~= r0.push(v.deep_view()[i as int]));
            assert(v.deep_view().subrange(0, i + 1) =~~= v.deep_view().subrange(0, i as int).push(
                v.deep_view()[i as int],
            ));
        }
        i += 1;
    }
    assert(v.deep_view().subrange(0, v.deep_view().len() as int) =~~= v.deep_view());
    r
}

fn sat_inc(n: u32) -> (r: u32)
    ensures
        r as int == if n < u32::MAX {
            n + 1
        } else {
            n as int
        },
{
    if n < u32::MAX {
        n + 1
    } else {
        n
    }
}

/// The character count of a string (its view's length).
fn char_len(s: &String) -> (r: usize)
    ensures
        r == s@.len(),
{
    s.as_str().unicode_len()
}

/// Emits the question records of one flushed group and the identifier
/// that follows them.
fn emit_group(nl: &Vec<char>, fr: &Vec<char>, disc: &Vec<char>, base: u32, commission: bool) -> (r:
    (Vec<Question>, u32))
    ensures
        ({
            let qnl = spec_question_data(nl@, commission);
            let qfr = spec_question_data(fr@, commission);
            let turns = spec_segment_discussion(disc@);
            let n = spec_group_len(qnl, qfr);
            &&& r.0.deep_view() == spec_group_questions(qnl, qfr, turns, base, 0, n)
            &&& r.1 == spec_sat_add(base, n)
        }),
{
    let nl_s = string_of(nl);
    let fr_s = string_of(fr);
    let disc_s = string_of(disc);
    let qnl = if commission {
        extract_question_data_commission(nl_s.as_str())
    } else {
        extract_question_data(nl_s.as_str())
    };
    let qfr = if commission {
        extract_question_data_commission(fr_s.as_str())
    } else {
        extract_question_data(fr_s.as_str())
    };
    let turns = segment_discussion(disc_s.as_str());
    let n: usize = if qnl.topics.len() >= qfr.topics.len() {
        qnl.topics.len()
    } else {
        qfr.topics.len()
    };
    let ghost qnlv = qnl.deep_view();
    let ghost qfrv = qfr.deep_view();
    let ghost turnsv = turns.deep_view();
    let ghost gn = spec_group_len(qnlv, qfrv);
    assert(gn == n as int);
    let mut out: Vec<Question> = Vec::new();
    let mut cur: u32 = base;
    let mut j: usize = 0;
    while j < n
        invariant
            j <= n,
            gn == n as int,
            qnlv == qnl.deep_view(),
            qfrv == qfr.deep_view(),
            turnsv == turns.deep_view(),
            cur == spec_sat_add(base, j as int),
            spec_group_questions(qnlv, qfrv, turnsv, base, 0, gn) =~~= out.deep_view()
                + spec_group_questions(qnlv, qfrv, turnsv, base, j as int, gn),
        decreases n - j,
    {
        let ghost out0 = out.deep_view();
        let topic_nl: String = if j < qnl.topics.len() {
            qnl.topics[j].clone()
        } else {
            String::new()
        };
        let topic_fr: String = if j < qfr.topics.len() {
            qfr.topics[j].clone()
        } else {
            String::new()
        };
        let questioners: Vec<String> = if j < qnl.questioners.len() {
            let mut qs: Vec<String> = Vec::new();
            qs.push(qnl.questioners[j].clone());
            qs
        } else {
            Vec::new()
        };
        let dossier_ids: Vec<String> = if j < qnl.dossier_ids.len() && char_len(
            &qnl.dossier_ids[j],
        ) > 0 {
            let mut ds: Vec<String> = Vec::new();
            ds.push(qnl.dossier_ids[j].clone());
            ds
        } else {
            Vec::new()
        };
        let q = Question {
            id: cur,
            topic_nl,
            topic_fr,
            questioners,
            respondents: clone_strings(&qnl.respondents),
            dossier_ids,
            discussion: clone_turns(&turns),
        };
        proof {
            if j < qnl.topics.len() {
                assert(qnl.deep_view().topics[j as int] == qnl.topics@[j as int]@);
            }
            if j < qnl.questioners.len() {
                assert(qnl.deep_view().questioners[j as int] == qnl.questioners@[j as int]@);
            }
            if j < qnl.dossier_ids.len() {
                assert(qnl.deep_view().dossier_ids[j as int] == qnl.dossier_ids@[j as int]@);
            }
            if j < qfr.topics.len() {
                assert(qfr.deep_view().topics[j as int] == qfr.topics@[j as int]@);
            }
        }
        assert(q.deep_view() =~~= spec_group_questions(qnlv, qfrv, turnsv, base, j as int, gn)[0]);
        out.push(q);
        proof {
            assert(out.deep_view() =~~= out0.push(
                spec_group_questions(qnlv, qfrv, turnsv, base, j as int, gn)[0],
            ));
            assert(out.deep_view() + spec_group_questions(qnlv, qfrv, turnsv, base, j + 1, gn)
                =~~= out0 + spec_group_questions(qnlv, qfrv, turnsv, base, j as int, gn));
        }
        cur = sat_inc(cur);
        j += 1;
    }
    proof {
        assert(spec_group_questions(qnlv, qfrv, turnsv, base, gn, gn) =~~= Seq::<QuestionV>::empty());
        assert(out.deep_view() =~~= spec_group_questions(qnlv, qfrv, turnsv, base, 0, gn));
    }
    (out, cur)
}

/// Runs the question pass over a classified document.
pub fn question_pass(nodes: &Vec<Node>, classes: &Vec<SectionKind>, kind: ItemKind) -> (r: Vec<
    Question,
>)
    requires
        classes@.len() == nodes@.len(),
    ensures
        r.deep_view() == spec_questions(nodes.deep_view(), classes@, kind),
{
    let commission = matches!(kind, ItemKind::CommissionQuestion);
    let ghost nv = nodes.deep_view();
    let ghost cv = classes@;
    let mut acc_nl: Vec<char> = Vec::new();
    let mut acc_fr: Vec<char> = Vec::new();
    let mut disc: Vec<char> = Vec::new();
    let mut next_id: u32 = 0;
    let mut questions: Vec<Question> = Vec::new();
    let ghost st_init = spec_qpass_init();
    assert(QPassV {
        acc: QAccV { nl: acc_nl@, fr: acc_fr@ },
        disc: disc@,
        next_id: next_id,
        questions: questions.deep_view(),
    } =~~= st_init);
    let mut i: usize = 0;
    while i < nodes.len()
        invariant
            i <= nodes.len(),
            nv == nodes.deep_view(),
            cv == classes@,
            nv.len() == nodes.len(),
            cv.len() == nv.len(),
            commission == (kind == ItemKind::CommissionQuestion),
            spec_qpass_fold(nv, cv, 0, spec_qpass_init(), kind) == spec_qpass_fold(
                nv,
                cv,
                i as int,
                QPassV {
                    acc: QAccV { nl: acc_nl@, fr: acc_fr@ },
                    disc: disc@,
                    next_id: next_id,
                    questions: questions.deep_view(),
                },
                kind,
            ),
        decreases nodes.len() - i,
    {
        let ghost st0 = QPassV {
            acc: QAccV { nl: acc_nl@, fr: acc_fr@ },
            disc: disc@,
            next_id: next_id,
            questions: questions.deep_view(),
        };
        proof {
            assert(nv[i as int] == nodes@[i as int].deep_view());
        }
        if matches!(classes[i], SectionKind::Questions) {
            if matches!(nodes[i].kind, NodeKind::SubHeading) {
                let (fnl, ffr) = heading_texts(&nodes[i].spans, kind);
                let role = question_role(&fnl, &ffr, kind);
                let mut flush_nl: Vec<char> = Vec::new();
                let mut flush_fr: Vec<char> = Vec::new();
                let mut do_flush = false;
                match role {
                    Role::Start => {
                        if acc_nl.len() > 0 || acc_fr.len() > 0 {
                            do_flush = true;
                            flush_nl = acc_nl;
                            flush_fr = acc_fr;
                        }
                        acc_nl = match fnl {
                            Some(t) => t,
                            None => Vec::new(),
                        };
                        acc_fr = match ffr {
                            Some(t) => t,
                            None => Vec::new(),
                        };
                    },
                    Role::Sub => {
                        match fnl {
                            Some(t) => {
                                acc_nl.push('\n');
                                push_all(&mut acc_nl, &t);
                                proof {
                                    reveal_strlit("\n");
                                    assert(acc_nl@ =~= st0.acc.nl + "\n"@ + t@);
                                }
                            },
                            None => {},
                        }
                        match ffr {
                            Some(t) => {
                                acc_fr.push('\n');
                                push_all(&mut acc_fr, &t);
                                proof {
                                    reveal_strlit("\n");
                                    assert(acc_fr@ =~= st0.acc.fr + "\n"@ + t@);
                                }
                            },
                            None => {},
                        }
                    },
                    Role::Neither => {
                        acc_nl = Vec::new();
                        acc_fr = Vec::new();
                    },
                }
                if do_flush {
                    let (mut emitted, new_id) = emit_group(
                        &flush_nl,
                        &flush_fr,
                        &disc,
                        next_id,
                        commission,
                    );
                    let ghost q0 = questions.deep_view();
                    let ghost ev = emitted.deep_view();
                    questions.append(&mut emitted);
                    next_id = new_id;
                    disc = Vec::new();
                    proof {
                        assert(questions.deep_view() =~~= q0 + ev);
                    }
                }
                proof {
                    let texts = spec_heading_texts(nv[i as int].spans, kind);
                    let srole = spec_question_role(texts.0, texts.1, kind);
                    let sr = spec_qacc_step(st0.acc, texts.0, texts.1, srole);
                    let st2 = spec_qflush(st0, sr.1, commission);
                    assert(QPassV {
                        acc: QAccV { nl: acc_nl@, fr: acc_fr@ },
                        disc: disc@,
                        next_id: next_id,
                        questions: questions.deep_view(),
                    } =~~= spec_qpass_step(st0, nv[i as int], cv[i as int], kind));
                }
            } else if matches!(nodes[i].kind, NodeKind::Paragraph) {
                let raw = chars_of(nodes[i].text.as_str());
                let trimmed = trim_chars(&raw);
                if trimmed.len() > 0 {
                    let cleaned = clean_chars(&raw);
                    let marker = chars_of("NEWPARAGRAPH");
                    push_all(&mut disc, &cleaned);
                    push_all(&mut disc, &marker);
                    proof {
                        assert(disc@ =~= st0.disc + spec_clean_text(nv[i as int].text)
                            + "NEWPARAGRAPH"@);
                    }
                }
                proof {
                    assert(QPassV {
                        acc: QAccV { nl: acc_nl@, fr: acc_fr@ },
                        disc: disc@,
                        next_id: next_id,
                        questions: questions.deep_view(),
                    } =~~= spec_qpass_step(st0, nv[i as int], cv[i as int], kind));
                }
            } else {
                proof {
                    assert(QPassV {
                        acc: QAccV { nl: acc_nl@, fr: acc_fr@ },
                        disc: disc@,
                        next_id: next_id,
                        questions: questions.deep_view(),
                    } =~~= spec_qpass_step(st0, nv[i as int], cv[i as int], kind));
                }
            }
        } else {
            if acc_nl.len() > 0 || acc_fr.len() > 0 {
                let (mut emitted, new_id) = emit_group(&acc_nl, &acc_fr, &disc, next_id, commission);
                let ghost q0 = questions.deep_view();
                let ghost ev = emitted.deep_view();
                questions.append(&mut emitted);
                next_id = new_id;
                disc = Vec::new();
                proof {
                    assert(questions.deep_view() =~~= q0 + ev);
                }
            }
            acc_nl = Vec::new();
            acc_fr = Vec::new();
            proof {
                assert(QPassV {
                    acc: QAccV { nl: acc_nl@, fr: acc_fr@ },
                    disc: disc@,
                    next_id: next_id,
                    questions: questions.deep_view(),
                } =~~= spec_qpass_step(st0, nv[i as int], cv[i as int], kind));
            }
        }
        i += 1;
    }
    if acc_nl.len() > 0 || acc_fr.len() > 0 {
        let ghost stf = QPassV {
            acc: QAccV { nl: acc_nl@, fr: acc_fr@ },
            disc: disc@,
            next_id: next_id,
            questions: questions.deep_view(),
        };
        let (mut emitted, _new_id) = emit_group(&acc_nl, &acc_fr, &disc, next_id, commission);
        let ghost q0 = questions.deep_view();
        let ghost ev = emitted.deep_view();
        questions.append(&mut emitted);
        proof {
            assert(questions.deep_view() =~~= q0 + ev);
            assert(questions.deep_view() =~~= spec_qflush(
                stf,
                spec_qacc_finish(stf.acc),
                commission,
            ).questions);
        }
    }
    questions
}

} // verus!

verus! {

/// The proposition accumulator's state: the buffered lines per
/// language.
#[verifier::ext_equal]
pub struct PAccV {
    pub nl: Seq<char>,
    pub fr: Seq<char>,
}

/// The state of the proposition pass.
#[verifier::ext_equal]
pub struct PPassV {
    pub acc: PAccV,
    pub next_id: u32,
    pub props: Seq<PropositionV>,
}

pub open spec fn spec_ppass_init() -> PPassV {
    PPassV { acc: PAccV { nl: Seq::empty(), fr: Seq::empty() }, next_id: 0, props: Seq::empty() }
}

/// The buffered lines that actually carry text.
pub open spec fn spec_nonempty_lines_from(lines: Seq<Seq<char>>, i: int) -> Seq<Seq<char>>
    decreases lines.len() - i when 0 <= i <= lines.len()
{
    if i >= lines.len() {
        Seq::empty()
    } else {
        (if spec_trim(lines[i]).len() > 0 {
            seq![lines[i]]
        } else {
            Seq::<Seq<char>>::empty()
        }) + spec_nonempty_lines_from(lines, i + 1)
    }
}

pub open spec fn spec_nonempty_lines(s: Seq<char>) -> Seq<Seq<char>> {
    spec_nonempty_lines_from(spec_split(s, "\n"@), 0)
}

/// The sub-proposition pairs of two buffered groups: the non-empty
/// lines of each side paired up by position (unpaired lines are
/// dropped), with the sub-item dashes removed.
pub open spec fn spec_prop_pairs(nl: Seq<char>, fr: Seq<char>) -> Seq<(Seq<char>, Seq<char>)> {
    let ln = spec_nonempty_lines(nl);
    let lf = spec_nonempty_lines(fr);
    let n: int = if ln.len() <= lf.len() {
        ln.len() as int
    } else {
        lf.len() as int
    };
    Seq::new(n as nat, |j: int| (spec_replace_all(ln[j], "- "@, Seq::empty()),
        spec_replace_all(lf[j], "- "@, Seq::empty())))
}

/// The pairs flushed at section end: the positional pairs where both
/// sides have lines; when pairing yields nothing but a buffer is
/// non-empty, the whole buffers leave as one pair so that no data is
/// lost.
pub open spec fn spec_prop_finish_pairs(nl: Seq<char>, fr: Seq<char>) -> Seq<
    (Seq<char>, Seq<char>),
> {
    let pairs = spec_prop_pairs(nl, fr);
    if pairs.len() > 0 {
        pairs
    } else if nl.len() > 0 || fr.len() > 0 {
        seq![
            (
                spec_replace_all(nl, "- "@, Seq::empty()),
                spec_replace_all(fr, "- "@, Seq::empty()),
            ),
        ]
    } else {
        Seq::empty()
    }
}

/// The proposition records of a flushed list of pairs: each pair is
/// run through the proposition rule chain per language; identifiers
/// come from the Dutch side.
pub open spec fn spec_emit_props(base: u32, pairs: Seq<(Seq<char>, Seq<char>)>, j: int) -> Seq<
    PropositionV,
>
    decreases pairs.len() - j when 0 <= j <= pairs.len()
{
    if j >= pairs.len() {
        Seq::empty()
    } else {
        let dnl = spec_proposition_data(pairs[j].0);
        let dfr = spec_proposition_data(pairs[j].1);
        seq![
            PropositionV {
                id: spec_sat_add(base, j),
                title_nl: dnl.topic,
                title_fr: dfr.topic,
                dossier_id: dnl.dossier_id,
                document_id: dnl.document_id,
            },
        ] + spec_emit_props(base, pairs, j + 1)
    }
}

/// One node applied to the proposition pass. Inside the propositions
/// section a sub-heading's Dutch text drives the accumulator: a dash
/// line continues the group, a fresh title flushes the paired
/// sub-propositions and starts over; the French text only extends its
/// buffer. Leaving the section flushes what remains.
pub open spec fn spec_ppass_step(st: PPassV, node: NodeV, class: SectionKind) -> PPassV {
    if class == SectionKind::Propositions {
        if node.kind == NodeKind::SubHeading {
            let texts = spec_heading_texts(node.spans, ItemKind::Proposition);
            let step1: (PAccV, Seq<(Seq<char>, Seq<char>)>) = match texts.0 {
                Option::None => (st.acc, Seq::empty()),
                Option::Some(t) => {
                    if spec_starts_with(t, "-"@) {
                        (PAccV { nl: st.acc.nl + "\n"@ + t, fr: st.acc.fr }, Seq::empty())
                    } else if st.acc.nl.len() > 0 || st.acc.fr.len() > 0 {
                        (
                            PAccV { nl: t, fr: Seq::empty() },
                            spec_prop_pairs(st.acc.nl, st.acc.fr),
                        )
                    } else {
                        (PAccV { nl: t, fr: st.acc.fr }, Seq::empty())
                    }
                },
            };
            let acc2: PAccV = match texts.1 {
                Option::None => step1.0,
                Option::Some(t) => PAccV {
                    nl: step1.0.nl,
                    fr: if spec_starts_with(t, "-"@) {
                        step1.0.fr + "\n"@ + t
                    } else {
                        step1.0.fr + t
                    },
                },
            };
            PPassV {
                acc: acc2,
                next_id: spec_sat_add(st.next_id, step1.1.len() as int),
                props: st.props + spec_emit_props(st.next_id, step1.1, 0),
            }
        } else {
            st
        }
    } else {
        let pairs = spec_prop_finish_pairs(st.acc.nl, st.acc.fr);
        PPassV {
            acc: PAccV { nl: Seq::empty(), fr: Seq::empty() },
            next_id: spec_sat_add(st.next_id, pairs.len() as int),
            props: st.props + spec_emit_props(st.next_id, pairs, 0),
        }
    }
}

pub open spec fn spec_ppass_fold(
    nodes: Seq<NodeV>,
    classes: Seq<SectionKind>,
    i: int,
    st: PPassV,
) -> PPassV
    decreases nodes.len() - i when 0 <= i <= nodes.len() && classes.len() == nodes.len()
{
    if i >= nodes.len() {
        st
    } else {
        spec_ppass_fold(nodes, classes, i + 1, spec_ppass_step(st, nodes[i], classes[i]))
    }
}

/// All proposition records of a document: the pass over every node,
/// with one final flush for a group still buffered at the end.
pub open spec fn spec_propositions(nodes: Seq<NodeV>, classes: Seq<SectionKind>) -> Seq<
    PropositionV,
> {
    let st = spec_ppass_fold(nodes, classes, 0, spec_ppass_init());
    let pairs = spec_prop_finish_pairs(st.acc.nl, st.acc.fr);
    st.props + spec_emit_props(st.next_id, pairs, 0)
}

} // verus!

verus! {

fn nonempty_lines(v: &Vec<char>) -> (r: Vec<Vec<char>>)
    ensures
        r.deep_view() == spec_nonempty_lines(v@),
{
    let nl = chars_of("\n");
    proof {
        reveal_strlit("\n");
    }
    let lines = split_on(v, &nl);
    let ghost lv = lines.deep_view();
    let mut out: Vec<Vec<char>> = Vec::new();
    let mut i: usize = 0;
    while i < lines.len()
        invariant
            i <= lines.len(),
            lv == lines.deep_view(),
            lv.len() == lines.len(),
            spec_nonempty_lines_from(lv, 0) =~~= out.deep_view() + spec_nonempty_lines_from(
                lv,
                i as int,
            ),
        decreases lines.len() - i,
    {
        let ghost out0 = out.deep_view();
        proof {
            assert(lv[i as int] =~= lines@[i as int]@);
        }
        let t = trim_chars(&lines[i]);
        if t.len() > 0 {
            let line = crate::text::copy_range(&lines[i], 0, lines[i].len());
            proof {
                assert(line@ =~= lines@[i as int]@);
            }
            out.push(line);
            proof {
                assert(out.deep_view() =~~= out0.push(lv[i as int]));
            }
        }
        proof {
            assert(out.deep_view() + spec_nonempty_lines_from(lv, i + 1) =~~= out0
                + spec_nonempty_lines_from(lv, i as int));
        }
        i += 1;
    }
    proof {
        assert(spec_nonempty_lines_from(lv, lv.len() as int) =~~= Seq::<Seq<char>>::empty());
        assert(out.deep_view() =~~= spec_nonempty_lines_from(lv, 0));
    }
    out
}

fn prop_pairs(nl: &Vec<char>, fr: &Vec<char>) -> (r: Vec<(Vec<char>, Vec<char>)>)
    ensures
        r.deep_view() == spec_prop_pairs(nl@, fr@),
{
    let ln = nonempty_lines(nl);
    let lf = nonempty_lines(fr);
    let n: usize = if ln.len() <= lf.len() {
        ln.len()
    } else {
        lf.len()
    };
    let dash = chars_of("- ");
    let empty: Vec<char> = Vec::new();
    proof {
        reveal_strlit("- ");
    }
    let mut out: Vec<(Vec<char>, Vec<char>)> = Vec::new();
    let mut j: usize = 0;
    while j < n
        invariant
            j <= n,
            n as int == spec_prop_pairs(nl@, fr@).len(),
            ln.deep_view() == spec_nonempty_lines(nl@),
            lf.deep_view() == spec_nonempty_lines(fr@),
            n <= ln.len() && n <= lf.len(),
            dash@ == "- "@,
            dash@.len() >= 1,
            empty@ == Seq::<char>::empty(),
            out.deep_view() =~~= spec_prop_pairs(nl@, fr@).subrange(0, j as int),
        decreases n - j,
    {
        let ghost out0 = out.deep_view();
        proof {
            assert(ln.deep_view()[j as int] =~= ln@[j as int]@);
            assert(lf.deep_view()[j as int] =~= lf@[j as int]@);
        }
        let a = replace_all(&ln[j], &dash, &empty);
        let b = replace_all(&lf[j], &dash, &empty);
        out.push((a, b));
        proof {
            assert(out.deep_view() =~~= out0.push(spec_prop_pairs(nl@, fr@)[j as int]));
            assert(spec_prop_pairs(nl@, fr@).subrange(0, j + 1) =~~= spec_prop_pairs(
                nl@,
                fr@,
            ).subrange(0, j as int).push(spec_prop_pairs(nl@, fr@)[j as int]));
        }
        j += 1;
    }
    proof {
        assert(spec_prop_pairs(nl@, fr@).subrange(0, spec_prop_pairs(nl@, fr@).len() as int)
            =~~= spec_prop_pairs(nl@, fr@));
    }
    out
}

fn emit_props(base: u32, pairs: &Vec<(Vec<char>, Vec<char>)>) -> (r: (Vec<Proposition>, u32))
    ensures
        r.0.deep_view() == spec_emit_props(base, pairs.deep_view(), 0),
        r.1 == spec_sat_add(base, pairs.deep_view().len() as int),
{
    let ghost pv = pairs.deep_view();
    let mut out: Vec<Proposition> = Vec::new();
    let mut cur: u32 = base;
    let mut j: usize = 0;
    while j < pairs.len()
        invariant
            j <= pairs.len(),
            pv == pairs.deep_view(),
            pv.len() == pairs.len(),
            cur == spec_sat_add(base, j as int),
            spec_emit_props(base, pv, 0) =~~= out.deep_view() + spec_emit_props(base, pv, j as int),
        decreases pairs.len() - j,
    {
        let ghost out0 = out.deep_view();
        proof {
            assert(pv[j as int] == pairs@[j as int].deep_view());
            assert(pairs@[j as int].deep_view().0 =~= pairs@[j as int].0@);
            assert(pairs@[j as int].deep_view().1 =~= pairs@[j as int].1@);
        }
        let s_nl = string_of(&pairs[j].0);
        let s_fr = string_of(&pairs[j].1);
        let dnl = extract_proposition_data(s_nl.as_str());
        let dfr = extract_proposition_data(s_fr.as_str());
        let p = Proposition {
            id: cur,
            title_nl: dnl.topic,
            title_fr: dfr.topic,
            dossier_id: dnl.dossier_id,
            document_id: dnl.document_id,
        };
        assert(p.deep_view() =~~= spec_emit_props(base, pv, j as int)[0]);
        out.push(p);
        proof {
            assert(out.deep_view() =~~= out0.push(spec_emit_props(base, pv, j as int)[0]));
            assert(out.deep_view() + spec_emit_props(base, pv, j + 1) =~~= out0 + spec_emit_props(
                base,
                pv,
                j as int,
            ));
        }
        cur = sat_inc(cur);
        j += 1;
    }
    proof {
        assert(spec_emit_props(base, pv, pv.len() as int) =~~= Seq::<PropositionV>::empty());
        assert(out.deep_view() =~~= spec_emit_props(base, pv, 0));
    }
    (out, cur)
}

fn prop_finish_pairs(nl: &Vec<char>, fr: &Vec<char>) -> (r: Vec<(Vec<char>, Vec<char>)>)
    ensures
        r.deep_view() == spec_prop_finish_pairs(nl@, fr@),
{
    let pairs = prop_pairs(nl, fr);
    if pairs.len() > 0 {
        pairs
    } else if nl.len() > 0 || fr.len() > 0 {
        let dash = chars_of("- ");
        let empty: Vec<char> = Vec::new();
        proof {
            reveal_strlit("- ");
        }
        let a = replace_all(nl, &dash, &empty);
        let b = replace_all(fr, &dash, &empty);
        let mut out: Vec<(Vec<char>, Vec<char>)> = Vec::new();
        out.push((a, b));
        assert(out.deep_view() =~~= spec_prop_finish_pairs(nl@, fr@));
        out
    } else {
        let out: Vec<(Vec<char>, Vec<char>)> = Vec::new();
        assert(out.deep_view() =~~= spec_prop_finish_pairs(nl@, fr@));
        out
    }
}

/// Runs the proposition pass over a classified document.
pub fn proposition_pass(nodes: &Vec<Node>, classes: &Vec<SectionKind>) -> (r: Vec<Proposition>)
    requires
        classes@.len() == nodes@.len(),
    ensures
        r.deep_view() == spec_propositions(nodes.deep_view(), classes@),
{
    let ghost nv = nodes.deep_view();
    let ghost cv = classes@;
    let mut acc_nl: Vec<char> = Vec::new();
    let mut acc_fr: Vec<char> = Vec::new();
    let mut next_id: u32 = 0;
    let mut props: Vec<Proposition> = Vec::new();
    assert(PPassV {
        acc: PAccV { nl: acc_nl@, fr: acc_fr@ },
        next_id: next_id,
        props: props.deep_view(),
    } =~~= spec_ppass_init());
    let mut i: usize = 0;
    while i < nodes.len()
        invariant
            i <= nodes.len(),
            nv == nodes.deep_view(),
            cv == classes@,
            nv.len() == nodes.len(),
            cv.len() == nv.len(),
            spec_ppass_fold(nv, cv, 0, spec_ppass_init()) == spec_ppass_fold(
                nv,
                cv,
                i as int,
                PPassV {
                    acc: PAccV { nl: acc_nl@, fr: acc_fr@ },
                    next_id: next_id,
                    props: props.deep_view(),
                },
            ),
        decreases nodes.len() - i,
    {
        let ghost st0 = PPassV {
            acc: PAccV { nl: acc_nl@, fr: acc_fr@ },
            next_id: next_id,
            props: props.deep_view(),
        };
        proof {
            assert(nv[i as int] == nodes@[i as int].deep_view());
        }
        if matches!(classes[i], SectionKind::Propositions) {
            if matches!(nodes[i].kind, NodeKind::SubHeading) {
                let (fnl, ffr) = heading_texts(&nodes[i].spans, ItemKind::Proposition);
                let dash = chars_of("-");
                proof {
                    reveal_strlit("-");
                }
                let mut flushed: Vec<(Vec<char>, Vec<char>)> = Vec::new();
                let mut do_flush = false;
                match fnl {
                    None => {},
                    Some(t) => {
                        if starts_with_sub(&t, &dash) {
                            acc_nl.push('\n');
                            push_all(&mut acc_nl, &t);
                            proof {
                                reveal_strlit("\n");
                                assert(acc_nl@ =~= st0.acc.nl + "\n"@ + t@);
                            }
                        } else if acc_nl.len() > 0 || acc_fr.len() > 0 {
                            flushed = prop_pairs(&acc_nl, &acc_fr);
                            do_flush = true;
                            acc_nl = t;
                            acc_fr = Vec::new();
                        } else {
                            acc_nl = t;
                        }
                    },
                }
                match ffr {
                    None => {},
                    Some(t) => {
                        if starts_with_sub(&t, &dash) {
                            acc_fr.push('\n');
                            push_all(&mut acc_fr, &t);
                        } else {
                            push_all(&mut acc_fr, &t);
                        }
                    },
                }
                if do_flush {
                    let (mut emitted, new_id) = emit_props(next_id, &flushed);
                    let ghost p0 = props.deep_view();
                    let ghost ev = emitted.deep_view();
                    props.append(&mut emitted);
                    next_id = new_id;
                    proof {
                        assert(props.deep_view() =~~= p0 + ev);
                    }
                } else {
                    proof {
                        assert(spec_emit_props(st0.next_id, Seq::empty(), 0) =~~= Seq::<
                            PropositionV,
                        >::empty());
                        assert(props.deep_view() =~~= st0.props + Seq::<PropositionV>::empty());
                    }
                }
                proof {
                    reveal_strlit("\n");
                    assert(PPassV {
                        acc: PAccV { nl: acc_nl@, fr: acc_fr@ },
                        next_id: next_id,
                        props: props.deep_view(),
                    } =~~= spec_ppass_step(st0, nv[i as int], cv[i as int]));
                }
            } else {
                proof {
                    assert(PPassV {
                        acc: PAccV { nl: acc_nl@, fr: acc_fr@ },
                        next_id: next_id,
                        props: props.deep_view(),
                    } =~~= spec_ppass_step(st0, nv[i as int], cv[i as int]));
                }
            }
        } else {
            let flushed = prop_finish_pairs(&acc_nl, &acc_fr);
            let (mut emitted, new_id) = emit_props(next_id, &flushed);
            let ghost p0 = props.deep_view();
            let ghost ev = emitted.deep_view();
            props.append(&mut emitted);
            next_id = new_id;
            acc_nl = Vec::new();
            acc_fr = Vec::new();
            proof {
                assert(props.deep_view() =~~= p0 + ev);
                assert(PPassV {
                    acc: PAccV { nl: acc_nl@, fr: acc_fr@ },
                    next_id: next_id,
                    props: props.deep_view(),
                } =~~= spec_ppass_step(st0, nv[i as int], cv[i as int]));
            }
        }
        i += 1;
    }
    let ghost stf = PPassV {
        acc: PAccV { nl: acc_nl@, fr: acc_fr@ },
        next_id: next_id,
        props: props.deep_view(),
    };
    let flushed = prop_finish_pairs(&acc_nl, &acc_fr);
    let (mut emitted, _new_id) = emit_props(next_id, &flushed);
    let ghost p0 = props.deep_view();
    let ghost ev = emitted.deep_view();
    props.append(&mut emitted);
    proof {
        assert(props.deep_view() =~~= p0 + ev);
        assert(props.deep_view() =~~= spec_propositions(nv, cv));
    }
    props
}

} // verus!

verus! {

/// The vote-title accumulator's state: the grouped title per language,
/// the last heading text seen per language (the fallback title), and
/// whether a grouped title is being collected.
#[verifier::ext_equal]
pub struct VAccV {
    pub nl: Seq<char>,
    pub fr: Seq<char>,
    pub last_nl: Seq<char>,
    pub last_fr: Seq<char>,
    pub collecting: bool,
}

/// The state of the vote pass.
#[verifier::ext_equal]
pub struct VPassV {
    pub acc: VAccV,
    pub next_id: u32,
    pub votes: Seq<VoteV>,
}

pub open spec fn spec_vpass_init() -> VPassV {
    VPassV {
        acc: VAccV {
            nl: Seq::empty(),
            fr: Seq::empty(),
            last_nl: Seq::empty(),
            last_fr: Seq::empty(),
            collecting: false,
        },
        next_id: 0,
        votes: Seq::empty(),
    }
}

/// The Dutch side of a vote heading applied to the accumulator: a
/// fresh non-dash title starts a grouped title, a dash line extends it
/// while one is being collected, anything else clears it.
pub open spec fn spec_vacc_nl(acc: VAccV, t: Seq<char>) -> VAccV {
    if t.len() > 0 && !spec_starts_with(t, "-"@) {
        VAccV { nl: t, last_nl: t, collecting: true, ..acc }
    } else if acc.collecting && spec_starts_with(t, "-"@) {
        VAccV { nl: acc.nl + "\n"@ + t, last_nl: t, ..acc }
    } else {
        VAccV {
            nl: Seq::empty(),
            last_nl: t,
            collecting: if acc.nl.len() > 0 {
                false
            } else {
                acc.collecting
            },
            ..acc
        }
    }
}

/// The French side, sharing the collecting flag.
pub open spec fn spec_vacc_fr(acc: VAccV, t: Seq<char>) -> VAccV {
    if t.len() > 0 && !spec_starts_with(t, "-"@) {
        VAccV { fr: t, last_fr: t, collecting: true, ..acc }
    } else if acc.collecting && spec_starts_with(t, "-"@) {
        VAccV { fr: acc.fr + "\n"@ + t, last_fr: t, ..acc }
    } else {
        VAccV {
            fr: Seq::empty(),
            last_fr: t,
            collecting: if acc.fr.len() > 0 {
                false
            } else {
                acc.collecting
            },
            ..acc
        }
    }
}

/// The voter names of one roster text: the comma-separated pieces,
/// each reordered into `First Last`; empty pieces vanish, so an empty
/// roster yields an empty list.
pub open spec fn spec_voter_list_from(pieces: Seq<Seq<char>>, i: int) -> Seq<Seq<char>>
    decreases pieces.len() - i when 0 <= i <= pieces.len()
{
    if i >= pieces.len() {
        Seq::empty()
    } else {
        let c = spec_convert_name(pieces[i]);
        (if c.len() > 0 {
            seq![c]
        } else {
            Seq::<Seq<char>>::empty()
        }) + spec_voter_list_from(pieces, i + 1)
    }
}

pub open spec fn spec_voter_list(roster: Seq<char>) -> Seq<Seq<char>> {
    spec_voter_list_from(spec_split(roster, ","@), 0)
}

/// The vote record emitted at a tally table: the identifiers and topic
/// come from the buffered grouped title (falling back to the last
/// heading seen when no rule yields a topic), the counts from the
/// table, and the rosters from the anchor-based resolver.
pub open spec fn spec_make_vote(
    nodes: Seq<NodeV>,
    acc: VAccV,
    id: u32,
    tally: crate::votes::VoteTallyV,
) -> VoteV {
    let index = spec_replace_all(tally.name, "Stemming "@, Seq::empty());
    let rosters = spec_extract_voter_names(nodes, index);
    let dnl = spec_vote_data(acc.nl);
    let dfr = spec_vote_data(acc.fr);
    VoteV {
        id: id,
        title_nl: if dnl.topic.len() > 0 {
            dnl.topic
        } else {
            acc.last_nl
        },
        title_fr: if dfr.topic.len() > 0 {
            dfr.topic
        } else {
            acc.last_fr
        },
        yes: tally.yes,
        no: tally.no,
        abstain: tally.abstain,
        voters_yes: spec_voter_list(rosters.0),
        voters_no: spec_voter_list(rosters.1),
        voters_abstain: spec_voter_list(rosters.2),
        dossier_id: dnl.dossier_id,
        document_id: dnl.document_id,
        motion_id: dnl.motion_id,
    }
}

/// One node applied to the vote pass. Inside the votes section a
/// sub-heading updates the title accumulator per language, and a table
/// carrying non-zero tallies emits one vote record; a table with all
/// zero counts is not a vote.
pub open spec fn spec_vpass_step(
    nodes: Seq<NodeV>,
    st: VPassV,
    node: NodeV,
    class: SectionKind,
) -> VPassV {
    if class == SectionKind::Votes {
        if node.kind == NodeKind::SubHeading {
            let acc1 = match spec_last_lang_text(node.spans, node.spans.len() as int, true) {
                Option::None => st.acc,
                Option::Some(raw) => spec_vacc_nl(st.acc, spec_heading_norm(raw, false)),
            };
            let acc2 = match spec_last_lang_text(node.spans, node.spans.len() as int, false) {
                Option::None => acc1,
                Option::Some(raw) => spec_vacc_fr(acc1, spec_heading_norm(raw, false)),
            };
            VPassV { acc: acc2, ..st }
        } else if node.kind == NodeKind::Table {
            let tally = spec_extract_vote(node.rows);
            if tally.yes > 0 || tally.no > 0 || tally.abstain > 0 {
                VPassV {
                    acc: st.acc,
                    next_id: spec_sat_add(st.next_id, 1),
                    votes: st.votes.push(spec_make_vote(nodes, st.acc, st.next_id, tally)),
                }
            } else {
                st
            }
        } else {
            st
        }
    } else {
        st
    }
}

pub open spec fn spec_vpass_fold(
    nodes: Seq<NodeV>,
    classes: Seq<SectionKind>,
    i: int,
    st: VPassV,
) -> VPassV
    decreases nodes.len() - i when 0 <= i <= nodes.len() && classes.len() == nodes.len()
{
    if i >= nodes.len() {
        st
    } else {
        spec_vpass_fold(nodes, classes, i + 1, spec_vpass_step(nodes, st, nodes[i], classes[i]))
    }
}

/// All vote records of a document.
pub open spec fn spec_votes(nodes: Seq<NodeV>, classes: Seq<SectionKind>) -> Seq<VoteV> {
    spec_vpass_fold(nodes, classes, 0, spec_vpass_init()).votes
}

fn voter_list(roster: &str) -> (r: Vec<String>)
    ensures
        r.deep_view() == spec_voter_list(roster@),
{
    let v = chars_of(roster);
    let comma = chars_of(",");
    proof {
        reveal_strlit(",");
    }
    let pieces = split_on(&v, &comma);
    let ghost pv = pieces.deep_view();
    let mut out: Vec<String> = Vec::new();
    let mut i: usize = 0;
    while i < pieces.len()
        invariant
            i <= pieces.len(),
            pv == pieces.deep_view(),
            pv.len() == pieces.len(),
            spec_voter_list_from(pv, 0) =~~= out.deep_view() + spec_voter_list_from(pv, i as int),
        decreases pieces.len() - i,
    {
        let ghost out0 = out.deep_view();
        proof {
            assert(pv[i as int] =~= pieces@[i as int]@);
        }
        let c = convert_name_chars(&pieces[i]);
        if c.len() > 0 {
            out.push(string_of(&c));
            proof {
                assert(out.deep_view() =~~= out0.push(c@));
            }
        }
        proof {
            assert(out.deep_view() + spec_voter_list_from(pv, i + 1) =~~= out0
                + spec_voter_list_from(pv, i as int));
        }
        i += 1;
    }
    proof {
        assert(spec_voter_list_from(pv, pv.len() as int) =~~= Seq::<Seq<char>>::empty());
        assert(out.deep_view() =~~= spec_voter_list_from(pv, 0));
    }
    out
}

fn make_vote(nodes: &Vec<Node>, acc_nl: &Vec<char>, acc_fr: &Vec<char>, last_nl: &Vec<char>, last_fr: &Vec<char>, id: u32, tally: &crate::votes::VoteTally) -> (r: Vote)
    ensures
        r.deep_view() == spec_make_vote(
            nodes.deep_view(),
            VAccV { nl: acc_nl@, fr: acc_fr@, last_nl: last_nl@, last_fr: last_fr@, collecting: false },
            id,
            tally.deep_view(),
        ),
        forall|b: bool|
            r.deep_view() == spec_make_vote(
                nodes.deep_view(),
                VAccV {
                    nl: acc_nl@,
                    fr: acc_fr@,
                    last_nl: last_nl@,
                    last_fr: last_fr@,
                    collecting: b,
                },
                id,
                tally.deep_view(),
            ),
{
    let name_chars = chars_of(tally.name.as_str());
    let stemming = chars_of("Stemming ");
    let empty: Vec<char> = Vec::new();
    proof {
        reveal_strlit("Stemming ");
    }
    let index = replace_all(&name_chars, &stemming, &empty);
    let index_s = string_of(&index);
    let (r_yes, r_no, r_abstain) = extract_voter_names(nodes, index_s.as_str());
    let s_nl = string_of(acc_nl);
    let s_fr = string_of(acc_fr);
    let dnl = extract_vote_data(s_nl.as_str());
    let dfr = extract_vote_data(s_fr.as_str());
    let title_nl: String = if char_len(&dnl.topic) > 0 {
        dnl.topic
    } else {
        string_of(last_nl)
    };
    let title_fr: String = if char_len(&dfr.topic) > 0 {
        dfr.topic
    } else {
        string_of(last_fr)
    };
    Vote {
        id,
        title_nl,
        title_fr,
        yes: tally.yes,
        no: tally.no,
        abstain: tally.abstain,
        voters_yes: voter_list(r_yes.as_str()),
        voters_no: voter_list(r_no.as_str()),
        voters_abstain: voter_list(r_abstain.as_str()),
        dossier_id: dnl.dossier_id,
        document_id: dnl.document_id,
        motion_id: dnl.motion_id,
    }
}

/// Runs the vote pass over a classified document.
pub fn vote_pass(nodes: &Vec<Node>, classes: &Vec<SectionKind>) -> (r: Vec<Vote>)
    requires
        classes@.len() == nodes@.len(),
    ensures
        r.deep_view() == spec_votes(nodes.deep_view(), classes@),
{
    let ghost nv = nodes.deep_view();
    let ghost cv = classes@;
    let mut acc_nl: Vec<char> = Vec::new();
    let mut acc_fr: Vec<char> = Vec::new();
    let mut last_nl: Vec<char> = Vec::new();
    let mut last_fr: Vec<char> = Vec::new();
    let mut collecting = false;
    let mut next_id: u32 = 0;
    let mut votes: Vec<Vote> = Vec::new();
    assert(VPassV {
        acc: VAccV {
            nl: acc_nl@,
            fr: acc_fr@,
            last_nl: last_nl@,
            last_fr: last_fr@,
            collecting: collecting,
        },
        next_id: next_id,
        votes: votes.deep_view(),
    } =~~= spec_vpass_init());
    let mut i: usize = 0;
    while i < nodes.len()
        invariant
            i <= nodes.len(),
            nv == nodes.deep_view(),
            cv == classes@,
            nv.len() == nodes.len(),
            cv.len() == nv.len(),
            spec_vpass_fold(nv, cv, 0, spec_vpass_init()) == spec_vpass_fold(
                nv,
                cv,
                i as int,
                VPassV {
                    acc: VAccV {
                        nl: acc_nl@,
                        fr: acc_fr@,
                        last_nl: last_nl@,
                        last_fr: last_fr@,
                        collecting: collecting,
                    },
                    next_id: next_id,
                    votes: votes.deep_view(),
                },
            ),
        decreases nodes.len() - i,
    {
        let ghost st0 = VPassV {
            acc: VAccV {
                nl: acc_nl@,
                fr: acc_fr@,
                last_nl: last_nl@,
                last_fr: last_fr@,
                collecting: collecting,
            },
            next_id: next_id,
            votes: votes.deep_view(),
        };
        proof {
            assert(nv[i as int] == nodes@[i as int].deep_view());
        }
        if matches!(classes[i], SectionKind::Votes) {
            if matches!(nodes[i].kind, NodeKind::SubHeading) {
                let nl_raw = crate::accumulate::last_span_text(&nodes[i].spans, true);
                let dash = chars_of("-");
                proof {
                    reveal_strlit("-");
                    reveal_strlit("\n");
                }
                match nl_raw {
                    None => {},
                    Some(raw) => {
                        let t = clean_chars(&raw);
                        let t = quote_norm(&t);
                        if t.len() > 0 && !starts_with_sub(&t, &dash) {
                            acc_nl = crate::text::copy_range(&t, 0, t.len());
                            last_nl = t;
                            collecting = true;
                            proof {
                                assert(acc_nl@ =~= last_nl@);
                            }
                        } else if collecting && starts_with_sub(&t, &dash) {
                            acc_nl.push('\n');
                            push_all(&mut acc_nl, &t);
                            last_nl = t;
                            proof {
                                assert(acc_nl@ =~= st0.acc.nl + "\n"@ + last_nl@);
                            }
                        } else {
                            if acc_nl.len() > 0 {
                                collecting = false;
                            }
                            acc_nl = Vec::new();
                            last_nl = t;
                        }
                    },
                }
                let ghost acc1 = VAccV {
                    nl: acc_nl@,
                    fr: acc_fr@,
                    last_nl: last_nl@,
                    last_fr: last_fr@,
                    collecting: collecting,
                };
                let fr_raw = crate::accumulate::last_span_text(&nodes[i].spans, false);
                match fr_raw {
                    None => {},
                    Some(raw) => {
                        let t = clean_chars(&raw);
                        let t = quote_norm(&t);
                        if t.len() > 0 && !starts_with_sub(&t, &dash) {
                            acc_fr = crate::text::copy_range(&t, 0, t.len());
                            last_fr = t;
                            collecting = true;
                            proof {
                                assert(acc_fr@ =~= last_fr@);
                            }
                        } else if collecting && starts_with_sub(&t, &dash) {
                            acc_fr.push('\n');
                            push_all(&mut acc_fr, &t);
                            last_fr = t;
                            proof {
                                assert(acc_fr@ =~= acc1.fr + "\n"@ + last_fr@);
                            }
                        } else {
                            if acc_fr.len() > 0 {
                                collecting = false;
                            }
                            acc_fr = Vec::new();
                            last_fr = t;
                        }
                    },
                }
                proof {
                    assert(VPassV {
                        acc: VAccV {
                            nl: acc_nl@,
                            fr: acc_fr@,
                            last_nl: last_nl@,
                            last_fr: last_fr@,
                            collecting: collecting,
                        },
                        next_id: next_id,
                        votes: votes.deep_view(),
                    } =~~= spec_vpass_step(nv, st0, nv[i as int], cv[i as int]));
                }
            } else if matches!(nodes[i].kind, NodeKind::Table) {
                let tally = extract_vote(&nodes[i].rows);
                if tally.yes > 0 || tally.no > 0 || tally.abstain > 0 {
                    let vote = make_vote(
                        nodes,
                        &acc_nl,
                        &acc_fr,
                        &last_nl,
                        &last_fr,
                        next_id,
                        &tally,
                    );
                    let ghost v0 = votes.deep_view();
                    let ghost vv = vote.deep_view();
                    votes.push(vote);
                    next_id = sat_inc(next_id);
                    proof {
                        assert(votes.deep_view() =~~= v0.push(vv));
                        assert(vv == spec_make_vote(nv, st0.acc, st0.next_id, spec_extract_vote(
                            nv[i as int].rows,
                        )));
                    }
                }
                proof {
                    assert(VPassV {
                        acc: VAccV {
                            nl: acc_nl@,
                            fr: acc_fr@,
                            last_nl: last_nl@,
                            last_fr: last_fr@,
                            collecting: collecting,
                        },
                        next_id: next_id,
                        votes: votes.deep_view(),
                    } =~~= spec_vpass_step(nv, st0, nv[i as int], cv[i as int]));
                }
            } else {
                proof {
                    assert(VPassV {
                        acc: VAccV {
                            nl: acc_nl@,
                            fr: acc_fr@,
                            last_nl: last_nl@,
                            last_fr: last_fr@,
                            collecting: collecting,
                        },
                        next_id: next_id,
                        votes: votes.deep_view(),
                    } =~~= spec_vpass_step(nv, st0, nv[i as int], cv[i as int]));
                }
            }
        } else {
            proof {
                assert(VPassV {
                    acc: VAccV {
                        nl: acc_nl@,
                        fr: acc_fr@,
                        last_nl: last_nl@,
                        last_fr: last_fr@,
                        collecting: collecting,
                    },
                    next_id: next_id,
                    votes: votes.deep_view(),
                } =~~= spec_vpass_step(nv, st0, nv[i as int], cv[i as int]));
            }
        }
        i += 1;
    }
    votes
}

} // verus!

verus! {

/// Everything the engine extracts from a plenary document, or the
/// reason it could not: only genuinely absent required structure (no
/// date, no time of day, no opening or closing time) fails a document.
pub open spec fn spec_extract_meeting(nodes: Seq<NodeV>, session_id: u32, meeting_id: u32) -> Result<
    MeetingExtractV,
    ExtractError,
> {
    match spec_extract_date(nodes) {
        Option::None => Err(ExtractError::MissingDate),
        Option::Some(date) => match spec_time_of_day(nodes) {
            Option::None => Err(ExtractError::MissingTimeOfDay),
            Option::Some(tod) => match spec_start_time(nodes) {
                Option::None => Err(ExtractError::MissingStartTime),
                Option::Some(start) => match spec_end_time(nodes) {
                    Option::None => Err(ExtractError::MissingEndTime),
                    Option::Some(end) => {
                        let classes = spec_scan_sections(nodes);
                        Ok(
                            MeetingExtractV {
                                meeting: Meeting {
                                    session_id,
                                    meeting_id,
                                    date,
                                    time_of_day: tod,
                                    start_time: start,
                                    end_time: end,
                                },
                                questions: spec_questions(
                                    nodes,
                                    classes,
                                    ItemKind::PlenaryQuestion,
                                ),
                                propositions: spec_propositions(nodes, classes),
                                votes: spec_votes(nodes, classes),
                            },
                        )
                    },
                },
            },
        },
    }
}

/// Extracts one plenary document: the meeting header, then the
/// question, proposition and vote passes over the section-classified
/// node sequence. The result is a function of the nodes and the two
/// identifiers alone, and each error names exactly the required
/// structure that was absent.
pub fn extract_meeting(nodes: &Vec<Node>, session_id: u32, meeting_id: u32) -> (r: Result<
    MeetingExtract,
    ExtractError,
>)
    ensures
        match r {
            Ok(e) => spec_extract_meeting(nodes.deep_view(), session_id, meeting_id) == Ok::<
                MeetingExtractV,
                ExtractError,
            >(e.deep_view()),
            Err(err) => spec_extract_meeting(nodes.deep_view(), session_id, meeting_id) == Err::<
                MeetingExtractV,
                ExtractError,
            >(err),
        },
{
    let date = match extract_date_from_document(nodes) {
        None => {
            return Err(ExtractError::MissingDate);
        },
        Some(d) => d,
    };
    let tod = match extract_time_of_day_from_document(nodes) {
        None => {
            return Err(ExtractError::MissingTimeOfDay);
        },
        Some(t) => t,
    };
    let start = match extract_start_time_from_document(nodes) {
        None => {
            return Err(ExtractError::MissingStartTime);
        },
        Some(t) => t,
    };
    let end = match extract_end_time_from_document(nodes) {
        None => {
            return Err(ExtractError::MissingEndTime);
        },
        Some(t) => t,
    };
    let classes = scan_sections(nodes);
    let questions = question_pass(nodes, &classes, ItemKind::PlenaryQuestion);
    let propositions = proposition_pass(nodes, &classes);
    let votes = vote_pass(nodes, &classes);
    let e = MeetingExtract {
        meeting: Meeting {
            session_id,
            meeting_id,
            date,
            time_of_day: tod,
            start_time: start,
            end_time: end,
        },
        questions,
        propositions,
        votes,
    };
    proof {
        assert(e.deep_view() =~~= spec_extract_meeting(
            nodes.deep_view(),
            session_id,
            meeting_id,
        )->Ok_0);
    }
    Ok(e)
}

/// The classification a committee document gets: committee reports are
/// question transcripts throughout, so every node counts as inside the
/// questions section.
pub open spec fn spec_all_questions(n: nat) -> Seq<SectionKind> {
    Seq::new(n, |i: int| SectionKind::Questions)
}

/// Everything the engine extracts from a committee document, or the
/// reason it could not.
pub open spec fn spec_extract_commission_meeting(
    nodes: Seq<NodeV>,
    session_id: u32,
    commission_id: u32,
) -> Result<CommissionExtractV, ExtractError> {
    match spec_extract_date(nodes) {
        Option::None => Err(ExtractError::MissingDate),
        Option::Some(date) => match spec_time_of_day(nodes) {
            Option::None => Err(ExtractError::MissingTimeOfDay),
            Option::Some(tod) => match spec_commission_start_time(nodes) {
                Option::None => Err(ExtractError::MissingStartTime),
                Option::Some(start) => match spec_commission_end_time(nodes) {
                    Option::None => Err(ExtractError::MissingEndTime),
                    Option::Some(end) => match spec_extract_chair(nodes, 0) {
                        Option::None => Err(ExtractError::MissingChair),
                        Option::Some(chair) => match spec_extract_commission(nodes) {
                            Option::None => Err(ExtractError::MissingCommission),
                            Option::Some(commission) => Ok(
                                CommissionExtractV {
                                    meeting: CommissionMeetingV {
                                        session_id,
                                        commission_id,
                                        date,
                                        time_of_day: tod,
                                        start_time: start,
                                        end_time: end,
                                        commission,
                                        chair,
                                    },
                                    questions: spec_questions(
                                        nodes,
                                        spec_all_questions(nodes.len()),
                                        ItemKind::CommissionQuestion,
                                    ),
                                },
                            ),
                        },
                    },
                },
            },
        },
    }
}

/// Extracts one committee document: the meeting header (including the
/// committee and its chair), then the question pass over the whole
/// document, since committee reports are question transcripts from
/// start to end.
pub fn extract_commission_meeting(nodes: &Vec<Node>, session_id: u32, commission_id: u32) -> (r:
    Result<CommissionExtract, ExtractError>)
    ensures
        match r {
            Ok(e) => spec_extract_commission_meeting(nodes.deep_view(), session_id, commission_id)
                == Ok::<CommissionExtractV, ExtractError>(e.deep_view()),
            Err(err) => spec_extract_commission_meeting(
                nodes.deep_view(),
                session_id,
                commission_id,
            ) == Err::<CommissionExtractV, ExtractError>(err),
        },
{
    let date = match extract_date_from_document(nodes) {
        None => {
            return Err(ExtractError::MissingDate);
        },
        Some(d) => d,
    };
    let tod = match extract_time_of_day_from_document(nodes) {
        None => {
            return Err(ExtractError::MissingTimeOfDay);
        },
        Some(t) => t,
    };
    let start = match extract_commission_start_time(nodes) {
        None => {
            return Err(ExtractError::MissingStartTime);
        },
        Some(t) => t,
    };
    let end = match extract_commission_end_time(nodes) {
        None => {
            return Err(ExtractError::MissingEndTime);
        },
        Some(t) => t,
    };
    let chair = match extract_chair_from_document(nodes) {
        None => {
            return Err(ExtractError::MissingChair);
        },
        Some(c) => c,
    };
    let commission = match extract_commission_from_document(nodes) {
        None => {
            return Err(ExtractError::MissingCommission);
        },
        Some(c) => c,
    };
    let mut classes: Vec<SectionKind> = Vec::new();
    let mut i: usize = 0;
    while i < nodes.len()
        invariant
            i <= nodes.len(),
            classes@.len() == i,
            forall|k: int| 0 <= k < i ==> classes@[k] == SectionKind::Questions,
        decreases nodes.len() - i,
    {
        classes.push(SectionKind::Questions);
        i += 1;
    }
    proof {
        assert(classes@ =~= spec_all_questions(nodes.deep_view().len()));
    }
    let questions = question_pass(nodes, &classes, ItemKind::CommissionQuestion);
    let e = CommissionExtract {
        meeting: CommissionMeeting {
            session_id,
            commission_id,
            date,
            time_of_day: tod,
            start_time: start,
            end_time: end,
            commission,
            chair,
        },
        questions,
    };
    proof {
        assert(e.deep_view() =~~= spec_extract_commission_meeting(
            nodes.deep_view(),
            session_id,
            commission_id,
        )->Ok_0);
    }
    Ok(e)
}

/// The engine is a function of its input alone: two results both
/// obtained from the same document and identifiers are equal, so
/// re-running the engine on byte-identical input yields byte-identical
/// ordered output.
pub proof fn lemma_engine_deterministic(
    nodes: Seq<NodeV>,
    session_id: u32,
    meeting_id: u32,
    r1: Result<MeetingExtractV, ExtractError>,
    r2: Result<MeetingExtractV, ExtractError>,
)
    requires
        r1 == spec_extract_meeting(nodes, session_id, meeting_id),
        r2 == spec_extract_meeting(nodes, session_id, meeting_id),
    ensures
        r1 == r2,
{
}

/// A document in which no heading opens any section yields no
/// questions, no propositions and no votes: the passes over an
/// everywhere-outside classification leave their empty state alone.
pub proof fn lemma_no_sections_no_entities(nodes: Seq<NodeV>, session_id: u32, meeting_id: u32)
    requires
        forall|j: int|
            0 <= j < nodes.len() && nodes[j].kind == NodeKind::Heading ==> spec_match_section(
                nodes[j].text,
            ) is None,
    ensures
        spec_extract_meeting(nodes, session_id, meeting_id) is Ok
            ==> spec_extract_meeting(nodes, session_id, meeting_id)->Ok_0.questions
            =~= Seq::<QuestionV>::empty() && spec_extract_meeting(
            nodes,
            session_id,
            meeting_id,
        )->Ok_0.propositions =~= Seq::<PropositionV>::empty() && spec_extract_meeting(
            nodes,
            session_id,
            meeting_id,
        )->Ok_0.votes =~= Seq::<VoteV>::empty(),
{
    let classes = spec_scan_sections(nodes);
    assert forall|k: int| 0 <= k < classes.len() implies classes[k] == SectionKind::Outside by {
        crate::section::lemma_no_heading_no_section(nodes, 0, k);
    }
    lemma_scan_len(nodes, 0, SectionKind::Outside);
    lemma_qpass_outside(nodes, classes, 0, spec_qpass_init());
    lemma_ppass_outside(nodes, classes, 0, spec_ppass_init());
    lemma_vpass_outside(nodes, classes, 0, spec_vpass_init());
    assert(spec_questions(nodes, classes, ItemKind::PlenaryQuestion) =~= Seq::<QuestionV>::empty());
    lemma_nonempty_lines_empty();
    assert(spec_prop_finish_pairs(Seq::empty(), Seq::empty()) =~= Seq::<(Seq<char>, Seq<char>)>::empty());
    assert(spec_propositions(nodes, classes) =~= Seq::<PropositionV>::empty());
}

/// The empty buffer splits into one empty line, which carries no text.
proof fn lemma_nonempty_lines_empty()
    ensures
        spec_nonempty_lines(Seq::<char>::empty()) == Seq::<Seq<char>>::empty(),
{
    reveal_strlit("\n");
    let splitv = spec_split(Seq::<char>::empty(), "\n"@);
    assert(splitv =~~= seq![Seq::<char>::empty()]);
    assert(spec_nonempty_lines_from(splitv, 1) =~~= Seq::<Seq<char>>::empty());
    assert(spec_trim(Seq::<char>::empty()).len() == 0);
    assert(spec_nonempty_lines_from(splitv, 0) =~~= Seq::<Seq<char>>::empty());
}

proof fn lemma_scan_len(nodes: Seq<NodeV>, i: int, active: SectionKind)
    requires
        0 <= i <= nodes.len(),
    ensures
        crate::section::spec_scan_from(nodes, i, active).len() == nodes.len() - i,
    decreases nodes.len() - i,
{
    if i < nodes.len() {
        lemma_scan_len(nodes, i + 1, crate::section::spec_scan_step(active, nodes[i]));
    }
}

/// A question pass over nodes classified outside the section keeps its
/// empty state.
proof fn lemma_qpass_outside(nodes: Seq<NodeV>, classes: Seq<SectionKind>, i: int, st: QPassV)
    requires
        0 <= i <= nodes.len(),
        classes.len() == nodes.len(),
        forall|k: int| 0 <= k < classes.len() ==> classes[k] == SectionKind::Outside,
        st.acc == spec_qacc_empty(),
        st.questions =~= Seq::<QuestionV>::empty(),
    ensures
        ({
            let f = spec_qpass_fold(nodes, classes, i, st, ItemKind::PlenaryQuestion);
            f.acc == spec_qacc_empty() && f.questions =~= Seq::<QuestionV>::empty()
        }),
    decreases nodes.len() - i,
{
    if i < nodes.len() {
        let st2 = spec_qpass_step(st, nodes[i], classes[i], ItemKind::PlenaryQuestion);
        assert(spec_qacc_finish(st.acc) is None);
        assert(st2.acc == spec_qacc_empty() && st2.questions =~= Seq::<QuestionV>::empty());
        lemma_qpass_outside(nodes, classes, i + 1, st2);
    }
}

/// A proposition pass over nodes classified outside the section keeps
/// its empty state.
proof fn lemma_ppass_outside(nodes: Seq<NodeV>, classes: Seq<SectionKind>, i: int, st: PPassV)
    requires
        0 <= i <= nodes.len(),
        classes.len() == nodes.len(),
        forall|k: int| 0 <= k < classes.len() ==> classes[k] == SectionKind::Outside,
        st.acc.nl =~= Seq::<char>::empty(),
        st.acc.fr =~= Seq::<char>::empty(),
        st.props =~= Seq::<PropositionV>::empty(),
    ensures
        ({
            let f = spec_ppass_fold(nodes, classes, i, st);
            f.acc.nl =~= Seq::<char>::empty() && f.acc.fr =~= Seq::<char>::empty() && f.props
                =~= Seq::<PropositionV>::empty()
        }),
    decreases nodes.len() - i,
{
    if i < nodes.len() {
        let st2 = spec_ppass_step(st, nodes[i], classes[i]);
        lemma_nonempty_lines_empty();
        assert(st.acc.nl == Seq::<char>::empty());
        assert(st.acc.fr == Seq::<char>::empty());
        assert(spec_prop_finish_pairs(st.acc.nl, st.acc.fr) =~= Seq::<(Seq<char>, Seq<char>)>::empty());
        assert(spec_emit_props(st.next_id, Seq::empty(), 0) =~= Seq::<PropositionV>::empty());
        assert(st2.props =~= Seq::<PropositionV>::empty());
        lemma_ppass_outside(nodes, classes, i + 1, st2);
    }
}

/// A vote pass over nodes classified outside the section emits no
/// votes.
proof fn lemma_vpass_outside(nodes: Seq<NodeV>, classes: Seq<SectionKind>, i: int, st: VPassV)
    requires
        0 <= i <= nodes.len(),
        classes.len() == nodes.len(),
        forall|k: int| 0 <= k < classes.len() ==> classes[k] == SectionKind::Outside,
        st.votes =~= Seq::<VoteV>::empty(),
    ensures
        spec_vpass_fold(nodes, classes, i, st).votes =~= Seq::<VoteV>::empty(),
    decreases nodes.len() - i,
{
    if i < nodes.len() {
        lemma_vpass_outside(nodes, classes, i + 1, spec_vpass_step(nodes, st, nodes[i], classes[i]));
    }
}

} // verus!

verus! {

/// Every record of one flushed group shares the same discussion: a
/// grouped heading yields one question per embedded sub-question, all
/// carrying the group's segmented discussion text.
pub proof fn lemma_group_shares_discussion(
    qnl: QuestionDataV,
    qfr: QuestionDataV,
    turns: Seq<DiscussionTurnV>,
    base: u32,
    j: int,
    n: int,
)
    requires
        0 <= j <= n,
    ensures
        forall|k: int|
            0 <= k < spec_group_questions(qnl, qfr, turns, base, j, n).len()
                ==> #[trigger] spec_group_questions(qnl, qfr, turns, base, j, n)[k].discussion
                == turns,
    decreases n - j,
{
    if j < n {
        lemma_group_shares_discussion(qnl, qfr, turns, base, j + 1, n);
        assert forall|k: int|
            0 <= k < spec_group_questions(qnl, qfr, turns, base, j, n).len() implies #[trigger] spec_group_questions(
            qnl,
            qfr,
            turns,
            base,
            j,
            n,
        )[k].discussion == turns by {
            if k > 0 {
                assert(spec_group_questions(qnl, qfr, turns, base, j, n)[k]
                    == spec_group_questions(qnl, qfr, turns, base, j + 1, n)[k - 1]);
            }
        }
    }
}

} // verus!
