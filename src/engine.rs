//! One step of the pairwise match state machine.
//!
//! A pair of users has no record (none), a record that one side approves
//! (proposed), or a record that both sides approve (confirmed). An
//! evaluation by the acting user of a candidate rewrites the acting user's
//! peer note and, when it recommends, moves the pair forward: it creates the
//! record, or sets the approval flag of the slot the acting user occupies.
use vstd::prelude::*;
use crate::models::{AgentPeerNote, MatchRecord, MatchingStatus};
use crate::oracle::Verdict;

verus! {

/// Why a matching step or pass was refused.
#[derive(Debug, Clone, Copy, PartialEq, Eq)]
pub enum MatchingError {
    /// The acting user's learned profile is still empty.
    InsufficientSignal,
    /// A user cannot be evaluated against themself.
    SelfEvaluation,
    /// The stored note or record does not belong to the evaluated pair.
    NotParticipant,
    /// A counter or the id space has no room left.
    Exhausted,
}

/// The kind of a notification the engine emits.
#[derive(Debug, Clone, Copy, PartialEq, Eq)]
pub enum NotificationKind {
    /// A new record was created by the other side's agent.
    MatchProposal,
    /// Both sides now approve.
    MatchConfirmed,
}

impl NotificationKind {
    /// The type tag stored with a notification of this kind.
    pub open spec fn spec_tag(self) -> Seq<char> {
        match self {
            NotificationKind::MatchProposal => "match_proposal"@,
            NotificationKind::MatchConfirmed => "match_confirmed"@,
        }
    }

    /// The type tag stored with a notification of this kind.
    pub fn tag(&self) -> (r: String)
        ensures
            r@ == self.spec_tag(),
    {
        match self {
            NotificationKind::MatchProposal => String::from_str("match_proposal"),
            NotificationKind::MatchConfirmed => String::from_str("match_confirmed"),
        }
    }
}

/// A notification to emit: whom it is for, its kind, and the other user.
#[derive(Debug, Clone)]
pub struct NotificationEvent {
    pub recipient_id: String,
    pub kind: NotificationKind,
    pub related_user_id: String,
}

/// What an evaluation did to the pair's record.
#[derive(Debug, Clone, Copy, PartialEq, Eq)]
pub enum Transition {
    /// No recommendation: the record, if any, was left alone.
    Unchanged,
    /// A new record was created with the acting user approving.
    Proposed,
    /// The acting user's flag was set on an existing record, which did not
    /// become confirmed by it.
    Approved,
    /// The acting user's flag was set and the record became confirmed.
    Confirmed,
}

/// The result of one successful evaluation: the note to upsert, the record
/// to write (none when it is left alone), and the notifications to emit.
#[derive(Debug, Clone)]
pub struct PairOutcome {
    pub note: AgentPeerNote,
    pub record: Option<MatchRecord>,
    pub transition: Transition,
    pub events: Vec<NotificationEvent>,
}

/// Whether `r` holds the users `u` and `c`, in either slot.
pub open spec fn holds_pair(r: MatchRecord, u: Seq<char>, c: Seq<char>) -> bool {
    (r.user_a_id@ == u && r.user_b_id@ == c) || (r.user_a_id@ == c && r.user_b_id@ == u)
}

/// Whether `n` is the note of evaluator `u` about subject `c`.
pub open spec fn note_for(n: AgentPeerNote, u: Seq<char>, c: Seq<char>) -> bool {
    n.agent_user_id@ == u && n.about_user_id@ == c
}

/// The evaluation counter after one more evaluation.
pub open spec fn next_count(prior: Option<AgentPeerNote>) -> int {
    match prior {
        Some(n) => n.conversation_count + 1,
        None => 1,
    }
}

/// Whether `e` is a notification of `kind` to `recipient` about `related`.
pub open spec fn is_event(
    e: NotificationEvent,
    recipient: Seq<char>,
    kind: NotificationKind,
    related: Seq<char>,
) -> bool {
    e.recipient_id@ == recipient && e.kind == kind && e.related_user_id@ == related
}

/// The inputs of a step are refused exactly when this is `Some`.
pub open spec fn step_error(
    u: Seq<char>,
    c: Seq<char>,
    prior: Option<AgentPeerNote>,
    record: Option<MatchRecord>,
) -> Option<MatchingError> {
    if u == c {
        Some(MatchingError::SelfEvaluation)
    } else if (prior matches Some(n) && !note_for(n, u, c)) || (record matches Some(r)
        && !holds_pair(r, u, c)) {
        Some(MatchingError::NotParticipant)
    } else if prior matches Some(n) && n.conversation_count == i64::MAX {
        Some(MatchingError::Exhausted)
    } else {
        None
    }
}

/// `n` is the note after an evaluation of `c` by `u` with `verdict`.
pub open spec fn rewritten_note(
    n: AgentPeerNote,
    u: Seq<char>,
    c: Seq<char>,
    prior: Option<AgentPeerNote>,
    verdict: Verdict,
    now: Seq<char>,
) -> bool {
    &&& n.id == (match prior {
        Some(p) => p.id,
        None => 0,
    })
    &&& note_for(n, u, c)
    &&& n.compatibility_score == verdict.score
    &&& n.notes@ == verdict.rationale@
    &&& n.recommends_match == verdict.recommend
    &&& n.conversation_count == next_count(prior)
    &&& n.updated_at@ == now
}

/// `w` is the record created by `u`'s recommendation of `c`: `u` in slot a,
/// approving; `c` in slot b, not yet approving; not confirmed.
pub open spec fn proposed_record(
    w: MatchRecord,
    u: Seq<char>,
    c: Seq<char>,
    id: i64,
    now: Seq<char>,
) -> bool {
    &&& w.id == id
    &&& w.user_a_id@ == u
    &&& w.user_b_id@ == c
    &&& w.agent_a_approves
    &&& !w.agent_b_approves
    &&& !w.is_matched
    &&& w.created_at@ == now
    &&& w.updated_at@ == now
    &&& w.other_user is None
}

/// `w` is `r` after `u` approved it: only the flag of the slot that `u`
/// occupies is set, and the record is confirmed once both flags are set.
pub open spec fn approved_record(w: MatchRecord, r: MatchRecord, u: Seq<char>, now: Seq<char>) -> bool {
    &&& w.id == r.id
    &&& w.user_a_id == r.user_a_id
    &&& w.user_b_id == r.user_b_id
    &&& w.agent_a_approves == (r.agent_a_approves || r.user_a_id@ == u)
    &&& w.agent_b_approves == (r.agent_b_approves || r.user_b_id@ == u)
    &&& w.is_matched == (r.is_matched || (w.agent_a_approves && w.agent_b_approves))
    &&& w.created_at == r.created_at
    &&& w.updated_at@ == now
    &&& w.other_user == r.other_user
}

/// `out` is what an accepted evaluation of `c` by `u` does.
pub open spec fn step_outcome(
    out: PairOutcome,
    u: Seq<char>,
    c: Seq<char>,
    prior: Option<AgentPeerNote>,
    record: Option<MatchRecord>,
    verdict: Verdict,
    fresh_id: i64,
    now: Seq<char>,
) -> bool {
    &&& rewritten_note(out.note, u, c, prior, verdict, now)
    &&& !verdict.recommend ==> {
        &&& out.record is None
        &&& out.transition == Transition::Unchanged
        &&& out.events@.len() == 0
    }
    &&& verdict.recommend ==> match record {
        None => {
            &&& out.record is Some
            &&& proposed_record(out.record.unwrap(), u, c, fresh_id, now)
            &&& out.transition == Transition::Proposed
            &&& out.events@.len() == 1
            &&& is_event(out.events@[0], c, NotificationKind::MatchProposal, u)
        },
        Some(r) => {
            &&& out.record is Some
            &&& approved_record(out.record.unwrap(), r, u, now)
            &&& if !r.is_matched && out.record.unwrap().is_matched {
                &&& out.transition == Transition::Confirmed
                &&& out.events@.len() == 2
                &&& is_event(out.events@[0], u, NotificationKind::MatchConfirmed, c)
                &&& is_event(out.events@[1], c, NotificationKind::MatchConfirmed, u)
            } else {
                &&& out.transition == Transition::Approved
                &&& out.events@.len() == 0
            }
        },
    }
}

/// Counts one accepted evaluation with transition `t` into `status`: every
/// one is counted as evaluated, a created record as a new proposal, and a
/// confirmation reached as a new match.
pub fn count_transition(status: &mut MatchingStatus, t: Transition)
    requires
        old(status).evaluated < usize::MAX,
        old(status).new_recommendations <= old(status).evaluated,
        old(status).new_matches <= old(status).evaluated,
    ensures
        final(status).evaluated == old(status).evaluated + 1,
        final(status).new_recommendations == old(status).new_recommendations + if t
            == Transition::Proposed {
            1int
        } else {
            0int
        },
        final(status).new_matches == old(status).new_matches + if t == Transition::Confirmed {
            1int
        } else {
            0int
        },
{
    status.evaluated = status.evaluated + 1;
    match t {
        Transition::Proposed => {
            status.new_recommendations = status.new_recommendations + 1;
        },
        Transition::Confirmed => {
            status.new_matches = status.new_matches + 1;
        },
        _ => {},
    }
}

/// The user in the other slot of `record`, seen from `user`; none when
/// `user` holds neither slot.
pub fn other_participant(record: &MatchRecord, user: &String) -> (r: Option<String>)
    ensures
        record.user_a_id@ == user@ ==> r is Some && r.unwrap()@ == record.user_b_id@,
        record.user_a_id@ != user@ && record.user_b_id@ == user@ ==> r is Some && r.unwrap()@
            == record.user_a_id@,
        record.user_a_id@ != user@ && record.user_b_id@ != user@ ==> r is None,
{
    if record.user_a_id == *user {
        Some(record.user_b_id.clone())
    } else if record.user_b_id == *user {
        Some(record.user_a_id.clone())
    } else {
        None
    }
}

/// One evaluation of `candidate` by `acting`, given the acting user's prior
/// note about the candidate and the pair's record, if they exist, and the
/// oracle's verdict. A record created here gets `fresh_id` and the time
/// stamp `now`.
///
/// The record is read by slot membership: the acting user's slot is found
/// by comparing ids, and a record or note of another pair is refused.
pub fn evaluate_pair(
    acting: &String,
    candidate: &String,
    prior: Option<&AgentPeerNote>,
    record: Option<&MatchRecord>,
    verdict: &Verdict,
    fresh_id: i64,
    now: &String,
) -> (r: Result<PairOutcome, MatchingError>)
    ensures
        match step_error(
            acting@,
            candidate@,
            match prior {
                Some(n) => Some(*n),
                None => None,
            },
            match record {
                Some(m) => Some(*m),
                None => None,
            },
        ) {
            Some(e) => r == Err::<PairOutcome, MatchingError>(e),
            None => r matches Ok(out) && step_outcome(
                out,
                acting@,
                candidate@,
                match prior {
                    Some(n) => Some(*n),
                    None => None,
                },
                match record {
                    Some(m) => Some(*m),
                    None => None,
                },
                *verdict,
                fresh_id,
                now@,
            ),
        },
{
    if *acting == *candidate {
        return Err(MatchingError::SelfEvaluation);
    }
    if let Some(n) = prior {
        if !(n.agent_user_id == *acting && n.about_user_id == *candidate) {
            return Err(MatchingError::NotParticipant);
        }
    }
    if let Some(m) = record {
        if !((m.user_a_id == *acting && m.user_b_id == *candidate) || (m.user_a_id == *candidate
            && m.user_b_id == *acting)) {
            return Err(MatchingError::NotParticipant);
        }
    }
    let (note_id, count): (i64, i64) = match prior {
        Some(n) => {
            if n.conversation_count == i64::MAX {
                return Err(MatchingError::Exhausted);
            }
            (n.id, n.conversation_count + 1)
        },
        None => (0, 1),
    };
    let note = AgentPeerNote {
        id: note_id,
        agent_user_id: acting.clone(),
        about_user_id: candidate.clone(),
        compatibility_score: verdict.score,
        notes: verdict.rationale.clone(),
        recommends_match: verdict.recommend,
        conversation_count: count,
        updated_at: now.clone(),
    };
    if !verdict.recommend {
        return Ok(
            PairOutcome {
                note,
                record: None,
                transition: Transition::Unchanged,
                events: Vec::new(),
            },
        );
    }
    match record {
        None => {
            let created = MatchRecord {
                id: fresh_id,
                user_a_id: acting.clone(),
                user_b_id: candidate.clone(),
                agent_a_approves: true,
                agent_b_approves: false,
                is_matched: false,
                created_at: now.clone(),
                updated_at: now.clone(),
                other_user: None,
            };
            let mut events: Vec<NotificationEvent> = Vec::new();
            events.push(
                NotificationEvent {
                    recipient_id: candidate.clone(),
                    kind: NotificationKind::MatchProposal,
                    related_user_id: acting.clone(),
                },
            );
            Ok(
                PairOutcome {
                    note,
                    record: Some(created),
                    transition: Transition::Proposed,
                    events,
                },
            )
        },
        Some(m) => {
            let in_a = m.user_a_id == *acting;
            let a = m.agent_a_approves || in_a;
            let b = m.agent_b_approves || !in_a;
            let matched = m.is_matched || (a && b);
            let updated = MatchRecord {
                id: m.id,
                user_a_id: m.user_a_id.clone(),
                user_b_id: m.user_b_id.clone(),
                agent_a_approves: a,
                agent_b_approves: b,
                is_matched: matched,
                created_at: m.created_at.clone(),
                updated_at: now.clone(),
                other_user: match &m.other_user {
                    Some(o) => Some(o.duplicate()),
                    None => None,
                },
            };
            let mut events: Vec<NotificationEvent> = Vec::new();
            let transition = if !m.is_matched && matched {
                events.push(
                    NotificationEvent {
                        recipient_id: acting.clone(),
                        kind: NotificationKind::MatchConfirmed,
                        related_user_id: candidate.clone(),
                    },
                );
                events.push(
                    NotificationEvent {
                        recipient_id: candidate.clone(),
                        kind: NotificationKind::MatchConfirmed,
                        related_user_id: acting.clone(),
                    },
                );
                Transition::Confirmed
            } else {
                Transition::Approved
            };
            Ok(PairOutcome { note, record: Some(updated), transition, events })
        },
    }
}

} // verus!
