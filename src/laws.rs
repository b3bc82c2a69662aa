//! Laws of the matching engine, stated over the store's evaluation step.
use vstd::prelude::*;
use crate::engine::holds_pair;
use crate::engine::{is_event, NotificationKind, Transition};
use crate::models::{AgentProfile, MatchingStatus};
use crate::oracle::Verdict;
use crate::store::{
    approves, confirmed, evaluation_effect, evaluation_step, evaluations, note_of, pass_result,
    pass_step, record_of, same_pair, slot_approves, MatchStore,
};

verus! {

/// In a well-formed store a pair is confirmed exactly when each side's
/// agent approves of the other.
pub proof fn lemma_confirmed_iff_mutual(s: MatchStore, x: Seq<char>, y: Seq<char>)
    requires
        s.wf(),
    ensures
        confirmed(s.matches@, x, y) == (approves(s.matches@, x, y) && approves(
            s.matches@,
            y,
            x,
        )),
{
    let m = s.matches@;
    if confirmed(m, x, y) {
        let i = choose|i: int| 0 <= i < m.len() && holds_pair(#[trigger] m[i], x, y) && m[i].is_matched;
        assert(m[i].id == i + 1);
        assert(slot_approves(m[i], x, y));
        assert(slot_approves(m[i], y, x));
    }
    if approves(m, x, y) && approves(m, y, x) {
        let i = choose|i: int| 0 <= i < m.len() && slot_approves(#[trigger] m[i], x, y);
        let j = choose|j: int| 0 <= j < m.len() && slot_approves(#[trigger] m[j], y, x);
        assert(i == j) by {
            if i != j {
                assert(!same_pair(m[i], m[j]));
            }
        }
        assert(m[i].id == i + 1);
        assert(holds_pair(m[i], x, y));
    }
}

/// Confirmation takes both sides: an evaluation not run as `c` never
/// records `c`'s approval of `u`, so when `c` had not approved `u` before,
/// the pair is still unconfirmed after it, whatever the verdict.
pub proof fn law_one_side_cannot_confirm(
    s1: MatchStore,
    s2: MatchStore,
    acting: Seq<char>,
    candidate: Seq<char>,
    recommend: bool,
    u: Seq<char>,
    c: Seq<char>,
)
    requires
        s1.wf(),
        evaluation_step(s1, s2, acting, candidate, recommend),
        acting != c,
        !approves(s1.matches@, c, u),
    ensures
        !approves(s2.matches@, c, u),
        !confirmed(s2.matches@, u, c),
        !confirmed(s2.matches@, c, u),
{
    assert(approves(s2.matches@, c, u) == (approves(s1.matches@, c, u) || (recommend && c
        == acting && u == candidate)));
    lemma_confirmed_iff_mutual(s2, u, c);
    lemma_confirmed_iff_mutual(s2, c, u);
}

/// A recommending evaluation of `c` run as `u`, followed by a recommending
/// evaluation of `u` run as `c`, confirms the pair.
pub proof fn law_mutual_recommendations_confirm(
    s1: MatchStore,
    s2: MatchStore,
    s3: MatchStore,
    u: Seq<char>,
    c: Seq<char>,
)
    requires
        s1.wf(),
        evaluation_step(s1, s2, u, c, true),
        evaluation_step(s2, s3, c, u, true),
    ensures
        confirmed(s3.matches@, u, c),
        confirmed(s3.matches@, c, u),
{
    assert(approves(s2.matches@, u, c));
    assert(approves(s3.matches@, u, c) == (approves(s2.matches@, u, c) || (u == c && c == u)));
    assert(approves(s3.matches@, c, u));
    lemma_confirmed_iff_mutual(s3, u, c);
    lemma_confirmed_iff_mutual(s3, c, u);
}

/// Confirmation is sticky: no evaluation, recommending or not, turns a
/// confirmed pair back.
pub proof fn law_confirmation_is_sticky(
    s1: MatchStore,
    s2: MatchStore,
    acting: Seq<char>,
    candidate: Seq<char>,
    recommend: bool,
    x: Seq<char>,
    y: Seq<char>,
)
    requires
        s1.wf(),
        evaluation_step(s1, s2, acting, candidate, recommend),
        confirmed(s1.matches@, x, y),
    ensures
        confirmed(s2.matches@, x, y),
{
    lemma_confirmed_iff_mutual(s1, x, y);
    assert(approves(s2.matches@, x, y) == (approves(s1.matches@, x, y) || (recommend && x
        == acting && y == candidate)));
    assert(approves(s2.matches@, y, x) == (approves(s1.matches@, y, x) || (recommend && y
        == acting && x == candidate)));
    lemma_confirmed_iff_mutual(s2, x, y);
}

/// At most one record exists per unordered pair: two records of the pair
/// `x`, `y`, in either slot order, are the same record.
pub proof fn law_one_record_per_pair(s: MatchStore, x: Seq<char>, y: Seq<char>, i: int, j: int)
    requires
        s.wf(),
        0 <= i < s.matches@.len(),
        0 <= j < s.matches@.len(),
        holds_pair(s.matches@[i], x, y),
        holds_pair(s.matches@[j], x, y) || holds_pair(s.matches@[j], y, x),
    ensures
        i == j,
{
    if i != j {
        assert(!same_pair(s.matches@[i], s.matches@[j]));
    }
}

/// Each accepted evaluation raises the counter of its own ordered pair by
/// exactly one and leaves every other counter as it was.
pub proof fn law_counter_steps_by_one(
    s1: MatchStore,
    s2: MatchStore,
    acting: Seq<char>,
    candidate: Seq<char>,
    recommend: bool,
    x: Seq<char>,
    y: Seq<char>,
)
    requires
        evaluation_step(s1, s2, acting, candidate, recommend),
    ensures
        evaluations(s2.notes@, acting, candidate) == evaluations(s1.notes@, acting, candidate)
            + 1,
        !(x == acting && y == candidate) ==> evaluations(s2.notes@, x, y) == evaluations(
            s1.notes@,
            x,
            y,
        ),
{
    assert(evaluations(s2.notes@, acting, candidate) == evaluations(s1.notes@, acting, candidate)
        + 1);
    assert(evaluations(s2.notes@, x, y) == evaluations(s1.notes@, x, y) + if x == acting && y
        == candidate {
        1int
    } else {
        0int
    });
}

/// Confirmation takes a run as each side: along any sequence of accepted
/// evaluations, none of them run as `c`, starting from a store where `c`
/// has not approved `u`, the pair of `u` and `c` never becomes confirmed,
/// whatever the verdicts of those evaluations.
pub proof fn law_runs_without_c_never_confirm(
    states: Seq<MatchStore>,
    actings: Seq<Seq<char>>,
    candidates: Seq<Seq<char>>,
    recs: Seq<bool>,
    u: Seq<char>,
    c: Seq<char>,
)
    requires
        states.len() == actings.len() + 1,
        actings.len() == candidates.len(),
        actings.len() == recs.len(),
        states[0].wf(),
        !approves(states[0].matches@, c, u),
        forall|i: int|
            0 <= i < actings.len() ==> #[trigger] actings[i] != c && evaluation_step(
                states[i],
                states[i + 1],
                actings[i],
                candidates[i],
                recs[i],
            ),
    ensures
        forall|i: int| 0 <= i < states.len() ==> !confirmed(#[trigger] states[i].matches@, u, c),
{
    assert forall|i: int| 0 <= i < states.len() implies !confirmed(
        #[trigger] states[i].matches@,
        u,
        c,
    ) by {
        lemma_approval_stays_absent(states, actings, candidates, recs, u, c, i);
        lemma_confirmed_iff_mutual(states[i], u, c);
    }
}

/// Along such a sequence, `c`'s approval of `u` stays absent and every
/// store stays well formed.
proof fn lemma_approval_stays_absent(
    states: Seq<MatchStore>,
    actings: Seq<Seq<char>>,
    candidates: Seq<Seq<char>>,
    recs: Seq<bool>,
    u: Seq<char>,
    c: Seq<char>,
    k: int,
)
    requires
        states.len() == actings.len() + 1,
        actings.len() == candidates.len(),
        actings.len() == recs.len(),
        states[0].wf(),
        !approves(states[0].matches@, c, u),
        forall|i: int|
            0 <= i < actings.len() ==> #[trigger] actings[i] != c && evaluation_step(
                states[i],
                states[i + 1],
                actings[i],
                candidates[i],
                recs[i],
            ),
        0 <= k < states.len(),
    ensures
        !approves(states[k].matches@, c, u),
        states[k].wf(),
    decreases k,
{
    if k > 0 {
        lemma_approval_stays_absent(states, actings, candidates, recs, u, c, k - 1);
        assert(actings[k - 1] != c && evaluation_step(
            states[k - 1],
            states[k],
            actings[k - 1],
            candidates[k - 1],
            recs[k - 1],
        ));
        assert(approves(states[k].matches@, c, u) == (approves(states[k - 1].matches@, c, u) || (
        recs[k - 1] && c == actings[k - 1] && u == candidates[k - 1])));
    }
}

/// Along the stores of a pass of `me`, every store is well formed, no
/// approval is lost, and no approval given by anyone but `me` appears.
proof fn lemma_pass_prefix(
    s1: MatchStore,
    s2: MatchStore,
    me: Seq<char>,
    cands: Seq<AgentProfile>,
    vs: Seq<Option<Verdict>>,
    now: Seq<char>,
    st: MatchingStatus,
    t: Seq<MatchStore>,
    ts: Seq<Transition>,
    i: int,
)
    requires
        s1.wf(),
        pass_result(s1, s2, me, cands, vs, now, st, t, ts),
        0 <= i <= cands.len(),
    ensures
        t[i].wf(),
        forall|x: Seq<char>, y: Seq<char>|
            approves(s1.matches@, x, y) ==> #[trigger] approves(t[i].matches@, x, y),
        forall|x: Seq<char>, y: Seq<char>|
            x != me ==> #[trigger] approves(t[i].matches@, x, y) == approves(s1.matches@, x, y),
    decreases i,
{
    if i > 0 {
        lemma_pass_prefix(s1, s2, me, cands, vs, now, st, t, ts, i - 1);
        let j = i - 1;
        assert(pass_step(t[j], t[j + 1], me, cands[j], vs[j], now, ts[j]));
        assert(t[j + 1] == t[i]);
        if crate::store::accepted(me, cands[i - 1], vs[i - 1]) {
            let c = cands[i - 1].user_id@;
            let rec = vs[i - 1].unwrap().recommend;
            assert forall|x: Seq<char>, y: Seq<char>|
                approves(s1.matches@, x, y) implies #[trigger] approves(t[i].matches@, x, y) by {
                assert(approves(t[i].matches@, x, y) == (approves(t[i - 1].matches@, x, y) || (rec
                    && x == me && y == c)));
            }
            assert forall|x: Seq<char>, y: Seq<char>|
                x != me implies #[trigger] approves(t[i].matches@, x, y) == approves(
                s1.matches@,
                x,
                y,
            ) by {
                assert(approves(t[i].matches@, x, y) == (approves(t[i - 1].matches@, x, y) || (rec
                    && x == me && y == c)));
            }
        }
    }
}

/// A whole matching pass run as `me` never records another user's approval,
/// so a pair that `c` had not approved is still unconfirmed after it,
/// whatever the oracle answered: confirming takes a pass run as `c` too.
pub proof fn law_pass_cannot_confirm_for_other_side(
    s1: MatchStore,
    s2: MatchStore,
    me: Seq<char>,
    cands: Seq<AgentProfile>,
    vs: Seq<Option<Verdict>>,
    now: Seq<char>,
    st: MatchingStatus,
    t: Seq<MatchStore>,
    ts: Seq<Transition>,
    c: Seq<char>,
)
    requires
        s1.wf(),
        pass_result(s1, s2, me, cands, vs, now, st, t, ts),
        c != me,
        !approves(s1.matches@, c, me),
    ensures
        !approves(s2.matches@, c, me),
        !confirmed(s2.matches@, me, c),
{
    lemma_pass_prefix(s1, s2, me, cands, vs, now, st, t, ts, cands.len() as int);
    assert(approves(t[cands.len() as int].matches@, c, me) == approves(s1.matches@, c, me));
    lemma_confirmed_iff_mutual(s2, me, c);
}

/// A whole matching pass never turns a confirmed pair back, whatever the
/// oracle answered.
pub proof fn law_pass_keeps_confirmation(
    s1: MatchStore,
    s2: MatchStore,
    me: Seq<char>,
    cands: Seq<AgentProfile>,
    vs: Seq<Option<Verdict>>,
    now: Seq<char>,
    st: MatchingStatus,
    t: Seq<MatchStore>,
    ts: Seq<Transition>,
    x: Seq<char>,
    y: Seq<char>,
)
    requires
        s1.wf(),
        pass_result(s1, s2, me, cands, vs, now, st, t, ts),
        confirmed(s1.matches@, x, y),
    ensures
        confirmed(s2.matches@, x, y),
{
    lemma_pass_prefix(s1, s2, me, cands, vs, now, st, t, ts, cands.len() as int);
    lemma_confirmed_iff_mutual(s1, x, y);
    assert(approves(t[cands.len() as int].matches@, x, y));
    assert(approves(t[cands.len() as int].matches@, y, x));
    lemma_confirmed_iff_mutual(s2, x, y);
}

/// The first recommendation of `c` by `u` creates the pair's record with
/// `u` approving and `c` not, unconfirmed, and notifies `c` alone of a
/// proposal; the recommendation of `u` by `c` that follows sets `c`'s flag
/// on that same record, confirms it, and notifies both sides.
pub proof fn law_mutual_recommendation_sequence(
    s1: MatchStore,
    s2: MatchStore,
    s3: MatchStore,
    u: Seq<char>,
    c: Seq<char>,
    v1: Verdict,
    v2: Verdict,
    now1: Seq<char>,
    now2: Seq<char>,
)
    requires
        s1.wf(),
        record_of(s1.matches@, u, c) is None,
        v1.recommend,
        v2.recommend,
        evaluation_effect(s1, s2, u, c, v1, now1),
        evaluation_effect(s2, s3, c, u, v2, now2),
    ensures
        record_of(s2.matches@, u, c) is Some,
        record_of(s2.matches@, u, c).unwrap().user_a_id@ == u,
        record_of(s2.matches@, u, c).unwrap().user_b_id@ == c,
        record_of(s2.matches@, u, c).unwrap().agent_a_approves,
        !record_of(s2.matches@, u, c).unwrap().agent_b_approves,
        !record_of(s2.matches@, u, c).unwrap().is_matched,
        s2.outbox@.len() == s1.outbox@.len() + 1,
        is_event(s2.outbox@[s1.outbox@.len() as int], c, NotificationKind::MatchProposal, u),
        record_of(s3.matches@, u, c) is Some,
        record_of(s3.matches@, u, c).unwrap().id == record_of(s2.matches@, u, c).unwrap().id,
        record_of(s3.matches@, u, c).unwrap().user_a_id@ == u,
        record_of(s3.matches@, u, c).unwrap().agent_a_approves,
        record_of(s3.matches@, u, c).unwrap().agent_b_approves,
        record_of(s3.matches@, u, c).unwrap().is_matched,
        s3.outbox@.len() == s2.outbox@.len() + 2,
        is_event(s3.outbox@[s2.outbox@.len() as int], c, NotificationKind::MatchConfirmed, u),
        is_event(s3.outbox@[s2.outbox@.len() + 1int], u, NotificationKind::MatchConfirmed, c),
{
    assert(!crate::store::paired(s1.matches@, u, c));
    let w = record_of(s2.matches@, u, c).unwrap();
    assert(record_of(s2.matches@, c, u) == Some(w));
    lemma_confirmed_iff_mutual(s2, c, u);
    assert(!approves(s2.matches@, u, c) || !approves(s2.matches@, c, u) || !confirmed(
        s2.matches@,
        c,
        u,
    ));
    assert(approves(s2.matches@, c, u) == (approves(s1.matches@, c, u) || (c == u && u == c)));
    assert(!approves(s1.matches@, c, u)) by {
        if approves(s1.matches@, c, u) {
            let i = choose|i: int|
                0 <= i < s1.matches@.len() && slot_approves(#[trigger] s1.matches@[i], c, u);
            assert(crate::engine::holds_pair(s1.matches@[i], u, c));
        }
    }
    assert(crate::store::paired(s2.matches@, c, u)) by {
        assert(crate::store::paired(s2.matches@, u, c));
        let i = choose|i: int|
            0 <= i < s2.matches@.len() && crate::engine::holds_pair(#[trigger] s2.matches@[i], u, c);
        assert(crate::engine::holds_pair(s2.matches@[i], c, u));
    }
    assert(approves(s2.matches@, u, c)) by {
        let k = crate::store::pair_index(s2.matches@, u, c);
        assert(slot_approves(s2.matches@[k], u, c));
    }
}

/// An evaluation whose verdict does not recommend rewrites the evaluator's
/// note (counter one higher, the verdict's score, rationale and flag) and
/// leaves the pair's record and the notifications as they were.
pub proof fn law_unrecommending_evaluation(
    s1: MatchStore,
    s2: MatchStore,
    u: Seq<char>,
    c: Seq<char>,
    v: Verdict,
    now: Seq<char>,
)
    requires
        evaluation_effect(s1, s2, u, c, v, now),
        !v.recommend,
    ensures
        note_of(s2.notes@, u, c) is Some,
        note_of(s2.notes@, u, c).unwrap().conversation_count == evaluations(s1.notes@, u, c) + 1,
        note_of(s2.notes@, u, c).unwrap().compatibility_score == v.score,
        note_of(s2.notes@, u, c).unwrap().notes@ == v.rationale@,
        !note_of(s2.notes@, u, c).unwrap().recommends_match,
        record_of(s2.matches@, u, c) == record_of(s1.matches@, u, c),
        s2.outbox@ == s1.outbox@,
{
    assert(s2.outbox@.subrange(0, s1.outbox@.len() as int) == s1.outbox@);
    assert(s2.outbox@ == s2.outbox@.subrange(0, s1.outbox@.len() as int));
}

} // verus!
