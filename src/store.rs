//! An in-memory store of peer notes, match records and pending
//! notifications, with the invariants of the matching engine.
use vstd::prelude::*;
use crate::engine::{
    approved_record, count_transition, evaluate_pair, holds_pair, is_event, note_for,
    proposed_record, rewritten_note, MatchingError,
    NotificationEvent, NotificationKind, PairOutcome, Transition,
};
use crate::messaging::{authorize_thread, may_use_thread, post_direct_message, DmError};
use crate::models::{AgentPeerNote, AgentProfile, DirectMessage, MatchRecord, MatchingStatus};
use crate::oracle::Verdict;
use crate::profile::{has_signal, spec_has_signal};
use crate::text::trimmed;
use vstd::seq_lib::{lemma_multiset_commutative, to_multiset_build, to_multiset_insert};

verus! {

/// Whether two records stand for the same unordered pair of users.
pub open spec fn same_pair(r: MatchRecord, s: MatchRecord) -> bool {
    holds_pair(r, s.user_a_id@, s.user_b_id@)
}

/// A record holds two distinct users and is confirmed exactly when both
/// slots approve.
pub open spec fn record_ok(r: MatchRecord) -> bool {
    &&& r.user_a_id@ != r.user_b_id@
    &&& r.is_matched == (r.agent_a_approves && r.agent_b_approves)
}

/// Whether `r` records that `x`'s agent approves of `y`.
pub open spec fn slot_approves(r: MatchRecord, x: Seq<char>, y: Seq<char>) -> bool {
    (r.user_a_id@ == x && r.user_b_id@ == y && r.agent_a_approves) || (r.user_b_id@ == x
        && r.user_a_id@ == y && r.agent_b_approves)
}

/// Whether some record says that `x`'s agent approves of `y`.
pub open spec fn approves(m: Seq<MatchRecord>, x: Seq<char>, y: Seq<char>) -> bool {
    exists|i: int| 0 <= i < m.len() && slot_approves(#[trigger] m[i], x, y)
}

/// Whether a record exists for the pair `x`, `y`.
pub open spec fn paired(m: Seq<MatchRecord>, x: Seq<char>, y: Seq<char>) -> bool {
    exists|i: int| 0 <= i < m.len() && holds_pair(#[trigger] m[i], x, y)
}

/// Whether the pair `x`, `y` is a confirmed match.
pub open spec fn confirmed(m: Seq<MatchRecord>, x: Seq<char>, y: Seq<char>) -> bool {
    exists|i: int| 0 <= i < m.len() && holds_pair(#[trigger] m[i], x, y) && m[i].is_matched
}

/// Whether a note of `x` about `y` exists.
pub open spec fn has_note(n: Seq<AgentPeerNote>, x: Seq<char>, y: Seq<char>) -> bool {
    exists|i: int| 0 <= i < n.len() && note_for(#[trigger] n[i], x, y)
}

/// The position of the note of `x` about `y`, where one exists.
pub open spec fn note_index(n: Seq<AgentPeerNote>, x: Seq<char>, y: Seq<char>) -> int {
    choose|i: int| 0 <= i < n.len() && note_for(#[trigger] n[i], x, y)
}

/// The note of `x` about `y`, if there is one.
pub open spec fn note_of(n: Seq<AgentPeerNote>, x: Seq<char>, y: Seq<char>) -> Option<AgentPeerNote> {
    if has_note(n, x, y) {
        Some(n[note_index(n, x, y)])
    } else {
        None
    }
}

/// How many times `x`'s agent has evaluated `y` (0 when it never has).
pub open spec fn evaluations(n: Seq<AgentPeerNote>, x: Seq<char>, y: Seq<char>) -> int {
    match note_of(n, x, y) {
        Some(k) => k.conversation_count as int,
        None => 0,
    }
}

/// The position of the record of the pair `x`, `y`, where one exists.
pub open spec fn pair_index(m: Seq<MatchRecord>, x: Seq<char>, y: Seq<char>) -> int {
    choose|i: int| 0 <= i < m.len() && holds_pair(#[trigger] m[i], x, y)
}

/// The record of the pair `x`, `y`, if there is one.
pub open spec fn record_of(m: Seq<MatchRecord>, x: Seq<char>, y: Seq<char>) -> Option<MatchRecord> {
    if paired(m, x, y) {
        Some(m[pair_index(m, x, y)])
    } else {
        None
    }
}

/// Whether `x`, `y` is the pair `u`, `c` in either order.
pub open spec fn is_pair(x: Seq<char>, y: Seq<char>, u: Seq<char>, c: Seq<char>) -> bool {
    (x == u && y == c) || (x == c && y == u)
}

/// Every record is consistent and carries its position plus one as id.
pub open spec fn records_ok(m: Seq<MatchRecord>) -> bool {
    forall|i: int| 0 <= i < m.len() ==> (#[trigger] m[i]).id == i + 1 && record_ok(m[i])
}

/// No two records stand for the same unordered pair.
pub open spec fn records_unique(m: Seq<MatchRecord>) -> bool {
    forall|i: int, j: int|
        0 <= i < m.len() && 0 <= j < m.len() && i != j ==> !same_pair(
            #[trigger] m[i],
            #[trigger] m[j],
        )
}

/// No note is about its own author, and no two notes share an ordered pair.
pub open spec fn notes_ok(n: Seq<AgentPeerNote>) -> bool {
    &&& forall|i: int| 0 <= i < n.len() ==> (#[trigger] n[i]).agent_user_id@ != n[i].about_user_id@
    &&& forall|i: int, j: int|
        0 <= i < n.len() && 0 <= j < n.len() && i != j ==> !note_for(
            #[trigger] n[i],
            n[j].agent_user_id@,
            (#[trigger] n[j]).about_user_id@,
        )
}

/// Replacing the note of `u` about `c` by another such note changes only
/// that pair's evaluation count.
proof fn lemma_note_replaced(
    n: Seq<AgentPeerNote>,
    k: int,
    note: AgentPeerNote,
    u: Seq<char>,
    c: Seq<char>,
)
    requires
        notes_ok(n),
        0 <= k < n.len(),
        note_for(n[k], u, c),
        note_for(note, u, c),
    ensures
        notes_ok(n.update(k, note)),
        forall|x: Seq<char>, y: Seq<char>|
            #[trigger] note_of(n.update(k, note), x, y) == if x == u && y == c {
                Some(note)
            } else {
                note_of(n, x, y)
            },
        forall|x: Seq<char>, y: Seq<char>|
            #[trigger] evaluations(n.update(k, note), x, y) == if x == u && y == c {
                note.conversation_count as int
            } else {
                evaluations(n, x, y)
            },
{
    let n2 = n.update(k, note);
    assert forall|i: int, j: int|
        0 <= i < n2.len() && 0 <= j < n2.len() && i != j implies !note_for(
        #[trigger] n2[i],
        n2[j].agent_user_id@,
        (#[trigger] n2[j]).about_user_id@,
    ) by {
        assert(note_for(n[i], n[j].agent_user_id@, n[j].about_user_id@) == note_for(
            n2[i],
            n2[j].agent_user_id@,
            n2[j].about_user_id@,
        ));
    }
    assert forall|i: int| 0 <= i < n2.len() implies (#[trigger] n2[i]).agent_user_id@
        != n2[i].about_user_id@ by {
        assert(n[i].agent_user_id@ != n[i].about_user_id@);
    }
    assert forall|x: Seq<char>, y: Seq<char>|
        #[trigger] note_of(n2, x, y) == if x == u && y == c {
            Some(note)
        } else {
            note_of(n, x, y)
        } by {
        if x == u && y == c {
            assert(note_for(n2[k], x, y));
            let j = note_index(n2, x, y);
            assert(j == k);
        } else {
            if has_note(n2, x, y) {
                let j = note_index(n2, x, y);
                assert(j != k);
                assert(note_for(n[j], x, y));
                let j2 = note_index(n, x, y);
                assert(j2 == j);
            }
            if has_note(n, x, y) {
                let j = note_index(n, x, y);
                assert(j != k);
                assert(note_for(n2[j], x, y));
            }
        }
    }
    assert forall|x: Seq<char>, y: Seq<char>|
        #[trigger] evaluations(n2, x, y) == if x == u && y == c {
            note.conversation_count as int
        } else {
            evaluations(n, x, y)
        } by {
        assert(note_of(n2, x, y) == if x == u && y == c {
            Some(note)
        } else {
            note_of(n, x, y)
        });
    }
}

/// Adding the first note of `u` about `c` changes only that pair's
/// evaluation count.
proof fn lemma_note_added(n: Seq<AgentPeerNote>, note: AgentPeerNote, u: Seq<char>, c: Seq<char>)
    requires
        notes_ok(n),
        !has_note(n, u, c),
        note_for(note, u, c),
        u != c,
    ensures
        notes_ok(n.push(note)),
        forall|x: Seq<char>, y: Seq<char>|
            #[trigger] note_of(n.push(note), x, y) == if x == u && y == c {
                Some(note)
            } else {
                note_of(n, x, y)
            },
        forall|x: Seq<char>, y: Seq<char>|
            #[trigger] evaluations(n.push(note), x, y) == if x == u && y == c {
                note.conversation_count as int
            } else {
                evaluations(n, x, y)
            },
{
    let n2 = n.push(note);
    let k = n.len() as int;
    assert forall|i: int, j: int|
        0 <= i < n2.len() && 0 <= j < n2.len() && i != j implies !note_for(
        #[trigger] n2[i],
        n2[j].agent_user_id@,
        (#[trigger] n2[j]).about_user_id@,
    ) by {
        if i == k {
            assert(!note_for(n[j], u, c));
        } else if j == k {
            assert(!note_for(n[i], u, c));
        } else {
            assert(n2[i] == n[i] && n2[j] == n[j]);
        }
    }
    assert forall|x: Seq<char>, y: Seq<char>|
        #[trigger] note_of(n2, x, y) == if x == u && y == c {
            Some(note)
        } else {
            note_of(n, x, y)
        } by {
        if x == u && y == c {
            assert(note_for(n2[k], x, y));
            let j = note_index(n2, x, y);
            assert(j == k);
        } else {
            if has_note(n2, x, y) {
                let j = note_index(n2, x, y);
                assert(j != k);
                assert(note_for(n[j], x, y));
                let j2 = note_index(n, x, y);
                assert(j2 == j);
            }
            if has_note(n, x, y) {
                let j = note_index(n, x, y);
                assert(note_for(n2[j], x, y));
            }
        }
    }
    assert forall|x: Seq<char>, y: Seq<char>|
        #[trigger] evaluations(n2, x, y) == if x == u && y == c {
            note.conversation_count as int
        } else {
            evaluations(n, x, y)
        } by {
        assert(note_of(n2, x, y) == if x == u && y == c {
            Some(note)
        } else {
            note_of(n, x, y)
        });
    }
}

/// Setting `u`'s approval on the record of the pair `u`, `c` adds exactly
/// that approval and keeps the records consistent and unique.
proof fn lemma_record_approved(
    m: Seq<MatchRecord>,
    k: int,
    w: MatchRecord,
    u: Seq<char>,
    c: Seq<char>,
    now: Seq<char>,
)
    requires
        records_ok(m),
        records_unique(m),
        0 <= k < m.len(),
        holds_pair(m[k], u, c),
        u != c,
        approved_record(w, m[k], u, now),
    ensures
        records_ok(m.update(k, w)),
        records_unique(m.update(k, w)),
        forall|x: Seq<char>, y: Seq<char>|
            #[trigger] approves(m.update(k, w), x, y) == (approves(m, x, y) || (x == u && y
                == c)),
        forall|x: Seq<char>, y: Seq<char>|
            #[trigger] paired(m.update(k, w), x, y) == paired(m, x, y),
        forall|x: Seq<char>, y: Seq<char>|
            #[trigger] record_of(m.update(k, w), x, y) == if is_pair(x, y, u, c) {
                Some(w)
            } else {
                record_of(m, x, y)
            },
{
    let m2 = m.update(k, w);
    assert forall|i: int| 0 <= i < m2.len() implies (#[trigger] m2[i]).id == i + 1 && record_ok(
        m2[i],
    ) by {
        assert(m[i].id == i + 1 && record_ok(m[i]));
    }
    assert forall|i: int, j: int|
        0 <= i < m2.len() && 0 <= j < m2.len() && i != j implies !same_pair(
        #[trigger] m2[i],
        #[trigger] m2[j],
    ) by {
        assert(!same_pair(m[i], m[j]));
    }
    assert forall|x: Seq<char>, y: Seq<char>|
        #[trigger] approves(m2, x, y) == (approves(m, x, y) || (x == u && y == c)) by {
        if x == u && y == c {
            assert(slot_approves(m2[k], x, y));
        } else {
            if approves(m2, x, y) {
                let j = choose|j: int| 0 <= j < m2.len() && slot_approves(#[trigger] m2[j], x, y);
                assert(slot_approves(m[j], x, y));
            }
            if approves(m, x, y) {
                let j = choose|j: int| 0 <= j < m.len() && slot_approves(#[trigger] m[j], x, y);
                assert(slot_approves(m2[j], x, y));
            }
        }
    }
    assert forall|x: Seq<char>, y: Seq<char>|
        #[trigger] paired(m2, x, y) == paired(m, x, y) by {
        if paired(m2, x, y) {
            let j = choose|j: int| 0 <= j < m2.len() && holds_pair(#[trigger] m2[j], x, y);
            assert(holds_pair(m[j], x, y));
        }
        if paired(m, x, y) {
            let j = choose|j: int| 0 <= j < m.len() && holds_pair(#[trigger] m[j], x, y);
            assert(holds_pair(m2[j], x, y));
        }
    }
    assert forall|x: Seq<char>, y: Seq<char>|
        #[trigger] record_of(m2, x, y) == if is_pair(x, y, u, c) {
            Some(w)
        } else {
            record_of(m, x, y)
        } by {
        if is_pair(x, y, u, c) {
            assert(holds_pair(m2[k], x, y));
            let j = pair_index(m2, x, y);
            assert(j == k) by {
                if j != k {
                    assert(!same_pair(m2[j], m2[k]));
                }
            }
        } else {
            if paired(m2, x, y) {
                let j = pair_index(m2, x, y);
                assert(j != k);
                assert(holds_pair(m[j], x, y));
                let j2 = pair_index(m, x, y);
                assert(j2 == j) by {
                    if j2 != j {
                        assert(!same_pair(m[j2], m[j]));
                    }
                }
            }
            if paired(m, x, y) {
                let j = pair_index(m, x, y);
                assert(j != k);
                assert(holds_pair(m2[j], x, y));
            }
        }
    }
}

/// Adding the record proposed by `u` for the unpaired `u`, `c` adds exactly
/// `u`'s approval and that pair, and keeps the records consistent and
/// unique.
proof fn lemma_record_proposed(m: Seq<MatchRecord>, w: MatchRecord, u: Seq<char>, c: Seq<char>, now: Seq<char>)
    requires
        records_ok(m),
        records_unique(m),
        !paired(m, u, c),
        u != c,
        w.id == m.len() + 1,
        proposed_record(w, u, c, w.id, now),
    ensures
        records_ok(m.push(w)),
        records_unique(m.push(w)),
        forall|x: Seq<char>, y: Seq<char>|
            #[trigger] approves(m.push(w), x, y) == (approves(m, x, y) || (x == u && y == c)),
        forall|x: Seq<char>, y: Seq<char>|
            #[trigger] paired(m.push(w), x, y) == (paired(m, x, y) || (x == u && y == c) || (x
                == c && y == u)),
        forall|x: Seq<char>, y: Seq<char>|
            #[trigger] record_of(m.push(w), x, y) == if is_pair(x, y, u, c) {
                Some(w)
            } else {
                record_of(m, x, y)
            },
{
    let m2 = m.push(w);
    let k = m.len() as int;
    assert forall|i: int| 0 <= i < m2.len() implies (#[trigger] m2[i]).id == i + 1 && record_ok(
        m2[i],
    ) by {
        if i < k {
            assert(m[i].id == i + 1 && record_ok(m[i]));
        }
    }
    assert forall|i: int, j: int|
        0 <= i < m2.len() && 0 <= j < m2.len() && i != j implies !same_pair(
        #[trigger] m2[i],
        #[trigger] m2[j],
    ) by {
        if i == k {
            assert(!holds_pair(m[j], u, c));
        } else if j == k {
            assert(!holds_pair(m[i], u, c));
        } else {
            assert(!same_pair(m[i], m[j]));
        }
    }
    assert forall|x: Seq<char>, y: Seq<char>|
        #[trigger] approves(m2, x, y) == (approves(m, x, y) || (x == u && y == c)) by {
        if x == u && y == c {
            assert(slot_approves(m2[k], x, y));
        } else {
            if approves(m2, x, y) {
                let j = choose|j: int| 0 <= j < m2.len() && slot_approves(#[trigger] m2[j], x, y);
                assert(j != k);
                assert(slot_approves(m[j], x, y));
            }
            if approves(m, x, y) {
                let j = choose|j: int| 0 <= j < m.len() && slot_approves(#[trigger] m[j], x, y);
                assert(slot_approves(m2[j], x, y));
            }
        }
    }
    assert forall|x: Seq<char>, y: Seq<char>|
        #[trigger] paired(m2, x, y) == (paired(m, x, y) || (x == u && y == c) || (x == c && y
            == u)) by {
        if (x == u && y == c) || (x == c && y == u) {
            assert(holds_pair(m2[k], x, y));
        } else {
            if paired(m2, x, y) {
                let j = choose|j: int| 0 <= j < m2.len() && holds_pair(#[trigger] m2[j], x, y);
                assert(j != k);
                assert(holds_pair(m[j], x, y));
            }
            if paired(m, x, y) {
                let j = choose|j: int| 0 <= j < m.len() && holds_pair(#[trigger] m[j], x, y);
                assert(holds_pair(m2[j], x, y));
            }
        }
    }
    assert forall|x: Seq<char>, y: Seq<char>|
        #[trigger] record_of(m2, x, y) == if is_pair(x, y, u, c) {
            Some(w)
        } else {
            record_of(m, x, y)
        } by {
        if is_pair(x, y, u, c) {
            assert(holds_pair(m2[k], x, y));
            let j = pair_index(m2, x, y);
            assert(j == k) by {
                if j != k {
                    assert(!same_pair(m2[j], m2[k]));
                }
            }
        } else {
            if paired(m2, x, y) {
                let j = pair_index(m2, x, y);
                assert(j != k);
                assert(holds_pair(m[j], x, y));
                let j2 = pair_index(m, x, y);
                assert(j2 == j) by {
                    if j2 != j {
                        assert(!same_pair(m[j2], m[j]));
                    }
                }
            }
            if paired(m, x, y) {
                let j = pair_index(m, x, y);
                assert(j != k);
                assert(holds_pair(m2[j], x, y));
            }
        }
    }
}

/// `o2` is `o1` followed by the notifications that transition `t` of the
/// pair `u`, `c` emits: a proposal to `c`, or a confirmation to each side.
pub open spec fn emitted(
    o1: Seq<NotificationEvent>,
    o2: Seq<NotificationEvent>,
    t: Transition,
    u: Seq<char>,
    c: Seq<char>,
) -> bool {
    &&& o1.len() <= o2.len()
    &&& o2.subrange(0, o1.len() as int) == o1
    &&& match t {
        Transition::Proposed => {
            &&& o2.len() == o1.len() + 1
            &&& is_event(o2[o1.len() as int], c, NotificationKind::MatchProposal, u)
        },
        Transition::Confirmed => {
            &&& o2.len() == o1.len() + 2
            &&& is_event(o2[o1.len() as int], u, NotificationKind::MatchConfirmed, c)
            &&& is_event(o2[o1.len() + 1int], c, NotificationKind::MatchConfirmed, u)
        },
        _ => o2.len() == o1.len(),
    }
}

/// What an evaluation of `c` by `u` does to the pair, given the records
/// before it.
pub open spec fn expected_transition(
    m: Seq<MatchRecord>,
    u: Seq<char>,
    c: Seq<char>,
    recommend: bool,
) -> Transition {
    if !recommend {
        Transition::Unchanged
    } else if !paired(m, u, c) {
        Transition::Proposed
    } else if !confirmed(m, u, c) && approves(m, c, u) {
        Transition::Confirmed
    } else {
        Transition::Approved
    }
}

/// When an evaluation of `c` by `u` has no room left: the note's counter is
/// at its maximum, or a record would be created with no id left.
pub open spec fn exhausted(s: MatchStore, u: Seq<char>, c: Seq<char>, recommend: bool) -> bool {
    (has_note(s.notes@, u, c) && evaluations(s.notes@, u, c) == i64::MAX) || (recommend
        && !paired(s.matches@, u, c) && s.matches@.len() >= i64::MAX)
}

/// `s2` is `s1` after one accepted evaluation of `c` by `u`: only `u`'s
/// approval of `c` may be added (when the verdict recommends), only the
/// record of that pair may be created, and only the counter of the note of
/// `u` about `c` moves, by one.
pub open spec fn evaluation_step(
    s1: MatchStore,
    s2: MatchStore,
    u: Seq<char>,
    c: Seq<char>,
    recommend: bool,
) -> bool {
    &&& s2.wf()
    &&& u != c
    &&& forall|x: Seq<char>, y: Seq<char>|
        #[trigger] approves(s2.matches@, x, y) == (approves(s1.matches@, x, y) || (recommend
            && x == u && y == c))
    &&& forall|x: Seq<char>, y: Seq<char>|
        #[trigger] paired(s2.matches@, x, y) == (paired(s1.matches@, x, y) || (recommend && ((x
            == u && y == c) || (x == c && y == u))))
    &&& forall|x: Seq<char>, y: Seq<char>|
        #[trigger] evaluations(s2.notes@, x, y) == evaluations(s1.notes@, x, y) + if x == u && y
            == c {
            1int
        } else {
            0int
        }
    &&& s2.matches@.len() == s1.matches@.len() + if recommend && !paired(s1.matches@, u, c) {
        1int
    } else {
        0int
    }
}

/// `s2` is `s1` after one accepted evaluation of `c` by `u` with `verdict`
/// at time `now`, in full: the note of `u` about `c` is rewritten from the
/// verdict with its counter one higher; the pair's record is created or
/// approved by `u` when the verdict recommends and kept otherwise; every
/// other note and record is kept; and the transition's notifications are
/// queued behind the old ones.
pub open spec fn evaluation_effect(
    s1: MatchStore,
    s2: MatchStore,
    u: Seq<char>,
    c: Seq<char>,
    verdict: Verdict,
    now: Seq<char>,
) -> bool {
    &&& evaluation_step(s1, s2, u, c, verdict.recommend)
    &&& note_of(s2.notes@, u, c) is Some
    &&& rewritten_note(note_of(s2.notes@, u, c).unwrap(), u, c, note_of(s1.notes@, u, c), verdict, now)
    &&& forall|x: Seq<char>, y: Seq<char>|
        !(x == u && y == c) ==> #[trigger] note_of(s2.notes@, x, y) == note_of(s1.notes@, x, y)
    &&& forall|x: Seq<char>, y: Seq<char>|
        !is_pair(x, y, u, c) ==> #[trigger] record_of(s2.matches@, x, y) == record_of(
            s1.matches@,
            x,
            y,
        )
    &&& record_of(s2.matches@, c, u) == record_of(s2.matches@, u, c)
    &&& !verdict.recommend ==> record_of(s2.matches@, u, c) == record_of(s1.matches@, u, c)
    &&& verdict.recommend ==> record_of(s2.matches@, u, c) is Some
    &&& verdict.recommend && record_of(s1.matches@, u, c) is None ==> {
        &&& record_of(s2.matches@, u, c).unwrap().id == s1.matches@.len() + 1
        &&& proposed_record(
            record_of(s2.matches@, u, c).unwrap(),
            u,
            c,
            record_of(s2.matches@, u, c).unwrap().id,
            now,
        )
    }
    &&& verdict.recommend && record_of(s1.matches@, u, c) is Some ==> approved_record(
        record_of(s2.matches@, u, c).unwrap(),
        record_of(s1.matches@, u, c).unwrap(),
        u,
        now,
    )
    &&& emitted(
        s1.outbox@,
        s2.outbox@,
        expected_transition(s1.matches@, u, c, verdict.recommend),
        u,
        c,
    )
}

/// With unique records, the record of `x`, `y` is the record of `y`, `x`.
proof fn lemma_record_symmetric(m: Seq<MatchRecord>, x: Seq<char>, y: Seq<char>)
    requires
        records_unique(m),
    ensures
        record_of(m, x, y) == record_of(m, y, x),
{
    if paired(m, x, y) {
        let i = pair_index(m, x, y);
        assert(holds_pair(m[i], y, x));
        let j = pair_index(m, y, x);
        assert(i == j) by {
            if i != j {
                assert(!same_pair(m[i], m[j]));
            }
        }
    }
    if paired(m, y, x) {
        let j = pair_index(m, y, x);
        assert(holds_pair(m[j], x, y));
    }
}

/// With unique records, the record at `k` of the pair `u`, `c` alone
/// decides that pair's approvals and confirmation.
proof fn lemma_pair_at(m: Seq<MatchRecord>, k: int, u: Seq<char>, c: Seq<char>)
    requires
        records_unique(m),
        0 <= k < m.len(),
        holds_pair(m[k], u, c),
    ensures
        paired(m, u, c),
        confirmed(m, u, c) == m[k].is_matched,
        approves(m, u, c) == slot_approves(m[k], u, c),
        approves(m, c, u) == slot_approves(m[k], c, u),
        record_of(m, u, c) == Some(m[k]),
        record_of(m, c, u) == Some(m[k]),
{
    assert(holds_pair(m[k], u, c));
    if confirmed(m, u, c) {
        let j = choose|j: int| 0 <= j < m.len() && holds_pair(#[trigger] m[j], u, c) && m[j].is_matched;
        assert(j == k) by {
            if j != k {
                assert(!same_pair(m[j], m[k]));
            }
        }
    }
    if approves(m, u, c) {
        let j = choose|j: int| 0 <= j < m.len() && slot_approves(#[trigger] m[j], u, c);
        assert(j == k) by {
            if j != k {
                assert(!same_pair(m[j], m[k]));
            }
        }
    }
    if approves(m, c, u) {
        let j = choose|j: int| 0 <= j < m.len() && slot_approves(#[trigger] m[j], c, u);
        assert(j == k) by {
            if j != k {
                assert(!same_pair(m[j], m[k]));
            }
        }
    }
    let j = pair_index(m, u, c);
    assert(j == k) by {
        if j != k {
            assert(!same_pair(m[j], m[k]));
        }
    }
    assert(holds_pair(m[k], c, u));
    let j2 = pair_index(m, c, u);
    assert(j2 == k) by {
        if j2 != k {
            assert(!same_pair(m[j2], m[k]));
        }
    }
}

/// With unique notes, the note at `k` of `u` about `c` is the one counted.
proof fn lemma_note_at(n: Seq<AgentPeerNote>, k: int, u: Seq<char>, c: Seq<char>)
    requires
        notes_ok(n),
        0 <= k < n.len(),
        note_for(n[k], u, c),
    ensures
        has_note(n, u, c),
        evaluations(n, u, c) == n[k].conversation_count,
        note_of(n, u, c) == Some(n[k]),
{
    assert(note_for(n[k], u, c));
    let j = note_index(n, u, c);
    assert(j == k);
}

/// Whether the evaluation of `p` with verdict `v` by the user `me` goes
/// ahead: `p` is someone else, with a learned profile, and the oracle
/// answered.
pub open spec fn accepted(me: Seq<char>, p: AgentProfile, v: Option<Verdict>) -> bool {
    p.user_id@ != me && spec_has_signal(p) && v is Some
}

/// How many of the first `n` candidates are evaluated.
pub open spec fn accepted_upto(
    me: Seq<char>,
    cands: Seq<AgentProfile>,
    vs: Seq<Option<Verdict>>,
    n: int,
) -> nat
    decreases n,
{
    if n <= 0 {
        0
    } else {
        accepted_upto(me, cands, vs, n - 1) + if accepted(me, cands[n - 1], vs[n - 1]) {
            1nat
        } else {
            0nat
        }
    }
}

/// How many of the first `n` candidates that are evaluated are the user `y`.
pub open spec fn accepted_about(
    me: Seq<char>,
    cands: Seq<AgentProfile>,
    vs: Seq<Option<Verdict>>,
    y: Seq<char>,
    n: int,
) -> nat
    decreases n,
{
    if n <= 0 {
        0
    } else {
        accepted_about(me, cands, vs, y, n - 1) + if accepted(me, cands[n - 1], vs[n - 1])
            && cands[n - 1].user_id@ == y {
            1nat
        } else {
            0nat
        }
    }
}

/// Whether one of the first `n` candidates that are evaluated is the user
/// `y` with a recommending verdict.
pub open spec fn recommended_upto(
    me: Seq<char>,
    cands: Seq<AgentProfile>,
    vs: Seq<Option<Verdict>>,
    y: Seq<char>,
    n: int,
) -> bool
    decreases n,
{
    if n <= 0 {
        false
    } else {
        recommended_upto(me, cands, vs, y, n - 1) || (accepted(me, cands[n - 1], vs[n - 1])
            && cands[n - 1].user_id@ == y && vs[n - 1].unwrap().recommend)
    }
}

proof fn lemma_accepted_bounds(
    me: Seq<char>,
    cands: Seq<AgentProfile>,
    vs: Seq<Option<Verdict>>,
    y: Seq<char>,
    n: int,
)
    requires
        n >= 0,
    ensures
        accepted_upto(me, cands, vs, n) <= n,
        accepted_about(me, cands, vs, y, n) <= n,
    decreases n,
{
    if n > 0 {
        lemma_accepted_bounds(me, cands, vs, y, n - 1);
    }
}

/// Whether a pass of `me` over `n` candidates has room: the record ids and
/// every evaluation counter of `me` can grow by `n`.
pub open spec fn has_room(s: MatchStore, me: Seq<char>, n: int) -> bool {
    &&& s.matches@.len() + n < i64::MAX
    &&& forall|i: int|
        0 <= i < s.notes@.len() && (#[trigger] s.notes@[i]).agent_user_id@ == me
            ==> s.notes@[i].conversation_count + n < i64::MAX
}

proof fn lemma_room_bounds(s: MatchStore, me: Seq<char>, y: Seq<char>, n: int)
    requires
        has_room(s, me, n),
        n >= 0,
    ensures
        evaluations(s.notes@, me, y) + n < i64::MAX,
{
    if has_note(s.notes@, me, y) {
        let i = note_index(s.notes@, me, y);
        assert(s.notes@[i].agent_user_id@ == me);
    }
}

/// Whether the pair `x`, `y` is one that the first `n` candidates evaluated
/// by `me` touch: `me` and one of them.
pub open spec fn touched(
    me: Seq<char>,
    cands: Seq<AgentProfile>,
    vs: Seq<Option<Verdict>>,
    x: Seq<char>,
    y: Seq<char>,
    n: int,
) -> bool {
    (x == me && accepted_about(me, cands, vs, y, n) > 0) || (y == me && accepted_about(
        me,
        cands,
        vs,
        x,
        n,
    ) > 0)
}

/// `s2` is `s1` after a pass of `me` considered candidate `p` with the
/// oracle's answer `v`, with transition `t`: an evaluation in full when it
/// goes ahead, nothing otherwise.
pub open spec fn pass_step(
    s1: MatchStore,
    s2: MatchStore,
    me: Seq<char>,
    p: AgentProfile,
    v: Option<Verdict>,
    now: Seq<char>,
    t: Transition,
) -> bool {
    if accepted(me, p, v) {
        &&& evaluation_effect(s1, s2, me, p.user_id@, v.unwrap(), now)
        &&& t == expected_transition(s1.matches@, me, p.user_id@, v.unwrap().recommend)
    } else {
        &&& s2 == s1
        &&& t == Transition::Unchanged
    }
}

/// How many of the transitions `ts` are `x`.
pub open spec fn count_of(ts: Seq<Transition>, x: Transition) -> nat
    decreases ts.len(),
{
    if ts.len() == 0 {
        0
    } else {
        count_of(ts.drop_last(), x) + if ts.last() == x {
            1nat
        } else {
            0nat
        }
    }
}

/// A pass of `me` took `s1` to `s2` through the stores `t`, one step per
/// candidate in order with transitions `ts`, and `st` counts the records
/// created and the confirmations reached along it.
pub open spec fn pass_result(
    s1: MatchStore,
    s2: MatchStore,
    me: Seq<char>,
    cands: Seq<AgentProfile>,
    vs: Seq<Option<Verdict>>,
    now: Seq<char>,
    st: MatchingStatus,
    t: Seq<MatchStore>,
    ts: Seq<Transition>,
) -> bool {
    &&& t.len() == cands.len() + 1
    &&& ts.len() == cands.len()
    &&& vs.len() == cands.len()
    &&& t[0] == s1
    &&& t[cands.len() as int] == s2
    &&& forall|i: int|
        0 <= i < cands.len() ==> #[trigger] pass_step(t[i], t[i + 1], me, cands[i], vs[i], now, ts[i])
    &&& st.new_recommendations == count_of(ts, Transition::Proposed)
    &&& st.new_matches == count_of(ts, Transition::Confirmed)
}

/// Whether the text `a` sorts strictly before `b`, character by
/// character (a proper prefix sorts first).
pub open spec fn text_before(a: Seq<char>, b: Seq<char>) -> bool
    decreases a.len(),
{
    if b.len() == 0 {
        false
    } else if a.len() == 0 {
        true
    } else if a[0] != b[0] {
        (a[0] as u32) < (b[0] as u32)
    } else {
        text_before(a.drop_first(), b.drop_first())
    }
}

proof fn lemma_text_before_transitive(a: Seq<char>, b: Seq<char>, c: Seq<char>)
    requires
        text_before(a, b),
        text_before(b, c),
    ensures
        text_before(a, c),
    decreases a.len(),
{
    if a.len() > 0 && b.len() > 0 && c.len() > 0 && a[0] == b[0] && b[0] == c[0] {
        lemma_text_before_transitive(a.drop_first(), b.drop_first(), c.drop_first());
    }
}

proof fn lemma_text_before_irreflexive(a: Seq<char>)
    ensures
        !text_before(a, a),
    decreases a.len(),
{
    if a.len() > 0 {
        lemma_text_before_irreflexive(a.drop_first());
    }
}

/// Whether the records run from the most recently updated to the least.
pub open spec fn newest_first(v: Seq<MatchRecord>) -> bool {
    forall|i: int, j: int|
        0 <= i < j < v.len() ==> !text_before(
            (#[trigger] v[i]).updated_at@,
            (#[trigger] v[j]).updated_at@,
        )
}

/// Whether `a` sorts strictly before `b`.
fn text_before_exec(a: &String, b: &String) -> (r: bool)
    ensures
        r == text_before(a@, b@),
{
    let sa = a.as_str();
    let sb = b.as_str();
    let la = sa.unicode_len();
    let lb = sb.unicode_len();
    let mut i: usize = 0;
    assert(a@.subrange(0, la as int) == a@);
    assert(b@.subrange(0, lb as int) == b@);
    while i < la && i < lb
        invariant
            la == a@.len(),
            lb == b@.len(),
            sa@ == a@,
            sb@ == b@,
            i <= la,
            i <= lb,
            text_before(a@, b@) == text_before(
                a@.subrange(i as int, la as int),
                b@.subrange(i as int, lb as int),
            ),
        decreases la - i,
    {
        let ca = sa.get_char(i);
        let cb = sb.get_char(i);
        if ca != cb {
            return (ca as u32) < (cb as u32);
        }
        proof {
            assert(a@.subrange(i as int, la as int).drop_first() == a@.subrange(i + 1, la as int));
            assert(b@.subrange(i as int, lb as int).drop_first() == b@.subrange(i + 1, lb as int));
        }
        i += 1;
    }
    i < lb
}

/// Inserts `x` into records that run newest first, after every record not
/// older than it; returns where it went.
fn insert_newest_first(v: &mut Vec<MatchRecord>, x: MatchRecord) -> (p: usize)
    requires
        newest_first(old(v)@),
    ensures
        p <= old(v)@.len(),
        final(v)@ == old(v)@.insert(p as int, x),
        newest_first(final(v)@),
{
    let mut p: usize = 0;
    let mut found = false;
    while p < v.len() && !found
        invariant
            p <= v@.len(),
            v@ == old(v)@,
            found ==> p < v@.len() && text_before(v@[p as int].updated_at@, x.updated_at@),
            forall|q: int| 0 <= q < p ==> !text_before((#[trigger] v@[q]).updated_at@, x.updated_at@),
        decreases v@.len() - p + if found { 0int } else { 1int },
    {
        if text_before_exec(&v[p].updated_at, &x.updated_at) {
            found = true;
        } else {
            p += 1;
        }
    }
    let ghost v0 = v@;
    proof {
        assert forall|j: int| p <= j < v0.len() implies !text_before(
            x.updated_at@,
            (#[trigger] v0[j]).updated_at@,
        ) by {
            assert(text_before(v0[p as int].updated_at@, x.updated_at@));
            if text_before(x.updated_at@, v0[j].updated_at@) {
                lemma_text_before_transitive(v0[p as int].updated_at@, x.updated_at@, v0[j].updated_at@);
                if j > p {
                    assert(!text_before(v0[p as int].updated_at@, v0[j].updated_at@));
                } else {
                    lemma_text_before_irreflexive(v0[p as int].updated_at@);
                }
            }
        }
    }
    v.insert(p, x);
    proof {
        let w = v@;
        assert forall|i: int, j: int| 0 <= i < j < w.len() implies !text_before(
            (#[trigger] w[i]).updated_at@,
            (#[trigger] w[j]).updated_at@,
        ) by {
            if i < p && j < p {
                assert(w[i] == v0[i] && w[j] == v0[j]);
            } else if i < p && j == p {
                assert(w[i] == v0[i]);
            } else if i < p {
                assert(w[i] == v0[i] && w[j] == v0[j - 1]);
            } else if i == p {
                assert(w[j] == v0[j - 1]);
            } else {
                assert(w[i] == v0[i - 1] && w[j] == v0[j - 1]);
            }
        }
    }
    p
}

/// Whether `user` holds one of the slots of `m`.
pub open spec fn involves(m: MatchRecord, user: Seq<char>) -> bool {
    m.user_a_id@ == user || m.user_b_id@ == user
}

/// Selects the confirmed records that `user` takes part in.
pub open spec fn confirmed_with(user: Seq<char>) -> spec_fn(MatchRecord) -> bool {
    |m: MatchRecord| involves(m, user) && m.is_matched
}

/// Selects the unconfirmed records that `user` takes part in.
pub open spec fn proposed_with(user: Seq<char>) -> spec_fn(MatchRecord) -> bool {
    |m: MatchRecord| involves(m, user) && !m.is_matched
}

/// The in-memory state of the matching engine.
///
/// Record ids are their positions plus one; records are never removed.
#[derive(Debug, Clone)]
pub struct MatchStore {
    pub notes: Vec<AgentPeerNote>,
    pub matches: Vec<MatchRecord>,
    pub outbox: Vec<NotificationEvent>,
}

impl MatchStore {
    /// At most one record per unordered pair and one note per ordered pair;
    /// no user is paired with or noted about themself; every record is
    /// consistent and carries its position plus one as id.
    pub open spec fn wf(&self) -> bool {
        &&& records_ok(self.matches@)
        &&& records_unique(self.matches@)
        &&& notes_ok(self.notes@)
    }

    /// An empty store.
    pub fn new() -> (s: MatchStore)
        ensures
            s.wf(),
            s.notes@.len() == 0,
            s.matches@.len() == 0,
            s.outbox@.len() == 0,
    {
        MatchStore { notes: Vec::new(), matches: Vec::new(), outbox: Vec::new() }
    }

    /// The position of the note of `u` about `c`, if there is one.
    pub fn find_note(&self, u: &String, c: &String) -> (r: Option<usize>)
        ensures
            r matches Some(i) ==> i < self.notes@.len() && note_for(self.notes@[i as int], u@, c@),
            r is None ==> !has_note(self.notes@, u@, c@),
    {
        let mut i: usize = 0;
        while i < self.notes.len()
            invariant
                i <= self.notes@.len(),
                forall|k: int| 0 <= k < i ==> !note_for(#[trigger] self.notes@[k], u@, c@),
            decreases self.notes@.len() - i,
        {
            if self.notes[i].agent_user_id == *u && self.notes[i].about_user_id == *c {
                return Some(i);
            }
            i += 1;
        }
        None
    }

    /// The position of the record of the pair `u`, `c`, if there is one.
    pub fn find_match(&self, u: &String, c: &String) -> (r: Option<usize>)
        ensures
            r matches Some(i) ==> i < self.matches@.len() && holds_pair(
                self.matches@[i as int],
                u@,
                c@,
            ),
            r is None ==> !paired(self.matches@, u@, c@),
    {
        let mut i: usize = 0;
        while i < self.matches.len()
            invariant
                i <= self.matches@.len(),
                forall|k: int| 0 <= k < i ==> !holds_pair(#[trigger] self.matches@[k], u@, c@),
            decreases self.matches@.len() - i,
        {
            let m = &self.matches[i];
            if (m.user_a_id == *u && m.user_b_id == *c) || (m.user_a_id == *c && m.user_b_id
                == *u) {
                return Some(i);
            }
            i += 1;
        }
        None
    }
    /// Applies one evaluation of `candidate` by `acting` with the oracle's
    /// verdict, as one atomic unit: the note of `acting` about `candidate`
    /// is upserted with its counter one higher, the pair's record is created
    /// or approved when the verdict recommends, and the notifications of the
    /// transition are queued. A refused evaluation changes nothing.
    pub fn apply_evaluation(
        &mut self,
        acting: &String,
        candidate: &String,
        verdict: &Verdict,
        now: &String,
    ) -> (r: Result<Transition, MatchingError>)
        requires
            old(self).wf(),
        ensures
            final(self).wf(),
            r is Err ==> *final(self) == *old(self),
            (r matches Err(MatchingError::SelfEvaluation)) <==> acting@ == candidate@,
            (r matches Err(MatchingError::Exhausted)) <==> acting@ != candidate@ && exhausted(
                *old(self),
                acting@,
                candidate@,
                verdict.recommend,
            ),
            !(r matches Err(MatchingError::InsufficientSignal)),
            !(r matches Err(MatchingError::NotParticipant)),
            r matches Ok(t) ==> {
                &&& evaluation_step(
                    *old(self),
                    *final(self),
                    acting@,
                    candidate@,
                    verdict.recommend,
                )
                &&& t == expected_transition(
                    old(self).matches@,
                    acting@,
                    candidate@,
                    verdict.recommend,
                )
                &&& emitted(old(self).outbox@, final(self).outbox@, t, acting@, candidate@)
                &&& evaluation_effect(
                    *old(self),
                    *final(self),
                    acting@,
                    candidate@,
                    *verdict,
                    now@,
                )
            },
    {
        if *acting == *candidate {
            return Err(MatchingError::SelfEvaluation);
        }
        let ni = self.find_note(acting, candidate);
        let mi = self.find_match(acting, candidate);
        let len = self.matches.len();
        proof {
            if let Some(k) = ni {
                lemma_note_at(self.notes@, k as int, acting@, candidate@);
            }
            if let Some(k) = mi {
                lemma_pair_at(self.matches@, k as int, acting@, candidate@);
            }
        }
        if verdict.recommend && mi.is_none() && len as u64 >= i64::MAX as u64 {
            return Err(MatchingError::Exhausted);
        }
        let fresh_id: i64 = if (len as u64) < (i64::MAX as u64) {
            (len as u64 + 1) as i64
        } else {
            0
        };
        let prior = match ni {
            Some(k) => Some(&self.notes[k]),
            None => None,
        };
        let record = match mi {
            Some(k) => Some(&self.matches[k]),
            None => None,
        };
        let out = evaluate_pair(acting, candidate, prior, record, verdict, fresh_id, now);
        let PairOutcome { note, record: written, transition, mut events } = match out {
            Ok(o) => o,
            Err(e) => {
                return Err(e);
            },
        };
        match ni {
            Some(k) => {
                proof {
                    lemma_note_replaced(self.notes@, k as int, note, acting@, candidate@);
                }
                self.notes[k] = note;
            },
            None => {
                proof {
                    lemma_note_added(self.notes@, note, acting@, candidate@);
                }
                self.notes.push(note);
            },
        }
        match written {
            Some(w) => match mi {
                Some(k) => {
                    proof {
                        lemma_record_approved(
                            self.matches@,
                            k as int,
                            w,
                            acting@,
                            candidate@,
                            now@,
                        );
                    }
                    self.matches[k] = w;
                },
                None => {
                    proof {
                        lemma_record_proposed(self.matches@, w, acting@, candidate@, now@);
                    }
                    self.matches.push(w);
                },
            },
            None => {},
        }
        proof {
            lemma_record_symmetric(self.matches@, acting@, candidate@);
        }
        let ghost o1 = self.outbox@;
        let ghost ev = events@;
        self.outbox.append(&mut events);
        assert(self.outbox@.subrange(0, o1.len() as int) == o1);
        assert(self.outbox@ == o1 + ev);
        Ok(transition)
    }
    /// One matching pass of the user whose learned profile is `me` against
    /// `candidates`, where `verdicts[k]` is the oracle's answer for
    /// `candidates[k]` (none when the oracle failed).
    ///
    /// A profile without any learned field is refused before anything is
    /// evaluated, and so is a pass that could run out of counter or id
    /// space. Candidates that are `me` or have no learned profile, and
    /// those the oracle failed on, are skipped and leave no trace. Each
    /// other candidate is evaluated in order as by `apply_evaluation`. The
    /// result counts the evaluations, the records created and the
    /// confirmations reached.
    pub fn run_matching(
        &mut self,
        me: &AgentProfile,
        candidates: &Vec<AgentProfile>,
        verdicts: &Vec<Option<Verdict>>,
        now: &String,
    ) -> (r: Result<MatchingStatus, MatchingError>)
        requires
            old(self).wf(),
            candidates@.len() == verdicts@.len(),
        ensures
            final(self).wf(),
            r is Err ==> *final(self) == *old(self),
            (r matches Err(MatchingError::InsufficientSignal)) <==> !spec_has_signal(*me),
            (r matches Err(MatchingError::Exhausted)) <==> spec_has_signal(*me) && !has_room(
                *old(self),
                me.user_id@,
                candidates@.len() as int,
            ),
            !(r matches Err(MatchingError::SelfEvaluation)),
            !(r matches Err(MatchingError::NotParticipant)),
            r matches Ok(st) ==> {
                &&& exists|t: Seq<MatchStore>, ts: Seq<Transition>|
                    #[trigger] pass_result(
                        *old(self),
                        *final(self),
                        me.user_id@,
                        candidates@,
                        verdicts@,
                        now@,
                        st,
                        t,
                        ts,
                    )
                &&& st.evaluated == accepted_upto(
                    me.user_id@,
                    candidates@,
                    verdicts@,
                    candidates@.len() as int,
                )
                &&& final(self).matches@.len() == old(self).matches@.len() + st.new_recommendations
                &&& forall|x: Seq<char>, y: Seq<char>|
                    #[trigger] approves(final(self).matches@, x, y) == (approves(
                        old(self).matches@,
                        x,
                        y,
                    ) || (x == me.user_id@ && recommended_upto(
                        me.user_id@,
                        candidates@,
                        verdicts@,
                        y,
                        candidates@.len() as int,
                    )))
                &&& forall|x: Seq<char>, y: Seq<char>|
                    #[trigger] paired(final(self).matches@, x, y) == (paired(
                        old(self).matches@,
                        x,
                        y,
                    ) || (x == me.user_id@ && recommended_upto(
                        me.user_id@,
                        candidates@,
                        verdicts@,
                        y,
                        candidates@.len() as int,
                    )) || (y == me.user_id@ && recommended_upto(
                        me.user_id@,
                        candidates@,
                        verdicts@,
                        x,
                        candidates@.len() as int,
                    )))
                &&& forall|x: Seq<char>, y: Seq<char>|
                    #[trigger] evaluations(final(self).notes@, x, y) == evaluations(
                        old(self).notes@,
                        x,
                        y,
                    ) + if x == me.user_id@ {
                        accepted_about(
                            me.user_id@,
                            candidates@,
                            verdicts@,
                            y,
                            candidates@.len() as int,
                        ) as int
                    } else {
                        0int
                    }
                &&& forall|x: Seq<char>, y: Seq<char>|
                    !(x == me.user_id@ && accepted_about(
                        me.user_id@,
                        candidates@,
                        verdicts@,
                        y,
                        candidates@.len() as int,
                    ) > 0) ==> #[trigger] note_of(final(self).notes@, x, y) == note_of(
                        old(self).notes@,
                        x,
                        y,
                    )
                &&& forall|x: Seq<char>, y: Seq<char>|
                    !touched(
                        me.user_id@,
                        candidates@,
                        verdicts@,
                        x,
                        y,
                        candidates@.len() as int,
                    ) ==> #[trigger] record_of(final(self).matches@, x, y) == record_of(
                        old(self).matches@,
                        x,
                        y,
                    )
            },
    {
        if !has_signal(me) {
            return Err(MatchingError::InsufficientSignal);
        }
        if !self.room_for(&me.user_id, candidates.len()) {
            return Err(MatchingError::Exhausted);
        }
        let ghost n = candidates@.len() as int;
        let ghost mut trace: Seq<MatchStore> = seq![*self];
        let ghost mut ts: Seq<Transition> = Seq::empty();
        let mut status = MatchingStatus { evaluated: 0, new_recommendations: 0, new_matches: 0 };
        let mut k: usize = 0;
        while k < candidates.len()
            invariant
                self.wf(),
                spec_has_signal(*me),
                candidates@.len() == verdicts@.len(),
                n == candidates@.len(),
                has_room(*old(self), me.user_id@, n),
                k <= candidates@.len(),
                trace.len() == k + 1,
                ts.len() == k,
                trace[0] == *old(self),
                trace[k as int] == *self,
                forall|i: int|
                    0 <= i < k ==> #[trigger] pass_step(
                        trace[i],
                        trace[i + 1],
                        me.user_id@,
                        candidates@[i],
                        verdicts@[i],
                        now@,
                        ts[i],
                    ),
                status.new_recommendations == count_of(ts, Transition::Proposed),
                status.new_matches == count_of(ts, Transition::Confirmed),
                status.evaluated == accepted_upto(me.user_id@, candidates@, verdicts@, k as int),
                status.new_recommendations <= status.evaluated,
                status.new_matches <= status.evaluated,
                self.matches@.len() == old(self).matches@.len() + status.new_recommendations,
                forall|x: Seq<char>, y: Seq<char>|
                    #[trigger] approves(self.matches@, x, y) == (approves(old(self).matches@, x, y)
                        || (x == me.user_id@ && recommended_upto(
                        me.user_id@,
                        candidates@,
                        verdicts@,
                        y,
                        k as int,
                    ))),
                forall|x: Seq<char>, y: Seq<char>|
                    #[trigger] paired(self.matches@, x, y) == (paired(old(self).matches@, x, y) || (x
                        == me.user_id@ && recommended_upto(
                        me.user_id@,
                        candidates@,
                        verdicts@,
                        y,
                        k as int,
                    )) || (y == me.user_id@ && recommended_upto(
                        me.user_id@,
                        candidates@,
                        verdicts@,
                        x,
                        k as int,
                    ))),
                forall|x: Seq<char>, y: Seq<char>|
                    #[trigger] evaluations(self.notes@, x, y) == evaluations(old(self).notes@, x, y)
                        + if x == me.user_id@ {
                        accepted_about(me.user_id@, candidates@, verdicts@, y, k as int) as int
                    } else {
                        0int
                    },
                forall|x: Seq<char>, y: Seq<char>|
                    !(x == me.user_id@ && accepted_about(
                        me.user_id@,
                        candidates@,
                        verdicts@,
                        y,
                        k as int,
                    ) > 0) ==> #[trigger] note_of(self.notes@, x, y) == note_of(
                        old(self).notes@,
                        x,
                        y,
                    ),
                forall|x: Seq<char>, y: Seq<char>|
                    !touched(me.user_id@, candidates@, verdicts@, x, y, k as int)
                        ==> #[trigger] record_of(self.matches@, x, y) == record_of(
                        old(self).matches@,
                        x,
                        y,
                    ),
            decreases candidates@.len() - k,
        {
            let cand = &candidates[k];
            let ghost before = *self;
            let ghost c = cand.user_id@;
            proof {
                lemma_accepted_bounds(me.user_id@, candidates@, verdicts@, c, k as int);
                lemma_accepted_bounds(me.user_id@, candidates@, verdicts@, c, k as int + 1);
            }
            let mut skip = cand.user_id == me.user_id || !has_signal(cand);
            if !skip && verdicts[k].is_none() {
                skip = true;
            }
            if skip {
                proof {
                    assert(!accepted(me.user_id@, candidates@[k as int], verdicts@[k as int]));
                    let t2 = trace.push(*self);
                    let ts2 = ts.push(Transition::Unchanged);
                    assert forall|i: int| 0 <= i < k + 1 implies #[trigger] pass_step(
                        t2[i],
                        t2[i + 1],
                        me.user_id@,
                        candidates@[i],
                        verdicts@[i],
                        now@,
                        ts2[i],
                    ) by {
                        if i < k {
                            assert(pass_step(
                                trace[i],
                                trace[i + 1],
                                me.user_id@,
                                candidates@[i],
                                verdicts@[i],
                                now@,
                                ts[i],
                            ));
                        }
                    }
                    assert(ts2.drop_last() == ts);
                    trace = t2;
                    ts = ts2;
                }
                k += 1;
                continue;
            }
            let verdict = match &verdicts[k] {
                Some(v) => v,
                None => {
                    k += 1;
                    continue;
                },
            };
            proof {
                assert(accepted(me.user_id@, candidates@[k as int], verdicts@[k as int]));
                assert(evaluations(old(self).notes@, me.user_id@, c) + n < i64::MAX) by {
                    lemma_room_bounds(*old(self), me.user_id@, c, n);
                }
            }
            match self.apply_evaluation(&me.user_id, &cand.user_id, verdict, now) {
                Ok(t) => {
                    count_transition(&mut status, t);
                    proof {
                        let t2 = trace.push(*self);
                        let ts2 = ts.push(t);
                        assert forall|i: int| 0 <= i < k + 1 implies #[trigger] pass_step(
                            t2[i],
                            t2[i + 1],
                            me.user_id@,
                            candidates@[i],
                            verdicts@[i],
                            now@,
                            ts2[i],
                        ) by {
                            if i < k {
                                assert(pass_step(
                                    trace[i],
                                    trace[i + 1],
                                    me.user_id@,
                                    candidates@[i],
                                    verdicts@[i],
                                    now@,
                                    ts[i],
                                ));
                            }
                        }
                        assert(ts2.drop_last() == ts);
                        trace = t2;
                        ts = ts2;
                        assert forall|x: Seq<char>, y: Seq<char>|
                            #[trigger] approves(self.matches@, x, y) == (approves(
                                old(self).matches@,
                                x,
                                y,
                            ) || (x == me.user_id@ && recommended_upto(
                                me.user_id@,
                                candidates@,
                                verdicts@,
                                y,
                                k + 1,
                            ))) by {
                            assert(approves(before.matches@, x, y) == (approves(
                                old(self).matches@,
                                x,
                                y,
                            ) || (x == me.user_id@ && recommended_upto(
                                me.user_id@,
                                candidates@,
                                verdicts@,
                                y,
                                k as int,
                            ))));
                        }
                        assert forall|x: Seq<char>, y: Seq<char>|
                            #[trigger] paired(self.matches@, x, y) == (paired(
                                old(self).matches@,
                                x,
                                y,
                            ) || (x == me.user_id@ && recommended_upto(
                                me.user_id@,
                                candidates@,
                                verdicts@,
                                y,
                                k + 1,
                            )) || (y == me.user_id@ && recommended_upto(
                                me.user_id@,
                                candidates@,
                                verdicts@,
                                x,
                                k + 1,
                            ))) by {
                            assert(paired(before.matches@, x, y) == (paired(
                                old(self).matches@,
                                x,
                                y,
                            ) || (x == me.user_id@ && recommended_upto(
                                me.user_id@,
                                candidates@,
                                verdicts@,
                                y,
                                k as int,
                            )) || (y == me.user_id@ && recommended_upto(
                                me.user_id@,
                                candidates@,
                                verdicts@,
                                x,
                                k as int,
                            ))));
                        }
                        assert forall|x: Seq<char>, y: Seq<char>|
                            #[trigger] evaluations(self.notes@, x, y) == evaluations(
                                old(self).notes@,
                                x,
                                y,
                            ) + if x == me.user_id@ {
                                accepted_about(me.user_id@, candidates@, verdicts@, y, k + 1) as int
                            } else {
                                0int
                            } by {
                            assert(evaluations(before.notes@, x, y) == evaluations(
                                old(self).notes@,
                                x,
                                y,
                            ) + if x == me.user_id@ {
                                accepted_about(me.user_id@, candidates@, verdicts@, y, k as int)
                                    as int
                            } else {
                                0int
                            });
                        }
                        assert forall|x: Seq<char>, y: Seq<char>|
                            !(x == me.user_id@ && accepted_about(
                                me.user_id@,
                                candidates@,
                                verdicts@,
                                y,
                                k + 1,
                            ) > 0) implies #[trigger] note_of(self.notes@, x, y) == note_of(
                            old(self).notes@,
                            x,
                            y,
                        ) by {
                            assert(note_of(before.notes@, x, y) == note_of(
                                old(self).notes@,
                                x,
                                y,
                            ));
                            assert(note_of(self.notes@, x, y) == note_of(before.notes@, x, y));
                        }
                        assert forall|x: Seq<char>, y: Seq<char>|
                            !touched(me.user_id@, candidates@, verdicts@, x, y, k + 1)
                                implies #[trigger] record_of(self.matches@, x, y) == record_of(
                            old(self).matches@,
                            x,
                            y,
                        ) by {
                            assert(!touched(me.user_id@, candidates@, verdicts@, x, y, k as int));
                            assert(record_of(before.matches@, x, y) == record_of(
                                old(self).matches@,
                                x,
                                y,
                            ));
                            assert(!is_pair(x, y, me.user_id@, c));
                            assert(record_of(self.matches@, x, y) == record_of(
                                before.matches@,
                                x,
                                y,
                            ));
                        }
                    }
                },
                Err(e) => {
                    proof {
                        assert(evaluations(before.notes@, me.user_id@, c) < i64::MAX);
                        assert(!exhausted(before, me.user_id@, c, verdict.recommend));
                    }
                    return Err(e);
                },
            }
            k += 1;
        }
        proof {
            assert(pass_result(
                *old(self),
                *self,
                me.user_id@,
                candidates@,
                verdicts@,
                now@,
                status,
                trace,
                ts,
            ));
            assert(exists|t: Seq<MatchStore>, ts2: Seq<Transition>|
                #[trigger] pass_result(
                    *old(self),
                    *self,
                    me.user_id@,
                    candidates@,
                    verdicts@,
                    now@,
                    status,
                    t,
                    ts2,
                ));
        }
        Ok(status)
    }

    /// Whether a pass of `me` over `n` candidates has room: every counter
    /// of `me`'s notes and the record ids can grow by `n`.
    pub fn room_for(&self, me: &String, n: usize) -> (r: bool)
        ensures
            r == has_room(*self, me@, n as int),
    {
        if n as u64 >= i64::MAX as u64 {
            return false;
        }
        let nn = n as i64;
        if self.matches.len() as u64 >= (i64::MAX as u64) - (n as u64) {
            return false;
        }
        let mut i: usize = 0;
        while i < self.notes.len()
            invariant
                i <= self.notes@.len(),
                nn == n,
                0 <= nn < i64::MAX,
                forall|j: int|
                    0 <= j < i && (#[trigger] self.notes@[j]).agent_user_id@ == me@ ==> self.notes@[j].conversation_count
                        + n < i64::MAX,
            decreases self.notes@.len() - i,
        {
            if self.notes[i].agent_user_id == *me && self.notes[i].conversation_count >= i64::MAX
                - nn {
                return false;
            }
            i += 1;
        }
        true
    }

    /// The position of the record with id `match_id`, if there is one.
    pub fn record_by_id(&self, match_id: i64) -> (r: Option<usize>)
        requires
            self.wf(),
        ensures
            r matches Some(i) ==> i < self.matches@.len() && self.matches@[i as int].id == match_id,
            r is None ==> forall|i: int|
                0 <= i < self.matches@.len() ==> (#[trigger] self.matches@[i]).id != match_id,
    {
        let len = self.matches.len();
        if match_id >= 1 && (match_id as u64) <= (len as u64) {
            Some((match_id - 1) as usize)
        } else {
            None
        }
    }

    /// The records that `user` takes part in: confirmed ones first, and
    /// within each group the most recently updated first (by the text of
    /// `updated_at`; equal stamps keep the order of creation).
    pub fn matches_for(&self, user: &String) -> (r: Vec<MatchRecord>)
        ensures
            r@.to_multiset() == (self.matches@.filter(confirmed_with(user@)) + self.matches@.filter(
                proposed_with(user@),
            )).to_multiset(),
            forall|i: int, j: int|
                0 <= i < j < r@.len() && (#[trigger] r@[j]).is_matched ==> (#[trigger] r@[i]).is_matched,
            forall|i: int, j: int|
                0 <= i < j < r@.len() && (#[trigger] r@[i]).is_matched == (#[trigger] r@[j]).is_matched
                    ==> !text_before(r@[i].updated_at@, r@[j].updated_at@),
    {
        let ghost conf = confirmed_with(user@);
        let ghost open = proposed_with(user@);
        let mut first: Vec<MatchRecord> = Vec::new();
        let mut rest: Vec<MatchRecord> = Vec::new();
        let mut i: usize = 0;
        proof {
            reveal(Seq::filter);
            assert(self.matches@.subrange(0, 0).filter(conf) == first@);
            assert(self.matches@.subrange(0, 0).filter(open) == rest@);
        }
        while i < self.matches.len()
            invariant
                i <= self.matches@.len(),
                conf == confirmed_with(user@),
                open == proposed_with(user@),
                first@.to_multiset() == self.matches@.subrange(0, i as int).filter(conf).to_multiset(),
                rest@.to_multiset() == self.matches@.subrange(0, i as int).filter(open).to_multiset(),
                newest_first(first@),
                newest_first(rest@),
                forall|k: int| 0 <= k < first@.len() ==> (#[trigger] first@[k]).is_matched,
                forall|k: int| 0 <= k < rest@.len() ==> !(#[trigger] rest@[k]).is_matched,
            decreases self.matches@.len() - i,
        {
            let m = &self.matches[i];
            proof {
                let s = self.matches@.subrange(0, i as int);
                assert(self.matches@.subrange(0, i as int + 1) == s.push(*m));
                s.lemma_filter_push(*m, conf);
                s.lemma_filter_push(*m, open);
                to_multiset_build(s.filter(conf), *m);
                to_multiset_build(s.filter(open), *m);
            }
            if m.user_a_id == *user || m.user_b_id == *user {
                if m.is_matched {
                    let ghost f0 = first@;
                    let p = insert_newest_first(&mut first, m.duplicate());
                    proof {
                        to_multiset_insert(f0, p as int, *m);
                        assert forall|k: int| 0 <= k < first@.len() implies (
                        #[trigger] first@[k]).is_matched by {
                            if k > p {
                                assert(first@[k] == f0[k - 1]);
                            } else if k < p {
                                assert(first@[k] == f0[k]);
                            }
                        }
                    }
                } else {
                    let ghost r0 = rest@;
                    let p = insert_newest_first(&mut rest, m.duplicate());
                    proof {
                        to_multiset_insert(r0, p as int, *m);
                        assert forall|k: int| 0 <= k < rest@.len() implies !(
                        #[trigger] rest@[k]).is_matched by {
                            if k > p {
                                assert(rest@[k] == r0[k - 1]);
                            } else if k < p {
                                assert(rest@[k] == r0[k]);
                            }
                        }
                    }
                }
            }
            i += 1;
        }
        assert(self.matches@.subrange(0, i as int) == self.matches@);
        let ghost f = first@;
        let ghost g = rest@;
        first.append(&mut rest);
        proof {
            assert(first@ == f + g);
            lemma_multiset_commutative(f, g);
            lemma_multiset_commutative(self.matches@.filter(conf), self.matches@.filter(open));
            assert forall|i: int, j: int|
                0 <= i < j < first@.len() && (#[trigger] first@[i]).is_matched == (
                #[trigger] first@[j]).is_matched implies !text_before(
                first@[i].updated_at@,
                first@[j].updated_at@,
            ) by {
                if j < f.len() {
                    assert(first@[i] == f[i] && first@[j] == f[j]);
                } else if i >= f.len() {
                    assert(first@[i] == g[i - f.len()] && first@[j] == g[j - f.len()]);
                } else {
                    assert(first@[i] == f[i] && first@[j] == g[j - f.len()]);
                }
            }
            assert forall|i: int, j: int|
                0 <= i < j < first@.len() && (#[trigger] first@[j]).is_matched implies (
                #[trigger] first@[i]).is_matched by {
                if i < f.len() {
                    assert(first@[i] == f[i]);
                } else {
                    assert(first@[i] == g[i - f.len()] && first@[j] == g[j - f.len()]);
                }
            }
        }
        first
    }

    /// Whether `user` may use the thread of match `match_id`: the match
    /// exists, is confirmed, and `user` holds one of its slots.
    pub fn authorize_thread(&self, match_id: i64, user: &String) -> (r: Result<(), DmError>)
        requires
            self.wf(),
        ensures
            r is Ok <==> exists|i: int|
                0 <= i < self.matches@.len() && (#[trigger] self.matches@[i]).id == match_id
                    && may_use_thread(self.matches@[i], user@),
            r is Err ==> r == Err::<(), DmError>(DmError::NotAuthorized),
    {
        match self.record_by_id(match_id) {
            Some(i) => authorize_thread(Some(&self.matches[i]), match_id, user),
            None => authorize_thread(None, match_id, user),
        }
    }

    /// Builds the direct message `sender` posts to match `match_id`: the
    /// content without surrounding white space must not be empty, then the
    /// thread must be open to the sender. The message id is left at 0.
    pub fn send_direct_message(
        &self,
        match_id: i64,
        sender: &String,
        content: &str,
        now: &String,
    ) -> (r: Result<DirectMessage, DmError>)
        requires
            self.wf(),
        ensures
            trimmed(content@).len() == 0 ==> r == Err::<DirectMessage, DmError>(
                DmError::EmptyMessage,
            ),
            r is Ok <==> trimmed(content@).len() > 0 && exists|i: int|
                0 <= i < self.matches@.len() && (#[trigger] self.matches@[i]).id == match_id
                    && may_use_thread(self.matches@[i], sender@),
            r is Err && trimmed(content@).len() > 0 ==> r == Err::<DirectMessage, DmError>(
                DmError::NotAuthorized,
            ),
            r matches Ok(msg) ==> {
                &&& msg.match_id == match_id
                &&& msg.sender_id@ == sender@
                &&& msg.content@ == trimmed(content@)
                &&& msg.created_at@ == now@
            },
    {
        match self.record_by_id(match_id) {
            Some(i) => post_direct_message(Some(&self.matches[i]), match_id, sender, content, now),
            None => post_direct_message(None, match_id, sender, content, now),
        }
    }
}

} // verus!
