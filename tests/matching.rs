use jupiter::engine::{
    evaluate_pair, other_participant, MatchingError, NotificationKind, Transition,
};
use jupiter::messaging::DmError;
use jupiter::models::{AgentPeerNote, AgentProfile, MatchRecord};
use jupiter::oracle::Verdict;
use jupiter::store::MatchStore;

fn s(t: &str) -> String {
    t.to_string()
}

fn verdict(score: u32, recommend: bool) -> Verdict {
    Verdict { score, rationale: s("..."), recommend }
}

fn profile(id: &str, interests: &str) -> AgentProfile {
    AgentProfile {
        user_id: s(id),
        interests: s(interests),
        ..Default::default()
    }
}

fn note_count(store: &MatchStore, u: &str, c: &str) -> i64 {
    store
        .notes
        .iter()
        .find(|n| n.agent_user_id == u && n.about_user_id == c)
        .map(|n| n.conversation_count)
        .unwrap_or(0)
}

#[test]
fn mutual_recommendations_confirm_the_match() {
    let mut store = MatchStore::new();
    let (u, c, now) = (s("u"), s("c"), s("t1"));
    let t = store.apply_evaluation(&u, &c, &verdict(800, true), &now);
    assert_eq!(t, Ok(Transition::Proposed));
    assert_eq!(store.matches.len(), 1);
    let m = &store.matches[0];
    assert_eq!((m.user_a_id.as_str(), m.user_b_id.as_str()), ("u", "c"));
    assert!(m.agent_a_approves);
    assert!(!m.agent_b_approves);
    assert!(!m.is_matched);
    assert_eq!(store.outbox.len(), 1);
    assert_eq!(store.outbox[0].recipient_id, "c");
    assert_eq!(store.outbox[0].kind, NotificationKind::MatchProposal);
    assert_eq!(store.outbox[0].related_user_id, "u");

    let t = store.apply_evaluation(&c, &u, &verdict(700, true), &s("t2"));
    assert_eq!(t, Ok(Transition::Confirmed));
    assert_eq!(store.matches.len(), 1);
    let m = &store.matches[0];
    assert!(m.agent_a_approves && m.agent_b_approves && m.is_matched);
    assert_eq!(m.updated_at, "t2");
    assert_eq!(store.outbox.len(), 3);
    assert_eq!(store.outbox[1].recipient_id, "c");
    assert_eq!(store.outbox[1].kind, NotificationKind::MatchConfirmed);
    assert_eq!(store.outbox[1].related_user_id, "u");
    assert_eq!(store.outbox[2].recipient_id, "u");
    assert_eq!(store.outbox[2].kind, NotificationKind::MatchConfirmed);
    assert_eq!(store.outbox[2].related_user_id, "c");
}

#[test]
fn unrecommending_evaluation_only_writes_the_note() {
    let mut store = MatchStore::new();
    let t = store.apply_evaluation(&s("u"), &s("c"), &verdict(300, false), &s("t"));
    assert_eq!(t, Ok(Transition::Unchanged));
    assert_eq!(store.notes.len(), 1);
    assert_eq!(store.notes[0].conversation_count, 1);
    assert_eq!(store.notes[0].compatibility_score, 300);
    assert!(!store.notes[0].recommends_match);
    assert!(store.matches.is_empty());
    assert!(store.outbox.is_empty());
}

#[test]
fn direct_message_to_proposed_match_is_denied_for_both() {
    let mut store = MatchStore::new();
    let (u, c, x) = (s("u"), s("c"), s("x"));
    store.apply_evaluation(&u, &c, &verdict(800, true), &s("t")).unwrap();
    assert_eq!(store.send_direct_message(1, &u, "hello", &s("t")).unwrap_err(), DmError::NotAuthorized);
    assert_eq!(store.send_direct_message(1, &c, "hello", &s("t")).unwrap_err(), DmError::NotAuthorized);
    assert_eq!(store.authorize_thread(1, &u), Err(DmError::NotAuthorized));

    store.apply_evaluation(&c, &u, &verdict(900, true), &s("t")).unwrap();
    let msg = store.send_direct_message(1, &c, "  hello  ", &s("t9")).unwrap();
    assert_eq!(msg.content, "hello");
    assert_eq!(msg.sender_id, "c");
    assert_eq!(msg.match_id, 1);
    assert_eq!(msg.created_at, "t9");
    assert_eq!(store.authorize_thread(1, &u), Ok(()));
    assert_eq!(store.authorize_thread(1, &x), Err(DmError::NotAuthorized));
    assert_eq!(store.authorize_thread(2, &u), Err(DmError::NotAuthorized));
    assert_eq!(store.send_direct_message(1, &u, "   ", &s("t")).unwrap_err(), DmError::EmptyMessage);
}

#[test]
fn one_side_alone_never_confirms() {
    let mut store = MatchStore::new();
    for _ in 0..4 {
        store.apply_evaluation(&s("u"), &s("c"), &verdict(990, true), &s("t")).unwrap();
    }
    assert_eq!(store.matches.len(), 1);
    assert!(!store.matches[0].is_matched);
    assert!(!store.matches[0].agent_b_approves);
    assert_eq!(note_count(&store, "u", "c"), 4);
}

#[test]
fn confirmation_survives_unrecommending_reevaluation() {
    let mut store = MatchStore::new();
    store.apply_evaluation(&s("u"), &s("c"), &verdict(800, true), &s("t")).unwrap();
    store.apply_evaluation(&s("c"), &s("u"), &verdict(800, true), &s("t")).unwrap();
    let t = store.apply_evaluation(&s("u"), &s("c"), &verdict(100, false), &s("t"));
    assert_eq!(t, Ok(Transition::Unchanged));
    assert!(store.matches[0].is_matched);
    let t = store.apply_evaluation(&s("c"), &s("u"), &verdict(800, true), &s("t"));
    assert_eq!(t, Ok(Transition::Approved));
    assert!(store.matches[0].is_matched);
    assert_eq!(store.outbox.len(), 3);
}

#[test]
fn one_record_per_pair_whichever_side_starts() {
    let mut store = MatchStore::new();
    store.apply_evaluation(&s("c"), &s("u"), &verdict(800, true), &s("t")).unwrap();
    store.apply_evaluation(&s("u"), &s("c"), &verdict(800, true), &s("t")).unwrap();
    assert_eq!(store.matches.len(), 1);
    assert_eq!(store.matches[0].user_a_id, "c");
    assert!(store.matches[0].is_matched);
    store.apply_evaluation(&s("u"), &s("d"), &verdict(800, true), &s("t")).unwrap();
    assert_eq!(store.matches.len(), 2);
    assert_eq!(store.matches[1].id, 2);
}

#[test]
fn counter_moves_by_one_per_successful_evaluation() {
    let mut store = MatchStore::new();
    let me = profile("u", "chess");
    let cands = vec![profile("c", "go"), profile("d", "tea")];
    let st = store
        .run_matching(&me, &cands, &vec![Some(verdict(200, false)), None], &s("t"))
        .unwrap();
    assert_eq!(st.evaluated, 1);
    assert_eq!(note_count(&store, "u", "c"), 1);
    assert_eq!(note_count(&store, "u", "d"), 0);
    store
        .run_matching(&me, &cands, &vec![Some(verdict(200, false)), Some(verdict(200, false))], &s("t"))
        .unwrap();
    assert_eq!(note_count(&store, "u", "c"), 2);
    assert_eq!(note_count(&store, "u", "d"), 1);
}

#[test]
fn empty_profile_cannot_trigger_matching() {
    let mut store = MatchStore::new();
    let me = profile("u", "");
    let cands = vec![profile("c", "go")];
    let r = store.run_matching(&me, &cands, &vec![Some(verdict(900, true))], &s("t"));
    assert_eq!(r, Err(MatchingError::InsufficientSignal));
    assert!(store.notes.is_empty());
    assert!(store.matches.is_empty());
}

#[test]
fn matching_pass_counts_and_skips() {
    let mut store = MatchStore::new();
    let me = profile("u", "chess");
    let cands = vec![
        profile("u", "chess"),
        profile("e", ""),
        profile("c", "go"),
        profile("d", "tea"),
        profile("f", "art"),
    ];
    let verdicts = vec![
        Some(verdict(900, true)),
        Some(verdict(900, true)),
        Some(verdict(900, true)),
        Some(verdict(100, false)),
        None,
    ];
    let st = store.run_matching(&me, &cands, &verdicts, &s("t")).unwrap();
    assert_eq!((st.evaluated, st.new_recommendations, st.new_matches), (2, 1, 0));

    let them = profile("c", "go");
    let back = vec![profile("u", "chess")];
    let st = store.run_matching(&them, &back, &vec![Some(verdict(700, true))], &s("t")).unwrap();
    assert_eq!((st.evaluated, st.new_recommendations, st.new_matches), (1, 0, 1));
    let st = store.run_matching(&them, &back, &vec![Some(verdict(700, true))], &s("t")).unwrap();
    assert_eq!((st.evaluated, st.new_recommendations, st.new_matches), (1, 0, 0));
}

#[test]
fn evaluate_pair_refuses_foreign_inputs() {
    let (u, c) = (s("u"), s("c"));
    let v = verdict(800, true);
    assert_eq!(
        evaluate_pair(&u, &u, None, None, &v, 1, &s("t")).unwrap_err(),
        MatchingError::SelfEvaluation
    );
    let foreign = MatchRecord {
        id: 3,
        user_a_id: s("u"),
        user_b_id: s("z"),
        agent_a_approves: true,
        agent_b_approves: false,
        is_matched: false,
        created_at: s("t"),
        updated_at: s("t"),
        other_user: None,
    };
    assert_eq!(
        evaluate_pair(&u, &c, None, Some(&foreign), &v, 1, &s("t")).unwrap_err(),
        MatchingError::NotParticipant
    );
    let full = AgentPeerNote {
        id: 7,
        agent_user_id: s("u"),
        about_user_id: s("c"),
        compatibility_score: 10,
        notes: s(""),
        recommends_match: false,
        conversation_count: i64::MAX,
        updated_at: s("t"),
    };
    assert_eq!(
        evaluate_pair(&u, &c, Some(&full), None, &v, 1, &s("t")).unwrap_err(),
        MatchingError::Exhausted
    );
}

#[test]
fn evaluate_pair_sets_only_the_acting_slot() {
    let rec = MatchRecord {
        id: 4,
        user_a_id: s("c"),
        user_b_id: s("u"),
        agent_a_approves: false,
        agent_b_approves: false,
        is_matched: false,
        created_at: s("t0"),
        updated_at: s("t0"),
        other_user: None,
    };
    let prior = AgentPeerNote {
        id: 9,
        agent_user_id: s("u"),
        about_user_id: s("c"),
        compatibility_score: 10,
        notes: s("old"),
        recommends_match: false,
        conversation_count: 2,
        updated_at: s("t0"),
    };
    let out = evaluate_pair(&s("u"), &s("c"), Some(&prior), Some(&rec), &verdict(750, true), 99, &s("t1"))
        .unwrap();
    assert_eq!(out.transition, Transition::Approved);
    assert_eq!(out.note.id, 9);
    assert_eq!(out.note.conversation_count, 3);
    assert_eq!(out.note.compatibility_score, 750);
    assert_eq!(out.note.notes, "...");
    let w = out.record.unwrap();
    assert_eq!(w.id, 4);
    assert!(!w.agent_a_approves);
    assert!(w.agent_b_approves);
    assert!(!w.is_matched);
    assert_eq!(w.created_at, "t0");
    assert_eq!(w.updated_at, "t1");
    assert!(out.events.is_empty());
}

#[test]
fn other_participant_by_slot() {
    let rec = MatchRecord {
        id: 1,
        user_a_id: s("a"),
        user_b_id: s("b"),
        agent_a_approves: true,
        agent_b_approves: true,
        is_matched: true,
        created_at: s("t"),
        updated_at: s("t"),
        other_user: None,
    };
    assert_eq!(other_participant(&rec, &s("a")), Some(s("b")));
    assert_eq!(other_participant(&rec, &s("b")), Some(s("a")));
    assert_eq!(other_participant(&rec, &s("z")), None);
}

#[test]
fn matches_for_lists_confirmed_first() {
    let mut store = MatchStore::new();
    store.apply_evaluation(&s("u"), &s("c"), &verdict(800, true), &s("t")).unwrap();
    store.apply_evaluation(&s("u"), &s("d"), &verdict(800, true), &s("t")).unwrap();
    store.apply_evaluation(&s("d"), &s("u"), &verdict(800, true), &s("t")).unwrap();
    store.apply_evaluation(&s("x"), &s("y"), &verdict(800, true), &s("t")).unwrap();
    let ids: Vec<i64> = store.matches_for(&s("u")).iter().map(|m| m.id).collect();
    assert_eq!(ids, vec![2, 1]);
    assert!(store.matches_for(&s("nobody")).is_empty());
}

#[test]
fn notification_tags() {
    assert_eq!(NotificationKind::MatchProposal.tag(), "match_proposal");
    assert_eq!(NotificationKind::MatchConfirmed.tag(), "match_confirmed");
}
