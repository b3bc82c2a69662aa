use jupiter::engine::MatchingError;
use jupiter::messaging::{authorize_thread, post_direct_message, DmError};
use jupiter::models::{AgentProfile, MatchRecord};
use jupiter::oracle::Verdict;
use jupiter::store::MatchStore;

fn s(t: &str) -> String {
    t.to_string()
}

fn record(id: i64, confirmed: bool) -> MatchRecord {
    MatchRecord {
        id,
        user_a_id: s("a"),
        user_b_id: s("b"),
        agent_a_approves: true,
        agent_b_approves: confirmed,
        is_matched: confirmed,
        created_at: s("t"),
        updated_at: s("t"),
        other_user: None,
    }
}

#[test]
fn gate_needs_a_confirmed_record_with_the_sender() {
    let open = record(5, true);
    let pending = record(5, false);
    assert_eq!(authorize_thread(Some(&open), 5, &s("a")), Ok(()));
    assert_eq!(authorize_thread(Some(&open), 5, &s("b")), Ok(()));
    assert_eq!(authorize_thread(Some(&open), 5, &s("c")), Err(DmError::NotAuthorized));
    assert_eq!(authorize_thread(Some(&open), 6, &s("a")), Err(DmError::NotAuthorized));
    assert_eq!(authorize_thread(Some(&pending), 5, &s("a")), Err(DmError::NotAuthorized));
    assert_eq!(authorize_thread(None, 5, &s("a")), Err(DmError::NotAuthorized));
}

#[test]
fn posting_checks_content_before_access() {
    let open = record(5, true);
    let msg = post_direct_message(Some(&open), 5, &s("b"), " see you at 8 ", &s("t3")).unwrap();
    assert_eq!(msg.id, 0);
    assert_eq!(msg.match_id, 5);
    assert_eq!(msg.sender_id, "b");
    assert_eq!(msg.content, "see you at 8");
    assert_eq!(msg.created_at, "t3");
    assert_eq!(post_direct_message(None, 5, &s("b"), "  ", &s("t")).unwrap_err(), DmError::EmptyMessage);
    assert_eq!(post_direct_message(None, 5, &s("b"), "hi", &s("t")).unwrap_err(), DmError::NotAuthorized);
}

#[test]
fn store_refuses_self_evaluation() {
    let mut store = MatchStore::new();
    let v = Verdict { score: 900, rationale: s("x"), recommend: true };
    assert_eq!(store.apply_evaluation(&s("u"), &s("u"), &v, &s("t")), Err(MatchingError::SelfEvaluation));
    assert!(store.notes.is_empty());
    assert!(store.matches.is_empty());
}

#[test]
fn matching_pass_without_candidates() {
    let mut store = MatchStore::new();
    let me = AgentProfile { user_id: s("u"), looking_for: s("kindness"), ..Default::default() };
    let st = store.run_matching(&me, &Vec::new(), &Vec::new(), &s("t")).unwrap();
    assert_eq!((st.evaluated, st.new_recommendations, st.new_matches), (0, 0, 0));
}

#[test]
fn matches_for_orders_each_group_newest_first() {
    let mut store = MatchStore::new();
    let v = Verdict { score: 900, rationale: s("x"), recommend: true };
    store.apply_evaluation(&s("u"), &s("a"), &v, &s("2024-01-01")).unwrap();
    store.apply_evaluation(&s("u"), &s("b"), &v, &s("2024-03-01")).unwrap();
    store.apply_evaluation(&s("u"), &s("c"), &v, &s("2024-02-01")).unwrap();
    store.apply_evaluation(&s("u"), &s("d"), &v, &s("2024-01-05")).unwrap();
    store.apply_evaluation(&s("d"), &s("u"), &v, &s("2024-01-06")).unwrap();
    let ids: Vec<i64> = store.matches_for(&s("u")).iter().map(|m| m.id).collect();
    assert_eq!(ids, vec![4, 2, 3, 1]);
}

#[test]
fn pass_without_room_changes_nothing() {
    let mut store = MatchStore::new();
    store.notes.push(jupiter::models::AgentPeerNote {
        id: 1,
        agent_user_id: s("u"),
        about_user_id: s("c"),
        compatibility_score: 100,
        notes: s(""),
        recommends_match: false,
        conversation_count: i64::MAX - 1,
        updated_at: s("t"),
    });
    let me = AgentProfile { user_id: s("u"), interests: s("go"), ..Default::default() };
    let cands = vec![AgentProfile { user_id: s("c"), interests: s("go"), ..Default::default() }];
    let v = Verdict { score: 900, rationale: s("x"), recommend: true };
    let r = store.run_matching(&me, &cands, &vec![Some(v)], &s("t"));
    assert_eq!(r, Err(MatchingError::Exhausted));
    assert_eq!(store.notes[0].conversation_count, i64::MAX - 1);
    assert!(store.matches.is_empty());
    assert!(store.outbox.is_empty());
}
