use jupiter::account::{validate_registration, RegistrationError};
use jupiter::models::{AgentProfile, ChatMessage, RegisterRequest};
use jupiter::oracle::{normalize_verdict, OracleReading};
use jupiter::profile::{
    conversation_window, decode_profile_update, empty_profile, has_signal, learn_profile,
    merge_profile_update, relearn_due, transcript, ProfileUpdate,
};
use jupiter::text::{bearer_token, strip_code_fence, validate_message, MessageError};

fn s(t: &str) -> String {
    t.to_string()
}

fn msg(role: &str, content: &str) -> ChatMessage {
    ChatMessage { id: None, role: s(role), content: s(content), created_at: None }
}

#[test]
fn verdict_score_is_clamped() {
    let high = normalize_verdict(OracleReading { score: Some(1500), rationale: None, recommend: None });
    assert_eq!(high.score, 1000);
    assert!(high.recommend);
    assert_eq!(high.rationale, "No notes");
    let low = normalize_verdict(OracleReading { score: Some(-3), rationale: Some(s("meh")), recommend: Some(true) });
    assert_eq!(low.score, 0);
    assert!(low.recommend);
    assert_eq!(low.rationale, "meh");
}

#[test]
fn missing_recommendation_follows_threshold() {
    let at = normalize_verdict(OracleReading { score: Some(650), rationale: None, recommend: None });
    assert!(at.recommend);
    let below = normalize_verdict(OracleReading { score: Some(649), rationale: None, recommend: None });
    assert!(!below.recommend);
    let none = normalize_verdict(OracleReading { score: None, rationale: None, recommend: None });
    assert_eq!(none.score, 0);
    assert!(!none.recommend);
    let vetoed = normalize_verdict(OracleReading { score: Some(900), rationale: None, recommend: Some(false) });
    assert!(!vetoed.recommend);
}

#[test]
fn code_fence_is_removed() {
    assert_eq!(strip_code_fence("  ```json\n{\"a\": 1}\n```  "), "{\"a\": 1}");
    assert_eq!(strip_code_fence("```\n[1]\n```"), "[1]");
    assert_eq!(strip_code_fence("{}"), "{}");
}

#[test]
fn messages_are_trimmed_and_not_empty() {
    assert_eq!(validate_message("  hi there \n"), Ok(s("hi there")));
    assert_eq!(validate_message(" \t\n "), Err(MessageError::Empty));
    assert_eq!(validate_message(""), Err(MessageError::Empty));
}

#[test]
fn bearer_header() {
    assert_eq!(bearer_token("Bearer abc.def"), Some(s("abc.def")));
    assert_eq!(bearer_token("Basic abc"), None);
    assert_eq!(bearer_token("bearer abc"), None);
}

#[test]
fn partial_update_keeps_known_fields() {
    let current = AgentProfile {
        user_id: s("u"),
        personality_summary: s("calm"),
        interests: s("chess"),
        deal_breakers: s("smoking"),
        updated_at: s("old"),
        ..Default::default()
    };
    let update = ProfileUpdate {
        interests: Some(s("chess, hiking")),
        looking_for: Some(s("someone kind")),
        ..Default::default()
    };
    let p = merge_profile_update(&current, update, &s("now"));
    assert_eq!(p.user_id, "u");
    assert_eq!(p.personality_summary, "calm");
    assert_eq!(p.interests, "chess, hiking");
    assert_eq!(p.looking_for, "someone kind");
    assert_eq!(p.deal_breakers, "smoking");
    assert_eq!(p.core_values, "");
    assert_eq!(p.updated_at, "now");
}

#[test]
fn reply_decoding() {
    let u = decode_profile_update("```json\n{\"interests\": \"go\", \"raw_notes\": 5}\n```").unwrap();
    assert_eq!(u.interests, Some(s("go")));
    assert_eq!(u.raw_notes, None);
    assert_eq!(u.personality_summary, None);
    assert!(decode_profile_update("sorry, I cannot do that").is_none());
}

#[test]
fn learning_round() {
    let current = AgentProfile { user_id: s("u"), interests: s("chess"), ..Default::default() };
    let p = learn_profile(&current, "{\"core_values\": \"honesty\"}").unwrap();
    assert_eq!(p.user_id, "u");
    assert_eq!(p.interests, "chess");
    assert_eq!(p.core_values, "honesty");
    assert!(!p.updated_at.is_empty());
    assert!(learn_profile(&current, "not json").is_err());
}

#[test]
fn signal_and_empty_profile() {
    let p = empty_profile(&s("u"));
    assert_eq!(p.user_id, "u");
    assert!(!has_signal(&p));
    let q = AgentProfile { raw_notes: s("likes cats"), ..p };
    assert!(has_signal(&q));
}

#[test]
fn relearning_every_fifth_message() {
    assert!(relearn_due(3));
    assert!(!relearn_due(4));
    assert!(relearn_due(8));
    assert!(!relearn_due(0));
    assert!(relearn_due(usize::MAX - 2));
    assert!(!relearn_due(usize::MAX - 1));
}

#[test]
fn windows_keep_the_latest_messages() {
    let history: Vec<ChatMessage> = (0..25).map(|i| msg("user", &format!("m{}", i))).collect();
    let w = conversation_window(&history, 20);
    assert_eq!(w.len(), 20);
    assert_eq!(w[0].content, "m5");
    assert_eq!(w[19].content, "m24");
    assert_eq!(w[0].role, "user");
    assert_eq!(conversation_window(&history[..3].to_vec(), 20).len(), 3);
}

#[test]
fn transcript_lines() {
    let history = vec![msg("user", "hi"), msg("assistant", "hello"), msg("user", "bye")];
    assert_eq!(transcript(&history, 2), "assistant: hello\nuser: bye");
    assert_eq!(transcript(&history, 30), "user: hi\nassistant: hello\nuser: bye");
    assert_eq!(transcript(&Vec::new(), 30), "");
}

#[test]
fn registration_rules() {
    let req = RegisterRequest {
        username: s("  ann  "),
        email: s(" Ann@Example.COM "),
        password: s("secret"),
        display_name: None,
    };
    let a = validate_registration(&req).unwrap();
    assert_eq!(a.username, "ann");
    assert_eq!(a.email, "ann@example.com");
    assert_eq!(a.display_name, "ann");
    let short = RegisterRequest { username: s(" al "), ..req.clone() };
    assert_eq!(validate_registration(&short).unwrap_err(), RegistrationError::TooShort);
    let weak = RegisterRequest { password: s("12345"), ..req.clone() };
    assert_eq!(validate_registration(&weak).unwrap_err(), RegistrationError::TooShort);
    let named = RegisterRequest { display_name: Some(s("Ann B.")), ..req };
    assert_eq!(validate_registration(&named).unwrap().display_name, "Ann B.");
}
