//! The data model shared by the engine, the learner and the messaging gate.
use vstd::prelude::*;

verus! {

/// A new account as submitted by a client.
#[derive(Debug, Clone)]
pub struct RegisterRequest {
    pub username: String,
    pub email: String,
    pub password: String,
    pub display_name: Option<String>,
}

/// Credentials submitted to sign in.
#[derive(Debug, Clone)]
pub struct LoginRequest {
    pub username: String,
    pub password: String,
}

/// What a client receives after signing up or signing in.
#[derive(Debug, Clone)]
pub struct AuthResponse {
    pub token: String,
    pub user: UserPublic,
}

/// The public part of a user account.
#[derive(Debug, Clone)]
pub struct UserPublic {
    pub id: String,
    pub username: String,
    pub email: String,
    pub display_name: String,
    pub bio: String,
    pub created_at: String,
}

impl UserPublic {
    /// A field-by-field copy.
    pub fn duplicate(&self) -> (r: UserPublic)
        ensures
            r == *self,
    {
        UserPublic {
            id: self.id.clone(),
            username: self.username.clone(),
            email: self.email.clone(),
            display_name: self.display_name.clone(),
            bio: self.bio.clone(),
            created_at: self.created_at.clone(),
        }
    }
}

/// The claims carried by a session token; `sub` is the user id.
#[derive(Debug, Clone)]
pub struct Claims {
    pub sub: String,
    pub username: String,
    pub exp: usize,
}

/// One utterance of the conversation between a user and their own agent.
#[derive(Debug, Clone)]
pub struct ChatMessage {
    pub id: Option<i64>,
    pub role: String,
    pub content: String,
    pub created_at: Option<String>,
}

/// A message sent by a user to their own agent.
#[derive(Debug, Clone)]
pub struct SendMessageRequest {
    pub content: String,
}

/// The stored user message together with the agent's reply.
#[derive(Debug, Clone)]
pub struct ChatResponse {
    pub user_message: ChatMessage,
    pub agent_message: ChatMessage,
}

/// What an agent has learned about its own user: seven free-text fields.
#[derive(Debug, Clone, Default)]
pub struct AgentProfile {
    pub user_id: String,
    pub personality_summary: String,
    pub interests: String,
    pub core_values: String,
    pub communication_style: String,
    pub looking_for: String,
    pub deal_breakers: String,
    pub raw_notes: String,
    pub updated_at: String,
}

/// One agent's private assessment of another user, unique per ordered pair
/// (evaluator, subject).
///
/// The compatibility score is held in thousandths: 0 stands for 0.0 and
/// 1000 for 1.0.
#[derive(Debug, Clone)]
pub struct AgentPeerNote {
    pub id: i64,
    pub agent_user_id: String,
    pub about_user_id: String,
    pub compatibility_score: u32,
    pub notes: String,
    pub recommends_match: bool,
    pub conversation_count: i64,
    pub updated_at: String,
}

/// The shared state of an unordered pair of users, held as the ordered pair
/// (`user_a_id`, `user_b_id`) with one approval flag per slot.
#[derive(Debug, Clone)]
pub struct MatchRecord {
    pub id: i64,
    pub user_a_id: String,
    pub user_b_id: String,
    pub agent_a_approves: bool,
    pub agent_b_approves: bool,
    pub is_matched: bool,
    pub created_at: String,
    pub updated_at: String,
    pub other_user: Option<UserPublic>,
}

impl MatchRecord {
    /// A field-by-field copy.
    pub fn duplicate(&self) -> (r: MatchRecord)
        ensures
            r == *self,
    {
        MatchRecord {
            id: self.id,
            user_a_id: self.user_a_id.clone(),
            user_b_id: self.user_b_id.clone(),
            agent_a_approves: self.agent_a_approves,
            agent_b_approves: self.agent_b_approves,
            is_matched: self.is_matched,
            created_at: self.created_at.clone(),
            updated_at: self.updated_at.clone(),
            other_user: match &self.other_user {
                Some(o) => Some(o.duplicate()),
                None => None,
            },
        }
    }
}

/// An event record addressed to one user.
#[derive(Debug, Clone)]
pub struct Notification {
    pub id: i64,
    pub user_id: String,
    pub notification_type: String,
    pub title: String,
    pub message: String,
    pub related_user_id: Option<String>,
    pub is_read: bool,
    pub created_at: String,
}

/// A message in the direct thread of a confirmed match.
#[derive(Debug, Clone)]
pub struct DirectMessage {
    pub id: i64,
    pub match_id: i64,
    pub sender_id: String,
    pub content: String,
    pub created_at: String,
}

/// A message posted to the direct thread of a match.
#[derive(Debug, Clone)]
pub struct SendDirectMessageRequest {
    pub content: String,
}

/// One role-tagged message of a text-generation request.
#[derive(Debug, Clone)]
pub struct LlmMessage {
    pub role: String,
    pub content: String,
}

/// One alternative of a text-generation reply.
#[derive(Debug, Clone)]
pub struct LlmChoice {
    pub message: LlmMessage,
}

/// A text-generation reply.
#[derive(Debug, Clone)]
pub struct LlmResponse {
    pub choices: Vec<LlmChoice>,
}

/// A change to the public part of an account; absent fields stay as they are.
#[derive(Debug, Clone)]
pub struct UpdateProfileRequest {
    pub display_name: Option<String>,
    pub bio: Option<String>,
}

/// The counters reported by one matching pass.
#[derive(Debug, Clone, Copy, PartialEq, Eq)]
pub struct MatchingStatus {
    pub evaluated: usize,
    pub new_recommendations: usize,
    pub new_matches: usize,
}

} // verus!
