//! The learned profile: when it carries enough signal, and how a learning
//! round updates it.
use vstd::prelude::*;
use crate::clock::now_rfc3339;
use crate::json::{is_json, json_parses, json_string_at, opt_view, string_field};
use crate::models::{AgentProfile, ChatMessage, LlmMessage};
use crate::text::{strip_code_fence, unfenced};

verus! {

/// Whether at least one of the seven learned fields is non-empty.
pub open spec fn spec_has_signal(p: AgentProfile) -> bool {
    p.personality_summary@.len() > 0 || p.interests@.len() > 0 || p.core_values@.len() > 0
        || p.communication_style@.len() > 0 || p.looking_for@.len() > 0
        || p.deal_breakers@.len() > 0 || p.raw_notes@.len() > 0
}

/// Whether the profile holds anything learned at all.
pub fn has_signal(p: &AgentProfile) -> (r: bool)
    ensures
        r == spec_has_signal(*p),
{
    !p.personality_summary.as_str().is_empty() || !p.interests.as_str().is_empty()
        || !p.core_values.as_str().is_empty() || !p.communication_style.as_str().is_empty()
        || !p.looking_for.as_str().is_empty() || !p.deal_breakers.as_str().is_empty()
        || !p.raw_notes.as_str().is_empty()
}

/// How many of the latest messages the chat agent sees.
pub const CHAT_WINDOW: usize = 20;

/// How many of the latest messages a learning round reads.
pub const LEARN_WINDOW: usize = 30;

/// How many stored messages a chat request loads.
pub const HISTORY_LIMIT: usize = 50;

/// Profile learning runs whenever the number of stored messages reaches a
/// multiple of this.
pub const RELEARN_INTERVAL: usize = 5;

/// The fields a learning round produced; a missing field keeps its old
/// value.
#[derive(Debug, Clone, Default)]
pub struct ProfileUpdate {
    pub personality_summary: Option<String>,
    pub interests: Option<String>,
    pub core_values: Option<String>,
    pub communication_style: Option<String>,
    pub looking_for: Option<String>,
    pub deal_breakers: Option<String>,
    pub raw_notes: Option<String>,
}

/// Why a learning round produced nothing.
#[derive(Debug, Clone, Copy, PartialEq, Eq)]
pub enum LearnError {
    /// The model's reply was not a JSON document.
    Unparseable,
}

/// The new value of a field: the update's when it has one, else the old.
pub open spec fn kept_or(update: Option<String>, old: String) -> Seq<char> {
    match update {
        Some(v) => v@,
        None => old@,
    }
}

fn take_or(update: Option<String>, old: &String) -> (r: String)
    ensures
        r@ == kept_or(update, *old),
{
    match update {
        Some(v) => v,
        None => old.clone(),
    }
}

/// The empty profile of `user_id`, as stored at registration.
pub fn empty_profile(user_id: &String) -> (p: AgentProfile)
    ensures
        p.user_id@ == user_id@,
        !spec_has_signal(p),
        p.updated_at@.len() == 0,
{
    AgentProfile {
        user_id: user_id.clone(),
        personality_summary: String::new(),
        interests: String::new(),
        core_values: String::new(),
        communication_style: String::new(),
        looking_for: String::new(),
        deal_breakers: String::new(),
        raw_notes: String::new(),
        updated_at: String::new(),
    }
}

/// Applies a learning round to `current`: each field takes the update's
/// value where it has one and keeps its old value otherwise, so a partial
/// update never erases what is known. The owner stays; the time stamp
/// becomes `now`.
pub fn merge_profile_update(current: &AgentProfile, update: ProfileUpdate, now: &String) -> (p:
    AgentProfile)
    ensures
        p.user_id == current.user_id,
        p.personality_summary@ == kept_or(update.personality_summary, current.personality_summary),
        p.interests@ == kept_or(update.interests, current.interests),
        p.core_values@ == kept_or(update.core_values, current.core_values),
        p.communication_style@ == kept_or(update.communication_style, current.communication_style),
        p.looking_for@ == kept_or(update.looking_for, current.looking_for),
        p.deal_breakers@ == kept_or(update.deal_breakers, current.deal_breakers),
        p.raw_notes@ == kept_or(update.raw_notes, current.raw_notes),
        p.updated_at@ == now@,
{
    AgentProfile {
        user_id: current.user_id.clone(),
        personality_summary: take_or(update.personality_summary, &current.personality_summary),
        interests: take_or(update.interests, &current.interests),
        core_values: take_or(update.core_values, &current.core_values),
        communication_style: take_or(update.communication_style, &current.communication_style),
        looking_for: take_or(update.looking_for, &current.looking_for),
        deal_breakers: take_or(update.deal_breakers, &current.deal_breakers),
        raw_notes: take_or(update.raw_notes, &current.raw_notes),
        updated_at: now.clone(),
    }
}

/// The value a reply gives for the learned field `key`: the string member
/// of that name in the JSON object inside the reply's code fence.
pub open spec fn reply_field(reply: Seq<char>, key: Seq<char>) -> Option<Seq<char>> {
    json_string_at(unfenced(reply), key)
}

/// The profile field after a learning round: the reply's value for `key`
/// where it gives one, else the old value.
pub open spec fn learned_field(reply: Seq<char>, key: Seq<char>, old: Seq<char>) -> Seq<char> {
    match reply_field(reply, key) {
        Some(v) => v,
        None => old,
    }
}

/// Reads the fields of a learning round from the model's reply: a JSON
/// object, possibly inside a Markdown code fence, whose string members
/// named like the learned fields carry their new values.
pub fn decode_profile_update(reply: &str) -> (r: Option<ProfileUpdate>)
    ensures
        r is Some <==> json_parses(unfenced(reply@)),
        r matches Some(u) ==> {
            &&& opt_view(u.personality_summary) == reply_field(reply@, "personality_summary"@)
            &&& opt_view(u.interests) == reply_field(reply@, "interests"@)
            &&& opt_view(u.core_values) == reply_field(reply@, "core_values"@)
            &&& opt_view(u.communication_style) == reply_field(reply@, "communication_style"@)
            &&& opt_view(u.looking_for) == reply_field(reply@, "looking_for"@)
            &&& opt_view(u.deal_breakers) == reply_field(reply@, "deal_breakers"@)
            &&& opt_view(u.raw_notes) == reply_field(reply@, "raw_notes"@)
        },
{
    let text = strip_code_fence(reply);
    let t = text.as_str();
    if !is_json(t) {
        return None;
    }
    Some(
        ProfileUpdate {
            personality_summary: string_field(t, "personality_summary"),
            interests: string_field(t, "interests"),
            core_values: string_field(t, "core_values"),
            communication_style: string_field(t, "communication_style"),
            looking_for: string_field(t, "looking_for"),
            deal_breakers: string_field(t, "deal_breakers"),
            raw_notes: string_field(t, "raw_notes"),
        },
    )
}

/// One learning round on the model's reply: refused as a whole when the
/// reply is not JSON, so the stored profile is never partly overwritten;
/// otherwise each learned field takes the reply's value where it gives one
/// and keeps its old value where it does not, and the result is stamped
/// with the current time.
pub fn learn_profile(current: &AgentProfile, reply: &str) -> (r: Result<AgentProfile, LearnError>)
    ensures
        r is Ok <==> json_parses(unfenced(reply@)),
        r matches Ok(p) ==> {
            &&& p.user_id == current.user_id
            &&& p.personality_summary@ == learned_field(
                reply@,
                "personality_summary"@,
                current.personality_summary@,
            )
            &&& p.interests@ == learned_field(reply@, "interests"@, current.interests@)
            &&& p.core_values@ == learned_field(reply@, "core_values"@, current.core_values@)
            &&& p.communication_style@ == learned_field(
                reply@,
                "communication_style"@,
                current.communication_style@,
            )
            &&& p.looking_for@ == learned_field(reply@, "looking_for"@, current.looking_for@)
            &&& p.deal_breakers@ == learned_field(reply@, "deal_breakers"@, current.deal_breakers@)
            &&& p.raw_notes@ == learned_field(reply@, "raw_notes"@, current.raw_notes@)
        },
{
    match decode_profile_update(reply) {
        Some(update) => {
            let now = now_rfc3339();
            Ok(merge_profile_update(current, update, &now))
        },
        None => Err(LearnError::Unparseable),
    }
}

/// Whether a chat request that found `history_len` stored messages, and
/// adds the user's message and the reply, should start a learning round.
pub fn relearn_due(history_len: usize) -> (r: bool)
    ensures
        r == ((history_len + 2) % (RELEARN_INTERVAL as int) == 0),
{
    (history_len % RELEARN_INTERVAL + 2) % RELEARN_INTERVAL == 0
}

/// Where the last `limit` messages of a history of `len` begin.
pub open spec fn window_start(len: int, limit: int) -> int {
    if len > limit {
        len - limit
    } else {
        0
    }
}

/// The last `limit` messages of `history`, oldest first, as role-tagged
/// messages for the text-generation capability.
pub fn conversation_window(history: &Vec<ChatMessage>, limit: usize) -> (r: Vec<LlmMessage>)
    ensures
        r@.len() == history@.len() - window_start(history@.len() as int, limit as int),
        forall|i: int|
            0 <= i < r@.len() ==> {
                let m = history@[window_start(history@.len() as int, limit as int) + i];
                &&& (#[trigger] r@[i]).role@ == m.role@
                &&& r@[i].content@ == m.content@
            },
{
    let len = history.len();
    let start: usize = if len > limit {
        len - limit
    } else {
        0
    };
    let mut out: Vec<LlmMessage> = Vec::new();
    let mut i: usize = start;
    while i < len
        invariant
            start <= i <= len,
            len == history@.len(),
            start == window_start(len as int, limit as int),
            out@.len() == i - start,
            forall|k: int|
                0 <= k < out@.len() ==> (#[trigger] out@[k]).role@ == history@[start + k].role@
                    && out@[k].content@ == history@[start + k].content@,
        decreases len - i,
    {
        let m = &history[i];
        out.push(LlmMessage { role: m.role.clone(), content: m.content.clone() });
        i += 1;
    }
    out
}

/// One line of a transcript: `role: content`.
pub open spec fn transcript_line(m: ChatMessage) -> Seq<char> {
    m.role@ + ": "@ + m.content@
}

/// The lines of `msgs` joined by line breaks.
pub open spec fn transcript_of(msgs: Seq<ChatMessage>) -> Seq<char>
    decreases msgs.len(),
{
    if msgs.len() == 0 {
        Seq::empty()
    } else if msgs.len() == 1 {
        transcript_line(msgs[0])
    } else {
        transcript_of(msgs.drop_last()) + "\n"@ + transcript_line(msgs.last())
    }
}

/// The last `limit` messages of `history` as a transcript, one
/// `role: content` line per message, oldest first.
pub fn transcript(history: &Vec<ChatMessage>, limit: usize) -> (r: String)
    ensures
        r@ == transcript_of(
            history@.subrange(window_start(history@.len() as int, limit as int), history@.len() as int),
        ),
{
    let len = history.len();
    let start: usize = if len > limit {
        len - limit
    } else {
        0
    };
    let mut out = String::new();
    let mut i: usize = start;
    while i < len
        invariant
            start <= i <= len,
            len == history@.len(),
            start == window_start(len as int, limit as int),
            out@ == transcript_of(history@.subrange(start as int, i as int)),
        decreases len - i,
    {
        let m = &history[i];
        let ghost prev = history@.subrange(start as int, i as int);
        proof {
            assert(history@.subrange(start as int, i + 1).drop_last() == prev);
            assert(history@.subrange(start as int, i + 1).last() == *m);
        }
        if i > start {
            out.append("\n");
        }
        out.append(m.role.as_str());
        out.append(": ");
        out.append(m.content.as_str());
        i += 1;
    }
    out
}

} // verus!
