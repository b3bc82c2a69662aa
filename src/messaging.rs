//! Who may read and post in the direct-message thread of a match.
use vstd::prelude::*;
use crate::models::{DirectMessage, MatchRecord};
use crate::text::{trimmed, validate_message, MessageError};

verus! {

/// Why a direct-message request was refused. A missing, unconfirmed or
/// foreign match gives the same denial.
#[derive(Debug, Clone, Copy, PartialEq, Eq)]
pub enum DmError {
    /// The message holds nothing but white space.
    EmptyMessage,
    /// The sender may not use this thread.
    NotAuthorized,
}

/// Whether `user` may read or post in the thread of `record`: the match is
/// confirmed and `user` occupies one of its slots.
pub open spec fn may_use_thread(record: MatchRecord, user: Seq<char>) -> bool {
    record.is_matched && (record.user_a_id@ == user || record.user_b_id@ == user)
}

/// Whether the looked-up record is the match `match_id` and `user` may use
/// its thread.
pub open spec fn thread_open(record: Option<MatchRecord>, match_id: i64, user: Seq<char>) -> bool {
    record matches Some(m) && m.id == match_id && may_use_thread(m, user)
}

/// Decides whether `user` may use the thread of match `match_id`, given the
/// record found under that id (none when there is no such match).
pub fn authorize_thread(record: Option<&MatchRecord>, match_id: i64, user: &String) -> (r: Result<
    (),
    DmError,
>)
    ensures
        r is Ok <==> thread_open(
            match record {
                Some(m) => Some(*m),
                None => None,
            },
            match_id,
            user@,
        ),
        r is Err ==> r == Err::<(), DmError>(DmError::NotAuthorized),
{
    match record {
        Some(m) => {
            if m.id == match_id && m.is_matched && (m.user_a_id == *user || m.user_b_id == *user) {
                Ok(())
            } else {
                Err(DmError::NotAuthorized)
            }
        },
        None => Err(DmError::NotAuthorized),
    }
}

/// Builds the direct message `sender` posts to match `match_id`, given the
/// record found under that id: the content without surrounding white space
/// must not be empty, then the thread must be open to the sender. The
/// message id is left at 0 for the storage to assign.
pub fn post_direct_message(
    record: Option<&MatchRecord>,
    match_id: i64,
    sender: &String,
    content: &str,
    now: &String,
) -> (r: Result<DirectMessage, DmError>)
    ensures
        trimmed(content@).len() == 0 ==> r == Err::<DirectMessage, DmError>(DmError::EmptyMessage),
        trimmed(content@).len() > 0 && !thread_open(
            match record {
                Some(m) => Some(*m),
                None => None,
            },
            match_id,
            sender@,
        ) ==> r == Err::<DirectMessage, DmError>(DmError::NotAuthorized),
        r matches Ok(msg) ==> {
            &&& msg.id == 0
            &&& msg.match_id == match_id
            &&& msg.sender_id@ == sender@
            &&& msg.content@ == trimmed(content@)
            &&& msg.created_at@ == now@
        },
        r is Ok <==> trimmed(content@).len() > 0 && thread_open(
            match record {
                Some(m) => Some(*m),
                None => None,
            },
            match_id,
            sender@,
        ),
{
    let text = match validate_message(content) {
        Ok(t) => t,
        Err(MessageError::Empty) => {
            return Err(DmError::EmptyMessage);
        },
    };
    match authorize_thread(record, match_id, sender) {
        Ok(()) => Ok(
            DirectMessage {
                id: 0,
                match_id,
                sender_id: sender.clone(),
                content: text,
                created_at: now.clone(),
            },
        ),
        Err(e) => Err(e),
    }
}

} // verus!
