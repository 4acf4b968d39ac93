use vstd::prelude::*;
use vstd::string::StrSliceExecFns;
use crate::types::PlayerId;
use crate::errors::GameError;

verus! {

/// Longest chat message, in characters.
pub const MAX_MESSAGE_CHARS: usize = 100;

/// A chat message.
#[derive(Clone, Debug)]
pub struct Message {
    pub id: u64,
    pub sender: PlayerId,
    pub text: String,
    /// When it was sent (microseconds since the epoch).
    pub sent: i64,
}

/// Sends a chat message: refused when empty or longer than 100 characters.
/// The message is returned for insertion (its id is assigned on insertion).
pub fn send_message(sender: PlayerId, text: String, now: i64) -> (r: Result<Message, GameError>)
    ensures
        text@.len() == 0 ==> (r matches Err(e) && e == GameError::EmptyMessage),
        text@.len() > MAX_MESSAGE_CHARS ==> (r matches Err(e) && e == GameError::MessageTooLong),
        0 < text@.len() <= MAX_MESSAGE_CHARS ==> (r matches Ok(m) && m.id == 0 && m.sender
            == sender && m.text@ == text@ && m.sent == now),
{
    let n = text.as_str().unicode_len();
    if n == 0 {
        return Err(GameError::EmptyMessage);
    }
    if n > MAX_MESSAGE_CHARS {
        return Err(GameError::MessageTooLong);
    }
    Ok(Message { id: 0, sender, text, sent: now })
}

} // verus!
