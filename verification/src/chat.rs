//! Plain-value forms of the chat gateway's participants and messages.
use vstd::prelude::*;

verus! {

/// A chat identity that can answer questions or vote to skip.
pub struct Participant {
    pub id: u64,
    pub name: String,
}

/// An inbound chat message, reduced to the fields the game reads.
pub struct ChatMessage {
    pub author: Participant,
    pub channel_id: u64,
    pub content: String,
}

} // verus!
