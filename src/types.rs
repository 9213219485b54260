//! Plain data of the chat protocol and the store's errors.
use vstd::prelude::*;

verus! {

/// One chat message.
#[derive(Debug)]
pub struct Message {
    /// Time in milliseconds.
    pub time: u64,
    /// The account id of the message sender.
    pub sender_id: String,
    /// The content of the message.
    pub text: String,
}

impl Message {
    /// A field-by-field copy.
    pub fn duplicate(&self) -> (r: Message)
        ensures
            r == *self,
    {
        Message { time: self.time, sender_id: self.sender_id.clone(), text: self.text.clone() }
    }
}

/// A structured read request of the chat tenant.
#[derive(Debug)]
pub enum GetRequest {
    Status {},
    ChannelStatus { channel_id: String },
    ChannelMessages { channel_id: String, from_index: u64, limit: u64 },
}

#[derive(Debug, PartialEq, Eq)]
pub struct StatusResponse {
    pub num_channels: u64,
    pub total_num_messages: u64,
}

#[derive(Debug, PartialEq, Eq)]
pub struct ChannelStatusResponse {
    pub num_messages: u64,
}

#[derive(Debug)]
pub struct ChannelMessagesResponse {
    pub messages: Vec<Message>,
}

/// The answer to a [`GetRequest`], one variant per request kind.
#[derive(Debug)]
pub enum GetResponse {
    Status(StatusResponse),
    ChannelStatus(ChannelStatusResponse),
    ChannelMessages(ChannelMessagesResponse),
}

/// A structured message posted to the chat tenant.
#[derive(Debug)]
pub enum IncomingMessage {
    ChatMessage { channel_id: String, text: String },
}

/// Why a call was refused. Every refusal leaves the store as it was.
#[derive(Debug, Clone, Copy, PartialEq, Eq, Structural)]
pub enum ChatError {
    /// The tenant id breaks the identifier policy.
    InvalidAppId,
    /// The channel id breaks the identifier policy.
    InvalidChannelId,
    /// A privileged call came from an account other than the store's own.
    NotSelfCall,
    /// Messages are only accepted for the chat tenant.
    UnsupportedApp,
    /// Chat tenant reads go through structured requests, not raw keys.
    ReservedApp,
}

} // verus!
