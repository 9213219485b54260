//! A multi-tenant key-value store whose keys are namespaced by SHA-256, with a
//! built-in chat tenant that keeps append-only message channels.
pub mod validate;
pub mod address;
pub mod types;
pub mod host;
pub mod channel;
pub mod store;
pub mod laws;

pub use channel::Channel;
pub use store::MetanearChat;
pub use address::{app_key, messages_key_from_hash};
pub use types::{
    ChannelMessagesResponse, ChannelStatusResponse, ChatError, GetRequest, GetResponse,
    IncomingMessage, Message, StatusResponse,
};
pub use validate::{is_chat_app_id, verify_app_id, verify_channel_id};
