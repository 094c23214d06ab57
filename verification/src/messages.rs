//! The message side of the domain: creation (topic post or reply), reads,
//! thread pagination and the `message.created` event payload.

pub mod create_message;
pub mod events;
pub mod get_message;
pub mod get_messages;
pub mod get_thread_messages;
pub mod get_user_messages;
pub mod service;
pub mod settings;
