//! The topic side of the domain: topic creation and reads, and the
//! subscription lifecycle.

pub mod create_topic;
pub mod create_topic_user;
pub mod delete_topic_user;
pub mod get_topic;
pub mod get_topics;
pub mod get_topics_users;
pub mod get_user_topics;
pub mod service;
pub mod settings;
pub mod update_topic_user;
