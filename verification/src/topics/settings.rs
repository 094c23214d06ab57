//! Settings of the topic service: where its events go.

use vstd::prelude::*;

verus! {

/// Settings of the topic service.
pub struct TopicsSettings {
    pub events: EventsSettings,
}

/// Where each event family of the topic service is published.
pub struct EventsSettings {
    pub topic_user: TopicUserSettings,
}

/// The bus subject of the subscription events.
pub struct TopicUserSettings {
    pub subject: String,
}

} // verus!
