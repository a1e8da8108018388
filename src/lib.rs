//! Client-side session state for a publish/subscribe table protocol: one live
//! connection, reference-counted topic interest, a pending-write cache that is
//! flushed on connect, and a per-connection registry of publishers.
//!
//! Every decision is made by verified code over plain state. The asynchronous
//! protocol calls, the task that listens for messages and the presentation layer
//! are driven from outside: they perform the actions handed back here.
pub mod error;
pub mod publishers;
pub mod router;
pub mod session;
pub mod subscriptions;
pub mod topic_table;
pub mod value;
pub mod write_cache;

pub use error::SessionError;
pub use publishers::PublishersState;
pub use router::{router_step, RouterAction, RouterEvent, RouterState};
pub use session::{
    flush_cache, note_replay, publish_value, start_client, write_echo, ConnectPlan,
    ConnectionState, MessageEcho, PublishStep,
};
pub use subscriptions::{subscribe, unsubscribe, SubscriptionsState};
pub use value::{value_to_type, Value, WireType};
pub use write_cache::WritingCacheState;
