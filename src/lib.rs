//! Developer profiles, social groups gathered around one topic, and messages
//! sent to those groups, kept in three tables keyed by counter-issued
//! identifiers.
pub mod backend;
pub mod laws;
pub mod records;
pub mod store;

pub use backend::Backend;
pub use records::{BackendError, DeveloperProfile, EntityKind, Message, SocialGroup};
pub use store::RecordStore;
