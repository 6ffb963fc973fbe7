//! The control plane of a search engine with many indexes.
//!
//! Three components own the state: the uuid resolver binds index names to
//! uuids, the index actor keeps the live indexes, and the update actor keeps
//! for each index the queue and the status log of its updates. The index
//! controller is the facade over the three. Each component answers one
//! request at a time; what it decides is stated in the contract of each
//! method and proved.

pub mod clock;
pub mod controller;
pub mod error;
pub mod identifier;
pub mod index_actor;
pub mod model;
pub mod payload;
pub mod routes;
pub mod update_actor;
pub mod update_store;
pub mod updates;
pub mod uuid_resolver;

pub use crate::controller::IndexController;
pub use crate::error::ErrorKind;
pub use crate::identifier::IndexUuid;
pub use crate::model::{IndexMetadata, IndexSettings, UpdateMeta, UpdateResult, UpdateStatus};
pub use crate::updates::{Enqueued, Failed, Processed, Processing};
