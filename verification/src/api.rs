//! Plain data behind the IndexedDB API objects, and the checks their
//! methods make before a request is queued.

pub mod cursor;
pub mod database;
pub mod factory;
pub mod object_store;
pub mod request;
pub mod support;
pub mod transaction;
pub mod version_change_event;
