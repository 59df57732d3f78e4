//! IndexedDB bookkeeping for a JavaScript host: key order, key ranges,
//! cursors, schema snapshots, the request/transaction driver state and
//! host-side observability counters.

pub mod api;
pub mod cursor;
pub mod cursor_ops;
pub mod convert;
pub mod dom;
pub mod driver;
pub mod error;
pub mod io;
pub mod key;
pub mod key_range;
pub mod maps;
pub mod observer;
pub mod open_step;
pub mod proto;
pub mod schema;
pub mod text;
pub mod txn;
pub mod upgrade;
pub mod upgrade_index;
