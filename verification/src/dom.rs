//! DOM pieces the IndexedDB objects are built on: exceptions, string
//! lists and event listener lists.

pub mod event;
pub mod event_target;
pub mod exception;
pub mod name_order;
pub mod string_list;
