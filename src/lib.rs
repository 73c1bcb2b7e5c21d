//! A storage adapter that offers the object-store contract (put, get, head,
//! delete, list) on top of an opendal operator.
pub mod error;
pub mod meta;
pub mod listing;
pub mod delimiter;
pub mod store;
pub mod registry;
pub mod eraser;
pub mod result_format;
