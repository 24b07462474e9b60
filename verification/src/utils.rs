//! Storage of values under freshly generated UUID keys.

pub mod uuid_object_storage;

pub use uuid_object_storage::ObjectStorage;
