//! An in-memory mirror cache of typed cluster resources.
//!
//! The cache keeps a keyed replica of remote resource state, fed by a stream
//! of discrete watch events (upsert, delete, full resync) through a single
//! exclusively-owned [`store::Writer`], and read by any number of cheaply
//! cloneable [`store::Store`] handles. Readers can wait on a one-shot
//! readiness signal that fires after the first event is applied.

pub mod cache;
pub mod event;
pub mod laws;
pub mod resource;
pub mod store;

pub use cache::CacheMap;
pub use event::Event;
pub use resource::{Object, ObjectRef, TypeDescriptor};
pub use store::{store, Store, Writer, WriterDropped};
