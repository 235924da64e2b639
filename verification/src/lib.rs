//! Shared infrastructure primitives for backend services: a lazily
//! initialized, exactly-once resource handle, a key-value command surface
//! with a distributed lock built on its conditional write, a push-to-pull
//! subscription bridge, a coded error taxonomy, and date-time utilities.

pub mod bridge;
pub mod codec;
pub mod datetime;
pub mod email;
pub mod error;
pub mod handle;
pub mod lock;
pub mod numfmt;
pub mod response;
pub mod store;
