//! A fixed-capacity circular buffer: items are read back in the order they
//! were written, and a full buffer either refuses a write or drops its
//! oldest item to make room.

pub mod laws;
pub mod model;
pub mod ringbuf;

pub use ringbuf::RingBuf;
