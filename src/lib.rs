//! Core of an earbud-monitoring service: a fixed-capacity overwrite-oldest
//! ring buffer for recent samples, the mapping from device events to the
//! signals, property notifications and playback commands that publish them,
//! the consumer-side decisions of the event bus, and the playback policy on
//! ear removal and insertion.

pub mod bus;
pub mod events;
pub mod media;
pub mod ringbuf;
