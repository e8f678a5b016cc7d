//! A bounded multi-producer, single-consumer channel built on a fixed ring
//! of reusable slots. Producers and consumers operate on claims to
//! in-place slots, so heap allocations embedded in the element type can be
//! recycled across messages. The ring coordinates the two sides with
//! per-slot generation tags instead of locks; parked callers wait on small
//! waiter queues and are handed wake tokens when the state changes.

pub mod errors;
pub mod ring;
pub mod track;
pub mod wait;
pub mod mpsc;
pub mod static_thingbuf;
