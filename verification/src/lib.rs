//! A bounded channel from one producer to one consumer over a ring of
//! slots, together with the synthetic workloads used to exercise it.
//!
//! * [`spinlock_spsc`] holds the two endpoints and [`spinlock_spsc::bounded`],
//!   which creates a pair of them.
//! * [`cursor`] holds what an endpoint decides on its own: whether it may go
//!   ahead, and where to.
//! * [`index`] holds the arithmetic of positions on a ring whose size is a
//!   power of two.
//! * [`shared`] holds the memory the endpoints share and the accesses they
//!   make to it.
//! * [`model`] describes the channel as a whole, which no single endpoint
//!   sees, and [`laws`] proves of it what the channel guarantees: order,
//!   the capacity bound, and that nothing is lost or made up when an
//!   endpoint goes away.
//! * [`workload`] holds [`produce_value`] and [`consume_value`].

pub mod cursor;
pub mod index;
pub mod laws;
pub mod model;
pub mod shared;
pub mod spinlock_spsc;
pub mod workload;

pub use workload::consume_value;
pub use workload::produce_value;
