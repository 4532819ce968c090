//! Storage-throughput benchmark core for a removable card on a serial bus.
//!
//! The crate holds the decision logic of the harness: the card bring-up
//! state machine, the block-staging adapter that turns a byte stream into
//! block-aligned transfers, the wire model shared by the two transport
//! backends, and the benchmark accounting. The hardware shell (bus
//! peripheral, DMA buffers, scheduler) drives these functions from outside.

pub mod background;
pub mod benchmark;
pub mod block_adapter;
pub mod bringup;
pub mod clock;
pub mod transport;
