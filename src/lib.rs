//! Host-load sampling and fan-out: samples of CPU and memory use, a hub that
//! hands each published sample to every live subscriber through a one-slot
//! mailbox, and the decision logic of the sampler and of each connection.

pub mod connection;
pub mod hub;
pub mod sample;
pub mod sampler;
