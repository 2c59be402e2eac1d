//! Link-layer tunnel core: the wire codec, the capture filter state, the
//! host-side address table and the relay decisions that bridge Ethernet
//! frames over UDP.

pub mod checksum;
pub mod config;
pub mod filter;
pub mod frame;
pub mod lan;
pub mod pipeline;
pub mod poll;
pub mod relay;
pub mod table;
pub mod tunnel;
