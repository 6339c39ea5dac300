//! An ICMP echo probe: the packet codec, the run's bookkeeping and the text it
//! reports, with every function proved against its contract.
//!
//! The crate decides and computes; the program around it owns the socket, the
//! clock and the terminal, and feeds each attempt's outcome back in.

pub mod args;
pub mod checksum;
pub mod engine;
pub mod packet;
pub mod render;
pub mod request;
pub mod resolve;
pub mod stats;
pub mod text;
