//! A live network-traffic monitor's core: a frame classifier, a port-to-process
//! attribution cache, flow aggregation with a fixed-size throughput history, and
//! a spike inspector that maps a history bucket back to the packets behind it.

pub mod capture;
pub mod filter;
pub mod flows;
pub mod frame;
pub mod hexdump;
pub mod history;
pub mod inspector;
pub mod monitor;
pub mod pipeline;
pub mod process;
pub mod text;
