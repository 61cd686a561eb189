//! Packet capture bookkeeping: classifying raw frames, rendering sizes and
//! addresses as text, filtering and persisting the captured packets.

pub mod address;
pub mod count;
pub mod emit;
pub mod filter;
pub mod interface;
pub mod number;
pub mod packet;
pub mod parser;
pub mod saver;
pub mod sniffer;
pub mod text;
