//! Frame codec and transaction protocol for commanding a peripheral device
//! (such as an optical scan engine) over a raw duplex byte stream.
//!
//! A wire frame is `[length][payload...][checksum_hi][checksum_lo]`, where
//! `length` counts the payload bytes plus the length byte itself, and the
//! 16-bit big-endian checksum is the two's-complement negation of the
//! wrapping sum of all preceding frame bytes.

pub mod checksum;
pub mod command;
pub mod frame;
pub mod hex;
pub mod packet;
