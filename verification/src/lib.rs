//! Codec for the `fq_codel` queueing-discipline parameter block.
//!
//! The block is carried inside a netlink attribute as a run of fixed-size
//! sub-attributes: eight bytes each, holding a two-byte record length, a
//! two-byte kind number and a four-byte little-endian value. Decoding turns
//! such a run into an [`FqCodel`] parameter set that records the wire order
//! of the sub-attributes; encoding replays that order, so that a decoded
//! buffer re-encodes byte for byte.

use vstd::prelude::*;

pub mod bytes;
pub mod codec;
pub mod error;
pub mod kinds;
pub mod laws;
pub mod params;

pub use codec::unmarshal_fq_codel;
pub use error::DecodeError;
pub use kinds::TcaFqCodel;
pub use params::FqCodel;

verus! {

/// The qdisc kind string under which this codec is registered.
pub const FQ_CODEL: &'static str = "fq_codel";

/// The declared payload length of an encoded parameter block, in bytes.
pub const FQ_CODEL_LEN: usize = 64;

/// The number of bytes in a sub-attribute header: a two-byte record length
/// followed by a two-byte kind number.
pub const NLA_HEADER_LEN: usize = 4;

/// The number of bytes in a sub-attribute payload: one 32-bit value.
pub const ATTR_LEN: usize = 4;

/// The attribute type number under which the parameter block is carried in
/// its parent message.
pub const TCA_FQ_CODEL: u16 = 2;

} // verus!
