//! A protocol bridge between a contactless FIDO/U2F token and a host-facing
//! virtual HID authenticator interface.
//!
//! The verified core covers the CTAPHID frame codec (fragmentation of a
//! logical message into fixed 64-byte reports and reassembly of the inverse
//! stream), APDU status-word parsing, and the bridge's dispatch and
//! failure-classification rules. Device I/O lives outside the library.

pub mod apdu;
pub mod bridge;
pub mod codec;
pub mod reassembly;
pub mod util;
