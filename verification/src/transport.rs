//! The abstraction boundary to the underlying card transport.
//!
//! A [`SmartCard`] sends exactly one command to the token and returns exactly
//! one raw response. The engine makes no assumption about the bytes a card
//! hands back: every function that drives a transport states what holds of
//! its result whatever the card answered.

use vstd::prelude::*;

verus! {

/// A fault in discovering, connecting to, or talking to the token.
///
/// Any hardware, session, or transmission fault is fatal for the current
/// invocation; the engine never retries internally.
#[derive(Clone, Copy, Debug, PartialEq, Eq, Structural)]
pub enum Error {
    /// No eligible device was found.
    NoYubikey,
    /// More than one eligible device was found.
    MoreThanOneYubikey,
    /// Establishing the session failed.
    Connection,
    /// A round trip with the device failed.
    Transmission,
}

/// One command/response round trip with the token.
///
/// Implementations live outside the engine (a hardware-backed card, or an
/// in-memory fake for tests). Nothing is promised of the response bytes.
pub trait SmartCard {
    /// Send one command APDU and return the raw response APDU.
    fn send_and_receive(&self, apdu: &[u8]) -> Result<Vec<u8>, Error>;
}

} // verus!
