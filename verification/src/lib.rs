//! A verified OATH protocol engine for hardware security tokens.
//!
//! The engine builds command APDUs, parses TLV-encoded responses, drives the
//! multi-frame continuation loop of credential enumeration, performs fuzzy
//! credential lookup, and extracts one-time codes from calculation responses.
//! The card transport itself is abstracted behind the [`transport::SmartCard`]
//! trait; everything above that line is transport-agnostic and verified.

pub mod apdu;
pub mod api;
pub mod matching;
pub mod oath;
pub mod tlv;
pub mod transport;
