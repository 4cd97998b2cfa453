//! Extraction of token creation events from the program logs of confirmed
//! transactions.
//!
//! The [`correlator`] scans the log lines of one transaction and captures
//! the payload that each top-level creation of the target program emitted.
//! The decoder in [`wire`] and [`event`] turns a payload into a
//! [`CreateTokenInfo`]. [`transaction`] puts the two together.
//! [`scan_laws`] and [`layout`] state what holds of every scan and of every
//! payload.

pub mod base64_text;
pub mod clock;
pub mod correlator;
pub mod error;
pub mod event;
pub mod keys;
pub mod layout;
pub mod scan_laws;
pub mod text;
pub mod transaction;
pub mod wire;

pub use crate::error::{DecodeError, Field, MissingMetadataError};
pub use crate::event::{parse_create_token_data, CreateTokenInfo};
pub use crate::transaction::{parse_instruction, TransactionMeta, TransactionPretty};
pub use crate::wire::read_u32;
