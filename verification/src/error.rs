//! Why a payload could not be turned into a creation event.

use vstd::prelude::*;
use vstd::string::StringExecFns;

verus! {

/// The part of a creation record that an error speaks of.
#[derive(Clone, Copy, Debug, PartialEq, Eq, Structural)]
pub enum Field {
    Name,
    Symbol,
    Uri,
    /// The block of three 32-byte keys that ends a record.
    Keys,
    Mint,
    BondingCurve,
    User,
}

/// A payload that is no creation record.
#[derive(Clone, Copy, Debug, PartialEq, Eq, Structural)]
pub enum DecodeError {
    /// The payload text is not base64.
    InvalidEncoding,
    /// The buffer ends before the length or the content of `field` does.
    Truncated { field: Field },
    /// The bytes of `field` are not UTF-8.
    InvalidText { field: Field },
    /// The base-58 text of the key `field` does not read back as that key.
    NonCanonicalKey { field: Field },
}

/// A transaction that came without the metadata of its execution.
#[derive(Clone, Copy, Debug, PartialEq, Eq, Structural)]
pub struct MissingMetadataError;

impl Field {
    /// The name of the field, as messages give it.
    pub fn label(&self) -> (name: &'static str)
        ensures
            name@ == self.label_text(),
    {
        match self {
            Field::Name => "name",
            Field::Symbol => "symbol",
            Field::Uri => "uri",
            Field::Keys => "keys",
            Field::Mint => "mint",
            Field::BondingCurve => "bonding_curve",
            Field::User => "user",
        }
    }

    pub open spec fn label_text(&self) -> Seq<char> {
        match self {
            Field::Name => "name"@,
            Field::Symbol => "symbol"@,
            Field::Uri => "uri"@,
            Field::Keys => "keys"@,
            Field::Mint => "mint"@,
            Field::BondingCurve => "bonding_curve"@,
            Field::User => "user"@,
        }
    }
}

impl DecodeError {
    /// The error in words.
    pub open spec fn message(&self) -> Seq<char> {
        match self {
            DecodeError::InvalidEncoding => "Failed to decode base64"@,
            DecodeError::Truncated { field } => "Data too short for "@ + field.label_text(),
            DecodeError::InvalidText { field } => "Invalid UTF-8 in "@ + field.label_text(),
            DecodeError::NonCanonicalKey { field } => "Key does not read back from base58: "@
                + field.label_text(),
        }
    }

    /// The error in words.
    pub fn describe(&self) -> (text: String)
        ensures
            text@ == self.message(),
    {
        match self {
            DecodeError::InvalidEncoding => "Failed to decode base64".to_owned(),
            DecodeError::Truncated { field } => {
                let mut text = "Data too short for ".to_owned();
                text.append(field.label());
                text
            },
            DecodeError::InvalidText { field } => {
                let mut text = "Invalid UTF-8 in ".to_owned();
                text.append(field.label());
                text
            },
            DecodeError::NonCanonicalKey { field } => {
                let mut text = "Key does not read back from base58: ".to_owned();
                text.append(field.label());
                text
            },
        }
    }
}

} // verus!
