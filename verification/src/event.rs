//! Creation events, and the decoder that turns a payload into one.

use vstd::prelude::*;
use crate::base64_text::{base64_decode, base64_decoded};
use crate::clock::current_timestamp;
use crate::error::{DecodeError, Field};
use crate::keys::{
    is_canonical, key_of, lemma_canonical_text_determines_key, KeyModel, PublicKey,
};
use crate::wire::{decode_record, decoded_record, CreateRecord, RecordModel};

verus! {

/// What a payload says of a launch: the six fields of a creation event that
/// come from the wire.
pub struct LaunchModel {
    pub name: Seq<char>,
    pub symbol: Seq<char>,
    pub uri: Seq<char>,
    pub mint: KeyModel,
    pub bonding_curve: KeyModel,
    pub user: KeyModel,
}

/// A token creation, as one payload reports it.
#[derive(Clone, Debug, PartialEq, Eq)]
pub struct CreateTokenInfo {
    pub name: String,
    pub symbol: String,
    pub uri: String,
    pub mint: PublicKey,
    pub bonding_curve: PublicKey,
    pub user: PublicKey,
    /// When the payload was decoded: UTC, `YYYY-MM-DD HH:MM:SS`.
    pub created_at: String,
}

/// The launch that a record describes. The keys are taken in order, and the
/// first that is not canonical gives the error.
pub open spec fn launch_of(record: RecordModel) -> Result<LaunchModel, DecodeError> {
    if !is_canonical(record.mint) {
        Err(DecodeError::NonCanonicalKey { field: Field::Mint })
    } else if !is_canonical(record.bonding_curve) {
        Err(DecodeError::NonCanonicalKey { field: Field::BondingCurve })
    } else if !is_canonical(record.user) {
        Err(DecodeError::NonCanonicalKey { field: Field::User })
    } else {
        Ok(
            LaunchModel {
                name: record.name,
                symbol: record.symbol,
                uri: record.uri,
                mint: key_of(record.mint),
                bonding_curve: key_of(record.bonding_curve),
                user: key_of(record.user),
            },
        )
    }
}

/// The record that a payload text holds.
pub open spec fn payload_record(data: Seq<char>) -> Result<RecordModel, DecodeError> {
    match base64_decoded(data) {
        None => Err(DecodeError::InvalidEncoding),
        Some(bytes) => decoded_record(bytes),
    }
}

/// The launch that a payload text describes.
pub open spec fn payload_launch(data: Seq<char>) -> Result<LaunchModel, DecodeError> {
    match payload_record(data) {
        Err(e) => Err(e),
        Ok(record) => launch_of(record),
    }
}

/// The six texts of an event tell its record: two records that are
/// accepted, and whose launches agree in name, symbol, uri and in the
/// base-58 text of each key, are the same record.
pub proof fn lemma_launch_texts_determine_record(a: RecordModel, b: RecordModel)
    ensures
        ({
            &&& launch_of(a) matches Ok(first)
            &&& launch_of(b) matches Ok(second)
            &&& first.name == second.name
            &&& first.symbol == second.symbol
            &&& first.uri == second.uri
            &&& first.mint.text == second.mint.text
            &&& first.bonding_curve.text == second.bonding_curve.text
            &&& first.user.text == second.user.text
        }) ==> a == b,
{
    lemma_canonical_text_determines_key(a.mint, b.mint);
    lemma_canonical_text_determines_key(a.bonding_curve, b.bonding_curve);
    lemma_canonical_text_determines_key(a.user, b.user);
}

impl CreateTokenInfo {
    /// The six fields that come from the wire.
    pub open spec fn launch(&self) -> LaunchModel {
        LaunchModel {
            name: self.name@,
            symbol: self.symbol@,
            uri: self.uri@,
            mint: self.mint@,
            bonding_curve: self.bonding_curve@,
            user: self.user@,
        }
    }

    /// Every key is canonical and carries its own base-58 text.
    pub open spec fn wf(&self) -> bool {
        &&& self.mint.wf()
        &&& self.bonding_curve.wf()
        &&& self.user.wf()
    }

    /// The event for `record`, stamped with `created_at`.
    ///
    /// Each key is rendered in base 58 and read back; a key that does not
    /// come back as the same 32 bytes rejects the whole record.
    pub fn new(record: CreateRecord, created_at: String) -> (r: Result<CreateTokenInfo, DecodeError>)
        ensures
            match launch_of(record@) {
                Ok(launch) => r matches Ok(info) && info.launch() == launch && info.created_at@
                    == created_at@ && info.wf(),
                Err(e) => r == Err::<CreateTokenInfo, DecodeError>(e),
            },
    {
        let mint = match PublicKey::from_bytes(record.mint) {
            Some(key) => key,
            None => {
                return Err(DecodeError::NonCanonicalKey { field: Field::Mint });
            },
        };
        let bonding_curve = match PublicKey::from_bytes(record.bonding_curve) {
            Some(key) => key,
            None => {
                return Err(DecodeError::NonCanonicalKey { field: Field::BondingCurve });
            },
        };
        let user = match PublicKey::from_bytes(record.user) {
            Some(key) => key,
            None => {
                return Err(DecodeError::NonCanonicalKey { field: Field::User });
            },
        };
        Ok(
            CreateTokenInfo {
                name: record.name,
                symbol: record.symbol,
                uri: record.uri,
                mint,
                bonding_curve,
                user,
                created_at,
            },
        )
    }
}

/// Decodes the record that a base64 payload holds.
pub fn decode_payload(data: &str) -> (r: Result<CreateRecord, DecodeError>)
    ensures
        match payload_record(data@) {
            Ok(record) => r matches Ok(got) && got@ == record,
            Err(e) => r == Err::<CreateRecord, DecodeError>(e),
        },
{
    match base64_decode(data) {
        Some(bytes) => decode_record(bytes.as_slice()),
        None => Err(DecodeError::InvalidEncoding),
    }
}

/// Decodes a base64 payload into a creation event, stamped with the time
/// of decoding.
///
/// The six fields of the event are those of `payload_launch`; the payload is
/// rejected with the error that `payload_launch` gives. No event is made of
/// a payload that is rejected.
pub fn parse_create_token_data(data: &str) -> (r: Result<CreateTokenInfo, DecodeError>)
    ensures
        match payload_launch(data@) {
            Ok(launch) => r matches Ok(info) && info.launch() == launch && info.wf(),
            Err(e) => r == Err::<CreateTokenInfo, DecodeError>(e),
        },
{
    let record = match decode_payload(data) {
        Ok(record) => record,
        Err(e) => {
            return Err(e);
        },
    };
    CreateTokenInfo::new(record, current_timestamp())
}

} // verus!
