//! Public keys: 32 bytes together with their base-58 text.

use solana_sdk::pubkey::{ParsePubkeyError, Pubkey};
use std::str::FromStr;
use vstd::prelude::*;

verus! {

/// The base-58 text that `bs58` gives for a byte sequence.
pub uninterp spec fn base58_text(bytes: Seq<u8>) -> Seq<char>;

/// The key bytes that `Pubkey` reads from a text, if it accepts the text.
pub uninterp spec fn pubkey_parsed(text: Seq<char>) -> Option<Seq<u8>>;

/// The error with which `Pubkey` refuses a text.
#[verifier::external_type_specification]
#[verifier::external_body]
pub struct ExParsePubkeyError(ParsePubkeyError);

/// `bs58::encode(..).into_string()` with the default alphabet: the text is a
/// function of the bytes alone, named `base58_text`.
#[verifier::external_body]
fn base58_encode(bytes: &[u8; 32]) -> (text: String)
    ensures
        text@ == base58_text(bytes@),
{
    bs58::encode(bytes).into_string()
}

/// `Pubkey::from_str`: whether a text is accepted, and the 32 bytes of the
/// key it then gives, are a function of the text alone, named
/// `pubkey_parsed`.
#[verifier::external_body]
fn pubkey_from_str(text: &str) -> (parsed: Result<[u8; 32], ParsePubkeyError>)
    ensures
        match parsed {
            Ok(bytes) => pubkey_parsed(text@) == Some(bytes@),
            Err(_) => pubkey_parsed(text@) is None,
        },
{
    match Pubkey::from_str(text) {
        Ok(key) => Ok(key.to_bytes()),
        Err(e) => Err(e),
    }
}

/// A key's bytes are canonical when their base-58 text reads back as the
/// same bytes.
pub open spec fn is_canonical(bytes: Seq<u8>) -> bool {
    pubkey_parsed(base58_text(bytes)) == Some(bytes)
}

/// Canonical keys are told apart by their text: two of them with the same
/// base-58 text are the same key.
pub proof fn lemma_canonical_text_determines_key(a: Seq<u8>, b: Seq<u8>)
    ensures
        is_canonical(a) && is_canonical(b) && base58_text(a) == base58_text(b) ==> a == b,
{
}

/// What a public key holds.
pub struct KeyModel {
    pub bytes: Seq<u8>,
    pub text: Seq<char>,
}

/// The key with the given bytes.
pub open spec fn key_of(bytes: Seq<u8>) -> KeyModel {
    KeyModel { bytes, text: base58_text(bytes) }
}

/// A 32-byte public identifier and the base-58 text that stands for it.
#[derive(Clone, Debug, PartialEq, Eq)]
pub struct PublicKey {
    pub bytes: [u8; 32],
    pub text: String,
}

impl View for PublicKey {
    type V = KeyModel;

    open spec fn view(&self) -> KeyModel {
        KeyModel { bytes: self.bytes@, text: self.text@ }
    }
}

/// Whether two keys hold the same bytes.
pub fn same_bytes(a: &[u8; 32], b: &[u8; 32]) -> (same: bool)
    ensures
        same == (a@ == b@),
{
    let mut i: usize = 0;
    while i < 32
        invariant
            i <= 32,
            forall|j: int| 0 <= j < i ==> a@[j] == b@[j],
        decreases 32 - i,
    {
        if a[i] != b[i] {
            return false;
        }
        i += 1;
    }
    assert(a@ =~= b@);
    true
}

/// `reparsed` holds the bytes of `bytes`.
pub open spec fn reads_back(reparsed: Option<[u8; 32]>, bytes: [u8; 32]) -> bool {
    reparsed matches Some(back) && back@ == bytes@
}

impl PublicKey {
    /// The text is the base-58 form of the bytes, and reads back as them.
    pub open spec fn wf(&self) -> bool {
        &&& self.text@ == base58_text(self.bytes@)
        &&& is_canonical(self.bytes@)
    }

    /// Pairs `bytes` with `text` if `reparsed`, what the text was read back
    /// as, is these bytes again.
    pub fn confirm(bytes: [u8; 32], text: String, reparsed: Option<[u8; 32]>) -> (key: Option<
        PublicKey,
    >)
        ensures
            match key {
                Some(k) => reads_back(reparsed, bytes) && k.bytes@ == bytes@ && k.text@ == text@,
                None => !reads_back(reparsed, bytes),
            },
    {
        match reparsed {
            Some(back) => {
                if same_bytes(&back, &bytes) {
                    Some(PublicKey { bytes, text })
                } else {
                    None
                }
            },
            None => None,
        }
    }

    /// The key with the given bytes, if they are canonical.
    pub fn from_bytes(bytes: [u8; 32]) -> (key: Option<PublicKey>)
        ensures
            match key {
                Some(k) => is_canonical(bytes@) && k@ == key_of(bytes@) && k.wf(),
                None => !is_canonical(bytes@),
            },
    {
        let text = base58_encode(&bytes);
        let reparsed = match pubkey_from_str(text.as_str()) {
            Ok(back) => Some(back),
            Err(_) => None,
        };
        PublicKey::confirm(bytes, text, reparsed)
    }

    /// The base-58 text of the key.
    pub fn to_base58(&self) -> (text: String)
        ensures
            text@ == self.text@,
    {
        self.text.clone()
    }
}

} // verus!
