//! Key material: the 32-byte static keys of the Noise session, in the base64
//! text in which configurations carry them.

use base64::engine::general_purpose;
use base64::Engine;
use boringtun::x25519::PublicKey;
use boringtun::x25519::StaticSecret;
use rand::rngs::OsRng;
use rand::RngCore;
use vstd::prelude::*;
use vstd::string::*;

use crate::error::VtrunkdError;
use crate::error::VtrunkdResult;
use crate::text::decimal;
use crate::text::decimal_text;
use crate::text::lemma_trimmed_window;
use crate::text::trim;
use crate::text::trimmed;

verus! {

/// The error of `base64`'s decoder, carried through untouched.
#[verifier::external_type_specification]
#[verifier::external_body]
pub struct ExDecodeError(base64::DecodeError);

/// The text that `base64`'s standard engine encodes bytes to.
pub uninterp spec fn base64_text(bytes: Seq<u8>) -> Seq<char>;

/// The bytes that `base64`'s standard engine decodes a text to, `None` where
/// it refuses the text.
pub uninterp spec fn base64_bytes(text: Seq<char>) -> Option<Seq<u8>>;

/// The X25519 public key that belongs to a private key.
pub uninterp spec fn public_key_of(private: Seq<u8>) -> Seq<u8>;

/// The characters of standard base64 text: letters, digits, `+`, `/`, and `=`
/// for padding.
pub open spec fn is_base64_char(c: char) -> bool {
    ||| 'A' <= c <= 'Z'
    ||| 'a' <= c <= 'z'
    ||| '0' <= c <= '9'
    ||| c == '+'
    ||| c == '/'
    ||| c == '='
}

/// How the text of a key fails to give a key.
pub enum KeyFault {
    /// It is no base64 text.
    NotBase64,
    /// It decodes to this many bytes, not to 32.
    WrongLength(nat),
}

/// The key that a configured text stands for: what the text decodes to once
/// trimmed, if that is 32 bytes.
pub open spec fn decoded_key(value: Seq<char>) -> Result<Seq<u8>, KeyFault> {
    match base64_bytes(trimmed(value)) {
        None => Err(KeyFault::NotBase64),
        Some(bytes) => if bytes.len() == 32 {
            Ok(bytes)
        } else {
            Err(KeyFault::WrongLength(bytes.len()))
        },
    }
}

/// The text with which a key fault is reported for the key named `label`.
pub open spec fn key_fault_text(label: Seq<char>, fault: KeyFault) -> Seq<char> {
    match fault {
        KeyFault::NotBase64 => "Invalid base64 for "@ + label,
        KeyFault::WrongLength(n) => "Invalid "@ + label + " length (expected 32 bytes, got "@
            + decimal(n) + ")"@,
    }
}

/// `Engine::encode` of `base64`'s `STANDARD` engine. The result is the text
/// named `base64_text`; it is made of base64 characters only, and the same
/// engine decodes it to the bytes it was made from. The call panics where the
/// length of the text overflows, which needs more bytes than a slice can hold.
#[verifier::external_body]
pub(crate) fn base64_encode(bytes: &[u8]) -> (text: String)
    ensures
        text@ == base64_text(bytes@),
        base64_bytes(text@) == Some(bytes@),
        forall|i: int| 0 <= i < text@.len() ==> is_base64_char(#[trigger] text@[i]),
{
    general_purpose::STANDARD.encode(bytes)
}

/// `Engine::decode` of `base64`'s `STANDARD` engine. The result holds the
/// bytes named `base64_bytes`, or the decoder's error where there are none.
#[verifier::external_body]
fn base64_decode(text: &str) -> (decoded: Result<Vec<u8>, base64::DecodeError>)
    ensures
        match base64_bytes(text@) {
            Some(bytes) => decoded matches Ok(v) && v@ == bytes,
            None => decoded is Err,
        },
{
    general_purpose::STANDARD.decode(text)
}

/// `PublicKey::from(&StaticSecret)` of `x25519-dalek`, as `boringtun` hands it
/// on: the public key named `public_key_of`.
#[verifier::external_body]
fn x25519_public(private: &[u8; 32]) -> (public: [u8; 32])
    ensures
        public@ == public_key_of(private@),
{
    PublicKey::from(&StaticSecret::from(*private)).to_bytes()
}

/// `RngCore::fill_bytes` of `rand`'s `OsRng`: 32 bytes from the operating
/// system's generator. Nothing is claimed of the bytes.
#[verifier::external_body]
fn random_key() -> (key: [u8; 32]) {
    let mut key = [0u8; 32];
    OsRng.fill_bytes(&mut key);
    key
}

/// A key that was written as text reads back as the same key: where `text` is
/// what the encoder makes of the 32 bytes `key`, in base64 characters, and
/// the decoder makes `key` of `text`, the key of `text` is `key`.
pub proof fn lemma_key_round_trip(key: Seq<u8>, text: Seq<char>)
    requires
        key.len() == 32,
        text == base64_text(key),
        base64_bytes(text) == Some(key),
        forall|i: int| 0 <= i < text.len() ==> is_base64_char(#[trigger] text[i]),
    ensures
        decoded_key(base64_text(key)) == Ok::<Seq<u8>, KeyFault>(key),
{
    lemma_base64_text_is_trimmed(text);
}

/// Text made of base64 characters has no white space to trim.
pub proof fn lemma_base64_text_is_trimmed(text: Seq<char>)
    requires
        forall|i: int| 0 <= i < text.len() ==> is_base64_char(#[trigger] text[i]),
    ensures
        trimmed(text) == text,
{
    if text.len() > 0 {
        assert(is_base64_char(text[0]));
        assert(is_base64_char(text[text.len() - 1]));
    }
    lemma_trimmed_window(text, 0, text.len() as int);
    assert(text.subrange(0, text.len() as int) =~= text);
}

/// Turns what the decoder made of a key's text into the key, or into the
/// report of what is wrong with it: the decoder's refusal, or a length other
/// than 32 bytes.
pub fn key_from_decoded(label: &str, decoded: Result<Vec<u8>, base64::DecodeError>) -> (result:
    VtrunkdResult<[u8; 32]>)
    ensures
        match decoded {
            Ok(bytes) => if bytes@.len() == 32 {
                result matches Ok(key) && key@ == bytes@
            } else {
                result matches Err(VtrunkdError::InvalidConfig(text)) && text@ == key_fault_text(
                    label@,
                    KeyFault::WrongLength(bytes@.len()),
                )
            },
            Err(_) => result matches Err(VtrunkdError::InvalidConfig(text)) && text@
                == key_fault_text(label@, KeyFault::NotBase64),
        },
{
    let bytes = match decoded {
        Ok(bytes) => bytes,
        Err(_) => {
            let mut text = "Invalid base64 for ".to_owned();
            text.append(label);
            return Err(VtrunkdError::InvalidConfig(text));
        },
    };
    if bytes.len() != 32 {
        let mut text = "Invalid ".to_owned();
        text.append(label);
        text.append(" length (expected 32 bytes, got ");
        text.append(decimal_text(bytes.len() as u64).as_str());
        text.append(")");
        assert(text@ =~= key_fault_text(label@, KeyFault::WrongLength(bytes@.len())));
        return Err(VtrunkdError::InvalidConfig(text));
    }
    let mut key: [u8; 32] = [0u8; 32];
    let mut i: usize = 0;
    while i < 32
        invariant
            i <= 32,
            bytes@.len() == 32,
            forall|j: int| 0 <= j < i ==> key@[j] == bytes@[j],
        decreases 32 - i,
    {
        key[i] = bytes[i];
        i = i + 1;
    }
    assert(key@ =~= bytes@);
    Ok(key)
}

/// Reads a key from its configured text: trims it, decodes it, and insists on
/// 32 bytes. `label` names the key in the report of a fault.
pub fn decode_key(label: &str, value: &str) -> (result: VtrunkdResult<[u8; 32]>)
    ensures
        match decoded_key(value@) {
            Ok(bytes) => result matches Ok(key) && key@ == bytes,
            Err(fault) => result matches Err(VtrunkdError::InvalidConfig(text)) && text@
                == key_fault_text(label@, fault),
        },
{
    key_from_decoded(label, base64_decode(trim(value)))
}

/// Writes a key as the text that configurations carry. `decode_key` gives the
/// key back from that text.
pub fn encode_key(key: &[u8; 32]) -> (text: String)
    ensures
        text@ == base64_text(key@),
        decoded_key(text@) == Ok::<Seq<u8>, KeyFault>(key@),
{
    let text = base64_encode(key.as_slice());
    proof {
        lemma_key_round_trip(key@, text@);
    }
    text
}

/// The pair of texts of a private key and of the public key that belongs to it.
pub fn keypair_from(private: &[u8; 32]) -> (pair: (String, String))
    ensures
        pair.0@ == base64_text(private@),
        pair.1@ == base64_text(public_key_of(private@)),
        decoded_key(pair.0@) == Ok::<Seq<u8>, KeyFault>(private@),
        decoded_key(pair.1@) == Ok::<Seq<u8>, KeyFault>(public_key_of(private@)),
{
    let public = x25519_public(private);
    (encode_key(private), encode_key(&public))
}

/// Makes a new private key and gives the texts of it and of its public key.
pub fn generate_keypair() -> (pair: (String, String))
    ensures
        exists|private: Seq<u8>|
            {
                &&& private.len() == 32
                &&& pair.0@ == #[trigger] base64_text(private)
                &&& pair.1@ == base64_text(public_key_of(private))
                &&& decoded_key(pair.0@) == Ok::<Seq<u8>, KeyFault>(private)
            },
{
    let private = random_key();
    let pair = keypair_from(&private);
    assert(private@.len() == 32);
    pair
}

} // verus!
