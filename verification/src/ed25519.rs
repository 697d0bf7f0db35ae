//! The ed25519 checks that the library makes with `ed25519_dalek`.
//!
//! `ed25519_dalek` does the curve arithmetic; this module holds the trusted
//! items through which the verified code calls it, and names what those
//! calls return.

use vstd::prelude::*;
use ed25519_dalek::{PublicKey, Signature, SignatureError, Verifier};
use std::convert::TryFrom;

verus! {

#[verifier::external_type_specification]
#[verifier::external_body]
pub struct ExPublicKey(ed25519_dalek::PublicKey);

#[verifier::external_type_specification]
#[verifier::external_body]
pub struct ExSignature(ed25519_dalek::Signature);

#[verifier::external_type_specification]
#[verifier::external_body]
pub struct ExSignatureError(ed25519_dalek::SignatureError);

/// Whether the 32 bytes are the compressed encoding of a point of the
/// ed25519 curve (the decompression that `PublicKey::from_bytes` attempts).
pub uninterp spec fn ed25519_point_decompresses(encoding: Seq<u8>) -> bool;

/// Whether `PublicKey::verify` of `ed25519_dalek` accepts `signature` on
/// `message` under the public key encoded by `public_key`.
pub uninterp spec fn ed25519_accepts(public_key: Seq<u8>, message: Seq<u8>, signature: Seq<u8>) -> bool;

/// The bytes that `Signature::try_from` accepts: exactly 64 of them, the top
/// three bits of the last one clear.
pub open spec fn signature_encoding_accepted(bytes: Seq<u8>) -> bool {
    bytes.len() == 64 && bytes[63] & 0xe0u8 == 0
}

/// An ed25519 public key, together with the bytes it was decoded from.
pub struct VerifyingKey {
    key: PublicKey,
    encoding: Ghost<Seq<u8>>,
}

impl VerifyingKey {
    /// The 32 bytes this key was decoded from.
    pub closed spec fn encoding(&self) -> Seq<u8> {
        self.encoding@
    }
}

/// An ed25519 signature, together with the bytes it was read from.
pub struct SignatureValue {
    signature: Signature,
    encoding: Ghost<Seq<u8>>,
}

impl SignatureValue {
    /// The 64 bytes this signature was read from.
    pub closed spec fn encoding(&self) -> Seq<u8> {
        self.encoding@
    }
}

/// `PublicKey::from_bytes` of `ed25519_dalek`: its source accepts exactly 32
/// bytes that decompress to a curve point, and refuses anything else with an
/// error. The key that comes back remembers the bytes it was made from.
#[verifier::external_body]
pub(crate) fn public_key_from_bytes(bytes: &[u8]) -> (r: Result<VerifyingKey, SignatureError>)
    ensures
        r is Ok <==> (bytes@.len() == 32 && ed25519_point_decompresses(bytes@)),
        r matches Ok(k) ==> k.encoding() == bytes@,
{
    match PublicKey::from_bytes(bytes) {
        Ok(key) => Ok(VerifyingKey { key, encoding: Ghost(bytes@) }),
        Err(e) => Err(e),
    }
}

/// `Signature::try_from(&[u8])` of `ed25519` (re-exported by `ed25519_dalek`):
/// its source accepts exactly 64 bytes whose last byte has its top three bits
/// clear, and refuses anything else with an error.
#[verifier::external_body]
pub(crate) fn signature_from_bytes(bytes: &[u8]) -> (r: Result<SignatureValue, SignatureError>)
    ensures
        r is Ok <==> signature_encoding_accepted(bytes@),
        r matches Ok(s) ==> s.encoding() == bytes@,
{
    match Signature::try_from(bytes) {
        Ok(signature) => Ok(SignatureValue { signature, encoding: Ghost(bytes@) }),
        Err(e) => Err(e),
    }
}

/// `PublicKey::verify` of `ed25519_dalek`, reduced to whether it returned
/// `Ok`: the answer is named by the key's bytes, the message and the
/// signature's bytes, and nothing more is claimed of it.
#[verifier::external_body]
pub(crate) fn public_key_verify(key: &VerifyingKey, message: &[u8], signature: &SignatureValue) -> (r: bool)
    ensures
        r == ed25519_accepts(key.encoding(), message@, signature.encoding()),
{
    key.key.verify(message, &signature.signature).is_ok()
}

} // verus!
