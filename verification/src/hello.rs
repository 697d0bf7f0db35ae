//! The greeting canister: it checks a hex signature of the fixed message
//! "Attack at Dawn" and reports what it found.

use vstd::prelude::*;
use vstd::string::*;
use crate::hex::{decoded_orig_data, orig_data_hex_valid, signature_to_orig_data};
use crate::text::{utf8_len, bool_text, spec_bool_text};
use crate::verify::{check_hex_signature, hex_signature_check, signature_hex_decodable, VerificationError};

verus! {

/// The public key whose signatures the greeting canister accepts.
pub open spec fn greeting_public_key() -> Seq<u8> {
    seq![
        251u8, 249, 141, 122, 83, 239, 198, 212, 199, 142, 166, 51, 103, 189, 116, 150, 63, 232,
        101, 116, 224, 60, 65, 10, 159, 22, 6, 18, 51, 172, 21, 247,
    ]
}

/// The message that the greeting canister expects to be signed.
pub open spec fn greeting_message() -> Seq<u8> {
    vstd::utf8::encode_utf8("Attack at Dawn"@)
}

fn greeting_key_bytes() -> (k: [u8; 32])
    ensures
        k@ == greeting_public_key(),
{
    let k: [u8; 32] = [
        251, 249, 141, 122, 83, 239, 198, 212, 199, 142, 166, 51, 103, 189, 116, 150, 63, 232,
        101, 116, 224, 60, 65, 10, 159, 22, 6, 18, 51, 172, 21, 247,
    ];
    assert(k@ =~= greeting_public_key());
    k
}

/// Checks `signature_str` (hex signature digits) on "Attack at Dawn" under the
/// greeting canister's key.
pub fn verify_signature(signature_str: String) -> (r: Result<bool, VerificationError>)
    requires
        signature_hex_decodable(signature_str@),
    ensures
        r == hex_signature_check(greeting_public_key(), signature_str@, greeting_message()),
{
    let key = greeting_key_bytes();
    let message: &str = "Attack at Dawn";
    check_hex_signature(key.as_slice(), signature_str, message.as_bytes())
}

/// What `greet` answers for the text `signature`.
pub open spec fn greeting(signature: Seq<char>) -> Seq<char> {
    let verified = match hex_signature_check(greeting_public_key(), signature, greeting_message()) {
        Ok(b) => b,
        Err(_) => false,
    };
    "The verification result for \""@ + signature + "\" containing \""@ + decoded_orig_data(
        signature,
        utf8_len(signature),
    ) + "\" is "@ + spec_bool_text(verified)
}

/// The inputs on which `greet` runs to its end: the signature digits can be
/// decoded, and every pair of the signed text is a hex pair.
pub open spec fn greet_accepts(signature: Seq<char>) -> bool {
    &&& signature_hex_decodable(signature)
    &&& utf8_len(signature) >= 1
    &&& orig_data_hex_valid(signature, utf8_len(signature))
}

/// Answers whether `signature` is a valid signature of "Attack at Dawn" and
/// which text follows the signature digits.
pub fn greet(signature: String) -> (r: String)
    requires
        greet_accepts(signature@),
    ensures
        r@ == greeting(signature@),
{
    let result = match verify_signature(signature.clone()) {
        Ok(ris) => ris,
        Err(_) => false,
    };
    let orig_data = signature_to_orig_data(signature.clone());
    let mut text = String::from_str("The verification result for \"");
    text.append(signature.as_str());
    text.append("\" containing \"");
    text.append(orig_data.as_str());
    text.append("\" is ");
    text.append(bool_text(result));
    text
}

} // verus!
