use license_manager::hello::{greet, verify_signature};
use license_manager::hex::{
    hex_digit_value, orig_data_decodable, signature_hex_decodable, signature_to_array,
    signature_to_orig_data,
};
use license_manager::verify::{check_hex_signature, VerificationError};

const ATTACK_SIGNATURE: &str = "4f23d6692b340dbc92e163f5c271fe7d8f03e5836ec36eb474d8af6d2a22910de32a4284d6974302f6cfe9c716130cdc29dbeff8cb83171607516b700f28e30f";
const ATTACK_TEXT_HEX: &str = "41747461636b206174204461776e";

/// Public key of the ed25519 secret key whose 32 bytes are 0, 1, ..., 31.
const OWN_PUBLIC_KEY: [u8; 32] = [
    3, 161, 7, 191, 243, 206, 16, 190, 29, 112, 221, 24, 231, 75, 192, 153, 103, 228, 214, 48,
    155, 165, 13, 95, 29, 220, 134, 100, 18, 85, 49, 184,
];
/// That key's signature of "L110.0001-06-2022aaaaa-aa".
const OWN_SIGNATURE: &str = "635422c9d1930ea59f5aee991372cf1d84903be8aca3a9682209c8ad90368b706e4099183ba95813045535f75e2fc8b70d4967ea03034aba91af92c14f4f9403";

fn hex_of(bytes: &[u8]) -> String {
    let mut s = String::new();
    for b in bytes {
        s.push_str(&format!("{:02x}", b));
    }
    s
}

#[test]
fn hex_digit_values() {
    assert_eq!(hex_digit_value('0'), Some(0));
    assert_eq!(hex_digit_value('9'), Some(9));
    assert_eq!(hex_digit_value('a'), Some(10));
    assert_eq!(hex_digit_value('f'), Some(15));
    assert_eq!(hex_digit_value('A'), None);
    assert_eq!(hex_digit_value('g'), None);
}

#[test]
fn signature_to_array_too_short() {
    let r = signature_to_array("abcd".to_string());
    assert_eq!(r, Err("String is too short".to_string()));
}

#[test]
fn signature_to_array_invalid_characters() {
    let mut s = "0".repeat(126);
    s.push_str("zz");
    let r = signature_to_array(s);
    assert_eq!(r, Err("String contains invalid characters".to_string()));
    let upper = "AB".repeat(64);
    assert_eq!(
        signature_to_array(upper),
        Err("String contains invalid characters".to_string())
    );
}

#[test]
fn signature_to_array_decodes_digits() {
    let mut s = ATTACK_SIGNATURE.to_string();
    s.push_str(ATTACK_TEXT_HEX);
    let bytes = signature_to_array(s).unwrap();
    assert_eq!(bytes[0], 0x4f);
    assert_eq!(bytes[1], 0x23);
    assert_eq!(bytes[63], 0x0f);
    assert_eq!(hex_of(&bytes), ATTACK_SIGNATURE);
}

#[test]
fn signature_to_orig_data_decodes_text() {
    let mut s = ATTACK_SIGNATURE.to_string();
    s.push_str(ATTACK_TEXT_HEX);
    assert_eq!(signature_to_orig_data(s), "Attack at Dawn");
    assert_eq!(signature_to_orig_data(ATTACK_SIGNATURE.to_string()), "");
    assert_eq!(signature_to_orig_data("ab".to_string()), "");
}

#[test]
fn signature_to_orig_data_ignores_odd_last_digit() {
    let mut s = ATTACK_SIGNATURE.to_string();
    s.push_str("414");
    assert_eq!(signature_to_orig_data(s), "A");
}

#[test]
fn decodable_checks() {
    assert!(signature_hex_decodable("abc"));
    assert!(signature_hex_decodable(ATTACK_SIGNATURE));
    let mut bad = "0".repeat(126);
    bad.push('é');
    assert!(!signature_hex_decodable(&bad));
    let mut stops = "0".repeat(125);
    stops.push_str("zé");
    assert!(signature_hex_decodable(&stops));
    assert!(!orig_data_decodable(""));
    let mut s = ATTACK_SIGNATURE.to_string();
    s.push_str("zz");
    assert!(!orig_data_decodable(&s));
    s = ATTACK_SIGNATURE.to_string();
    s.push_str(ATTACK_TEXT_HEX);
    assert!(orig_data_decodable(&s));
}

#[test]
fn greet_accepts_the_attack_signature() {
    let mut s = ATTACK_SIGNATURE.to_string();
    s.push_str(ATTACK_TEXT_HEX);
    let answer = greet(s.clone());
    assert_eq!(
        answer,
        format!(
            "The verification result for \"{}\" containing \"Attack at Dawn\" is true",
            s
        )
    );
}

#[test]
fn greet_refuses_a_changed_signature() {
    let mut s = ATTACK_SIGNATURE.to_string();
    s.replace_range(0..2, "4e");
    s.push_str(ATTACK_TEXT_HEX);
    let answer = greet(s.clone());
    assert_eq!(
        answer,
        format!(
            "The verification result for \"{}\" containing \"Attack at Dawn\" is false",
            s
        )
    );
}

#[test]
fn greet_on_a_short_text() {
    let answer = greet("00".to_string());
    assert_eq!(
        answer,
        "The verification result for \"00\" containing \"\" is false"
    );
}

#[test]
fn hello_verify_signature_results() {
    assert_eq!(verify_signature(ATTACK_SIGNATURE.to_string()), Ok(true));
    let other = "00".repeat(64);
    assert_eq!(verify_signature(other), Ok(false));
    assert_eq!(
        verify_signature("0123".to_string()),
        Err(VerificationError::InvalidSignatureHex)
    );
}

#[test]
fn check_with_own_key_accepts_its_signature() {
    let message = b"L110.0001-06-2022aaaaa-aa";
    let r = check_hex_signature(&OWN_PUBLIC_KEY, OWN_SIGNATURE.to_string(), message);
    assert_eq!(r, Ok(true));
    let r = check_hex_signature(&OWN_PUBLIC_KEY, OWN_SIGNATURE.to_string(), b"L110.0001-06-2022aaaaa-ab");
    assert_eq!(r, Ok(false));
}

#[test]
fn check_refuses_a_key_off_the_curve() {
    let mut key = [0u8; 32];
    key[0] = 2;
    let r = check_hex_signature(&key, OWN_SIGNATURE.to_string(), b"x");
    assert_eq!(r, Err(VerificationError::InvalidPublicKey));
    let r = check_hex_signature(&OWN_PUBLIC_KEY[..31], OWN_SIGNATURE.to_string(), b"x");
    assert_eq!(r, Err(VerificationError::InvalidPublicKey));
}

#[test]
fn check_refuses_a_bad_signature_encoding() {
    let mut s = OWN_SIGNATURE[..126].to_string();
    s.push_str("ff");
    let r = check_hex_signature(&OWN_PUBLIC_KEY, s, b"L110.0001-06-2022aaaaa-aa");
    assert_eq!(r, Err(VerificationError::InvalidSignature));
}

#[test]
fn check_refuses_bad_hex() {
    let r = check_hex_signature(&OWN_PUBLIC_KEY, "12".to_string(), b"x");
    assert_eq!(r, Err(VerificationError::InvalidSignatureHex));
    let mut s = OWN_SIGNATURE[..126].to_string();
    s.push_str("gg");
    let r = check_hex_signature(&OWN_PUBLIC_KEY, s, b"x");
    assert_eq!(r, Err(VerificationError::InvalidSignatureHex));
}

#[test]
fn verdict_ignores_text_after_signature() {
    let mut s = ATTACK_SIGNATURE.to_string();
    s.push_str("anything at all");
    assert_eq!(verify_signature(s), Ok(true));
}
