//! The hex text that carries a signed purchase: 128 lower-case hex digits of an
//! ed25519 signature, followed by the hex digits of the signed text itself.

use vstd::prelude::*;
use vstd::string::*;
use crate::text::{push_char, utf8_len, byte_len};

verus! {

/// Whether `c` is one of the sixteen lower-case hexadecimal digits.
pub open spec fn is_hex_digit(c: char) -> bool {
    ('0' <= c && c <= '9') || ('a' <= c && c <= 'f')
}

/// The value of a lower-case hexadecimal digit.
pub open spec fn hex_value(c: char) -> int {
    if '0' <= c && c <= '9' {
        c as int - '0' as int
    } else {
        c as int - 'a' as int + 10
    }
}

/// The byte that the two hex digits `hi`, `lo` stand for.
pub open spec fn hex_byte(hi: char, lo: char) -> u8 {
    (hex_value(hi) * 16 + hex_value(lo)) as u8
}

/// The characters `2 * j` and `2 * j + 1` of `s` exist and are hex digits.
pub open spec fn hex_pair_valid(s: Seq<char>, j: int) -> bool {
    &&& 2 * j + 1 < s.len()
    &&& is_hex_digit(s[2 * j])
    &&& is_hex_digit(s[2 * j + 1])
}

/// The first 128 characters of `s` are hex digits.
pub open spec fn signature_hex_valid(s: Seq<char>) -> bool {
    forall|j: int| 0 <= j < 64 ==> hex_pair_valid(s, j)
}

/// The pairs `0 .. j` of `s` are all present and made of hex digits.
pub open spec fn hex_pairs_valid_below(s: Seq<char>, j: int) -> bool {
    forall|k: int| 0 <= k < j ==> hex_pair_valid(s, k)
}

/// The decoder would read a pair of characters of which one is missing before
/// it has met a character that is not a hex digit; decoding cannot run there.
pub open spec fn signature_hex_truncated(s: Seq<char>) -> bool {
    exists|j: int|
        0 <= j < 64 && 2 * j + 1 >= s.len() && #[trigger] hex_pairs_valid_below(s, j)
}

/// The 64 signature bytes that the first 128 characters of `s` encode.
pub open spec fn decoded_signature(s: Seq<char>) -> Seq<u8> {
    Seq::new(64, |j: int| hex_byte(s[2 * j], s[2 * j + 1]))
}

/// How many characters of signed text follow the signature in a string of
/// `n` bytes: the pairs that start at 128, 130, ... below `n - 1`.
pub open spec fn orig_data_len(n: usize) -> nat {
    if n >= 128 {
        ((n - 128) / 2) as nat
    } else {
        0
    }
}

/// Every pair of characters that the signed-text decoder reads, in a string
/// of `n` bytes, is present and made of hex digits.
pub open spec fn orig_data_hex_valid(s: Seq<char>, n: usize) -> bool {
    forall|j: int| 64 <= j < 64 + orig_data_len(n) ==> #[trigger] hex_pair_valid(s, j)
}

/// The signed text that follows the signature: each pair of hex digits from
/// position 128 on is one byte, read as the character of that code point.
pub open spec fn decoded_orig_data(s: Seq<char>, n: usize) -> Seq<char> {
    Seq::new(orig_data_len(n), |k: int| hex_byte(s[128 + 2 * k], s[129 + 2 * k]) as char)
}

/// The value of `c` if it is a lower-case hex digit.
pub fn hex_digit_value(c: char) -> (r: Option<u8>)
    ensures
        r is Some <==> is_hex_digit(c),
        r matches Some(v) ==> v == hex_value(c) && v < 16,
{
    if '0' <= c && c <= '9' {
        Some(((c as u32) - ('0' as u32)) as u8)
    } else if 'a' <= c && c <= 'f' {
        Some(((c as u32) - ('a' as u32) + 10) as u8)
    } else {
        None
    }
}

/// Decodes the 64 signature bytes from the first 128 characters of `hex`.
///
/// A string of fewer than 128 bytes is "too short"; a non-hex character among
/// the first 128 is refused as "invalid characters".
pub fn signature_to_array(hex: String) -> (r: Result<[u8; 64], String>)
    requires
        utf8_len(hex@) >= 128 ==> !signature_hex_truncated(hex@),
    ensures
        utf8_len(hex@) < 128 ==> (r matches Err(e) && e@ == "String is too short"@),
        utf8_len(hex@) >= 128 && signature_hex_valid(hex@) ==> (r matches Ok(a) && a@
            == decoded_signature(hex@)),
        utf8_len(hex@) >= 128 && !signature_hex_valid(hex@) ==> (r matches Err(e) && e@
            == "String contains invalid characters"@),
{
    let mut result: [u8; 64] = [0; 64];
    if byte_len(&hex) < 128 {
        return Err(String::from_str("String is too short"));
    }
    let s: &str = hex.as_str();
    let n_chars = s.unicode_len();
    let mut i: usize = 0;
    while i < 128
        invariant
            s@ == hex@,
            utf8_len(hex@) >= 128,
            n_chars == s@.len(),
            i % 2 == 0,
            i <= 128,
            !signature_hex_truncated(hex@),
            forall|k: int| 0 <= k < i / 2 ==> hex_pair_valid(hex@, k),
            forall|k: int|
                0 <= k < i / 2 ==> result@[k] == hex_byte(hex@[2 * k], hex@[2 * k + 1]),
        decreases 128 - i,
    {
        let ghost j: int = i as int / 2;
        assert(2 * j + 1 < hex@.len()) by {
            if 2 * j + 1 >= hex@.len() {
                assert(hex_pairs_valid_below(hex@, j));
                assert(signature_hex_truncated(hex@));
            }
        }
        let c1 = s.get_char(i);
        let c2 = s.get_char(i + 1);
        let opt1 = hex_digit_value(c1);
        let opt2 = hex_digit_value(c2);
        match (opt1, opt2) {
            (Some(el1), Some(el2)) => {
                result[i / 2] = el1 * 16 + el2;
            },
            _ => {
                assert(!hex_pair_valid(hex@, j));
                return Err(String::from_str("String contains invalid characters"));
            },
        }
        i = i + 2;
    }
    assert(result@ =~= decoded_signature(hex@));
    Ok(result)
}

/// Decodes the signed text that follows the 128 signature digits: each pair of
/// hex digits is one byte, pushed as the character of that code point.
pub fn signature_to_orig_data(hex: String) -> (r: String)
    requires
        utf8_len(hex@) >= 1,
        orig_data_hex_valid(hex@, utf8_len(hex@)),
    ensures
        r@ == decoded_orig_data(hex@, utf8_len(hex@)),
{
    let n = byte_len(&hex);
    let s: &str = hex.as_str();
    let mut result = String::new();
    let mut i: usize = 128;
    while i < n - 1
        invariant
            s@ == hex@,
            n == utf8_len(hex@),
            n >= 1,
            i % 2 == 0,
            128 <= i,
            n >= 128 ==> i <= n,
            n < 128 ==> i == 128,
            orig_data_hex_valid(hex@, utf8_len(hex@)),
            result@.len() == (i - 128) / 2,
            (i - 128) / 2 <= orig_data_len(n),
            forall|k: int|
                0 <= k < (i - 128) / 2 ==> #[trigger] result@[k] == hex_byte(hex@[128 + 2 * k], hex@[129 + 2 * k])
                    as char,
        decreases n + 1 - i,
    {
        let ghost k: int = (i as int - 128) / 2;
        assert(0 <= k < orig_data_len(n));
        assert(hex_pair_valid(hex@, 64 + k));
        assert(2 * (64 + k) == i);
        let c1 = s.get_char(i);
        let c2 = s.get_char(i + 1);
        let el1 = hex_digit_value(c1).unwrap();
        let el2 = hex_digit_value(c2).unwrap();
        let character: u8 = el1 * 16 + el2;
        push_char(&mut result, character as char);
        i = i + 2;
    }
    assert(result@ =~= decoded_orig_data(hex@, utf8_len(hex@)));
    result
}

} // verus!

verus! {

/// Whether decoding the signature digits of `hex` can run: it is shorter
/// than 128 bytes, or the decoder meets a non-hex character, or the end of
/// the 128 digits, before it runs out of characters.
pub fn signature_hex_decodable(hex: &str) -> (r: bool)
    ensures
        r == (utf8_len(hex@) >= 128 ==> !signature_hex_truncated(hex@)),
{
    if hex.len() < 128 {
        return true;
    }
    let n = hex.unicode_len();
    let mut j: usize = 0;
    while j < 64
        invariant
            n == hex@.len(),
            utf8_len(hex@) >= 128,
            j <= 64,
            hex_pairs_valid_below(hex@, j as int),
        decreases 64 - j,
    {
        if 2 * j + 1 >= n {
            assert(signature_hex_truncated(hex@));
            return false;
        }
        let ok1 = hex_digit_value(hex.get_char(2 * j)).is_some();
        let ok2 = hex_digit_value(hex.get_char(2 * j + 1)).is_some();
        if !(ok1 && ok2) {
            proof {
                assert(!hex_pair_valid(hex@, j as int));
                assert forall|k: int| 0 <= k < 64 && 2 * k + 1 >= hex@.len() implies !#[trigger] hex_pairs_valid_below(
                    hex@,
                    k,
                ) by {
                    assert(k > j);
                    assert(!hex_pair_valid(hex@, j as int));
                }
            }
            return true;
        }
        assert(hex_pair_valid(hex@, j as int));
        j = j + 1;
    }
    proof {
        assert forall|k: int| 0 <= k < 64 && 2 * k + 1 >= hex@.len() implies !#[trigger] hex_pairs_valid_below(hex@, k) by {
            assert(hex_pair_valid(hex@, k));
        }
    }
    true
}

/// Whether decoding the signed text that follows the signature digits can
/// run: the text is not empty, and every pair that the decoder reads is a pair
/// of hex digits.
pub fn orig_data_decodable(hex: &str) -> (r: bool)
    ensures
        r == (utf8_len(hex@) >= 1 && orig_data_hex_valid(hex@, utf8_len(hex@))),
{
    let n = hex.len();
    if n < 1 {
        return false;
    }
    let count: usize = if n >= 128 { (n - 128) / 2 } else { 0 };
    assert(count == orig_data_len(n));
    let chars = hex.unicode_len();
    let mut k: usize = 0;
    while k < count
        invariant
            n == utf8_len(hex@),
            count == orig_data_len(n),
            chars == hex@.len(),
            k <= count,
            count <= n,
            forall|j: int| 64 <= j < 64 + k ==> #[trigger] hex_pair_valid(hex@, j),
        decreases count - k,
    {
        let i = 128 + 2 * k;
        if i + 1 >= chars {
            assert(!hex_pair_valid(hex@, 64 + k as int));
            return false;
        }
        let ok1 = hex_digit_value(hex.get_char(i)).is_some();
        let ok2 = hex_digit_value(hex.get_char(i + 1)).is_some();
        if !(ok1 && ok2) {
            assert(!hex_pair_valid(hex@, 64 + k as int));
            return false;
        }
        assert(hex_pair_valid(hex@, 64 + k as int));
        k = k + 1;
    }
    true
}

} // verus!
