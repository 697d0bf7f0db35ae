//! Properties that hold across the operations of the library.

use vstd::prelude::*;
use crate::date::{CivilDate, date_later, date_plus_days, dmy_text, parsed_dmy, triple_date, valid_date, ymd_text};
use crate::hex::{decoded_orig_data, decoded_signature, hex_byte, hex_pair_valid, hex_pairs_valid_below, hex_value, is_hex_digit, orig_data_hex_valid, orig_data_len, signature_hex_truncated, signature_hex_valid};
use crate::verify::hex_signature_check;
use crate::ledger::{
    custodian_setting, Error,
    expired_burned, expired_count, expiry_text, ids_match_positions, is_operator_of, minted_token,
    nft_expired, operators_after, owned_count, token_burned, token_transferred, transfer_check,
    approve_check, token_approved, token_name_text,
    LedgerView, NftView,
};
use crate::licenses::{catalogue_duration, PurchaseInformations, got_license, has_id, lemma_sorted_ids_distinct, stored_in_order, update_outcome, License, RegistryView};
use crate::metadata::{MetadataPart, MetadataVal};
use crate::purchase::{completion_outcome, completion_step, duration_days, verification_report};
use crate::principal::management_principal;
use crate::text::utf8_len;
use vstd::utf8::{encode_utf8, is_ascii_chars};

verus! {

/// Replacing one token changes each user's count by what the old and the new
/// token contribute.
pub proof fn lemma_owned_count_update(nfts: Seq<NftView>, i: int, n: NftView, user: Seq<u8>)
    requires
        0 <= i < nfts.len(),
    ensures
        owned_count(nfts.update(i, n), user) + (if nfts[i].owner == user { 1int } else { 0int })
            == owned_count(nfts, user) + (if n.owner == user { 1int } else { 0int }),
    decreases nfts.len(),
{
    let updated = nfts.update(i, n);
    if i == nfts.len() - 1 {
        assert(updated.drop_last() =~= nfts.drop_last());
    } else {
        assert(updated.drop_last() =~= nfts.drop_last().update(i, n));
        lemma_owned_count_update(nfts.drop_last(), i, n, user);
    }
}

/// A transfer that goes through moves exactly one token from `from` to `to`:
/// `to` owns one token more, `from` one fewer, the token is `to`'s and no
/// longer approved for anybody, and the ledger keeps its size.
pub proof fn law_transfer_moves_one_token(s: LedgerView, caller: Seq<u8>, from: Seq<u8>, to: Seq<u8>, id: u64)
    requires
        transfer_check(s, caller, from, id) is Ok,
        from != to,
    ensures
        ({
            let t = token_transferred(s, id as int, to);
            &&& t.nfts.len() == s.nfts.len()
            &&& t.nfts[id as int].owner == to
            &&& t.nfts[id as int].approved is None
            &&& owned_count(t.nfts, to) == owned_count(s.nfts, to) + 1
            &&& owned_count(t.nfts, from) + 1 == owned_count(s.nfts, from)
        }),
{
    let n = NftView { owner: to, approved: None, ..s.nfts[id as int] };
    lemma_owned_count_update(s.nfts, id as int, n, to);
    lemma_owned_count_update(s.nfts, id as int, n, from);
}

/// A mint adds one token to the receiver's count, and the ledger stays well
/// formed: each token's id is its position.
pub proof fn law_mint_adds_owned_token(
    s: LedgerView,
    name: Seq<char>,
    to: Seq<u8>,
    metadata: Seq<MetadataPart>,
)
    requires
        ids_match_positions(s.nfts),
        s.nfts.len() < u64::MAX,
    ensures
        ({
            let nfts = s.nfts.push(minted_token(s.nfts.len() as u64, name, to, metadata));
            &&& owned_count(nfts, to) == owned_count(s.nfts, to) + 1
            &&& ids_match_positions(nfts)
            &&& nfts[s.nfts.len() as int].owner == to
        }),
{
    let nfts = s.nfts.push(minted_token(s.nfts.len() as u64, name, to, metadata));
    assert(nfts.drop_last() =~= s.nfts);
}

/// A burned token belongs to the management canister, and never counts as
/// expired again.
pub proof fn law_burned_token_never_expires(s: LedgerView, id: int, today: CivilDate)
    requires
        0 <= id < s.nfts.len(),
    ensures
        token_burned(s, id).nfts[id].owner == management_principal(),
        !nft_expired(token_burned(s, id).nfts[id], today),
{
}

/// Checking the tokens for expiry twice at the same date burns nothing the
/// second time.
pub proof fn law_expiry_check_idempotent(nfts: Seq<NftView>, today: CivilDate)
    ensures
        expired_burned(expired_burned(nfts, today), today) == expired_burned(nfts, today),
        expired_count(expired_burned(nfts, today), today) == 0,
{
    let once = expired_burned(nfts, today);
    assert forall|i: int| 0 <= i < once.len() implies !nft_expired(#[trigger] once[i], today) by {
        if nft_expired(nfts[i], today) {
            assert(expiry_text(once[i]) is None);
        }
    }
    assert(expired_burned(once, today) =~= once);
    lemma_no_expired_count_zero(once, today);
}

proof fn lemma_no_expired_count_zero(nfts: Seq<NftView>, today: CivilDate)
    requires
        forall|i: int| 0 <= i < nfts.len() ==> !nft_expired(#[trigger] nfts[i], today),
    ensures
        expired_count(nfts, today) == 0,
    decreases nfts.len(),
{
    if nfts.len() > 0 {
        let init = nfts.drop_last();
        assert forall|i: int| 0 <= i < init.len() implies !nft_expired(#[trigger] init[i], today) by {
            assert(init[i] == nfts[i]);
        }
        lemma_no_expired_count_zero(init, today);
        assert(!nft_expired(nfts[nfts.len() - 1], today));
    }
}

/// After `caller` sets `operator`'s approval for all its tokens (neither
/// `caller` itself nor the management canister), `operator` is approved for
/// all of `caller`'s tokens exactly as asked, and nobody else's operators
/// change.
pub proof fn law_approval_for_all_is_read_back(s: LedgerView, caller: Seq<u8>, operator: Seq<u8>, is_approved: bool)
    requires
        operator != caller,
        operator != management_principal(),
    ensures
        ({
            let t = LedgerView { operators: operators_after(s, caller, operator, is_approved), ..s };
            &&& is_operator_of(t, caller, operator) == is_approved
            &&& forall|who: Seq<u8>|
                who != operator ==> #[trigger] is_operator_of(t, caller, who) == is_operator_of(s, caller, who)
            &&& forall|owner: Seq<u8>, who: Seq<u8>|
                owner != caller ==> #[trigger] is_operator_of(t, owner, who) == is_operator_of(s, owner, who)
        }),
{
}

/// The two other cases of approval for all: naming oneself changes nothing;
/// naming the management canister clears all of the caller's operators when
/// revoking and changes none when approving. Nobody else's operators change.
pub proof fn law_approval_for_all_special_operators(s: LedgerView, caller: Seq<u8>, operator: Seq<u8>, is_approved: bool)
    requires
        operator == caller || operator == management_principal(),
    ensures
        ({
            let t = LedgerView { operators: operators_after(s, caller, operator, is_approved), ..s };
            &&& forall|owner: Seq<u8>, who: Seq<u8>|
                owner != caller ==> #[trigger] is_operator_of(t, owner, who) == is_operator_of(s, owner, who)
            &&& (operator == caller || is_approved) ==> forall|who: Seq<u8>|
                #[trigger] is_operator_of(t, caller, who) == is_operator_of(s, caller, who)
            &&& (operator != caller && !is_approved) ==> forall|who: Seq<u8>|
                !#[trigger] is_operator_of(t, caller, who)
        }),
{
}

/// An approval that goes through makes the requested user the token's one
/// approved principal, whoever was approved before, and changes nothing else
/// of the ledger's tokens: owners, ids, names and metadata stay, and the other
/// tokens stay as they were.
pub proof fn law_approve_sets_the_approved_user(s: LedgerView, caller: Seq<u8>, user: Seq<u8>, id: u64)
    requires
        approve_check(s, caller, user, id) is Ok,
        s.txid < u128::MAX,
    ensures
        ({
            let t = token_approved(s, id as int, user);
            &&& t.nfts.len() == s.nfts.len()
            &&& t.nfts[id as int].approved == Some(user)
            &&& t.nfts[id as int].owner == s.nfts[id as int].owner
            &&& t.nfts[id as int].id == s.nfts[id as int].id
            &&& t.nfts[id as int].name == s.nfts[id as int].name
            &&& t.nfts[id as int].metadata == s.nfts[id as int].metadata
            &&& forall|j: int| 0 <= j < s.nfts.len() && j != id ==> #[trigger] t.nfts[j] == s.nfts[j]
            &&& t.txid == s.txid + 1
        }),
{
}

/// A token keeps the name it was minted with for good: `name` answers it for
/// every id below the total supply, and burning, transferring or approving any
/// token (the given one included) leaves every name as it was. (The ledger's
/// length is that of a vector, so it fits a `usize`.)
pub proof fn law_token_keeps_its_name(
    s: LedgerView,
    name: Seq<char>,
    to: Seq<u8>,
    metadata: Seq<MetadataPart>,
    id: int,
    j: u64,
    who: Seq<u8>,
)
    requires
        s.nfts.len() < usize::MAX,
        0 <= id < s.nfts.len(),
        j < s.nfts.len(),
    ensures
        token_name_text(s, j) == s.nfts[j as int].name,
        token_name_text(token_burned(s, id), j) == s.nfts[j as int].name,
        token_name_text(token_transferred(s, id, who), j) == s.nfts[j as int].name,
        token_name_text(token_approved(s, id, who), j) == s.nfts[j as int].name,
        ({
            let m = LedgerView {
                nfts: s.nfts.push(minted_token(s.nfts.len() as u64, name, to, metadata)),
                ..s
            };
            &&& token_name_text(m, s.nfts.len() as u64) == name
            &&& token_name_text(token_burned(m, s.nfts.len() as int), s.nfts.len() as u64) == name
        }),
{
}

/// After an upload is stored, looking up its id gives back the licence that
/// was uploaded.
pub proof fn law_update_then_get(old: Seq<License>, new: Seq<License>, license: License, r: License)
    requires
        stored_in_order(old, new, license),
        got_license(new, license.id@, r),
    ensures
        r == license,
{
    let p = if has_id(old, license.id@) {
        choose|p: int| 0 <= p < old.len() && old[p].id@ == license.id@ && new == old.update(p, license)
    } else {
        choose|p: int| 0 <= p <= old.len() && new == old.insert(p, license)
    };
    assert(new[p] == license);
    assert(has_id(new, license.id@));
    let i = choose|i: int| 0 <= i < new.len() && new[i].id@ == license.id@ && r == new[i];
    lemma_sorted_ids_distinct(new, i, p);
}

/// The first principal to upload an id keeps it: after any upload, every id
/// that had an uploader still has the same one, and the licences change only
/// when the uploader of the licence's id, if there is one, is the caller.
pub proof fn law_first_uploader_keeps_id(
    old: RegistryView,
    new: RegistryView,
    caller: Seq<u8>,
    license: License,
    answer: Seq<char>,
)
    requires
        update_outcome(old, new, caller, license, answer),
    ensures
        forall|id: Seq<char>|
            #[trigger] old.owners.contains_key(id) ==> new.owners.contains_key(id) && new.owners[id]
                == old.owners[id],
        new.licenses != old.licenses ==> !old.owners.contains_key(license.id@) || old.owners[license.id@]
            == caller,
{
}

/// The balances of `users` added up.
pub open spec fn total_balance(nfts: Seq<NftView>, users: Seq<Seq<u8>>) -> nat
    decreases users.len(),
{
    if users.len() == 0 {
        0
    } else {
        total_balance(nfts, users.drop_last()) + owned_count(nfts, users.last())
    }
}

/// How many entries of `users` are `x`.
spec fn occurrences(users: Seq<Seq<u8>>, x: Seq<u8>) -> nat
    decreases users.len(),
{
    if users.len() == 0 {
        0
    } else {
        occurrences(users.drop_last(), x) + if users.last() == x {
            1nat
        } else {
            0nat
        }
    }
}

proof fn lemma_occurrences_absent(users: Seq<Seq<u8>>, x: Seq<u8>)
    requires
        !users.contains(x),
    ensures
        occurrences(users, x) == 0,
    decreases users.len(),
{
    if users.len() > 0 {
        assert(!users.drop_last().contains(x)) by {
            if users.drop_last().contains(x) {
                let i = choose|i: int| 0 <= i < users.drop_last().len() && users.drop_last()[i] == x;
                assert(users[i] == x);
            }
        }
        assert(users[users.len() - 1] != x);
        lemma_occurrences_absent(users.drop_last(), x);
    }
}

proof fn lemma_occurrences_once(users: Seq<Seq<u8>>, x: Seq<u8>)
    requires
        users.no_duplicates(),
        users.contains(x),
    ensures
        occurrences(users, x) == 1,
    decreases users.len(),
{
    let init = users.drop_last();
    assert(init.no_duplicates()) by {
        assert forall|i: int, j: int| 0 <= i < init.len() && 0 <= j < init.len() && i != j implies init[i]
            != init[j] by {
            assert(init[i] == users[i] && init[j] == users[j]);
        }
    }
    if users.last() == x {
        assert(!init.contains(x)) by {
            if init.contains(x) {
                let i = choose|i: int| 0 <= i < init.len() && init[i] == x;
                assert(users[i] == users[users.len() - 1]);
            }
        }
        lemma_occurrences_absent(init, x);
    } else {
        let i = choose|i: int| 0 <= i < users.len() && users[i] == x;
        assert(i < users.len() - 1);
        assert(init[i] == x);
        lemma_occurrences_once(init, x);
    }
}

proof fn lemma_total_balance_empty(nfts: Seq<NftView>, users: Seq<Seq<u8>>)
    requires
        nfts.len() == 0,
    ensures
        total_balance(nfts, users) == 0,
    decreases users.len(),
{
    if users.len() > 0 {
        lemma_total_balance_empty(nfts, users.drop_last());
    }
}

proof fn lemma_total_balance_step(nfts: Seq<NftView>, users: Seq<Seq<u8>>)
    requires
        nfts.len() > 0,
    ensures
        total_balance(nfts, users) == total_balance(nfts.drop_last(), users) + occurrences(
            users,
            nfts.last().owner,
        ),
    decreases users.len(),
{
    if users.len() > 0 {
        lemma_total_balance_step(nfts, users.drop_last());
    }
}

/// Every token is counted in exactly one balance: over any list of distinct
/// principals that holds every owner (burned tokens belong to the management
/// canister), the balances add up to the total supply.
pub proof fn law_balances_add_up_to_supply(nfts: Seq<NftView>, users: Seq<Seq<u8>>)
    requires
        users.no_duplicates(),
        forall|i: int| 0 <= i < nfts.len() ==> users.contains(#[trigger] nfts[i].owner),
    ensures
        total_balance(nfts, users) == nfts.len(),
    decreases nfts.len(),
{
    if nfts.len() == 0 {
        lemma_total_balance_empty(nfts, users);
    } else {
        let init = nfts.drop_last();
        assert forall|i: int| 0 <= i < init.len() implies users.contains(#[trigger] init[i].owner) by {
            assert(init[i] == nfts[i]);
        }
        law_balances_add_up_to_supply(init, users);
        lemma_total_balance_step(nfts, users);
        assert(users.contains(nfts[nfts.len() - 1].owner));
        lemma_occurrences_once(users, nfts.last().owner);
    }
}

/// A ledger without custodians keeps its settings: setting the name, the
/// symbol, the logo or a custodian is refused for every caller, and no
/// custodian appears. (No other operation changes the custodians: their
/// contracts keep that field as it was.)
pub proof fn law_no_custodian_no_settings(
    old: LedgerView,
    new: LedgerView,
    caller: Seq<u8>,
    r: Result<(), Error>,
    updated: LedgerView,
)
    requires
        old.custodians == Set::<Seq<u8>>::empty(),
        custodian_setting(old, new, caller, r, updated),
    ensures
        r == Err::<(), Error>(Error::Unauthorized),
        new == old,
        new.custodians == Set::<Seq<u8>>::empty(),
{
}

/// The lower-case hexadecimal digit of the value `v` (below 16).
pub open spec fn hex_digit_char(v: int) -> char {
    if v < 10 {
        ('0' as int + v) as char
    } else {
        ('a' as int + v - 10) as char
    }
}

/// The lower-case hex text of `bytes`: two digits per byte, high digit first.
pub open spec fn hex_encoding(bytes: Seq<u8>) -> Seq<char> {
    Seq::new(
        2 * bytes.len(),
        |i: int|
            if i % 2 == 0 {
                hex_digit_char(bytes[i / 2] as int / 16)
            } else {
                hex_digit_char(bytes[i / 2] as int % 16)
            },
    )
}

proof fn lemma_hex_digit_char(v: int)
    requires
        0 <= v < 16,
    ensures
        is_hex_digit(hex_digit_char(v)),
        hex_value(hex_digit_char(v)) == v,
        (hex_digit_char(v) as int) < 128,
{
}

proof fn lemma_hex_encoding_pairs(bytes: Seq<u8>, j: int)
    requires
        0 <= j < bytes.len(),
    ensures
        hex_pair_valid(hex_encoding(bytes), j),
        hex_byte(hex_encoding(bytes)[2 * j], hex_encoding(bytes)[2 * j + 1]) == bytes[j],
{
    let b = bytes[j] as int;
    lemma_hex_digit_char(b / 16);
    lemma_hex_digit_char(b % 16);
    assert((2 * j) / 2 == j && (2 * j) % 2 == 0);
    assert((2 * j + 1) / 2 == j && (2 * j + 1) % 2 == 1);
    assert(b / 16 * 16 + b % 16 == b);
}

/// Decoding the signature digits gives back the 64 bytes whose hex text
/// they are, whatever text follows them.
pub proof fn law_signature_hex_roundtrip(bytes: Seq<u8>, rest: Seq<char>)
    requires
        bytes.len() == 64,
    ensures
        signature_hex_valid(hex_encoding(bytes) + rest),
        decoded_signature(hex_encoding(bytes) + rest) == bytes,
{
    let s = hex_encoding(bytes) + rest;
    assert forall|j: int| 0 <= j < 64 implies hex_pair_valid(s, j) && hex_byte(s[2 * j], s[2 * j + 1])
        == bytes[j] by {
        lemma_hex_encoding_pairs(bytes, j);
        assert(s[2 * j] == hex_encoding(bytes)[2 * j]);
        assert(s[2 * j + 1] == hex_encoding(bytes)[2 * j + 1]);
    }
    assert(decoded_signature(s) =~= bytes);
}

/// A text made of 64 signature bytes in hex followed by some signed bytes in
/// hex is decoded back to those signed bytes, each as the character of its
/// code point.
pub proof fn law_signed_text_roundtrip(signature: Seq<u8>, signed: Seq<u8>)
    requires
        signature.len() == 64,
        2 * (64 + signed.len()) <= usize::MAX,
    ensures
        ({
            let s = hex_encoding(signature) + hex_encoding(signed);
            &&& utf8_len(s) == s.len()
            &&& orig_data_hex_valid(s, utf8_len(s))
            &&& decoded_orig_data(s, utf8_len(s)) == signed.map_values(|b: u8| b as char)
        }),
{
    let s = hex_encoding(signature) + hex_encoding(signed);
    assert forall|i: int| 0 <= i < s.len() implies '\0' <= #[trigger] s[i] <= '\u{7f}' by {
        if i < 128 {
            lemma_hex_digit_char(signature[i / 2] as int / 16);
            lemma_hex_digit_char(signature[i / 2] as int % 16);
        } else {
            let k = i - 128;
            assert(s[i] == hex_encoding(signed)[k]);
            lemma_hex_digit_char(signed[k / 2] as int / 16);
            lemma_hex_digit_char(signed[k / 2] as int % 16);
        }
    }
    vstd::utf8::is_ascii_chars_encode_utf8(s);
    assert(utf8_len(s) == s.len());
    assert(orig_data_len(utf8_len(s)) == signed.len());
    assert forall|j: int| 64 <= j < 64 + orig_data_len(utf8_len(s)) implies #[trigger] hex_pair_valid(s, j)
        && hex_byte(s[2 * j], s[2 * j + 1]) == signed[j - 64] by {
        lemma_hex_encoding_pairs(signed, j - 64);
        assert(s[2 * j] == hex_encoding(signed)[2 * (j - 64)]);
        assert(s[2 * j + 1] == hex_encoding(signed)[2 * (j - 64) + 1]);
    }
    assert forall|k: int| 0 <= k < signed.len() implies decoded_orig_data(s, utf8_len(s))[k]
        == signed.map_values(|b: u8| b as char)[k] by {
        assert(hex_pair_valid(s, 64 + k));
        assert(128 + 2 * k == 2 * (64 + k));
    }
    assert(decoded_orig_data(s, utf8_len(s)) =~= signed.map_values(|b: u8| b as char));
}


/// The UTF-8 encoding of two texts one after the other is the two encodings
/// one after the other.
proof fn lemma_encode_utf8_concat(a: Seq<char>, b: Seq<char>)
    ensures
        encode_utf8(a + b) == encode_utf8(a) + encode_utf8(b),
    decreases a.len(),
{
    if a.len() == 0 {
        assert(a + b =~= b);
        assert(encode_utf8(a) =~= Seq::<u8>::empty());
        assert(encode_utf8(a) + encode_utf8(b) =~= encode_utf8(b));
    } else {
        assert((a + b).drop_first() =~= a.drop_first() + b);
        assert((a + b)[0] == a[0]);
        lemma_encode_utf8_concat(a.drop_first(), b);
        assert(encode_utf8(a + b) =~= encode_utf8(a) + encode_utf8(b));
    }
}

/// After 128 ASCII characters, the byte length of a text whose encoding fits a
/// `usize` is 128 plus that of the rest.
proof fn lemma_utf8_len_after_ascii_prefix(h: Seq<char>, s: Seq<char>)
    requires
        h.len() == 128,
        is_ascii_chars(h),
        encode_utf8(h + s).len() <= usize::MAX,
    ensures
        utf8_len(h + s) == 128 + encode_utf8(s).len(),
        utf8_len(h) == 128,
{
    lemma_encode_utf8_concat(h, s);
    vstd::utf8::is_ascii_chars_encode_utf8(h);
}

/// The signature check reads only the first 128 characters: whatever text
/// follows 128 ASCII characters (within the length a `usize` can count), the
/// decoder neither fails on it nor reads it, so the signature, its decoding
/// and the verdict on any message are those of the 128 characters alone.
/// The text shown after the signature is therefore not covered by it.
pub proof fn law_signature_ignores_what_follows(
    h: Seq<char>,
    s: Seq<char>,
    public_key: Seq<u8>,
    message: Seq<u8>,
)
    requires
        h.len() == 128,
        is_ascii_chars(h),
        encode_utf8(h + s).len() <= usize::MAX,
    ensures
        utf8_len(h + s) >= 128,
        !signature_hex_truncated(h + s),
        signature_hex_valid(h + s) == signature_hex_valid(h),
        decoded_signature(h + s) == decoded_signature(h),
        hex_signature_check(public_key, h + s, message) == hex_signature_check(public_key, h, message),
{
    lemma_utf8_len_after_ascii_prefix(h, s);
    let t = h + s;
    assert forall|j: int| 0 <= j < 64 implies hex_pair_valid(t, j) == hex_pair_valid(h, j) by {
        assert(t[2 * j] == h[2 * j]);
        assert(t[2 * j + 1] == h[2 * j + 1]);
    }
    assert(decoded_signature(t) =~= decoded_signature(h)) by {
        assert forall|j: int| 0 <= j < 64 implies #[trigger] decoded_signature(t)[j] == decoded_signature(h)[j] by {
            assert(t[2 * j] == h[2 * j]);
            assert(t[2 * j + 1] == h[2 * j + 1]);
        }
    }
    assert forall|j: int| 0 <= j < 64 && 2 * j + 1 >= t.len() implies !#[trigger] hex_pairs_valid_below(t, j) by {}
}

/// The signed text is read only from the 129th character on: two texts that
/// begin with 128 ASCII characters each (hex digits or not) and go on alike
/// decode to the same signed text, within the length a `usize` can count.
pub proof fn law_signed_text_ignores_signature_digits(p: Seq<char>, q: Seq<char>, s: Seq<char>)
    requires
        p.len() == 128,
        q.len() == 128,
        is_ascii_chars(p),
        is_ascii_chars(q),
        encode_utf8(p + s).len() <= usize::MAX,
    ensures
        utf8_len(p + s) == utf8_len(q + s),
        orig_data_hex_valid(p + s, utf8_len(p + s)) == orig_data_hex_valid(q + s, utf8_len(q + s)),
        orig_data_hex_valid(p + s, utf8_len(p + s)) ==> decoded_orig_data(p + s, utf8_len(p + s))
            == decoded_orig_data(q + s, utf8_len(q + s)),
{
    lemma_utf8_len_after_ascii_prefix(p, s);
    lemma_encode_utf8_concat(q, s);
    vstd::utf8::is_ascii_chars_encode_utf8(q);
    lemma_utf8_len_after_ascii_prefix(q, s);
    let n = utf8_len(p + s);
    let a = p + s;
    let b = q + s;
    assert forall|j: int| 64 <= j < 64 + orig_data_len(n) implies #[trigger] hex_pair_valid(a, j) == hex_pair_valid(
        b,
        j,
    ) by {
        if 2 * j + 1 < a.len() {
            assert(a[2 * j] == s[2 * j - 128] && b[2 * j] == s[2 * j - 128]);
            assert(a[2 * j + 1] == s[2 * j + 1 - 128] && b[2 * j + 1] == s[2 * j + 1 - 128]);
        }
    }
    assert(orig_data_hex_valid(a, n) == orig_data_hex_valid(b, n)) by {
        if orig_data_hex_valid(a, n) {
            assert forall|j: int| 64 <= j < 64 + orig_data_len(n) implies #[trigger] hex_pair_valid(b, j) by {
                assert(hex_pair_valid(a, j));
            }
        }
        if orig_data_hex_valid(b, n) {
            assert forall|j: int| 64 <= j < 64 + orig_data_len(n) implies #[trigger] hex_pair_valid(a, j) by {
                assert(hex_pair_valid(b, j));
            }
        }
    }
    if orig_data_hex_valid(a, n) {
        assert(decoded_orig_data(a, n) =~= decoded_orig_data(b, n)) by {
            assert forall|k: int| 0 <= k < orig_data_len(n) implies #[trigger] decoded_orig_data(a, n)[k]
                == decoded_orig_data(b, n)[k] by {
                assert(hex_pair_valid(a, 64 + k));
                assert(a[128 + 2 * k] == s[2 * k] && b[128 + 2 * k] == s[2 * k]);
                assert(a[129 + 2 * k] == s[2 * k + 1] && b[129 + 2 * k] == s[2 * k + 1]);
            }
        }
    }
}

/// What a signer writes is read back: the hex text of 64 signature bytes
/// followed by the hex text of the signed bytes decodes, without failing, to
/// those signature bytes and to the signed text whose characters have the
/// signed bytes as code points.
pub proof fn law_signed_purchase_roundtrip(signature: Seq<u8>, signed: Seq<u8>)
    requires
        signature.len() == 64,
        2 * (64 + signed.len()) <= usize::MAX,
    ensures
        ({
            let x = hex_encoding(signature) + hex_encoding(signed);
            &&& utf8_len(x) >= 128
            &&& !signature_hex_truncated(x)
            &&& signature_hex_valid(x)
            &&& decoded_signature(x) == signature
            &&& orig_data_hex_valid(x, utf8_len(x))
            &&& decoded_orig_data(x, utf8_len(x)) == signed.map_values(|b: u8| b as char)
        }),
{
    let x = hex_encoding(signature) + hex_encoding(signed);
    law_signature_hex_roundtrip(signature, hex_encoding(signed));
    law_signed_text_roundtrip(signature, signed);
    assert(utf8_len(x) >= 128);
    assert forall|j: int| 0 <= j < 64 && 2 * j + 1 >= x.len() implies !#[trigger] hex_pairs_valid_below(x, j) by {}
}

/// A date's place in the calendar as one number: later dates get larger
/// numbers (months take 32 places, years 13 months' worth).
pub open spec fn day_number(d: CivilDate) -> int {
    d.year * 416 + d.month * 32 + d.day
}

/// `date_later` is the calendar order: for dates with a month from 1 to 12 and
/// a day from 1 to 31, one comes after another exactly when its year is later,
/// or its month in the same year, or its day in the same month.
pub proof fn law_later_is_calendar_order(a: CivilDate, b: CivilDate)
    requires
        1 <= a.month <= 12,
        1 <= b.month <= 12,
        1 <= a.day <= 31,
        1 <= b.day <= 31,
    ensures
        date_later(a, b) <==> day_number(a) > day_number(b),
        !date_later(a, a),
        date_later(a, b) ==> !date_later(b, a),
        a != b ==> date_later(a, b) || date_later(b, a),
{
}

/// A token with an expiry date has expired at `today` exactly when that date
/// (not in the placeholder year 1900) lies before `today` in the calendar.
pub proof fn law_expired_means_expiry_date_passed(nft: NftView, today: CivilDate)
    requires
        expiry_text(nft) is Some,
        parsed_dmy(expiry_text(nft)->0) is Some,
        valid_date(triple_date(parsed_dmy(expiry_text(nft)->0)->0)),
        valid_date(today),
    ensures
        ({
            let expiry = triple_date(parsed_dmy(expiry_text(nft)->0)->0);
            nft_expired(nft, today) <==> expiry.year != 1900 && day_number(today) > day_number(expiry)
        }),
{
    law_later_is_calendar_order(today, triple_date(parsed_dmy(expiry_text(nft)->0)->0));
}

/// The expiry date of a purchased licence is the purchase date plus exactly
/// the licence's duration in days (`days`, the duration as a signed number):
/// the answer ends with that date, and a licence that lasts carries it as its
/// "expire_date".
pub proof fn law_purchase_expiry_adds_the_duration(
    old: LedgerView,
    new: LedgerView,
    answer: Seq<char>,
    licenses: Seq<License>,
    signature: Seq<char>,
    signed: Seq<char>,
    info: PurchaseInformations,
    license_price: Seq<char>,
    days: i64,
)
    requires
        completion_outcome(old, new, answer, licenses, signature, signed, true, info, license_price),
        completion_step(true, info, license_price) is Minted,
        days == catalogue_duration(licenses, info.license_id@),
    ensures
        ({
            let p = parsed_dmy(info.date@)->0;
            let expiry = triple_date(date_plus_days(p.0, p.1, p.2, days)->0);
            &&& answer == verification_report(signature, signed, true, info.license_id@) + " expires "@
                + ymd_text(expiry)
            &&& days != 0 ==> new.nfts.last().metadata[0].key_val_data@.contains_key("expire_date"@)
            &&& days != 0 ==> (new.nfts.last().metadata[0].key_val_data@["expire_date"@] matches MetadataVal::TextContent(
                t,
            ) && t@ == dmy_text(expiry))
        }),
{
    let duration = catalogue_duration(licenses, info.license_id@);
    assert(duration_days(duration) == days);
}

} // verus!
