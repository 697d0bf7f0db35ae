//! Confirming a signed purchase: the buyer's signature is checked against the
//! purchase facts, and a licence token is minted for the buyer.

use vstd::prelude::*;
use vstd::string::*;
use crate::date::{CivilDate, add_days, date_later, date_plus_days, date_triple, dmy_text, format_dmy, format_ymd, max_delta_days, parse_dmy, parsed_dmy, triple_date, ymd_text};
use crate::hex::{decoded_orig_data, orig_data_decodable, orig_data_hex_valid, signature_to_orig_data, signature_hex_decodable as signature_digits_decodable};
use crate::ledger::{expiry_text, minted_token, nft_expired, LedgerView, State};
use crate::licenses::{catalogue_duration, License, LicenseRegistry, PurchaseInformations};
use crate::metadata::{KeyValData, MetadataPart, MetadataPurpose, MetadataVal};
use crate::principal::{Principal, management_principal, principal_of_text};
use crate::text::{bool_text, spec_bool_text, text_eq, utf8_len};
use crate::verify::{check_hex_signature, hex_signature_check, signature_hex_decodable, VerificationError};

verus! {

/// The public key whose signatures confirm purchases.
pub open spec fn purchase_public_key() -> Seq<u8> {
    seq![
        9u8, 100, 165, 165, 48, 248, 113, 245, 88, 3, 54, 194, 65, 151, 60, 65, 247, 223, 186, 194,
        77, 95, 190, 101, 70, 33, 94, 182, 111, 231, 45, 43,
    ]
}

fn purchase_key_bytes() -> (k: [u8; 32])
    ensures
        k@ == purchase_public_key(),
{
    let k: [u8; 32] = [
        9, 100, 165, 165, 48, 248, 113, 245, 88, 3, 54, 194, 65, 151, 60, 65, 247, 223, 186, 194,
        77, 95, 190, 101, 70, 33, 94, 182, 111, 231, 45, 43,
    ];
    assert(k@ =~= purchase_public_key());
    k
}

/// Checks the hex signature `signature_str` on `signed_text` under the
/// purchase key.
pub fn verify_signature(signature_str: String, signed_text: String) -> (r: Result<bool, VerificationError>)
    requires
        signature_hex_decodable(signature_str@),
    ensures
        r == hex_signature_check(
            purchase_public_key(),
            signature_str@,
            vstd::utf8::encode_utf8(signed_text@),
        ),
{
    let key = purchase_key_bytes();
    check_hex_signature(key.as_slice(), signature_str, signed_text.as_str().as_bytes())
}

/// The text that a purchase signature carries after its signature digits.
pub open spec fn signed_data(signature: Seq<char>) -> Seq<char> {
    decoded_orig_data(signature, utf8_len(signature))
}

/// The purchase facts written one after the other: licence id, price, date
/// and buyer.
pub open spec fn purchase_content(info: PurchaseInformations) -> Seq<char> {
    info.license_id@ + info.price@ + info.date@ + info.to@
}

/// Whether the purchase key's signature on the signed text checks out (a
/// signature that cannot be checked counts as not checking out).
pub open spec fn purchase_verified(signature: Seq<char>) -> bool {
    match hex_signature_check(
        purchase_public_key(),
        signature,
        vstd::utf8::encode_utf8(signed_data(signature)),
    ) {
        Ok(b) => b,
        Err(_) => false,
    }
}

/// How far a purchase gets.
pub enum PurchaseStep {
    /// The signed text is not the purchase facts.
    Mismatch,
    /// The signature does not check out.
    Unverified,
    /// The purchase date is not a date.
    InvalidDate,
    /// The price is not the licence's price.
    WrongPrice,
    /// A licence token is minted.
    Minted,
}

/// How far a purchase whose signed text is the purchase facts gets, given
/// whether its signature checked out, where `license_price` is the price of
/// the licence as text.
pub open spec fn completion_step(verified: bool, info: PurchaseInformations, license_price: Seq<char>) -> PurchaseStep {
    if !verified {
        PurchaseStep::Unverified
    } else if parsed_dmy(info.date@) is None {
        PurchaseStep::InvalidDate
    } else if license_price != info.price@ {
        PurchaseStep::WrongPrice
    } else {
        PurchaseStep::Minted
    }
}

/// How far the purchase `info`, signed by `signature`, gets.
pub open spec fn purchase_step(signature: Seq<char>, info: PurchaseInformations, license_price: Seq<char>) -> PurchaseStep {
    if signed_data(signature) != purchase_content(info) {
        PurchaseStep::Mismatch
    } else {
        completion_step(purchase_verified(signature), info, license_price)
    }
}

/// The days that a licence of duration `duration` lasts, as the signed
/// number of days that is added to the purchase date.
pub open spec fn duration_days(duration: u64) -> i64 {
    duration as i64
}

/// The expiry date of the purchase: the purchase date plus the licence's
/// duration, where it stays in range.
pub open spec fn purchase_expiry(info: PurchaseInformations, duration: u64) -> Option<(i32, u32, u32)> {
    let d = parsed_dmy(info.date@)->0;
    date_plus_days(d.0, d.1, d.2, duration_days(duration))
}

/// Where a token is to be minted, the inputs on which minting it cannot run
/// (the canister traps there): the duration is too long for a time delta, the
/// expiry date leaves the calendar's range, the buyer is not a principal's
/// text, or the ledger has no transaction id or token id left.
pub open spec fn completion_traps(
    ledger: LedgerView,
    duration: u64,
    verified: bool,
    info: PurchaseInformations,
    license_price: Seq<char>,
) -> bool {
    completion_step(verified, info, license_price) is Minted && {
        ||| !(-max_delta_days() <= duration_days(duration) <= max_delta_days())
        ||| purchase_expiry(info, duration) is None
        ||| principal_of_text(info.to@) is None
        ||| ledger.txid == u128::MAX
        ||| ledger.nfts.len() >= u64::MAX
    }
}

/// The inputs on which `confirm_purchase` cannot run to its end (the canister
/// traps there): the signed text cannot be decoded; or the signature digits
/// cannot be decoded where they are checked; or minting cannot run.
pub open spec fn purchase_traps(
    ledger: LedgerView,
    duration: u64,
    signature: Seq<char>,
    info: PurchaseInformations,
    license_price: Seq<char>,
) -> bool {
    ||| !(utf8_len(signature) >= 1 && orig_data_hex_valid(signature, utf8_len(signature)))
    ||| signed_data(signature) == purchase_content(info) && !signature_hex_decodable(signature)
    ||| signed_data(signature) == purchase_content(info) && completion_traps(
        ledger,
        duration,
        purchase_verified(signature),
        info,
        license_price,
    )
}

/// The first part of a verification report on `signature`, which carries the
/// signed text `signed`.
pub open spec fn verification_report(signature: Seq<char>, signed: Seq<char>, verified: bool, id: Seq<char>) -> Seq<char> {
    "The verification result for \""@ + signature + "\" containing \""@ + signed + "\" is "@ + spec_bool_text(
        verified,
    ) + ", with id "@ + id
}

/// What a purchase whose signed text is the purchase facts answers.
pub open spec fn completion_answer(
    signature: Seq<char>,
    signed: Seq<char>,
    verified: bool,
    info: PurchaseInformations,
    license_price: Seq<char>,
    duration: u64,
) -> Seq<char> {
    match completion_step(verified, info, license_price) {
        PurchaseStep::InvalidDate => info.date@ + " is not a valid date"@,
        PurchaseStep::WrongPrice => "Expected "@ + license_price + " as price but found "@ + info.price@,
        PurchaseStep::Minted => verification_report(signature, signed, true, info.license_id@) + " expires "@
            + ymd_text(triple_date(purchase_expiry(info, duration)->0)),
        _ => verification_report(signature, signed, verified, info.license_id@),
    }
}

/// The metadata of a purchased licence token: one preview part with no data,
/// whose key-value data hold the licence id and, for a licence that lasts, the
/// expiry date.
pub open spec fn purchase_metadata(parts: Seq<MetadataPart>, id: Seq<char>, duration: u64, expiry: CivilDate) -> bool {
    &&& parts.len() == 1
    &&& parts[0].purpose == MetadataPurpose::Preview
    &&& parts[0].data@ == Seq::<u8>::empty()
    &&& parts[0].key_val_data@.contains_key("license_id"@)
    &&& parts[0].key_val_data@["license_id"@] matches MetadataVal::TextContent(t) && t@ == id
    &&& (duration != 0) == parts[0].key_val_data@.contains_key("expire_date"@)
    &&& duration != 0 ==> (parts[0].key_val_data@["expire_date"@] matches MetadataVal::TextContent(t) && t@
        == dmy_text(expiry))
    &&& parts[0].key_val_data@.dom().subset_of(set!["license_id"@, "expire_date"@])
}

/// What completing a purchase answers and does to the ledger: where it gets
/// to the end, a token named after the licence id is minted for the buyer,
/// with the licence's metadata; otherwise the ledger stays as it was.
pub open spec fn completion_outcome(
    old: LedgerView,
    new: LedgerView,
    answer: Seq<char>,
    licenses: Seq<License>,
    signature: Seq<char>,
    signed: Seq<char>,
    verified: bool,
    info: PurchaseInformations,
    license_price: Seq<char>,
) -> bool {
    let duration = catalogue_duration(licenses, info.license_id@);
    &&& answer == completion_answer(signature, signed, verified, info, license_price, duration)
    &&& !(completion_step(verified, info, license_price) is Minted) ==> new == old
    &&& completion_step(verified, info, license_price) is Minted ==> {
        let metadata = new.nfts.last().metadata;
        let expiry = triple_date(purchase_expiry(info, duration)->0);
        &&& purchase_metadata(metadata, info.license_id@, duration, expiry)
        &&& duration != 0 && principal_of_text(info.to@)->0 != management_principal() ==> forall|today: CivilDate|
            #[trigger] nft_expired(new.nfts.last(), today) == (expiry.year != 1900 && date_later(today, expiry))
        &&& new == (LedgerView {
            nfts: old.nfts.push(
                minted_token(
                    old.nfts.len() as u64,
                    info.license_id@,
                    principal_of_text(info.to@)->0,
                    metadata,
                ),
            ),
            txid: (old.txid + 1) as u128,
            ..old
        })
    }
}

/// What confirming the purchase `info`, signed by `signature`, answers and
/// does to the ledger.
pub open spec fn purchase_outcome(
    old: LedgerView,
    new: LedgerView,
    answer: Seq<char>,
    licenses: Seq<License>,
    signature: Seq<char>,
    info: PurchaseInformations,
    license_price: Seq<char>,
) -> bool {
    if signed_data(signature) != purchase_content(info) {
        &&& answer == "Signature contains "@ + signed_data(signature) + " but found "@ + purchase_content(info)
            + " in struct"@
        &&& new == old
    } else {
        completion_outcome(
            old,
            new,
            answer,
            licenses,
            signature,
            signed_data(signature),
            purchase_verified(signature),
            info,
            license_price,
        )
    }
}

/// Finishes a purchase whose signed text `orig_data` (carried by `signature`)
/// is the purchase facts, given whether the signature checked out: where the
/// date is a date and `license_price` (the price of the licence
/// `purchase_info.license_id`, written with two decimals) is the price that
/// was paid, a licence token is minted for the buyer; the answer says what
/// happened.
pub fn complete_purchase(
    ledger: &mut State,
    registry: &LicenseRegistry,
    signature: String,
    orig_data: String,
    purchase_info: PurchaseInformations,
    license_price: &str,
    verified: bool,
) -> (r: String)
    requires
        old(ledger).wf(),
        !completion_traps(
            old(ledger)@,
            catalogue_duration(registry@.licenses, purchase_info.license_id@),
            verified,
            purchase_info,
            license_price@,
        ),
    ensures
        final(ledger).wf(),
        completion_outcome(
            old(ledger)@,
            final(ledger)@,
            r@,
            registry@.licenses,
            signature@,
            orig_data@,
            verified,
            purchase_info,
            license_price@,
        ),
{
    let mut report = String::from_str("The verification result for \"");
    report.append(signature.as_str());
    report.append("\" containing \"");
    report.append(orig_data.as_str());
    report.append("\" is ");
    report.append(bool_text(verified));
    report.append(", with id ");
    report.append(purchase_info.license_id.as_str());
    if !verified {
        return report;
    }
    let date = match parse_dmy(purchase_info.date.as_str()) {
        Some(d) => d,
        None => {
            let mut text = purchase_info.date.clone();
            text.append(" is not a valid date");
            return text;
        },
    };
    let this_license = registry.get(purchase_info.license_id.clone());
    if !text_eq(license_price, purchase_info.price.as_str()) {
        let mut text = String::from_str("Expected ");
        text.append(license_price);
        text.append(" as price but found ");
        text.append(purchase_info.price.as_str());
        return text;
    }
    let days = this_license.duration as i64;
    let expiry = add_days(date, days).unwrap();
    let date_str = format_dmy(expiry);
    let ghost date_text = date_str@;
    let principal = Principal::from_text(purchase_info.to.as_str()).unwrap();
    let ghost buyer = principal@;
    proof {
        reveal_strlit("expire_date");
        reveal_strlit("license_id");
        assert("expire_date"@.len() == 11 && "license_id"@.len() == 10);
    }
    let mut key_vals = KeyValData::new();
    if this_license.duration != 0 {
        key_vals.insert(String::from_str("expire_date"), MetadataVal::TextContent(date_str));
    }
    key_vals.insert(
        String::from_str("license_id"),
        MetadataVal::TextContent(purchase_info.license_id.clone()),
    );
    let part = MetadataPart { purpose: MetadataPurpose::Preview, key_val_data: key_vals, data: Vec::new() };
    let mut info: Vec<MetadataPart> = Vec::new();
    info.push(part);
    let ghost parts = info@;
    assert(purchase_metadata(parts, purchase_info.license_id@, this_license.duration, expiry));
    let _ = ledger.mint(purchase_info.license_id.clone(), principal, info);
    proof {
        let last = ledger@.nfts.last();
        assert(last.metadata == parts);
        if this_license.duration != 0 && buyer != management_principal() {
            assert(expiry_text(last) == Some(date_text));
            assert(parsed_dmy(date_text) == Some(date_triple(expiry)));
            assert forall|today: CivilDate| #[trigger] nft_expired(last, today) == (expiry.year != 1900 && date_later(
                today,
                expiry,
            )) by {}
        }
    }
    report.append(" expires ");
    let expiry_text = format_ymd(expiry);
    report.append(expiry_text.as_str());
    report
}

/// Confirms the purchase `purchase_info` signed by `signature`: where the
/// signed text is the purchase facts, the signature checks out, the date is a
/// date and `license_price` (the price of the licence `purchase_info.license_id`,
/// written with two decimals) is the price that was paid, a licence token is
/// minted for the buyer; the answer says what happened.
pub fn confirm_purchase(
    ledger: &mut State,
    registry: &LicenseRegistry,
    signature: String,
    purchase_info: PurchaseInformations,
    license_price: &str,
) -> (r: String)
    requires
        old(ledger).wf(),
        !purchase_traps(
            old(ledger)@,
            catalogue_duration(registry@.licenses, purchase_info.license_id@),
            signature@,
            purchase_info,
            license_price@,
        ),
    ensures
        final(ledger).wf(),
        purchase_outcome(
            old(ledger)@,
            final(ledger)@,
            r@,
            registry@.licenses,
            signature@,
            purchase_info,
            license_price@,
        ),
{
    let orig_data = signature_to_orig_data(signature.clone());
    let mut content = purchase_info.license_id.clone();
    content.append(purchase_info.price.as_str());
    content.append(purchase_info.date.as_str());
    content.append(purchase_info.to.as_str());
    if !(orig_data == content) {
        let mut text = String::from_str("Signature contains ");
        text.append(orig_data.as_str());
        text.append(" but found ");
        text.append(content.as_str());
        text.append(" in struct");
        return text;
    }
    let result = match verify_signature(signature.clone(), orig_data.clone()) {
        Ok(ris) => ris,
        Err(_) => false,
    };
    complete_purchase(ledger, registry, signature, orig_data, purchase_info, license_price, result)
}

/// Like `confirm_purchase`, but answers `None`, leaving the ledger as it
/// was, on the inputs on which that function cannot run to its end.
pub fn try_confirm_purchase(
    ledger: &mut State,
    registry: &LicenseRegistry,
    signature: String,
    purchase_info: PurchaseInformations,
    license_price: &str,
) -> (r: Option<String>)
    requires
        old(ledger).wf(),
    ensures
        final(ledger).wf(),
        r is None <==> purchase_traps(
            old(ledger)@,
            catalogue_duration(registry@.licenses, purchase_info.license_id@),
            signature@,
            purchase_info,
            license_price@,
        ),
        r is None ==> final(ledger)@ == old(ledger)@,
        r matches Some(answer) ==> purchase_outcome(
            old(ledger)@,
            final(ledger)@,
            answer@,
            registry@.licenses,
            signature@,
            purchase_info,
            license_price@,
        ),
{
    if !orig_data_decodable(signature.as_str()) {
        return None;
    }
    let orig_data = signature_to_orig_data(signature.clone());
    let mut content = purchase_info.license_id.clone();
    content.append(purchase_info.price.as_str());
    content.append(purchase_info.date.as_str());
    content.append(purchase_info.to.as_str());
    if orig_data == content {
        if !signature_digits_decodable(signature.as_str()) {
            return None;
        }
        let verified = match verify_signature(signature.clone(), orig_data.clone()) {
            Ok(ris) => ris,
            Err(_) => false,
        };
        if completion_would_trap(ledger, registry, &purchase_info, license_price, verified) {
            return None;
        }
    }
    Some(confirm_purchase(ledger, registry, signature, purchase_info, license_price))
}

/// Whether minting for a purchase cannot run.
pub fn completion_would_trap(
    ledger: &State,
    registry: &LicenseRegistry,
    purchase_info: &PurchaseInformations,
    license_price: &str,
    verified: bool,
) -> (r: bool)
    requires
        ledger.wf(),
    ensures
        r == completion_traps(
            ledger@,
            catalogue_duration(registry@.licenses, purchase_info.license_id@),
            verified,
            *purchase_info,
            license_price@,
        ),
{
    if !verified {
        return false;
    }
    let date = match parse_dmy(purchase_info.date.as_str()) {
        Some(d) => d,
        None => {
            return false;
        },
    };
    if !text_eq(license_price, purchase_info.price.as_str()) {
        return false;
    }
    let this_license = registry.get(purchase_info.license_id.clone());
    let days = this_license.duration as i64;
    if days < -106751991167 || days > 106751991167 {
        return true;
    }
    if add_days(date, days).is_none() {
        return true;
    }
    if Principal::from_text(purchase_info.to.as_str()).is_none() {
        return true;
    }
    ledger.txid() == u128::MAX || ledger.total_supply() == u64::MAX
}

} // verus!
