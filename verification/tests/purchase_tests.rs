use license_manager::ledger::State;
use license_manager::licenses::{License, LicenseRegistry, PurchaseInformations};
use license_manager::metadata::MetadataVal;
use license_manager::principal::Principal;
use license_manager::purchase::{
    complete_purchase, completion_would_trap, confirm_purchase, try_confirm_purchase,
    verify_signature,
};
use license_manager::verify::VerificationError;

/// A well-formed signature, not made with the purchase key.
const FOREIGN_SIGNATURE: &str = "635422c9d1930ea59f5aee991372cf1d84903be8aca3a9682209c8ad90368b706e4099183ba95813045535f75e2fc8b70d4967ea03034aba91af92c14f4f9403";

/// 2023-07-01 00:00:00 UTC, in nanoseconds.
const JUL_2023: u64 = 1_688_169_600_000_000_000;

fn hex_of(text: &str) -> String {
    let mut s = String::new();
    for b in text.bytes() {
        s.push_str(&format!("{:02x}", b));
    }
    s
}

fn info(id: &str, price: &str, date: &str, to: &str) -> PurchaseInformations {
    PurchaseInformations {
        license_id: id.to_string(),
        price: price.to_string(),
        date: date.to_string(),
        to: to.to_string(),
    }
}

fn registry_with(id: &str, duration: u64) -> LicenseRegistry {
    let mut r = LicenseRegistry::new();
    let l = License {
        id: id.to_string(),
        name: "Licence".to_string(),
        description: "A licence".to_string(),
        price_bits: 10.0f64.to_bits(),
        perpetual: duration == 0,
        duration,
        transferable: true,
        transfer_commission_bits: 0,
    };
    r.update(&Principal::from_slice(&[1]), l);
    r
}

fn signed(content: &str) -> String {
    let mut s = FOREIGN_SIGNATURE.to_string();
    s.push_str(&hex_of(content));
    s
}

#[test]
fn purchase_key_does_not_accept_a_foreign_signature() {
    let r = verify_signature(FOREIGN_SIGNATURE.to_string(), "L110.0001-06-2022aaaaa-aa".to_string());
    assert_eq!(r, Ok(false));
    let r = verify_signature("00".to_string(), "x".to_string());
    assert_eq!(r, Err(VerificationError::InvalidSignatureHex));
}

#[test]
fn mismatching_signed_text_is_reported() {
    let mut ledger = State::new();
    let registry = registry_with("L1", 365);
    let sig = signed("L110.0001-06-2022aaaaa-aa");
    let answer = confirm_purchase(
        &mut ledger,
        &registry,
        sig,
        info("L1", "10.00", "02-06-2022", "aaaaa-aa"),
        "10.00",
    );
    assert_eq!(
        answer,
        "Signature contains L110.0001-06-2022aaaaa-aa but found L110.0002-06-2022aaaaa-aa in struct"
    );
    assert_eq!(ledger.total_supply(), 0);
}

#[test]
fn unverified_purchase_mints_nothing() {
    let mut ledger = State::new();
    let registry = registry_with("L1", 365);
    let sig = signed("L110.0001-06-2022aaaaa-aa");
    let answer = confirm_purchase(
        &mut ledger,
        &registry,
        sig.clone(),
        info("L1", "10.00", "01-06-2022", "aaaaa-aa"),
        "10.00",
    );
    assert_eq!(
        answer,
        format!(
            "The verification result for \"{}\" containing \"L110.0001-06-2022aaaaa-aa\" is false, with id L1",
            sig
        )
    );
    assert_eq!(ledger.total_supply(), 0);
    assert_eq!(ledger.txid(), 0);
}

#[test]
fn verified_purchase_mints_a_token() {
    let mut ledger = State::new();
    let registry = registry_with("L1", 365);
    let sig = signed("L110.0001-06-2022");
    let answer = complete_purchase(
        &mut ledger,
        &registry,
        sig.clone(),
        "L110.0001-06-20222vxsx-fae".to_string(),
        info("L1", "10.00", "01-06-2022", "2vxsx-fae"),
        "10.00",
        true,
    );
    assert_eq!(
        answer,
        format!(
            "The verification result for \"{}\" containing \"L110.0001-06-20222vxsx-fae\" is true, with id L1 expires 2023-06-01",
            sig
        )
    );
    assert_eq!(ledger.total_supply(), 1);
    assert_eq!(ledger.txid(), 1);
    assert_eq!(ledger.owner_of(0).unwrap().as_slice(), &[4]);
    assert_eq!(ledger.name(0), "L1");
    let parts = ledger.get_metadata(0).unwrap();
    assert_eq!(parts.len(), 1);
    assert!(parts[0].data.is_empty());
    let kv = &parts[0].key_val_data;
    assert_eq!(
        kv.get(&"expire_date".to_string()),
        Some(&MetadataVal::TextContent("01-06-2023".to_string()))
    );
    assert_eq!(
        kv.get(&"license_id".to_string()),
        Some(&MetadataVal::TextContent("L1".to_string()))
    );
    assert_eq!(kv.entries().len(), 2);
    assert!(ledger.is_date_expired_nft(0, JUL_2023));
    assert_eq!(ledger.owner_of(0).unwrap().as_slice(), &[] as &[u8]);
}

#[test]
fn perpetual_licence_has_no_expiry_key() {
    let mut ledger = State::new();
    let registry = registry_with("P", 0);
    let answer = complete_purchase(
        &mut ledger,
        &registry,
        "sig".to_string(),
        "text".to_string(),
        info("P", "10.00", "29-02-2024", "2vxsx-fae"),
        "10.00",
        true,
    );
    assert_eq!(
        answer,
        "The verification result for \"sig\" containing \"text\" is true, with id P expires 2024-02-29"
    );
    let parts = ledger.get_metadata(0).unwrap();
    assert_eq!(parts[0].key_val_data.entries().len(), 1);
    assert!(parts[0].key_val_data.get(&"expire_date".to_string()).is_none());
    assert!(!ledger.is_date_expired_nft(0, JUL_2023));
}

#[test]
fn invalid_date_is_reported() {
    let mut ledger = State::new();
    let registry = registry_with("L1", 365);
    let answer = complete_purchase(
        &mut ledger,
        &registry,
        "sig".to_string(),
        "text".to_string(),
        info("L1", "10.00", "31-02-2022", "2vxsx-fae"),
        "10.00",
        true,
    );
    assert_eq!(answer, "31-02-2022 is not a valid date");
    assert_eq!(ledger.total_supply(), 0);
}

#[test]
fn wrong_price_is_reported() {
    let mut ledger = State::new();
    let registry = registry_with("L1", 365);
    let answer = complete_purchase(
        &mut ledger,
        &registry,
        "sig".to_string(),
        "text".to_string(),
        info("L1", "9.00", "01-06-2022", "2vxsx-fae"),
        "10.00",
        true,
    );
    assert_eq!(answer, "Expected 10.00 as price but found 9.00");
    assert_eq!(ledger.total_supply(), 0);
}

#[test]
fn unverified_completion_reports_false() {
    let mut ledger = State::new();
    let registry = registry_with("L1", 365);
    let answer = complete_purchase(
        &mut ledger,
        &registry,
        "sig".to_string(),
        "text".to_string(),
        info("L1", "10.00", "not a date", "2vxsx-fae"),
        "10.00",
        false,
    );
    assert_eq!(
        answer,
        "The verification result for \"sig\" containing \"text\" is false, with id L1"
    );
    assert_eq!(ledger.total_supply(), 0);
}

#[test]
fn traps_are_foreseen() {
    let ledger = State::new();
    let registry = registry_with("L1", 365);
    let bad_buyer = info("L1", "10.00", "01-06-2022", "not a principal");
    assert!(completion_would_trap(&ledger, &registry, &bad_buyer, "10.00", true));
    assert!(!completion_would_trap(&ledger, &registry, &bad_buyer, "10.00", false));
    let good = info("L1", "10.00", "01-06-2022", "2vxsx-fae");
    assert!(!completion_would_trap(&ledger, &registry, &good, "10.00", true));
    let late = info("L1", "10.00", "31-12-+262142", "2vxsx-fae");
    assert!(completion_would_trap(&ledger, &registry, &late, "10.00", true));
}

#[test]
fn try_confirm_refuses_undecodable_text() {
    let mut ledger = State::new();
    let registry = registry_with("L1", 365);
    let mut sig = FOREIGN_SIGNATURE.to_string();
    sig.push_str("zz");
    let r = try_confirm_purchase(
        &mut ledger,
        &registry,
        sig,
        info("L1", "10.00", "01-06-2022", "aaaaa-aa"),
        "10.00",
    );
    assert_eq!(r, None);
    let r = try_confirm_purchase(
        &mut ledger,
        &registry,
        String::new(),
        info("L1", "10.00", "01-06-2022", "aaaaa-aa"),
        "10.00",
    );
    assert_eq!(r, None);
}

#[test]
fn try_confirm_answers_like_confirm() {
    let mut ledger = State::new();
    let registry = registry_with("L1", 365);
    let sig = signed("L110.0001-06-2022aaaaa-aa");
    let r = try_confirm_purchase(
        &mut ledger,
        &registry,
        sig.clone(),
        info("L1", "10.00", "01-06-2022", "aaaaa-aa"),
        "10.00",
    );
    assert_eq!(
        r,
        Some(format!(
            "The verification result for \"{}\" containing \"L110.0001-06-2022aaaaa-aa\" is false, with id L1",
            sig
        ))
    );
    assert_eq!(ledger.total_supply(), 0);
}
