use license_manager::hex::{signature_to_array, signature_to_orig_data};
use license_manager::ledger::State;
use license_manager::licenses::{License, LicenseRegistry};
use license_manager::metadata::{KeyValData, MetadataPart, MetadataPurpose, MetadataVal};
use license_manager::principal::Principal;

/// 2023-01-01 00:00:00 UTC, in nanoseconds.
const JAN_2023: u64 = 1_672_531_200_000_000_000;

fn user(n: u8) -> Principal {
    Principal::from_slice(&[n])
}

fn expiring(date: &str) -> Vec<MetadataPart> {
    let mut kv = KeyValData::new();
    kv.insert("expire_date".to_string(), MetadataVal::TextContent(date.to_string()));
    vec![MetadataPart { purpose: MetadataPurpose::Preview, key_val_data: kv, data: vec![] }]
}

fn hex_of(bytes: &[u8]) -> String {
    let mut s = String::new();
    for b in bytes {
        s.push_str(&format!("{:02x}", b));
    }
    s
}

#[test]
fn law_transfer_moves_one_token_example() {
    let mut s = State::new();
    s.mint("a".to_string(), user(1), vec![]).unwrap();
    s.mint("b".to_string(), user(1), vec![]).unwrap();
    s.mint("c".to_string(), user(2), vec![]).unwrap();
    s.approve(&user(1), user(3), 1).unwrap();
    let before_from = s.balance_of(&user(1));
    let before_to = s.balance_of(&user(2));
    s.transfer_from(&user(1), &user(1), user(2), 1).unwrap();
    assert_eq!(s.balance_of(&user(1)) + 1, before_from);
    assert_eq!(s.balance_of(&user(2)), before_to + 1);
    assert_eq!(s.total_supply(), 3);
    assert_eq!(s._get_approved(&user(9), 1).unwrap().as_slice(), &[9]);
}

#[test]
fn law_mint_adds_owned_token_example() {
    let mut s = State::new();
    s.mint("a".to_string(), user(1), vec![]).unwrap();
    let before = s.balance_of(&user(2));
    let r = s.mint("b".to_string(), user(2), vec![]).unwrap();
    assert_eq!(s.balance_of(&user(2)), before + 1);
    assert_eq!(r.token_id, 1);
    assert_eq!(s.owner_of(r.token_id).unwrap().as_slice(), &[2]);
}

#[test]
fn law_burned_token_never_expires_example() {
    let mut s = State::new();
    s.mint("a".to_string(), user(1), expiring("01-06-2022")).unwrap();
    s.burn(0).unwrap();
    assert!(!s.is_date_expired_nft(0, JAN_2023));
    assert_eq!(s.txid(), 2);
}

#[test]
fn law_expiry_check_idempotent_example() {
    let mut s = State::new();
    s.mint("a".to_string(), user(1), expiring("01-06-2022")).unwrap();
    s.mint("b".to_string(), user(1), expiring("01-06-2030")).unwrap();
    s.check_nfts(JAN_2023);
    let txid = s.txid();
    s.check_nfts(JAN_2023);
    assert_eq!(s.txid(), txid);
    assert_eq!(s.owner_of(0).unwrap().as_slice(), &[] as &[u8]);
    assert_eq!(s.owner_of(1).unwrap().as_slice(), &[1]);
}

#[test]
fn law_approval_for_all_is_read_back_example() {
    let mut s = State::new();
    s.set_approval_for_all(&user(2), user(5), true).unwrap();
    s.set_approval_for_all(&user(1), user(5), true).unwrap();
    assert!(s.is_approved_for_all(&user(1), &user(5)));
    s.set_approval_for_all(&user(1), user(5), false).unwrap();
    assert!(!s.is_approved_for_all(&user(1), &user(5)));
    assert!(s.is_approved_for_all(&user(2), &user(5)));
}

#[test]
fn law_update_then_get_example() {
    let mut r = LicenseRegistry::new();
    let l = License {
        id: "X".to_string(),
        name: "X licence".to_string(),
        description: "d".to_string(),
        price_bits: 2.5f64.to_bits(),
        perpetual: false,
        duration: 7,
        transferable: true,
        transfer_commission_bits: 0.1f64.to_bits(),
    };
    r.update(&user(1), l.duplicate());
    let got = r.get("X".to_string());
    assert_eq!(got.id, l.id);
    assert_eq!(got.name, l.name);
    assert_eq!(got.description, l.description);
    assert_eq!(got.price_bits, l.price_bits);
    assert_eq!(got.perpetual, l.perpetual);
    assert_eq!(got.duration, l.duration);
    assert_eq!(got.transferable, l.transferable);
    assert_eq!(got.transfer_commission_bits, l.transfer_commission_bits);
}

#[test]
fn law_signature_hex_roundtrip_example() {
    let bytes: Vec<u8> = (0..64u32).map(|i| (i * 37 % 256) as u8).collect();
    let mut s = hex_of(&bytes);
    s.push_str("whatever follows");
    let decoded = signature_to_array(s).unwrap();
    assert_eq!(decoded.to_vec(), bytes);
}

#[test]
fn law_signed_text_roundtrip_example() {
    let signature = [0xabu8; 64];
    let signed: Vec<u8> = vec![b'L', b'1', 0x00, 0x7f, 0xe9, 0xff];
    let mut s = hex_of(&signature);
    s.push_str(&hex_of(&signed));
    let text = signature_to_orig_data(s);
    let expected: String = signed.iter().map(|b| *b as char).collect();
    assert_eq!(text, expected);
}

#[test]
fn law_first_uploader_keeps_id_example() {
    let mut r = LicenseRegistry::new();
    let make = |duration: u64| License {
        id: "K".to_string(),
        name: "n".to_string(),
        description: "d".to_string(),
        price_bits: 0,
        perpetual: false,
        duration,
        transferable: false,
        transfer_commission_bits: 0,
    };
    r.update(&user(1), make(1));
    r.update(&user(2), make(2));
    assert_eq!(r.get("K".to_string()).duration, 1);
    r.update(&user(1), make(3));
    assert_eq!(r.get("K".to_string()).duration, 3);
    r.update(&user(2), make(4));
    assert_eq!(r.get("K".to_string()).duration, 3);
}

#[test]
fn law_balances_add_up_to_supply_example() {
    let mut s = State::new();
    s.mint("a".to_string(), user(1), vec![]).unwrap();
    s.mint("b".to_string(), user(2), vec![]).unwrap();
    s.mint("c".to_string(), user(1), vec![]).unwrap();
    s.burn(1).unwrap();
    let total = s.balance_of(&user(1)) + s.balance_of(&user(2)) + s.balance_of(&Principal::management_canister());
    assert_eq!(total, s.total_supply());
    assert_eq!(s.balance_of(&Principal::management_canister()), 1);
}

#[test]
fn law_no_custodian_no_settings_example() {
    let mut s = State::new();
    for n in 0..4u8 {
        assert!(s.set_custodian(&user(n), user(n), true).is_err());
        assert!(s.set_name(&user(n), "x".to_string()).is_err());
        assert!(!s.is_custodian(&user(n)));
    }
}

#[test]
fn law_signature_ignores_what_follows_example() {
    let bytes: Vec<u8> = (0..64u8).collect();
    let h = hex_of(&bytes);
    let a = signature_to_array(h.clone()).unwrap();
    let mut longer = h.clone();
    longer.push_str("zz not hex é");
    assert_eq!(signature_to_array(longer).unwrap(), a);
}

#[test]
fn law_signed_text_ignores_signature_digits_example() {
    let mut s = "g".repeat(128);
    s.push_str("41");
    assert_eq!(signature_to_orig_data(s), "A");
    let mut t = "0".repeat(128);
    t.push_str("41");
    assert_eq!(signature_to_orig_data(t), "A");
}
