use license_manager::ledger::{supported_interfaces, Error, InterfaceId, LogoResult, MintResult, State};
use license_manager::metadata::{KeyValData, MetadataPart, MetadataPurpose, MetadataVal};
use license_manager::principal::Principal;

/// 2023-01-01 00:00:00 UTC, in nanoseconds.
const JAN_2023: u64 = 1_672_531_200_000_000_000;
/// 2021-01-01 00:00:00 UTC, in nanoseconds.
const JAN_2021: u64 = 1_609_459_200_000_000_000;

fn user(n: u8) -> Principal {
    Principal::from_slice(&[n, n, n])
}

fn expiring(date: &str) -> Vec<MetadataPart> {
    let mut kv = KeyValData::new();
    kv.insert("expire_date".to_string(), MetadataVal::TextContent(date.to_string()));
    vec![MetadataPart { purpose: MetadataPurpose::Preview, key_val_data: kv, data: vec![] }]
}

fn plain() -> Vec<MetadataPart> {
    let mut kv = KeyValData::new();
    kv.insert("license_id".to_string(), MetadataVal::TextContent("L1".to_string()));
    vec![MetadataPart { purpose: MetadataPurpose::Rendered, key_val_data: kv, data: vec![1, 2] }]
}

#[test]
fn new_ledger_is_empty() {
    let s = State::new();
    assert_eq!(s.total_supply(), 0);
    assert_eq!(s.txid(), 0);
    assert_eq!(s.symbol(), "");
    assert_eq!(s.balance_of(&user(1)), 0);
    assert_eq!(s.owner_of(0).map(|p| p.as_slice().to_vec()), Err(Error::InvalidTokenId));
    assert_eq!(s.name(0), "ID non trovato");
}

#[test]
fn mint_appends_tokens() {
    let mut s = State::new();
    let r = s.mint("first".to_string(), user(1), plain());
    assert_eq!(r, Ok(MintResult { token_id: 0, id: 0 }));
    let r = s.mint("second".to_string(), user(2), vec![]);
    assert_eq!(r, Ok(MintResult { token_id: 1, id: 1 }));
    assert_eq!(s.total_supply(), 2);
    assert_eq!(s.txid(), 2);
    assert_eq!(s.balance_of(&user(1)), 1);
    assert_eq!(s.balance_of(&user(2)), 1);
    assert_eq!(s.owner_of(1).unwrap().as_slice(), &[2, 2, 2]);
    assert_eq!(s.name(0), "first");
    assert_eq!(s.name(1), "second");
    assert_eq!(s.name(2), "ID non trovato");
}

#[test]
fn metadata_is_read_back() {
    let mut s = State::new();
    s.mint("a".to_string(), user(1), plain()).unwrap();
    s.mint("b".to_string(), user(2), expiring("01-01-2030")).unwrap();
    s.mint("c".to_string(), user(1), vec![]).unwrap();
    let m = s.get_metadata(0).unwrap();
    assert_eq!(m.len(), 1);
    assert_eq!(m[0].purpose, MetadataPurpose::Rendered);
    assert_eq!(m[0].data, vec![1, 2]);
    assert_eq!(
        m[0].key_val_data.get(&"license_id".to_string()),
        Some(&MetadataVal::TextContent("L1".to_string()))
    );
    assert!(s.get_metadata(3).is_err());
    let mine = s.get_metadata_for_user(&user(1));
    assert_eq!(mine.len(), 2);
    assert_eq!(mine[0].token_id, 0);
    assert_eq!(mine[0].metadata_desc.len(), 1);
    assert_eq!(mine[1].token_id, 2);
    assert_eq!(mine[1].metadata_desc.len(), 0);
    assert_eq!(s.get_metadata_for_user(&user(9)).len(), 0);
}

#[test]
fn transfer_by_owner() {
    let mut s = State::new();
    s.mint("a".to_string(), user(1), vec![]).unwrap();
    let r = s.transfer_from(&user(1), &user(1), user(2), 0);
    assert_eq!(r, Ok(1));
    assert_eq!(s.owner_of(0).unwrap().as_slice(), &[2, 2, 2]);
    assert_eq!(s.balance_of(&user(1)), 0);
    assert_eq!(s.balance_of(&user(2)), 1);
    assert_eq!(s.txid(), 2);
}

#[test]
fn transfer_errors() {
    let mut s = State::new();
    s.mint("a".to_string(), user(1), vec![]).unwrap();
    assert_eq!(s.transfer_from(&user(1), &user(1), user(2), 5), Err(Error::InvalidTokenId));
    assert_eq!(s.transfer_from(&user(3), &user(1), user(2), 0), Err(Error::Unauthorized));
    assert_eq!(s.transfer_from(&user(1), &user(3), user(2), 0), Err(Error::Other));
    assert_eq!(s.txid(), 1);
    assert_eq!(s.owner_of(0).unwrap().as_slice(), &[1, 1, 1]);
}

#[test]
fn safe_transfer_refuses_management_canister() {
    let mut s = State::new();
    s.mint("a".to_string(), user(1), vec![]).unwrap();
    let r = s.safe_transfer_from(&user(1), &user(1), Principal::management_canister(), 0);
    assert_eq!(r, Err(Error::ZeroAddress));
    assert_eq!(s.owner_of(0).unwrap().as_slice(), &[1, 1, 1]);
    let r = s.safe_transfer_from(&user(1), &user(1), user(2), 0);
    assert_eq!(r, Ok(1));
}

#[test]
fn approved_principal_may_transfer() {
    let mut s = State::new();
    s.mint("a".to_string(), user(1), vec![]).unwrap();
    assert_eq!(s._get_approved(&user(7), 0).unwrap().as_slice(), &[7, 7, 7]);
    assert_eq!(s.approve(&user(3), user(3), 0), Err(Error::Unauthorized));
    assert_eq!(s.approve(&user(1), user(3), 0), Ok(1));
    assert_eq!(s.approve(&user(1), user(3), 9), Err(Error::InvalidTokenId));
    assert_eq!(s._get_approved(&user(7), 0).unwrap().as_slice(), &[3, 3, 3]);
    assert!(s._get_approved(&user(7), 1).is_err());
    assert_eq!(s.transfer_from(&user(3), &user(1), user(4), 0), Ok(2));
    assert_eq!(s.owner_of(0).unwrap().as_slice(), &[4, 4, 4]);
    assert_eq!(s._get_approved(&user(7), 0).unwrap().as_slice(), &[7, 7, 7]);
}

#[test]
fn operators_act_for_all_tokens() {
    let mut s = State::new();
    s.mint("a".to_string(), user(1), vec![]).unwrap();
    assert!(!s.is_approved_for_all(&user(1), &user(5)));
    assert_eq!(s.set_approval_for_all(&user(1), user(5), true), Ok(1));
    assert!(s.is_approved_for_all(&user(1), &user(5)));
    assert_eq!(s.transfer_from(&user(5), &user(1), user(6), 0), Ok(2));
    assert_eq!(s.set_approval_for_all(&user(1), user(5), false), Ok(3));
    assert!(!s.is_approved_for_all(&user(1), &user(5)));
}

#[test]
fn management_canister_clears_operators() {
    let mut s = State::new();
    s.set_approval_for_all(&user(1), user(5), true).unwrap();
    s.set_approval_for_all(&user(1), user(6), true).unwrap();
    s.set_approval_for_all(&user(1), Principal::management_canister(), true).unwrap();
    assert!(s.is_approved_for_all(&user(1), &user(5)));
    assert!(!s.is_approved_for_all(&user(1), &Principal::management_canister()));
    s.set_approval_for_all(&user(1), Principal::management_canister(), false).unwrap();
    assert!(!s.is_approved_for_all(&user(1), &user(5)));
    assert!(!s.is_approved_for_all(&user(1), &user(6)));
    assert_eq!(s.set_approval_for_all(&user(1), user(1), true), Ok(4));
    assert!(!s.is_approved_for_all(&user(1), &user(1)));
}

#[test]
fn burn_gives_token_to_management_canister() {
    let mut s = State::new();
    s.mint("a".to_string(), user(1), vec![]).unwrap();
    assert_eq!(s.burn(3), Err(Error::InvalidTokenId));
    assert_eq!(s.burn(0), Ok(1));
    assert_eq!(s.owner_of(0).unwrap().as_slice(), &[] as &[u8]);
    assert_eq!(s.balance_of(&user(1)), 0);
    assert_eq!(s.total_supply(), 1);
}

#[test]
fn custodian_settings_need_a_custodian() {
    let mut s = State::new();
    assert!(!s.is_custodian(&user(1)));
    assert_eq!(s.set_name(&user(1), "n".to_string()), Err(Error::Unauthorized));
    assert_eq!(s.set_symbol(&user(1), "S".to_string()), Err(Error::Unauthorized));
    let logo = LogoResult { logo_type: "image/png".to_string(), data: "xyz".to_string() };
    assert_eq!(s.set_logo(&user(1), Some(logo)), Err(Error::Unauthorized));
    assert_eq!(s.set_custodian(&user(1), user(1), true), Err(Error::Unauthorized));
    assert!(!s.is_custodian(&user(1)));
    assert_eq!(s.symbol(), "");
    let default = LogoResult { logo_type: "image/png".to_string(), data: "default".to_string() };
    assert_eq!(s.logo(&default), &default);
}

#[test]
fn interfaces_are_declared() {
    assert_eq!(
        supported_interfaces(),
        vec![InterfaceId::TransferNotification, InterfaceId::Burn, InterfaceId::Mint]
    );
}

#[test]
fn expired_token_is_burned() {
    let mut s = State::new();
    s.mint("a".to_string(), user(1), expiring("01-06-2022")).unwrap();
    assert!(s.is_date_expired_nft(0, JAN_2023));
    assert_eq!(s.owner_of(0).unwrap().as_slice(), &[] as &[u8]);
    assert_eq!(s.txid(), 2);
    assert!(!s.is_date_expired_nft(0, JAN_2023));
    assert_eq!(s.txid(), 2);
}

#[test]
fn token_before_expiry_is_kept() {
    let mut s = State::new();
    s.mint("a".to_string(), user(1), expiring("01-06-2022")).unwrap();
    assert!(!s.is_date_expired_nft(0, JAN_2021));
    assert_eq!(s.owner_of(0).unwrap().as_slice(), &[1, 1, 1]);
    assert!(!s.is_date_expired_nft(7, JAN_2023));
}

#[test]
fn expiry_on_the_day_itself_is_kept() {
    let mut s = State::new();
    s.mint("a".to_string(), user(1), expiring("01-01-2023")).unwrap();
    assert!(!s.is_date_expired_nft(0, JAN_2023 + 3_600_000_000_000));
    assert_eq!(s.owner_of(0).unwrap().as_slice(), &[1, 1, 1]);
}

#[test]
fn placeholder_year_never_expires() {
    let mut s = State::new();
    let mut kv = KeyValData::new();
    kv.insert("expire_date".to_string(), MetadataVal::Nat8Content(3));
    let parts = vec![MetadataPart { purpose: MetadataPurpose::Preview, key_val_data: kv, data: vec![] }];
    s.mint("a".to_string(), user(1), parts).unwrap();
    s.mint("b".to_string(), user(1), expiring("05-05-1900")).unwrap();
    s.mint("c".to_string(), user(1), plain()).unwrap();
    assert!(!s.is_date_expired_nft(0, JAN_2023));
    assert!(!s.is_date_expired_nft(1, JAN_2023));
    assert!(!s.is_date_expired_nft(2, JAN_2023));
    assert_eq!(s.balance_of(&user(1)), 3);
}

#[test]
fn check_nfts_burns_every_expired_token() {
    let mut s = State::new();
    s.mint("a".to_string(), user(1), expiring("01-06-2022")).unwrap();
    s.mint("b".to_string(), user(1), expiring("01-06-2024")).unwrap();
    s.mint("c".to_string(), user(2), expiring("31-12-2021")).unwrap();
    s.mint("d".to_string(), user(2), plain()).unwrap();
    s.check_nfts(JAN_2023);
    assert_eq!(s.owner_of(0).unwrap().as_slice(), &[] as &[u8]);
    assert_eq!(s.owner_of(1).unwrap().as_slice(), &[1, 1, 1]);
    assert_eq!(s.owner_of(2).unwrap().as_slice(), &[] as &[u8]);
    assert_eq!(s.owner_of(3).unwrap().as_slice(), &[2, 2, 2]);
    assert_eq!(s.txid(), 6);
}

#[test]
fn checks_that_cannot_run_answer_none() {
    let mut s = State::new();
    s.mint("a".to_string(), user(1), expiring("2022-06-01")).unwrap();
    s.mint("b".to_string(), user(1), expiring("01-06-2022")).unwrap();
    assert_eq!(s.check_date_expired_nft(0, JAN_2023), None);
    assert!(!s.check_all_nfts(JAN_2023));
    assert_eq!(s.owner_of(1).unwrap().as_slice(), &[1, 1, 1]);
    assert_eq!(s.check_date_expired_nft(1, JAN_2023), Some(true));
    assert_eq!(s.check_date_expired_nft(9, JAN_2023), Some(false));
    assert_eq!(s.txid(), 3);
}

#[test]
fn check_all_nfts_runs_on_good_dates() {
    let mut s = State::new();
    s.mint("a".to_string(), user(1), expiring("01-06-2022")).unwrap();
    s.mint("b".to_string(), user(1), expiring("01-06-2024")).unwrap();
    assert!(s.check_all_nfts(JAN_2023));
    assert_eq!(s.owner_of(0).unwrap().as_slice(), &[] as &[u8]);
    assert_eq!(s.owner_of(1).unwrap().as_slice(), &[1, 1, 1]);
    assert_eq!(s.txid(), 3);
}
