use license_manager::licenses::{get_my_principal, get_self, License, LicenseRegistry, LicenseStore};
use license_manager::principal::Principal;

fn license(id: &str, duration: u64) -> License {
    License {
        id: id.to_string(),
        name: format!("{} name", id),
        description: format!("{} description", id),
        price_bits: 10.0f64.to_bits(),
        perpetual: duration == 0,
        duration,
        transferable: false,
        transfer_commission_bits: 0.5f64.to_bits(),
    }
}

fn is_default(l: &License) -> bool {
    l.id.is_empty()
        && l.name.is_empty()
        && l.description.is_empty()
        && l.price_bits == 0
        && !l.perpetual
        && l.duration == 0
        && !l.transferable
        && l.transfer_commission_bits == 0
}

fn alice() -> Principal {
    Principal::from_slice(&[10, 20, 30])
}

fn bob() -> Principal {
    Principal::from_slice(&[40, 50, 60])
}

#[test]
fn principal_texts() {
    assert_eq!(Principal::anonymous().to_text(), "2vxsx-fae");
    assert_eq!(Principal::management_canister().to_text(), "aaaaa-aa");
    let p = Principal::from_text("2vxsx-fae").unwrap();
    assert_eq!(p.as_slice(), &[4]);
    assert!(Principal::from_text("not a principal").is_none());
    let a = alice();
    let back = Principal::from_text(&a.to_text()).unwrap();
    assert!(back.same_as(&a));
    assert_eq!(get_my_principal(&Principal::anonymous()), "2vxsx-fae");
}

#[test]
fn principal_bytes() {
    assert!(Principal::try_from_slice(&[0u8; 30]).is_none());
    assert_eq!(Principal::try_from_slice(&[7u8; 29]).unwrap().as_slice(), &[7u8; 29]);
    assert!(alice().same_as(&alice().duplicate()));
    assert!(!alice().same_as(&bob()));
    assert!(!Principal::anonymous().same_as(&Principal::management_canister()));
}

#[test]
fn get_self_is_default() {
    assert!(is_default(&get_self()));
    assert!(is_default(&License::default()));
}

#[test]
fn empty_registry_answers_default() {
    let r = LicenseRegistry::new();
    assert!(is_default(&r.get("L1".to_string())));
    assert!(is_default(&r.get_single("L1".to_string())));
    assert_eq!(r.list_products().len(), 0);
}

#[test]
fn update_then_get() {
    let mut r = LicenseRegistry::new();
    let answer = r.update(&alice(), license("L1", 365));
    assert_eq!(answer, alice().to_text());
    let got = r.get("L1".to_string());
    assert_eq!(got.id, "L1");
    assert_eq!(got.name, "L1 name");
    assert_eq!(got.duration, 365);
    assert_eq!(got.price_bits, 10.0f64.to_bits());
    assert!(is_default(&r.get("l1".to_string())));
}

#[test]
fn update_by_the_same_principal_replaces() {
    let mut r = LicenseRegistry::new();
    r.update(&alice(), license("L1", 365));
    let answer = r.update(&alice(), license("L1", 30));
    assert_eq!(answer, alice().to_text());
    assert_eq!(r.get("L1".to_string()).duration, 30);
    assert_eq!(r.list_products().len(), 1);
}

#[test]
fn update_of_a_taken_id_is_refused() {
    let mut r = LicenseRegistry::new();
    r.update(&alice(), license("L1", 365));
    let answer = r.update(&bob(), license("L1", 1));
    assert_eq!(answer, "Non puoi caricare un ID gi?? preso da un altro account");
    assert_eq!(r.get("L1".to_string()).duration, 365);
    assert_eq!(r.update(&bob(), license("L2", 1)), bob().to_text());
}

#[test]
fn anonymous_upload_is_noted() {
    let mut r = LicenseRegistry::new();
    let answer = r.update(&Principal::anonymous(), license("L9", 0));
    assert_eq!(answer, "Eri anonimo: 2vxsx-fae");
}

#[test]
fn products_come_in_id_order() {
    let mut r = LicenseRegistry::new();
    r.update(&alice(), license("b", 1));
    r.update(&alice(), license("B", 2));
    r.update(&alice(), license("a", 3));
    r.update(&alice(), license("ab", 4));
    r.update(&alice(), license("", 5));
    let ids: Vec<String> = r.list_products().into_iter().map(|l| l.id).collect();
    assert_eq!(ids, vec!["", "B", "a", "ab", "b"]);
}

#[test]
fn get_single_ignores_case() {
    let mut r = LicenseRegistry::new();
    r.update(&alice(), license("Pro", 1));
    r.update(&alice(), license("PRO", 2));
    r.update(&alice(), license("basic", 3));
    assert_eq!(r.get_single("pro".to_string()).duration, 2);
    assert_eq!(r.get_single("BASIC".to_string()).duration, 3);
    assert!(is_default(&r.get_single("premium".to_string())));
}

#[test]
fn store_keeps_order_and_replaces() {
    let mut s = LicenseStore::new();
    s.insert(license("m", 1));
    s.insert(license("c", 2));
    s.insert(license("x", 3));
    s.insert(license("c", 4));
    let ids: Vec<&str> = s.licenses().iter().map(|l| l.id.as_str()).collect();
    assert_eq!(ids, vec!["c", "m", "x"]);
    assert_eq!(s.licenses()[0].duration, 4);
    assert_eq!(s.position("x"), Some(2));
    assert_eq!(s.position("q"), None);
}

#[test]
fn duplicate_copies_every_field() {
    let l = license("L1", 12);
    let d = l.duplicate();
    assert_eq!(d.id, l.id);
    assert_eq!(d.name, l.name);
    assert_eq!(d.description, l.description);
    assert_eq!(d.price_bits, l.price_bits);
    assert_eq!(d.perpetual, l.perpetual);
    assert_eq!(d.duration, l.duration);
    assert_eq!(d.transferable, l.transferable);
    assert_eq!(d.transfer_commission_bits, l.transfer_commission_bits);
}
