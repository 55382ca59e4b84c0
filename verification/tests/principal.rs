use contract_marketplace::principal::Principal;

#[test]
fn principals_compare_by_key() {
    let a = Principal::from_str("GALICE");
    let b = Principal::new(String::from("GALICE"));
    let c = Principal::from_str("GBOB");
    assert_eq!(a, b);
    assert_ne!(a, c);
    assert_eq!(a.clone().as_str(), "GALICE");
}
