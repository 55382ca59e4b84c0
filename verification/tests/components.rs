use contract_marketplace::allocator::IdAllocator;
use contract_marketplace::guard::UniquenessGuard;
use contract_marketplace::index::SecondaryIndex;
use contract_marketplace::key::Key;
use contract_marketplace::principal::{Principal, ScopeKey};
use contract_marketplace::table::Table;
use contract_marketplace::text::{char_count, clone_texts, contains_text};

#[test]
fn allocator_counts_up_from_one() {
    let mut ids = IdAllocator::new();
    assert_eq!(ids.current(), 0);
    assert!(!ids.exhausted());
    assert_eq!(ids.next_id(), 1);
    assert_eq!(ids.next_id(), 2);
    assert_eq!(ids.next_id(), 3);
    assert_eq!(ids.current(), 3);
}

#[test]
fn table_binds_each_key_once() {
    let mut t: Table<u32, String> = Table::new();
    assert_eq!(t.get(&1), None);
    t.insert(1, String::from("one"));
    t.insert(2, String::from("two"));
    assert_eq!(t.get(&1), Some(&String::from("one")));
    t.insert(1, String::from("uno"));
    assert_eq!(t.get(&1), Some(&String::from("uno")));
    assert_eq!(t.get(&2), Some(&String::from("two")));
    assert_eq!(t.get(&3), None);
    assert_eq!(t.keys(), vec![1, 2]);
}

#[test]
fn table_keys_can_be_principals() {
    let mut t: Table<Principal, u32> = Table::new();
    t.insert(Principal::from_str("GA"), 1);
    t.insert(Principal::from_str("GB"), 2);
    t.insert(Principal::from_str("GA"), 3);
    assert_eq!(t.get(&Principal::from_str("GA")), Some(&3));
    assert_eq!(t.get(&Principal::from_str("GB")), Some(&2));
    assert_eq!(t.get(&Principal::from_str("G")), None);
    assert_eq!(t.keys().len(), 2);
}

#[test]
fn index_lists_in_order_of_filing() {
    let mut index: SecondaryIndex<u32> = SecondaryIndex::new();
    assert_eq!(index.list(&7), Vec::<u32>::new());
    index.append(&7, 1);
    index.append(&8, 2);
    index.append(&7, 3);
    index.append(&7, 1);
    assert_eq!(index.list(&7), vec![1, 3, 1]);
    assert_eq!(index.list(&8), vec![2]);
    assert_eq!(index.list(&9), Vec::<u32>::new());
}

#[test]
fn guard_marks_for_good() {
    let mut guard: UniquenessGuard<ScopeKey> = UniquenessGuard::new();
    let key = |id: u32, who: &str| ScopeKey { id, principal: Principal::from_str(who) };
    assert!(!guard.check(&key(1, "GA")));
    guard.mark(key(1, "GA"));
    assert!(guard.check(&key(1, "GA")));
    assert!(!guard.check(&key(2, "GA")));
    assert!(!guard.check(&key(1, "GB")));
    guard.mark(key(1, "GA"));
    guard.mark(key(2, "GA"));
    assert!(guard.check(&key(1, "GA")));
    assert!(guard.check(&key(2, "GA")));
    let marked = guard.list();
    assert_eq!(marked.len(), 2);
    assert!(marked.iter().any(|k| k.same(&key(1, "GA"))));
    assert!(marked.iter().any(|k| k.same(&key(2, "GA"))));
}

#[test]
fn keys_compare_by_identity() {
    assert!(5u32.same(&5));
    assert!(!5u32.same(&6));
    assert_eq!(5u32.duplicate(), 5);
    let a = ScopeKey { id: 1, principal: Principal::from_str("GA") };
    assert!(a.same(&a.duplicate()));
    assert!(!a.same(&ScopeKey { id: 2, principal: Principal::from_str("GA") }));
    assert!(!a.same(&ScopeKey { id: 1, principal: Principal::from_str("GB") }));
    assert!(Principal::from_str("GA").same(&Principal::from_str("GA")));
    assert!(!Principal::from_str("GA").same(&Principal::from_str("Ga")));
}

#[test]
fn texts_are_measured_in_characters() {
    assert_eq!(char_count(&String::new()), 0);
    assert_eq!(char_count(&String::from("abc")), 3);
    assert_eq!(char_count(&String::from("héllo")), 5);
    let v = vec![String::from("a"), String::from("bc")];
    assert_eq!(clone_texts(&v), v);
    assert!(contains_text(&v, &String::from("bc")));
    assert!(!contains_text(&v, &String::from("b")));
    assert!(!contains_text(&Vec::new(), &String::new()));
}
