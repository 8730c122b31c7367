use sysjack::store::NamedStore;

#[test]
fn a_new_store_binds_nothing() {
    let store: NamedStore<u64> = NamedStore::new();
    assert_eq!(store.get(&"a".to_owned()), None);
    assert_eq!(store.get(&String::new()), None);
}

#[test]
fn a_bound_name_reads_back() {
    let mut store: NamedStore<u64> = NamedStore::new();
    store.bind("a".to_owned(), 1);
    store.bind("b".to_owned(), 2);
    assert_eq!(store.get(&"a".to_owned()), Some(1));
    assert_eq!(store.get(&"b".to_owned()), Some(2));
    assert_eq!(store.get(&"c".to_owned()), None);
}

#[test]
fn the_last_binding_wins() {
    let mut store: NamedStore<u64> = NamedStore::new();
    store.bind("a".to_owned(), 1);
    store.bind("b".to_owned(), 2);
    store.bind("a".to_owned(), 3);
    assert_eq!(store.get(&"a".to_owned()), Some(3));
    assert_eq!(store.get(&"b".to_owned()), Some(2));
    store.bind("b".to_owned(), 4);
    store.bind("a".to_owned(), 5);
    assert_eq!(store.get(&"a".to_owned()), Some(5));
    assert_eq!(store.get(&"b".to_owned()), Some(4));
}

#[test]
fn names_differ_by_every_character() {
    let mut store: NamedStore<u64> = NamedStore::new();
    store.bind("ret".to_owned(), 1);
    store.bind("Ret".to_owned(), 2);
    store.bind("ret ".to_owned(), 3);
    store.bind(String::new(), 4);
    assert_eq!(store.get(&"ret".to_owned()), Some(1));
    assert_eq!(store.get(&"Ret".to_owned()), Some(2));
    assert_eq!(store.get(&"ret ".to_owned()), Some(3));
    assert_eq!(store.get(&String::new()), Some(4));
    assert_eq!(store.get(&"re".to_owned()), None);
}
