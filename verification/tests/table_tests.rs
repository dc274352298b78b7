use shm_kv::table::HashTable;

#[test]
fn insert_then_read() {
    // For every key k, once Insert(k, k*k) is processed, Read(k) yields k*k.
    let n: usize = 256;
    let mut t = HashTable::new(500);
    for k in 0..n {
        t.insert(k, k * k);
    }
    for k in 0..n {
        assert_eq!(t.read(k), Some(k * k));
    }
}

#[test]
fn read_of_missing_key_fails() {
    let t = HashTable::new(1000);
    assert_eq!(t.read(123), None);
}

#[test]
fn delete_then_read() {
    let mut t = HashTable::new(1000);
    t.insert(7, 49);
    assert_eq!(t.read(7), Some(49));
    t.delete(7);
    assert_eq!(t.read(7), None);
}

#[test]
fn duplicate_keys_read_first_and_delete_both() {
    // Bag variant: the first inserted value is the canonical read, and one
    // delete removes every pair of the key.
    let mut t = HashTable::new(1000);
    t.insert(2, 4);
    t.insert(2, 8);
    assert_eq!(t.read(2), Some(4));
    t.delete(2);
    assert_eq!(t.read(2), None);
}

#[test]
fn distinct_keys_do_not_disturb_each_other() {
    // Distinct keys over the whole table: exactly the inserted value per key,
    // no loss, no cross-talk.
    let n: usize = 1000;
    let mut t = HashTable::new(15);
    for k in 0..n {
        t.insert(k, k + 1);
    }
    for k in 0..n {
        assert_eq!(t.read(k), Some(k + 1));
    }
    t.delete(500);
    assert_eq!(t.read(500), None);
    assert_eq!(t.read(499), Some(500));
    assert_eq!(t.read(501), Some(502));
}

#[test]
fn single_bucket_chains() {
    // Every key collides in a one-bucket table; chaining still resolves them.
    let mut t = HashTable::new(1);
    t.insert(10, 100);
    t.insert(11, 110);
    t.insert(12, 120);
    assert_eq!(t.read(10), Some(100));
    assert_eq!(t.read(11), Some(110));
    assert_eq!(t.read(12), Some(120));
    t.delete(11);
    assert_eq!(t.read(11), None);
    assert_eq!(t.read(10), Some(100));
    assert_eq!(t.read(12), Some(120));
}

#[test]
fn empty_table_reads_nothing() {
    let t = HashTable::new(1);
    assert_eq!(t.read(0), None);
}

#[test]
fn bucket_entries_in_and_out_of_range() {
    let mut t = HashTable::new(4);
    assert_eq!(t.bucket_count(), 4);
    // Key 6 lands in bucket 6 % 4 == 2.
    t.insert(6, 60);
    t.insert(2, 20);
    let entries = t.bucket_entries(2).unwrap();
    assert_eq!(entries, vec![(6, 60), (2, 20)]);
    assert!(t.bucket_entries(4).is_none());
    assert!(t.bucket_entries(0).unwrap().is_empty());
}
