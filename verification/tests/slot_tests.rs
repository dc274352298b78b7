use shm_kv::ops::Operation;
use shm_kv::slots::{MessageField, ServerAction, THREAD_NUM};
use shm_kv::table::HashTable;

#[test]
fn insert_then_read_round_trip() {
    // Bucket count 1000; Insert(7, 49) then Read(7) answers Value(49).
    let mut f = MessageField::new();
    let mut ht = HashTable::new(1000);
    let mut ctr: usize = 0;
    assert!(f.put_work(Operation::Insert(7, 49), 0, 0));
    assert!(matches!(f.get_work(&mut ht, &mut ctr, 0), ServerAction::Done));
    assert_eq!(ctr, 1);
    assert!(f.put_work(Operation::Read(7), 1, 0));
    assert!(matches!(f.get_work(&mut ht, &mut ctr, 0), ServerAction::Replied));
    assert_eq!(f.pick_up_result(0), Some(Operation::Value(49)));
}

#[test]
fn read_without_insert_fails() {
    // Bucket count 1000; Read(123) with no prior insert answers Fail.
    let mut f = MessageField::new();
    let mut ht = HashTable::new(1000);
    let mut ctr: usize = 0;
    assert!(f.put_work(Operation::Read(123), 0, 0));
    assert!(matches!(f.get_work(&mut ht, &mut ctr, 0), ServerAction::Replied));
    assert_eq!(f.pick_up_result(0), Some(Operation::Fail));
}

#[test]
fn bag_insert_twice_delete_once_then_read_fails() {
    // Insert(2, 4), Insert(2, 8), Delete(2), Read(2) answers Fail.
    let mut f = MessageField::new();
    let mut ht = HashTable::new(1000);
    let mut ctr: usize = 0;
    let requests = [
        Operation::Insert(2, 4),
        Operation::Insert(2, 8),
        Operation::Delete(2),
        Operation::Read(2),
    ];
    for (i, op) in requests.iter().enumerate() {
        assert!(f.put_work(*op, i, 0));
        let a = f.get_work(&mut ht, &mut ctr, 0);
        assert!(!matches!(a, ServerAction::Idle));
    }
    assert_eq!(f.pick_up_result(0), Some(Operation::Fail));
}

#[test]
fn slot_exclusivity_fire_and_forget() {
    // A claimed slot refuses a second put until the worker consumes it.
    let mut f = MessageField::new();
    let mut ht = HashTable::new(100);
    let mut ctr: usize = 0;
    assert!(f.put_work(Operation::Insert(1, 10), 0, 3));
    assert!(!f.put_work(Operation::Insert(2, 20), 1, 3));
    assert!(matches!(f.get_work(&mut ht, &mut ctr, 3), ServerAction::Done));
    assert!(f.put_work(Operation::Insert(2, 20), 1, 3));
}

#[test]
fn slot_exclusivity_read_holds_until_pick_up() {
    // A served Read keeps the slot busy until the client picks the result up.
    let mut f = MessageField::new();
    let mut ht = HashTable::new(100);
    let mut ctr: usize = 0;
    assert!(f.put_work(Operation::Read(5), 0, 2));
    assert!(matches!(f.get_work(&mut ht, &mut ctr, 2), ServerAction::Replied));
    assert!(!f.put_work(Operation::Read(6), 1, 2));
    assert_eq!(f.pick_up_result(2), Some(Operation::Fail));
    assert!(f.put_work(Operation::Read(6), 1, 2));
}

#[test]
fn sequence_gate_defers_stale_work() {
    // Work stamped ahead of the observed counter is left pending.
    let mut f = MessageField::new();
    let mut ht = HashTable::new(100);
    let mut ctr: usize = 0;
    assert!(f.put_work(Operation::Insert(1, 10), 5, 0));
    assert!(matches!(f.get_work(&mut ht, &mut ctr, 0), ServerAction::Idle));
    assert_eq!(ctr, 0);
    assert_eq!(ht.read(1), None);
}

#[test]
fn sequence_gate_orders_two_slots() {
    // The worker of slot 1 must wait until slot 0's earlier stamp is served.
    let mut f = MessageField::new();
    let mut ht = HashTable::new(100);
    let mut ctr: usize = 0;
    assert!(f.put_work(Operation::Insert(1, 10), 0, 0));
    assert!(f.put_work(Operation::Insert(2, 20), 1, 1));
    assert!(matches!(f.get_work(&mut ht, &mut ctr, 1), ServerAction::Idle));
    assert!(matches!(f.get_work(&mut ht, &mut ctr, 0), ServerAction::Done));
    assert!(matches!(f.get_work(&mut ht, &mut ctr, 1), ServerAction::Done));
    assert_eq!(ht.read(1), Some(10));
    assert_eq!(ht.read(2), Some(20));
}

#[test]
fn quit_tells_the_server_to_exit() {
    // A Quit is answered with the exit action and changes nothing; until the
    // process obeys, the slot still holds the Quit.
    let mut f = MessageField::new();
    let mut ht = HashTable::new(100);
    let mut ctr: usize = 0;
    assert!(f.put_work(Operation::Quit, 0, 0));
    assert!(matches!(f.get_work(&mut ht, &mut ctr, 0), ServerAction::Quit));
    assert_eq!(ctr, 0);
    assert_eq!(f.pick_up_result(0), None);
    assert!(matches!(f.get_work(&mut ht, &mut ctr, 0), ServerAction::Quit));
}

#[test]
fn print_returns_bucket_contents() {
    let mut f = MessageField::new();
    let mut ht = HashTable::new(4);
    let mut ctr: usize = 0;
    assert!(f.put_work(Operation::Insert(6, 60), 0, 0));
    assert!(matches!(f.get_work(&mut ht, &mut ctr, 0), ServerAction::Done));
    // Key 6 lands in bucket 6 % 4 == 2.
    assert!(f.put_work(Operation::Print(2), 1, 0));
    match f.get_work(&mut ht, &mut ctr, 0) {
        ServerAction::Output(Some(entries)) => assert_eq!(entries, vec![(6, 60)]),
        other => panic!("expected bucket contents, got {:?}", other),
    }
    // An out-of-range index reports no bucket and leaves the counter alone.
    assert!(f.put_work(Operation::Print(9), 2, 0));
    assert!(matches!(f.get_work(&mut ht, &mut ctr, 0), ServerAction::Output(None)));
    assert_eq!(ctr, 2);
}

#[test]
fn pick_up_on_idle_slot_returns_nothing() {
    let mut f = MessageField::new();
    for id in 0..THREAD_NUM {
        assert_eq!(f.pick_up_result(id), None);
    }
}

#[test]
fn key_slices_per_slot_round_trip() {
    // Four client threads' worth of slots, each handling its own key slice;
    // every Insert(k, k*k) followed by a Read(k) on the same slot yields
    // Value(k*k), never Fail.
    let slice: usize = 250;
    let mut f = MessageField::new();
    let mut ht = HashTable::new(500);
    let mut ctr: usize = 0;
    let mut stamp: usize = 0;
    for t in 0..4 {
        for k in (t * slice)..((t + 1) * slice) {
            assert!(f.put_work(Operation::Insert(k, k * k), stamp, t));
            assert!(matches!(f.get_work(&mut ht, &mut ctr, t), ServerAction::Done));
            stamp += 1;
            assert!(f.put_work(Operation::Read(k), stamp, t));
            assert!(matches!(f.get_work(&mut ht, &mut ctr, t), ServerAction::Replied));
            stamp += 1;
            assert_eq!(f.pick_up_result(t), Some(Operation::Value(k * k)));
        }
    }
}

#[test]
fn each_slot_serves_its_own_pair() {
    // Every client/worker pair works its own slot; none disturbs another.
    let mut f = MessageField::new();
    let mut ht = HashTable::new(64);
    let mut ctr: usize = 0;
    let mut stamp: usize = 0;
    for id in 0..THREAD_NUM {
        assert!(f.put_work(Operation::Insert(id, id * id), stamp, id));
        assert!(matches!(f.get_work(&mut ht, &mut ctr, id), ServerAction::Done));
        stamp += 1;
    }
    for id in 0..THREAD_NUM {
        assert!(f.put_work(Operation::Read(id), stamp, id));
        assert!(matches!(f.get_work(&mut ht, &mut ctr, id), ServerAction::Replied));
        stamp += 1;
        assert_eq!(f.pick_up_result(id), Some(Operation::Value(id * id)));
    }
}
