use replica_map::broken::BrokenMap;
use replica_map::fixed::FixedMap;
use replica_map::predicates::{one_entry_per_key, same_entries};
use replica_map::version::Version;

fn v(counter: u32, replica: usize) -> Version {
    Version { counter, replica }
}

#[test]
fn put_sync_applied_twice_equals_once() {
    let mut once = FixedMap::new(0);
    once.set('k', 'A');
    let mut twice = once.clone();
    let ctx = vec![v(1, 0)];
    once.receive_set(&ctx, v(1, 1), 'k', 'B');
    twice.receive_set(&ctx, v(1, 1), 'k', 'B');
    twice.receive_set(&ctx, v(1, 1), 'k', 'B');
    assert_eq!(once, twice);
    assert_eq!(twice.get('k'), Some('B'));
}

#[test]
fn delete_sync_applied_twice_equals_once() {
    let mut once = FixedMap::new(0);
    once.set('k', 'A');
    let mut twice = once.clone();
    let ctx = vec![v(1, 0)];
    once.receive_delete(&ctx);
    twice.receive_delete(&ctx);
    twice.receive_delete(&ctx);
    assert_eq!(once, twice);
    assert_eq!(twice.get('k'), None);
}

#[test]
fn unrelated_sync_messages_commute() {
    let mut ab = FixedMap::new(9);
    ab.set('x', 'X');
    let mut ba = ab.clone();
    // Two causally unrelated puts for one key and an unrelated delete.
    ab.receive_set(&vec![], v(1, 0), 'k', 'A');
    ab.receive_set(&vec![], v(1, 1), 'k', 'B');
    ba.receive_set(&vec![], v(1, 1), 'k', 'B');
    ba.receive_set(&vec![], v(1, 0), 'k', 'A');
    assert!(same_entries(&ab.values(), &ba.values()));
    let del = vec![v(1, 9)];
    let mut abd = ab.clone();
    abd.receive_delete(&del);
    let mut dab = ba.clone();
    dab.receive_delete(&del);
    assert!(same_entries(&abd.values(), &dab.values()));
}

#[test]
fn convergence_is_order_and_duplication_insensitive() {
    // Three causally unrelated messages, delivered in different orders and
    // once with a duplicate: the entry sets agree.
    let mk = || {
        let mut m = FixedMap::new(9);
        m.set('x', 'X');
        m
    };
    let mut first = mk();
    first.receive_set(&vec![], v(1, 0), 'k', 'A');
    first.receive_set(&vec![], v(1, 1), 'k', 'B');
    first.receive_delete(&vec![v(5, 7)]);
    let mut second = mk();
    second.receive_delete(&vec![v(5, 7)]);
    second.receive_set(&vec![], v(1, 1), 'k', 'B');
    second.receive_set(&vec![], v(1, 0), 'k', 'A');
    let mut third = mk();
    third.receive_set(&vec![], v(1, 1), 'k', 'B');
    third.receive_set(&vec![], v(1, 0), 'k', 'A');
    third.receive_set(&vec![], v(1, 1), 'k', 'B');
    third.receive_delete(&vec![v(5, 7)]);
    assert!(same_entries(&first.values(), &second.values()));
    assert!(same_entries(&first.values(), &third.values()));
}

#[test]
fn unsafe_variant_is_order_sensitive() {
    // A delete that names a version, raced against the put that issued it:
    // under the last-writer-wins rule the outcome depends on the order.
    let t = v(1, 0);
    let mut put_first = BrokenMap::new(9);
    put_first.receive_set(&vec![], t, 'k', 'A');
    put_first.receive_delete(&vec![t]);
    let mut delete_first = BrokenMap::new(9);
    delete_first.receive_delete(&vec![t]);
    delete_first.receive_set(&vec![], t, 'k', 'A');
    assert_eq!(put_first.get('k'), None);
    assert_eq!(delete_first.get('k'), Some('A'));
    assert!(!same_entries(&put_first.values(), &delete_first.values()));
}

#[test]
fn received_put_is_immediately_readable() {
    let mut m = FixedMap::new(0);
    let (_, t) = m.set('k', 'A');
    m.receive_set(&vec![t], v(4, 1), 'k', 'B');
    assert_eq!(m.get('k'), Some('B'));
}

#[test]
fn safe_variant_keeps_one_entry_per_key_when_contexts_cover() {
    let mut m = FixedMap::new(0);
    let (_, t1) = m.set('k', 'A');
    m.set('j', 'J');
    m.receive_set(&vec![t1], v(7, 1), 'k', 'B');
    assert!(one_entry_per_key(&m.values()));
    m.receive_delete(&vec![v(7, 1)]);
    assert!(one_entry_per_key(&m.values()));
}

#[test]
fn concurrent_puts_leave_two_entries_for_one_key() {
    // A put sync whose context misses a concurrent write for the same key
    // leaves both entries in place; the lookup still resolves to the
    // greater version.
    let mut m = FixedMap::new(0);
    m.set('k', 'A');
    m.receive_set(&vec![], v(1, 1), 'k', 'B');
    assert_eq!(m.values().len(), 2);
    assert!(!one_entry_per_key(&m.values()));
    assert_eq!(m.get('k'), Some('B'));
}
