use replica_map::broken::BrokenMap;
use replica_map::fixed::FixedMap;
use replica_map::version::{Entry, Version};

fn v(counter: u32, replica: usize) -> Version {
    Version { counter, replica }
}

fn e(counter: u32, replica: usize, key: char, value: char) -> Entry {
    Entry { version: v(counter, replica), key, value }
}

#[test]
fn fixed_new_is_empty() {
    let m = FixedMap::new(0);
    assert_eq!(m.get('k'), None);
    assert_eq!(m.values(), Vec::<Entry>::new());
}

#[test]
fn fixed_set_then_get() {
    let mut m = FixedMap::new(0);
    let (ctx, t) = m.set('k', 'A');
    assert_eq!(ctx, Vec::<Version>::new());
    assert_eq!(t, v(1, 0));
    assert_eq!(m.get('k'), Some('A'));
    assert_eq!(m.get('x'), None);
    assert_eq!(m.values(), vec![e(1, 0, 'k', 'A')]);
}

#[test]
fn fixed_second_set_supersedes_first() {
    let mut m = FixedMap::new(7);
    let (_, t1) = m.set('k', 'A');
    let (ctx, t2) = m.set('k', 'B');
    assert_eq!(ctx, vec![t1]);
    assert_eq!(t2, v(2, 7));
    assert_eq!(m.get('k'), Some('B'));
    assert_eq!(m.values(), vec![e(2, 7, 'k', 'B')]);
}

#[test]
fn fixed_delete_absent_is_noop() {
    let mut m = FixedMap::new(0);
    m.set('k', 'A');
    assert_eq!(m.delete('x'), None);
    assert_eq!(m.get('k'), Some('A'));
}

#[test]
fn fixed_delete_returns_superseded_versions() {
    let mut m = FixedMap::new(0);
    let (_, t) = m.set('k', 'A');
    assert_eq!(m.delete('k'), Some(vec![t]));
    assert_eq!(m.get('k'), None);
    assert_eq!(m.values(), Vec::<Entry>::new());
}

#[test]
fn fixed_receive_set_inserts_and_removes_context() {
    let mut m = FixedMap::new(0);
    let (_, t) = m.set('k', 'A');
    m.receive_set(&vec![t], v(1, 1), 'k', 'B');
    assert_eq!(m.get('k'), Some('B'));
    assert_eq!(m.values(), vec![e(1, 1, 'k', 'B')]);
}

#[test]
fn fixed_receive_delete_removes_context_members_only() {
    let mut m = FixedMap::new(0);
    let (_, ta) = m.set('a', 'A');
    let (_, tb) = m.set('b', 'B');
    m.receive_delete(&vec![ta, v(9, 9)]);
    assert_eq!(m.get('a'), None);
    assert_eq!(m.get('b'), Some('B'));
    assert_eq!(m.values(), vec![e(tb.counter, 0, 'b', 'B')]);
}

#[test]
fn fixed_counter_advances_past_observed_versions() {
    let mut m = FixedMap::new(0);
    m.receive_set(&vec![], v(5, 1), 'k', 'A');
    let (_, t) = m.set('k', 'B');
    assert_eq!(t, v(6, 0));
    let mut d = FixedMap::new(2);
    d.receive_delete(&vec![v(3, 1), v(7, 1)]);
    let (_, t2) = d.set('k', 'C');
    assert_eq!(t2, v(8, 2));
}

#[test]
fn broken_set_then_get() {
    let mut m = BrokenMap::new(0);
    let (ctx, t) = m.set('k', 'A');
    assert_eq!(ctx, Vec::<Version>::new());
    assert_eq!(t, v(1, 0));
    assert_eq!(m.get('k'), Some('A'));
}

#[test]
fn broken_set_discards_superseded_version() {
    let mut m = BrokenMap::new(0);
    m.set('k', 'A');
    let (ctx, t2) = m.set('k', 'B');
    assert_eq!(ctx, Vec::<Version>::new());
    assert_eq!(t2, v(2, 0));
    assert_eq!(m.get('k'), Some('B'));
    assert_eq!(m.values(), vec![e(2, 0, 'k', 'B')]);
}

#[test]
fn broken_delete_names_single_version() {
    let mut m = BrokenMap::new(0);
    let (_, t) = m.set('k', 'A');
    assert_eq!(m.delete('k'), Some(vec![t]));
    assert_eq!(m.delete('k'), None);
}

#[test]
fn broken_receive_set_applies_only_newer_versions() {
    let mut m = BrokenMap::new(0);
    m.receive_set(&vec![], v(2, 1), 'k', 'B');
    m.receive_set(&vec![], v(1, 1), 'k', 'A');
    assert_eq!(m.get('k'), Some('B'));
    m.receive_set(&vec![], v(3, 1), 'k', 'C');
    assert_eq!(m.get('k'), Some('C'));
    assert_eq!(m.values(), vec![e(3, 1, 'k', 'C')]);
}

#[test]
fn broken_receive_delete_removes_exact_version_only() {
    let mut m = BrokenMap::new(0);
    let (_, t) = m.set('k', 'A');
    m.receive_delete(&vec![v(9, 9)]);
    assert_eq!(m.get('k'), Some('A'));
    m.receive_delete(&vec![t]);
    assert_eq!(m.get('k'), None);
}
