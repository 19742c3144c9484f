//! The pure predicates the verification harness evaluates over replica
//! snapshots: pairwise equality of entry sets, at most one entry per key,
//! and in-sync-at-quiescence.

use vstd::prelude::*;

use crate::peer::RegisterMsg;
use crate::store::{contains_entry, same_contents, unique_keys_in};
use crate::version::Entry;

verus! {

/// Whether two snapshots hold the same entries, ignoring order.
pub fn same_entries(a: &Vec<Entry>, b: &Vec<Entry>) -> (r: bool)
    ensures
        r == same_contents(a@, b@),
{
    let mut i: usize = 0;
    while i < a.len()
        invariant
            0 <= i <= a@.len(),
            forall|k: int| 0 <= k < i ==> b@.contains(#[trigger] a@[k]),
        decreases a@.len() - i,
    {
        if !contains_entry(b, &a[i]) {
            return false;
        }
        i = i + 1;
    }
    let mut j: usize = 0;
    while j < b.len()
        invariant
            0 <= j <= b@.len(),
            forall|k: int| 0 <= k < a@.len() ==> b@.contains(#[trigger] a@[k]),
            forall|k: int| 0 <= k < j ==> a@.contains(#[trigger] b@[k]),
        decreases b@.len() - j,
    {
        if !contains_entry(a, &b[j]) {
            return false;
        }
        j = j + 1;
    }
    proof {
        assert forall|e: Entry| a@.contains(e) implies b@.contains(e) by {
            let k = choose|k: int| 0 <= k < a@.len() && a@[k] == e;
        }
        assert forall|e: Entry| b@.contains(e) implies a@.contains(e) by {
            let k = choose|k: int| 0 <= k < b@.len() && b@[k] == e;
        }
    }
    true
}

/// All snapshots hold the same entries.
pub open spec fn all_same(snaps: Seq<Seq<Entry>>) -> bool {
    forall|i: int, j: int|
        0 <= i < snaps.len() && 0 <= j < snaps.len() ==> same_contents(
            #[trigger] snaps[i],
            #[trigger] snaps[j],
        )
}

/// Whether every snapshot holds the same entries as every other.
pub fn all_same_entries(snaps: &Vec<Vec<Entry>>) -> (r: bool)
    ensures
        r == all_same(snaps@.map_values(|v: Vec<Entry>| v@)),
{
    let ghost model = snaps@.map_values(|v: Vec<Entry>| v@);
    let mut i: usize = 1;
    while i < snaps.len()
        invariant
            1 <= i <= model.len() || model.len() == 0,
            model == snaps@.map_values(|v: Vec<Entry>| v@),
            forall|p: int, q: int|
                0 <= p < i && 0 <= q < i ==> same_contents(
                    #[trigger] model[p],
                    #[trigger] model[q],
                ),
        decreases snaps@.len() - i,
    {
        if !same_entries(&snaps[i - 1], &snaps[i]) {
            proof {
                assert(!same_contents(model[i - 1], model[i as int]));
            }
            return false;
        }
        proof {
            assert forall|p: int, q: int|
                0 <= p < i + 1 && 0 <= q < i + 1 implies same_contents(
                #[trigger] model[p],
                #[trigger] model[q],
            ) by {
                assert(same_contents(model[i - 1], model[i as int]));
                if p == i && q < i {
                    assert(same_contents(model[q], model[i - 1]));
                } else if q == i && p < i {
                    assert(same_contents(model[p], model[i - 1]));
                }
            }
        }
        i = i + 1;
    }
    true
}

/// Some message still in flight is a sync message of the internal
/// protocol.
pub open spec fn has_sync_in_flight(msgs: Seq<RegisterMsg>) -> bool {
    exists|i: int| 0 <= i < msgs.len() && (#[trigger] msgs[i]) is Internal
}

/// The in-sync-at-quiescence property: once no sync message is in flight,
/// every replica snapshot must hold the same entries.
pub fn quiescent_in_sync(msgs: &Vec<RegisterMsg>, snaps: &Vec<Vec<Entry>>) -> (r: bool)
    ensures
        r == (has_sync_in_flight(msgs@) || all_same(snaps@.map_values(|v: Vec<Entry>| v@))),
{
    let mut i: usize = 0;
    while i < msgs.len()
        invariant
            0 <= i <= msgs@.len(),
            forall|k: int| 0 <= k < i ==> !((#[trigger] msgs@[k]) is Internal),
        decreases msgs@.len() - i,
    {
        let is_sync = match &msgs[i] {
            RegisterMsg::Internal(_) => true,
            _ => false,
        };
        if is_sync {
            return true;
        }
        i = i + 1;
    }
    all_same_entries(snaps)
}

/// Whether a snapshot holds at most one entry per key.
pub fn one_entry_per_key(v: &Vec<Entry>) -> (r: bool)
    ensures
        r == unique_keys_in(v@),
{
    let mut i: usize = 0;
    while i < v.len()
        invariant
            0 <= i <= v@.len(),
            forall|p: int, q: int| 0 <= p < q < v@.len() && p < i ==> (#[trigger] v@[p]).key != (
            #[trigger] v@[q]).key,
        decreases v@.len() - i,
    {
        let mut j: usize = i + 1;
        while j < v.len()
            invariant
                0 <= i < j <= v@.len(),
                forall|q: int| i < q < j ==> (#[trigger] v@[q]).key != v@[i as int].key,
            decreases v@.len() - j,
        {
            if v[j].key == v[i].key {
                return false;
            }
            j = j + 1;
        }
        i = i + 1;
    }
    true
}

} // verus!

