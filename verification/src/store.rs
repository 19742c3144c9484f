//! The mathematical model of one replica's store, and executable helpers
//! shared by both merge disciplines.

use vstd::prelude::*;

use crate::version::{Entry, Version};

verus! {

/// The model of a replica's store: the replica's identity, the high-water
/// mark of counters it has issued or observed, and the stored entries in
/// insertion order.
pub struct StoreView {
    pub actor_id: usize,
    pub max_op: u32,
    pub entries: Seq<Entry>,
}

/// Well-formedness of a store: entries carry pairwise distinct versions, and
/// no stored counter exceeds the high-water mark. The first conjunct reflects
/// global uniqueness of versions; the second is what makes freshly issued
/// versions postdate everything stored.
pub open spec fn store_inv(s: StoreView) -> bool {
    &&& forall|i: int, j: int|
        0 <= i < j < s.entries.len() ==> #[trigger] s.entries[i].version != #[trigger] s.entries[
            j
        ].version
    &&& forall|i: int|
        0 <= i < s.entries.len() ==> (#[trigger] s.entries[i].version.counter) <= s.max_op
}

/// Two entry sequences hold the same entries, ignoring order and duplication.
pub open spec fn same_contents(a: Seq<Entry>, b: Seq<Entry>) -> bool {
    forall|e: Entry| #![trigger a.contains(e)] #![trigger b.contains(e)] a.contains(e)
        <==> b.contains(e)
}

/// The store holds at most one entry per key.
pub open spec fn unique_keys_in(s: Seq<Entry>) -> bool {
    forall|i: int, j: int|
        0 <= i < j < s.len() ==> (#[trigger] s[i].key) != (#[trigger] s[j].key)
}

/// The predicate selecting entries whose version is not superseded by the
/// given context.
pub open spec fn not_in_context(context: Seq<Version>) -> spec_fn(Entry) -> bool {
    |e: Entry| !context.contains(e.version)
}

/// The larger of two counters.
pub open spec fn max_u32(a: u32, b: u32) -> u32 {
    if a < b {
        b
    } else {
        a
    }
}

/// A copy of the stored entries, in storage order.
pub fn clone_entries(v: &Vec<Entry>) -> (out: Vec<Entry>)
    ensures
        out@ == v@,
{
    let mut out: Vec<Entry> = Vec::new();
    let mut i: usize = 0;
    while i < v.len()
        invariant
            0 <= i <= v@.len(),
            out@ == v@.take(i as int),
        decreases v@.len() - i,
    {
        out.push(v[i]);
        proof {
            assert(v@.take(i + 1) =~= v@.take(i as int).push(v@[i as int]));
        }
        i = i + 1;
    }
    proof {
        assert(v@.take(v@.len() as int) =~= v@);
    }
    out
}

/// A copy of a context, in order.
pub fn clone_versions(c: &Vec<Version>) -> (out: Vec<Version>)
    ensures
        out@ == c@,
{
    let mut out: Vec<Version> = Vec::new();
    let mut i: usize = 0;
    while i < c.len()
        invariant
            0 <= i <= c@.len(),
            out@ == c@.take(i as int),
        decreases c@.len() - i,
    {
        out.push(c[i]);
        proof {
            assert(c@.take(i + 1) =~= c@.take(i as int).push(c@[i as int]));
        }
        i = i + 1;
    }
    proof {
        assert(c@.take(c@.len() as int) =~= c@);
    }
    out
}

/// Whether `c` holds the version `t`.
pub fn contains_version(c: &Vec<Version>, t: &Version) -> (r: bool)
    ensures
        r == c@.contains(*t),
{
    let mut i: usize = 0;
    while i < c.len()
        invariant
            0 <= i <= c@.len(),
            forall|j: int| 0 <= j < i ==> c@[j] != *t,
        decreases c@.len() - i,
    {
        if c[i] == *t {
            return true;
        }
        i = i + 1;
    }
    false
}

/// Whether `v` holds the entry `e`.
pub fn contains_entry(v: &Vec<Entry>, e: &Entry) -> (r: bool)
    ensures
        r == v@.contains(*e),
{
    let mut i: usize = 0;
    while i < v.len()
        invariant
            0 <= i <= v@.len(),
            forall|j: int| 0 <= j < i ==> v@[j] != *e,
        decreases v@.len() - i,
    {
        if v[i] == *e {
            return true;
        }
        i = i + 1;
    }
    false
}

/// The entries of `entries` whose version is not a member of `context`, in
/// their original order.
pub fn retain_not_in_context(entries: &Vec<Entry>, context: &Vec<Version>) -> (out: Vec<Entry>)
    ensures
        out@ == entries@.filter(not_in_context(context@)),
{
    let mut out: Vec<Entry> = Vec::new();
    let mut i: usize = 0;
    while i < entries.len()
        invariant
            0 <= i <= entries@.len(),
            out@ == entries@.take(i as int).filter(not_in_context(context@)),
        decreases entries@.len() - i,
    {
        let e = entries[i];
        proof {
            broadcast use vstd::prelude::Seq::lemma_filter_push;

            assert(entries@.take(i + 1) =~= entries@.take(i as int).push(entries@[i as int]));
        }
        if !contains_version(context, &e.version) {
            out.push(e);
        }
        i = i + 1;
    }
    proof {
        assert(entries@.take(entries@.len() as int) =~= entries@);
    }
    out
}

} // verus!
