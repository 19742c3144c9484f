//! The causally safe merge discipline.
//!
//! Every write and delete carries a context: the set of versions it
//! supersedes, namely all versions the issuing replica currently stored for
//! the target key. Applying a sync message removes exactly the entries whose
//! version is a member of that context and (for a put) inserts the new entry.
//! Removal by version membership is idempotent and order-insensitive, which
//! is what makes this discipline safe under duplicated and reordered
//! delivery.

use vstd::prelude::*;

use crate::store::{max_u32, not_in_context, retain_not_in_context, contains_entry, StoreView};
use crate::version::{version_lt, Entry, Version};

verus! {

/// The versions of all entries of `s` stored for `key`, in storage order.
/// This is the context a local put or delete for `key` supersedes.
pub open spec fn key_context(s: Seq<Entry>, key: char) -> Seq<Version>
    decreases s.len(),
{
    if s.len() == 0 {
        Seq::empty()
    } else {
        let rest = key_context(s.drop_last(), key);
        if s.last().key == key {
            rest.push(s.last().version)
        } else {
            rest
        }
    }
}

/// The version a local operation on `s` would issue next: the high-water
/// mark advanced by one, paired with the replica's own identity.
pub open spec fn fresh_version(s: StoreView) -> Version {
    Version { counter: (s.max_op + 1) as u32, replica: s.actor_id }
}

/// The high-water mark after observing every counter in `c`.
pub open spec fn bump_counters(m: u32, c: Seq<Version>) -> u32
    decreases c.len(),
{
    if c.len() == 0 {
        m
    } else {
        max_u32(bump_counters(m, c.drop_last()), c.last().counter)
    }
}

/// Effect of applying a put sync message: advance the high-water mark, drop
/// every entry whose version the sender superseded, then insert the new
/// entry unless it is already present.
pub open spec fn fixed_receive_set(
    s: StoreView,
    context: Seq<Version>,
    version: Version,
    key: char,
    value: char,
) -> StoreView {
    let kept = s.entries.filter(not_in_context(context));
    let e = Entry { version, key, value };
    StoreView {
        actor_id: s.actor_id,
        max_op: max_u32(s.max_op, version.counter),
        entries: if kept.contains(e) {
            kept
        } else {
            kept.push(e)
        },
    }
}

/// Effect of applying a delete sync message: advance the high-water mark to
/// cover every superseded counter, then drop every entry whose version is a
/// member of the context.
pub open spec fn fixed_receive_delete(s: StoreView, context: Seq<Version>) -> StoreView {
    StoreView {
        actor_id: s.actor_id,
        max_op: bump_counters(s.max_op, context),
        entries: s.entries.filter(not_in_context(context)),
    }
}

/// Effect of a local put: supersede every entry currently stored for `key`
/// and insert the new entry under a fresh version.
pub open spec fn fixed_set(s: StoreView, key: char, value: char) -> StoreView {
    let ctx = key_context(s.entries, key);
    StoreView {
        actor_id: s.actor_id,
        max_op: (s.max_op + 1) as u32,
        entries: s.entries.filter(not_in_context(ctx)).push(
            Entry { version: fresh_version(s), key, value },
        ),
    }
}

/// Effect of a local delete: drop every entry currently stored for `key`.
pub open spec fn fixed_delete(s: StoreView, key: char) -> StoreView {
    StoreView {
        actor_id: s.actor_id,
        max_op: s.max_op,
        entries: s.entries.filter(not_in_context(key_context(s.entries, key))),
    }
}

/// The entry a lookup for `key` observes: among the entries stored for
/// `key`, the one with the greatest version (the earliest such entry if
/// versions were ever to repeat).
pub open spec fn best_entry(s: Seq<Entry>, key: char) -> Option<Entry>
    decreases s.len(),
{
    if s.len() == 0 {
        None
    } else {
        let prev = best_entry(s.drop_last(), key);
        if s.last().key == key {
            match prev {
                None => Some(s.last()),
                Some(b) => if version_lt(b.version, s.last().version) {
                    Some(s.last())
                } else {
                    Some(b)
                },
            }
        } else {
            prev
        }
    }
}

/// The value a lookup for `key` returns.
pub open spec fn fixed_get(s: Seq<Entry>, key: char) -> Option<char> {
    match best_entry(s, key) {
        None => None,
        Some(e) => Some(e.value),
    }
}

/// A replica store under the causally safe merge discipline.
#[derive(Clone, Debug, Hash, PartialEq, Eq)]
pub struct FixedMap {
    actor_id: usize,
    max_op: u32,
    values: Vec<Entry>,
}

impl View for FixedMap {
    type V = StoreView;

    closed spec fn view(&self) -> StoreView {
        StoreView { actor_id: self.actor_id, max_op: self.max_op, entries: self.values@ }
    }
}

impl FixedMap {
    /// A fresh replica: empty entry set, counter zero.
    pub fn new(actor_id: usize) -> (r: Self)
        ensures
            r@ == (StoreView { actor_id, max_op: 0, entries: Seq::<Entry>::empty() }),
    {
        let r = FixedMap { actor_id, max_op: 0, values: Vec::new() };
        proof {
            assert(r@.entries =~= Seq::<Entry>::empty());
        }
        r
    }

    /// The value stored for `key`, taken from the entry with the greatest
    /// version among those stored for `key`.
    pub fn get(&self, key: char) -> (r: Option<char>)
        ensures
            r == fixed_get(self@.entries, key),
    {
        let mut best: Option<Entry> = None;
        let mut i: usize = 0;
        while i < self.values.len()
            invariant
                0 <= i <= self.values@.len(),
                best == best_entry(self.values@.take(i as int), key),
            decreases self.values@.len() - i,
        {
            let e = self.values[i];
            proof {
                assert(self.values@.take(i + 1).drop_last() =~= self.values@.take(i as int));
                assert(self.values@.take(i + 1).last() == self.values@[i as int]);
            }
            if e.key == key {
                let replace = match &best {
                    None => true,
                    Some(b) => crate::version::version_before(&b.version, &e.version),
                };
                if replace {
                    best = Some(e);
                }
            }
            i = i + 1;
        }
        proof {
            assert(self.values@.take(self.values@.len() as int) =~= self.values@);
        }
        match best {
            None => None,
            Some(e) => Some(e.value),
        }
    }

    /// The versions of all entries currently stored for `key`, in storage
    /// order.
    fn collect_key_versions(&self, key: char) -> (out: Vec<Version>)
        ensures
            out@ == key_context(self@.entries, key),
    {
        let mut out: Vec<Version> = Vec::new();
        let mut i: usize = 0;
        while i < self.values.len()
            invariant
                0 <= i <= self.values@.len(),
                out@ == key_context(self.values@.take(i as int), key),
            decreases self.values@.len() - i,
        {
            let e = self.values[i];
            proof {
                assert(self.values@.take(i + 1).drop_last() =~= self.values@.take(i as int));
                assert(self.values@.take(i + 1).last() == self.values@[i as int]);
            }
            if e.key == key {
                out.push(e.version);
            }
            i = i + 1;
        }
        proof {
            assert(self.values@.take(self.values@.len() as int) =~= self.values@);
        }
        out
    }

    /// A local put: issue a fresh version, remove every entry this operation
    /// supersedes, insert the new entry, and return the superseded context
    /// together with the new version for broadcast.
    pub fn set(&mut self, key: char, value: char) -> (r: (Vec<Version>, Version))
        requires
            old(self)@.max_op < u32::MAX,
        ensures
            r.0@ == key_context(old(self)@.entries, key),
            r.1 == fresh_version(old(self)@),
            final(self)@ == fixed_set(old(self)@, key, value),
    {
        let big_t = self.collect_key_versions(key);
        self.max_op = self.max_op + 1;
        let t = Version { counter: self.max_op, replica: self.actor_id };
        let mut kept = retain_not_in_context(&self.values, &big_t);
        kept.push(Entry { version: t, key, value });
        self.values = kept;
        (big_t, t)
    }

    /// A local delete: if `key` is absent this is a no-op returning `None`;
    /// otherwise remove every entry stored for `key` and return their
    /// versions as the context to broadcast.
    pub fn delete(&mut self, key: char) -> (r: Option<Vec<Version>>)
        ensures
            match r {
                None => key_context(old(self)@.entries, key).len() == 0 && *final(self) == *old(
                    self,
                ),
                Some(c) => {
                    &&& key_context(old(self)@.entries, key).len() > 0
                    &&& c@ == key_context(old(self)@.entries, key)
                    &&& final(self)@ == fixed_delete(old(self)@, key)
                },
            },
    {
        let big_t = self.collect_key_versions(key);
        if big_t.len() == 0 {
            return None;
        }
        let kept = retain_not_in_context(&self.values, &big_t);
        self.values = kept;
        Some(big_t)
    }

    /// Apply a put sync message from a peer.
    pub fn receive_set(&mut self, context: &Vec<Version>, version: Version, key: char, value: char)
        ensures
            final(self)@ == fixed_receive_set(old(self)@, context@, version, key, value),
    {
        if version.counter > self.max_op {
            self.max_op = version.counter;
        }
        let mut kept = retain_not_in_context(&self.values, context);
        let e = Entry { version, key, value };
        if !contains_entry(&kept, &e) {
            kept.push(e);
        }
        self.values = kept;
    }

    /// Apply a delete sync message from a peer.
    pub fn receive_delete(&mut self, context: &Vec<Version>)
        ensures
            final(self)@ == fixed_receive_delete(old(self)@, context@),
    {
        let mut m = self.max_op;
        let mut i: usize = 0;
        while i < context.len()
            invariant
                0 <= i <= context@.len(),
                m == bump_counters(self.max_op, context@.take(i as int)),
            decreases context@.len() - i,
        {
            proof {
                assert(context@.take(i + 1).drop_last() =~= context@.take(i as int));
                assert(context@.take(i + 1).last() == context@[i as int]);
            }
            if context[i].counter > m {
                m = context[i].counter;
            }
            i = i + 1;
        }
        proof {
            assert(context@.take(context@.len() as int) =~= context@);
        }
        self.max_op = m;
        let kept = retain_not_in_context(&self.values, context);
        self.values = kept;
    }

    /// A snapshot of the stored entries, in storage order.
    pub fn values(&self) -> (out: Vec<Entry>)
        ensures
            out@ == self@.entries,
    {
        crate::store::clone_entries(&self.values)
    }

    /// The high-water mark of issued and observed counters.
    pub fn counter(&self) -> (r: u32)
        ensures
            r == self@.max_op,
    {
        self.max_op
    }
}

} // verus!
