//! A replica store with its merge discipline chosen at configuration time.
//!
//! The two disciplines implement one capability set — get, set, delete,
//! receive_set, receive_delete, and a snapshot — so the peer protocol is
//! written once against this type.

use vstd::prelude::*;

use crate::broken::{
    broken_delete, broken_get, broken_receive_delete, broken_receive_set, broken_set, has_where,
    key_is, first_where, BrokenMap,
};
use crate::fixed::{
    fixed_delete, fixed_get, fixed_receive_delete, fixed_receive_set, fixed_set, fresh_version,
    key_context, FixedMap,
};
use crate::store::StoreView;
use crate::version::{Entry, Version};

verus! {

/// Which merge discipline a replica runs.
#[derive(Clone, Copy, Debug, Hash, PartialEq, Eq, Structural)]
pub enum Variant {
    Broken,
    Fixed,
}

/// What a lookup returns under each discipline.
pub open spec fn replica_get(fixed: bool, s: StoreView, key: char) -> Option<char> {
    if fixed {
        fixed_get(s.entries, key)
    } else {
        broken_get(s.entries, key)
    }
}

/// The store after a local put under each discipline.
pub open spec fn replica_set_store(fixed: bool, s: StoreView, key: char, value: char) -> StoreView {
    if fixed {
        fixed_set(s, key, value)
    } else {
        broken_set(s, key, value)
    }
}

/// The context a local put broadcasts under each discipline: the superseded
/// versions for the safe discipline, nothing for the unsafe one.
pub open spec fn replica_set_context(fixed: bool, s: StoreView, key: char) -> Seq<Version> {
    if fixed {
        key_context(s.entries, key)
    } else {
        Seq::empty()
    }
}

/// The context a local delete broadcasts under each discipline, or `None`
/// when the key is absent and nothing is to be broadcast.
pub open spec fn replica_delete_context(fixed: bool, s: StoreView, key: char) -> Option<
    Seq<Version>,
> {
    if fixed {
        if key_context(s.entries, key).len() > 0 {
            Some(key_context(s.entries, key))
        } else {
            None
        }
    } else {
        if has_where(s.entries, key_is(key)) {
            Some(seq![s.entries[first_where(s.entries, key_is(key))].version])
        } else {
            None
        }
    }
}

/// The store after a local delete under each discipline.
pub open spec fn replica_delete_store(fixed: bool, s: StoreView, key: char) -> StoreView {
    match replica_delete_context(fixed, s, key) {
        None => s,
        Some(_) => if fixed {
            fixed_delete(s, key)
        } else {
            broken_delete(s, key)
        },
    }
}

/// The store after applying a put sync message under each discipline.
pub open spec fn replica_receive_set(
    fixed: bool,
    s: StoreView,
    context: Seq<Version>,
    version: Version,
    key: char,
    value: char,
) -> StoreView {
    if fixed {
        fixed_receive_set(s, context, version, key, value)
    } else {
        broken_receive_set(s, version, key, value)
    }
}

/// The store after applying a delete sync message under each discipline.
pub open spec fn replica_receive_delete(fixed: bool, s: StoreView, context: Seq<Version>) -> StoreView {
    if fixed {
        fixed_receive_delete(s, context)
    } else {
        broken_receive_delete(s, context[0])
    }
}

/// A replica running one of the two merge disciplines.
#[derive(Clone, Debug, Hash, PartialEq, Eq)]
pub enum Replica {
    Broken(BrokenMap),
    Fixed(FixedMap),
}

impl Replica {
    /// Whether this replica runs the causally safe discipline.
    pub open spec fn is_fixed(self) -> bool {
        self is Fixed
    }

    /// The model of this replica's store.
    pub open spec fn store(self) -> StoreView {
        match self {
            Replica::Broken(m) => m@,
            Replica::Fixed(m) => m@,
        }
    }

    /// A fresh replica of the chosen discipline.
    pub fn new(variant: Variant, actor_id: usize) -> (r: Self)
        ensures
            r.is_fixed() == (variant == Variant::Fixed),
            r.store() == (StoreView { actor_id, max_op: 0, entries: Seq::<Entry>::empty() }),
    {
        match variant {
            Variant::Broken => Replica::Broken(BrokenMap::new(actor_id)),
            Variant::Fixed => Replica::Fixed(FixedMap::new(actor_id)),
        }
    }

    /// The value stored for `key`, if any.
    pub fn get(&self, key: char) -> (r: Option<char>)
        ensures
            r == replica_get(self.is_fixed(), self.store(), key),
    {
        match self {
            Replica::Broken(m) => m.get(key),
            Replica::Fixed(m) => m.get(key),
        }
    }

    /// A local put; returns the superseded context and the fresh version to
    /// broadcast.
    pub fn set(&mut self, key: char, value: char) -> (r: (Vec<Version>, Version))
        requires
            old(self).store().max_op < u32::MAX,
        ensures
            final(self).is_fixed() == old(self).is_fixed(),
            final(self).store() == replica_set_store(
                old(self).is_fixed(),
                old(self).store(),
                key,
                value,
            ),
            r.0@ == replica_set_context(old(self).is_fixed(), old(self).store(), key),
            r.1 == fresh_version(old(self).store()),
    {
        match self {
            Replica::Broken(m) => m.set(key, value),
            Replica::Fixed(m) => m.set(key, value),
        }
    }

    /// A local delete; returns the context to broadcast, or `None` when the
    /// key was absent and the operation was a no-op.
    pub fn delete(&mut self, key: char) -> (r: Option<Vec<Version>>)
        ensures
            final(self).is_fixed() == old(self).is_fixed(),
            final(self).store() == replica_delete_store(
                old(self).is_fixed(),
                old(self).store(),
                key,
            ),
            match r {
                None => replica_delete_context(old(self).is_fixed(), old(self).store(), key)
                    is None,
                Some(c) => replica_delete_context(old(self).is_fixed(), old(self).store(), key)
                    == Some(c@),
            },
    {
        match self {
            Replica::Broken(m) => m.delete(key),
            Replica::Fixed(m) => m.delete(key),
        }
    }

    /// Apply a put sync message from a peer.
    pub fn receive_set(&mut self, context: &Vec<Version>, version: Version, key: char, value: char)
        ensures
            final(self).is_fixed() == old(self).is_fixed(),
            final(self).store() == replica_receive_set(
                old(self).is_fixed(),
                old(self).store(),
                context@,
                version,
                key,
                value,
            ),
    {
        match self {
            Replica::Broken(m) => m.receive_set(context, version, key, value),
            Replica::Fixed(m) => m.receive_set(context, version, key, value),
        }
    }

    /// Apply a delete sync message from a peer.
    pub fn receive_delete(&mut self, context: &Vec<Version>)
        requires
            !old(self).is_fixed() ==> context@.len() >= 1,
        ensures
            final(self).is_fixed() == old(self).is_fixed(),
            final(self).store() == replica_receive_delete(
                old(self).is_fixed(),
                old(self).store(),
                context@,
            ),
    {
        match self {
            Replica::Broken(m) => m.receive_delete(context),
            Replica::Fixed(m) => m.receive_delete(context),
        }
    }

    /// A snapshot of the stored entries, in storage order.
    pub fn values(&self) -> (out: Vec<Entry>)
        ensures
            out@ == self.store().entries,
    {
        match self {
            Replica::Broken(m) => m.values(),
            Replica::Fixed(m) => m.values(),
        }
    }

    /// The high-water mark of issued and observed counters.
    pub fn counter(&self) -> (r: u32)
        ensures
            r == self.store().max_op,
    {
        match self {
            Replica::Broken(m) => m.counter(),
            Replica::Fixed(m) => m.counter(),
        }
    }
}

} // verus!
