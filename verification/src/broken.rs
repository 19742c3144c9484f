//! The unsafe last-writer-wins merge discipline.
//!
//! Instead of carrying the set of versions an operation supersedes, this
//! discipline compares an incoming version only against the entries
//! presently stored for the same key, and a delete names a single version.
//! The causal link between a write and what it replaced is discarded, which
//! is the seed of the defect: once deletes race in-flight writes, replicas
//! can resurrect deleted values or diverge for good.

use vstd::prelude::*;

use crate::store::{max_u32, StoreView};
use crate::version::{version_lt, Entry, Version};

verus! {

/// The predicate selecting entries stored for `key`.
pub open spec fn key_is(key: char) -> spec_fn(Entry) -> bool {
    |e: Entry| e.key == key
}

/// The predicate selecting entries stored under a different key.
pub open spec fn not_key(key: char) -> spec_fn(Entry) -> bool {
    |e: Entry| e.key != key
}

/// The predicate selecting entries carrying the version `t`.
pub open spec fn version_is(t: Version) -> spec_fn(Entry) -> bool {
    |e: Entry| e.version == t
}

/// Whether some entry of `s` satisfies `p`.
pub open spec fn has_where(s: Seq<Entry>, p: spec_fn(Entry) -> bool) -> bool {
    exists|i: int| 0 <= i < s.len() && p(s[i])
}

/// `i` is the position of the first entry of `s` satisfying `p`.
pub open spec fn is_first_where(s: Seq<Entry>, p: spec_fn(Entry) -> bool, i: int) -> bool {
    &&& 0 <= i < s.len()
    &&& p(s[i])
    &&& forall|j: int| 0 <= j < i ==> !p(#[trigger] s[j])
}

/// The position of the first entry of `s` satisfying `p`.
pub open spec fn first_where(s: Seq<Entry>, p: spec_fn(Entry) -> bool) -> int {
    choose|i: int| is_first_where(s, p, i)
}

/// The first position satisfying a predicate is unique, so `first_where`
/// denotes exactly it.
proof fn lemma_first_where(s: Seq<Entry>, p: spec_fn(Entry) -> bool, i: int)
    requires
        is_first_where(s, p, i),
    ensures
        has_where(s, p),
        first_where(s, p) == i,
{
    assert(has_where(s, p));
    assert(exists|j: int| is_first_where(s, p, j));
    let c = first_where(s, p);
    assert(is_first_where(s, p, c));
    if c < i {
        assert(!p(s[c]));
    }
    if i < c {
        assert(!p(s[i]));
    }
}

/// Wherever some entry satisfies a predicate, a first such entry exists.
pub proof fn lemma_first_where_exists(s: Seq<Entry>, p: spec_fn(Entry) -> bool, w: int)
    requires
        0 <= w < s.len(),
        p(s[w]),
    ensures
        is_first_where(s, p, first_where(s, p)),
    decreases w,
{
    if forall|j: int| 0 <= j < w ==> !p(#[trigger] s[j]) {
        assert(is_first_where(s, p, w));
    } else {
        let j = choose|j: int| 0 <= j < w && p(#[trigger] s[j]);
        lemma_first_where_exists(s, p, j);
    }
}

/// Every entry of `s` stored for `key` carries a version older than `t`.
pub open spec fn all_matches_older(s: Seq<Entry>, key: char, t: Version) -> bool {
    forall|i: int|
        0 <= i < s.len() && (#[trigger] s[i]).key == key ==> version_lt(s[i].version, t)
}

/// What a lookup returns: the value of the first entry stored for `key`.
pub open spec fn broken_get(s: Seq<Entry>, key: char) -> Option<char> {
    if has_where(s, key_is(key)) {
        Some(s[first_where(s, key_is(key))].value)
    } else {
        None
    }
}

/// Effect of a local put: remove the first entry stored for `key`, if any,
/// and insert the new entry under a fresh version.
pub open spec fn broken_set(s: StoreView, key: char, value: char) -> StoreView {
    let removed = if has_where(s.entries, key_is(key)) {
        s.entries.remove(first_where(s.entries, key_is(key)))
    } else {
        s.entries
    };
    StoreView {
        actor_id: s.actor_id,
        max_op: (s.max_op + 1) as u32,
        entries: removed.push(
            Entry { version: crate::fixed::fresh_version(s), key, value },
        ),
    }
}

/// Effect of a local delete: remove the first entry stored for `key`.
pub open spec fn broken_delete(s: StoreView, key: char) -> StoreView {
    StoreView {
        actor_id: s.actor_id,
        max_op: s.max_op,
        entries: s.entries.remove(first_where(s.entries, key_is(key))),
    }
}

/// Effect of applying a put sync message: the incoming entry is applied only
/// if every entry presently stored for the same key is older; it then
/// replaces all of them. Otherwise the message is dropped. The context the
/// sender observed plays no part, which is what loses concurrent
/// supersession information.
pub open spec fn broken_receive_set(
    s: StoreView,
    version: Version,
    key: char,
    value: char,
) -> StoreView {
    StoreView {
        actor_id: s.actor_id,
        max_op: max_u32(s.max_op, version.counter),
        entries: if all_matches_older(s.entries, key, version) {
            s.entries.filter(not_key(key)).push(Entry { version, key, value })
        } else {
            s.entries
        },
    }
}

/// Effect of applying a delete sync message: remove only the single entry
/// carrying the named version, if it is present.
pub open spec fn broken_receive_delete(s: StoreView, t: Version) -> StoreView {
    StoreView {
        actor_id: s.actor_id,
        max_op: max_u32(s.max_op, t.counter),
        entries: if has_where(s.entries, version_is(t)) {
            s.entries.remove(first_where(s.entries, version_is(t)))
        } else {
            s.entries
        },
    }
}

/// A replica store under the last-writer-wins merge discipline.
#[derive(Clone, Debug, Hash, PartialEq, Eq)]
pub struct BrokenMap {
    actor_id: usize,
    max_op: u32,
    values: Vec<Entry>,
}

impl View for BrokenMap {
    type V = StoreView;

    closed spec fn view(&self) -> StoreView {
        StoreView { actor_id: self.actor_id, max_op: self.max_op, entries: self.values@ }
    }
}

impl BrokenMap {
    /// A fresh replica: empty entry set, counter zero.
    pub fn new(actor_id: usize) -> (r: Self)
        ensures
            r@ == (StoreView { actor_id, max_op: 0, entries: Seq::<Entry>::empty() }),
    {
        let r = BrokenMap { actor_id, max_op: 0, values: Vec::new() };
        proof {
            assert(r@.entries =~= Seq::<Entry>::empty());
        }
        r
    }

    /// The position of the first entry stored for `key`, if any.
    fn find_key(&self, key: char) -> (r: Option<usize>)
        ensures
            match r {
                Some(i) => is_first_where(self@.entries, key_is(key), i as int),
                None => !has_where(self@.entries, key_is(key)),
            },
    {
        let mut i: usize = 0;
        while i < self.values.len()
            invariant
                0 <= i <= self.values@.len(),
                forall|j: int| 0 <= j < i ==> (#[trigger] self.values@[j]).key != key,
            decreases self.values@.len() - i,
        {
            if self.values[i].key == key {
                return Some(i);
            }
            i = i + 1;
        }
        None
    }

    /// The value of the first entry stored for `key`, if any.
    pub fn get(&self, key: char) -> (r: Option<char>)
        ensures
            r == broken_get(self@.entries, key),
    {
        match self.find_key(key) {
            Some(i) => {
                proof {
                    lemma_first_where(self@.entries, key_is(key), i as int);
                }
                Some(self.values[i].value)
            },
            None => None,
        }
    }

    /// A local put: issue a fresh version, drop the first entry stored for
    /// `key` if there is one, and insert the new entry. The returned context
    /// is empty: this discipline discards what the write superseded.
    pub fn set(&mut self, key: char, value: char) -> (r: (Vec<Version>, Version))
        requires
            old(self)@.max_op < u32::MAX,
        ensures
            r.0@ == Seq::<Version>::empty(),
            r.1 == crate::fixed::fresh_version(old(self)@),
            final(self)@ == broken_set(old(self)@, key, value),
    {
        self.max_op = self.max_op + 1;
        let t = Version { counter: self.max_op, replica: self.actor_id };
        match self.find_key(key) {
            Some(i) => {
                proof {
                    lemma_first_where(self@.entries, key_is(key), i as int);
                }
                self.values.remove(i);
            },
            None => (),
        }
        self.values.push(Entry { version: t, key, value });
        let context: Vec<Version> = Vec::new();
        proof {
            assert(context@ =~= Seq::<Version>::empty());
        }
        (context, t)
    }

    /// A local delete: remove the first entry stored for `key` and return
    /// its single version as the context to broadcast; absent key is a
    /// no-op returning `None`.
    pub fn delete(&mut self, key: char) -> (r: Option<Vec<Version>>)
        ensures
            match r {
                None => !has_where(old(self)@.entries, key_is(key)) && *final(self) == *old(self),
                Some(c) => {
                    &&& has_where(old(self)@.entries, key_is(key))
                    &&& c@ == seq![
                        old(self)@.entries[first_where(old(self)@.entries, key_is(key))].version,
                    ]
                    &&& final(self)@ == broken_delete(old(self)@, key)
                },
            },
    {
        match self.find_key(key) {
            Some(i) => {
                proof {
                    lemma_first_where(self@.entries, key_is(key), i as int);
                }
                let t = self.values[i].version;
                self.values.remove(i);
                let mut context: Vec<Version> = Vec::new();
                context.push(t);
                proof {
                    assert(context@ =~= seq![t]);
                }
                Some(context)
            },
            None => None,
        }
    }

    /// Apply a put sync message from a peer. The context is accepted for
    /// interface parity but ignored.
    pub fn receive_set(
        &mut self,
        context: &Vec<Version>,
        version: Version,
        key: char,
        value: char,
    )
        ensures
            final(self)@ == broken_receive_set(old(self)@, version, key, value),
    {
        let _ = context;
        if version.counter > self.max_op {
            self.max_op = version.counter;
        }
        let mut ok = true;
        let mut i: usize = 0;
        while i < self.values.len()
            invariant
                0 <= i <= self.values@.len(),
                ok == all_matches_older(self.values@.take(i as int), key, version),
            decreases self.values@.len() - i,
        {
            let e = self.values[i];
            proof {
                assert(self.values@.take(i + 1).drop_last() =~= self.values@.take(i as int));
                assert(self.values@.take(i + 1).last() == self.values@[i as int]);
                assert(forall|j: int|
                    0 <= j < i + 1 ==> self.values@.take(i + 1)[j] == self.values@[j]);
            }
            if e.key == key && !crate::version::version_before(&e.version, &version) {
                ok = false;
            }
            i = i + 1;
        }
        proof {
            assert(self.values@.take(self.values@.len() as int) =~= self.values@);
        }
        if ok {
            let kept = self.retain_not_key(key);
            self.values = kept;
            self.values.push(Entry { version, key, value });
        }
    }

    /// The entries stored under a key other than `key`, in storage order.
    fn retain_not_key(&self, key: char) -> (out: Vec<Entry>)
        ensures
            out@ == self@.entries.filter(not_key(key)),
    {
        let mut out: Vec<Entry> = Vec::new();
        let mut i: usize = 0;
        while i < self.values.len()
            invariant
                0 <= i <= self.values@.len(),
                out@ == self.values@.take(i as int).filter(not_key(key)),
            decreases self.values@.len() - i,
        {
            let e = self.values[i];
            proof {
                broadcast use vstd::prelude::Seq::lemma_filter_push;

                assert(self.values@.take(i + 1) =~= self.values@.take(i as int).push(
                    self.values@[i as int],
                ));
            }
            if e.key != key {
                out.push(e);
            }
            i = i + 1;
        }
        proof {
            assert(self.values@.take(self.values@.len() as int) =~= self.values@);
        }
        out
    }

    /// Apply a delete sync message from a peer: remove only the entry
    /// carrying the first version named by the context.
    pub fn receive_delete(&mut self, context: &Vec<Version>)
        requires
            context@.len() >= 1,
        ensures
            final(self)@ == broken_receive_delete(old(self)@, context@[0]),
    {
        let t = context[0];
        if t.counter > self.max_op {
            self.max_op = t.counter;
        }
        match self.find_version(t) {
            Some(i) => {
                proof {
                    lemma_first_where(self@.entries, version_is(t), i as int);
                }
                self.values.remove(i);
            },
            None => (),
        }
    }

    /// The position of the entry carrying version `t`, if any.
    fn find_version(&self, t: Version) -> (r: Option<usize>)
        ensures
            match r {
                Some(i) => is_first_where(self@.entries, version_is(t), i as int),
                None => !has_where(self@.entries, version_is(t)),
            },
    {
        let mut i: usize = 0;
        while i < self.values.len()
            invariant
                0 <= i <= self.values@.len(),
                forall|j: int| 0 <= j < i ==> (#[trigger] self.values@[j]).version != t,
            decreases self.values@.len() - i,
        {
            if self.values[i].version == t {
                return Some(i);
            }
            i = i + 1;
        }
        None
    }

    /// A snapshot of the stored entries, in storage order.
    pub fn values(&self) -> (out: Vec<Entry>)
        ensures
            out@ == self@.entries,
    {
        crate::store::clone_entries(&self.values)
    }

    /// The high-water mark of issued and observed counters.
    pub fn counter(&self) -> (r: u32)
        ensures
            r == self@.max_op,
    {
        self.max_op
    }
}

} // verus!
