//! The algebra of the causally safe merge discipline.
//!
//! These proofs establish what makes the safe discipline safe: applying a
//! sync message is idempotent, causally unrelated sync messages commute,
//! and any causally consistent delivery of one set of sync messages leaves
//! every replica with the same entry set — convergence. Alongside them
//! stand the per-transition preservation proofs for the at-most-one-entry-
//! per-key property, and the round-trip property of a received put.

use vstd::prelude::*;

use crate::fixed::{
    best_entry, bump_counters, fixed_delete, fixed_get, fixed_receive_delete, fixed_receive_set,
    fixed_set, fresh_version, key_context,
};
use crate::peer::PeerMsg;
use crate::store::{not_in_context, same_contents, store_inv, unique_keys_in, StoreView};
use crate::version::{version_le, version_lt, Entry, Version};

verus! {

/// An entry is kept by a filter exactly when it is present and satisfies
/// the predicate.
proof fn lemma_filter_contains_iff(s: Seq<Entry>, p: spec_fn(Entry) -> bool, e: Entry)
    ensures
        s.filter(p).contains(e) <==> (s.contains(e) && p(e)),
{
    broadcast use vstd::prelude::Seq::lemma_filter_contains_rev;
    broadcast use vstd::prelude::Seq::lemma_filter_pred;

    if s.contains(e) && p(e) {
        let i = choose|i: int| 0 <= i < s.len() && s[i] == e;
        s.lemma_filter_contains(p, i);
    }
    if s.filter(p).contains(e) {
        let j = choose|j: int| 0 <= j < s.filter(p).len() && s.filter(p)[j] == e;
        assert(p(s.filter(p)[j]));
    }
}

/// Filtering a sequence whose every element satisfies the predicate keeps
/// it unchanged.
proof fn lemma_filter_of_satisfying(s: Seq<Entry>, p: spec_fn(Entry) -> bool)
    requires
        forall|i: int| 0 <= i < s.len() ==> p(#[trigger] s[i]),
    ensures
        s.filter(p) == s,
    decreases s.len(),
{
    reveal(Seq::filter);
    if s.len() > 0 {
        lemma_filter_of_satisfying(s.drop_last(), p);
        assert(s.drop_last().push(s.last()) =~= s);
        assert(s.filter(p) =~= s);
    }
}

/// Filtering twice by one predicate is the same as filtering once.
proof fn lemma_filter_idempotent(s: Seq<Entry>, p: spec_fn(Entry) -> bool)
    ensures
        s.filter(p).filter(p) == s.filter(p),
{
    broadcast use vstd::prelude::Seq::lemma_filter_pred;

    lemma_filter_of_satisfying(s.filter(p), p);
}

/// The bumped high-water mark dominates its inputs.
proof fn lemma_bump_counters_ge(m: u32, c: Seq<Version>)
    ensures
        bump_counters(m, c) >= m,
        forall|i: int| 0 <= i < c.len() ==> bump_counters(m, c) >= (#[trigger] c[i]).counter,
    decreases c.len(),
{
    if c.len() > 0 {
        lemma_bump_counters_ge(m, c.drop_last());
        assert(forall|i: int| 0 <= i < c.len() - 1 ==> c.drop_last()[i] == c[i]);
    }
}

/// Bumping a mark that already dominates every counter changes nothing.
proof fn lemma_bump_counters_noop(m: u32, c: Seq<Version>)
    requires
        forall|i: int| 0 <= i < c.len() ==> m >= (#[trigger] c[i]).counter,
    ensures
        bump_counters(m, c) == m,
    decreases c.len(),
{
    if c.len() > 0 {
        assert(forall|i: int| 0 <= i < c.len() - 1 ==> c.drop_last()[i] == c[i]);
        lemma_bump_counters_noop(m, c.drop_last());
    }
}

/// Applying one identical put sync message twice leaves the replica exactly
/// as applying it once did.
pub proof fn lemma_put_sync_idempotent(
    s: StoreView,
    context: Seq<Version>,
    version: Version,
    key: char,
    value: char,
)
    ensures
        fixed_receive_set(fixed_receive_set(s, context, version, key, value), context, version, key, value)
            == fixed_receive_set(s, context, version, key, value),
{
    broadcast use vstd::prelude::Seq::lemma_filter_push;

    let p = not_in_context(context);
    let e = Entry { version, key, value };
    let kept = s.entries.filter(p);
    lemma_filter_idempotent(s.entries, p);
    lemma_filter_contains_iff(s.entries, p, e);
    if p(e) {
        if kept.contains(e) {
            lemma_filter_contains_iff(kept, p, e);
        } else {
            lemma_filter_contains_iff(kept, p, e);
            assert(kept.push(e).filter(p) == kept.filter(p).push(e));
            lemma_filter_contains_iff(kept.filter(p), p, e);
            assert(kept.filter(p).push(e).contains(e)) by {
                assert(kept.filter(p).push(e).last() == e);
            }
        }
    } else {
        assert(!kept.contains(e)) by {
            lemma_filter_contains_iff(s.entries, p, e);
        }
        assert(kept.push(e).filter(p) == kept.filter(p));
        assert(!kept.filter(p).contains(e)) by {
            lemma_filter_contains_iff(kept, p, e);
        }
    }
}

/// Applying one identical delete sync message twice leaves the replica
/// exactly as applying it once did.
pub proof fn lemma_delete_sync_idempotent(s: StoreView, context: Seq<Version>)
    ensures
        fixed_receive_delete(fixed_receive_delete(s, context), context) == fixed_receive_delete(
            s,
            context,
        ),
{
    let p = not_in_context(context);
    lemma_filter_idempotent(s.entries, p);
    lemma_bump_counters_ge(s.max_op, context);
    lemma_bump_counters_noop(bump_counters(s.max_op, context), context);
}

/// Applying one identical put sync message twice leaves even the unsafe
/// replica exactly as applying it once did: the second copy finds its own
/// version stored and is dropped.
pub proof fn lemma_broken_put_sync_idempotent(s: StoreView, version: Version, key: char, value: char)
    ensures
        crate::broken::broken_receive_set(
            crate::broken::broken_receive_set(s, version, key, value),
            version,
            key,
            value,
        ) == crate::broken::broken_receive_set(s, version, key, value),
{
    let once = crate::broken::broken_receive_set(s, version, key, value);
    if crate::broken::all_matches_older(s.entries, key, version) {
        let e = Entry { version, key, value };
        let n = once.entries.len() as int;
        assert(once.entries[n - 1] == e);
        assert(!crate::broken::all_matches_older(once.entries, key, version));
    }
}

/// Applying one identical delete sync message twice leaves even the unsafe
/// replica exactly as applying it once did, provided the store is well
/// formed: the named version occurs at most once, so the second copy finds
/// nothing left to remove.
pub proof fn lemma_broken_delete_sync_idempotent(s: StoreView, context: Seq<Version>)
    requires
        store_inv(s),
        context.len() >= 1,
    ensures
        crate::broken::broken_receive_delete(
            crate::broken::broken_receive_delete(s, context[0]),
            context[0],
        ) == crate::broken::broken_receive_delete(s, context[0]),
{
    let t = context[0];
    let p = crate::broken::version_is(t);
    if crate::broken::has_where(s.entries, p) {
        let w = choose|w: int| 0 <= w < s.entries.len() && p(#[trigger] s.entries[w]);
        crate::broken::lemma_first_where_exists(s.entries, p, w);
        let i = crate::broken::first_where(s.entries, p);
        let rest = s.entries.remove(i);
        assert forall|j: int| 0 <= j < rest.len() implies !p(#[trigger] rest[j]) by {
            s.entries.remove_ensures(i);
            if j < i {
                assert(rest[j] == s.entries[j]);
            } else {
                assert(rest[j] == s.entries[j + 1]);
            }
        }
    }
}

/// The causal context a sync message carries.
pub open spec fn msg_context(m: PeerMsg) -> Seq<Version> {
    match m {
        PeerMsg::PutSync { context, .. } => context@,
        PeerMsg::DeleteSync { context } => context@,
    }
}

/// The entry a put sync message conveys; a delete conveys none.
pub open spec fn put_entry_of(m: PeerMsg) -> Option<Entry> {
    match m {
        PeerMsg::PutSync { context: _, version, key, value } => Some(
            Entry { version, key, value },
        ),
        PeerMsg::DeleteSync { .. } => None,
    }
}

/// The store after applying one sync message under the safe discipline.
pub open spec fn apply_sync(s: StoreView, m: PeerMsg) -> StoreView {
    match m {
        PeerMsg::PutSync { context, version, key, value } => fixed_receive_set(
            s,
            context@,
            version,
            key,
            value,
        ),
        PeerMsg::DeleteSync { context } => fixed_receive_delete(s, context@),
    }
}

/// `m2` supersedes the write that `m1` conveys: `m1` is a put whose version
/// is a member of `m2`'s context. Two sync messages are causally unrelated
/// when neither covers the other.
pub open spec fn covers(m2: PeerMsg, m1: PeerMsg) -> bool {
    match put_entry_of(m1) {
        Some(e) => msg_context(m2).contains(e.version),
        None => false,
    }
}

/// Membership in the store after applying one sync message: an entry is
/// present afterwards exactly when it survived the message's context or is
/// the entry the message conveys.
pub proof fn lemma_apply_sync_contains(s: StoreView, m: PeerMsg, e: Entry)
    ensures
        apply_sync(s, m).entries.contains(e) <==> ((s.entries.contains(e) && !msg_context(
            m,
        ).contains(e.version)) || put_entry_of(m) == Some(e)),
{
    broadcast use vstd::seq_lib::lemma_seq_contains_after_push;

    let p = not_in_context(msg_context(m));
    lemma_filter_contains_iff(s.entries, p, e);
    match m {
        PeerMsg::PutSync { context, version, key, value } => {
            let pe = Entry { version, key, value };
            let kept = s.entries.filter(p);
            if kept.contains(pe) {
                lemma_filter_contains_iff(s.entries, p, pe);
            }
        },
        PeerMsg::DeleteSync { .. } => (),
    }
}

/// Commutativity: two causally unrelated sync messages applied in either
/// order leave the same entry set.
pub proof fn lemma_sync_commutes(s: StoreView, m1: PeerMsg, m2: PeerMsg)
    requires
        !covers(m1, m2),
        !covers(m2, m1),
    ensures
        same_contents(
            apply_sync(apply_sync(s, m1), m2).entries,
            apply_sync(apply_sync(s, m2), m1).entries,
        ),
{
    assert forall|e: Entry|
        apply_sync(apply_sync(s, m1), m2).entries.contains(e) <==> apply_sync(
            apply_sync(s, m2),
            m1,
        ).entries.contains(e) by {
        lemma_apply_sync_contains(apply_sync(s, m1), m2, e);
        lemma_apply_sync_contains(s, m1, e);
        lemma_apply_sync_contains(apply_sync(s, m2), m1, e);
        lemma_apply_sync_contains(s, m2, e);
    }
}

/// The store after applying a sequence of sync messages, in order.
pub open spec fn apply_all(s: StoreView, ms: Seq<PeerMsg>) -> StoreView
    decreases ms.len(),
{
    if ms.len() == 0 {
        s
    } else {
        apply_sync(apply_all(s, ms.drop_last()), ms.last())
    }
}

/// Some message of `ms` carries `v` in its context.
pub open spec fn covered(ms: Seq<PeerMsg>, v: Version) -> bool {
    exists|i: int| 0 <= i < ms.len() && msg_context(#[trigger] ms[i]).contains(v)
}

/// Some message of `ms` conveys the entry `e`.
pub open spec fn is_put_of(ms: Seq<PeerMsg>, e: Entry) -> bool {
    exists|i: int| 0 <= i < ms.len() && put_entry_of(#[trigger] ms[i]) == Some(e)
}

/// A delivery order is causally consistent when every message stands after
/// each message it covers (in particular, no message covers itself). Every
/// delivery the protocol can produce is of this shape: a put's fresh
/// version can only enter a context observed later.
pub open spec fn causal_delivery(ms: Seq<PeerMsg>) -> bool {
    forall|i: int, j: int|
        0 <= i < ms.len() && 0 <= j < ms.len() && #[trigger] covers(ms[i], ms[j]) ==> j < i
}

/// Convergence, closed form: after a causally consistent delivery of sync
/// messages, the entry set is determined by the *set* of messages alone —
/// an entry is present exactly when it was present initially or was
/// conveyed by some put, and no message's context supersedes it.
pub proof fn lemma_apply_all_closed_form(s: StoreView, ms: Seq<PeerMsg>)
    requires
        causal_delivery(ms),
    ensures
        forall|e: Entry|
            #[trigger] apply_all(s, ms).entries.contains(e) <==> ((s.entries.contains(e)
                || is_put_of(ms, e)) && !covered(ms, e.version)),
    decreases ms.len(),
{
    if ms.len() == 0 {
    } else {
        let pre = ms.drop_last();
        let x = ms.last();
        let n = ms.len() as int;
        assert(forall|i: int| 0 <= i < n - 1 ==> pre[i] == ms[i]);
        assert(causal_delivery(pre)) by {
            assert forall|i: int, j: int|
                0 <= i < pre.len() && 0 <= j < pre.len() && #[trigger] covers(
                    pre[i],
                    pre[j],
                ) implies j < i by {
                assert(covers(ms[i], ms[j]));
            }
        }
        lemma_apply_all_closed_form(s, pre);
        let a = apply_all(s, pre);
        assert forall|e: Entry|
            #[trigger] apply_all(s, ms).entries.contains(e) <==> ((s.entries.contains(e)
                || is_put_of(ms, e)) && !covered(ms, e.version)) by {
            lemma_apply_sync_contains(a, x, e);
            let v = e.version;
            assert(covered(ms, v) <==> (covered(pre, v) || msg_context(x).contains(v))) by {
                if covered(pre, v) {
                    let i = choose|i: int|
                        0 <= i < pre.len() && msg_context(#[trigger] pre[i]).contains(v);
                    assert(msg_context(ms[i]).contains(v));
                }
                if msg_context(x).contains(v) {
                    assert(msg_context(ms[n - 1]).contains(v));
                }
                if covered(ms, v) {
                    let i = choose|i: int|
                        0 <= i < ms.len() && msg_context(#[trigger] ms[i]).contains(v);
                    if i < n - 1 {
                        assert(msg_context(pre[i]).contains(v));
                    }
                }
            }
            assert(is_put_of(ms, e) <==> (is_put_of(pre, e) || put_entry_of(x) == Some(e))) by {
                if is_put_of(pre, e) {
                    let i = choose|i: int|
                        0 <= i < pre.len() && put_entry_of(#[trigger] pre[i]) == Some(e);
                    assert(put_entry_of(ms[i]) == Some(e));
                }
                if put_entry_of(x) == Some(e) {
                    assert(put_entry_of(ms[n - 1]) == Some(e));
                }
                if is_put_of(ms, e) {
                    let i = choose|i: int|
                        0 <= i < ms.len() && put_entry_of(#[trigger] ms[i]) == Some(e);
                    if i < n - 1 {
                        assert(put_entry_of(pre[i]) == Some(e));
                    }
                }
            }
            if put_entry_of(x) == Some(e) {
                assert(!covered(ms, v)) by {
                    if covered(ms, v) {
                        let i = choose|i: int|
                            0 <= i < ms.len() && msg_context(#[trigger] ms[i]).contains(v);
                        assert(covers(ms[i], ms[n - 1]));
                    }
                }
            }
        }
    }
}

/// If every message of one sequence occurs in the other, whatever covers a
/// version in the first covers it in the second.
proof fn lemma_covered_congruence(ms1: Seq<PeerMsg>, ms2: Seq<PeerMsg>, v: Version)
    requires
        forall|m: PeerMsg| ms1.contains(m) ==> ms2.contains(m),
        covered(ms1, v),
    ensures
        covered(ms2, v),
{
    let i = choose|i: int| 0 <= i < ms1.len() && msg_context(#[trigger] ms1[i]).contains(v);
    assert(ms1.contains(ms1[i]));
    let j = choose|j: int| 0 <= j < ms2.len() && ms2[j] == ms1[i];
    assert(msg_context(ms2[j]).contains(v));
}

/// If every message of one sequence occurs in the other, whatever entry a
/// put of the first conveys, a put of the second conveys too.
proof fn lemma_is_put_congruence(ms1: Seq<PeerMsg>, ms2: Seq<PeerMsg>, e: Entry)
    requires
        forall|m: PeerMsg| ms1.contains(m) ==> ms2.contains(m),
        is_put_of(ms1, e),
    ensures
        is_put_of(ms2, e),
{
    let i = choose|i: int| 0 <= i < ms1.len() && put_entry_of(#[trigger] ms1[i]) == Some(e);
    assert(ms1.contains(ms1[i]));
    let j = choose|j: int| 0 <= j < ms2.len() && ms2[j] == ms1[i];
    assert(put_entry_of(ms2[j]) == Some(e));
}

/// Convergence: two causally consistent deliveries of the same set of sync
/// messages — in any order, with any duplication — leave a replica with
/// the same entry set.
pub proof fn lemma_convergence(s: StoreView, ms1: Seq<PeerMsg>, ms2: Seq<PeerMsg>)
    requires
        causal_delivery(ms1),
        causal_delivery(ms2),
        forall|m: PeerMsg| #![trigger ms1.contains(m)] #![trigger ms2.contains(m)]
            ms1.contains(m) <==> ms2.contains(m),
    ensures
        same_contents(apply_all(s, ms1).entries, apply_all(s, ms2).entries),
{
    lemma_apply_all_closed_form(s, ms1);
    lemma_apply_all_closed_form(s, ms2);
    assert forall|e: Entry|
        apply_all(s, ms1).entries.contains(e) <==> apply_all(s, ms2).entries.contains(e) by {
        let v = e.version;
        if covered(ms1, v) {
            lemma_covered_congruence(ms1, ms2, v);
        }
        if covered(ms2, v) {
            lemma_covered_congruence(ms2, ms1, v);
        }
        if is_put_of(ms1, e) {
            lemma_is_put_congruence(ms1, ms2, e);
        }
        if is_put_of(ms2, e) {
            lemma_is_put_congruence(ms2, ms1, e);
        }
    }
}

/// An empty store is well formed.
pub proof fn lemma_empty_store_inv(s: StoreView)
    requires
        s.entries.len() == 0,
    ensures
        store_inv(s),
{
}

/// Filtering preserves pairwise distinctness of versions.
proof fn lemma_filter_preserves_distinct_versions(s: Seq<Entry>, p: spec_fn(Entry) -> bool)
    requires
        forall|i: int, j: int|
            0 <= i < j < s.len() ==> #[trigger] s[i].version != #[trigger] s[j].version,
    ensures
        forall|i: int, j: int|
            0 <= i < j < s.filter(p).len() ==> #[trigger] s.filter(p)[i].version
                != #[trigger] s.filter(p)[j].version,
    decreases s.len(),
{
    broadcast use vstd::prelude::Seq::lemma_filter_contains_rev;

    reveal(Seq::filter);
    if s.len() > 0 {
        let pre = s.drop_last();
        let n = s.len() as int;
        assert(forall|i: int| 0 <= i < n - 1 ==> pre[i] == s[i]);
        lemma_filter_preserves_distinct_versions(pre, p);
        if p(s.last()) {
            let f = pre.filter(p);
            assert(s.filter(p) == f.push(s.last()));
            assert forall|i: int, j: int| 0 <= i < j < f.push(s.last()).len() implies (
            #[trigger] f.push(s.last())[i].version) != (#[trigger] f.push(
                s.last(),
            )[j].version) by {
                if j == f.len() {
                    assert(f.contains(f[i])) by {
                        assert(f[i] == f.push(s.last())[i]);
                    }
                    assert(pre.contains(f[i]));
                    let k = choose|k: int| 0 <= k < pre.len() && pre[k] == f[i];
                    assert(s[k] == f[i]);
                }
            }
        }
    }
}

/// A local put preserves well-formedness: the fresh version postdates every
/// stored counter, so it collides with nothing.
pub proof fn lemma_set_preserves_inv(s: StoreView, key: char, value: char)
    requires
        store_inv(s),
        s.max_op < u32::MAX,
    ensures
        store_inv(fixed_set(s, key, value)),
{
    let p = not_in_context(key_context(s.entries, key));
    let kept = s.entries.filter(p);
    lemma_filter_preserves_distinct_versions(s.entries, p);
    assert forall|i: int| 0 <= i < kept.len() implies (#[trigger] kept[i]).version.counter
        <= s.max_op && s.entries.contains(kept[i]) by {
        lemma_filter_contains_iff(s.entries, p, kept[i]);
        assert(kept.contains(kept[i]));
        let k = choose|k: int| 0 <= k < s.entries.len() && s.entries[k] == kept[i];
    }
}

/// A local delete preserves well-formedness: it only removes entries.
pub proof fn lemma_delete_preserves_inv(s: StoreView, key: char)
    requires
        store_inv(s),
    ensures
        store_inv(fixed_delete(s, key)),
{
    let p = not_in_context(key_context(s.entries, key));
    let kept = s.entries.filter(p);
    lemma_filter_preserves_distinct_versions(s.entries, p);
    assert forall|i: int| 0 <= i < kept.len() implies (#[trigger] kept[i]).version.counter
        <= s.max_op by {
        lemma_filter_contains_iff(s.entries, p, kept[i]);
        assert(kept.contains(kept[i]));
        let k = choose|k: int| 0 <= k < s.entries.len() && s.entries[k] == kept[i];
    }
}

/// Applying a put sync message preserves well-formedness, provided the
/// incoming version is globally unique: any stored entry carrying it is the
/// very entry the message conveys. The protocol guarantees this because
/// only the issuing replica ever pairs a counter with its identity.
pub proof fn lemma_receive_set_preserves_inv(
    s: StoreView,
    context: Seq<Version>,
    version: Version,
    key: char,
    value: char,
)
    requires
        store_inv(s),
        forall|i: int|
            0 <= i < s.entries.len() && (#[trigger] s.entries[i]).version == version
                ==> s.entries[i] == (Entry { version, key, value }),
    ensures
        store_inv(fixed_receive_set(s, context, version, key, value)),
{
    broadcast use vstd::seq_lib::lemma_seq_contains_after_push;

    let p = not_in_context(context);
    let kept = s.entries.filter(p);
    let e = Entry { version, key, value };
    lemma_filter_preserves_distinct_versions(s.entries, p);
    assert forall|i: int| 0 <= i < kept.len() implies (#[trigger] kept[i]).version.counter
        <= s.max_op && s.entries.contains(kept[i]) by {
        lemma_filter_contains_iff(s.entries, p, kept[i]);
        assert(kept.contains(kept[i]));
        let k = choose|k: int| 0 <= k < s.entries.len() && s.entries[k] == kept[i];
    }
    if !kept.contains(e) {
        assert forall|i: int| 0 <= i < kept.len() implies (#[trigger] kept[i]).version
            != version by {
            if kept[i].version == version {
                assert(kept.contains(kept[i])) by {
                    assert(kept[i] == kept[i]);
                }
                lemma_filter_contains_iff(s.entries, p, kept[i]);
                let k = choose|k: int| 0 <= k < s.entries.len() && s.entries[k] == kept[i];
                assert(s.entries[k] == e);
            }
        }
    }
}

/// Applying a delete sync message preserves well-formedness: it only
/// removes entries and only raises the high-water mark.
pub proof fn lemma_receive_delete_preserves_inv(s: StoreView, context: Seq<Version>)
    requires
        store_inv(s),
    ensures
        store_inv(fixed_receive_delete(s, context)),
{
    let p = not_in_context(context);
    let kept = s.entries.filter(p);
    lemma_filter_preserves_distinct_versions(s.entries, p);
    lemma_bump_counters_ge(s.max_op, context);
    assert forall|i: int| 0 <= i < kept.len() implies (#[trigger] kept[i]).version.counter
        <= s.max_op by {
        lemma_filter_contains_iff(s.entries, p, kept[i]);
        assert(kept.contains(kept[i]));
        let k = choose|k: int| 0 <= k < s.entries.len() && s.entries[k] == kept[i];
    }
}

/// A version stands in a key's context exactly when some entry for that
/// key carries it.
proof fn lemma_key_context_contains(s: Seq<Entry>, key: char, v: Version)
    ensures
        key_context(s, key).contains(v) <==> exists|i: int|
            0 <= i < s.len() && (#[trigger] s[i]).key == key && s[i].version == v,
    decreases s.len(),
{
    broadcast use vstd::seq_lib::lemma_seq_contains_after_push;

    if s.len() > 0 {
        let pre = s.drop_last();
        let n = s.len() as int;
        lemma_key_context_contains(pre, key, v);
        assert(forall|i: int| 0 <= i < n - 1 ==> pre[i] == s[i]);
        if key_context(s, key).contains(v) {
            if key_context(pre, key).contains(v) {
                let i = choose|i: int|
                    0 <= i < pre.len() && (#[trigger] pre[i]).key == key && pre[i].version == v;
                assert(s[i].key == key && s[i].version == v);
            }
        }
        if exists|i: int| 0 <= i < s.len() && (#[trigger] s[i]).key == key && s[i].version == v {
            let i = choose|i: int|
                0 <= i < s.len() && (#[trigger] s[i]).key == key && s[i].version == v;
            if i < n - 1 {
                assert(pre[i].key == key && pre[i].version == v);
            }
        }
    }
}

/// Filtering preserves the at-most-one-entry-per-key property.
proof fn lemma_filter_preserves_unique_keys(s: Seq<Entry>, p: spec_fn(Entry) -> bool)
    requires
        unique_keys_in(s),
    ensures
        unique_keys_in(s.filter(p)),
    decreases s.len(),
{
    broadcast use vstd::prelude::Seq::lemma_filter_contains_rev;

    reveal(Seq::filter);
    if s.len() > 0 {
        let pre = s.drop_last();
        let n = s.len() as int;
        assert(forall|i: int| 0 <= i < n - 1 ==> pre[i] == s[i]);
        lemma_filter_preserves_unique_keys(pre, p);
        if p(s.last()) {
            let f = pre.filter(p);
            assert(s.filter(p) == f.push(s.last()));
            assert forall|i: int, j: int| 0 <= i < j < f.push(s.last()).len() implies (
            #[trigger] f.push(s.last())[i]).key != (#[trigger] f.push(s.last())[j]).key by {
                if j == f.len() {
                    assert(f.contains(f[i])) by {
                        assert(f[i] == f.push(s.last())[i]);
                    }
                    assert(pre.contains(f[i]));
                    let k = choose|k: int| 0 <= k < pre.len() && pre[k] == f[i];
                    assert(s[k] == f[i]);
                }
            }
        }
    }
}

/// A local put leaves at most one entry per key if the store had at most
/// one before: it removes every entry stored for the written key.
pub proof fn lemma_set_preserves_unique_keys(s: StoreView, key: char, value: char)
    requires
        unique_keys_in(s.entries),
    ensures
        unique_keys_in(fixed_set(s, key, value).entries),
{
    let ctx = key_context(s.entries, key);
    let p = not_in_context(ctx);
    let kept = s.entries.filter(p);
    lemma_filter_preserves_unique_keys(s.entries, p);
    let e = Entry { version: fresh_version(s), key, value };
    assert forall|i: int, j: int| 0 <= i < j < kept.push(e).len() implies (#[trigger] kept.push(
        e,
    )[i]).key != (#[trigger] kept.push(e)[j]).key by {
        if j == kept.len() {
            assert(kept.contains(kept[i])) by {
                assert(kept[i] == kept.push(e)[i]);
            }
            lemma_filter_contains_iff(s.entries, p, kept[i]);
            if kept[i].key == key {
                let k = choose|k: int| 0 <= k < s.entries.len() && s.entries[k] == kept[i];
                lemma_key_context_contains(s.entries, key, kept[i].version);
            }
        }
    }
}

/// A local delete leaves at most one entry per key if the store had at
/// most one before: it only removes entries.
pub proof fn lemma_delete_preserves_unique_keys(s: StoreView, key: char)
    requires
        unique_keys_in(s.entries),
    ensures
        unique_keys_in(fixed_delete(s, key).entries),
{
    lemma_filter_preserves_unique_keys(s.entries, not_in_context(key_context(s.entries, key)));
}

/// Applying a delete sync message leaves at most one entry per key if the
/// store had at most one before: it only removes entries.
pub proof fn lemma_receive_delete_preserves_unique_keys(s: StoreView, context: Seq<Version>)
    requires
        unique_keys_in(s.entries),
    ensures
        unique_keys_in(fixed_receive_delete(s, context).entries),
{
    lemma_filter_preserves_unique_keys(s.entries, not_in_context(context));
}

/// Applying a put sync message leaves at most one entry per key, provided
/// its context covers every entry presently stored for the written key —
/// which holds whenever the sender had observed this replica's entries for
/// that key. A context that misses a concurrently written entry for the
/// same key is exactly the input on which the property can be lost.
pub proof fn lemma_receive_set_preserves_unique_keys(
    s: StoreView,
    context: Seq<Version>,
    version: Version,
    key: char,
    value: char,
)
    requires
        unique_keys_in(s.entries),
        forall|i: int|
            0 <= i < s.entries.len() && (#[trigger] s.entries[i]).key == key ==> context.contains(
                s.entries[i].version,
            ),
    ensures
        unique_keys_in(fixed_receive_set(s, context, version, key, value).entries),
{
    let p = not_in_context(context);
    let kept = s.entries.filter(p);
    lemma_filter_preserves_unique_keys(s.entries, p);
    let e = Entry { version, key, value };
    assert forall|m: Entry| kept.contains(m) implies m.key != key by {
        lemma_filter_contains_iff(s.entries, p, m);
        let k = choose|k: int| 0 <= k < s.entries.len() && s.entries[k] == m;
    }
    if kept.contains(e) {
        assert(e.key != key);
    } else {
        assert forall|i: int, j: int| 0 <= i < j < kept.push(e).len() implies (#[trigger] kept
            .push(e)[i]).key != (#[trigger] kept.push(e)[j]).key by {
            if j == kept.len() {
                assert(kept.contains(kept[i])) by {
                    assert(kept[i] == kept.push(e)[i]);
                }
            }
        }
    }
}

/// What a lookup observes: `best_entry` returns a stored entry for the key
/// whose version dominates every entry stored for that key, and `None`
/// exactly when the key is absent.
pub proof fn lemma_best_entry_spec(s: Seq<Entry>, key: char)
    ensures
        match best_entry(s, key) {
            None => forall|i: int| 0 <= i < s.len() ==> (#[trigger] s[i]).key != key,
            Some(b) => s.contains(b) && b.key == key && forall|i: int|
                0 <= i < s.len() && (#[trigger] s[i]).key == key ==> version_le(
                    s[i].version,
                    b.version,
                ),
        },
    decreases s.len(),
{
    if s.len() > 0 {
        let pre = s.drop_last();
        let n = s.len() as int;
        lemma_best_entry_spec(pre, key);
        assert(forall|i: int| 0 <= i < n - 1 ==> pre[i] == s[i]);
        match best_entry(pre, key) {
            None => (),
            Some(b) => {
                let k = choose|k: int| 0 <= k < pre.len() && pre[k] == b;
                assert(s[k] == b);
            },
        }
        match best_entry(s, key) {
            None => (),
            Some(b) => {
                if b == s.last() {
                    assert(s[n - 1] == b);
                }
            },
        }
    }
}

/// Round trip: a received put is immediately observable by a local get,
/// provided no entry outside the put's context carries a version at least
/// as new for the same key.
pub proof fn lemma_round_trip(
    s: StoreView,
    context: Seq<Version>,
    version: Version,
    key: char,
    value: char,
)
    requires
        forall|i: int|
            0 <= i < s.entries.len() && (#[trigger] s.entries[i]).key == key && !context.contains(
                s.entries[i].version,
            ) ==> version_lt(s.entries[i].version, version),
    ensures
        fixed_get(fixed_receive_set(s, context, version, key, value).entries, key) == Some(value),
{
    broadcast use vstd::seq_lib::lemma_seq_contains_after_push;

    let p = not_in_context(context);
    let kept = s.entries.filter(p);
    let e = Entry { version, key, value };
    let after = fixed_receive_set(s, context, version, key, value).entries;
    assert(after.contains(e)) by {
        if !kept.contains(e) {
            assert(after == kept.push(e));
        }
    }
    assert forall|m: Entry| kept.contains(m) && m.key == key implies version_lt(
        m.version,
        version,
    ) by {
        lemma_filter_contains_iff(s.entries, p, m);
        let k = choose|k: int| 0 <= k < s.entries.len() && s.entries[k] == m;
    }
    lemma_best_entry_spec(after, key);
    match best_entry(after, key) {
        None => {
            let k = choose|k: int| 0 <= k < after.len() && after[k] == e;
            assert(after[k].key == key);
        },
        Some(b) => {
            let k = choose|k: int| 0 <= k < after.len() && after[k] == e;
            assert(version_le(version, b.version));
            if b != e {
                assert(kept.contains(b));
            }
        },
    }
}

/// A local put acts on the entry set exactly as the put sync message it
/// broadcasts: receiving one's own sync message is a no-op beyond it.
pub proof fn lemma_local_set_is_put_sync(s: StoreView, key: char, value: char)
    requires
        store_inv(s),
        s.max_op < u32::MAX,
    ensures
        fixed_set(s, key, value).entries == fixed_receive_set(
            s,
            key_context(s.entries, key),
            fresh_version(s),
            key,
            value,
        ).entries,
{
    let ctx = key_context(s.entries, key);
    let p = not_in_context(ctx);
    let kept = s.entries.filter(p);
    let e = Entry { version: fresh_version(s), key, value };
    if kept.contains(e) {
        lemma_filter_contains_iff(s.entries, p, e);
        let k = choose|k: int| 0 <= k < s.entries.len() && s.entries[k] == e;
        assert(s.entries[k].version.counter <= s.max_op);
    }
}

/// A local delete acts on the entry set exactly as the delete sync message
/// it broadcasts.
pub proof fn lemma_local_delete_is_delete_sync(s: StoreView, key: char)
    ensures
        fixed_delete(s, key).entries == fixed_receive_delete(
            s,
            key_context(s.entries, key),
        ).entries,
{
}

} // verus!
