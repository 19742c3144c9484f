//! Versions and stored entries.

use vstd::prelude::*;

verus! {

/// A logical timestamp: a monotonic per-replica counter paired with the
/// identity of the replica that issued it. Versions are totally ordered
/// lexicographically (counter first, replica as tie-break), and no two
/// replicas ever issue an equal version, so the order doubles as a causal
/// tie-break.
#[derive(Clone, Copy, Debug, Hash, PartialEq, Eq, PartialOrd, Ord, Structural)]
pub struct Version {
    pub counter: u32,
    pub replica: usize,
}

/// Strict lexicographic order on versions: counter first, then replica.
pub open spec fn version_lt(a: Version, b: Version) -> bool {
    a.counter < b.counter || (a.counter == b.counter && a.replica < b.replica)
}

/// Reflexive closure of `version_lt`.
pub open spec fn version_le(a: Version, b: Version) -> bool {
    version_lt(a, b) || a == b
}

/// Executable comparison mirroring `version_lt`.
pub fn version_before(a: &Version, b: &Version) -> (r: bool)
    ensures
        r == version_lt(*a, *b),
{
    a.counter < b.counter || (a.counter == b.counter && a.replica < b.replica)
}

/// A stored (version, key, value) triple.
#[derive(Clone, Copy, Debug, Hash, PartialEq, Eq, PartialOrd, Ord, Structural)]
pub struct Entry {
    pub version: Version,
    pub key: char,
    pub value: char,
}

} // verus!
