use vstd::prelude::*;

use crate::envelope::VersionedEnvelope;
use crate::registry::Registry;

verus! {

/// Chain-upgrades a versioned wrapper to the latest version of a structure
/// (v1 -> v2 -> ... -> latest).
pub trait VersionedUpgrade {
    type Latest;

    fn upgrade_to_latest(self) -> Self::Latest;
}

/// The same chained upgrade, under the name that some versioned types use.
pub trait UpgradableEnum {
    type Latest;

    fn upgrade_to_latest(self) -> Self::Latest;
}

/// The next version of an upgradable type (a shape's `V1` becomes its `V2`).
pub trait Upgrade<To> {
    fn upgrade(self) -> To;
}

/// `trace` runs from a value of version `from` through one application of
/// `step` per version: `trace[i + 1]` is what `step` gives for version
/// `from + i` and `trace[i]`.
pub open spec fn is_upgrade_trace<S, F: Fn(usize, S) -> S>(step: F, from: nat, trace: Seq<S>) -> bool {
    &&& trace.len() >= 1
    &&& forall|i: int|
        0 <= i < trace.len() - 1 ==> #[trigger] step.ensures(((from + i) as usize, trace[i]), trace[i + 1])
}

/// Upgrades a value of any registered version to the latest shape, applying
/// `step` once for each version from the value's own up to the latest.
/// `step(k, s)` turns a value of shape `k` into a value of shape `k + 1`.
pub fn upgrade_to_latest<S, F: Fn(usize, S) -> S>(
    registry: &Registry,
    value: VersionedEnvelope<S>,
    step: F,
) -> (r: VersionedEnvelope<S>)
    requires
        registry.wf(),
        registry@.contains(value.version_number as nat),
        forall|k: usize, s: S| registry@.first <= k < registry@.latest ==> step.requires((k, s)),
    ensures
        r.version_number == registry@.latest,
        value.version_number == registry@.latest ==> r.data == value.data,
        exists|trace: Seq<S>|
            {
                &&& #[trigger] is_upgrade_trace(step, value.version_number as nat, trace)
                &&& trace.len() == registry@.latest - value.version_number + 1
                &&& trace[0] == value.data
                &&& trace.last() == r.data
            },
{
    let latest = registry.latest_version();
    let mut k = value.version_number;
    let mut cur = value.data;
    let ghost from = value.version_number as nat;
    let ghost mut trace: Seq<S> = seq![cur];
    while k < latest
        invariant
            registry.wf(),
            latest == registry@.latest,
            from <= k <= latest,
            registry@.first <= from,
            forall|j: usize, s: S| registry@.first <= j < registry@.latest ==> step.requires((j, s)),
            is_upgrade_trace(step, from, trace),
            trace.len() == k - from + 1,
            trace[0] == value.data,
            trace.last() == cur,
        decreases latest - k,
    {
        let next = step(k, cur);
        proof {
            let old_trace = trace;
            trace = trace.push(next);
            assert forall|i: int| 0 <= i < trace.len() - 1 implies #[trigger] step.ensures(
                ((from + i) as usize, trace[i]),
                trace[i + 1],
            ) by {
                if i < old_trace.len() - 1 {
                    assert(step.ensures(((from + i) as usize, old_trace[i]), old_trace[i + 1]));
                }
            }
        }
        cur = next;
        k = k + 1;
    }
    VersionedEnvelope { version_number: latest, data: cur }
}

} // verus!
