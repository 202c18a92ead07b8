//! The reconciliation decision policy.
//!
//! One cycle is a pure function of the state read from the cache and of the
//! controller's configuration: pick the resource, skip the cycle while an
//! update is in progress, select the highest available candidate, override
//! its `force` field with the configured flag, and build the patch that asks
//! the cluster to converge to it. All memory lives outside: re-running the
//! policy on the same snapshot gives the same answer.

use vstd::prelude::*;
use crate::version::version_le;
use crate::version::version_lt;
use crate::version::lemma_version_lt_irrefl;
use crate::version::lemma_version_le_trans;
use crate::version::lemma_version_lt_le_trans;
use crate::version::lemma_version_lt_asym;
use crate::resource::ClusterUpdate;
use crate::resource::ClusterVersion;
use crate::resource::ClusterVersionSpec;
use crate::resource::ClusterVersionSpecView;
use crate::resource::Metadata;
use crate::resource::ResourceView;
use crate::resource::UpdateView;
use crate::resource::in_progress;
use crate::resource::resources_view;
use crate::resource::spec_in_progress;
use crate::resource::updates_view;

verus! {

/// The index the selection settles on, scanning from position `i` with
/// `cur` as the best index seen so far: a later candidate displaces the
/// current best unless it precedes it, so the last of several maximal
/// candidates wins.
pub open spec fn best_from(s: Seq<UpdateView>, i: int, cur: int) -> int
    decreases s.len() - i,
{
    if i >= s.len() {
        cur
    } else if !version_lt(s[i].version, s[cur].version) {
        best_from(s, i + 1, i)
    } else {
        best_from(s, i + 1, cur)
    }
}

/// The index of the selected candidate in a non-empty candidate list.
pub open spec fn best_idx(s: Seq<UpdateView>) -> int {
    best_from(s, 1, 0)
}

/// What the decision policy answers on one resource snapshot: `None` when
/// the cycle is to be skipped (update in progress, absent status, absent or
/// empty candidate list), otherwise the selected candidate with its `force`
/// field set to the configured flag.
pub open spec fn spec_decide(r: ResourceView, force: bool) -> Option<UpdateView> {
    if spec_in_progress(r) {
        Option::None
    } else {
        match r.status {
            Option::None => Option::None,
            Option::Some(st) => match st.available_updates {
                Option::None => Option::None,
                Option::Some(av) => if av.len() == 0 {
                    Option::None
                } else {
                    let u = av[best_idx(av)];
                    Option::Some(UpdateView { force: force, image: u.image, version: u.version })
                },
            },
        }
    }
}

/// The patch one cycle submits, if any: the resource's identity unchanged,
/// `spec.desiredUpdate` set to the decision's answer, and no `status`.
pub open spec fn spec_reconcile(r: ResourceView, force: bool) -> Option<ResourceView> {
    match spec_decide(r, force) {
        Option::None => Option::None,
        Option::Some(u) => Option::Some(
            ResourceView {
                metadata: r.metadata,
                spec: ClusterVersionSpecView { desired_update: Option::Some(u) },
                status: Option::None,
            },
        ),
    }
}

/// What a whole cycle does with the resource list the cache returned: no
/// resource means the cycle is skipped, and of several the last one wins.
pub open spec fn spec_cycle(rs: Seq<ResourceView>, force: bool) -> Option<ResourceView> {
    if rs.len() == 0 {
        Option::None
    } else {
        spec_reconcile(rs.last(), force)
    }
}

pub proof fn lemma_best_from(s: Seq<UpdateView>, i: int, cur: int)
    requires
        0 <= cur < s.len(),
        0 <= i <= s.len(),
    ensures
        0 <= best_from(s, i, cur) < s.len(),
        best_from(s, i, cur) == cur || best_from(s, i, cur) >= i,
        version_le(s[cur].version, s[best_from(s, i, cur)].version),
        forall|j: int|
            i <= j < s.len() ==> version_le(s[j].version, s[best_from(s, i, cur)].version),
        forall|j: int|
            best_from(s, i, cur) < j < s.len() && i <= j ==> version_lt(
                s[j].version,
                s[best_from(s, i, cur)].version,
            ),
    decreases s.len() - i,
{
    let b = best_from(s, i, cur);
    if i >= s.len() {
        lemma_version_lt_irrefl(s[cur].version);
    } else {
        if !version_lt(s[i].version, s[cur].version) {
            lemma_best_from(s, i + 1, i);
            lemma_version_le_trans(s[cur].version, s[i].version, s[b].version);
        } else {
            lemma_best_from(s, i + 1, cur);
            lemma_version_lt_le_trans(s[i].version, s[cur].version, s[b].version);
            lemma_version_lt_asym(s[i].version, s[b].version);
        }
    }
}

/// Selection correctness: in a non-empty candidate list the selected
/// candidate's version is greater than or equal to every candidate's
/// version, and strictly greater than every later candidate's, which makes
/// the selection the last-seen maximum.
pub proof fn lemma_selection_correct(s: Seq<UpdateView>)
    requires
        s.len() > 0,
    ensures
        0 <= best_idx(s) < s.len(),
        forall|j: int| 0 <= j < s.len() ==> version_le(s[j].version, s[best_idx(s)].version),
        forall|j: int|
            best_idx(s) < j < s.len() ==> version_lt(s[j].version, s[best_idx(s)].version),
{
    lemma_best_from(s, 1, 0);
    if best_idx(s) == 0 {
        lemma_version_lt_irrefl(s[0].version);
    }
}

/// Selection correctness at the policy level: whenever the policy submits
/// an update, its version is greater than or equal to every available
/// candidate's version.
pub proof fn lemma_decide_selects_max(r: ResourceView, force: bool)
    requires
        spec_decide(r, force) is Some,
    ensures
        ({
            let u = spec_decide(r, force)->Some_0;
            let av = r.status->Some_0.available_updates->Some_0;
            &&& r.status is Some
            &&& r.status->Some_0.available_updates is Some
            &&& av.len() > 0
            &&& forall|j: int| 0 <= j < av.len() ==> version_le(av[j].version, u.version)
            &&& exists|j: int|
                0 <= j < av.len() && av[j].version == u.version && av[j].image == u.image
        }),
{
    let av = r.status->Some_0.available_updates->Some_0;
    lemma_selection_correct(av);
    assert(av[best_idx(av)].version == (spec_decide(r, force)->Some_0).version);
}

/// Force override: whatever the selected candidate carried, the update the
/// policy answers with has the configured `force` flag.
pub proof fn lemma_force_override(r: ResourceView, force: bool)
    ensures
        spec_decide(r, force) matches Some(u) ==> u.force == force,
{
}

/// In-progress suppression: while the most recent history entry has no
/// completion time, no patch is submitted, whatever the candidate list
/// holds.
pub proof fn lemma_in_progress_suppressed(r: ResourceView, force: bool)
    requires
        spec_in_progress(r),
    ensures
        spec_reconcile(r, force) is None,
{
}

/// Absence tolerance: an absent status, or an absent or empty candidate
/// list, yields no patch (and the cycle ends without fault).
pub proof fn lemma_absence_tolerated(r: ResourceView, force: bool)
    requires
        r.status is None || r.status->Some_0.available_updates is None
            || r.status->Some_0.available_updates->Some_0.len() == 0,
    ensures
        spec_reconcile(r, force) is None,
{
}

/// Status omission: a submitted patch never carries a status section, and
/// it keeps the resource's identity while requesting exactly the decided
/// update.
pub proof fn lemma_patch_omits_status(r: ResourceView, force: bool)
    requires
        spec_reconcile(r, force) is Some,
    ensures
        (spec_reconcile(r, force)->Some_0).status is None,
        (spec_reconcile(r, force)->Some_0).metadata == r.metadata,
        (spec_reconcile(r, force)->Some_0).spec.desired_update == spec_decide(r, force),
{
}

/// Idempotence: the decision is a function of the snapshot and the
/// configured flag alone, so equal snapshots give equal decisions and equal
/// patches.
pub proof fn lemma_decision_deterministic(r1: ResourceView, r2: ResourceView, force: bool)
    requires
        r1 == r2,
    ensures
        spec_decide(r1, force) == spec_decide(r2, force),
        spec_reconcile(r1, force) == spec_reconcile(r2, force),
{
}

/// Selects the highest available candidate and answers its index; of
/// several maximal ones, the last. `None` only on an empty list.
pub fn select_update(updates: &Vec<ClusterUpdate>) -> (r: Option<usize>)
    ensures
        (r is Some) <==> updates@.len() > 0,
        r matches Some(i) ==> i < updates@.len() && i as int == best_idx(updates_view(*updates)),
{
    if updates.len() == 0 {
        return Option::None;
    }
    let ghost s = updates_view(*updates);
    let mut best: usize = 0;
    let mut i: usize = 1;
    loop
        invariant
            1 <= i <= updates@.len(),
            best < i,
            s == updates_view(*updates),
            s.len() == updates@.len(),
            best_idx(s) == best_from(s, i as int, best as int),
        decreases updates@.len() - i,
    {
        if i >= updates.len() {
            return Option::Some(best);
        }
        if !updates[i].version.precedes(&updates[best].version) {
            proof {
                assert(best_from(s, i as int, best as int) == best_from(s, i + 1, i as int));
            }
            best = i;
        } else {
            proof {
                assert(best_from(s, i as int, best as int) == best_from(s, i + 1, best as int));
            }
        }
        i = i + 1;
    }
}

/// Runs the decision policy on one resource snapshot: answers the update to
/// request, or `None` when this cycle has nothing to do.
pub fn decide(resource: &ClusterVersion, force: bool) -> (r: Option<ClusterUpdate>)
    ensures
        (r is Some) <==> (spec_decide(resource@, force) is Some),
        r matches Some(u) ==> spec_decide(resource@, force) == Some(u@),
{
    if in_progress(resource) {
        return Option::None;
    }
    let st = match &resource.status {
        Option::Some(st) => st,
        Option::None => {
            return Option::None;
        },
    };
    let ups = match &st.available_updates {
        Option::Some(ups) => ups,
        Option::None => {
            return Option::None;
        },
    };
    match select_update(ups) {
        Option::None => Option::None,
        Option::Some(i) => {
            let picked = &ups[i];
            let chosen = ClusterUpdate {
                force: force,
                image: picked.image.clone(),
                version: picked.version.clone(),
            };
            proof {
                assert(chosen@ =~= spec_decide(resource@, force)->Some_0);
            }
            Option::Some(chosen)
        },
    }
}

/// Runs one reconciliation step on one resource snapshot: answers the patch
/// to submit, or `None` when the cycle is to be skipped. The patch keeps
/// the resource's identity, sets `spec.desiredUpdate` to the selected
/// update, and omits the status section.
pub fn reconcile(resource: &ClusterVersion, force: bool) -> (p: Option<ClusterVersion>)
    ensures
        (p is Some) <==> (spec_reconcile(resource@, force) is Some),
        p matches Some(x) ==> spec_reconcile(resource@, force) == Some(x@),
{
    match decide(resource, force) {
        Option::None => Option::None,
        Option::Some(u) => {
            let patch = ClusterVersion {
                metadata: Metadata { name: resource.metadata.name.clone() },
                spec: ClusterVersionSpec { desired_update: Option::Some(u) },
                status: Option::None,
            };
            proof {
                assert(patch@ =~= spec_reconcile(resource@, force)->Some_0);
            }
            Option::Some(patch)
        },
    }
}

/// Runs one whole cycle on the resource list the cache returned: no
/// resource means nothing to do, and of several resources the last one
/// wins.
pub fn run_cycle(resources: &Vec<ClusterVersion>, force: bool) -> (p: Option<ClusterVersion>)
    ensures
        (p is Some) <==> (spec_cycle(resources_view(*resources), force) is Some),
        p matches Some(x) ==> spec_cycle(resources_view(*resources), force) == Some(x@),
{
    if resources.len() == 0 {
        return Option::None;
    }
    let last = &resources[resources.len() - 1];
    proof {
        assert(resources_view(*resources).last() == last@);
    }
    reconcile(last, force)
}

} // verus!
