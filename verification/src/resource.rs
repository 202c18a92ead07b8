//! The watched cluster resource and its parts.
//!
//! All of these are transient snapshots of cluster-API state: they are read
//! from the cache each cycle, drive one decision, and are discarded. The
//! `status` section may be absent entirely (a resource not yet populated),
//! and within it the candidate list may be absent; the decision logic
//! tolerates both.

use vstd::prelude::*;
use crate::version::Version;
use crate::version::VersionView;
use crate::version::clone_ids;

verus! {

/// A candidate update: a target version, the image that carries it, and
/// whether cluster-side safety checks are bypassed when it is applied.
///
/// Candidates are compared by `version` alone: two candidates with equal
/// versions and different images are indistinguishable to the selection.
pub struct ClusterUpdate {
    pub force: bool,
    pub image: String,
    pub version: Version,
}

/// The mathematical value of a [`ClusterUpdate`].
#[verifier::ext_equal]
pub struct UpdateView {
    pub force: bool,
    pub image: Seq<char>,
    pub version: VersionView,
}

impl View for ClusterUpdate {
    type V = UpdateView;

    open spec fn view(&self) -> UpdateView {
        UpdateView { force: self.force, image: self.image@, version: self.version@ }
    }
}

impl Clone for ClusterUpdate {
    /// The copy has the same value.
    fn clone(&self) -> (r: Self)
        ensures
            r@ == self@,
    {
        let r = ClusterUpdate {
            force: self.force,
            image: self.image.clone(),
            version: Version {
                major: self.version.major,
                minor: self.version.minor,
                patch: self.version.patch,
                pre: clone_ids(&self.version.pre),
            },
        };
        proof {
            assert(r@ =~= self@);
        }
        r
    }
}

/// The value a candidate list stands for.
pub open spec fn updates_view(v: Vec<ClusterUpdate>) -> Seq<UpdateView> {
    Seq::new(v@.len(), |i: int| v@[i]@)
}

/// One entry of the resource's transition history. The completion time is
/// kept as seconds since the Unix epoch; it is absent while the transition
/// is still in progress.
pub struct HistoryEntry {
    pub completion_time: Option<i64>,
}

/// The externally managed `status` section: the candidates the cluster's
/// update service offers, and the transition history, most recent first.
pub struct ClusterVersionStatus {
    pub available_updates: Option<Vec<ClusterUpdate>>,
    pub history: Vec<HistoryEntry>,
}

/// The mathematical value of a [`ClusterVersionStatus`].
#[verifier::ext_equal]
pub struct StatusView {
    pub available_updates: Option<Seq<UpdateView>>,
    pub history: Seq<HistoryEntry>,
}

impl View for ClusterVersionStatus {
    type V = StatusView;

    open spec fn view(&self) -> StatusView {
        StatusView {
            available_updates: match self.available_updates {
                Option::Some(v) => Option::Some(updates_view(v)),
                Option::None => Option::None,
            },
            history: self.history@,
        }
    }
}

/// The `spec` section: what this controller asks the cluster to converge to.
pub struct ClusterVersionSpec {
    pub desired_update: Option<ClusterUpdate>,
}

/// The mathematical value of a [`ClusterVersionSpec`].
#[verifier::ext_equal]
pub struct ClusterVersionSpecView {
    pub desired_update: Option<UpdateView>,
}

impl View for ClusterVersionSpec {
    type V = ClusterVersionSpecView;

    open spec fn view(&self) -> ClusterVersionSpecView {
        ClusterVersionSpecView {
            desired_update: match self.desired_update {
                Option::Some(u) => Option::Some(u@),
                Option::None => Option::None,
            },
        }
    }
}

/// The identity of the watched resource: a cluster-scoped singleton known
/// by a fixed name.
pub struct Metadata {
    pub name: String,
}

/// The mathematical value of a [`Metadata`].
#[verifier::ext_equal]
pub struct MetadataView {
    pub name: Seq<char>,
}

impl View for Metadata {
    type V = MetadataView;

    open spec fn view(&self) -> MetadataView {
        MetadataView { name: self.name@ }
    }
}

/// The watched resource, as read from the cache or as written back as a
/// patch. A patch built by this controller always carries `status: None`.
pub struct ClusterVersion {
    pub metadata: Metadata,
    pub spec: ClusterVersionSpec,
    pub status: Option<ClusterVersionStatus>,
}

/// The mathematical value of a [`ClusterVersion`].
#[verifier::ext_equal]
pub struct ResourceView {
    pub metadata: MetadataView,
    pub spec: ClusterVersionSpecView,
    pub status: Option<StatusView>,
}

impl View for ClusterVersion {
    type V = ResourceView;

    open spec fn view(&self) -> ResourceView {
        ResourceView {
            metadata: self.metadata@,
            spec: self.spec@,
            status: match self.status {
                Option::Some(st) => Option::Some(st@),
                Option::None => Option::None,
            },
        }
    }
}

/// The value a resource list read from the cache stands for.
pub open spec fn resources_view(v: Vec<ClusterVersion>) -> Seq<ResourceView> {
    Seq::new(v@.len(), |i: int| v@[i]@)
}

/// Whether the resource reports an update still in progress: the history is
/// non-empty and its most recent entry has no completion time.
pub open spec fn spec_in_progress(r: ResourceView) -> bool {
    match r.status {
        Option::Some(st) => st.history.len() > 0 && st.history[0].completion_time is None,
        Option::None => false,
    }
}

/// Whether an update is still in progress on `resource`.
pub fn in_progress(resource: &ClusterVersion) -> (r: bool)
    ensures
        r == spec_in_progress(resource@),
{
    match &resource.status {
        Option::Some(st) => {
            if st.history.len() > 0 {
                st.history[0].completion_time.is_none()
            } else {
                false
            }
        },
        Option::None => false,
    }
}

} // verus!
