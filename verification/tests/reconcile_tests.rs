use cluster_updater::version::Version;
use cluster_updater::resource::ClusterUpdate;
use cluster_updater::resource::ClusterVersion;
use cluster_updater::resource::ClusterVersionSpec;
use cluster_updater::resource::ClusterVersionStatus;
use cluster_updater::resource::HistoryEntry;
use cluster_updater::resource::Metadata;
use cluster_updater::reconcile::decide;
use cluster_updater::reconcile::reconcile;
use cluster_updater::reconcile::run_cycle;
use cluster_updater::reconcile::select_update;

fn candidate(version: &str, image: &str, force: bool) -> ClusterUpdate {
    ClusterUpdate { force, image: image.to_string(), version: Version::parse(version).expect("a valid version") }
}

fn resource(status: Option<ClusterVersionStatus>) -> ClusterVersion {
    ClusterVersion {
        metadata: Metadata { name: "version".to_string() },
        spec: ClusterVersionSpec { desired_update: None },
        status,
    }
}

fn idle_status(updates: Option<Vec<ClusterUpdate>>) -> ClusterVersionStatus {
    ClusterVersionStatus {
        available_updates: updates,
        history: vec![HistoryEntry { completion_time: Some(1_570_000_000) }],
    }
}

#[test]
fn selects_highest_version() {
    let r = resource(Some(idle_status(Some(vec![
        candidate("4.1.0", "a", false),
        candidate("4.2.0", "b", false),
        candidate("4.1.5", "c", false),
    ]))));
    let chosen = decide(&r, false).expect("an update");
    assert!(chosen.version.same_as(&Version::parse("4.2.0").unwrap()));
    assert_eq!(chosen.image, "b");
}

#[test]
fn ties_go_to_the_last_candidate() {
    // equal versions are indistinguishable to the order; the last one wins
    let r = resource(Some(idle_status(Some(vec![
        candidate("4.2.0", "first", false),
        candidate("4.2.0", "second", false),
    ]))));
    let chosen = decide(&r, false).expect("an update");
    assert_eq!(chosen.image, "second");
}

#[test]
fn force_flag_overrides_candidate() {
    let r = resource(Some(idle_status(Some(vec![candidate("4.2.0", "b", false)]))));
    let chosen = decide(&r, true).expect("an update");
    assert!(chosen.force);
    let chosen = decide(&r, false).expect("an update");
    assert!(!chosen.force);
}

#[test]
fn in_progress_suppresses_patch() {
    let status = ClusterVersionStatus {
        available_updates: Some(vec![candidate("4.2.0", "b", false)]),
        history: vec![
            HistoryEntry { completion_time: None },
            HistoryEntry { completion_time: Some(1_560_000_000) },
        ],
    };
    assert!(decide(&resource(Some(status)), true).is_none());
}

#[test]
fn absent_status_is_tolerated() {
    assert!(decide(&resource(None), false).is_none());
}

#[test]
fn absent_or_empty_updates_are_tolerated() {
    assert!(decide(&resource(Some(idle_status(None))), false).is_none());
    assert!(decide(&resource(Some(idle_status(Some(vec![])))), false).is_none());
}

#[test]
fn empty_history_proceeds_to_selection() {
    let status = ClusterVersionStatus {
        available_updates: Some(vec![candidate("4.2.0", "b", false)]),
        history: vec![],
    };
    assert!(decide(&resource(Some(status)), false).is_some());
}

#[test]
fn patch_keeps_identity_and_omits_status() {
    let r = resource(Some(idle_status(Some(vec![
        candidate("4.1.0", "a", false),
        candidate("4.2.0", "b", false),
    ]))));
    let patch = reconcile(&r, true).expect("a patch");
    assert_eq!(patch.metadata.name, "version");
    assert!(patch.status.is_none());
    let desired = patch.spec.desired_update.expect("a desired update");
    assert!(desired.version.same_as(&Version::parse("4.2.0").unwrap()));
    assert_eq!(desired.image, "b");
    assert!(desired.force);
}

#[test]
fn decision_is_deterministic() {
    let r = resource(Some(idle_status(Some(vec![
        candidate("4.1.0", "a", false),
        candidate("4.2.0", "b", false),
        candidate("4.2.0", "c", true),
    ]))));
    let first = decide(&r, true).expect("an update");
    let second = decide(&r, true).expect("an update");
    assert!(first.version.same_as(&second.version));
    assert_eq!(first.image, second.image);
    assert_eq!(first.force, second.force);
}

#[test]
fn empty_read_skips_cycle() {
    assert!(run_cycle(&vec![], true).is_none());
}

#[test]
fn last_resource_wins() {
    let first = resource(Some(ClusterVersionStatus {
        available_updates: Some(vec![candidate("4.2.0", "from-first", false)]),
        history: vec![HistoryEntry { completion_time: None }],
    }));
    let second = resource(Some(idle_status(Some(vec![candidate("4.1.0", "from-second", false)]))));
    let patch = run_cycle(&vec![first, second], false).expect("a patch");
    let desired = patch.spec.desired_update.expect("a desired update");
    assert_eq!(desired.image, "from-second");
}

#[test]
fn select_update_answers_the_last_maximum() {
    let updates = vec![
        candidate("4.2.0", "a", false),
        candidate("4.1.0", "b", false),
        candidate("4.2.0", "c", false),
    ];
    assert_eq!(select_update(&updates), Some(2));
    assert_eq!(select_update(&vec![]), None);
}
