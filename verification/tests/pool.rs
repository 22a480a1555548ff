use kopiur_controller::consts::REPO_POOL_LABEL;
use kopiur_controller::naming::{
    normalized_repository_ref, pinned_repo_key, repo_label, RepositoryKind, RepositoryRef,
};
use kopiur_controller::pool::{counts_toward_repo_pool, repo_pool_label, MoverJobKind};
const ALL: &[MoverJobKind] = &[
    MoverJobKind::Backup,
    MoverJobKind::Restore,
    MoverJobKind::RepositoryReplication,
    MoverJobKind::SnapshotReplication,
    MoverJobKind::Maintenance,
    MoverJobKind::Verification,
    MoverJobKind::Pin,
    MoverJobKind::SnapshotDeleteBatch,
    MoverJobKind::Discovery,
    MoverJobKind::BrowseSession,
];

const IN_POOL: &[MoverJobKind] = &[
    MoverJobKind::Backup,
    MoverJobKind::Restore,
    MoverJobKind::RepositoryReplication,
    MoverJobKind::SnapshotReplication,
];

const OUT_OF_POOL: &[MoverJobKind] = &[
    MoverJobKind::Maintenance,
    MoverJobKind::Verification,
    MoverJobKind::Pin,
    MoverJobKind::SnapshotDeleteBatch,
    MoverJobKind::Discovery,
    MoverJobKind::BrowseSession,
];

fn nas() -> RepositoryRef {
    RepositoryRef {
        kind: RepositoryKind::Repository,
        name: "nas".into(),
        namespace: Some("backups".into()),
    }
}
fn assert_all_is_every_variant(k: MoverJobKind) {
    match k {
        MoverJobKind::Backup => assert_eq!(ALL[0], k),
        MoverJobKind::Restore => assert_eq!(ALL[1], k),
        MoverJobKind::RepositoryReplication => assert_eq!(ALL[2], k),
        MoverJobKind::SnapshotReplication => assert_eq!(ALL[3], k),
        MoverJobKind::Maintenance => assert_eq!(ALL[4], k),
        MoverJobKind::Verification => assert_eq!(ALL[5], k),
        MoverJobKind::Pin => assert_eq!(ALL[6], k),
        MoverJobKind::SnapshotDeleteBatch => assert_eq!(ALL[7], k),
        MoverJobKind::Discovery => assert_eq!(ALL[8], k),
        MoverJobKind::BrowseSession => assert_eq!(ALL[9], k),
    }
}

#[test]
fn every_kind_is_covered_by_the_truth_tables() {
    assert_eq!(ALL.len(), 10, "ALL and the destructure must stay in step");
    for k in ALL {
        assert_all_is_every_variant(*k);
    }
    assert_eq!(ALL.len(), IN_POOL.len() + OUT_OF_POOL.len());
    for k in ALL {
        assert!(
            IN_POOL.contains(k) ^ OUT_OF_POOL.contains(k),
            "{k:?} must be in exactly one partition"
        );
        assert_eq!(counts_toward_repo_pool(*k), IN_POOL.contains(k), "{k:?}");
    }
}

#[test]
fn backup_jobs_carry_the_pool_label_with_the_repo_label_value() {
    assert_eq!(
        repo_pool_label(MoverJobKind::Backup, &nas()),
        Some((REPO_POOL_LABEL.to_string(), repo_label(&nas()))),
    );
}

#[test]
fn restore_jobs_carry_the_pool_label_with_the_repo_label_value() {
    assert_eq!(
        repo_pool_label(MoverJobKind::Restore, &nas()),
        Some((REPO_POOL_LABEL.to_string(), repo_label(&nas()))),
    );
}

#[test]
fn repository_replication_jobs_carry_the_pool_label_with_the_repo_label_value() {
    assert_eq!(
        repo_pool_label(MoverJobKind::RepositoryReplication, &nas()),
        Some((REPO_POOL_LABEL.to_string(), repo_label(&nas()))),
    );
}

#[test]
fn snapshot_replication_jobs_carry_the_pool_label_with_the_repo_label_value() {
    assert_eq!(
        repo_pool_label(MoverJobKind::SnapshotReplication, &nas()),
        Some((REPO_POOL_LABEL.to_string(), repo_label(&nas()))),
    );
}

#[test]
fn every_pooled_kind_shares_one_value_so_one_selector_counts_the_pool() {
    let values: std::collections::BTreeSet<String> = IN_POOL
        .iter()
        .map(|k| repo_pool_label(*k, &nas()).expect("pooled").1)
        .collect();
    assert_eq!(values.len(), 1, "one repository ⇒ one pool value");
}

#[test]
fn housekeeping_jobs_carry_no_pool_label_at_all() {
    for kind in OUT_OF_POOL {
        assert_eq!(repo_pool_label(*kind, &nas()), None, "{kind:?}");
    }
}

#[test]
fn a_denormalized_ref_would_split_the_pool() {
    let raw = RepositoryRef {
        kind: RepositoryKind::Repository,
        name: "nas".into(),
        namespace: None,
    };
    assert_ne!(
        repo_pool_label(MoverJobKind::Backup, &raw),
        repo_pool_label(MoverJobKind::Backup, &nas()),
    );
}

#[test]
fn normalizing_a_namespaceless_spec_ref_rejoins_the_pool() {
    let raw = RepositoryRef {
        kind: RepositoryKind::Repository,
        name: "nas".into(),
        namespace: None,
    };
    let normalized = normalized_repository_ref(&raw, "backups");
    assert_eq!(normalized, nas());
    assert_eq!(
        repo_pool_label(MoverJobKind::Backup, &normalized),
        repo_pool_label(MoverJobKind::Backup, &nas()),
    );
    assert_eq!(
        pinned_repo_key(&normalized),
        pinned_repo_key(&nas()),
    );
}

#[test]
fn a_cluster_repository_pool_is_distinct_from_a_namespaced_one_of_the_same_name() {
    let cluster = RepositoryRef {
        kind: RepositoryKind::ClusterRepository,
        name: "nas".into(),
        namespace: None,
    };
    assert_ne!(
        repo_pool_label(MoverJobKind::Backup, &cluster),
        repo_pool_label(MoverJobKind::Backup, &nas()),
    );
}

#[test]
fn two_namespaces_holding_a_repository_of_one_name_get_distinct_pools() {
    let other = RepositoryRef {
        namespace: Some("other".into()),
        ..nas()
    };
    assert_ne!(
        repo_pool_label(MoverJobKind::Backup, &other),
        repo_pool_label(MoverJobKind::Backup, &nas()),
    );
}

#[test]
fn the_pool_label_value_is_a_valid_label_value() {
    let long = RepositoryRef {
        name: "n".repeat(120),
        ..nas()
    };
    let (_, value) = repo_pool_label(MoverJobKind::Backup, &long).expect("pooled");
    assert!(value.len() <= 63, "{} chars", value.len());
    assert!(
        value
            .chars()
            .all(|c| c.is_ascii_alphanumeric() || c == '-' || c == '_' || c == '.')
    );
    assert!(value.starts_with(|c: char| c.is_ascii_alphanumeric()));
    assert!(value.ends_with(|c: char| c.is_ascii_alphanumeric()));
}
