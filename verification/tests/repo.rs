use kopiur_controller::clock::Moment;
use kopiur_controller::consts::REVERIFY_REQUESTED_ANNOTATION;
use kopiur_controller::error::Error;
use kopiur_controller::io::apply::{Json, RepositoryPhase};
use kopiur_controller::io::cached::{read_from_store, store_answer};
use kopiur_controller::io::conditions::Condition;
use kopiur_controller::io::maintenance::{Maintenance, MaintenanceStatus, RunStatus};
use kopiur_controller::io::meta::OwnerReference;
use kopiur_controller::io::repo::{
    age_seconds, credential_namespace, gather_preflight_inputs, maintenance_recency,
    missing_repository_error,
    mover_creds_secret_refs, mover_creds_secrets, namespace_is_terminating, phase_label,
    read_repo_credential, read_repo_password, repo_credentials, repo_lookup, repository_ready,
    last_reverify_request, request_repository_reverify, resolve_found, Backend, Encryption,
    NamespaceDeletePolicy,
    RepoLookup, RepositoryHealthStatus, RepositoryMode, RepositorySpec, RepositoryStatus,
    SecretKeyRef, SecretRef, StorageStats, DEFAULT_PASSWORD_KEY, REVERIFY_MIN_INTERVAL, UNKNOWN_AGE,
};
use kopiur_controller::naming::{RepositoryKind, RepositoryRef};
use kopiur_controller::strmap::StringMap;

fn filesystem() -> Backend {
    Backend {
        auth_secret_ref: None,
        config: Json::Null,
    }
}

fn enc(name: &str, ns: Option<&str>) -> Encryption {
    Encryption {
        password_secret_ref: SecretKeyRef {
            name: name.to_string(),
            namespace: ns.map(str::to_string),
            key: None,
        },
    }
}

#[test]
fn refs_resolve_source_ns_from_repo_namespace_fallback() {
    let backend = filesystem();
    let refs = mover_creds_secret_refs(&backend, &enc("repo-pw", None), Some("team-a"));
    assert_eq!(refs.len(), 1);
    assert_eq!(refs[0].name, "repo-pw");
    assert_eq!(refs[0].namespace.as_deref(), Some("team-a"));
}

#[test]
fn refs_keep_explicit_ref_namespace_over_fallback() {
    let refs = mover_creds_secret_refs(
        &filesystem(),
        &enc("repo-pw", Some("kopiur-system")),
        None,
    );
    assert_eq!(refs[0].namespace.as_deref(), Some("kopiur-system"));
}

#[test]
fn refs_include_distinct_backend_secret_password_first() {
    let backend = Backend {
        auth_secret_ref: Some(SecretRef {
            name: "s3-keys".into(),
            namespace: Some("kopiur-system".into()),
        }),
        config: Json::Null,
    };
    let refs = mover_creds_secret_refs(&backend, &enc("repo-pw", Some("kopiur-system")), None);
    let names: Vec<_> = refs.iter().map(|r| r.name.as_str()).collect();
    assert_eq!(names, vec!["repo-pw", "s3-keys"]);
}

#[test]
fn mover_creds_secrets_is_names_only_projection() {
    let backend = filesystem();
    assert_eq!(
        mover_creds_secrets(&backend, &enc("repo-pw", Some("x"))),
        vec!["repo-pw"]
    );
}

#[test]
fn read_from_store_truth_table() {
    assert!(read_from_store(true, true));
    assert!(!read_from_store(true, false), "present but cold: go live");
    assert!(!read_from_store(false, true), "unset store: go live");
    assert!(!read_from_store(false, false));
}

#[test]
fn a_store_answers_only_what_it_has() {
    assert_eq!(store_answer(true, true, Some(7)), Some(7));
    assert_eq!(store_answer::<u8>(true, true, None), None);
    assert_eq!(store_answer(true, false, Some(7)), None);
    assert_eq!(store_answer(false, true, Some(7)), None);
}

fn rref(kind: RepositoryKind, name: &str, ns: Option<&str>) -> RepositoryRef {
    RepositoryRef {
        kind,
        name: name.to_string(),
        namespace: ns.map(str::to_string),
    }
}

#[test]
fn lookups_default_the_namespace_of_a_namespaced_repository_alone() {
    let plain = repo_lookup(&rref(RepositoryKind::Repository, "nas", None), "apps");
    assert_eq!(
        plain,
        RepoLookup::Namespaced {
            namespace: "apps".to_string(),
            name: "nas".to_string()
        }
    );
    let other = repo_lookup(&rref(RepositoryKind::Repository, "nas", Some("b")), "apps");
    assert_eq!(
        other,
        RepoLookup::Namespaced {
            namespace: "b".to_string(),
            name: "nas".to_string()
        }
    );
    let cluster = repo_lookup(&rref(RepositoryKind::ClusterRepository, "nas", Some("b")), "apps");
    assert_eq!(
        cluster,
        RepoLookup::Cluster {
            name: "nas".to_string()
        }
    );
}

fn owner() -> OwnerReference {
    OwnerReference {
        api_version: "kopiur.home-operations.com/v1alpha1".into(),
        kind: "Repository".into(),
        name: "nas".into(),
        uid: "u".into(),
        controller: Some(true),
        block_owner_deletion: None,
    }
}

fn spec() -> RepositorySpec {
    RepositorySpec {
        backend: filesystem(),
        encryption: enc("repo-pw", None),
        mover_defaults: None,
        identity_defaults: Some(Json::Bool(true)),
        on_namespace_delete: NamespaceDeletePolicy::Orphan,
        credential_projection_allowed: Some(true),
        mode: RepositoryMode::ReadOnly,
    }
}

#[test]
fn a_found_repository_is_resolved_by_its_kind() {
    let ns = RepoLookup::Namespaced {
        namespace: "apps".to_string(),
        name: "nas".to_string(),
    };
    let r = resolve_found(&ns, Some((spec(), owner()))).expect("found");
    assert_eq!(r.repo_namespace.as_deref(), Some("apps"));
    assert_eq!(r.identity_defaults, None);
    assert!(!r.credential_projection_allowed);
    assert_eq!(r.mode, RepositoryMode::ReadOnly);
    let cluster = RepoLookup::Cluster {
        name: "nas".to_string(),
    };
    let r = resolve_found(&cluster, Some((spec(), owner()))).expect("found");
    assert_eq!(r.repo_namespace, None);
    assert_eq!(r.identity_defaults, Some(Json::Bool(true)));
    assert!(r.credential_projection_allowed);
    for lookup in [&ns, &cluster] {
        match resolve_found(lookup, None) {
            Err(Error::MissingDependency(m)) => {
                assert_eq!(m, missing_repository_error(lookup).message());
                assert!(m.contains("nas"), "{m}");
            }
            other => panic!("{other:?}"),
        }
        assert!(matches!(
            repository_ready(lookup, None),
            Err(Error::MissingDependency(_))
        ));
        assert!(matches!(
            repository_ready(lookup, Some(Some(&RepositoryPhase::Ready))),
            Ok(true)
        ));
        assert!(matches!(
            repository_ready(lookup, Some(Some(&RepositoryPhase::Degraded))),
            Ok(false)
        ));
        assert!(matches!(repository_ready(lookup, Some(None)), Ok(false)));
    }
}

const NOW: Moment = Moment {
    secs: 1_780_000_000,
    nanos: 0,
};

#[test]
fn ages_are_whole_seconds_or_unknown() {
    assert_eq!(age_seconds(None, NOW), (false, UNKNOWN_AGE));
    assert_eq!(age_seconds(Some("soon"), NOW), (false, UNKNOWN_AGE));
    assert_eq!(age_seconds(Some("2026-05-28T20:25:40Z"), NOW), (true, 60));
    assert_eq!(age_seconds(Some("2026-05-28T20:25:40.5Z"), NOW), (true, 59));
    assert_eq!(age_seconds(Some("2030-01-01T00:00:00Z"), NOW), (true, 0));
}

fn maintenance(ran: Option<&str>) -> Maintenance {
    Maintenance {
        namespace: Some("apps".to_string()),
        owner_references: vec![],
        repository: rref(RepositoryKind::Repository, "nas", None),
        status: Some(MaintenanceStatus {
            full: Some(RunStatus {
                last_run_at: ran.map(str::to_string),
                last_handled_at: None,
            }),
            quick: None,
        }),
    }
}

#[test]
fn preflight_inputs_are_read_off_the_status() {
    let lookup = RepoLookup::Namespaced {
        namespace: "apps".to_string(),
        name: "nas".to_string(),
    };
    let status = RepositoryStatus {
        phase: Some(RepositoryPhase::Ready),
        conditions: vec![Condition {
            type_: "BackendReachable".to_string(),
            status: "False".to_string(),
            reason: "r".to_string(),
            message: "m".to_string(),
            observed_generation: None,
            last_transition_time: "t".to_string(),
        }],
        storage_stats: Some(StorageStats {
            snapshot_count: Some(3),
            index_blob_count: None,
            total_size_bytes: Some(9),
        }),
        health: Some(RepositoryHealthStatus {
            last_healthy_at: Some("2026-05-28T20:26:30Z".to_string()),
            consecutive_probe_failures: None,
            first_failure_at: None,
        }),
        last_reverify_at: None,
    };
    let items = vec![maintenance(Some("2026-05-28T20:24:40Z"))];
    let (inputs, ready) =
        gather_preflight_inputs(&lookup, Some(Some(&status)), &items, NOW).expect("found");
    assert!(ready);
    assert_eq!(inputs.repository_phase, "Ready");
    assert!(!inputs.backend_reachable);
    assert_eq!((inputs.snapshot_count_known, inputs.snapshot_count), (true, 3));
    assert!(!inputs.index_blob_count_known);
    assert_eq!((inputs.size_bytes_known, inputs.size_bytes), (true, 9));
    assert_eq!((inputs.last_healthy_known, inputs.last_healthy_age_seconds), (true, 10));
    assert_eq!(
        (inputs.last_reverify_known, inputs.last_reverify_age_seconds),
        (false, UNKNOWN_AGE)
    );
    assert!(inputs.maintenance_has_run);
    assert_eq!(inputs.maintenance_last_success_age_seconds, 120);
    assert!(gather_preflight_inputs(&lookup, None, &items, NOW).is_err());
    let (cold, ready) =
        gather_preflight_inputs(&lookup, Some(None), &vec![maintenance(None)], NOW).expect("found");
    assert!(!ready);
    assert_eq!(cold.repository_phase, "");
    assert!(!cold.maintenance_has_run);
}

#[test]
fn a_ready_repository_is_asked_to_probe_again_when_that_is_due() {
    let ready = RepositoryPhase::Ready;
    assert_eq!(
        request_repository_reverify(Some(Some(&ready)), true, NOW).as_deref(),
        Some("2026-05-28T20:26:40+00:00")
    );
    assert_eq!(request_repository_reverify(Some(Some(&ready)), false, NOW), None);
    assert_eq!(
        request_repository_reverify(Some(Some(&RepositoryPhase::Degraded)), true, NOW),
        None
    );
    assert_eq!(request_repository_reverify(Some(None), true, NOW), None);
    assert_eq!(request_repository_reverify(None, true, NOW), None);
}

#[test]
fn the_last_request_is_read_off_the_annotation() {
    let mut m = StringMap::new();
    assert_eq!(last_reverify_request(Some(&m)), None);
    m.insert("other", "2026-05-28T20:26:00Z");
    assert_eq!(last_reverify_request(Some(&m)), None);
    m.insert(REVERIFY_REQUESTED_ANNOTATION, "2026-05-28T20:26:10Z");
    assert_eq!(
        last_reverify_request(Some(&m)).map(String::as_str),
        Some("2026-05-28T20:26:10Z")
    );
    assert_eq!(last_reverify_request(None), None);
    assert_eq!(REVERIFY_MIN_INTERVAL, 60);
}

#[test]
fn a_namespace_that_is_gone_is_as_good_as_terminating() {
    assert!(namespace_is_terminating(None));
    assert!(namespace_is_terminating(Some((true, Some("Active")))));
    assert!(namespace_is_terminating(Some((false, Some("Terminating")))));
    assert!(!namespace_is_terminating(Some((false, Some("Active")))));
    assert!(!namespace_is_terminating(Some((false, None))));
}

#[test]
fn a_password_is_read_as_text() {
    let creds = repo_credentials(&enc("repo-pw", None));
    assert_eq!(creds.password_key, DEFAULT_PASSWORD_KEY);
    assert_eq!(credential_namespace(&creds, "apps"), "apps");
    let data = |bytes: &[u8]| vec![("KOPIA_PASSWORD".to_string(), bytes.to_vec())];
    let read = Ok((data(b"hunter2"), Some("42".to_string())));
    assert_eq!(
        read_repo_credential("apps", &creds, read).expect("read"),
        ("hunter2".to_string(), "42".to_string())
    );
    match read_repo_password("apps", &creds, Ok((data(&[0x61, 0xff]), None))) {
        Err(Error::Invariant(m)) => assert_eq!(
            m,
            "password not valid utf-8: invalid utf-8 sequence of 1 bytes from index 1"
        ),
        other => panic!("{other:?}"),
    }
    match read_repo_password("apps", &creds, Ok((vec![], None))) {
        Err(Error::MissingDependency(m)) => {
            assert_eq!(m, "secret apps/repo-pw missing key KOPIA_PASSWORD")
        }
        other => panic!("{other:?}"),
    }
    match read_repo_password("apps", &creds, Err("boom".to_string())) {
        Err(Error::MissingDependency(m)) => {
            assert_eq!(m, "credentials secret apps/repo-pw not found: boom")
        }
        other => panic!("{other:?}"),
    }
    assert_eq!(
        read_repo_password("apps", &creds, Ok((data("pä".as_bytes()), None))).expect("read"),
        "pä"
    );
}

#[test]
fn a_phase_has_a_label() {
    assert_eq!(phase_label(&RepositoryPhase::Initializing), "Initializing");
    assert_eq!(phase_label(&RepositoryPhase::Unknown("New".to_string())), "New");
}

#[test]
fn the_newest_maintenance_counts() {
    let items = vec![
        maintenance(Some("2026-05-28T20:26:10Z")),
        maintenance(Some("2026-05-28T20:24:40Z")),
        maintenance(Some("soon")),
    ];
    assert_eq!(
        maintenance_recency(&items, RepositoryKind::Repository, "nas", Some("apps"), NOW),
        (true, 30)
    );
    assert_eq!(
        maintenance_recency(&items, RepositoryKind::Repository, "other", Some("apps"), NOW),
        (false, UNKNOWN_AGE)
    );
}
