use std::collections::BTreeMap;

use kopiur_controller::error::Error;
use kopiur_controller::io::apply::RepositoryPhase;
use kopiur_controller::io::cached::store_answer;
use kopiur_controller::io::repo::{repo_lookup, repository_ready};
use kopiur_controller::naming::{RepositoryKind, RepositoryRef};

type Objects = BTreeMap<(String, String), &'static str>;

fn objects(all: &[(&str, &str, &'static str)]) -> Objects {
    all.iter()
        .map(|(ns, name, o)| ((ns.to_string(), name.to_string()), *o))
        .collect()
}

/// A point read, and how many live reads it took.
fn fetch(
    store: Option<&Objects>,
    synced: bool,
    live: &Objects,
    ns: &str,
    name: &str,
) -> (Option<&'static str>, usize) {
    let key = (ns.to_string(), name.to_string());
    let hit = store.and_then(|s| s.get(&key).copied());
    match store_answer(store.is_some(), synced, hit) {
        Some(found) => (Some(found), 0),
        None => (live.get(&key).copied(), 1),
    }
}

#[test]
fn fetch_policy_store_hit_makes_no_http_request() {
    let store = objects(&[("team-a", "daily", "cached")]);
    let live = objects(&[("team-a", "daily", "live")]);
    assert_eq!(fetch(Some(&store), true, &live, "team-a", "daily"), (Some("cached"), 0));
}

#[test]
fn fetch_policy_store_miss_is_live_confirmed() {
    let store = objects(&[]);
    let live = objects(&[("team-a", "daily", "live")]);
    assert_eq!(fetch(Some(&store), true, &live, "team-a", "daily"), (Some("live"), 1));
}

#[test]
fn fetch_policy_absent_everywhere_is_confirmed_none() {
    let none = objects(&[]);
    assert_eq!(fetch(Some(&none), true, &none, "team-a", "daily"), (None, 1));
}

#[test]
fn fetch_policy_unsynced_store_goes_live_even_on_would_be_hit() {
    let store = objects(&[("team-a", "daily", "cached")]);
    let live = objects(&[("team-a", "daily", "live")]);
    assert_eq!(fetch(Some(&store), false, &live, "team-a", "daily"), (Some("live"), 1));
}

#[test]
fn fetch_policy_namespace_is_part_of_the_store_key() {
    let store = objects(&[("team-a", "daily", "cached")]);
    let live = objects(&[]);
    assert_eq!(fetch(Some(&store), true, &live, "team-b", "daily"), (None, 1));
}

#[test]
fn fetch_cluster_repository_unset_store_falls_through_live() {
    let live = objects(&[("", "shared", "live")]);
    assert_eq!(fetch(None, true, &live, "", "shared"), (Some("live"), 1));
}

#[test]
fn repository_ready_cached_reads_phase_from_the_store() {
    let store: BTreeMap<&str, Option<RepositoryPhase>> = BTreeMap::from([
        ("ready", Some(RepositoryPhase::Ready)),
        ("cold", Some(RepositoryPhase::Initializing)),
        ("bare", None),
    ]);
    let live: BTreeMap<&str, Option<RepositoryPhase>> = BTreeMap::new();
    let mut live_reads = 0;
    let mut ready = |name: &str| {
        let lookup = repo_lookup(
            &RepositoryRef {
                kind: RepositoryKind::Repository,
                name: name.to_string(),
                namespace: None,
            },
            "team-a",
        );
        let found = match store_answer(true, true, store.get(name)) {
            Some(hit) => Some(hit),
            None => {
                live_reads += 1;
                live.get(name)
            }
        };
        (repository_ready(&lookup, found.map(|p| p.as_ref())), live_reads)
    };
    assert!(matches!(ready("ready"), (Ok(true), 0)));
    assert!(matches!(ready("cold"), (Ok(false), 0)));
    assert!(matches!(ready("bare"), (Ok(false), 0)));
    match ready("gone") {
        (Err(Error::MissingDependency(m)), 1) => {
            assert!(m.contains("Repository team-a/gone"), "{m}")
        }
        other => panic!("{other:?}"),
    }
}
