use kopiur_controller::naming::{capped_name, discovery_job_name, repo_tag6, short_hash};

#[test]
fn capped_name_passes_short_names_through() {
    assert_eq!(capped_name("app-nightly-delete"), "app-nightly-delete");
}

#[test]
fn capped_name_caps_long_names_uniquely_and_deterministically() {
    let long_a = format!("{}-snap-a-delete", "n".repeat(80));
    let long_b = format!("{}-snap-b-delete", "n".repeat(80));
    let a = capped_name(&long_a);
    assert!(a.len() <= 63, "{} chars", a.len());
    assert_eq!(a, capped_name(&long_a), "deterministic across reconciles");
    assert_ne!(a, capped_name(&long_b), "distinct inputs stay distinct");
}

#[test]
fn capped_name_hash_is_pinned_across_toolchains() {
    let long_a = format!("{}-snap-a-delete", "n".repeat(80));
    assert!(capped_name(&long_a).ends_with("-78b92bff1e6d5c26"));
}

#[test]
fn short_hash_is_pinned_across_toolchains() {
    assert_eq!(short_hash("postgres-data"), "5a5d7a49");
}

#[test]
fn repo_tag6_is_pinned_stable_and_label_safe() {
    let tag = repo_tag6("Repository/backups/nas");
    assert_eq!(tag, &short_hash("Repository/backups/nas")[..6]);
    assert_eq!(tag.len(), 6);
    assert!(tag.chars().all(|c| c.is_ascii_hexdigit()));
    assert_eq!(tag, repo_tag6("Repository/backups/nas"), "deterministic");
    assert_ne!(
        tag,
        repo_tag6("ClusterRepository/nas"),
        "distinct repos stay distinct"
    );
}
#[test]
fn the_suffix_is_the_one_every_lookup_site_uses() {
    assert_eq!(discovery_job_name("nas"), "nas-discovery");
    assert_eq!(discovery_job_name("shared"), "shared-discovery");
}
