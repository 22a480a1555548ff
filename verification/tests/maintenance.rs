use kopiur_controller::clock::Moment;
use kopiur_controller::maintenance::{
    maintenance_job_name, manual_job_name, MaintenanceMode, ManualRunMode,
};

#[test]
fn job_name_is_deterministic_and_within_limit() {
    let slot = Moment::parse_rfc3339("2026-06-06T03:00:00Z").unwrap();
    let short = maintenance_job_name("nas-primary", MaintenanceMode::Full, slot);
    assert!(short.len() <= 52);
    assert!(short.starts_with("nas-primary-f-"));
    assert_eq!(
        short,
        maintenance_job_name("nas-primary", MaintenanceMode::Full, slot)
    );
    assert_ne!(
        short,
        maintenance_job_name("nas-primary", MaintenanceMode::Quick, slot)
    );
    assert_eq!(short, "nas-primary-f-1780714800");
}

#[test]
fn job_name_truncates_and_hashes_long_cr_names() {
    let slot = Moment::parse_rfc3339("2026-06-06T03:00:00Z").unwrap();
    let long = "a-very-long-repository-name-that-blows-the-dns-label-budget-easily";
    let n1 = maintenance_job_name(long, MaintenanceMode::Quick, slot);
    assert!(n1.len() <= 52, "got {} ({} chars)", n1, n1.len());
    assert_eq!(n1, maintenance_job_name(long, MaintenanceMode::Quick, slot));
    let other = "b-very-long-repository-name-that-blows-the-dns-label-budget-easily";
    assert_ne!(
        n1,
        maintenance_job_name(other, MaintenanceMode::Quick, slot)
    );
}

#[test]
fn manual_job_names_never_collide_with_cron_slot_names() {
    let at = Moment::parse_rfc3339("2026-06-11T12:00:00Z").unwrap();
    let manual_q = manual_job_name("maint", ManualRunMode::Quick, at);
    let manual_f = manual_job_name("maint", ManualRunMode::Full, at);
    let cron_q = maintenance_job_name("maint", MaintenanceMode::Quick, at);
    let cron_f = maintenance_job_name("maint", MaintenanceMode::Full, at);
    let names = [&manual_q, &manual_f, &cron_q, &cron_f];
    let unique: std::collections::BTreeSet<_> = names.iter().collect();
    assert_eq!(unique.len(), 4, "{names:?}");
    assert!(manual_q.contains("-mq-"), "{manual_q}");
    assert!(manual_f.contains("-mf-"), "{manual_f}");
    let long = "m".repeat(80);
    assert!(manual_job_name(&long, ManualRunMode::Full, at).len() <= 52);
}
