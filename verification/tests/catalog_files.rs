use hostdni::catalog::{generate_id, get_stats, Catalogs, CreateBackupRequest};
use hostdni::files::{backup_filename, get_backup_files, has_backup_suffix, BackupListing};
use hostdni::hosts::HostsFs;

fn listing(name: &str, ts: u64) -> BackupListing {
    BackupListing {
        filename: name.to_string(),
        file_path: format!("/tmp/{}", name),
        backup_date: format!("date-{}", ts),
        file_size: 10,
        created_timestamp: ts,
    }
}

#[test]
fn backup_suffix_detection() {
    assert!(has_backup_suffix("hosts_20240101.backup"));
    assert!(has_backup_suffix(".backup"));
    assert!(!has_backup_suffix("backup"));
    assert!(!has_backup_suffix("hosts.bak"));
    assert!(!has_backup_suffix("hosts.backup.txt"));
}

#[test]
fn backup_listing_filters_and_sorts_newest_first() {
    let candidates = vec![
        listing("a.backup", 10),
        listing("notes.txt", 99),
        listing("b.backup", 30),
        listing("c.backup", 20),
    ];
    let files = get_backup_files(&candidates);
    assert_eq!(files.len(), 3);
    assert_eq!(files[0].filename, "b.backup");
    assert_eq!(files[1].filename, "c.backup");
    assert_eq!(files[2].filename, "a.backup");
}

#[test]
fn backup_filename_is_stamped() {
    assert_eq!(backup_filename("20240101_120000"), "hosts_20240101_120000.backup");
}

#[test]
fn create_backup_stores_and_replaces_by_id() {
    let mut cat = Catalogs::new();
    let req = CreateBackupRequest { name: "first".to_string(), description: None };
    let cfg = cat.create_backup(&req, "id-1".to_string(), 7, 100);
    assert_eq!(cfg.name, "first");
    assert_eq!(cfg.entries_count, 7);
    assert_eq!(cfg.created_at, 100);
    assert_eq!(cat.get_backups().len(), 1);
    let req2 = CreateBackupRequest {
        name: "second".to_string(),
        description: Some("fresh".to_string()),
    };
    cat.create_backup(&req2, "id-2".to_string(), 8, 200);
    assert_eq!(cat.get_backups().len(), 2);
    // same identifier replaces, as a map insert would
    let req3 = CreateBackupRequest { name: "third".to_string(), description: None };
    cat.create_backup(&req3, "id-1".to_string(), 9, 300);
    let backups = cat.get_backups();
    assert_eq!(backups.len(), 2);
    assert_eq!(backups[0].name, "third");
    assert_eq!(backups[1].name, "second");
}

#[test]
fn stats_count_catalogs_and_records() {
    let mut cat = Catalogs::new();
    let req = CreateBackupRequest { name: "b".to_string(), description: None };
    cat.create_backup(&req, "id".to_string(), 0, 0);
    let fs = HostsFs {
        active: Some("10.0.0.1 one\n10.0.0.2 two\n".to_string()),
        disabled: None,
        backup: None,
    };
    let stats = get_stats(&fs, &cat, 0);
    assert_eq!(stats.host_entries, 2);
    assert_eq!(stats.backups, 1);
    assert_eq!(stats.allow_lists, 0);
    assert_eq!(stats.block_lists, 0);
    let gone = HostsFs { active: None, disabled: None, backup: None };
    assert_eq!(get_stats(&gone, &cat, 0).host_entries, 0);
}

#[test]
fn generated_ids_are_uuid_shaped() {
    let a = generate_id();
    let b = generate_id();
    assert_eq!(a.len(), 36);
    assert_ne!(a, b);
    assert_eq!(a.chars().filter(|c| *c == '-').count(), 4);
}

#[test]
fn backup_file_rows_carry_names_and_dates() {
    let row = hostdni::files::BackupFile {
        filename: "hosts_20240101_120000.backup".to_string(),
        backup_date: "2024-01-01 12:00:00".to_string(),
        file_path: "/tmp/hosts_20240101_120000.backup".to_string(),
    };
    assert!(has_backup_suffix(&row.filename));
    assert_eq!(row.backup_date, "2024-01-01 12:00:00");
}
