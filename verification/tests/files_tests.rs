use chrono::NaiveDate;
use hfss_file_manager::clock::LocalNow;
use hfss_file_manager::backup::{
    manifest_summary, snapshot_name_at, BackupProgress,
    backup_record, backup_snapshot_path, backup_target, check_backup_location,
    expired_backup_indices, is_backup_source, new_snapshot_name, run_status, BackupError,
    BackupTally,
};
use hfss_file_manager::digest::{to_hex_lower, ContentChecksum};
use hfss_file_manager::repository::{project_folder, repository_name};
use hfss_file_manager::scan::{
    is_project_file, is_scan_target, project_layout, project_total_size, scan_progress,
    should_enter_scan,
};
use hfss_file_manager::types::{existing_or_new_id, BackupRecord, Timestamp};

#[test]
fn should_enter_scan_skips_results_folders() {
    assert!(!should_enter_scan("/data/repo/Antenna.aedtresults"));
    assert!(!should_enter_scan("/data/repo/Antenna.AEDTResults"));
    assert!(!should_enter_scan("/data/repo/Antenna.aedtresults/"));
    assert!(should_enter_scan("/data/repo/Antenna.aedt"));
    assert!(should_enter_scan("/data/repo/sub"));
    assert!(should_enter_scan("/"));
    assert!(should_enter_scan("/data/.."));
}

#[test]
fn project_files_by_extension_in_any_case() {
    assert!(is_project_file("/r/Antenna.aedt"));
    assert!(is_project_file("/r/Antenna.AEDT"));
    assert!(is_project_file("/r/a.b.AeDt"));
    assert!(!is_project_file("/r/Antenna.aedtresults"));
    assert!(!is_project_file("/r/.aedt"));
    assert!(!is_project_file("/r/aedt"));
    assert!(!is_project_file("/r/Antenna.aedt.bak"));
    assert!(is_scan_target("/r/Antenna.aedt", true));
    assert!(!is_scan_target("/r/Antenna.aedt", false));
    // a project file is never a skipped entry
    for p in ["/r/x.aedt", "/r/x.AEDT", "/r/.x.aedt"] {
        assert!(!is_project_file(p) || should_enter_scan(p));
    }
}

#[test]
fn project_layout_names_results_folder() {
    let l = project_layout("/r/sub/Antenna.aedt");
    assert_eq!(l.project_name, "Antenna");
    assert_eq!(l.results_dir, "/r/sub/Antenna.aedtresults");
    let l = project_layout("Filter.v2.aedt");
    assert_eq!(l.project_name, "Filter.v2");
    assert_eq!(l.results_dir, "Filter.v2.aedtresults");
    let l = project_layout("/");
    assert_eq!(l.project_name, "unknown");
    assert_eq!(l.results_dir, "./unknown.aedtresults");
}

#[test]
fn project_total_size_adds() {
    assert_eq!(project_total_size(1024, 4096), 5120);
    assert_eq!(project_total_size(0, 0), 0);
}

#[test]
fn scan_progress_reports_finished_scan() {
    let p = scan_progress("repo-1", 7);
    assert_eq!(p.repo_id, "repo-1");
    assert_eq!(p.scanned, 7);
    assert_eq!(p.total_hint, 7);
    assert!(p.done);
    assert_eq!(p.message, "full scan finished");
    assert_eq!(p.task_id.len(), 36);
    assert_eq!(&p.task_id[14..15], "4");
    let q = scan_progress("repo-1", 7);
    assert_ne!(p.task_id, q.task_id);
}

#[test]
fn backup_sources_are_exactly_aedt() {
    assert!(is_backup_source("/r/a.aedt"));
    assert!(!is_backup_source("/r/a.AEDT"));
    assert!(!is_backup_source("/r/a.aedtresults"));
    assert!(!is_backup_source("/r/.aedt"));
}

#[test]
fn backup_target_keeps_relative_place() {
    assert_eq!(
        backup_target("/repo", "/bk/HFSS_Backup_1", "/repo/a/b.aedt", true),
        Ok(Some("/bk/HFSS_Backup_1/a/b.aedt".to_string()))
    );
    assert_eq!(backup_target("/repo", "/bk/s", "/repo/a", false), Ok(None));
    assert_eq!(backup_target("/repo", "/bk/s", "/repo/a/b.txt", true), Ok(None));
    assert_eq!(
        backup_target("/repo", "/bk/s", "/other/b.aedt", true),
        Err(BackupError::PrefixNotFound)
    );
    assert_eq!(
        backup_target("/repo", "/bk/s", "/repository/b.aedt", true),
        Err(BackupError::PrefixNotFound)
    );
}

#[test]
fn backup_location_inside_repository_is_refused() {
    assert_eq!(check_backup_location("/repo", "/repo/backups"), Err(BackupError::InsideRepository));
    assert_eq!(check_backup_location("/repo", "/repo"), Err(BackupError::InsideRepository));
    assert_eq!(check_backup_location("/repo", "/repo2/backups"), Ok(()));
    assert_eq!(check_backup_location("/repo", "/backups"), Ok(()));
}

#[test]
fn backup_snapshot_path_joins() {
    assert_eq!(
        backup_snapshot_path("/backups", "HFSS_Backup_20240101_120000"),
        "/backups/HFSS_Backup_20240101_120000"
    );
    assert_eq!(backup_snapshot_path("/backups/", "s"), "/backups/s");
    assert_eq!(backup_snapshot_path("/backups", "/elsewhere"), "/elsewhere");
}

#[test]
fn snapshot_name_format() {
    let name = new_snapshot_name();
    assert!(name.starts_with("HFSS_Backup_"));
    let stamp = &name["HFSS_Backup_".len()..];
    assert_eq!(stamp.len(), 15);
    assert_eq!(&stamp[8..9], "_");
    assert!(stamp.chars().enumerate().all(|(i, c)| i == 8 || c.is_ascii_digit()));
}

fn clock(year: i32, month: u32, day: u32, hour: u32, minute: u32, second: u32) -> LocalNow {
    LocalNow {
        utc_seconds: 0,
        year,
        month,
        day,
        hour,
        minute,
        second,
        weekday_from_monday: 0,
        offset_seconds: 0,
    }
}

#[test]
fn snapshot_names_follow_chrono_format() {
    for (y, mo, d, h, mi, s) in [
        (2024, 5, 1, 9, 5, 7),
        (1999, 12, 31, 23, 59, 59),
        (987, 1, 2, 0, 0, 0),
        (12345, 6, 7, 8, 9, 10),
        (-5, 3, 4, 5, 6, 7),
    ] {
        let expected = format!(
            "HFSS_Backup_{}",
            NaiveDate::from_ymd_opt(y, mo, d).unwrap().and_hms_opt(h, mi, s).unwrap().format("%Y%m%d_%H%M%S")
        );
        assert_eq!(snapshot_name_at(&clock(y, mo, d, h, mi, s)), expected);
    }
    assert_eq!(snapshot_name_at(&clock(2024, 5, 1, 9, 5, 7)), "HFSS_Backup_20240501_090507");
}

#[test]
fn progress_lists_copies_with_counts() {
    let mut p = BackupProgress::new(true);
    assert!(p.wants_checksum());
    assert!(p.has_room_for(10));
    p.record_copy("/r/a.aedt".to_string(), "/s/a.aedt".to_string(), 10, Some("ab".to_string()));
    p.record_copy("/r/b.aedt".to_string(), "/s/b.aedt".to_string(), 32, Some("cd".to_string()));
    assert_eq!(p.tally, BackupTally { file_count: 2, total_bytes: 42 });
    assert_eq!(p.files.len(), 2);
    assert_eq!(p.files[1].src, "/r/b.aedt");
    assert_eq!(p.files[1].dst, "/s/b.aedt");
    assert_eq!(p.files[1].size_bytes, 32);
    assert_eq!(p.files[1].sha256.as_deref(), Some("cd"));
    let created = Timestamp { seconds: 77, nanos: 5 };
    let m = manifest_summary("b1", "r1", "HFSS_Backup_x", created, &p);
    assert_eq!((m.id.as_str(), m.repo_id.as_str(), m.snapshot_name.as_str()), ("b1", "r1", "HFSS_Backup_x"));
    assert_eq!(m.created_at, created);
    assert_eq!((m.file_count, m.total_bytes), (2, 42));
    let plain = BackupProgress::new(false);
    assert!(!plain.wants_checksum());
    assert_eq!(manifest_summary("b2", "r1", "s", created, &plain).file_count, 0);
}

#[test]
fn tally_counts_files_and_bytes() {
    let mut t = BackupTally::new();
    assert!(t.has_room_for(10));
    t.add_file(10);
    t.add_file(32);
    assert_eq!(t.file_count, 2);
    assert_eq!(t.total_bytes, 42);
    let full = BackupTally { file_count: 1, total_bytes: i64::MAX - 5 };
    assert!(full.has_room_for(5));
    assert!(!full.has_room_for(6));
    let most = BackupTally { file_count: i64::MAX, total_bytes: 0 };
    assert!(!most.has_room_for(0));
}

#[test]
fn backup_record_status_and_counts() {
    let t = BackupTally { file_count: 3, total_bytes: 300 };
    let started = Timestamp { seconds: 10, nanos: 1 };
    let finished = Timestamp { seconds: 20, nanos: 2 };
    let ok = backup_record("b1".to_string(), "r1", "/bk", "snap".to_string(), true, started, finished, t);
    assert_eq!(ok.status, "success");
    assert_eq!(ok.id, "b1");
    assert_eq!(ok.repo_id, "r1");
    assert_eq!(ok.backup_root, "/bk");
    assert_eq!(ok.snapshot_name, "snap");
    assert_eq!(ok.started_at, started);
    assert_eq!(ok.finished_at, Some(finished));
    assert_eq!((ok.file_count, ok.total_bytes), (3, 300));
    let failed = backup_record("b2".to_string(), "r1", "/bk", "snap".to_string(), false, started, finished, t);
    assert_eq!(failed.status, "failed");
    assert_eq!(run_status(true), "success");
    assert_eq!(run_status(false), "failed");
}

fn rec(id: &str, repo: &str, root: &str, status: &str, started: i64) -> BackupRecord {
    BackupRecord {
        id: id.to_string(),
        repo_id: repo.to_string(),
        backup_root: root.to_string(),
        snapshot_name: format!("snap-{id}"),
        status: status.to_string(),
        started_at: Timestamp { seconds: started, nanos: 0 },
        finished_at: None,
        file_count: 0,
        total_bytes: 0,
    }
}

#[test]
fn retention_keeps_newest_successful_snapshots() {
    // newest first
    let records = vec![
        rec("a", "r1", "/bk", "success", 600),
        rec("b", "r1", "/bk", "failed", 500),
        rec("c", "r2", "/bk", "success", 450),
        rec("d", "r1", "/bk", "success", 400),
        rec("e", "r1", "/other", "success", 350),
        rec("f", "r1", "/bk", "success", 300),
        rec("g", "r1", "/bk", "running", 200),
        rec("h", "r1", "/bk", "success", 100),
    ];
    assert_eq!(expired_backup_indices(&records, "r1", "/bk", 2), vec![5, 7]);
    assert_eq!(expired_backup_indices(&records, "r1", "/bk", 1), vec![3, 5, 7]);
    assert_eq!(expired_backup_indices(&records, "r1", "/bk", 4), Vec::<usize>::new());
    assert_eq!(expired_backup_indices(&records, "r1", "/bk", 0), Vec::<usize>::new());
    assert_eq!(expired_backup_indices(&records, "r1", "/bk", -3), Vec::<usize>::new());
    assert_eq!(expired_backup_indices(&records, "r2", "/bk", 1), Vec::<usize>::new());
}

#[test]
fn repository_names() {
    assert_eq!(repository_name("/data/projects", Some("Mine".to_string())), "Mine");
    assert_eq!(repository_name("/data/projects", None), "projects");
    assert_eq!(repository_name("/data/projects/", None), "projects");
    assert_eq!(repository_name("/", None), "HFSS Repository");
    assert_eq!(repository_name("/data/..", None), "HFSS Repository");
}

#[test]
fn project_folders() {
    assert_eq!(project_folder("/data/a/Antenna.aedt"), Some("/data/a".to_string()));
    assert_eq!(project_folder("Antenna.aedt"), Some(String::new()));
    assert_eq!(project_folder("/"), None);
}

#[test]
fn checksums_are_lowercase_sha256() {
    let c = ContentChecksum::new();
    assert_eq!(c.finish_hex(), "e3b0c44298fc1c149afbf4c8996fb92427ae41e4649b934ca495991b7852b855");
    let mut c = ContentChecksum::new();
    c.update(b"abc");
    assert_eq!(c.finish_hex(), "ba7816bf8f01cfea414140de5dae2223b00361a396177a9cb410ff61f20015ad");
    let mut c = ContentChecksum::new();
    c.update(b"a");
    c.update(b"");
    c.update(b"bc");
    assert_eq!(c.finish_hex(), "ba7816bf8f01cfea414140de5dae2223b00361a396177a9cb410ff61f20015ad");
}

#[test]
fn hex_digits() {
    assert_eq!(to_hex_lower(&vec![0x00, 0x0f, 0xa5, 0xff]), "000fa5ff");
    assert_eq!(to_hex_lower(&Vec::new()), "");
}

#[test]
fn identifiers() {
    assert_eq!(existing_or_new_id(Some("kept".to_string())), "kept");
    let fresh = existing_or_new_id(None);
    assert_eq!(fresh.len(), 36);
    for (i, c) in fresh.chars().enumerate() {
        if [8, 13, 18, 23].contains(&i) {
            assert_eq!(c, '-');
        } else {
            assert!(c.is_ascii_digit() || ('a'..='f').contains(&c));
        }
    }
    assert_eq!(fresh.chars().nth(14), Some('4'));
    assert!("89ab".contains(fresh.chars().nth(19).unwrap()));
}

#[test]
fn timestamps_order() {
    let a = Timestamp { seconds: 5, nanos: 10 };
    let b = Timestamp { seconds: 5, nanos: 11 };
    let c = Timestamp::at_second(6);
    assert!(a.is_not_after(&b));
    assert!(!b.is_not_after(&a));
    assert!(a.is_not_after(&a));
    assert!(b.is_not_after(&c));
    assert_eq!(c.nanos, 0);
}
