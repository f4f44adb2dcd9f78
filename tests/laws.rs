use timevault::command::{blkid_argv, command_echo, mount_argv, temp_dir_name, unmount_argv, IoNice, Mount, ReMount, SyncCommand, UnMount};
use timevault::admin::{check_enroll_contents, check_enroll_target, fresh_identity, locate_disk_entry, rename_target, resolve_fs_uuid, UuidLink};
use timevault::calendar::{backup_day_for, current_backup_day, format_day_stamp, previous_day, CivilDate};
use timevault::cli::{preprocess_args, split_rsync_args};
use timevault::config::{parse_config_struct, BackupDiskConfig, Config, Job, JobConfig};
use timevault::discovery::{base_block_device_name, candidate_reasons, is_disk_empty, list_unexpected_entries, parse_swaps, probe_failed_reasons, removable_flag};
use timevault::disk::{device_path_for_uuid, mount_options_for_backup, mount_options_for_restore, select_disk, select_first_connected};
use timevault::error::{ConfigError, DiskError, TimevaultError};
use timevault::fs_type::{fs_type_from_probe, FsType};
use timevault::identity::{identity_path, verify_identity, verify_identity_fs_type, DiskIdentity};
use timevault::lock::{backup_failure, lock_decision, lock_holder_pid, should_release_lock, LockDecision, LockObservation};
use timevault::mounts::{device_is_mounted, ensure_disk_not_mounted, find_device_mountpoint, find_mounts_under, mountpoint_is_mounted, parse_mount_table, MountEntry};
use timevault::names::{is_safe_name, job_lock_path};
use timevault::plan::{cascade_source, plan_runs, select_jobs, JobSelectionError};
use timevault::pristine::{detect_package_manager, parse_os_release, PackageManager, cache_lookup, content_hash, entry_after_hash, parse_package_list, pristine_excludes, refresh_entry, CacheEntry, CacheLookup, CachedFile};
use timevault::snapshot::{after_sync_attempt, excludes_file_text, expire_action, nice_ionice_args, plan_current_update, plan_retention, plan_seed, resolve_job_dest, rsync_args, CurrentAction, CurrentState, EntryKind, ExpireAction, SeedStep, SyncStep, WalkEntry};
use timevault::types::{DiskId, FsUuid, RunMode, RunPolicy};

fn disk(id: &str, uuid: &str) -> BackupDiskConfig {
    BackupDiskConfig { disk_id: id.to_string(), fs_uuid: uuid.to_string(), label: None, mount_options: None }
}

fn job(name: &str, policy: RunPolicy, ids: Option<Vec<&str>>) -> Job {
    Job {
        name: name.to_string(),
        source: "/src".to_string(),
        copies: 3,
        run_policy: policy,
        excludes: Vec::new(),
        disk_ids: ids.map(|v| v.into_iter().map(|s| s.to_string()).collect()),
    }
}

fn strings(v: &[&str]) -> Vec<String> {
    v.iter().map(|s| s.to_string()).collect()
}

const PLAIN: RunMode = RunMode { dry_run: false, safe_mode: false, verbose: false };
const SAFE: RunMode = RunMode { dry_run: false, safe_mode: true, verbose: false };
const DRY: RunMode = RunMode { dry_run: true, safe_mode: false, verbose: false };

#[test]
fn safe_names_and_lock_paths() {
    assert!(is_safe_name("home-1.daily_x"));
    assert!(!is_safe_name(""));
    assert!(!is_safe_name("."));
    assert!(!is_safe_name(".."));
    assert!(is_safe_name("..."));
    assert!(!is_safe_name("a/b"));
    assert!(!is_safe_name("naïve"));
    assert_eq!(job_lock_path("home").unwrap(), "/var/run/timevault.home.pid");
    match job_lock_path("../etc") {
        Err(TimevaultError::Message(m)) => {
            assert_eq!(m, "job ../etc name must use only letters, digits, '.', '-', '_'")
        }
        _ => panic!("unsafe name accepted"),
    }
}

#[test]
fn run_policy_parsing() {
    assert_eq!(RunPolicy::parse(" Auto ").unwrap(), RunPolicy::Auto);
    assert_eq!(RunPolicy::parse("DEMAND").unwrap(), RunPolicy::Demand);
    assert_eq!(RunPolicy::parse("off").unwrap(), RunPolicy::Off);
    assert_eq!(
        RunPolicy::parse("weekly").unwrap_err(),
        "invalid run policy weekly; expected auto, demand, or off"
    );
    assert_eq!(RunPolicy::Demand.as_str(), "demand");
    assert!(DiskId::parse("d1").is_ok());
    assert!(DiskId::parse("..").is_err());
    assert_eq!(DiskId::parse("d1").unwrap().as_str(), "d1");
    assert!(FsUuid::parse("  ").is_err());
    assert_eq!(FsUuid::parse("u-1").unwrap().as_str(), "u-1");
}

fn job_cfg(name: &str, ids: Option<Vec<&str>>) -> JobConfig {
    JobConfig {
        name: name.to_string(),
        source: "/home".to_string(),
        copies: 2,
        run: "auto".to_string(),
        excludes: strings(&["*.tmp"]),
        disk_ids: ids.map(|v| v.into_iter().map(|s| s.to_string()).collect()),
    }
}

fn cfg_with(jobs: Vec<JobConfig>, disks: Vec<BackupDiskConfig>) -> Config {
    Config {
        jobs,
        excludes: strings(&["/proc"]),
        backup_disks: disks,
        mount_base: None,
        user_mount_base: Some("/mnt/u".to_string()),
        options: None,
    }
}

fn is_invalid(r: Result<timevault::config::RuntimeConfig, TimevaultError>) -> bool {
    matches!(r, Err(TimevaultError::Config(ConfigError::Invalid(_))))
}

#[test]
fn config_resolution_and_rejections() {
    let rt = parse_config_struct(cfg_with(vec![job_cfg("home", Some(vec!["d1"]))], vec![disk("d1", "u1")])).unwrap();
    assert_eq!(rt.jobs[0].excludes, strings(&["/proc", "*.tmp"]));
    assert_eq!(rt.jobs[0].run_policy, RunPolicy::Auto);
    assert_eq!(rt.mount_base, "/run/timevault/mounts");
    assert_eq!(rt.user_mount_base, "/mnt/u");
    // unknown disk id
    assert!(is_invalid(parse_config_struct(cfg_with(vec![job_cfg("home", Some(vec!["d9"]))], vec![disk("d1", "u1")]))));
    // duplicate fs-uuid
    assert!(is_invalid(parse_config_struct(cfg_with(vec![], vec![disk("d1", "u1"), disk("d2", "u1")]))));
    // a job naming a duplicated disk id
    assert!(is_invalid(parse_config_struct(cfg_with(vec![job_cfg("home", Some(vec!["d1"]))], vec![disk("d1", "u1"), disk("d1", "u2")]))));
    // a duplicated disk id no job names is accepted
    assert!(parse_config_struct(cfg_with(vec![job_cfg("home", None)], vec![disk("d1", "u1"), disk("d1", "u2")])).is_ok());
    // duplicate job names, unsafe names, blank sources, unknown policies
    assert!(is_invalid(parse_config_struct(cfg_with(vec![job_cfg("a", None), job_cfg("a", None)], vec![]))));
    assert!(is_invalid(parse_config_struct(cfg_with(vec![job_cfg("a/b", None)], vec![]))));
    let mut blank = job_cfg("a", None);
    blank.source = "  ".to_string();
    assert!(is_invalid(parse_config_struct(cfg_with(vec![blank], vec![]))));
    let mut weekly = job_cfg("a", None);
    weekly.run = "weekly".to_string();
    assert!(is_invalid(parse_config_struct(cfg_with(vec![weekly], vec![]))));
}

#[test]
fn selection_without_name_needs_exactly_one_connected() {
    let disks = vec![disk("a", "uuid-a"), disk("b", "uuid-b")];
    assert!(matches!(select_disk(&disks, None, &vec![]), Err(TimevaultError::Disk(DiskError::NoDiskConnected))));
    assert!(matches!(
        select_disk(&disks, None, &strings(&["uuid-a", "uuid-b"])),
        Err(TimevaultError::Disk(DiskError::MultipleDisksConnected))
    ));
    assert_eq!(select_disk(&disks, None, &strings(&["uuid-a", "other"])).unwrap().disk_id, "a");
    assert!(matches!(select_disk(&vec![], None, &vec![]), Err(TimevaultError::Disk(DiskError::NoDiskConnected))));
    assert_eq!(select_disk(&vec![], None, &vec![]).unwrap_err().exit_code(), 10);
    assert!(matches!(select_first_connected(&vec![], None, &vec![]), Err(TimevaultError::Disk(DiskError::NoDiskConnected))));
    assert!(matches!(select_disk(&disks, Some("c"), &vec![]), Err(TimevaultError::Disk(DiskError::Other(m))) if m == "disk-id c not found in config"));
    assert!(matches!(select_disk(&disks, Some("b"), &strings(&["uuid-a"])), Err(TimevaultError::Disk(DiskError::Other(m))) if m == "disk-id b not connected"));
    assert_eq!(select_disk(&disks, Some("b"), &strings(&["uuid-b"])).unwrap().fs_uuid, "uuid-b");
    assert_eq!(select_first_connected(&disks, None, &strings(&["uuid-b", "uuid-a"])).unwrap().disk_id, "a");
}

#[test]
fn disk_paths_and_options() {
    assert_eq!(device_path_for_uuid("u1"), "/dev/disk/by-uuid/u1");
    let mut d = disk("d1", "u1");
    assert_eq!(mount_options_for_backup(&d), "rw,nodev,nosuid,noexec");
    assert_eq!(mount_options_for_restore(&d), "ro,nodev,nosuid,noexec");
    d.mount_options = Some("rw,noatime".to_string());
    assert_eq!(mount_options_for_backup(&d), "rw,noatime");
    assert_eq!(identity_path("/mnt/x"), "/mnt/x/.timevault");
    assert_eq!(identity_path("/mnt/x/"), "/mnt/x/.timevault");
}

fn identity(version: u32, id: &str, uuid: &str) -> DiskIdentity {
    DiskIdentity {
        version,
        disk_id: id.to_string(),
        fs_uuid: uuid.to_string(),
        fs_type: Some(FsType::Ext4),
        created: "2025-01-01T00:00:00Z".to_string(),
    }
}

fn mismatch(r: Result<(), TimevaultError>) -> bool {
    matches!(r, Err(TimevaultError::Disk(DiskError::IdentityMismatch(_))))
}

#[test]
fn identity_checks() {
    assert!(verify_identity(&identity(1, "d1", "u1"), "d1", "u1").is_ok());
    assert!(mismatch(verify_identity(&identity(2, "d1", "u1"), "d1", "u1")));
    assert!(mismatch(verify_identity(&identity(1, "d2", "u1"), "d1", "u1")));
    assert!(mismatch(verify_identity(&identity(1, "d1", "u2"), "d1", "u1")));
    match verify_identity(&identity(7, "d1", "u1"), "d1", "u1") {
        Err(TimevaultError::Disk(DiskError::IdentityMismatch(m))) => {
            assert_eq!(m, "version mismatch: expected 1, got 7")
        }
        _ => panic!(),
    }
    assert!(verify_identity_fs_type(&identity(1, "d1", "u1"), &FsType::Ext4).is_ok());
    assert!(mismatch(verify_identity_fs_type(&identity(1, "d1", "u1"), &FsType::Xfs)));
    assert!(matches!(
        verify_identity_fs_type(&identity(1, "d1", "u1"), &FsType::from_str("vfat")),
        Err(TimevaultError::Disk(DiskError::Other(_)))
    ));
}

#[test]
fn fs_type_table() {
    assert_eq!(FsType::from_str("EXT4"), FsType::Ext4);
    assert_eq!(FsType::from_str("zfs_member"), FsType::Zfs);
    assert_eq!(FsType::from_str("NTFS"), FsType::Other("ntfs".to_string()));
    assert_eq!(fs_type_from_probe(" btrfs\n"), FsType::Btrfs);
    assert!(FsType::from_str("exfat").is_rejected());
    assert!(!FsType::from_str("exfat").is_allowed());
    assert!(!FsType::from_str("nilfs2").is_rejected());
    assert!(!FsType::from_str("nilfs2").is_allowed());
    assert_eq!(FsType::Ext4.as_str(), "ext4");
}

#[test]
fn retention_keeps_greatest_dates() {
    let names = strings(&["20250103", "current", "20250101", ".timevault", "20250104", "20250102"]);
    let plan = plan_retention(&names, 2);
    assert_eq!(plan.victims, strings(&["20250101", "20250102"]));
    assert_eq!(plan.kept, strings(&["20250103", "20250104"]));
    let plan = plan_retention(&names, 10);
    assert!(plan.victims.is_empty());
    assert_eq!(plan.kept.len(), 4);
    assert_eq!(expire_action(EntryKind::Dir, PLAIN), ExpireAction::Delete);
    assert_eq!(expire_action(EntryKind::Symlink, PLAIN), ExpireAction::SkipSymlink);
    assert_eq!(expire_action(EntryKind::File, PLAIN), ExpireAction::SkipNonDir);
}

#[test]
fn seeding_links_regular_files() {
    let entries = vec![
        WalkEntry { rel: String::new(), kind: EntryKind::Dir },
        WalkEntry { rel: "etc".to_string(), kind: EntryKind::Dir },
        WalkEntry { rel: "etc/hosts".to_string(), kind: EntryKind::File },
        WalkEntry { rel: "etc/link".to_string(), kind: EntryKind::Symlink },
    ];
    let steps = plan_seed("/d/home/current", "/d/home/20250105", &entries);
    assert_eq!(steps.len(), 4);
    assert!(matches!(steps[0], SeedStep::Skip));
    assert!(matches!(&steps[1], SeedStep::MakeDir(p) if p == "/d/home/20250105/etc"));
    match &steps[2] {
        SeedStep::HardLink { from, to } => {
            assert_eq!(from, "/d/home/current/etc/hosts");
            assert_eq!(to, "/d/home/20250105/etc/hosts");
        }
        _ => panic!(),
    }
    assert!(matches!(steps[3], SeedStep::Skip));
}

#[test]
fn rsync_command_lines() {
    let extra = strings(&["--numeric-ids"]);
    let args = rsync_args("/home", "/d/home/20250105", "/root/tmp/timevault.excludes", &extra, PLAIN);
    assert_eq!(
        args,
        strings(&[
            "rsync", "-ar", "--stats", "--exclude-from=/root/tmp/timevault.excludes", "--delete-after",
            "--delete-excluded", "--numeric-ids", "/home/", "/d/home/20250105/"
        ])
    );
    let safe = rsync_args("/home/", "/d/x", "/e", &vec![], SAFE);
    assert_eq!(safe, strings(&["rsync", "-ar", "--stats", "--exclude-from=/e", "/home/", "/d/x/"]));
    assert!(!safe.contains(&"--delete-after".to_string()));
    let niced = nice_ionice_args(&strings(&["rsync", "-a"]));
    assert_eq!(niced, strings(&["nice", "-n", "19", "ionice", "-c", "3", "-n7", "rsync", "-a"]));
    assert_eq!(after_sync_attempt(1, 0), SyncStep::Succeeded);
    assert_eq!(after_sync_attempt(3, 24), SyncStep::Succeeded);
    assert_eq!(after_sync_attempt(2, 23), SyncStep::Retry);
    assert_eq!(after_sync_attempt(3, 23), SyncStep::GaveUp);
}

#[test]
fn current_link_updates() {
    assert_eq!(plan_current_update(true, true, CurrentState::Symlink, PLAIN), CurrentAction::Replace);
    assert_eq!(plan_current_update(true, true, CurrentState::Absent, PLAIN), CurrentAction::Create);
    assert_eq!(plan_current_update(true, true, CurrentState::Dir, PLAIN), CurrentAction::SkipDir);
    assert_eq!(plan_current_update(false, true, CurrentState::Symlink, PLAIN), CurrentAction::Leave);
    assert_eq!(plan_current_update(true, false, CurrentState::Absent, PLAIN), CurrentAction::Leave);
}

#[test]
fn safe_and_dry_runs_change_nothing() {
    for mode in [SAFE, DRY] {
        assert_eq!(expire_action(EntryKind::Dir, mode), ExpireAction::Describe);
        assert_eq!(plan_current_update(true, true, CurrentState::Symlink, mode), CurrentAction::Describe);
        assert_eq!(plan_current_update(true, true, CurrentState::Absent, mode), CurrentAction::Describe);
    }
    assert!(!timevault::command::should_execute(DRY));
    assert!(!timevault::lock::lock_needed(DRY));
    assert!(!timevault::command::mounts_disks(DRY));
    assert!(!timevault::command::flushes_buffers(DRY));
    assert!(timevault::command::mounts_disks(SAFE));
    assert_eq!(timevault::snapshot::step_mode(DRY), timevault::snapshot::StepMode::Describe);
}

#[test]
fn excludes_file_and_destination() {
    let text = excludes_file_text(&strings(&["/proc", "*.tmp"]), &strings(&["/usr/bin/ls"]));
    assert_eq!(text, "/proc\n*.tmp\n/usr/bin/ls\n");
    let j = job("home", RunPolicy::Auto, None);
    assert_eq!(resolve_job_dest(&j, "/mnt/u1").unwrap(), "/mnt/u1/home");
    assert!(resolve_job_dest(&job("..", RunPolicy::Auto, None), "/mnt").is_err());
}

#[test]
fn backup_day_is_previous_calendar_day() {
    let d = |year, month, day| CivilDate { year, month, day };
    assert_eq!(previous_day(d(2025, 3, 1)), d(2025, 2, 28));
    assert_eq!(previous_day(d(2024, 3, 1)), d(2024, 2, 29));
    assert_eq!(previous_day(d(2000, 3, 1)), d(2000, 2, 29));
    assert_eq!(previous_day(d(1900, 3, 1)), d(1900, 2, 28));
    assert_eq!(previous_day(d(2025, 1, 1)), d(2024, 12, 31));
    assert_eq!(backup_day_for(d(2025, 1, 6)), "20250105");
    assert_eq!(format_day_stamp(d(987, 7, 4)), "09870704");
    assert_eq!(format_day_stamp(d(12345, 1, 2)), "+123450102");
    let stamp = current_backup_day();
    assert_eq!(stamp.len(), 8);
    assert!(stamp.chars().all(|c| c.is_ascii_digit()));
}

#[test]
fn pristine_cache_flips_and_keeps_hash() {
    let h0 = content_hash(b"original");
    let h1 = content_hash(b"modified");
    assert_ne!(h0, h1);
    assert_eq!(content_hash(b"abc"), "ba7816bf8f01cfea414140de5dae2223b00361a396177a9cb410ff61f20015ad");
    let e0 = refresh_entry(None, 10, b"original");
    assert!(!e0.dirty);
    assert_eq!(e0.hash, h0);
    assert!(matches!(cache_lookup(Some(&e0), 10), CacheLookup::Reuse(_)));
    assert!(matches!(cache_lookup(Some(&e0), 11), CacheLookup::Hash));
    let e1 = refresh_entry(Some(&e0), 11, b"modified");
    assert!(e1.dirty);
    assert_eq!(e1.hash, h0);
    let e2 = entry_after_hash(Some(&e1), 12, h0.clone());
    assert!(!e2.dirty);
    assert_eq!(e2.hash, h0);
    assert_eq!(e2.mtime, 12);
    let files = vec![
        CachedFile { path: "/usr/b".to_string(), entry: CacheEntry { mtime: 1, hash: "x".to_string(), dirty: false } },
        CachedFile { path: "/usr/c".to_string(), entry: CacheEntry { mtime: 1, hash: "x".to_string(), dirty: true } },
        CachedFile { path: "/usr/a".to_string(), entry: CacheEntry { mtime: 1, hash: "x".to_string(), dirty: false } },
    ];
    assert_eq!(pristine_excludes(&files), strings(&["/usr/a", "/usr/b"]));
    let mut twice = files.clone();
    twice.push(CachedFile { path: "/usr/a".to_string(), entry: CacheEntry { mtime: 1, hash: "x".to_string(), dirty: false } });
    assert_eq!(pristine_excludes(&twice), strings(&["/usr/a", "/usr/b"]));
    assert_eq!(content_hash(b"").len(), 64);
    assert_eq!(parse_package_list(" /usr/bin/ls \nrelative\n\n/etc/hosts"), strings(&["/usr/bin/ls", "/etc/hosts"]));
}

#[test]
fn mount_table_queries() {
    let table = parse_mount_table(
        "/dev/sda1 / ext4 rw,relatime 0 0\n/dev/sdb1 /run/timevault/user-mounts/tv-1 ext4 ro,nodev 0 0\nbad\n/dev/sdb1 /mnt/again\n",
    );
    assert_eq!(table.len(), 3);
    assert!(device_is_mounted(&table, "/dev/sdb1"));
    assert!(!device_is_mounted(&table, "/dev/sdc1"));
    assert_eq!(find_device_mountpoint(&table, "/dev/sdb1").unwrap(), "/run/timevault/user-mounts/tv-1");
    assert!(mountpoint_is_mounted(&table, "/"));
    assert!(!mountpoint_is_mounted(&table, "/mnt"));
    assert_eq!(find_mounts_under(&table, "/run/timevault/user-mounts"), strings(&["/run/timevault/user-mounts/tv-1"]));
    assert!(find_mounts_under(&table, "/run/timevault/user").is_empty());
    assert!(matches!(ensure_disk_not_mounted(&table, "/dev/sda1"), Err(TimevaultError::Disk(DiskError::Other(m))) if m == "device /dev/sda1 is already mounted"));
    assert!(ensure_disk_not_mounted(&table, "/dev/sdc1").is_ok());
    let entry = MountEntry::from_contents("/run/timevault/user-mounts/tv-1", "/dev/sdb1 /run/timevault/user-mounts/tv-1 ext4 ro,nodev 0 0\n");
    assert_eq!(entry.is_mounted(), Ok(true));
    assert_eq!(entry.is_readonly(), Ok(true));
    assert!(MountEntry::from_contents("/x", "").is_readonly().is_err());
}

#[test]
fn lock_decisions() {
    assert_eq!(lock_holder_pid(" 1234\n"), Some(1234));
    assert_eq!(lock_holder_pid("+7"), Some(7));
    assert_eq!(lock_holder_pid("4294967296"), None);
    assert_eq!(lock_holder_pid("12a"), None);
    assert_eq!(lock_holder_pid(""), None);
    assert_eq!(lock_decision(1, LockObservation::Created), LockDecision::Acquired);
    assert_eq!(lock_decision(1, LockObservation::HeldByLive), LockDecision::Held);
    assert_eq!(lock_decision(2, LockObservation::StaleRemoved), LockDecision::Retry);
    assert_eq!(lock_decision(3, LockObservation::Vanished), LockDecision::GiveUp);
    assert_eq!(lock_decision(1, LockObservation::Failed), LockDecision::Fail);
    assert!(should_release_lock("42\n", 42, true));
    assert!(!should_release_lock("43", 42, true));
    assert!(!should_release_lock("42", 42, false));
    assert_eq!(backup_failure("job home is already running"), (3, "job home is already running".to_string()));
    assert_eq!(
        backup_failure("failed to lock /var/run/x: denied"),
        (2, "failed to lock /var/run/x: denied (need write permission; try sudo or adjust permissions)".to_string())
    );
    assert_eq!(backup_failure("rsync failed"), (1, "backup failed: rsync failed".to_string()));
}

#[test]
fn argument_preprocessing() {
    let raw = strings(&["tv", "--disk-enroll", "--backup", "--dry-run", "--disk-discover"]);
    assert_eq!(preprocess_args(raw), strings(&["tv", "disk", "enroll", "--dry-run", "disk", "discover"]));
    let (args, extra) = split_rsync_args(strings(&["tv", "--job", "home", "--rsync", "-v", "--rsync"]));
    assert_eq!(args, strings(&["tv", "--job", "home"]));
    assert_eq!(extra, strings(&["-v", "--rsync"]));
    let (args, extra) = split_rsync_args(strings(&["tv"]));
    assert_eq!(args, strings(&["tv"]));
    assert!(extra.is_empty());
}

#[test]
fn job_selection_rules() {
    let jobs = vec![job("a", RunPolicy::Auto, None), job("b", RunPolicy::Demand, None), job("c", RunPolicy::Off, None)];
    assert_eq!(select_jobs(&jobs, &vec![]).unwrap(), vec![0]);
    assert_eq!(select_jobs(&jobs, &strings(&["b", "a"])).unwrap(), vec![0, 1]);
    assert!(matches!(select_jobs(&jobs, &strings(&["c"])), Err(JobSelectionError::Disabled(n)) if n == "c"));
    assert!(matches!(select_jobs(&jobs, &strings(&["z", "a"])), Err(JobSelectionError::NotFound(v)) if v == strings(&["z"])));
    let quiet = vec![job("b", RunPolicy::Demand, None)];
    assert!(matches!(select_jobs(&quiet, &vec![]), Err(JobSelectionError::NoAutoJobs)));
}

#[test]
fn cascade_plan() {
    let connected = vec![disk("d1", "u1"), disk("d2", "u2")];
    let jobs = vec![job("home", RunPolicy::Auto, None), job("etc", RunPolicy::Auto, Some(vec!["d2"]))];
    let runs = plan_runs(&jobs, &connected, true).unwrap();
    let shape: Vec<(usize, Vec<usize>, Option<usize>)> = runs.iter().map(|r| (r.disk, r.jobs.clone(), r.cascade_from)).collect();
    assert_eq!(shape, vec![(0, vec![0], None), (1, vec![0], Some(0)), (1, vec![1], None)]);
    let runs = plan_runs(&jobs, &connected, false).unwrap();
    assert_eq!(runs.len(), 2);
    let stray = vec![job("x", RunPolicy::Auto, Some(vec!["d9"]))];
    assert!(matches!(plan_runs(&stray, &connected, true), Err(TimevaultError::Message(_))));
    assert_eq!(cascade_source("/run/timevault/mounts/u1", "home"), "/run/timevault/mounts/u1/home/current");
}

#[test]
fn discovery_rules() {
    assert_eq!(base_block_device_name("/dev/sda1").unwrap(), "sda");
    assert_eq!(base_block_device_name("/dev/nvme0n1p2").unwrap(), "nvme0n1");
    assert_eq!(base_block_device_name("/dev/mmcblk0p1").unwrap(), "mmcblk0");
    assert_eq!(base_block_device_name("/dev/dm-0").unwrap(), "dm-");
    assert!(base_block_device_name("/dev/123").is_none());
    assert!(base_block_device_name("/").is_none());
    assert_eq!(removable_flag("1\n"), Some(true));
    assert_eq!(removable_flag("0"), Some(false));
    assert_eq!(removable_flag("x"), None);
    assert_eq!(parse_swaps("Filename Type Size\n/dev/sda2 partition 100\n\n"), strings(&["/dev/sda2"]));
    assert_eq!(candidate_reasons(Some(true), Some(true), true, true), strings(&["removable", "mounted-empty", "timevault-identity", "enrolled"]));
    assert!(candidate_reasons(Some(false), None, false, false).is_empty());
    assert_eq!(probe_failed_reasons(Some(true)), strings(&["removable", "probe-failed"]));
    assert!(probe_failed_reasons(None).is_empty());
    assert!(is_disk_empty(&strings(&["lost+found"])));
    assert!(!is_disk_empty(&strings(&["lost+found", "data"])));
    assert_eq!(list_unexpected_entries(&strings(&["lost+found", "data"])), strings(&["data"]));
}

#[test]
fn enrollment_checks() {
    let disks = vec![disk("d1", "u1")];
    assert!(check_enroll_target(&disks, "d2", "u2", &FsType::Ext4).is_ok());
    assert!(matches!(check_enroll_target(&disks, "d1", "u2", &FsType::Ext4), Err(TimevaultError::Disk(DiskError::Other(_)))));
    assert!(matches!(check_enroll_target(&disks, "d2", "u1", &FsType::Ext4), Err(TimevaultError::Disk(DiskError::Other(_)))));
    assert!(matches!(check_enroll_target(&disks, "d2", "u2", &FsType::from_str("vfat")), Err(TimevaultError::Disk(DiskError::Other(_)))));
    assert!(matches!(check_enroll_target(&disks, "a b", "u2", &FsType::Ext4), Err(TimevaultError::Message(_))));
    assert!(matches!(check_enroll_contents(true, &vec![], false), Err(TimevaultError::Disk(DiskError::Other(_)))));
    match check_enroll_contents(false, &strings(&["lost+found", "a", "b"]), false) {
        Err(TimevaultError::Disk(DiskError::DiskNotEmpty(m))) => assert_eq!(m, "a, b"),
        _ => panic!(),
    }
    assert!(check_enroll_contents(true, &strings(&["a"]), true).is_ok());
    let id = fresh_identity("d2", "u2", FsType::Xfs);
    assert_eq!(id.version, 1);
    assert!(!id.created.is_empty());
    let links = vec![
        UuidLink { name: "u1".to_string(), target: "/dev/sda1".to_string() },
        UuidLink { name: "u2".to_string(), target: "/dev/sdb1".to_string() },
    ];
    assert_eq!(resolve_fs_uuid(Some("given"), None, &links).unwrap().as_str(), "given");
    assert_eq!(resolve_fs_uuid(None, Some("/dev/sdb1"), &links).unwrap().as_str(), "u2");
    assert!(resolve_fs_uuid(None, Some("/dev/sdc1"), &links).is_err());
    assert!(resolve_fs_uuid(None, None, &links).is_err());
    assert_eq!(resolve_fs_uuid(None, None, &links[..1].to_vec()).unwrap().as_str(), "u1");
    assert!(resolve_fs_uuid(None, None, &vec![]).is_err());
}

#[test]
fn locating_and_renaming() {
    let disks = vec![disk("a", "u1"), disk("a", "u2"), disk("b", "u3")];
    assert_eq!(locate_disk_entry(&disks, None, Some("u2")).unwrap(), Some(1));
    assert_eq!(locate_disk_entry(&disks, Some("b"), Some("u2")).unwrap(), None);
    assert_eq!(locate_disk_entry(&disks, Some("b"), None).unwrap(), Some(2));
    assert!(locate_disk_entry(&disks, Some("a"), None).is_err());
    assert!(locate_disk_entry(&disks, Some("z"), None).is_err());
    assert!(rename_target(&disks, Some("b"), None, "a").is_err());
    assert!(rename_target(&disks, None, None, "c").is_err());
    assert!(rename_target(&disks, Some("b"), None, "bad id").is_err());
    assert_eq!(rename_target(&disks, Some("b"), None, "c").unwrap(), Some(2));
    let renamed = timevault::admin::renamed_identity(identity(1, "b", "u3"), "c");
    assert_eq!(renamed.disk_id, "c");
    assert_eq!(renamed.fs_uuid, "u3");
    assert!(timevault::admin::check_identity_uuid(&renamed, "u3").is_ok());
    assert!(mismatch(timevault::admin::check_identity_uuid(&renamed, "u4")));
}

#[test]
fn error_texts_and_exit_codes() {
    assert_eq!(TimevaultError::Disk(DiskError::NoDiskConnected).exit_code(), 10);
    assert_eq!(TimevaultError::Disk(DiskError::MultipleDisksConnected).exit_code(), 11);
    assert_eq!(TimevaultError::Disk(DiskError::IdentityMismatch("x".to_string())).exit_code(), 12);
    assert_eq!(TimevaultError::Disk(DiskError::DiskNotEmpty("x".to_string())).exit_code(), 13);
    assert_eq!(TimevaultError::Disk(DiskError::MountFailure("x".to_string())).exit_code(), 14);
    assert_eq!(TimevaultError::Disk(DiskError::UmountFailure("x".to_string())).exit_code(), 14);
    assert_eq!(TimevaultError::Disk(DiskError::Other("x".to_string())).exit_code(), 2);
    assert_eq!(TimevaultError::message("m".to_string()).exit_code(), 2);
    assert_eq!(TimevaultError::Config(ConfigError::Parse("bad".to_string())).describe(), "parse config: bad");
    assert_eq!(DiskError::IdentityMismatch("diskId mismatch".to_string()).describe(), "identity diskId mismatch");
    assert_eq!(TimevaultError::Io("disk full".to_string()).describe(), "disk full");
}

#[test]
fn candidate_rendering() {
    let c = timevault::discovery::DiskCandidate {
        uuid: "u1".to_string(),
        device: "/dev/sdb1".to_string(),
        mounted_at: None,
        capacity_bytes: None,
        empty: Some(true),
        removable: None,
        reasons: strings(&["mounted-empty", "enrolled"]),
        identity: Some(identity(1, "d1", "u1")),
        enrolled: true,
        fs_type: Some(FsType::Ext4),
    };
    let lines = timevault::discovery::render_candidate(&c, Some("2.00 TB".to_string()));
    assert_eq!(
        lines,
        strings(&[
            "uuid: u1",
            "  device: /dev/sdb1",
            "  mounted: no",
            "  capacity: 2.00 TB",
            "  enrolled: yes",
            "  identity.diskId: d1",
            "  identity.fsUuid: u1",
            "  identity.fsType: ext4",
            "  identity.created: 2025-01-01T00:00:00Z",
            "  fsType: ext4",
            "  empty: yes",
            "  removable: unknown",
            "  reason: mounted-empty, enrolled",
        ])
    );
}

#[test]
fn os_description_and_job_names() {
    let info = parse_os_release("ID=fedora\nID_LIKE=\"rhel centos\"\nVERSION_ID=40\n# comment\n");
    assert_eq!(timevault::pristine::format_os_info(&info), "linux id=fedora id_like=rhel,centos version_id=40");
    assert_eq!(detect_package_manager(&info), Some(PackageManager::Rpm));
    assert_eq!(timevault::pristine::format_package_manager(PackageManager::Dpkg), "dpkg");
    assert!(timevault::config::validate_dependencies(&vec![job("a", RunPolicy::Auto, None)]).is_ok());
    assert_eq!(
        timevault::config::validate_dependencies(&vec![job("a", RunPolicy::Auto, None), job("a", RunPolicy::Off, None)]),
        Err("duplicate job name a".to_string())
    );
    assert!(timevault::config::validate_dependencies(&vec![job("a b", RunPolicy::Auto, None)]).is_err());
}

#[test]
fn external_command_lines() {
    assert_eq!(mount_argv("ro", "/dev/sdb1", "/mnt"), strings(&["mount", "-o", "ro", "/dev/sdb1", "/mnt"]));
    assert_eq!(unmount_argv("/mnt"), strings(&["umount", "/mnt"]));
    assert_eq!(blkid_argv("/dev/sdb1"), strings(&["blkid", "-o", "value", "-s", "TYPE", "/dev/sdb1"]));
    assert_eq!(Mount("/m".to_string()).argv(), strings(&["mount", "-oremount,ro", "/m"]));
    assert_eq!(ReMount("/m".to_string()).argv(), strings(&["mount", "/m"]));
    assert_eq!(UnMount("/m".to_string()).argv(), strings(&["umount", "/m"]));
    assert_eq!(SyncCommand.argv(), strings(&["sync"]));
    assert_eq!(IoNice(strings(&["ls"])).argv(), strings(&["nice", "-n", "19", "ionice", "-c", "3", "-n7", "ls"]));
    assert_eq!(command_echo(&strings(&["mount", "-o", "ro"])), "mount -o ro");
    assert_eq!(temp_dir_name("tv", 42, "20250101120000123"), "tv-42-20250101120000123");
    let g = timevault::command::MountGuard::new("/mnt/x".to_string(), true);
    assert_eq!(g.mountpoint(), "/mnt/x");
    assert!(g.removes_dir());
}

#[test]
fn identity_mismatch_ends_with_code_12() {
    let err = verify_identity(&identity(1, "d2", "uuid-1"), "d1", "uuid-1").unwrap_err();
    assert_eq!(err.exit_code(), 12);
    assert_eq!(err.describe(), "identity diskId mismatch: expected d1, got d2");
}

#[test]
fn held_lock_ends_with_code_3() {
    let err = timevault::lock::lock_held_error("home");
    assert_eq!(backup_failure(&err.describe()), (3, "job home is already running".to_string()));
}
