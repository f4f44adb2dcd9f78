use timevault::config::{parse_config_struct, BackupDiskConfig, Config, ConfigOptions, JobConfig, RuntimeConfig};
use timevault::discovery::{find_duplicate_disk_ids, DiskCandidate};
use timevault::disk::select_disk_from_connected;
use timevault::fs_type::FsType;
use timevault::identity::{verify_identity, DiskIdentity, IDENTITY_VERSION};
use timevault::pristine::{detect_package_manager, parse_os_release, OsFamily, OsInfo, PackageManager};
use timevault::snapshot::{ensure_trailing_slash, normalize_rsync_source};
use timevault::admin::unenroll_disk;

fn disk(id: &str, uuid: &str) -> BackupDiskConfig {
    BackupDiskConfig {
        disk_id: id.to_string(),
        fs_uuid: uuid.to_string(),
        label: None,
        mount_options: None,
    }
}

fn no_options() -> ConfigOptions {
    ConfigOptions {
        exclude_pristine: false,
        cascade: false,
        verbose: false,
        safe: false,
        rsync: Vec::new(),
    }
}

#[test]
fn parse_config_with_backup_disks() {
    let cfg = Config {
        jobs: vec![JobConfig {
            name: "primary".to_string(),
            source: "/".to_string(),
            copies: 2,
            run: "auto".to_string(),
            excludes: vec![],
            disk_ids: None,
        }],
        excludes: vec![],
        backup_disks: vec![BackupDiskConfig {
            disk_id: "disk1".to_string(),
            fs_uuid: "uuid-1".to_string(),
            label: None,
            mount_options: None,
        }],
        mount_base: None,
        user_mount_base: None,
        options: None,
    };
    let runtime = parse_config_struct(cfg).unwrap();
    assert_eq!(runtime.backup_disks.len(), 1);
    assert_eq!(runtime.backup_disks[0].disk_id, "disk1");
}

#[test]
fn verify_identity_matches() {
    let disk = BackupDiskConfig {
        disk_id: "disk1".to_string(),
        fs_uuid: "uuid-1".to_string(),
        label: None,
        mount_options: None,
    };
    let identity = DiskIdentity {
        version: IDENTITY_VERSION,
        disk_id: "disk1".to_string(),
        fs_uuid: "uuid-1".to_string(),
        fs_type: None,
        created: "2025-01-01T00:00:00Z".to_string(),
    };
    assert!(verify_identity(&identity, &disk.disk_id, &disk.fs_uuid).is_ok());
}

#[test]
fn timevault_select_disk_with_connected_uuids() {
    let disks = vec![
        BackupDiskConfig {
            disk_id: "a".to_string(),
            fs_uuid: "uuid-a".to_string(),
            label: None,
            mount_options: None,
        },
        BackupDiskConfig {
            disk_id: "b".to_string(),
            fs_uuid: "uuid-b".to_string(),
            label: None,
            mount_options: None,
        },
    ];
    let connected = ["uuid-b".to_string()].into_iter().collect();
    let selected = select_disk_from_connected(&disks, None, &connected).unwrap();
    assert_eq!(selected.disk_id, "b");
}

#[test]
fn mod_select_disk_with_connected_uuids() {
    let disks = vec![
        BackupDiskConfig {
            disk_id: "a".to_string(),
            fs_uuid: "uuid-a".to_string(),
            label: None,
            mount_options: None,
        },
        BackupDiskConfig {
            disk_id: "b".to_string(),
            fs_uuid: "uuid-b".to_string(),
            label: None,
            mount_options: None,
        },
    ];
    let connected = ["uuid-b".to_string()].into_iter().collect();
    let selected = select_disk_from_connected(&disks, None, &connected).unwrap();
    assert_eq!(selected.disk_id, "b");
}

#[test]
fn parse_os_release_fields() {
    let content = r#"
NAME="Ubuntu"
VERSION_ID="22.04"
ID=ubuntu
ID_LIKE=debian
"#;
    let info = parse_os_release(content);
    assert_eq!(info.family, OsFamily::Linux);
    assert_eq!(info.name.as_deref(), Some("Ubuntu"));
    assert_eq!(info.version_id.as_deref(), Some("22.04"));
    assert_eq!(info.id.as_deref(), Some("ubuntu"));
    assert_eq!(info.id_like, vec!["debian".to_string()]);
}

#[test]
fn detect_package_manager_by_id_like() {
    let info = OsInfo {
        family: OsFamily::Linux,
        id: Some("custom".to_string()),
        id_like: vec!["arch".to_string()],
        name: None,
        version_id: None,
    };
    assert_eq!(detect_package_manager(&info), Some(PackageManager::Pacman));
}

#[test]
fn normalize_rsync_source_always_trailing_slash() {
    assert_eq!(normalize_rsync_source("/"), "/");
    assert_eq!(normalize_rsync_source("/tmp"), "/tmp/");
    assert_eq!(normalize_rsync_source("host:/var"), "host:/var/");
    assert_eq!(normalize_rsync_source("relative/path"), "relative/path/");
}

#[test]
fn ensure_trailing_slash_adds_when_missing() {
    assert_eq!(ensure_trailing_slash("/tmp"), "/tmp/");
    assert_eq!(ensure_trailing_slash("/tmp/"), "/tmp/");
}

fn candidate_with_identity(disk_id: &str, fs_uuid: &str) -> DiskCandidate {
    DiskCandidate {
        uuid: fs_uuid.to_string(),
        device: "/dev/sdz1".to_string(),
        mounted_at: None,
        capacity_bytes: None,
        empty: None,
        removable: None,
        reasons: Vec::new(),
        identity: Some(DiskIdentity {
            version: IDENTITY_VERSION,
            disk_id: disk_id.to_string(),
            fs_uuid: fs_uuid.to_string(),
            fs_type: None,
            created: "2025-01-01T00:00:00Z".to_string(),
        }),
        enrolled: false,
        fs_type: None,
    }
}

fn runtime_with(disks: Vec<BackupDiskConfig>) -> RuntimeConfig {
    RuntimeConfig {
        jobs: Vec::new(),
        backup_disks: disks,
        mount_base: "/run/timevault/mounts".to_string(),
        user_mount_base: "/run/timevault/user-mounts".to_string(),
        options: no_options(),
    }
}

#[test]
fn duplicate_disk_ids_ignores_matching_config_and_identity() {
    let cfg = runtime_with(vec![disk("disk-a", "uuid-a")]);
    let candidates = vec![candidate_with_identity("disk-a", "uuid-a")];
    let dupes = find_duplicate_disk_ids(&cfg, &candidates);
    assert!(dupes.is_empty());
}

#[test]
fn duplicate_disk_ids_reports_mismatched_fs_uuid() {
    let cfg = runtime_with(vec![disk("disk-a", "uuid-a")]);
    let candidates = vec![candidate_with_identity("disk-a", "uuid-b")];
    let dupes = find_duplicate_disk_ids(&cfg, &candidates);
    assert_eq!(dupes, vec!["disk-a".to_string()]);
}

#[test]
fn duplicate_disk_ids_reports_duplicate_config_entries() {
    let cfg = runtime_with(vec![disk("disk-a", "uuid-a"), disk("disk-a", "uuid-b")]);
    let dupes = find_duplicate_disk_ids(&cfg, &[]);
    assert_eq!(dupes, vec!["disk-a".to_string()]);
}

fn catalog(disks: Vec<BackupDiskConfig>) -> Config {
    Config {
        jobs: Vec::new(),
        excludes: Vec::new(),
        backup_disks: disks,
        mount_base: None,
        user_mount_base: None,
        options: None,
    }
}

#[test]
fn disk_unenroll_by_fs_uuid_removes_entry() {
    let mut cfg = catalog(vec![disk("disk-a", "uuid-a"), disk("disk-b", "uuid-b")]);
    unenroll_disk(&mut cfg, None, Some("uuid-a")).expect("unenroll");
    assert_eq!(cfg.backup_disks.len(), 1);
    assert_eq!(cfg.backup_disks[0].disk_id, "disk-b");
}

#[test]
fn disk_unenroll_by_disk_id_removes_entry() {
    let mut cfg = catalog(vec![disk("disk-a", "uuid-a"), disk("disk-b", "uuid-b")]);
    unenroll_disk(&mut cfg, Some("disk-b"), None).expect("unenroll");
    assert_eq!(cfg.backup_disks.len(), 1);
    assert_eq!(cfg.backup_disks[0].disk_id, "disk-a");
}

#[test]
fn disk_unenroll_requires_selector() {
    let mut cfg = catalog(Vec::new());
    assert!(unenroll_disk(&mut cfg, None, None).is_err());
}

#[test]
fn disk_unenroll_disk_id_requires_fs_uuid_when_duplicate() {
    let mut cfg = catalog(vec![disk("disk-a", "uuid-a"), disk("disk-a", "uuid-b")]);
    assert!(unenroll_disk(&mut cfg, Some("disk-a"), None).is_err());
}

#[test]
fn disk_unenroll_disk_id_not_found() {
    let mut cfg = catalog(vec![disk("disk-a", "uuid-a")]);
    assert!(unenroll_disk(&mut cfg, Some("disk-b"), None).is_err());
}

#[test]
fn fs_type_allowlist() {
    assert!(FsType::from_str("ext4").is_allowed());
    assert!(FsType::from_str("xfs").is_allowed());
    assert!(!FsType::from_str("vfat").is_allowed());
    assert!(FsType::from_str("vfat").is_rejected());
}
