//! Administrative operations on the disk catalog: resolving the filesystem
//! to enroll, the checks of enrollment, and locating, removing and renaming
//! catalog entries.

use vstd::prelude::*;
use crate::config::{BackupDiskConfig, Config};
use crate::discovery::{is_disk_empty, list_unexpected_entries, allowed_on_empty_disk};
use crate::error::{DiskError, TimevaultError};
use crate::fs_type::{FsType, fs_allowed, fs_rejected};
use crate::identity::{DiskIdentity, IDENTITY_VERSION};
use crate::names::{safe_name, is_safe_name};
use crate::text::{concat_str, join_texts, str_eq, trimmed};
use crate::types::FsUuid;

verus! {

/// An entry of the directory of filesystem UUIDs and the device it leads to.
#[derive(Debug, Clone)]
pub struct UuidLink {
    pub name: String,
    /// The canonical path of the device.
    pub target: String,
}

/// The index of the first link to `device`.
pub open spec fn first_link_to(links: Seq<UuidLink>, device: Seq<char>) -> Option<int> {
    if exists|k: int| 0 <= k < links.len() && #[trigger] links[k].target@ == device {
        Some(
            choose|k: int|
                0 <= k < links.len() && #[trigger] links[k].target@ == device && forall|m: int|
                    0 <= m < k ==> #[trigger] links[m].target@ != device,
        )
    } else {
        None
    }
}

/// The UUID of the filesystem to enroll: the one given; else that of the
/// link to the given device (canonical path); else the only one present.
/// A blank UUID, no link to the device, or no or several UUIDs present
/// without a device given, are errors.
pub fn resolve_fs_uuid(fs_uuid: Option<&str>, device: Option<&str>, links: &Vec<UuidLink>) -> (r: Result<
    FsUuid,
    TimevaultError,
>)
    ensures
        fs_uuid matches Some(u) ==> (r is Ok <==> trimmed(u@).len() > 0) && (r matches Ok(x) ==> x@ == u@),
        fs_uuid is None && device is Some ==> match first_link_to(links@, device->Some_0@) {
            Some(k) => (r is Ok <==> trimmed(links@[k].name@).len() > 0) && (r matches Ok(x) ==> x@
                == links@[k].name@),
            None => r is Err,
        },
        fs_uuid is None && device is None ==> (links@.len() != 1 ==> r is Err) && (links@.len() == 1
            ==> (r is Ok <==> trimmed(links@[0].name@).len() > 0) && (r matches Ok(x) ==> x@
            == links@[0].name@)),
        r matches Err(e) ==> e is Message,
{
    if let Some(u) = fs_uuid {
        return match FsUuid::parse(u) {
            Ok(x) => Ok(x),
            Err(m) => Err(TimevaultError::Message(m)),
        };
    }
    if let Some(dev) = device {
        let mut i: usize = 0;
        while i < links.len()
            invariant
                i <= links.len(),
                fs_uuid is None,
                device == Some(dev),
                forall|m: int| 0 <= m < i ==> #[trigger] links@[m].target@ != dev@,
            decreases links.len() - i,
        {
            if str_eq(links[i].target.as_str(), dev) {
                proof {
                    let w = choose|k: int|
                        0 <= k < links@.len() && #[trigger] links@[k].target@ == dev@ && forall|m: int|
                            0 <= m < k ==> #[trigger] links@[m].target@ != dev@;
                    if w < i {
                        assert(links@[w].target@ != dev@);
                    }
                    if w > i {
                        assert(links@[i as int].target@ != dev@);
                    }
                }
                return match FsUuid::parse(links[i].name.as_str()) {
                    Ok(x) => Ok(x),
                    Err(m) => Err(TimevaultError::Message(m)),
                };
            }
            i = i + 1;
        }
        let m = concat_str("no filesystem UUID found for device ", dev);
        return Err(TimevaultError::Message(m));
    }
    if links.len() == 1 {
        return match FsUuid::parse(links[0].name.as_str()) {
            Ok(x) => Ok(x),
            Err(m) => Err(TimevaultError::Message(m)),
        };
    }
    if links.len() == 0 {
        return Err(
            TimevaultError::Message(
                String::from_str("no filesystem UUIDs found; specify --fs-uuid or --device"),
            ),
        );
    }
    Err(
        TimevaultError::Message(
            String::from_str("multiple filesystem UUIDs found; specify --fs-uuid or --device"),
        ),
    )
}

/// Some disk of the catalog has the UUID `u`.
pub open spec fn uuid_enrolled(disks: Seq<BackupDiskConfig>, u: Seq<char>) -> bool {
    exists|k: int| 0 <= k < disks.len() && #[trigger] disks[k].fs_uuid@ == u
}

/// Some disk of the catalog has the id `d`.
pub open spec fn id_enrolled(disks: Seq<BackupDiskConfig>, d: Seq<char>) -> bool {
    exists|k: int| 0 <= k < disks.len() && #[trigger] disks[k].disk_id@ == d
}

/// Whether some disk has the UUID `u`.
fn has_uuid(disks: &Vec<BackupDiskConfig>, u: &str) -> (r: bool)
    ensures
        r == uuid_enrolled(disks@, u@),
{
    let mut i: usize = 0;
    while i < disks.len()
        invariant
            i <= disks.len(),
            forall|k: int| 0 <= k < i ==> #[trigger] disks@[k].fs_uuid@ != u@,
        decreases disks.len() - i,
    {
        if str_eq(disks[i].fs_uuid.as_str(), u) {
            return true;
        }
        i = i + 1;
    }
    false
}

/// Whether some disk has the id `d`.
fn has_id(disks: &Vec<BackupDiskConfig>, d: &str) -> (r: bool)
    ensures
        r == id_enrolled(disks@, d@),
{
    let mut i: usize = 0;
    while i < disks.len()
        invariant
            i <= disks.len(),
            forall|k: int| 0 <= k < i ==> #[trigger] disks@[k].disk_id@ != d@,
        decreases disks.len() - i,
    {
        if str_eq(disks[i].disk_id.as_str(), d) {
            return true;
        }
        i = i + 1;
    }
    false
}

/// The checks made before a disk is mounted for enrollment: a safe disk id,
/// an admitted filesystem type, and neither id nor UUID already enrolled.
pub open spec fn enroll_admissible(disks: Seq<BackupDiskConfig>, disk_id: Seq<char>, fs_uuid: Seq<char>, t: FsType) -> bool {
    &&& safe_name(disk_id)
    &&& fs_allowed(t) && !fs_rejected(t)
    &&& !id_enrolled(disks, disk_id)
    &&& !uuid_enrolled(disks, fs_uuid)
}

/// Checks a disk before it is mounted for enrollment.
pub fn check_enroll_target(disks: &Vec<BackupDiskConfig>, disk_id: &str, fs_uuid: &str, fs_type: &FsType) -> (r:
    Result<(), TimevaultError>)
    ensures
        r is Ok <==> enroll_admissible(disks@, disk_id@, fs_uuid@, *fs_type),
        r matches Err(e) ==> (!safe_name(disk_id@) ==> e is Message) && (safe_name(disk_id@)
            ==> e matches TimevaultError::Disk(DiskError::Other(_))),
{
    if !is_safe_name(disk_id) {
        let mut m = concat_str("disk-id ", disk_id);
        m.append(" must use only letters, digits, '.', '-', '_'");
        return Err(TimevaultError::Message(m));
    }
    if has_uuid(disks, fs_uuid) {
        let mut m = concat_str("fs-uuid ", fs_uuid);
        m.append(" already enrolled");
        return Err(TimevaultError::Disk(DiskError::Other(m)));
    }
    if fs_type.is_rejected() || !fs_type.is_allowed() {
        let m = concat_str("unsupported filesystem type ", fs_type.as_str());
        return Err(TimevaultError::Disk(DiskError::Other(m)));
    }
    if has_id(disks, disk_id) {
        let mut m = concat_str("disk-id ", disk_id);
        m.append(" already enrolled");
        return Err(TimevaultError::Disk(DiskError::Other(m)));
    }
    Ok(())
}

/// The checks made on the mounted disk: without `force`, no identity file
/// may exist and the root must hold nothing but `lost+found`.
pub fn check_enroll_contents(identity_exists: bool, entries: &Vec<String>, force: bool) -> (r: Result<
    (),
    TimevaultError,
>)
    ensures
        r is Ok <==> force || (!identity_exists && forall|k: int|
            0 <= k < entries@.len() ==> allowed_on_empty_disk(#[trigger] entries@[k]@)),
        r matches Err(e) ==> (identity_exists ==> e matches TimevaultError::Disk(DiskError::Other(_)))
            && (!identity_exists ==> e matches TimevaultError::Disk(DiskError::DiskNotEmpty(_))),
{
    if force {
        return Ok(());
    }
    if identity_exists {
        return Err(
            TimevaultError::Disk(
                DiskError::Other(
                    String::from_str("identity file already exists; use --force to reinitialize"),
                ),
            ),
        );
    }
    if !is_disk_empty(entries) {
        let unexpected = list_unexpected_entries(entries);
        return Err(TimevaultError::Disk(DiskError::DiskNotEmpty(join_texts(&unexpected, ", "))));
    }
    Ok(())
}

/// The identity written on enrollment: the current version, the given id,
/// UUID and type, and the time of writing.
pub fn fresh_identity(disk_id: &str, fs_uuid: &str, fs_type: FsType) -> (r: DiskIdentity)
    ensures
        r.version == IDENTITY_VERSION,
        r.disk_id@ == disk_id@,
        r.fs_uuid@ == fs_uuid@,
        r.fs_type == Some(fs_type),
{
    DiskIdentity {
        version: IDENTITY_VERSION,
        disk_id: String::from_str(disk_id),
        fs_uuid: String::from_str(fs_uuid),
        fs_type: Some(fs_type),
        created: crate::calendar::utc_now_rfc3339(),
    }
}

/// The catalog entry of a newly enrolled disk.
pub fn enrolled_entry(disk_id: &str, fs_uuid: &str, label: Option<String>, mount_options: Option<String>) -> (r:
    BackupDiskConfig)
    ensures
        r.disk_id@ == disk_id@,
        r.fs_uuid@ == fs_uuid@,
        r.label == label,
        r.mount_options == mount_options,
{
    BackupDiskConfig {
        disk_id: String::from_str(disk_id),
        fs_uuid: String::from_str(fs_uuid),
        label,
        mount_options,
    }
}

/// How a catalog entry is looked up by disk id and filesystem UUID.
pub enum Located {
    /// The entry at this index.
    Found(int),
    /// A UUID was given and no entry matches.
    Missing,
    /// Only a disk id was given, and no entry, or more than one, has it.
    NotFound,
    Ambiguous,
}

/// The entry matches the selectors: its UUID is `u`, and its id is `d` when
/// one is given.
pub open spec fn entry_matches(e: BackupDiskConfig, d: Option<Seq<char>>, u: Seq<char>) -> bool {
    e.fs_uuid@ == u && (d matches Some(x) ==> e.disk_id@ == x)
}

/// The outcome of looking up an entry: by UUID (and id, when given) the
/// first match; by id alone the only entry with that id.
pub open spec fn locate(disks: Seq<BackupDiskConfig>, d: Option<Seq<char>>, u: Option<Seq<char>>) -> Located {
    match u {
        Some(uu) => if exists|k: int| 0 <= k < disks.len() && entry_matches(#[trigger] disks[k], d, uu) {
            Located::Found(
                choose|k: int|
                    0 <= k < disks.len() && entry_matches(#[trigger] disks[k], d, uu) && forall|m: int|
                        0 <= m < k ==> !entry_matches(#[trigger] disks[m], d, uu),
            )
        } else {
            Located::Missing
        },
        None => match d {
            None => Located::NotFound,
            Some(x) => if !id_enrolled(disks, x) {
                Located::NotFound
            } else if exists|a: int, b: int|
                0 <= a < b < disks.len() && #[trigger] disks[a].disk_id@ == x && #[trigger] disks[b].disk_id@
                    == x {
                Located::Ambiguous
            } else {
                Located::Found(choose|k: int| 0 <= k < disks.len() && #[trigger] disks[k].disk_id@ == x)
            },
        },
    }
}

/// The view of an optional string slice.
pub open spec fn opt_view(o: Option<&str>) -> Option<Seq<char>> {
    match o {
        Some(s) => Some(s@),
        None => None,
    }
}

/// The result `r` is what the lookup comes to: the index found, no entry,
/// or an error.
pub open spec fn located_result(r: Result<Option<usize>, TimevaultError>, l: Located) -> bool {
    match l {
        Located::Found(k) => r == Ok::<Option<usize>, TimevaultError>(Some(k as usize)),
        Located::Missing => r == Ok::<Option<usize>, TimevaultError>(None),
        _ => r matches Err(TimevaultError::Message(_)),
    }
}

/// Looks up a catalog entry by UUID (and disk id, when given), or by disk
/// id alone, which must then be unambiguous.
pub fn locate_disk_entry(disks: &Vec<BackupDiskConfig>, disk_id: Option<&str>, fs_uuid: Option<&str>) -> (r:
    Result<Option<usize>, TimevaultError>)
    ensures
        located_result(r, locate(disks@, opt_view(disk_id), opt_view(fs_uuid))),
        r matches Ok(Some(k)) ==> k < disks@.len() && locate(disks@, opt_view(disk_id), opt_view(fs_uuid))
            == Located::Found(k as int),
{
    let ghost d = opt_view(disk_id);
    match fs_uuid {
        Some(u) => {
            let mut i: usize = 0;
            while i < disks.len()
                invariant
                    i <= disks.len(),
                    d == opt_view(disk_id),
                    fs_uuid == Some(u),
                    forall|m: int| 0 <= m < i ==> !entry_matches(#[trigger] disks@[m], d, u@),
                decreases disks.len() - i,
            {
                let id_ok = match disk_id {
                    Some(x) => str_eq(disks[i].disk_id.as_str(), x),
                    None => true,
                };
                if str_eq(disks[i].fs_uuid.as_str(), u) && id_ok {
                    proof {
                        assert(entry_matches(disks@[i as int], d, u@));
                        let w = choose|k: int|
                            0 <= k < disks@.len() && entry_matches(#[trigger] disks@[k], d, u@) && forall|m: int|
                                0 <= m < k ==> !entry_matches(#[trigger] disks@[m], d, u@);
                        if w < i {
                            assert(!entry_matches(disks@[w], d, u@));
                        }
                        if w > i {
                            assert(!entry_matches(disks@[i as int], d, u@));
                        }
                    }
                    return Ok(Some(i));
                }
                i = i + 1;
            }
            Ok(None)
        },
        None => {
            let id = match disk_id {
                Some(x) => x,
                None => {
                    return Err(
                        TimevaultError::Message(
                            String::from_str("disk-id not found in config; use --fs-uuid"),
                        ),
                    );
                },
            };
            let mut found: Option<usize> = None;
            let mut i: usize = 0;
            while i < disks.len()
                invariant
                    i <= disks.len(),
                    fs_uuid is None,
                    disk_id == Some(id),
                    found matches Some(k) ==> k < i && disks@[k as int].disk_id@ == id@,
                    found is None ==> forall|k: int| 0 <= k < i ==> #[trigger] disks@[k].disk_id@ != id@,
                    found matches Some(k) ==> forall|m: int|
                        0 <= m < i && m != k ==> #[trigger] disks@[m].disk_id@ != id@,
                decreases disks.len() - i,
            {
                if str_eq(disks[i].disk_id.as_str(), id) {
                    match found {
                        Some(k) => {
                            assert(disks@[k as int].disk_id@ == id@ && disks@[i as int].disk_id@ == id@);
                            return Err(
                                TimevaultError::Message(
                                    String::from_str(
                                        "multiple disks with disk-id; use --fs-uuid to disambiguate",
                                    ),
                                ),
                            );
                        },
                        None => {
                            found = Some(i);
                        },
                    }
                }
                i = i + 1;
            }
            match found {
                Some(k) => {
                    proof {
                        assert(disks@[k as int].disk_id@ == id@);
                        let w = choose|w: int| 0 <= w < disks@.len() && #[trigger] disks@[w].disk_id@ == id@;
                        if w != k {
                            assert(disks@[w].disk_id@ != id@);
                        }
                        if exists|a: int, b: int|
                            0 <= a < b < disks@.len() && #[trigger] disks@[a].disk_id@ == id@
                                && #[trigger] disks@[b].disk_id@ == id@ {
                            let (a, b) = choose|a: int, b: int|
                                0 <= a < b < disks@.len() && #[trigger] disks@[a].disk_id@ == id@
                                    && #[trigger] disks@[b].disk_id@ == id@;
                            assert(a == k || disks@[a].disk_id@ != id@);
                        }
                    }
                    Ok(Some(k))
                },
                None => Err(
                    TimevaultError::Message(String::from_str("disk-id not found in config; use --fs-uuid")),
                ),
            }
        },
    }
}

/// Removes a disk from the catalog, selected by disk id and/or filesystem
/// UUID; the disk itself is not touched. At least one selector is needed,
/// a disk id given must be a safe name, and the selection must find one
/// entry. On failure the catalog is unchanged.
pub fn unenroll_disk(cfg: &mut Config, disk_id: Option<&str>, fs_uuid: Option<&str>) -> (r: Result<
    (),
    TimevaultError,
>)
    ensures
        r is Ok <==> (disk_id is Some || fs_uuid is Some) && (disk_id matches Some(x) ==> safe_name(x@))
            && locate(old(cfg).backup_disks@, opt_view(disk_id), opt_view(fs_uuid)) is Found,
        r is Ok ==> (locate(old(cfg).backup_disks@, opt_view(disk_id), opt_view(fs_uuid)) matches Located::Found(k)
            && final(cfg).backup_disks@ == old(cfg).backup_disks@.remove(k)),
        r is Err ==> final(cfg).backup_disks@ == old(cfg).backup_disks@,
        final(cfg).jobs == old(cfg).jobs,
        final(cfg).excludes == old(cfg).excludes,
        final(cfg).mount_base == old(cfg).mount_base,
        final(cfg).user_mount_base == old(cfg).user_mount_base,
{
    if let Some(x) = disk_id {
        if !is_safe_name(x) {
            let mut m = concat_str("disk-id ", x);
            m.append(" must use only letters, digits, '.', '-', '_'");
            return Err(TimevaultError::Message(m));
        }
    }
    if disk_id.is_none() && fs_uuid.is_none() {
        return Err(
            TimevaultError::Message(String::from_str("disk unenroll requires --disk-id or --fs-uuid")),
        );
    }
    match locate_disk_entry(&cfg.backup_disks, disk_id, fs_uuid) {
        Ok(Some(k)) => {
            cfg.backup_disks.remove(k);
            Ok(())
        },
        Ok(None) => Err(TimevaultError::Message(String::from_str("disk not found in config"))),
        Err(e) => Err(e),
    }
}

/// Where a rename applies: to the catalog entry at an index, or, when no
/// entry matches the UUID given, to the disk's identity alone.
pub fn rename_target(disks: &Vec<BackupDiskConfig>, disk_id: Option<&str>, fs_uuid: Option<&str>, new_id: &str) -> (r:
    Result<Option<usize>, TimevaultError>)
    ensures
        r is Ok ==> safe_name(new_id@) && (disk_id is Some || fs_uuid is Some) && !id_enrolled(
            disks@,
            new_id@,
        ),
        safe_name(new_id@) && (disk_id is Some || fs_uuid is Some) && !id_enrolled(disks@, new_id@)
            ==> located_result(r, locate(disks@, opt_view(disk_id), opt_view(fs_uuid))),
        r matches Ok(Some(k)) ==> k < disks@.len(),
{
    if !is_safe_name(new_id) {
        let mut m = concat_str("disk-id ", new_id);
        m.append(" must use only letters, digits, '.', '-', '_'");
        return Err(TimevaultError::Message(m));
    }
    if disk_id.is_none() && fs_uuid.is_none() {
        return Err(
            TimevaultError::Message(String::from_str("disk rename requires --disk-id or --fs-uuid")),
        );
    }
    if has_id(disks, new_id) {
        let mut m = concat_str("disk-id ", new_id);
        m.append(" already exists");
        return Err(TimevaultError::Message(m));
    }
    locate_disk_entry(disks, disk_id, fs_uuid)
}

/// The identity with its disk id replaced by `new_id`, all else kept.
pub fn renamed_identity(identity: DiskIdentity, new_id: &str) -> (r: DiskIdentity)
    ensures
        r.disk_id@ == new_id@,
        r.version == identity.version,
        r.fs_uuid == identity.fs_uuid,
        r.fs_type == identity.fs_type,
        r.created == identity.created,
{
    DiskIdentity { disk_id: String::from_str(new_id), ..identity }
}

/// The identity found on a disk being renamed must carry its UUID;
/// `IdentityMismatch` otherwise.
pub fn check_identity_uuid(identity: &DiskIdentity, fs_uuid: &str) -> (r: Result<(), TimevaultError>)
    ensures
        r is Ok <==> identity.fs_uuid@ == fs_uuid@,
        r matches Err(e) ==> e matches TimevaultError::Disk(DiskError::IdentityMismatch(_)),
{
    if !str_eq(identity.fs_uuid.as_str(), fs_uuid) {
        let mut m = concat_str("fsUuid mismatch: expected ", fs_uuid);
        m.append(", got ");
        m.append(identity.fs_uuid.as_str());
        return Err(TimevaultError::Disk(DiskError::IdentityMismatch(m)));
    }
    Ok(())
}

/// The error for a disk without an identity file at `path`.
pub fn missing_identity_error(path: &str, disk_id: &str, fs_uuid: &str) -> (r: TimevaultError)
    ensures
        r matches TimevaultError::Disk(DiskError::IdentityMismatch(_)),
{
    let mut m = concat_str("file missing at ", path);
    m.append("; expected diskId ");
    m.append(disk_id);
    m.append(" fsUuid ");
    m.append(fs_uuid);
    m.append(" (run `timevault disk enroll ...`)");
    TimevaultError::Disk(DiskError::IdentityMismatch(m))
}

} // verus!
