//! The disk registry: mount options, device paths, and the rules that pick
//! the disk a backup is written to.

use vstd::prelude::*;
use crate::config::BackupDiskConfig;
use crate::error::{DiskError, TimevaultError};
use crate::names::{join_path, join_path_exec};
use crate::text::{concat_str, strs_view};

verus! {

/// Mount options of a backup, unless the disk overrides them.
pub const DEFAULT_BACKUP_MOUNT_OPTS: &'static str = "rw,nodev,nosuid,noexec";

/// Mount options of a restore.
pub const DEFAULT_RESTORE_MOUNT_OPTS: &'static str = "ro,nodev,nosuid,noexec";

/// The directory whose entries name the filesystems present.
pub const BY_UUID_DIR: &'static str = "/dev/disk/by-uuid";

/// A copy of an optional string.
pub fn clone_opt_string(v: &Option<String>) -> (r: Option<String>)
    ensures
        r == *v,
{
    match v {
        Some(s) => Some(s.clone()),
        None => None,
    }
}

impl BackupDiskConfig {
    /// A field-by-field copy.
    pub fn duplicate(&self) -> (r: BackupDiskConfig)
        ensures
            r == *self,
    {
        BackupDiskConfig {
            disk_id: self.disk_id.clone(),
            fs_uuid: self.fs_uuid.clone(),
            label: clone_opt_string(&self.label),
            mount_options: clone_opt_string(&self.mount_options),
        }
    }
}

/// The options a backup mounts the disk with.
pub fn mount_options_for_backup(disk: &BackupDiskConfig) -> (r: String)
    ensures
        r@ == match disk.mount_options {
            Some(o) => o@,
            None => DEFAULT_BACKUP_MOUNT_OPTS@,
        },
{
    match &disk.mount_options {
        Some(o) => o.clone(),
        None => String::from_str(DEFAULT_BACKUP_MOUNT_OPTS),
    }
}

/// The options a restore mounts the disk with: read-only, whatever the disk.
pub fn mount_options_for_restore(_disk: &BackupDiskConfig) -> (r: String)
    ensures
        r@ == DEFAULT_RESTORE_MOUNT_OPTS@,
{
    String::from_str(DEFAULT_RESTORE_MOUNT_OPTS)
}

/// The device node of the filesystem with UUID `uuid`; it exists exactly
/// when that filesystem is connected.
pub fn device_path_for_uuid(uuid: &str) -> (r: String)
    ensures
        r@ == join_path(BY_UUID_DIR@, uuid@),
{
    join_path_exec(BY_UUID_DIR, uuid)
}

/// The mountpoint of a backup disk: its UUID under the mount root.
pub fn backup_mountpoint(mount_base: &str, fs_uuid: &str) -> (r: String)
    ensures
        r@ == join_path(mount_base@, fs_uuid@),
{
    join_path_exec(mount_base, fs_uuid)
}

/// The disk's UUID is among the connected ones.
pub open spec fn is_connected(d: BackupDiskConfig, conn: Seq<Seq<char>>) -> bool {
    conn.contains(d.fs_uuid@)
}

/// The connected disks of the catalog, in catalog order.
pub open spec fn connected_in_order(disks: Seq<BackupDiskConfig>, conn: Seq<Seq<char>>) -> Seq<
    BackupDiskConfig,
>
    decreases disks.len(),
{
    if disks.len() == 0 {
        seq![]
    } else {
        let r = connected_in_order(disks.drop_last(), conn);
        if is_connected(disks.last(), conn) {
            r.push(disks.last())
        } else {
            r
        }
    }
}

/// The index of the first disk that carries the id `id`.
pub open spec fn first_with_id(disks: Seq<BackupDiskConfig>, id: Seq<char>) -> Option<int> {
    if exists|k: int| 0 <= k < disks.len() && #[trigger] disks[k].disk_id@ == id {
        Some(
            choose|k: int|
                0 <= k < disks.len() && #[trigger] disks[k].disk_id@ == id && forall|m: int|
                    0 <= m < k ==> #[trigger] disks[m].disk_id@ != id,
        )
    } else {
        None
    }
}

/// What a selection comes to.
pub enum Selection {
    Chosen(BackupDiskConfig),
    NoDisk,
    Multiple,
    /// Refused with this text.
    Refused(Seq<char>),
}

/// The selection by the disk id `id`: the first disk with that id, if it is
/// connected; an unknown or an unconnected id is refused.
pub open spec fn named_selection(disks: Seq<BackupDiskConfig>, id: Seq<char>, conn: Seq<Seq<char>>) -> Selection {
    match first_with_id(disks, id) {
        Some(k) => if is_connected(disks[k], conn) {
            Selection::Chosen(disks[k])
        } else {
            Selection::Refused("disk-id "@ + id + " not connected"@)
        },
        None => Selection::Refused("disk-id "@ + id + " not found in config"@),
    }
}

/// The disk that a backup uses: the named disk if it is in the catalog and
/// connected; else, with no name given, the only connected disk. With no
/// name given and no disk connected (an empty catalog included) there is
/// none; with several, the choice is ambiguous.
pub open spec fn selection(
    disks: Seq<BackupDiskConfig>,
    disk_id: Option<Seq<char>>,
    conn: Seq<Seq<char>>,
) -> Selection {
    match disk_id {
        Some(id) => named_selection(disks, id, conn),
        None => {
            let c = connected_in_order(disks, conn);
            if c.len() == 0 {
                Selection::NoDisk
            } else if c.len() > 1 {
                Selection::Multiple
            } else {
                Selection::Chosen(c[0])
            }
        },
    }
}

/// As `selection`, except that with no name given the first connected disk
/// is taken, however many are connected.
pub open spec fn first_selection(
    disks: Seq<BackupDiskConfig>,
    disk_id: Option<Seq<char>>,
    conn: Seq<Seq<char>>,
) -> Selection {
    match disk_id {
        Some(id) => named_selection(disks, id, conn),
        None => {
            let c = connected_in_order(disks, conn);
            if c.len() == 0 {
                Selection::NoDisk
            } else {
                Selection::Chosen(c[0])
            }
        },
    }
}

/// The result `r` is what the selection `s` comes to.
pub open spec fn selection_result(r: Result<BackupDiskConfig, TimevaultError>, s: Selection) -> bool {
    match s {
        Selection::Chosen(d) => r == Ok::<BackupDiskConfig, TimevaultError>(d),
        Selection::NoDisk => r matches Err(TimevaultError::Disk(DiskError::NoDiskConnected)),
        Selection::Multiple => r matches Err(TimevaultError::Disk(DiskError::MultipleDisksConnected)),
        Selection::Refused(t) => r matches Err(TimevaultError::Disk(DiskError::Other(m))) && m@ == t,
    }
}

/// The view of an optional string.
pub open spec fn opt_view(o: Option<&str>) -> Option<Seq<char>> {
    match o {
        Some(s) => Some(s@),
        None => None,
    }
}

/// Whether `uuid` is among `connected`.
pub fn uuid_listed(connected: &Vec<String>, uuid: &str) -> (r: bool)
    ensures
        r == strs_view(connected@).contains(uuid@),
{
    let mut i: usize = 0;
    while i < connected.len()
        invariant
            i <= connected.len(),
            forall|k: int| 0 <= k < i ==> #[trigger] connected@[k]@ != uuid@,
        decreases connected.len() - i,
    {
        if crate::text::str_eq(connected[i].as_str(), uuid) {
            assert(strs_view(connected@)[i as int] == uuid@);
            return true;
        }
        i = i + 1;
    }
    proof {
        if strs_view(connected@).contains(uuid@) {
            let k = choose|k: int| 0 <= k < strs_view(connected@).len() && strs_view(connected@)[k] == uuid@;
            assert(connected@[k]@ == uuid@);
        }
    }
    false
}

/// The disks of the catalog whose UUID is among `connected_uuids`, in
/// catalog order.
pub fn connected_disks_in_order(disks: &Vec<BackupDiskConfig>, connected_uuids: &Vec<String>) -> (r:
    Vec<BackupDiskConfig>)
    ensures
        r@ == connected_in_order(disks@, strs_view(connected_uuids@)),
{
    let ghost conn = strs_view(connected_uuids@);
    let mut out: Vec<BackupDiskConfig> = Vec::new();
    let mut i: usize = 0;
    while i < disks.len()
        invariant
            i <= disks.len(),
            conn == strs_view(connected_uuids@),
            out@ == connected_in_order(disks@.take(i as int), conn),
        decreases disks.len() - i,
    {
        assert(disks@.take(i + 1).drop_last() =~= disks@.take(i as int));
        assert(disks@.take(i + 1).last() == disks@[i as int]);
        if uuid_listed(connected_uuids, disks[i].fs_uuid.as_str()) {
            out.push(disks[i].duplicate());
        }
        i = i + 1;
    }
    assert(disks@.take(disks.len() as int) =~= disks@);
    out
}

/// The first disk carrying the id `id`, by index.
fn find_disk_id(disks: &Vec<BackupDiskConfig>, id: &str) -> (r: Option<usize>)
    ensures
        r matches Some(k) ==> first_with_id(disks@, id@) == Some(k as int) && k < disks@.len(),
        r is None ==> first_with_id(disks@, id@) is None,
{
    let mut i: usize = 0;
    while i < disks.len()
        invariant
            i <= disks.len(),
            forall|m: int| 0 <= m < i ==> #[trigger] disks@[m].disk_id@ != id@,
        decreases disks.len() - i,
    {
        if crate::text::str_eq(disks[i].disk_id.as_str(), id) {
            proof {
                let w = choose|k: int|
                    0 <= k < disks@.len() && #[trigger] disks@[k].disk_id@ == id@ && forall|m: int|
                        0 <= m < k ==> #[trigger] disks@[m].disk_id@ != id@;
                assert(disks@[i as int].disk_id@ == id@);
                if w < i {
                    assert(disks@[w].disk_id@ != id@);
                }
                if w > i {
                    assert(disks@[i as int].disk_id@ != id@);
                }
            }
            return Some(i);
        }
        i = i + 1;
    }
    None
}

/// The disk named `disk_id`, which must be in the catalog and connected.
fn select_named(disks: &Vec<BackupDiskConfig>, disk_id: &str, connected_uuids: &Vec<String>) -> (r:
    Result<BackupDiskConfig, TimevaultError>)
    ensures
        selection_result(r, named_selection(disks@, disk_id@, strs_view(connected_uuids@))),
{
    match find_disk_id(disks, disk_id) {
        None => {
            let mut m = concat_str("disk-id ", disk_id);
            m.append(" not found in config");
            Err(TimevaultError::Disk(DiskError::Other(m)))
        },
        Some(k) => {
            if !uuid_listed(connected_uuids, disks[k].fs_uuid.as_str()) {
                let mut m = concat_str("disk-id ", disk_id);
                m.append(" not connected");
                return Err(TimevaultError::Disk(DiskError::Other(m)));
            }
            Ok(disks[k].duplicate())
        },
    }
}

/// Picks the disk a backup uses, given the UUIDs of the connected
/// filesystems: the named disk, or the only connected one.
pub fn select_disk_from_connected(
    disks: &Vec<BackupDiskConfig>,
    disk_id: Option<&str>,
    connected_uuids: &Vec<String>,
) -> (r: Result<BackupDiskConfig, TimevaultError>)
    ensures
        selection_result(r, selection(disks@, opt_view(disk_id), strs_view(connected_uuids@))),
{
    match disk_id {
        Some(id) => select_named(disks, id, connected_uuids),
        None => {
            let connected = connected_disks_in_order(disks, connected_uuids);
            if connected.len() == 0 {
                return Err(TimevaultError::Disk(DiskError::NoDiskConnected));
            }
            if connected.len() > 1 {
                return Err(TimevaultError::Disk(DiskError::MultipleDisksConnected));
            }
            Ok(connected[0].duplicate())
        },
    }
}

/// Picks the disk a backup uses, given the UUIDs under the device
/// directory: the named disk, or the only connected one.
pub fn select_disk(disks: &Vec<BackupDiskConfig>, disk_id: Option<&str>, connected_uuids: &Vec<String>) -> (r:
    Result<BackupDiskConfig, TimevaultError>)
    ensures
        selection_result(r, selection(disks@, opt_view(disk_id), strs_view(connected_uuids@))),
{
    select_disk_from_connected(disks, disk_id, connected_uuids)
}

/// Picks the primary disk of a run: the named disk, or the first connected
/// disk in catalog order.
pub fn select_first_connected(
    disks: &Vec<BackupDiskConfig>,
    disk_id: Option<&str>,
    connected_uuids: &Vec<String>,
) -> (r: Result<BackupDiskConfig, TimevaultError>)
    ensures
        selection_result(r, first_selection(disks@, opt_view(disk_id), strs_view(connected_uuids@))),
{
    match disk_id {
        Some(id) => select_named(disks, id, connected_uuids),
        None => {
            let connected = connected_disks_in_order(disks, connected_uuids);
            if connected.len() == 0 {
                return Err(TimevaultError::Disk(DiskError::NoDiskConnected));
            }
            Ok(connected[0].duplicate())
        },
    }
}

/// With no disk named, a disk is selected exactly when one disk of the
/// catalog is connected; with none connected (an empty catalog included)
/// the selection is `NoDisk`, with several it is `Multiple`.
pub proof fn lemma_select_without_name(disks: Seq<BackupDiskConfig>, conn: Seq<Seq<char>>)
    ensures
        selection(disks, None, conn) is Chosen <==> connected_in_order(disks, conn).len() == 1,
        connected_in_order(disks, conn).len() == 0 ==> selection(disks, None, conn) is NoDisk,
        connected_in_order(disks, conn).len() > 1 ==> selection(disks, None, conn) is Multiple,
{
}

} // verus!
