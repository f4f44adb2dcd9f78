//! The identity file that binds a disk id to a filesystem UUID.

use vstd::prelude::*;
use crate::error::{DiskError, TimevaultError};
use crate::fs_type::{FsType, fs_allowed, fs_same};
use crate::names::{decimal_text, join_path, join_path_exec};
use crate::text::concat_str;

verus! {

/// The only identity format version.
pub const IDENTITY_VERSION: u32 = 1;

/// The name of the identity file at a disk's root.
pub const IDENTITY_FILE: &'static str = ".timevault";

/// The content of a disk's identity file.
#[derive(Debug, Clone)]
pub struct DiskIdentity {
    pub version: u32,
    pub disk_id: String,
    pub fs_uuid: String,
    pub fs_type: Option<FsType>,
    /// When the disk was enrolled, as an RFC 3339 timestamp.
    pub created: String,
}

/// The identity binds the disk id `d` to the UUID `u`, in the current format.
pub open spec fn identity_matches(id: DiskIdentity, d: Seq<char>, u: Seq<char>) -> bool {
    id.version == IDENTITY_VERSION && id.disk_id@ == d && id.fs_uuid@ == u
}

/// The path of the identity file under the disk root `root`.
pub fn identity_path(root: &str) -> (r: String)
    ensures
        r@ == join_path(root@, IDENTITY_FILE@),
{
    join_path_exec(root, IDENTITY_FILE)
}

/// Checks that the identity is of the current version and names the
/// expected disk id and filesystem UUID; `IdentityMismatch` otherwise.
pub fn verify_identity(identity: &DiskIdentity, disk_id: &str, fs_uuid: &str) -> (r: Result<
    (),
    TimevaultError,
>)
    ensures
        r is Ok <==> identity_matches(*identity, disk_id@, fs_uuid@),
        r matches Err(e) ==> e matches TimevaultError::Disk(DiskError::IdentityMismatch(_)),
{
    if identity.version != IDENTITY_VERSION {
        let mut m = String::from_str("version mismatch: expected 1, got ");
        m.append(decimal_text(identity.version as u64).as_str());
        return Err(TimevaultError::Disk(DiskError::IdentityMismatch(m)));
    }
    if !crate::text::str_eq(identity.disk_id.as_str(), disk_id) {
        let mut m = concat_str("diskId mismatch: expected ", disk_id);
        m.append(", got ");
        m.append(identity.disk_id.as_str());
        return Err(TimevaultError::Disk(DiskError::IdentityMismatch(m)));
    }
    if !crate::text::str_eq(identity.fs_uuid.as_str(), fs_uuid) {
        let mut m = concat_str("fsUuid mismatch: expected ", fs_uuid);
        m.append(", got ");
        m.append(identity.fs_uuid.as_str());
        return Err(TimevaultError::Disk(DiskError::IdentityMismatch(m)));
    }
    Ok(())
}

/// The detected type is admitted and agrees with the type the identity
/// recorded, when it recorded one.
pub open spec fn fs_type_consistent(identity: DiskIdentity, detected: FsType) -> bool {
    fs_allowed(detected) && (identity.fs_type matches Some(t) ==> fs_same(t, detected))
}

/// Checks the filesystem type detected on a disk: it must be admitted
/// (`Other` otherwise) and equal the type recorded in the identity, when one
/// is recorded (`IdentityMismatch` otherwise).
pub fn verify_identity_fs_type(identity: &DiskIdentity, detected: &FsType) -> (r: Result<
    (),
    TimevaultError,
>)
    ensures
        r is Ok <==> fs_type_consistent(*identity, *detected),
        r matches Err(e) ==> (!fs_allowed(*detected) ==> e matches TimevaultError::Disk(
            DiskError::Other(_),
        )) && (fs_allowed(*detected) ==> e matches TimevaultError::Disk(
            DiskError::IdentityMismatch(_),
        )),
{
    if !detected.is_allowed() {
        let m = concat_str("unsupported filesystem type ", detected.as_str());
        return Err(TimevaultError::Disk(DiskError::Other(m)));
    }
    match &identity.fs_type {
        Some(t) => {
            if !t.same_as(detected) {
                let mut m = concat_str("fsType mismatch: expected ", t.as_str());
                m.append(", got ");
                m.append(detected.as_str());
                return Err(TimevaultError::Disk(DiskError::IdentityMismatch(m)));
            }
        },
        None => {},
    }
    Ok(())
}

/// An identity checked against its own disk id and UUID passes exactly when
/// its version is current; changing its version, disk id or UUID away from
/// the expected values makes the check fail.
pub proof fn lemma_identity_check_reflexive(
    id: DiskIdentity,
    d: Seq<char>,
    u: Seq<char>,
    changed: DiskIdentity,
)
    requires
        id.version == IDENTITY_VERSION,
        id.disk_id@ == d,
        id.fs_uuid@ == u,
        changed.version != IDENTITY_VERSION || changed.disk_id@ != d || changed.fs_uuid@ != u,
    ensures
        identity_matches(id, d, u),
        !identity_matches(changed, d, u),
{
}

} // verus!
