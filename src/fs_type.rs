//! Filesystem types and the admission rule for backup disks.

use vstd::prelude::*;
use crate::text::{str_eq, trim, trimmed};
use crate::types::{ascii_lower, to_ascii_lower};

verus! {

/// A filesystem type as reported by the probe.
#[derive(Debug, Clone, PartialEq, Eq)]
pub enum FsType {
    Ext2,
    Ext3,
    Ext4,
    Xfs,
    Jfs,
    Btrfs,
    Zfs,
    F2fs,
    Other(String),
}

/// The named type that a lower-case word stands for, if any.
pub open spec fn named_fs_type(k: Seq<char>) -> Option<FsType> {
    if k == "ext2"@ {
        Some(FsType::Ext2)
    } else if k == "ext3"@ {
        Some(FsType::Ext3)
    } else if k == "ext4"@ {
        Some(FsType::Ext4)
    } else if k == "xfs"@ {
        Some(FsType::Xfs)
    } else if k == "jfs"@ {
        Some(FsType::Jfs)
    } else if k == "btrfs"@ {
        Some(FsType::Btrfs)
    } else if k == "zfs"@ || k == "zfs_member"@ {
        Some(FsType::Zfs)
    } else if k == "f2fs"@ {
        Some(FsType::F2fs)
    } else {
        None
    }
}

/// `t` is the type that the word `v` names: the named type of its lower-case
/// form, or `Other` holding that lower-case form.
pub open spec fn fs_type_named(v: Seq<char>, t: FsType) -> bool {
    let k = ascii_lower(v);
    match named_fs_type(k) {
        Some(n) => t == n,
        None => t matches FsType::Other(o) && o@ == k,
    }
}

/// The names of the types that are never admitted.
pub open spec fn rejected_name(n: Seq<char>) -> bool {
    n == "vfat"@ || n == "fat"@ || n == "fat32"@ || n == "exfat"@ || n == "ntfs"@ || n
        == "hfsplus"@ || n == "hfs"@ || n == "apfs"@ || n == "iso9660"@ || n == "udf"@ || n
        == "msdos"@
}

/// The admitted types: every named variant.
pub open spec fn fs_allowed(t: FsType) -> bool {
    !(t is Other)
}

/// The rejected types: `Other` with a name of the rejected list.
pub open spec fn fs_rejected(t: FsType) -> bool {
    t matches FsType::Other(n) && rejected_name(n@)
}

/// The canonical word of a type.
pub open spec fn fs_word(t: FsType) -> Seq<char> {
    match t {
        FsType::Ext2 => "ext2"@,
        FsType::Ext3 => "ext3"@,
        FsType::Ext4 => "ext4"@,
        FsType::Xfs => "xfs"@,
        FsType::Jfs => "jfs"@,
        FsType::Btrfs => "btrfs"@,
        FsType::Zfs => "zfs"@,
        FsType::F2fs => "f2fs"@,
        FsType::Other(n) => n@,
    }
}

/// Equality of two types, `Other` by its name.
pub open spec fn fs_same(a: FsType, b: FsType) -> bool {
    match (a, b) {
        (FsType::Other(x), FsType::Other(y)) => x@ == y@,
        _ => a == b,
    }
}

impl FsType {
    /// The type that `value` names, without regard to ASCII case.
    pub fn from_str(value: &str) -> (r: FsType)
        ensures
            fs_type_named(value@, r),
    {
        let k = to_ascii_lower(value);
        let s = k.as_str();
        if str_eq(s, "ext2") {
            FsType::Ext2
        } else if str_eq(s, "ext3") {
            FsType::Ext3
        } else if str_eq(s, "ext4") {
            FsType::Ext4
        } else if str_eq(s, "xfs") {
            FsType::Xfs
        } else if str_eq(s, "jfs") {
            FsType::Jfs
        } else if str_eq(s, "btrfs") {
            FsType::Btrfs
        } else if str_eq(s, "zfs") || str_eq(s, "zfs_member") {
            FsType::Zfs
        } else if str_eq(s, "f2fs") {
            FsType::F2fs
        } else {
            FsType::Other(k)
        }
    }

    /// Whether a backup may be written to a filesystem of this type.
    pub fn is_allowed(&self) -> (r: bool)
        ensures
            r == fs_allowed(*self),
    {
        !matches!(self, FsType::Other(_))
    }

    /// Whether this type is on the list of rejected filesystems.
    pub fn is_rejected(&self) -> (r: bool)
        ensures
            r == fs_rejected(*self),
    {
        match self {
            FsType::Other(name) => {
                let n = name.as_str();
                str_eq(n, "vfat") || str_eq(n, "fat") || str_eq(n, "fat32") || str_eq(n, "exfat")
                    || str_eq(n, "ntfs") || str_eq(n, "hfsplus") || str_eq(n, "hfs") || str_eq(
                    n,
                    "apfs",
                ) || str_eq(n, "iso9660") || str_eq(n, "udf") || str_eq(n, "msdos")
            },
            _ => false,
        }
    }

    /// The canonical word of the type.
    pub fn as_str(&self) -> (r: &str)
        ensures
            r@ == fs_word(*self),
    {
        match self {
            FsType::Ext2 => "ext2",
            FsType::Ext3 => "ext3",
            FsType::Ext4 => "ext4",
            FsType::Xfs => "xfs",
            FsType::Jfs => "jfs",
            FsType::Btrfs => "btrfs",
            FsType::Zfs => "zfs",
            FsType::F2fs => "f2fs",
            FsType::Other(name) => name.as_str(),
        }
    }

    /// Equality, `Other` by its name.
    pub fn same_as(&self, other: &FsType) -> (r: bool)
        ensures
            r == fs_same(*self, *other),
    {
        match (self, other) {
            (FsType::Other(x), FsType::Other(y)) => *x == *y,
            (FsType::Ext2, FsType::Ext2) => true,
            (FsType::Ext3, FsType::Ext3) => true,
            (FsType::Ext4, FsType::Ext4) => true,
            (FsType::Xfs, FsType::Xfs) => true,
            (FsType::Jfs, FsType::Jfs) => true,
            (FsType::Btrfs, FsType::Btrfs) => true,
            (FsType::Zfs, FsType::Zfs) => true,
            (FsType::F2fs, FsType::F2fs) => true,
            _ => false,
        }
    }
}

/// The type named by the output of the probe: the output trimmed, then
/// read as `FsType::from_str` does.
pub fn fs_type_from_probe(output: &str) -> (r: FsType)
    ensures
        fs_type_named(trimmed(output@), r),
{
    FsType::from_str(trim(output))
}

} // verus!
