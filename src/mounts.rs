//! The kernel's mount table and the questions asked of it.

use vstd::prelude::*;
use crate::error::{DiskError, TimevaultError};
use crate::text::{concat_str, pieces, split_on, split_words, str_eq, strs_view, words};

verus! {

/// One line of the mount table.
#[derive(Debug, Clone)]
pub struct MountRecord {
    pub device: String,
    pub mountpoint: String,
    /// The mount options, when the line has a fourth field.
    pub options: Option<String>,
}

/// The record holds the fields of a line split into words `w`.
pub open spec fn record_of_words(r: MountRecord, w: Seq<Seq<char>>) -> bool {
    &&& r.device@ == w[0]
    &&& r.mountpoint@ == w[1]
    &&& (w.len() >= 4 <==> r.options is Some)
    &&& (r.options matches Some(o) ==> o@ == w[3])
}

/// The word lists of the lines of the table that have at least two fields.
pub open spec fn table_lines(ls: Seq<Seq<char>>) -> Seq<Seq<Seq<char>>>
    decreases ls.len(),
{
    if ls.len() == 0 {
        seq![]
    } else {
        let t = table_lines(ls.drop_last());
        if words(ls.last()).len() >= 2 {
            t.push(words(ls.last()))
        } else {
            t
        }
    }
}

/// Reads the text of `/proc/self/mounts`: one record per line with at least
/// a device and a mountpoint, in order.
pub fn parse_mount_table(contents: &str) -> (r: Vec<MountRecord>)
    ensures
        r@.len() == table_lines(pieces(contents@, '\n')).len(),
        forall|i: int|
            0 <= i < r@.len() ==> record_of_words(
                #[trigger] r@[i],
                table_lines(pieces(contents@, '\n'))[i],
            ),
{
    let lines = split_on(contents, '\n');
    let ghost ls = strs_view(lines@);
    let mut out: Vec<MountRecord> = Vec::new();
    let mut i: usize = 0;
    assert(ls.take(0) =~= Seq::<Seq<char>>::empty());
    while i < lines.len()
        invariant
            i <= lines.len(),
            ls == strs_view(lines@),
            out@.len() == table_lines(ls.take(i as int)).len(),
            forall|k: int|
                0 <= k < out@.len() ==> record_of_words(
                    #[trigger] out@[k],
                    table_lines(ls.take(i as int))[k],
                ),
        decreases lines.len() - i,
    {
        let fields = split_words(lines[i].as_str());
        assert(ls.take(i + 1).drop_last() =~= ls.take(i as int));
        assert(ls.take(i + 1).last() == lines@[i as int]@);
        if fields.len() >= 2 {
            let options = if fields.len() >= 4 {
                Some(fields[3].clone())
            } else {
                None
            };
            let rec = MountRecord {
                device: fields[0].clone(),
                mountpoint: fields[1].clone(),
                options,
            };
            assert(strs_view(fields@)[0] == fields@[0]@);
            assert(strs_view(fields@)[1] == fields@[1]@);
            proof {
                if fields.len() >= 4 {
                    assert(strs_view(fields@)[3] == fields@[3]@);
                }
            }
            out.push(rec);
        }
        i = i + 1;
    }
    assert(ls.take(lines.len() as int) =~= ls);
    out
}

/// Some record of the table has the device `d`.
pub open spec fn device_listed(t: Seq<MountRecord>, d: Seq<char>) -> bool {
    exists|i: int| 0 <= i < t.len() && #[trigger] t[i].device@ == d
}

/// Some record of the table has the mountpoint `m`.
pub open spec fn mountpoint_listed(t: Seq<MountRecord>, m: Seq<char>) -> bool {
    exists|i: int| 0 <= i < t.len() && #[trigger] t[i].mountpoint@ == m
}

/// Whether the device is mounted anywhere; the table's devices and
/// `device` are both resolved to their canonical paths by the caller.
pub fn device_is_mounted(table: &Vec<MountRecord>, device: &str) -> (r: bool)
    ensures
        r == device_listed(table@, device@),
{
    find_device_mountpoint(table, device).is_some()
}

/// Where the device is mounted first in the table, if anywhere.
pub fn find_device_mountpoint(table: &Vec<MountRecord>, device: &str) -> (r: Option<String>)
    ensures
        r is Some <==> device_listed(table@, device@),
        r matches Some(m) ==> exists|i: int|
            0 <= i < table@.len() && #[trigger] table@[i].device@ == device@ && table@[i].mountpoint@
                == m@ && forall|k: int| 0 <= k < i ==> #[trigger] table@[k].device@ != device@,
{
    let mut i: usize = 0;
    while i < table.len()
        invariant
            i <= table.len(),
            forall|k: int| 0 <= k < i ==> #[trigger] table@[k].device@ != device@,
        decreases table.len() - i,
    {
        if str_eq(table[i].device.as_str(), device) {
            return Some(table[i].mountpoint.clone());
        }
        i = i + 1;
    }
    None
}

/// Whether something is mounted at `mountpoint`, compared literally.
pub fn mountpoint_is_mounted(table: &Vec<MountRecord>, mountpoint: &str) -> (r: bool)
    ensures
        r == mountpoint_listed(table@, mountpoint@),
{
    let mut i: usize = 0;
    while i < table.len()
        invariant
            i <= table.len(),
            forall|k: int| 0 <= k < i ==> #[trigger] table@[k].mountpoint@ != mountpoint@,
        decreases table.len() - i,
    {
        if str_eq(table[i].mountpoint.as_str(), mountpoint) {
            return true;
        }
        i = i + 1;
    }
    false
}

/// `p` lies at or below `base`, counting whole path components.
pub open spec fn path_under(p: Seq<char>, base: Seq<char>) -> bool {
    p == base || (base.len() > 0 && base.last() == '/' && p.len() > base.len() && p.take(
        base.len() as int,
    ) == base) || (p.len() > base.len() && p.take(base.len() as int) == base && p[base.len() as int]
        == '/')
}

/// Whether the path `p` lies at or below `base`.
pub fn is_under(p: &str, base: &str) -> (r: bool)
    ensures
        r == path_under(p@, base@),
{
    if str_eq(p, base) {
        return true;
    }
    let n = base.unicode_len();
    if p.unicode_len() <= n || !crate::text::starts_with(p, base) {
        return false;
    }
    (n > 0 && base.get_char(n - 1) == '/') || p.get_char(n) == '/'
}

/// The mountpoints at or below `base`, in table order.
pub open spec fn mounts_under(t: Seq<MountRecord>, base: Seq<char>) -> Seq<Seq<char>>
    decreases t.len(),
{
    if t.len() == 0 {
        seq![]
    } else {
        let r = mounts_under(t.drop_last(), base);
        if path_under(t.last().mountpoint@, base) {
            r.push(t.last().mountpoint@)
        } else {
            r
        }
    }
}

/// The mountpoints at or below `base`, in table order.
pub fn find_mounts_under(table: &Vec<MountRecord>, base: &str) -> (r: Vec<String>)
    ensures
        strs_view(r@) == mounts_under(table@, base@),
{
    let mut out: Vec<String> = Vec::new();
    let mut i: usize = 0;
    assert(strs_view(out@) =~= Seq::<Seq<char>>::empty());
    while i < table.len()
        invariant
            i <= table.len(),
            strs_view(out@) == mounts_under(table@.take(i as int), base@),
        decreases table.len() - i,
    {
        assert(table@.take(i + 1).drop_last() =~= table@.take(i as int));
        let ghost before = out@;
        if is_under(table[i].mountpoint.as_str(), base) {
            out.push(table[i].mountpoint.clone());
            assert(strs_view(out@) =~= strs_view(before).push(table@[i as int].mountpoint@));
        }
        i = i + 1;
    }
    assert(table@.take(table.len() as int) =~= table@);
    out
}

/// Fails with `Other` when the device is already mounted.
pub fn ensure_disk_not_mounted(table: &Vec<MountRecord>, device: &str) -> (r: Result<(), TimevaultError>)
    ensures
        r is Ok <==> !device_listed(table@, device@),
        r matches Err(e) ==> (e matches TimevaultError::Disk(DiskError::Other(m)) && m@ == "device "@
            + device@ + " is already mounted"@),
{
    if device_is_mounted(table, device) {
        let mut m = concat_str("device ", device);
        m.append(" is already mounted");
        return Err(TimevaultError::Disk(DiskError::Other(m)));
    }
    Ok(())
}

/// The options hold `ro`.
pub open spec fn read_only_opts(o: Option<String>) -> bool {
    match o {
        Some(x) => pieces(x@, ',').contains("ro"@),
        None => false,
    }
}

/// A path and the mount table it is looked up in.
pub struct MountEntry {
    path: String,
    table: Vec<MountRecord>,
}

impl MountEntry {
    /// The path `path` looked up in the table `contents`.
    pub fn from_contents(path: &str, contents: &str) -> (r: MountEntry)
        ensures
            r.path()@ == path@,
    {
        MountEntry { path: String::from_str(path), table: parse_mount_table(contents) }
    }

    /// The path looked up.
    pub closed spec fn path(&self) -> String {
        self.path
    }

    /// The records of the table.
    pub closed spec fn records(&self) -> Seq<MountRecord> {
        self.table@
    }

    /// Whether something is mounted at the path.
    pub fn is_mounted(&self) -> (r: Result<bool, String>)
        ensures
            r == Ok::<bool, String>(mountpoint_listed(self.records(), self.path()@)),
    {
        Ok(mountpoint_is_mounted(&self.table, self.path.as_str()))
    }

    /// Whether the first mount at the path is read-only; an error when
    /// nothing with options is mounted there.
    pub fn is_readonly(&self) -> (r: Result<bool, String>)
        ensures
            r is Ok <==> exists|i: int|
                0 <= i < self.records().len() && #[trigger] self.records()[i].mountpoint@
                    == self.path()@ && self.records()[i].options is Some,
            r matches Ok(ro) ==> exists|i: int|
                0 <= i < self.records().len() && #[trigger] self.records()[i].mountpoint@
                    == self.path()@ && self.records()[i].options is Some && ro == read_only_opts(
                    self.records()[i].options,
                ) && forall|k: int|
                    0 <= k < i ==> !(#[trigger] self.records()[k].mountpoint@ == self.path()@
                        && self.records()[k].options is Some),
    {
        let mut i: usize = 0;
        while i < self.table.len()
            invariant
                i <= self.table.len(),
                forall|k: int|
                    0 <= k < i ==> !(#[trigger] self.table@[k].mountpoint@ == self.path@
                        && self.table@[k].options is Some),
            decreases self.table.len() - i,
        {
            let rec = &self.table[i];
            if str_eq(rec.mountpoint.as_str(), self.path.as_str()) {
                match &rec.options {
                    Some(o) => {
                        let opts = split_on(o.as_str(), ',');
                        let mut j: usize = 0;
                        while j < opts.len()
                            invariant
                                j <= opts.len(),
                                i < self.table.len(),
                                self.table@[i as int].mountpoint@ == self.path@,
                                self.table@[i as int].options == Some(*o),
                                strs_view(opts@) == pieces(o@, ','),
                                forall|k: int|
                                    0 <= k < i ==> !(#[trigger] self.table@[k].mountpoint@ == self.path@
                                        && self.table@[k].options is Some),
                                forall|k: int| 0 <= k < j ==> #[trigger] opts@[k]@ != "ro"@,
                            decreases opts.len() - j,
                        {
                            if str_eq(opts[j].as_str(), "ro") {
                                assert(strs_view(opts@)[j as int] == "ro"@);
                                return Ok(true);
                            }
                            j = j + 1;
                        }
                        proof {
                            if strs_view(opts@).contains("ro"@) {
                                let k = choose|k: int|
                                    0 <= k < strs_view(opts@).len() && strs_view(opts@)[k] == "ro"@;
                                assert(opts@[k]@ == "ro"@);
                            }
                        }
                        return Ok(false);
                    },
                    None => {},
                }
            }
            i = i + 1;
        }
        let mut m = concat_str("mount ", self.path.as_str());
        m.append(" is not mounted");
        Err(m)
    }
}

} // verus!
