//! Command lines of the external tools, and the guards that own a mount or
//! a lock for the length of a scope.

use vstd::prelude::*;
use crate::snapshot::nice_prefix;
use crate::text::{concat_str, join_texts, joined, strs_view};
use crate::types::RunMode;

verus! {

/// Appends a copy of `s` to `v`.
fn push_word(v: &mut Vec<String>, s: &str)
    ensures
        strs_view(final(v)@) == strs_view(old(v)@).push(s@),
{
    let ghost before = v@;
    v.push(String::from_str(s));
    assert(strs_view(v@) =~= strs_view(before).push(s@));
}

/// A read-only remount of a path.
pub struct Mount(pub String);

/// A mount of a path listed in the system's mount table.
pub struct ReMount(pub String);

/// An unmount of a path.
pub struct UnMount(pub String);

/// A flush of the kernel's write buffers.
pub struct SyncCommand;

/// A command run at the lowest CPU and I/O priority.
pub struct IoNice(pub Vec<String>);

impl Mount {
    /// `mount -oremount,ro <path>`.
    pub fn argv(&self) -> (r: Vec<String>)
        ensures
            strs_view(r@) == seq!["mount"@, "-oremount,ro"@, self.0@],
    {
        let mut v: Vec<String> = Vec::new();
        assert(strs_view(v@) =~= Seq::<Seq<char>>::empty());
        push_word(&mut v, "mount");
        push_word(&mut v, "-oremount,ro");
        push_word(&mut v, self.0.as_str());
        assert(strs_view(v@) =~= seq!["mount"@, "-oremount,ro"@, self.0@]);
        v
    }
}

impl ReMount {
    /// `mount <path>`.
    pub fn argv(&self) -> (r: Vec<String>)
        ensures
            strs_view(r@) == seq!["mount"@, self.0@],
    {
        let mut v: Vec<String> = Vec::new();
        assert(strs_view(v@) =~= Seq::<Seq<char>>::empty());
        push_word(&mut v, "mount");
        push_word(&mut v, self.0.as_str());
        assert(strs_view(v@) =~= seq!["mount"@, self.0@]);
        v
    }
}

impl UnMount {
    /// `umount <path>`.
    pub fn argv(&self) -> (r: Vec<String>)
        ensures
            strs_view(r@) == seq!["umount"@, self.0@],
    {
        unmount_argv(self.0.as_str())
    }
}

impl SyncCommand {
    /// `sync`.
    pub fn argv(&self) -> (r: Vec<String>)
        ensures
            strs_view(r@) == seq!["sync"@],
    {
        let mut v: Vec<String> = Vec::new();
        assert(strs_view(v@) =~= Seq::<Seq<char>>::empty());
        push_word(&mut v, "sync");
        assert(strs_view(v@) =~= seq!["sync"@]);
        v
    }
}

impl IoNice {
    /// `nice -n 19 ionice -c 3 -n7` followed by the command.
    pub fn argv(&self) -> (r: Vec<String>)
        ensures
            strs_view(r@) == nice_prefix() + strs_view(self.0@),
    {
        crate::snapshot::nice_ionice_args(&self.0)
    }
}

/// `mount -o <options> <device> <mountpoint>`.
pub fn mount_argv(options: &str, device: &str, mountpoint: &str) -> (r: Vec<String>)
    ensures
        strs_view(r@) == seq!["mount"@, "-o"@, options@, device@, mountpoint@],
{
    let mut v: Vec<String> = Vec::new();
    assert(strs_view(v@) =~= Seq::<Seq<char>>::empty());
    push_word(&mut v, "mount");
    push_word(&mut v, "-o");
    push_word(&mut v, options);
    push_word(&mut v, device);
    push_word(&mut v, mountpoint);
    assert(strs_view(v@) =~= seq!["mount"@, "-o"@, options@, device@, mountpoint@]);
    v
}

/// `umount <mountpoint>`.
pub fn unmount_argv(mountpoint: &str) -> (r: Vec<String>)
    ensures
        strs_view(r@) == seq!["umount"@, mountpoint@],
{
    let mut v: Vec<String> = Vec::new();
    assert(strs_view(v@) =~= Seq::<Seq<char>>::empty());
    push_word(&mut v, "umount");
    push_word(&mut v, mountpoint);
    assert(strs_view(v@) =~= seq!["umount"@, mountpoint@]);
    v
}

/// `blkid -o value -s TYPE <device>`, which prints the filesystem type.
pub fn blkid_argv(device: &str) -> (r: Vec<String>)
    ensures
        strs_view(r@) == seq!["blkid"@, "-o"@, "value"@, "-s"@, "TYPE"@, device@],
{
    let mut v: Vec<String> = Vec::new();
    assert(strs_view(v@) =~= Seq::<Seq<char>>::empty());
    push_word(&mut v, "blkid");
    push_word(&mut v, "-o");
    push_word(&mut v, "value");
    push_word(&mut v, "-s");
    push_word(&mut v, "TYPE");
    push_word(&mut v, device);
    assert(strs_view(v@) =~= seq!["blkid"@, "-o"@, "value"@, "-s"@, "TYPE"@, device@]);
    v
}

/// A command is echoed before it runs in dry and verbose runs.
pub fn should_echo(mode: RunMode) -> (r: bool)
    ensures
        r == (mode.dry_run || mode.verbose),
{
    mode.dry_run || mode.verbose
}

/// A command is executed except in a dry run, which reports exit code 0.
pub fn should_execute(mode: RunMode) -> (r: bool)
    ensures
        r == crate::types::performs_effects(mode),
{
    !mode.dry_run
}

/// Disks are mounted (and so unmounted) except in a dry run.
pub fn mounts_disks(mode: RunMode) -> (r: bool)
    ensures
        r == crate::types::performs_effects(mode),
{
    !mode.dry_run
}

/// Kernel buffers are flushed after a run except in a dry run.
pub fn flushes_buffers(mode: RunMode) -> (r: bool)
    ensures
        r == crate::types::performs_effects(mode),
{
    !mode.dry_run
}

/// The echo of a command: the program and its arguments, space-joined.
pub fn command_echo(argv: &Vec<String>) -> (r: String)
    ensures
        r@ == joined(strs_view(argv@), " "@),
{
    join_texts(argv, " ")
}

/// The owner of a mountpoint for the length of a scope: on release the
/// path is unmounted and, when asked, its directory removed.
#[derive(Debug)]
pub struct MountGuard {
    mountpoint: String,
    remove_dir: bool,
}

impl MountGuard {
    /// The mountpoint the guard owns.
    pub closed spec fn spec_mountpoint(&self) -> Seq<char> {
        self.mountpoint@
    }

    /// Whether the directory is removed on release.
    pub closed spec fn spec_remove_dir(&self) -> bool {
        self.remove_dir
    }

    /// A guard of `mountpoint`.
    pub fn new(mountpoint: String, remove_dir: bool) -> (r: MountGuard)
        ensures
            r.spec_mountpoint() == mountpoint@,
            r.spec_remove_dir() == remove_dir,
    {
        MountGuard { mountpoint, remove_dir }
    }

    /// The mountpoint the guard owns.
    pub fn mountpoint(&self) -> (r: &String)
        ensures
            r@ == self.spec_mountpoint(),
    {
        &self.mountpoint
    }

    /// Whether the directory is removed on release.
    pub fn removes_dir(&self) -> (r: bool)
        ensures
            r == self.spec_remove_dir(),
    {
        self.remove_dir
    }
}

/// The owner of a job's lock file for the length of a scope.
#[derive(Debug)]
pub struct LockGuard {
    path: String,
}

impl LockGuard {
    /// A guard of the lock file at `path`.
    pub fn new(path: String) -> (r: LockGuard)
        ensures
            r.path()@ == path@,
    {
        LockGuard { path }
    }

    /// The lock file guarded.
    pub closed spec fn path(&self) -> String {
        self.path
    }

    /// The lock file guarded.
    pub fn lock_path(&self) -> (r: &String)
        ensures
            r@ == self.path()@,
    {
        &self.path
    }
}

/// The name of a fresh temporary directory: prefix, process id and a
/// millisecond timestamp, dash-separated.
pub fn temp_dir_name(prefix: &str, pid: u32, stamp: &str) -> (r: String)
    ensures
        r@ == prefix@ + "-"@ + crate::names::decimal(pid as nat) + "-"@ + stamp@,
{
    let mut s = concat_str(prefix, "-");
    s.append(crate::names::decimal_text(pid as u64).as_str());
    s.append("-");
    s.append(stamp);
    s
}

} // verus!
