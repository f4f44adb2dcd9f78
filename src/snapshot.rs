//! The snapshot engine's decisions: which old snapshots expire, how a new
//! one is seeded from `current`, the synchronizer's command line and retry
//! rule, and when `current` is moved to the new snapshot.

use vstd::prelude::*;
use crate::config::Job;
use crate::error::TimevaultError;
use crate::names::{safe_name, is_safe_name, join_path, join_path_exec};
use crate::text::{concat_str, ends_with_char, sort_texts, sorted_texts, str_eq, strs_view, text_le};
use crate::types::RunMode;

verus! {

/// The name of the link to the latest snapshot.
pub const CURRENT_LINK: &'static str = "current";

/// How many times the synchronizer is run before a job is given up.
pub const SYNC_ATTEMPTS: u32 = 3;

/// The synchronizer's exit code for files that vanished during the copy,
/// which is not a failure.
pub const SYNC_VANISHED: i32 = 24;

/// What a directory entry is, as seen without following links.
#[derive(Debug, Clone, Copy, PartialEq, Eq, Structural)]
pub enum EntryKind {
    Dir,
    File,
    Symlink,
    Other,
}

/// Whether a step that changes the disk is carried out or only described.
#[derive(Debug, Clone, Copy, PartialEq, Eq, Structural)]
pub enum StepMode {
    Perform,
    Describe,
}

/// Steps that write are only described in a dry run.
pub open spec fn step_mode_of(mode: RunMode) -> StepMode {
    if mode.dry_run {
        StepMode::Describe
    } else {
        StepMode::Perform
    }
}

/// Whether steps that write are carried out or only described.
pub fn step_mode(mode: RunMode) -> (r: StepMode)
    ensures
        r == step_mode_of(mode),
{
    if mode.dry_run {
        StepMode::Describe
    } else {
        StepMode::Perform
    }
}

/// Names in a job's directory that are never snapshots.
pub open spec fn reserved_entry(n: Seq<char>) -> bool {
    n == "current"@ || n == ".timevault"@ || n == "."@ || n == ".."@
}

/// The entries of a job's directory that count as snapshots, in listing order.
pub open spec fn snapshot_entries(names: Seq<String>) -> Seq<String> {
    names.filter(|s: String| !reserved_entry(s@))
}

/// The snapshots to expire and those to keep.
#[derive(Debug)]
pub struct RetentionPlan {
    /// The oldest snapshots beyond the retention count, oldest first.
    pub victims: Vec<String>,
    /// The newest snapshots, at most the retention count, oldest first.
    pub kept: Vec<String>,
}

/// The smaller of two integers.
pub open spec fn min_int(a: int, b: int) -> int {
    if a < b {
        a
    } else {
        b
    }
}

/// `p` splits the snapshots among `names` into the oldest, which expire,
/// and the newest `copies`, which stay; names sort by date.
pub open spec fn retention_split(names: Seq<String>, copies: int, p: RetentionPlan) -> bool {
    &&& (p.victims@ + p.kept@).to_multiset() == snapshot_entries(names).to_multiset()
    &&& sorted_texts(p.victims@ + p.kept@)
    &&& p.kept@.len() == min_int(snapshot_entries(names).len() as int, copies)
}

/// Whether `n` is a name that never denotes a snapshot.
fn is_reserved_entry(n: &str) -> (r: bool)
    ensures
        r == reserved_entry(n@),
{
    str_eq(n, "current") || str_eq(n, ".timevault") || str_eq(n, ".") || str_eq(n, "..")
}

/// Splits the entries of a job's directory into snapshots that expire and
/// snapshots that stay, keeping the `copies` greatest names (`YYYYMMDD`
/// names sort by date); `current` and `.timevault` are no snapshots.
pub fn plan_retention(names: &Vec<String>, copies: usize) -> (r: RetentionPlan)
    ensures
        retention_split(names@, copies as int, r),
{
    let ghost pred = |s: String| !reserved_entry(s@);
    let mut found: Vec<String> = Vec::new();
    let mut i: usize = 0;
    while i < names.len()
        invariant
            i <= names.len(),
            pred == (|s: String| !reserved_entry(s@)),
            found@ == names@.take(i as int).filter(pred),
        decreases names.len() - i,
    {
        proof {
            names@.take(i as int).lemma_filter_push(names@[i as int], pred);
            assert(names@.take(i + 1) =~= names@.take(i as int).push(names@[i as int]));
        }
        if !is_reserved_entry(names[i].as_str()) {
            found.push(names[i].clone());
        }
        i = i + 1;
    }
    assert(names@.take(names.len() as int) =~= names@);
    let ghost listed = found@;
    sort_texts(&mut found);
    proof {
        listed.to_multiset_ensures();
        found@.to_multiset_ensures();
    }
    let n = found.len();
    let k: usize = if n > copies {
        n - copies
    } else {
        0
    };
    let mut victims: Vec<String> = Vec::new();
    let mut kept: Vec<String> = Vec::new();
    let mut j: usize = 0;
    while j < n
        invariant
            n == found.len(),
            k <= n,
            j <= n,
            j <= k ==> victims@ == found@.take(j as int) && kept@.len() == 0,
            j > k ==> victims@ == found@.take(k as int) && kept@ == found@.subrange(k as int, j as int),
        decreases n - j,
    {
        if j < k {
            victims.push(found[j].clone());
            assert(victims@ =~= found@.take(j + 1));
        } else {
            kept.push(found[j].clone());
            assert(kept@ =~= found@.subrange(k as int, j + 1));
        }
        j = j + 1;
    }
    assert(victims@ + kept@ =~= found@);
    RetentionPlan { victims, kept }
}

/// Under a retention plan at most `copies` snapshots stay, so with the new
/// day's snapshot at most `copies + 1` exist, and every expiring snapshot
/// is older than every one that stays.
pub proof fn lemma_retention_bound(names: Seq<String>, copies: int, p: RetentionPlan)
    requires
        copies >= 0,
        retention_split(names, copies, p),
    ensures
        p.kept@.len() <= copies,
        forall|i: int, j: int|
            0 <= i < p.victims@.len() && 0 <= j < p.kept@.len() ==> text_le(
                #[trigger] p.victims@[i]@,
                #[trigger] p.kept@[j]@,
            ),
{
    let all = p.victims@ + p.kept@;
    assert forall|i: int, j: int|
        0 <= i < p.victims@.len() && 0 <= j < p.kept@.len() implies text_le(
        #[trigger] p.victims@[i]@,
        #[trigger] p.kept@[j]@,
    ) by {
        assert(all[i] == p.victims@[i]);
        assert(all[p.victims@.len() + j] == p.kept@[j]);
    }
}

/// What happens to a snapshot that expires.
#[derive(Debug, Clone, Copy, PartialEq, Eq, Structural)]
pub enum ExpireAction {
    /// A symlink is never followed nor deleted.
    SkipSymlink,
    /// Only directories are deleted.
    SkipNonDir,
    /// Safe or dry run: the deletion is only described.
    Describe,
    Delete,
}

/// The fate of an expiring entry of the given kind.
pub open spec fn expire_action_of(kind: EntryKind, mode: RunMode) -> ExpireAction {
    match kind {
        EntryKind::Symlink => ExpireAction::SkipSymlink,
        EntryKind::Dir => if mode.safe_mode || mode.dry_run {
            ExpireAction::Describe
        } else {
            ExpireAction::Delete
        },
        _ => ExpireAction::SkipNonDir,
    }
}

/// What to do with an expiring entry of the given kind.
pub fn expire_action(kind: EntryKind, mode: RunMode) -> (r: ExpireAction)
    ensures
        r == expire_action_of(kind, mode),
{
    match kind {
        EntryKind::Symlink => ExpireAction::SkipSymlink,
        EntryKind::Dir => if mode.safe_mode || mode.dry_run {
            ExpireAction::Describe
        } else {
            ExpireAction::Delete
        },
        _ => ExpireAction::SkipNonDir,
    }
}

/// An entry met while walking the previous snapshot.
#[derive(Debug, Clone)]
pub struct WalkEntry {
    /// The path relative to the snapshot root; empty for the root itself.
    pub rel: String,
    pub kind: EntryKind,
}

/// One step of seeding a new snapshot from the previous one.
#[derive(Debug, Clone)]
pub enum SeedStep {
    Skip,
    MakeDir(String),
    HardLink { from: String, to: String },
}

/// The step for one entry: directories are made, regular files are hard
/// linked at the same relative path, symlinks and other entries are left out.
pub open spec fn seed_step_matches(source: Seq<char>, dest: Seq<char>, e: WalkEntry, s: SeedStep) -> bool {
    if e.rel@.len() == 0 {
        s is Skip
    } else {
        match e.kind {
            EntryKind::Dir => s matches SeedStep::MakeDir(p) && p@ == join_path(dest, e.rel@),
            EntryKind::File => s matches SeedStep::HardLink { from, to } && from@ == join_path(
                source,
                e.rel@,
            ) && to@ == join_path(dest, e.rel@),
            _ => s is Skip,
        }
    }
}

/// The steps that turn `dest` into a hard-link clone of the snapshot at
/// `source`, one per walked entry.
pub fn plan_seed(source: &str, dest: &str, entries: &Vec<WalkEntry>) -> (r: Vec<SeedStep>)
    ensures
        r@.len() == entries@.len(),
        forall|i: int|
            0 <= i < r@.len() ==> seed_step_matches(source@, dest@, #[trigger] entries@[i], r@[i]),
{
    let mut out: Vec<SeedStep> = Vec::new();
    let mut i: usize = 0;
    while i < entries.len()
        invariant
            i <= entries.len(),
            out@.len() == i,
            forall|k: int|
                0 <= k < i ==> seed_step_matches(source@, dest@, #[trigger] entries@[k], out@[k]),
        decreases entries.len() - i,
    {
        let e = &entries[i];
        let step = if e.rel.unicode_len() == 0 {
            SeedStep::Skip
        } else {
            match e.kind {
                EntryKind::Dir => SeedStep::MakeDir(join_path_exec(dest, e.rel.as_str())),
                EntryKind::File => SeedStep::HardLink {
                    from: join_path_exec(source, e.rel.as_str()),
                    to: join_path_exec(dest, e.rel.as_str()),
                },
                _ => SeedStep::Skip,
            }
        };
        out.push(step);
        i = i + 1;
    }
    out
}

/// A regular file of the previous snapshot reaches the new one as a hard
/// link at the same relative path, so the two share its inode.
pub proof fn lemma_seed_links_files(source: Seq<char>, dest: Seq<char>, e: WalkEntry, s: SeedStep)
    requires
        seed_step_matches(source, dest, e, s),
        e.kind == EntryKind::File,
        e.rel@.len() > 0,
    ensures
        s matches SeedStep::HardLink { from, to } && from@ == join_path(source, e.rel@) && to@
            == join_path(dest, e.rel@),
{
}

/// `p` with a `/` at its end.
pub open spec fn with_slash(p: Seq<char>) -> Seq<char> {
    if p.len() > 0 && p.last() == '/' {
        p
    } else {
        p.push('/')
    }
}

/// `path` ending in `/`.
pub fn ensure_trailing_slash(path: &str) -> (r: String)
    ensures
        r@ == with_slash(path@),
{
    if ends_with_char(path, '/') {
        String::from_str(path)
    } else {
        proof {
            reveal_strlit("/");
        }
        concat_str(path, "/")
    }
}

/// The source as the synchronizer gets it: always ending in `/`, meaning
/// "the contents of", whether it is local, remote or a symlink.
pub fn normalize_rsync_source(source: &str) -> (r: String)
    ensures
        r@ == with_slash(source@),
{
    ensure_trailing_slash(source)
}

/// The synchronizer's command line.
pub open spec fn rsync_argv(
    source: Seq<char>,
    backup_dir: Seq<char>,
    excludes_file: Seq<char>,
    extra: Seq<Seq<char>>,
    safe_mode: bool,
) -> Seq<Seq<char>> {
    seq!["rsync"@, "-ar"@, "--stats"@, "--exclude-from="@ + excludes_file] + (if safe_mode {
        seq![]
    } else {
        seq!["--delete-after"@, "--delete-excluded"@]
    }) + extra + seq![with_slash(source), with_slash(backup_dir)]
}

/// The prefix that runs a command at the lowest CPU and I/O priority.
pub open spec fn nice_prefix() -> Seq<Seq<char>> {
    seq!["nice"@, "-n"@, "19"@, "ionice"@, "-c"@, "3"@, "-n7"@]
}

/// Appends a copy of `s` to `v`.
fn push_str(v: &mut Vec<String>, s: &str)
    ensures
        strs_view(final(v)@) == strs_view(old(v)@).push(s@),
{
    let ghost before = v@;
    v.push(String::from_str(s));
    assert(strs_view(v@) =~= strs_view(before).push(s@));
}

/// The synchronizer's command line for one job: archive mode with
/// statistics and the excludes file; deletions on the destination unless in
/// safe mode; the extra arguments; then source and destination, each ending
/// in `/`.
pub fn rsync_args(
    source: &str,
    backup_dir: &str,
    excludes_file: &str,
    extra: &Vec<String>,
    mode: RunMode,
) -> (r: Vec<String>)
    ensures
        strs_view(r@) == rsync_argv(source@, backup_dir@, excludes_file@, strs_view(extra@), mode.safe_mode),
{
    let mut v: Vec<String> = Vec::new();
    assert(strs_view(v@) =~= Seq::<Seq<char>>::empty());
    push_str(&mut v, "rsync");
    push_str(&mut v, "-ar");
    push_str(&mut v, "--stats");
    let ex = concat_str("--exclude-from=", excludes_file);
    push_str(&mut v, ex.as_str());
    if !mode.safe_mode {
        push_str(&mut v, "--delete-after");
        push_str(&mut v, "--delete-excluded");
    }
    let ghost head = strs_view(v@);
    let mut i: usize = 0;
    while i < extra.len()
        invariant
            i <= extra.len(),
            strs_view(v@) == head + strs_view(extra@).take(i as int),
        decreases extra.len() - i,
    {
        push_str(&mut v, extra[i].as_str());
        assert(strs_view(extra@).take(i + 1) =~= strs_view(extra@).take(i as int).push(extra@[i as int]@));
        assert(head + strs_view(extra@).take(i + 1) =~= (head + strs_view(extra@).take(i as int)).push(extra@[i as int]@));
        i = i + 1;
    }
    assert(strs_view(extra@).take(extra.len() as int) =~= strs_view(extra@));
    let s = normalize_rsync_source(source);
    let d = ensure_trailing_slash(backup_dir);
    push_str(&mut v, s.as_str());
    push_str(&mut v, d.as_str());
    assert(strs_view(v@) =~= rsync_argv(source@, backup_dir@, excludes_file@, strs_view(extra@), mode.safe_mode));
    v
}

/// `args` run at the lowest CPU and I/O priority.
pub fn nice_ionice_args(args: &Vec<String>) -> (r: Vec<String>)
    ensures
        strs_view(r@) == nice_prefix() + strs_view(args@),
{
    let mut v: Vec<String> = Vec::new();
    assert(strs_view(v@) =~= Seq::<Seq<char>>::empty());
    push_str(&mut v, "nice");
    push_str(&mut v, "-n");
    push_str(&mut v, "19");
    push_str(&mut v, "ionice");
    push_str(&mut v, "-c");
    push_str(&mut v, "3");
    push_str(&mut v, "-n7");
    assert(strs_view(v@) =~= nice_prefix());
    let mut i: usize = 0;
    while i < args.len()
        invariant
            i <= args.len(),
            strs_view(v@) == nice_prefix() + strs_view(args@).take(i as int),
        decreases args.len() - i,
    {
        push_str(&mut v, args[i].as_str());
        assert(strs_view(args@).take(i + 1) =~= strs_view(args@).take(i as int).push(args@[i as int]@));
        assert(nice_prefix() + strs_view(args@).take(i + 1) =~= (nice_prefix() + strs_view(args@).take(i as int)).push(args@[i as int]@));
        i = i + 1;
    }
    assert(strs_view(args@).take(args.len() as int) =~= strs_view(args@));
    v
}

/// In safe mode the synchronizer deletes nothing: unless the operator's
/// extra arguments ask for it, neither deletion flag is on its command line.
pub proof fn lemma_safe_mode_no_delete_flags(
    source: Seq<char>,
    backup_dir: Seq<char>,
    excludes_file: Seq<char>,
    extra: Seq<Seq<char>>,
)
    requires
        !extra.contains("--delete-after"@),
        !extra.contains("--delete-excluded"@),
    ensures
        !rsync_argv(source, backup_dir, excludes_file, extra, true).contains("--delete-after"@),
        !rsync_argv(source, backup_dir, excludes_file, extra, true).contains("--delete-excluded"@),
{
    reveal_strlit("rsync");
    reveal_strlit("-ar");
    reveal_strlit("--stats");
    reveal_strlit("--exclude-from=");
    reveal_strlit("--delete-after");
    reveal_strlit("--delete-excluded");
    let a = rsync_argv(source, backup_dir, excludes_file, extra, true);
    let head = seq!["rsync"@, "-ar"@, "--stats"@, "--exclude-from="@ + excludes_file];
    let tail = seq![with_slash(source), with_slash(backup_dir)];
    assert(a =~= head + seq![] + extra + tail);
    assert forall|i: int| 0 <= i < a.len() implies a[i] != "--delete-after"@ && a[i] != "--delete-excluded"@ by {
        if i == 3 {
            assert(a[i][2] == 'e');
            assert("--delete-after"@[2] == 'd');
            assert("--delete-excluded"@[2] == 'd');
        } else if 4 <= i < 4 + extra.len() {
            assert(a[i] == extra[i - 4]);
        } else if i >= 4 + extra.len() {
            assert(a[i].last() == '/');
            assert("--delete-after"@.last() == 'r');
            assert("--delete-excluded"@.last() == 'd');
        }
    }
}

/// The synchronizer's exit code counts as success: 0, or files vanished.
pub open spec fn sync_ok(rc: i32) -> bool {
    rc == 0 || rc == SYNC_VANISHED
}

/// What follows one run of the synchronizer.
#[derive(Debug, Clone, Copy, PartialEq, Eq, Structural)]
pub enum SyncStep {
    Succeeded,
    Retry,
    GaveUp,
}

/// After attempt number `attempt` (from 1) ended with `rc`: success ends
/// the job's copy; a failure is retried until the third attempt.
pub fn after_sync_attempt(attempt: u32, rc: i32) -> (r: SyncStep)
    ensures
        sync_ok(rc) ==> r == SyncStep::Succeeded,
        !sync_ok(rc) && attempt < SYNC_ATTEMPTS ==> r == SyncStep::Retry,
        !sync_ok(rc) && attempt >= SYNC_ATTEMPTS ==> r == SyncStep::GaveUp,
{
    if rc == 0 || rc == SYNC_VANISHED {
        SyncStep::Succeeded
    } else if attempt < SYNC_ATTEMPTS {
        SyncStep::Retry
    } else {
        SyncStep::GaveUp
    }
}

/// What `dest/current` is before the update.
#[derive(Debug, Clone, Copy, PartialEq, Eq, Structural)]
pub enum CurrentState {
    Absent,
    Symlink,
    File,
    Dir,
}

/// What is done to `current` after a job's copy.
#[derive(Debug, Clone, Copy, PartialEq, Eq, Structural)]
pub enum CurrentAction {
    /// The copy failed or made no snapshot: `current` stays as it is.
    Leave,
    /// Safe or dry run: the update is only described.
    Describe,
    /// A directory stands in the way: it is never removed.
    SkipDir,
    /// The old link or file is removed, then the new link made.
    Replace,
    /// The new link is made.
    Create,
}

/// The update of `current`.
pub open spec fn current_action_of(
    sync_succeeded: bool,
    backup_dir_exists: bool,
    current: CurrentState,
    mode: RunMode,
) -> CurrentAction {
    if !(sync_succeeded && backup_dir_exists) {
        CurrentAction::Leave
    } else if mode.safe_mode || mode.dry_run {
        CurrentAction::Describe
    } else {
        match current {
            CurrentState::Dir => CurrentAction::SkipDir,
            CurrentState::Absent => CurrentAction::Create,
            _ => CurrentAction::Replace,
        }
    }
}

/// How `current` is updated after a job's copy: moved to the new snapshot
/// only after a successful copy that left the snapshot directory, never in
/// safe or dry runs, never over a directory.
pub fn plan_current_update(
    sync_succeeded: bool,
    backup_dir_exists: bool,
    current: CurrentState,
    mode: RunMode,
) -> (r: CurrentAction)
    ensures
        r == current_action_of(sync_succeeded, backup_dir_exists, current, mode),
{
    if !(sync_succeeded && backup_dir_exists) {
        CurrentAction::Leave
    } else if mode.safe_mode || mode.dry_run {
        CurrentAction::Describe
    } else {
        match current {
            CurrentState::Dir => CurrentAction::SkipDir,
            CurrentState::Absent => CurrentAction::Create,
            _ => CurrentAction::Replace,
        }
    }
}

/// The target of the new `current` link: the day's directory, relative.
pub fn current_link_target(backup_day: &str) -> (r: String)
    ensures
        r@ == backup_day@,
{
    String::from_str(backup_day)
}

/// `current` is only ever pointed at a snapshot directory that exists after
/// a successful copy; otherwise it keeps its old target, or stays absent.
pub proof fn lemma_current_points_to_snapshot(
    sync_succeeded: bool,
    backup_dir_exists: bool,
    current: CurrentState,
    mode: RunMode,
)
    ensures
        (current_action_of(sync_succeeded, backup_dir_exists, current, mode) is Replace
            || current_action_of(sync_succeeded, backup_dir_exists, current, mode) is Create) ==> (
        sync_succeeded && backup_dir_exists),
        !sync_succeeded ==> current_action_of(sync_succeeded, backup_dir_exists, current, mode) is Leave,
{
}

/// A safe run neither deletes a snapshot nor removes `current`, and a dry
/// run changes nothing: deletions and updates of `current` are only
/// described, and every other write step too.
pub proof fn lemma_safe_and_dry_runs_keep_data(
    kind: EntryKind,
    sync_succeeded: bool,
    backup_dir_exists: bool,
    current: CurrentState,
    mode: RunMode,
)
    requires
        mode.safe_mode || mode.dry_run,
    ensures
        expire_action_of(kind, mode) != ExpireAction::Delete,
        current_action_of(sync_succeeded, backup_dir_exists, current, mode) != CurrentAction::Replace,
        current_action_of(sync_succeeded, backup_dir_exists, current, mode) != CurrentAction::Create,
        mode.dry_run ==> step_mode_of(mode) == StepMode::Describe,
{
}

/// A dry run has no effect: no command is executed (so nothing is mounted,
/// unmounted, synchronized or flushed), no lock is taken, every step that
/// writes is only described, no snapshot is deleted and `current` is left
/// alone.
pub proof fn lemma_dry_run_has_no_effects(
    kind: EntryKind,
    sync_succeeded: bool,
    backup_dir_exists: bool,
    current: CurrentState,
    mode: RunMode,
)
    requires
        mode.dry_run,
    ensures
        !crate::types::performs_effects(mode),
        step_mode_of(mode) == StepMode::Describe,
        expire_action_of(kind, mode) != ExpireAction::Delete,
        current_action_of(sync_succeeded, backup_dir_exists, current, mode) is Leave
            || current_action_of(sync_succeeded, backup_dir_exists, current, mode) is Describe,
{
}

/// Each pattern followed by a line break.
pub open spec fn lines_text(v: Seq<Seq<char>>) -> Seq<char>
    decreases v.len(),
{
    if v.len() == 0 {
        seq![]
    } else {
        lines_text(v.drop_last()) + v.last() + seq!['\n']
    }
}

/// Appending one line to the text of a list.
proof fn lemma_lines_text_push(v: Seq<Seq<char>>, x: Seq<char>)
    ensures
        lines_text(v.push(x)) == lines_text(v) + x + seq!['\n'],
{
    assert(v.push(x).drop_last() =~= v);
}

/// Appends `line` and a line break to `out`.
fn append_line(out: &mut String, line: &str)
    ensures
        final(out)@ == old(out)@ + line@ + seq!['\n'],
{
    out.append(line);
    out.append("\n");
    proof {
        reveal_strlit("\n");
    }
}

/// Appends each string of `v` as a line to `out`.
fn append_lines(out: &mut String, v: &Vec<String>, Ghost(before): Ghost<Seq<Seq<char>>>)
    requires
        old(out)@ == lines_text(before),
    ensures
        final(out)@ == lines_text(before + strs_view(v@)),
{
    let mut i: usize = 0;
    assert(before + strs_view(v@).take(0) =~= before);
    while i < v.len()
        invariant
            i <= v.len(),
            out@ == lines_text(before + strs_view(v@).take(i as int)),
        decreases v.len() - i,
    {
        append_line(out, v[i].as_str());
        proof {
            lemma_lines_text_push(before + strs_view(v@).take(i as int), v@[i as int]@);
            assert(before + strs_view(v@).take(i + 1) =~= (before + strs_view(v@).take(i as int)).push(
                v@[i as int]@,
            ));
        }
        i = i + 1;
    }
    assert(strs_view(v@).take(v.len() as int) =~= strs_view(v@));
}

/// The content of the excludes file: the job's patterns (global ones
/// first), then the pristine files, one per line.
pub fn excludes_file_text(job_excludes: &Vec<String>, pristine: &Vec<String>) -> (r: String)
    ensures
        r@ == lines_text(strs_view(job_excludes@) + strs_view(pristine@)),
{
    let mut out = String::new();
    assert(Seq::<Seq<char>>::empty() + strs_view(job_excludes@) =~= strs_view(job_excludes@));
    append_lines(&mut out, job_excludes, Ghost(Seq::empty()));
    append_lines(&mut out, pristine, Ghost(strs_view(job_excludes@)));
    out
}

/// The job's directory on the mounted disk: its name under the mount, for a
/// safe name only.
pub fn resolve_job_dest(job: &Job, disk_mount: &str) -> (r: Result<String, TimevaultError>)
    ensures
        r is Ok <==> safe_name(job.name@),
        r matches Ok(p) ==> p@ == join_path(disk_mount@, job.name@),
        r matches Err(e) ==> e is Message,
{
    if !is_safe_name(job.name.as_str()) {
        let mut m = concat_str("job ", job.name.as_str());
        m.append(" name must use only letters, digits, '.', '-', '_'");
        return Err(TimevaultError::message(m));
    }
    Ok(join_path_exec(disk_mount, job.name.as_str()))
}

} // verus!
