//! The run plan of a backup: which jobs run, on which disk each runs
//! first, and which further disks each is cascaded to.

use vstd::prelude::*;
use crate::config::{BackupDiskConfig, Job};
use crate::error::TimevaultError;
use crate::names::{join_path, join_path_exec};
use crate::snapshot::CURRENT_LINK;
use crate::text::{concat_str, str_eq, strs_view};
use crate::types::RunPolicy;

verus! {

/// Why no set of jobs could be chosen.
#[derive(Debug, Clone)]
pub enum JobSelectionError {
    /// A requested job is switched off.
    Disabled(String),
    /// Requested jobs that the catalog lacks, in request order.
    NotFound(Vec<String>),
    /// Nothing requested and no job runs automatically.
    NoAutoJobs,
}

/// The job runs under the request `sel`: an automatic job when nothing is
/// requested, a requested job otherwise.
pub open spec fn job_chosen(j: Job, sel: Seq<Seq<char>>) -> bool {
    if sel.len() == 0 {
        j.run_policy == RunPolicy::Auto
    } else {
        sel.contains(j.name@)
    }
}

/// The indices of the chosen jobs, in catalog order.
pub open spec fn chosen_indices(jobs: Seq<Job>, sel: Seq<Seq<char>>) -> Seq<usize>
    decreases jobs.len(),
{
    if jobs.len() == 0 {
        seq![]
    } else {
        let r = chosen_indices(jobs.drop_last(), sel);
        if job_chosen(jobs.last(), sel) {
            r.push((jobs.len() - 1) as usize)
        } else {
            r
        }
    }
}

/// Some job of the catalog has the name `n`.
pub open spec fn job_named(jobs: Seq<Job>, n: Seq<char>) -> bool {
    exists|k: int| 0 <= k < jobs.len() && #[trigger] jobs[k].name@ == n
}

/// Whether `name` is among `sel`.
fn requested(sel: &Vec<String>, name: &str) -> (r: bool)
    ensures
        r == strs_view(sel@).contains(name@),
{
    let mut i: usize = 0;
    while i < sel.len()
        invariant
            i <= sel.len(),
            forall|k: int| 0 <= k < i ==> #[trigger] sel@[k]@ != name@,
        decreases sel.len() - i,
    {
        if str_eq(sel[i].as_str(), name) {
            assert(strs_view(sel@)[i as int] == name@);
            return true;
        }
        i = i + 1;
    }
    proof {
        if strs_view(sel@).contains(name@) {
            let k = choose|k: int| 0 <= k < strs_view(sel@).len() && strs_view(sel@)[k] == name@;
            assert(sel@[k]@ == name@);
        }
    }
    false
}

/// Whether some job is named `name`.
fn has_job(jobs: &Vec<Job>, name: &str) -> (r: bool)
    ensures
        r == job_named(jobs@, name@),
{
    let mut i: usize = 0;
    while i < jobs.len()
        invariant
            i <= jobs.len(),
            forall|k: int| 0 <= k < i ==> #[trigger] jobs@[k].name@ != name@,
        decreases jobs.len() - i,
    {
        if str_eq(jobs[i].name.as_str(), name) {
            return true;
        }
        i = i + 1;
    }
    false
}

/// Chooses the jobs of a run, by index in catalog order: the automatic jobs
/// when `selected` is empty, else the requested ones. A requested job that
/// is off, a requested name that no job has, or an empty choice is an error.
pub fn select_jobs(jobs: &Vec<Job>, selected: &Vec<String>) -> (r: Result<Vec<usize>, JobSelectionError>)
    ensures
        r matches Ok(idx) ==> idx@ == chosen_indices(jobs@, strs_view(selected@)) && idx@.len() > 0,
        r matches Ok(_) ==> (selected@.len() > 0 ==> forall|k: int|
            0 <= k < selected@.len() ==> job_named(jobs@, #[trigger] selected@[k]@)),
        r matches Err(JobSelectionError::Disabled(n)) ==> exists|k: int|
            0 <= k < jobs@.len() && #[trigger] jobs@[k].name@ == n@ && jobs@[k].run_policy
                == RunPolicy::Off && job_chosen(jobs@[k], strs_view(selected@)),
        r matches Err(JobSelectionError::NotFound(names)) ==> names@.len() > 0 && forall|k: int|
            0 <= k < names@.len() ==> !job_named(jobs@, #[trigger] names@[k]@)
                && strs_view(selected@).contains(names@[k]@),
        r matches Err(JobSelectionError::NoAutoJobs) ==> selected@.len() == 0
            && chosen_indices(jobs@, strs_view(selected@)).len() == 0,
        selected@.len() == 0 ==> (r is Ok <==> chosen_indices(jobs@, strs_view(selected@)).len() > 0),
        selected@.len() > 0 ==> (r is Ok <==> (forall|k: int|
            0 <= k < jobs@.len() && job_chosen(#[trigger] jobs@[k], strs_view(selected@))
                ==> jobs@[k].run_policy != RunPolicy::Off) && (forall|k: int|
            0 <= k < selected@.len() ==> job_named(jobs@, #[trigger] selected@[k]@))),
{
    let ghost sel = strs_view(selected@);
    let mut idx: Vec<usize> = Vec::new();
    let mut i: usize = 0;
    while i < jobs.len()
        invariant
            i <= jobs.len(),
            sel == strs_view(selected@),
            idx@ == chosen_indices(jobs@.take(i as int), sel),
            selected@.len() > 0 ==> forall|k: int|
                0 <= k < i && job_chosen(#[trigger] jobs@[k], sel) ==> jobs@[k].run_policy
                    != RunPolicy::Off,
        decreases jobs.len() - i,
    {
        assert(jobs@.take(i + 1).drop_last() =~= jobs@.take(i as int));
        assert(jobs@.take(i + 1).last() == jobs@[i as int]);
        let job = &jobs[i];
        let chosen = if selected.len() == 0 {
            job.run_policy == RunPolicy::Auto
        } else {
            requested(selected, job.name.as_str())
        };
        if chosen {
            if selected.len() > 0 && job.run_policy == RunPolicy::Off {
                return Err(JobSelectionError::Disabled(job.name.clone()));
            }
            idx.push(i);
        }
        i = i + 1;
    }
    assert(jobs@.take(jobs.len() as int) =~= jobs@);
    if selected.len() > 0 {
        let mut missing: Vec<String> = Vec::new();
        let mut s: usize = 0;
        while s < selected.len()
            invariant
                s <= selected.len(),
                sel == strs_view(selected@),
                forall|k: int|
                    0 <= k < missing@.len() ==> !job_named(jobs@, #[trigger] missing@[k]@)
                        && sel.contains(missing@[k]@),
                missing@.len() == 0 ==> forall|k: int|
                    0 <= k < s ==> job_named(jobs@, #[trigger] selected@[k]@),
            decreases selected.len() - s,
        {
            let name = selected[s].as_str();
            if !has_job(jobs, name) && !requested(&missing, name) {
                assert(sel[s as int] == name@);
                missing.push(String::from_str(name));
            }
            s = s + 1;
        }
        if missing.len() > 0 {
            proof {
                let m0 = missing@[0]@;
                assert(!job_named(jobs@, m0) && sel.contains(m0));
                let k = choose|k: int| 0 <= k < sel.len() && sel[k] == m0;
                assert(selected@[k]@ == m0);
            }
            return Err(JobSelectionError::NotFound(missing));
        }
    }
    if idx.len() == 0 {
        proof {
            if selected@.len() > 0 {
                assert(job_named(jobs@, selected@[0]@));
                let k = choose|k: int| 0 <= k < jobs@.len() && #[trigger] jobs@[k].name@ == selected@[0]@;
                assert(sel[0] == selected@[0]@);
                assert(job_chosen(jobs@[k], sel));
                lemma_chosen_nonempty(jobs@, sel, k);
            }
        }
        return Err(JobSelectionError::NoAutoJobs);
    }
    Ok(idx)
}

/// A chosen job makes the list of chosen indices non-empty.
proof fn lemma_chosen_nonempty(jobs: Seq<Job>, sel: Seq<Seq<char>>, k: int)
    requires
        0 <= k < jobs.len(),
        job_chosen(jobs[k], sel),
    ensures
        chosen_indices(jobs, sel).len() > 0,
    decreases jobs.len(),
{
    if k < jobs.len() - 1 {
        lemma_chosen_nonempty(jobs.drop_last(), sel, k);
    }
}

} // verus!

verus! {

/// The job may be written to the disk: it names no disks, or names this one.
pub open spec fn job_allows(j: Job, d: BackupDiskConfig) -> bool {
    match j.disk_ids {
        None => true,
        Some(ids) => strs_view(ids@).contains(d.disk_id@),
    }
}

/// The position of the first connected disk that the job allows, or the
/// number of connected disks when it allows none.
pub open spec fn primary_pos(j: Job, conn: Seq<BackupDiskConfig>) -> nat
    decreases conn.len(),
{
    if conn.len() == 0 || job_allows(j, conn[0]) {
        0
    } else {
        1 + primary_pos(j, conn.drop_first())
    }
}

proof fn lemma_primary_pos(j: Job, conn: Seq<BackupDiskConfig>)
    ensures
        primary_pos(j, conn) <= conn.len(),
        forall|i: int| 0 <= i < primary_pos(j, conn) ==> !job_allows(j, #[trigger] conn[i]),
        primary_pos(j, conn) < conn.len() ==> job_allows(j, conn[primary_pos(j, conn) as int]),
    decreases conn.len(),
{
    if conn.len() > 0 && !job_allows(j, conn[0]) {
        lemma_primary_pos(j, conn.drop_first());
        assert forall|i: int| 0 <= i < primary_pos(j, conn) implies !job_allows(j, #[trigger] conn[i]) by {
            if i > 0 {
                assert(conn[i] == conn.drop_first()[i - 1]);
            }
        }
    }
}

/// The jobs, by index in order, whose primary disk is connected disk `d`
/// and, when `e` is given, that also allow connected disk `e`.
pub open spec fn group_of(jobs: Seq<Job>, conn: Seq<BackupDiskConfig>, d: int, e: Option<int>) -> Seq<usize>
    decreases jobs.len(),
{
    if jobs.len() == 0 {
        seq![]
    } else {
        let r = group_of(jobs.drop_last(), conn, d, e);
        let j = jobs.last();
        if primary_pos(j, conn) == d && (e matches Some(x) ==> job_allows(j, conn[x])) {
            r.push((jobs.len() - 1) as usize)
        } else {
            r
        }
    }
}

/// One pass over a disk.
#[derive(Debug, Clone)]
pub struct DiskRun {
    /// The disk, by index among the connected disks.
    pub disk: usize,
    /// The jobs, by index among the jobs of the run, in order.
    pub jobs: Vec<usize>,
    /// For a cascade pass, the disk whose fresh snapshots are the source.
    pub cascade_from: Option<usize>,
}

/// A pass in mathematical form.
pub struct RunView {
    pub disk: int,
    pub jobs: Seq<usize>,
    pub from: Option<usize>,
}

/// The mathematical form of a pass.
pub open spec fn run_view(r: DiskRun) -> RunView {
    RunView { disk: r.disk as int, jobs: r.jobs@, from: r.cascade_from }
}

/// The cascade passes from primary `d` to the disks before `e`, in
/// catalog order: one per other disk that some job of the group allows.
pub open spec fn cascade_runs(jobs: Seq<Job>, conn: Seq<BackupDiskConfig>, d: int, e: int) -> Seq<RunView>
    decreases e,
{
    if e <= 0 {
        seq![]
    } else {
        let r = cascade_runs(jobs, conn, d, e - 1);
        let g = group_of(jobs, conn, d, Some(e - 1));
        if e - 1 != d && g.len() > 0 {
            r.push(RunView { disk: e - 1, jobs: g, from: Some(d as usize) })
        } else {
            r
        }
    }
}

/// The passes for primary disk `d`: its group first, then, when cascading,
/// the group's cascade passes.
pub open spec fn runs_for(jobs: Seq<Job>, conn: Seq<BackupDiskConfig>, d: int, cascade: bool) -> Seq<RunView> {
    let g = group_of(jobs, conn, d, None);
    if g.len() == 0 {
        seq![]
    } else {
        seq![RunView { disk: d, jobs: g, from: None }] + if cascade {
            cascade_runs(jobs, conn, d, conn.len() as int)
        } else {
            seq![]
        }
    }
}

/// The passes for the primary disks before `d`, in catalog order.
pub open spec fn all_runs(jobs: Seq<Job>, conn: Seq<BackupDiskConfig>, d: int, cascade: bool) -> Seq<RunView>
    decreases d,
{
    if d <= 0 {
        seq![]
    } else {
        all_runs(jobs, conn, d - 1, cascade) + runs_for(jobs, conn, d - 1, cascade)
    }
}

/// Whether the job may be written to the disk.
pub fn job_allows_disk(job: &Job, disk: &BackupDiskConfig) -> (r: bool)
    ensures
        r == job_allows(*job, *disk),
{
    match &job.disk_ids {
        None => true,
        Some(ids) => {
            let mut i: usize = 0;
            while i < ids.len()
                invariant
                    i <= ids.len(),
                    job.disk_ids == Some(*ids),
                    forall|k: int| 0 <= k < i ==> #[trigger] ids@[k]@ != disk.disk_id@,
                decreases ids.len() - i,
            {
                if str_eq(ids[i].as_str(), disk.disk_id.as_str()) {
                    assert(strs_view(ids@)[i as int] == disk.disk_id@);
                    return true;
                }
                i = i + 1;
            }
            proof {
                if strs_view(ids@).contains(disk.disk_id@) {
                    let k = choose|k: int| 0 <= k < strs_view(ids@).len() && strs_view(ids@)[k] == disk.disk_id@;
                    assert(ids@[k]@ == disk.disk_id@);
                }
            }
            false
        },
    }
}

/// The primary disk of the job: the first connected disk it allows.
pub fn primary_disk(job: &Job, connected: &Vec<BackupDiskConfig>) -> (r: Option<usize>)
    ensures
        r is Some <==> primary_pos(*job, connected@) < connected@.len(),
        r matches Some(k) ==> k == primary_pos(*job, connected@),
{
    proof {
        lemma_primary_pos(*job, connected@);
    }
    let mut i: usize = 0;
    while i < connected.len()
        invariant
            i <= connected.len(),
            primary_pos(*job, connected@) <= connected@.len(),
            forall|k: int| 0 <= k < primary_pos(*job, connected@) ==> !job_allows(*job, #[trigger] connected@[k]),
            primary_pos(*job, connected@) < connected@.len() ==> job_allows(*job, connected@[primary_pos(*job, connected@) as int]),
            forall|k: int| 0 <= k < i ==> !job_allows(*job, #[trigger] connected@[k]),
        decreases connected.len() - i,
    {
        if job_allows_disk(job, &connected[i]) {
            return Some(i);
        }
        i = i + 1;
    }
    None
}

/// The jobs whose primary is `d` (and that allow `e`, when given).
fn group_indices(
    jobs: &Vec<Job>,
    connected: &Vec<BackupDiskConfig>,
    prims: &Vec<usize>,
    d: usize,
    e: Option<usize>,
) -> (r: Vec<usize>)
    requires
        prims@.len() == jobs@.len(),
        forall|j: int| 0 <= j < jobs@.len() ==> #[trigger] prims@[j] == primary_pos(jobs@[j], connected@),
        e matches Some(x) ==> x < connected@.len(),
    ensures
        r@ == group_of(jobs@, connected@, d as int, match e {
            Some(x) => Some(x as int),
            None => None,
        }),
{
    let ghost eo = match e {
        Some(x) => Some(x as int),
        None => None,
    };
    let mut out: Vec<usize> = Vec::new();
    let mut j: usize = 0;
    while j < jobs.len()
        invariant
            j <= jobs.len(),
            prims@.len() == jobs@.len(),
            forall|i: int| 0 <= i < jobs@.len() ==> #[trigger] prims@[i] == primary_pos(jobs@[i], connected@),
            e matches Some(x) ==> x < connected@.len(),
            eo == match e {
                Some(x) => Some(x as int),
                None => None,
            },
            out@ == group_of(jobs@.take(j as int), connected@, d as int, eo),
        decreases jobs.len() - j,
    {
        assert(jobs@.take(j + 1).drop_last() =~= jobs@.take(j as int));
        assert(jobs@.take(j + 1).last() == jobs@[j as int]);
        let also = match e {
            Some(x) => job_allows_disk(&jobs[j], &connected[x]),
            None => true,
        };
        if prims[j] == d && also {
            out.push(j);
        }
        j = j + 1;
    }
    assert(jobs@.take(jobs.len() as int) =~= jobs@);
    out
}

/// Plans a backup over the connected disks (in catalog order): each job runs
/// first on its primary disk, the first connected disk it allows; disks are
/// taken in catalog order, each with its group of jobs in job order; with
/// `cascade`, each group is then copied to every other connected disk that
/// its jobs allow, again in catalog order. A job that allows no connected
/// disk makes the plan fail.
pub fn plan_runs(jobs: &Vec<Job>, connected: &Vec<BackupDiskConfig>, cascade: bool) -> (r: Result<
    Vec<DiskRun>,
    TimevaultError,
>)
    ensures
        r is Err <==> exists|j: int|
            0 <= j < jobs@.len() && primary_pos(#[trigger] jobs@[j], connected@) == connected@.len(),
        r matches Ok(runs) ==> runs@.map_values(|x: DiskRun| run_view(x)) == all_runs(
            jobs@,
            connected@,
            connected@.len() as int,
            cascade,
        ),
        r matches Err(e) ==> e is Message,
{
    let mut prims: Vec<usize> = Vec::new();
    let mut j: usize = 0;
    while j < jobs.len()
        invariant
            j <= jobs.len(),
            prims@.len() == j,
            forall|i: int| 0 <= i < j ==> #[trigger] prims@[i] == primary_pos(jobs@[i], connected@),
            forall|i: int| 0 <= i < j ==> primary_pos(#[trigger] jobs@[i], connected@) < connected@.len(),
        decreases jobs.len() - j,
    {
        match primary_disk(&jobs[j], connected) {
            Some(k) => prims.push(k),
            None => {
                proof {
                    lemma_primary_pos(jobs@[j as int], connected@);
                }
                let mut m = concat_str("job ", jobs[j].name.as_str());
                m.append(": no allowed backup disk connected");
                return Err(TimevaultError::Message(m));
            },
        }
        j = j + 1;
    }
    let mut runs: Vec<DiskRun> = Vec::new();
    let mut d: usize = 0;
    assert(runs@.map_values(|x: DiskRun| run_view(x)) =~= Seq::<RunView>::empty());
    while d < connected.len()
        invariant
            d <= connected.len(),
            prims@.len() == jobs@.len(),
            forall|i: int| 0 <= i < jobs@.len() ==> primary_pos(#[trigger] jobs@[i], connected@) < connected@.len(),
            forall|i: int| 0 <= i < jobs@.len() ==> #[trigger] prims@[i] == primary_pos(jobs@[i], connected@),
            runs@.map_values(|x: DiskRun| run_view(x)) == all_runs(jobs@, connected@, d as int, cascade),
        decreases connected.len() - d,
    {
        let ghost before = runs@.map_values(|x: DiskRun| run_view(x));
        let group = group_indices(jobs, connected, &prims, d, None);
        if group.len() > 0 {
            let ghost g = group@;
            runs.push(DiskRun { disk: d, jobs: group, cascade_from: None });
            assert(runs@.map_values(|x: DiskRun| run_view(x)) =~= before.push(
                RunView { disk: d as int, jobs: g, from: None },
            ));
            if cascade {
                let ghost mid = runs@.map_values(|x: DiskRun| run_view(x));
                let mut e: usize = 0;
                assert(mid + cascade_runs(jobs@, connected@, d as int, 0) =~= mid);
                while e < connected.len()
                    invariant
                        d < connected.len(),
                        e <= connected.len(),
                        prims@.len() == jobs@.len(),
                        forall|i: int|
                            0 <= i < jobs@.len() ==> #[trigger] prims@[i] == primary_pos(jobs@[i], connected@),
                        runs@.map_values(|x: DiskRun| run_view(x)) == mid + cascade_runs(
                            jobs@,
                            connected@,
                            d as int,
                            e as int,
                        ),
                    decreases connected.len() - e,
                {
                    let ghost cur = runs@.map_values(|x: DiskRun| run_view(x));
                    if e != d {
                        let sub = group_indices(jobs, connected, &prims, d, Some(e));
                        if sub.len() > 0 {
                            let ghost s = sub@;
                            runs.push(DiskRun { disk: e, jobs: sub, cascade_from: Some(d) });
                            assert(runs@.map_values(|x: DiskRun| run_view(x)) =~= cur.push(
                                RunView { disk: e as int, jobs: s, from: Some(d) },
                            ));
                        }
                    }
                    e = e + 1;
                }
            }
        }
        assert(runs@.map_values(|x: DiskRun| run_view(x)) =~= all_runs(
            jobs@,
            connected@,
            d + 1,
            cascade,
        ));
        d = d + 1;
    }
    Ok(runs)
}

/// The source of a cascaded job: the primary disk's `current` snapshot of it.
pub fn cascade_source(primary_mount: &str, job_name: &str) -> (r: String)
    ensures
        r@ == join_path(join_path(primary_mount@, job_name@), CURRENT_LINK@),
{
    let dir = join_path_exec(primary_mount, job_name);
    join_path_exec(dir.as_str(), CURRENT_LINK)
}

} // verus!
