//! The job catalog: the configuration as written, its validation, and the
//! runtime form that the backup engine consumes.

use vstd::prelude::*;
use crate::error::{ConfigError, TimevaultError};
use crate::names::{safe_name, is_safe_name};
use crate::text::{concat_str, trim, trimmed};
use crate::types::{RunPolicy, policy_named};

verus! {

/// The default root of backup-time mountpoints.
pub const DEFAULT_MOUNT_BASE: &'static str = "/run/timevault/mounts";

/// The default root of restore-time mountpoints.
pub const DEFAULT_USER_MOUNT_BASE: &'static str = "/run/timevault/user-mounts";

/// Global switches of the configuration file.
#[derive(Debug, Clone)]
pub struct ConfigOptions {
    pub exclude_pristine: bool,
    pub cascade: bool,
    pub verbose: bool,
    pub safe: bool,
    /// Extra arguments handed to the file synchronizer.
    pub rsync: Vec<String>,
}

/// The configuration file as written.
#[derive(Debug, Clone)]
pub struct Config {
    pub jobs: Vec<JobConfig>,
    /// Patterns excluded from every job, ahead of the job's own.
    pub excludes: Vec<String>,
    pub backup_disks: Vec<BackupDiskConfig>,
    pub mount_base: Option<String>,
    pub user_mount_base: Option<String>,
    pub options: Option<ConfigOptions>,
}

/// A job as written in the configuration file.
#[derive(Debug, Clone)]
pub struct JobConfig {
    pub name: String,
    pub source: String,
    pub copies: usize,
    pub run: String,
    pub excludes: Vec<String>,
    /// The disks this job may be written to; all when absent.
    pub disk_ids: Option<Vec<String>>,
}

/// An enrolled backup disk.
#[derive(Debug, Clone)]
pub struct BackupDiskConfig {
    pub disk_id: String,
    pub fs_uuid: String,
    pub label: Option<String>,
    pub mount_options: Option<String>,
}

/// A validated job.
#[derive(Debug, Clone)]
pub struct Job {
    pub name: String,
    pub source: String,
    pub copies: usize,
    pub run_policy: RunPolicy,
    /// Global excludes followed by the job's own.
    pub excludes: Vec<String>,
    pub disk_ids: Option<Vec<String>>,
}

/// A validated configuration.
#[derive(Debug, Clone)]
pub struct RuntimeConfig {
    pub jobs: Vec<Job>,
    pub backup_disks: Vec<BackupDiskConfig>,
    pub mount_base: String,
    pub user_mount_base: String,
    pub options: ConfigOptions,
}

/// The per-job rules: a known run policy, a non-blank source, and a safe name.
pub open spec fn job_fields_ok(j: JobConfig) -> bool {
    &&& policy_named(j.run@) is Some
    &&& trimmed(j.source@).len() > 0
    &&& trimmed(j.name@).len() > 0
    &&& safe_name(j.name@)
}

/// No two jobs share a name.
pub open spec fn job_names_distinct(jobs: Seq<JobConfig>) -> bool {
    forall|a: int, b: int|
        0 <= a < b < jobs.len() ==> #[trigger] jobs[a].name@ != #[trigger] jobs[b].name@
}

/// No two disks share a filesystem UUID.
pub open spec fn fs_uuids_distinct(d: Seq<BackupDiskConfig>) -> bool {
    forall|a: int, b: int|
        0 <= a < b < d.len() ==> #[trigger] d[a].fs_uuid@ != #[trigger] d[b].fs_uuid@
}

/// Some disk of the catalog carries the id `id`.
pub open spec fn disk_id_known(d: Seq<BackupDiskConfig>, id: Seq<char>) -> bool {
    exists|k: int| 0 <= k < d.len() && #[trigger] d[k].disk_id@ == id
}

/// Two disks of the catalog carry the id `id`.
pub open spec fn disk_id_duplicated(d: Seq<BackupDiskConfig>, id: Seq<char>) -> bool {
    exists|a: int, b: int|
        0 <= a < b < d.len() && #[trigger] d[a].disk_id@ == id && #[trigger] d[b].disk_id@ == id
}

/// Every disk id that the job names is carried by exactly one disk.
pub open spec fn job_disks_ok(j: JobConfig, d: Seq<BackupDiskConfig>) -> bool {
    j.disk_ids matches Some(ids) ==> forall|i: int|
        0 <= i < ids@.len() ==> disk_id_known(d, #[trigger] ids@[i]@) && !disk_id_duplicated(
            d,
            ids@[i]@,
        )
}

/// The configuration obeys every rule of the catalog.
pub open spec fn config_valid(cfg: Config) -> bool {
    &&& forall|i: int| 0 <= i < cfg.jobs@.len() ==> job_fields_ok(#[trigger] cfg.jobs@[i])
    &&& job_names_distinct(cfg.jobs@)
    &&& fs_uuids_distinct(cfg.backup_disks@)
    &&& forall|i: int|
        0 <= i < cfg.jobs@.len() ==> job_disks_ok(#[trigger] cfg.jobs@[i], cfg.backup_disks@)
}

/// `rt` is the validated form of the job `j` under the global excludes `g`.
pub open spec fn job_resolved(j: JobConfig, g: Seq<String>, rt: Job) -> bool {
    &&& rt.name == j.name
    &&& rt.source == j.source
    &&& rt.copies == j.copies
    &&& policy_named(j.run@) == Some(rt.run_policy)
    &&& rt.excludes@ == g + j.excludes@
    &&& (rt.disk_ids is Some <==> j.disk_ids is Some)
    &&& (rt.disk_ids matches Some(x) ==> x@ == j.disk_ids->Some_0@)
}

/// The options in force: those written, or all switched off.
pub open spec fn options_resolved(o: Option<ConfigOptions>, r: ConfigOptions) -> bool {
    match o {
        Some(w) => r == w,
        None => !r.exclude_pristine && !r.cascade && !r.verbose && !r.safe && r.rsync@.len() == 0,
    }
}

/// A copy of a list of strings.
pub fn clone_strings(v: &Vec<String>) -> (r: Vec<String>)
    ensures
        r@ == v@,
{
    let mut out: Vec<String> = Vec::new();
    let mut i: usize = 0;
    while i < v.len()
        invariant
            i <= v.len(),
            out@ == v@.take(i as int),
        decreases v.len() - i,
    {
        out.push(v[i].clone());
        assert(out@ =~= v@.take(i + 1));
        i = i + 1;
    }
    assert(v@.take(v.len() as int) =~= v@);
    out
}

/// A copy of an optional list of strings.
pub fn clone_opt_strings(v: &Option<Vec<String>>) -> (r: Option<Vec<String>>)
    ensures
        r matches Some(x) ==> v matches Some(y) && x@ == y@,
        r is None <==> v is None,
{
    match v {
        Some(x) => Some(clone_strings(x)),
        None => None,
    }
}

/// How many disks, up to two, carry the id `id`.
pub fn count_disk_id(disks: &Vec<BackupDiskConfig>, id: &str) -> (r: u8)
    ensures
        r <= 2,
        (r == 0) <==> !disk_id_known(disks@, id@),
        (r == 2) <==> disk_id_duplicated(disks@, id@),
{
    let mut found: Option<usize> = None;
    let mut i: usize = 0;
    while i < disks.len()
        invariant
            i <= disks.len(),
            found matches Some(k) ==> k < i && disks@[k as int].disk_id@ == id@,
            found is None ==> forall|k: int| 0 <= k < i ==> #[trigger] disks@[k].disk_id@ != id@,
            found matches Some(k) ==> forall|m: int|
                0 <= m < i && m != k ==> #[trigger] disks@[m].disk_id@ != id@,
        decreases disks.len() - i,
    {
        if crate::text::str_eq(disks[i].disk_id.as_str(), id) {
            match found {
                Some(k) => {
                    assert(disks@[k as int].disk_id@ == id@ && disks@[i as int].disk_id@ == id@);
                    return 2;
                },
                None => {
                    found = Some(i);
                },
            }
        }
        i = i + 1;
    }
    match found {
        Some(k) => {
            assert(disks@[k as int].disk_id@ == id@);
            1
        },
        None => 0,
    }
}

/// Whether the job at `upto` shares its name with an earlier job.
fn first_name_clash(jobs: &Vec<JobConfig>, upto: usize) -> (r: bool)
    requires
        upto < jobs.len(),
    ensures
        r <==> exists|a: int| 0 <= a < upto && #[trigger] jobs@[a].name@ == jobs@[upto as int].name@,
{
    let mut a: usize = 0;
    while a < upto
        invariant
            upto < jobs.len(),
            a <= upto,
            forall|k: int| 0 <= k < a ==> #[trigger] jobs@[k].name@ != jobs@[upto as int].name@,
        decreases upto - a,
    {
        if jobs[a].name == jobs[upto].name {
            return true;
        }
        a = a + 1;
    }
    false
}

/// Checks a configuration against the catalog rules and resolves it into
/// its runtime form: run policies parsed, global excludes put ahead of each
/// job's own, mount roots defaulted, options defaulted.
///
/// Fails with `Config::Invalid` exactly when a job has an unknown run
/// policy, a blank source, a blank or unsafe name, or the name of an
/// earlier job; when two disks share a filesystem UUID; or when a job names
/// a disk id that no disk carries, or that two disks carry.
pub fn parse_config_struct(cfg: Config) -> (r: Result<RuntimeConfig, TimevaultError>)
    ensures
        r is Ok <==> config_valid(cfg),
        r matches Err(e) ==> e matches TimevaultError::Config(ConfigError::Invalid(_)),
        r matches Ok(rt) ==> {
            &&& rt.jobs@.len() == cfg.jobs@.len()
            &&& forall|i: int|
                0 <= i < rt.jobs@.len() ==> job_resolved(
                    #[trigger] cfg.jobs@[i],
                    cfg.excludes@,
                    rt.jobs@[i],
                )
            &&& rt.backup_disks@ == cfg.backup_disks@
            &&& rt.mount_base@ == match cfg.mount_base {
                Some(m) => m@,
                None => DEFAULT_MOUNT_BASE@,
            }
            &&& rt.user_mount_base@ == match cfg.user_mount_base {
                Some(m) => m@,
                None => DEFAULT_USER_MOUNT_BASE@,
            }
            &&& options_resolved(cfg.options, rt.options)
        },
{
    let mut jobs: Vec<Job> = Vec::new();
    let mut i: usize = 0;
    while i < cfg.jobs.len()
        invariant
            i <= cfg.jobs.len(),
            jobs@.len() == i,
            forall|k: int| 0 <= k < i ==> job_fields_ok(#[trigger] cfg.jobs@[k]),
            forall|a: int, b: int|
                0 <= a < b < i ==> #[trigger] cfg.jobs@[a].name@ != #[trigger] cfg.jobs@[b].name@,
            forall|k: int|
                0 <= k < i ==> job_resolved(#[trigger] cfg.jobs@[k], cfg.excludes@, jobs@[k]),
        decreases cfg.jobs.len() - i,
    {
        let job = &cfg.jobs[i];
        let policy = match RunPolicy::parse(job.run.as_str()) {
            Ok(p) => p,
            Err(e) => {
                let mut m = concat_str("job ", job.name.as_str());
                m.append(": ");
                m.append(e.as_str());
                return Err(TimevaultError::Config(ConfigError::Invalid(m)));
            },
        };
        if trim(job.source.as_str()).unicode_len() == 0 {
            let mut m = concat_str("job ", job.name.as_str());
            m.append(": source path is empty");
            return Err(TimevaultError::Config(ConfigError::Invalid(m)));
        }
        if trim(job.name.as_str()).unicode_len() == 0 {
            return Err(
                TimevaultError::Config(ConfigError::Invalid(String::from_str("job name is required"))),
            );
        }
        if !is_safe_name(job.name.as_str()) {
            let mut m = concat_str("job ", job.name.as_str());
            m.append(" name must use only letters, digits, '.', '-', '_'");
            return Err(TimevaultError::Config(ConfigError::Invalid(m)));
        }
        if first_name_clash(&cfg.jobs, i) {
            let m = concat_str("duplicate job name ", job.name.as_str());
            return Err(TimevaultError::Config(ConfigError::Invalid(m)));
        }
        let mut excludes = clone_strings(&cfg.excludes);
        let mut e: usize = 0;
        while e < job.excludes.len()
            invariant
                e <= job.excludes.len(),
                excludes@ == cfg.excludes@ + job.excludes@.take(e as int),
            decreases job.excludes.len() - e,
        {
            excludes.push(job.excludes[e].clone());
            assert(job.excludes@.take(e + 1) =~= job.excludes@.take(e as int).push(job.excludes@[e as int]));
            e = e + 1;
        }
        assert(job.excludes@.take(job.excludes.len() as int) =~= job.excludes@);
        let disk_ids = clone_opt_strings(&job.disk_ids);
        proof {
            match &disk_ids {
                Some(x) => {
                    assert(x@ =~= job.disk_ids->Some_0@);
                },
                None => {},
            }
        }
        jobs.push(
            Job {
                name: job.name.clone(),
                source: job.source.clone(),
                copies: job.copies,
                run_policy: policy,
                excludes,
                disk_ids,
            },
        );
        i = i + 1;
    }
    let mut d: usize = 0;
    while d < cfg.backup_disks.len()
        invariant
            d <= cfg.backup_disks.len(),
            forall|a: int, b: int|
                0 <= a < b < d ==> #[trigger] cfg.backup_disks@[a].fs_uuid@
                    != #[trigger] cfg.backup_disks@[b].fs_uuid@,
        decreases cfg.backup_disks.len() - d,
    {
        let mut a: usize = 0;
        while a < d
            invariant
                a <= d < cfg.backup_disks.len(),
                forall|k: int|
                    0 <= k < a ==> #[trigger] cfg.backup_disks@[k].fs_uuid@
                        != cfg.backup_disks@[d as int].fs_uuid@,
            decreases d - a,
        {
            if cfg.backup_disks[a].fs_uuid == cfg.backup_disks[d].fs_uuid {
                let mut m = concat_str("duplicate fs-uuid ", cfg.backup_disks[d].fs_uuid.as_str());
                m.append("; remove or fix duplicates");
                return Err(TimevaultError::Config(ConfigError::Invalid(m)));
            }
            a = a + 1;
        }
        d = d + 1;
    }
    let mut j: usize = 0;
    while j < cfg.jobs.len()
        invariant
            j <= cfg.jobs.len(),
            forall|k: int|
                0 <= k < j ==> job_disks_ok(#[trigger] cfg.jobs@[k], cfg.backup_disks@),
        decreases cfg.jobs.len() - j,
    {
        match &cfg.jobs[j].disk_ids {
            Some(ids) => {
                let mut x: usize = 0;
                while x < ids.len()
                    invariant
                        x <= ids.len(),
                        j < cfg.jobs.len(),
                        cfg.jobs@[j as int].disk_ids == Some(*ids),
                        forall|y: int|
                            0 <= y < x ==> disk_id_known(cfg.backup_disks@, #[trigger] ids@[y]@)
                                && !disk_id_duplicated(cfg.backup_disks@, ids@[y]@),
                    decreases ids.len() - x,
                {
                    let c = count_disk_id(&cfg.backup_disks, ids[x].as_str());
                    if c != 1 {
                        assert(!(disk_id_known(cfg.backup_disks@, ids@[x as int]@)
                            && !disk_id_duplicated(cfg.backup_disks@, ids@[x as int]@)));
                        proof {
                            let jj = cfg.jobs@[j as int];
                            let v = jj.disk_ids->Some_0;
                            assert(v@[x as int]@ == ids@[x as int]@);
                            assert(!job_disks_ok(jj, cfg.backup_disks@));
                        }
                        let mut m = concat_str("job ", cfg.jobs[j].name.as_str());
                        if c == 0 {
                            m.append(": unknown disk-id ");
                            m.append(ids[x].as_str());
                        } else {
                            m.append(": disk-id ");
                            m.append(ids[x].as_str());
                            m.append(" is duplicated in backupDisks");
                        }
                        return Err(TimevaultError::Config(ConfigError::Invalid(m)));
                    }
                    x = x + 1;
                }
            },
            None => {},
        }
        j = j + 1;
    }
    let options = match cfg.options {
        Some(o) => o,
        None => ConfigOptions {
            exclude_pristine: false,
            cascade: false,
            verbose: false,
            safe: false,
            rsync: Vec::new(),
        },
    };
    let mount_base = match cfg.mount_base {
        Some(m) => m,
        None => String::from_str(DEFAULT_MOUNT_BASE),
    };
    let user_mount_base = match cfg.user_mount_base {
        Some(m) => m,
        None => String::from_str(DEFAULT_USER_MOUNT_BASE),
    };
    Ok(RuntimeConfig { jobs, backup_disks: cfg.backup_disks, mount_base, user_mount_base, options })
}

/// The job names a disk id that no disk of `d` carries.
pub open spec fn names_unknown_disk(j: JobConfig, d: Seq<BackupDiskConfig>) -> bool {
    match j.disk_ids {
        Some(ids) => exists|x: int| 0 <= x < ids@.len() && !disk_id_known(d, #[trigger] ids@[x]@),
        None => false,
    }
}

/// A configuration in which some job names a disk id that no disk carries
/// is rejected, and so is one in which two disks share a filesystem UUID.
pub proof fn lemma_invalid_references_rejected(cfg: Config)
    requires
        (exists|i: int| 0 <= i < cfg.jobs@.len() && names_unknown_disk(#[trigger] cfg.jobs@[i], cfg.backup_disks@))
            || (exists|a: int, b: int|
            0 <= a < b < cfg.backup_disks@.len() && #[trigger] cfg.backup_disks@[a].fs_uuid@
                == #[trigger] cfg.backup_disks@[b].fs_uuid@),
    ensures
        !config_valid(cfg),
{
    if exists|i: int| 0 <= i < cfg.jobs@.len() && names_unknown_disk(#[trigger] cfg.jobs@[i], cfg.backup_disks@) {
        let i = choose|i: int| 0 <= i < cfg.jobs@.len() && names_unknown_disk(#[trigger] cfg.jobs@[i], cfg.backup_disks@);
        let ids = cfg.jobs@[i].disk_ids->Some_0;
        let x = choose|x: int| 0 <= x < ids@.len() && !disk_id_known(cfg.backup_disks@, #[trigger] ids@[x]@);
        assert(!job_disks_ok(cfg.jobs@[i], cfg.backup_disks@));
    }
}

} // verus!

verus! {

/// Checks the validated jobs: every name safe, no name twice.
pub fn validate_dependencies(jobs: &Vec<Job>) -> (r: Result<(), String>)
    ensures
        r is Ok <==> (forall|i: int| 0 <= i < jobs@.len() ==> safe_name(#[trigger] jobs@[i].name@))
            && (forall|a: int, b: int|
            0 <= a < b < jobs@.len() ==> #[trigger] jobs@[a].name@ != #[trigger] jobs@[b].name@),
{
    let mut i: usize = 0;
    while i < jobs.len()
        invariant
            i <= jobs.len(),
            forall|k: int| 0 <= k < i ==> safe_name(#[trigger] jobs@[k].name@),
            forall|a: int, b: int| 0 <= a < b < i ==> #[trigger] jobs@[a].name@ != #[trigger] jobs@[b].name@,
        decreases jobs.len() - i,
    {
        if !is_safe_name(jobs[i].name.as_str()) {
            let mut m = concat_str("job ", jobs[i].name.as_str());
            m.append(" name must use only letters, digits, '.', '-', '_'");
            return Err(m);
        }
        let mut a: usize = 0;
        while a < i
            invariant
                a <= i < jobs.len(),
                forall|k: int| 0 <= k < a ==> #[trigger] jobs@[k].name@ != jobs@[i as int].name@,
            decreases i - a,
        {
            if jobs[a].name == jobs[i].name {
                return Err(concat_str("duplicate job name ", jobs[i].name.as_str()));
            }
            a = a + 1;
        }
        i = i + 1;
    }
    Ok(())
}

} // verus!
