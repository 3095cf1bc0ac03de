//! One cycle of the runner: load the configuration, resolve the local job
//! source, fetch and resolve the remote ones, run every job, and say how
//! long to wait for the next cycle.

use vstd::prelude::*;
use crate::config::{views, Config, ConfigView, TaskSource};
use crate::exec::{Job, Outcome};
use crate::remote::{
    fetched_all, get_remote_jobs, FetchError, RemoteFailure, RemoteFailureView, RemoteTasksView,
};
use crate::resolve::{
    refused_with, resolves_to, ResolutionError, ResolutionErrorView, Tasks, TasksView,
};
use crate::run::{ran_all, JobError, JobErrorView};
use crate::schedule::{next_wait, wait_secs, FALLBACK_INTERVAL_SECS};

verus! {

/// Why a cycle had no configuration to work with.
#[derive(Debug, PartialEq, Eq)]
pub struct ConfigLoadError {
    pub reason: String,
}

/// What the loader handed over, as plain values.
pub open spec fn loaded_view(loaded: Result<Config, ConfigLoadError>) -> Result<
    ConfigView,
    Seq<char>,
> {
    match loaded {
        Ok(config) => Ok(config@),
        Err(error) => Err(error.reason@),
    }
}

/// The loader may hand over the given result.
pub open spec fn may_load<C: Fn() -> Result<Config, ConfigLoadError>>(
    load: &C,
    loaded: Result<ConfigView, Seq<char>>,
) -> bool {
    exists|answer: Result<Config, ConfigLoadError>|
        loaded_view(answer) == loaded && #[trigger] call_ensures(load, (), answer)
}

/// The failed jobs of the job set that came from one address.
#[derive(Debug, PartialEq, Eq)]
pub struct RemoteRun {
    pub url: String,
    pub errors: Vec<JobError>,
}

/// What a `RemoteRun` holds, as plain values.
pub ghost struct RemoteRunView {
    pub url: Seq<char>,
    pub errors: Seq<JobErrorView>,
}

impl View for RemoteRun {
    type V = RemoteRunView;

    open spec fn view(&self) -> RemoteRunView {
        RemoteRunView { url: self.url@, errors: views(self.errors@) }
    }
}

/// What one cycle did, for the summary at its end.
#[derive(Debug, PartialEq, Eq)]
pub struct CycleReport {
    /// The configured seconds from the start of this cycle to the next.
    pub interval: u64,
    /// The failed jobs of the local job source, or why that source was refused.
    pub local: Result<Vec<JobError>, ResolutionError>,
    /// The addresses that gave no job set, in the order of the configuration.
    pub remote_failed: Vec<RemoteFailure>,
    /// The failed jobs of each job set that was fetched, in the order of the configuration.
    pub remote_runs: Vec<RemoteRun>,
}

/// The local part of a report, as plain values.
pub open spec fn local_view(local: Result<Vec<JobError>, ResolutionError>) -> Result<
    Seq<JobErrorView>,
    ResolutionErrorView,
> {
    match local {
        Ok(errors) => Ok(views(errors@)),
        Err(error) => Err(error@),
    }
}

/// What a `CycleReport` holds, as plain values.
pub ghost struct CycleReportView {
    pub interval: u64,
    pub local: Result<Seq<JobErrorView>, ResolutionErrorView>,
    pub remote_failed: Seq<RemoteFailureView>,
    pub remote_runs: Seq<RemoteRunView>,
}

impl View for CycleReport {
    type V = CycleReportView;

    open spec fn view(&self) -> CycleReportView {
        CycleReportView {
            interval: self.interval,
            local: local_view(self.local),
            remote_failed: views(self.remote_failed@),
            remote_runs: views(self.remote_runs@),
        }
    }
}

/// The local part of a report: the refusal of the local source, or the
/// records of a run of the job set that it resolves to.
pub open spec fn is_local_run<L: Fn(&Job) -> Outcome>(
    launch: &L,
    config: ConfigView,
    local: Result<Seq<JobErrorView>, ResolutionErrorView>,
) -> bool {
    match local {
        Err(error) => refused_with(config.local, error),
        Ok(errors) => exists|tasks: TasksView| #[trigger]
            resolves_to(config.local, tasks) && ran_all(launch, tasks, config.bin_name, errors),
    }
}

/// The runs are those of the fetched job sets: one for each, in order, under
/// its address.
pub open spec fn are_remote_runs<L: Fn(&Job) -> Outcome>(
    launch: &L,
    bin_name: Seq<char>,
    loaded: Seq<RemoteTasksView>,
    runs: Seq<RemoteRunView>,
) -> bool {
    &&& runs.len() == loaded.len()
    &&& forall|k: int|
        0 <= k < loaded.len() ==> (#[trigger] runs[k]).url == loaded[k].url && ran_all(
            launch,
            loaded[k].tasks,
            bin_name,
            runs[k].errors,
        )
}

/// The report is that of a cycle under the given configuration: its
/// interval, the local source resolved and run, every address fetched, and
/// every fetched job set run.
pub open spec fn is_cycle_of<F: Fn(&str) -> Result<TaskSource, FetchError>, L: Fn(&Job) -> Outcome>(
    fetch: &F,
    launch: &L,
    config: ConfigView,
    report: CycleReportView,
) -> bool {
    &&& report.interval == config.interval
    &&& is_local_run(launch, config, report.local)
    &&& exists|loaded: Seq<RemoteTasksView>| #[trigger]
        fetched_all(fetch, config.remote_job, loaded, report.remote_failed) && are_remote_runs(
            launch,
            config.bin_name,
            loaded,
            report.remote_runs,
        )
}

/// A single cycle. The configuration is loaded anew; if that fails the cycle
/// ends there. Else the local job source is resolved, every remote one is
/// fetched and resolved, and then all jobs run: the local ones first, then
/// those of each address in the order of the configuration. A source that is
/// refused, an address that gives nothing and a job that fails are recorded
/// and do not stop the cycle.
pub fn run<
    C: Fn() -> Result<Config, ConfigLoadError>,
    F: Fn(&str) -> Result<TaskSource, FetchError>,
    L: Fn(&Job) -> Outcome,
>(load: &C, fetch: &F, launch: &L) -> (done: Result<CycleReport, ConfigLoadError>)
    requires
        call_requires(load, ()),
        forall|asked: &str| call_requires(fetch, (asked,)),
        forall|job: Job| call_requires(launch, (&job,)),
    ensures
        match done {
            Err(error) => may_load(load, Err(error.reason@)),
            Ok(report) => exists|config: ConfigView| #[trigger]
                may_load(load, Ok(config)) && is_cycle_of(fetch, launch, config, report@),
        },
{
    let loaded = load();
    assert(may_load(load, loaded_view(loaded)));
    let config = match loaded {
        Ok(config) => config,
        Err(error) => {
            return Err(error);
        },
    };
    let local_job = Tasks::try_from(config.local_source());
    let remote_jobs = get_remote_jobs(fetch, &config.remote_job);

    let local = match local_job {
        Ok(job) => {
            let errors = job.run_all(&config, launch);
            assert(resolves_to(config@.local, job@));
            Ok(errors)
        },
        Err(error) => Err(error),
    };
    let ghost local_before = local_view(local);
    assert(is_local_run(launch, config@, local_before));
    let ghost had = views(remote_jobs.loaded@);
    let ghost lost = views(remote_jobs.failed@);
    assert(fetched_all(fetch, config@.remote_job, had, lost));

    let mut remote_runs: Vec<RemoteRun> = Vec::new();
    let mut k: usize = 0;
    while k < remote_jobs.loaded.len()
        invariant
            k <= remote_jobs.loaded.len(),
            had == views(remote_jobs.loaded@),
            lost == views(remote_jobs.failed@),
            forall|job: Job| call_requires(launch, (&job,)),
            are_remote_runs(launch, config@.bin_name, had.take(k as int), views(remote_runs@)),
        decreases remote_jobs.loaded.len() - k,
    {
        let from = &remote_jobs.loaded[k];
        let errors = from.tasks.run_all(&config, launch);
        let ghost before = views(remote_runs@);
        let run = RemoteRun { url: from.url.clone(), errors };
        let ghost added = run@;
        remote_runs.push(run);
        proof {
            assert(views(remote_runs@) =~= before.push(added));
            assert(had.take(k + 1) =~= had.take(k as int).push(from@));
            assert forall|i: int| 0 <= i < had.take(k + 1).len() implies (#[trigger] views(
                remote_runs@,
            )[i]).url == had.take(k + 1)[i].url && ran_all(
                launch,
                had.take(k + 1)[i].tasks,
                config@.bin_name,
                views(remote_runs@)[i].errors,
            ) by {
                if i < k {
                    assert(views(remote_runs@)[i] == before[i]);
                    assert(had.take(k + 1)[i] == had.take(k as int)[i]);
                }
            }
        }
        k += 1;
    }
    assert(had.take(k as int) =~= had);
    let report = CycleReport {
        interval: config.interval,
        local,
        remote_failed: remote_jobs.failed,
        remote_runs,
    };
    assert(report@.local == local_before);
    assert(report@.remote_failed == lost);
    assert(are_remote_runs(launch, config@.bin_name, had, report@.remote_runs));
    assert(is_cycle_of(fetch, launch, config@, report@));
    Ok(report)
}

/// The interval that holds after a cycle: the configured one, or the short
/// fallback where the configuration could not be loaded.
pub open spec fn interval_after(done: Result<CycleReport, ConfigLoadError>) -> u64 {
    match done {
        Ok(report) => report.interval,
        Err(_) => FALLBACK_INTERVAL_SECS,
    }
}

/// The seconds to wait after a cycle that ended as `done` and took
/// `elapsed` seconds.
pub fn wait_after(done: &Result<CycleReport, ConfigLoadError>, elapsed: u64) -> (wait: u64)
    ensures
        wait == wait_secs(interval_after(*done) as int, elapsed as int),
{
    let interval = match done {
        Ok(report) => report.interval,
        Err(_) => FALLBACK_INTERVAL_SECS,
    };
    next_wait(interval, elapsed)
}

} // verus!
