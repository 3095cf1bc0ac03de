//! The run orchestrator: every job of a job set is run, one after the other,
//! and a job that fails is recorded without holding up the rest.

use vstd::prelude::*;
use crate::config::{views, Config};
use crate::exec::{
    execute, failure_of, job_for, may_answer, verdict, ExecError, ExecErrorView, Job, JobView,
    Outcome, OutcomeView,
};
use crate::resolve::{Tasks, TasksView};

verus! {

/// The record of one failed job: which download, under which profile, and why.
#[derive(Debug, PartialEq, Eq)]
pub struct JobError {
    pub download_name: String,
    pub profile_name: String,
    pub cause: ExecError,
}

/// What a `JobError` holds, as plain values.
pub ghost struct JobErrorView {
    pub download_name: Seq<char>,
    pub profile_name: Seq<char>,
    pub cause: ExecErrorView,
}

impl View for JobError {
    type V = JobErrorView;

    open spec fn view(&self) -> JobErrorView {
        JobErrorView {
            download_name: self.download_name@,
            profile_name: self.profile_name@,
            cause: self.cause@,
        }
    }
}

/// The jobs of the download at `at`: one for each profile it refers to, in
/// the order of the references.
pub open spec fn download_jobs(tasks: TasksView, bin_name: Seq<char>, at: int) -> Seq<JobView> {
    Seq::new(
        tasks.download[at].profile.len(),
        |entry: int|
            job_for(
                bin_name,
                tasks.download[at],
                tasks.profiles[tasks.download[at].profile[entry]],
            ),
    )
}

/// The jobs of the first `count` downloads, download after download.
pub open spec fn jobs_of_first(tasks: TasksView, bin_name: Seq<char>, count: int) -> Seq<JobView> {
    Seq::new(count as nat, |at: int| download_jobs(tasks, bin_name, at)).flatten()
}

/// All jobs of a job set in the order in which they run: the downloads in
/// the order of their declaration, and for each download its profiles in the
/// order of its references.
pub open spec fn all_jobs(tasks: TasksView, bin_name: Seq<char>) -> Seq<JobView> {
    jobs_of_first(tasks, bin_name, tasks.download.len() as int)
}

/// The record that a job leaves when it ends with the given outcome: none
/// when it succeeded.
pub open spec fn failure(job: JobView, outcome: OutcomeView) -> Option<JobErrorView> {
    match verdict(outcome) {
        None => None,
        Some(cause) => Some(
            JobErrorView {
                download_name: job.download_name,
                profile_name: job.profile_name,
                cause,
            },
        ),
    }
}

/// The records of the jobs that failed, in the order in which the jobs ran,
/// where `outcomes` tells for each job how it ended.
pub open spec fn failures(jobs: Seq<JobView>, outcomes: Seq<OutcomeView>) -> Seq<JobErrorView>
    recommends
        jobs.len() == outcomes.len(),
{
    Seq::new(jobs.len(), |k: int| (jobs[k], outcomes[k])).filter_map(
        |run: (JobView, OutcomeView)| failure(run.0, run.1),
    )
}

/// The launcher ended each of the jobs, once, with the outcome at its place.
pub open spec fn ran_each<F: Fn(&Job) -> Outcome>(
    launch: &F,
    jobs: Seq<JobView>,
    outcomes: Seq<OutcomeView>,
) -> bool {
    &&& outcomes.len() == jobs.len()
    &&& forall|k: int| 0 <= k < jobs.len() ==> #[trigger] may_answer(launch, jobs[k], outcomes[k])
}

/// The records are those of a run of the whole job set through the launcher:
/// every job launched once, in order, and each failure recorded.
pub open spec fn ran_all<F: Fn(&Job) -> Outcome>(
    launch: &F,
    tasks: TasksView,
    bin_name: Seq<char>,
    errors: Seq<JobErrorView>,
) -> bool {
    exists|outcomes: Seq<OutcomeView>| #[trigger]
        ran_each(launch, all_jobs(tasks, bin_name), outcomes) && errors == failures(
            all_jobs(tasks, bin_name),
            outcomes,
        )
}

/// One more job, with its outcome, adds its record if it failed and leaves
/// the earlier records as they are.
pub proof fn lemma_failures_push(
    jobs: Seq<JobView>,
    outcomes: Seq<OutcomeView>,
    job: JobView,
    outcome: OutcomeView,
)
    requires
        jobs.len() == outcomes.len(),
    ensures
        failures(jobs.push(job), outcomes.push(outcome)) == failures(jobs, outcomes) + (
        match failure(job, outcome) {
            Some(record) => seq![record],
            None => Seq::empty(),
        }),
{
    let judge = |run: (JobView, OutcomeView)| failure(run.0, run.1);
    let before = Seq::new(jobs.len(), |k: int| (jobs[k], outcomes[k]));
    let after = Seq::new(
        jobs.push(job).len(),
        |k: int| (jobs.push(job)[k], outcomes.push(outcome)[k]),
    );
    assert(after.drop_last() =~= before);
    assert(after.last() == (job, outcome));
    assert(failures(jobs.push(job), outcomes.push(outcome)) == after.filter_map(judge));
    assert(failures(jobs, outcomes) == before.filter_map(judge));
    match failure(job, outcome) {
        Some(record) => {
            assert(after.filter_map(judge) =~= before.filter_map(judge) + seq![record]);
        },
        None => {
            assert(after.filter_map(judge) =~= before.filter_map(judge) + Seq::empty());
        },
    }
}

/// A job that fails does not touch the job after it: where the first of two
/// jobs fails and the second succeeds, both have run, and the one record that
/// is left names the first with the reason of its failure.
pub proof fn lemma_failure_is_isolated(
    first: JobView,
    second: JobView,
    failed: OutcomeView,
    succeeded: OutcomeView,
)
    requires
        verdict(failed) is Some,
        verdict(succeeded) is None,
    ensures
        failures(seq![first, second], seq![failed, succeeded]) == seq![
            JobErrorView {
                download_name: first.download_name,
                profile_name: first.profile_name,
                cause: verdict(failed)->Some_0,
            },
        ],
{
    let none = Seq::<JobView>::empty();
    let nothing = Seq::<OutcomeView>::empty();
    assert(failures(none, nothing) =~= Seq::empty());
    lemma_failures_push(none, nothing, first, failed);
    lemma_failures_push(none.push(first), nothing.push(failed), second, succeeded);
    assert(none.push(first).push(second) =~= seq![first, second]);
    assert(nothing.push(failed).push(succeeded) =~= seq![failed, succeeded]);
}

/// The records of two runs, one after the other, are those of the first
/// followed by those of the second: no job's record depends on the jobs
/// around it.
pub proof fn lemma_failures_concat(
    jobs: Seq<JobView>,
    outcomes: Seq<OutcomeView>,
    more_jobs: Seq<JobView>,
    more_outcomes: Seq<OutcomeView>,
)
    requires
        jobs.len() == outcomes.len(),
        more_jobs.len() == more_outcomes.len(),
    ensures
        failures(jobs + more_jobs, outcomes + more_outcomes) == failures(jobs, outcomes)
            + failures(more_jobs, more_outcomes),
    decreases more_jobs.len(),
{
    if more_jobs.len() == 0 {
        assert(jobs + more_jobs =~= jobs);
        assert(outcomes + more_outcomes =~= outcomes);
        assert(failures(more_jobs, more_outcomes) =~= Seq::empty());
        assert(failures(jobs, outcomes) + Seq::<JobErrorView>::empty() =~= failures(
            jobs,
            outcomes,
        ));
    } else {
        let job = more_jobs.last();
        let outcome = more_outcomes.last();
        lemma_failures_concat(jobs, outcomes, more_jobs.drop_last(), more_outcomes.drop_last());
        lemma_failures_push(more_jobs.drop_last(), more_outcomes.drop_last(), job, outcome);
        lemma_failures_push(
            jobs + more_jobs.drop_last(),
            outcomes + more_outcomes.drop_last(),
            job,
            outcome,
        );
        assert(more_jobs.drop_last().push(job) =~= more_jobs);
        assert(more_outcomes.drop_last().push(outcome) =~= more_outcomes);
        assert((jobs + more_jobs.drop_last()).push(job) =~= jobs + more_jobs);
        assert((outcomes + more_outcomes.drop_last()).push(outcome) =~= outcomes + more_outcomes);
        let tail = match failure(job, outcome) {
            Some(record) => seq![record],
            None => Seq::empty(),
        };
        assert(failures(jobs, outcomes) + (failures(
            more_jobs.drop_last(),
            more_outcomes.drop_last(),
        ) + tail) =~= (failures(jobs, outcomes) + failures(
            more_jobs.drop_last(),
            more_outcomes.drop_last(),
        )) + tail);
    }
}

/// The jobs of one more download follow those of the downloads before it.
pub proof fn lemma_jobs_of_first_step(tasks: TasksView, bin_name: Seq<char>, count: int)
    requires
        0 <= count,
    ensures
        jobs_of_first(tasks, bin_name, count + 1) == jobs_of_first(tasks, bin_name, count)
            + download_jobs(tasks, bin_name, count),
{
    let upto = Seq::new(count as nat, |at: int| download_jobs(tasks, bin_name, at));
    let next = Seq::new((count + 1) as nat, |at: int| download_jobs(tasks, bin_name, at));
    assert(next =~= upto.push(download_jobs(tasks, bin_name, count)));
    upto.lemma_flatten_push(download_jobs(tasks, bin_name, count));
    assert(jobs_of_first(tasks, bin_name, count + 1) =~= jobs_of_first(tasks, bin_name, count)
        + download_jobs(tasks, bin_name, count));
}

/// Each job of each of the first `count` downloads is among their jobs.
pub proof fn lemma_job_is_listed(
    tasks: TasksView,
    bin_name: Seq<char>,
    count: int,
    at: int,
    entry: int,
)
    requires
        0 <= at < count,
        0 <= entry < tasks.download[at].profile.len(),
    ensures
        jobs_of_first(tasks, bin_name, count).contains(download_jobs(tasks, bin_name, at)[entry]),
    decreases count,
{
    let job = download_jobs(tasks, bin_name, at)[entry];
    let before = jobs_of_first(tasks, bin_name, count - 1);
    let last = download_jobs(tasks, bin_name, count - 1);
    lemma_jobs_of_first_step(tasks, bin_name, count - 1);
    if at == count - 1 {
        assert((before + last)[before.len() + entry] == job);
    } else {
        lemma_job_is_listed(tasks, bin_name, count - 1, at, entry);
        let k = choose|k: int| 0 <= k < before.len() && before[k] == job;
        assert((before + last)[k] == job);
    }
}

impl Tasks {
    /// Runs every job of the job set, in order, through the launcher, and
    /// returns the records of those that failed. A failed job does not stop
    /// the run: each job is launched once, whatever became of the others.
    pub fn run_all<F: Fn(&Job) -> Outcome>(&self, config: &Config, launch: &F) -> (errors: Vec<
        JobError,
    >)
        requires
            forall|job: Job|
                all_jobs(self@, config@.bin_name).contains(job@) ==> call_requires(launch, (&job,)),
        ensures
            ran_all(launch, self@, config@.bin_name, views(errors@)),
    {
        let mut errors: Vec<JobError> = Vec::new();
        let downloads = self.downloads();
        let ghost bin = config@.bin_name;
        let ghost tasks = self@;
        let ghost mut done: Seq<JobView> = Seq::empty();
        let ghost mut outcomes: Seq<OutcomeView> = Seq::empty();
        assert(jobs_of_first(tasks, bin, 0) =~= Seq::empty());
        assert(views(errors@) =~= failures(done, outcomes));
        let mut at: usize = 0;
        while at < downloads.len()
            invariant
                at <= downloads.len(),
                tasks == self@,
                bin == config@.bin_name,
                views(downloads@) == tasks.download,
                forall|job: Job|
                    all_jobs(tasks, bin).contains(job@) ==> call_requires(launch, (&job,)),
                done == jobs_of_first(tasks, bin, at as int),
                ran_each(launch, done, outcomes),
                views(errors@) == failures(done, outcomes),
            decreases downloads.len() - at,
        {
            let download = &downloads[at];
            assert(download@ == tasks.download[at as int]);
            let ghost listed = download_jobs(tasks, bin, at as int);
            let ghost before = done;
            let mut entry: usize = 0;
            assert(before + listed.take(0) =~= before);
            while entry < download.profile.len()
                invariant
                    at < downloads.len(),
                    entry <= download.profile.len(),
                    tasks == self@,
                    bin == config@.bin_name,
                    views(downloads@) == tasks.download,
                    download@ == tasks.download[at as int],
                    listed == download_jobs(tasks, bin, at as int),
                    forall|job: Job|
                        all_jobs(tasks, bin).contains(job@) ==> call_requires(launch, (&job,)),
                    done == before + listed.take(entry as int),
                    ran_each(launch, done, outcomes),
                    views(errors@) == failures(done, outcomes),
                decreases download.profile.len() - entry,
            {
                let profile = self.referenced_profile(at, entry);
                let ghost job = job_for(bin, download@, profile@);
                proof {
                    assert(listed[entry as int] == job);
                    lemma_job_is_listed(
                        tasks,
                        bin,
                        tasks.download.len() as int,
                        at as int,
                        entry as int,
                    );
                }
                let result = execute(config.bin_name.as_str(), download, profile, launch);
                let ghost outcome = choose|outcome: OutcomeView| #[trigger]
                    may_answer(launch, job, outcome) && failure_of(result) == verdict(outcome);
                proof {
                    lemma_failures_push(done, outcomes, job, outcome);
                    assert(listed.take(entry + 1) =~= listed.take(entry as int).push(job));
                    assert(before + listed.take(entry + 1) =~= done.push(job));
                }
                let ghost recorded = views(errors@);
                if let Err(cause) = result {
                    errors.push(
                        JobError {
                            download_name: download.name.clone(),
                            profile_name: profile.name.clone(),
                            cause,
                        },
                    );
                    assert(views(errors@) =~= recorded + seq![failure(job, outcome)->Some_0]);
                } else {
                    assert(views(errors@) =~= recorded + Seq::empty());
                }
                proof {
                    done = done.push(job);
                    outcomes = outcomes.push(outcome);
                }
                entry += 1;
            }
            proof {
                assert(listed.take(entry as int) =~= listed);
                lemma_jobs_of_first_step(tasks, bin, at as int);
            }
            at += 1;
        }
        assert(ran_each(launch, all_jobs(self@, config@.bin_name), outcomes));
        errors
    }
}

} // verus!
