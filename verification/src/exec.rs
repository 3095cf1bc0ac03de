//! The job executor's rules: how one job becomes one call of the download
//! tool, and what the end of that call means for the job.

use vstd::prelude::*;
use crate::config::{clone_strings, views, Download, DownloadView, Profile, ProfileView};

verus! {

/// The directory that holds the archive files.
pub open spec fn archive_dir() -> Seq<char> {
    "archives"@
}

/// The tool's flag that announces an archive file.
pub open spec fn archive_flag() -> Seq<char> {
    "--download-archive"@
}

/// The archive file of the job that runs a download under a profile.
pub open spec fn archive_path(download_name: Seq<char>, profile_name: Seq<char>) -> Seq<char> {
    archive_dir() + "/"@ + download_name + "-"@ + profile_name + ".txt"@
}

/// The archive flag and its file where the profile keeps an archive, else nothing.
pub open spec fn archive_args(download: DownloadView, profile: ProfileView) -> Seq<Seq<char>> {
    if profile.archive {
        seq![archive_flag(), archive_path(download.name, profile.name)]
    } else {
        Seq::empty()
    }
}

/// The arguments of one call of the tool, in their fixed order: the archive
/// flag with its file (if any), the profile's arguments, the download's sources.
pub open spec fn command_args(download: DownloadView, profile: ProfileView) -> Seq<Seq<char>> {
    archive_args(download, profile) + profile.args + download.url
}

/// The path of the archive file for a download and a profile.
pub fn make_archive_path(download_name: &str, profile_name: &str) -> (path: String)
    ensures
        path@ == archive_path(download_name@, profile_name@),
{
    let mut path = String::from_str("archives");
    path.append("/");
    path.append(download_name);
    path.append("-");
    path.append(profile_name);
    path.append(".txt");
    path
}

/// One call of the download tool, ready to be launched.
#[derive(Debug, Clone, PartialEq, Eq)]
pub struct Job {
    /// The download that the job serves.
    pub download_name: String,
    /// The profile that the job runs under.
    pub profile_name: String,
    /// The tool to launch.
    pub bin_name: String,
    /// The arguments of the call, in order.
    pub args: Vec<String>,
    /// The directory that has to exist before the launch, if the job keeps an archive.
    pub archive_dir: Option<String>,
}

/// What a `Job` holds, as plain values.
pub ghost struct JobView {
    pub download_name: Seq<char>,
    pub profile_name: Seq<char>,
    pub bin_name: Seq<char>,
    pub args: Seq<Seq<char>>,
    pub archive_dir: Option<Seq<char>>,
}

impl View for Job {
    type V = JobView;

    open spec fn view(&self) -> JobView {
        JobView {
            download_name: self.download_name@,
            profile_name: self.profile_name@,
            bin_name: self.bin_name@,
            args: views(self.args@),
            archive_dir: match self.archive_dir {
                Some(dir) => Some(dir@),
                None => None,
            },
        }
    }
}

/// The job that runs a download under a profile with the given tool.
pub open spec fn job_for(
    bin_name: Seq<char>,
    download: DownloadView,
    profile: ProfileView,
) -> JobView {
    JobView {
        download_name: download.name,
        profile_name: profile.name,
        bin_name,
        args: command_args(download, profile),
        archive_dir: if profile.archive {
            Some(archive_dir())
        } else {
            None
        },
    }
}

impl Job {
    /// Assembles the call of the tool for one download under one profile.
    pub fn new(bin_name: &str, download: &Download, profile: &Profile) -> (job: Job)
        ensures
            job@ == job_for(bin_name@, download@, profile@),
    {
        let mut args: Vec<String> = Vec::new();
        let mut dir: Option<String> = None;
        if profile.archive {
            args.push(String::from_str("--download-archive"));
            args.push(make_archive_path(download.name.as_str(), profile.name.as_str()));
            dir = Some(String::from_str("archives"));
        }
        assert(views(args@) =~= archive_args(download@, profile@));
        let ghost head = views(args@);
        let mut rest = clone_strings(&profile.args);
        let ghost middle = views(rest@);
        args.append(&mut rest);
        assert(views(args@) =~= head + middle);
        let mut urls = clone_strings(&download.url);
        let ghost tail = views(urls@);
        args.append(&mut urls);
        assert(views(args@) =~= head + middle + tail);
        Job {
            download_name: download.name.clone(),
            profile_name: profile.name.clone(),
            bin_name: String::from_str(bin_name),
            args,
            archive_dir: dir,
        }
    }
}

/// How the attempt to run one job ended, as the launcher saw it.
#[derive(Debug, Clone, PartialEq, Eq)]
pub enum Outcome {
    /// The archive directory could not be made, so nothing was launched.
    NoArchiveDir { reason: String },
    /// The tool could not be started.
    NotLaunched { reason: String },
    /// The tool ran and ended; `code` is its exit code, absent when it ended
    /// without one.
    Exited { code: Option<i32> },
}

/// What an `Outcome` holds, as plain values.
pub ghost enum OutcomeView {
    NoArchiveDir { reason: Seq<char> },
    NotLaunched { reason: Seq<char> },
    Exited { code: Option<i32> },
}

impl View for Outcome {
    type V = OutcomeView;

    open spec fn view(&self) -> OutcomeView {
        match self {
            Outcome::NoArchiveDir { reason } => OutcomeView::NoArchiveDir { reason: reason@ },
            Outcome::NotLaunched { reason } => OutcomeView::NotLaunched { reason: reason@ },
            Outcome::Exited { code } => OutcomeView::Exited { code: *code },
        }
    }
}

/// Why one job failed.
#[derive(Debug, Clone, PartialEq, Eq)]
pub enum ExecError {
    /// The archive directory could not be made.
    ArchiveDir { reason: String },
    /// The tool could not be started.
    LaunchError { reason: String },
    /// The tool ran and did not end with exit code 0.
    NonZeroExit { code: Option<i32> },
}

/// What an `ExecError` holds, as plain values.
pub ghost enum ExecErrorView {
    ArchiveDir { reason: Seq<char> },
    LaunchError { reason: Seq<char> },
    NonZeroExit { code: Option<i32> },
}

impl View for ExecError {
    type V = ExecErrorView;

    open spec fn view(&self) -> ExecErrorView {
        match self {
            ExecError::ArchiveDir { reason } => ExecErrorView::ArchiveDir { reason: reason@ },
            ExecError::LaunchError { reason } => ExecErrorView::LaunchError { reason: reason@ },
            ExecError::NonZeroExit { code } => ExecErrorView::NonZeroExit { code: *code },
        }
    }
}

/// The failure that an outcome amounts to, or none: a job succeeds exactly
/// when the tool ran and ended with exit code 0.
pub open spec fn verdict(outcome: OutcomeView) -> Option<ExecErrorView> {
    match outcome {
        OutcomeView::NoArchiveDir { reason } => Some(ExecErrorView::ArchiveDir { reason }),
        OutcomeView::NotLaunched { reason } => Some(ExecErrorView::LaunchError { reason }),
        OutcomeView::Exited { code } => if code == Some(0i32) {
            None
        } else {
            Some(ExecErrorView::NonZeroExit { code })
        },
    }
}

/// The result of a job as plain values: its failure, or none.
pub open spec fn failure_of(done: Result<(), ExecError>) -> Option<ExecErrorView> {
    match done {
        Ok(_) => None,
        Err(error) => Some(error@),
    }
}

/// Judges how one job ended.
pub fn job_result(outcome: Outcome) -> (done: Result<(), ExecError>)
    ensures
        failure_of(done) == verdict(outcome@),
{
    match outcome {
        Outcome::NoArchiveDir { reason } => Err(ExecError::ArchiveDir { reason }),
        Outcome::NotLaunched { reason } => Err(ExecError::LaunchError { reason }),
        Outcome::Exited { code } => match code {
            Some(0) => Ok(()),
            _ => Err(ExecError::NonZeroExit { code }),
        },
    }
}

/// The launcher may end the given job with the given outcome.
pub open spec fn may_answer<F: Fn(&Job) -> Outcome>(
    launch: &F,
    job: JobView,
    outcome: OutcomeView,
) -> bool {
    exists|asked: Job, answer: Outcome|
        asked@ == job && answer@ == outcome && #[trigger] call_ensures(launch, (&asked,), answer)
}

/// Runs one download under one profile: assembles the call of the tool, has
/// the launcher make it once, and judges how it ended.
pub fn execute<F: Fn(&Job) -> Outcome>(
    bin_name: &str,
    download: &Download,
    profile: &Profile,
    launch: &F,
) -> (done: Result<(), ExecError>)
    requires
        forall|job: Job|
            job@ == job_for(bin_name@, download@, profile@) ==> call_requires(launch, (&job,)),
    ensures
        exists|outcome: OutcomeView| #[trigger]
            may_answer(launch, job_for(bin_name@, download@, profile@), outcome) && failure_of(done)
                == verdict(outcome),
{
    let job = Job::new(bin_name, download, profile);
    let outcome = launch(&job);
    assert(may_answer(launch, job@, outcome@));
    job_result(outcome)
}

} // verus!
