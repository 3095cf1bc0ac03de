use std::cell::RefCell;
use ytdl_cron::config::{Config, Download, Profile, TaskSource};
use ytdl_cron::cycle::{run, wait_after, ConfigLoadError, RemoteRun};
use ytdl_cron::exec::{ExecError, Job, Outcome};
use ytdl_cron::remote::{FetchError, RemoteError, RemoteFailure};
use ytdl_cron::resolve::ResolutionError;
use ytdl_cron::run::JobError;

fn strings(items: &[&str]) -> Vec<String> {
    items.iter().map(|s| s.to_string()).collect()
}

fn profile(name: &str) -> Profile {
    Profile { name: name.to_string(), args: vec![], archive: false }
}

fn download(name: &str, reference: &str) -> Download {
    Download { name: name.to_string(), profile: strings(&[reference]), url: strings(&["u"]) }
}

fn config(reference: &str, remote: &[&str]) -> Config {
    Config {
        bin_name: "yt-dlp".to_string(),
        interval: 3600,
        profile: vec![profile("audio")],
        download: vec![download("local", reference)],
        remote_job: strings(remote),
    }
}

fn fetch(url: &str) -> Result<TaskSource, FetchError> {
    match url {
        "http://garbage" => Err(FetchError::Parse { reason: "bad".to_string() }),
        "http://one" => Ok(TaskSource {
            profile: vec![profile("p")],
            download: vec![download("one", "p")],
        }),
        _ => Ok(TaskSource {
            profile: vec![profile("p")],
            download: vec![download("two", "p")],
        }),
    }
}

#[test]
fn local_jobs_run_before_remote_jobs_in_address_order() {
    let launched: RefCell<Vec<String>> = RefCell::new(Vec::new());
    let launch = |job: &Job| {
        launched.borrow_mut().push(job.download_name.clone());
        Outcome::Exited { code: Some(0) }
    };
    let load = || Ok(config("audio", &["http://two", "http://one"]));
    let report = run(&load, &fetch, &launch).unwrap();
    assert_eq!(*launched.borrow(), strings(&["local", "two", "one"]));
    assert_eq!(report.interval, 3600);
    assert_eq!(report.local, Ok(vec![]));
    assert!(report.remote_failed.is_empty());
    assert_eq!(
        report.remote_runs,
        vec![
            RemoteRun { url: "http://two".to_string(), errors: vec![] },
            RemoteRun { url: "http://one".to_string(), errors: vec![] },
        ]
    );
}

#[test]
fn malformed_remote_source_leaves_the_other_running() {
    let launched: RefCell<Vec<String>> = RefCell::new(Vec::new());
    let launch = |job: &Job| {
        launched.borrow_mut().push(job.download_name.clone());
        Outcome::Exited { code: Some(0) }
    };
    let load = || Ok(config("audio", &["http://garbage", "http://one"]));
    let report = run(&load, &fetch, &launch).unwrap();
    assert_eq!(*launched.borrow(), strings(&["local", "one"]));
    assert_eq!(
        report.remote_failed,
        vec![RemoteFailure {
            url: "http://garbage".to_string(),
            error: RemoteError::Fetch(FetchError::Parse { reason: "bad".to_string() }),
        }]
    );
    assert_eq!(
        report.remote_runs,
        vec![RemoteRun { url: "http://one".to_string(), errors: vec![] }]
    );
}

#[test]
fn refused_local_source_leaves_remote_jobs_running() {
    let launched: RefCell<Vec<String>> = RefCell::new(Vec::new());
    let launch = |job: &Job| {
        launched.borrow_mut().push(job.download_name.clone());
        Outcome::Exited { code: Some(3) }
    };
    let load = || Ok(config("missing", &["http://one"]));
    let report = run(&load, &fetch, &launch).unwrap();
    assert_eq!(*launched.borrow(), strings(&["one"]));
    assert_eq!(
        report.local,
        Err(ResolutionError::UnknownProfileReference {
            download_name: "local".to_string(),
            profile_name: "missing".to_string(),
        })
    );
    assert_eq!(
        report.remote_runs,
        vec![RemoteRun {
            url: "http://one".to_string(),
            errors: vec![JobError {
                download_name: "one".to_string(),
                profile_name: "p".to_string(),
                cause: ExecError::NonZeroExit { code: Some(3) },
            }],
        }]
    );
    assert_eq!(wait_after(&Ok(report), 60), 3540);
}

#[test]
fn failed_load_ends_the_cycle_and_shortens_the_wait() {
    let launched: RefCell<u32> = RefCell::new(0);
    let launch = |_job: &Job| {
        *launched.borrow_mut() += 1;
        Outcome::Exited { code: Some(0) }
    };
    let load = || Err(ConfigLoadError { reason: "config.toml: not found".to_string() });
    let done = run(&load, &fetch, &launch);
    assert_eq!(done, Err(ConfigLoadError { reason: "config.toml: not found".to_string() }));
    assert_eq!(*launched.borrow(), 0);
    assert_eq!(wait_after(&done, 1), 299);
}
