use std::cell::RefCell;
use ytdl_cron::config::{Config, Download, Profile, TaskSource};
use ytdl_cron::exec::{ExecError, Job, Outcome};
use ytdl_cron::resolve::Tasks;
use ytdl_cron::run::JobError;

fn strings(items: &[&str]) -> Vec<String> {
    items.iter().map(|s| s.to_string()).collect()
}

fn profile(name: &str, args: &[&str], archive: bool) -> Profile {
    Profile { name: name.to_string(), args: strings(args), archive }
}

fn download(name: &str, profiles: &[&str], urls: &[&str]) -> Download {
    Download { name: name.to_string(), profile: strings(profiles), url: strings(urls) }
}

fn config(bin_name: &str) -> Config {
    Config {
        bin_name: bin_name.to_string(),
        interval: 82800,
        profile: vec![],
        download: vec![],
        remote_job: vec![],
    }
}

fn tasks(profiles: Vec<Profile>, downloads: Vec<Download>) -> Tasks {
    match Tasks::try_from(TaskSource { profile: profiles, download: downloads }) {
        Ok(tasks) => tasks,
        Err(error) => panic!("the source was refused: {:?}", error),
    }
}

#[test]
fn failed_job_does_not_stop_the_next() {
    let set = tasks(
        vec![profile("audio", &["-x"], true)],
        vec![download("first", &["audio"], &["u1"]), download("second", &["audio"], &["u2"])],
    );
    let launched: RefCell<Vec<String>> = RefCell::new(Vec::new());
    let launch = |job: &Job| {
        launched.borrow_mut().push(job.download_name.clone());
        if job.download_name == "first" {
            Outcome::Exited { code: Some(1) }
        } else {
            Outcome::Exited { code: Some(0) }
        }
    };
    let errors = set.run_all(&config("yt-dlp"), &launch);
    assert_eq!(*launched.borrow(), strings(&["first", "second"]));
    assert_eq!(
        errors,
        vec![JobError {
            download_name: "first".to_string(),
            profile_name: "audio".to_string(),
            cause: ExecError::NonZeroExit { code: Some(1) },
        }]
    );
}

#[test]
fn jobs_run_in_declaration_order() {
    let set = tasks(
        vec![profile("audio", &["-x"], true), profile("video", &[], false)],
        vec![
            download("news", &["video", "audio"], &["n1", "n2"]),
            download("talks", &["audio"], &["t"]),
        ],
    );
    let launched: RefCell<Vec<Job>> = RefCell::new(Vec::new());
    let launch = |job: &Job| {
        launched.borrow_mut().push(job.clone());
        Outcome::Exited { code: Some(0) }
    };
    let errors = set.run_all(&config("tool"), &launch);
    assert!(errors.is_empty());
    assert_eq!(
        *launched.borrow(),
        vec![
            Job {
                download_name: "news".to_string(),
                profile_name: "video".to_string(),
                bin_name: "tool".to_string(),
                args: strings(&["n1", "n2"]),
                archive_dir: None,
            },
            Job {
                download_name: "news".to_string(),
                profile_name: "audio".to_string(),
                bin_name: "tool".to_string(),
                args: strings(&["--download-archive", "archives/news-audio.txt", "-x", "n1", "n2"]),
                archive_dir: Some("archives".to_string()),
            },
            Job {
                download_name: "talks".to_string(),
                profile_name: "audio".to_string(),
                bin_name: "tool".to_string(),
                args: strings(&["--download-archive", "archives/talks-audio.txt", "-x", "t"]),
                archive_dir: Some("archives".to_string()),
            },
        ]
    );
}

#[test]
fn every_failure_is_recorded_in_order() {
    let set = tasks(
        vec![profile("a", &[], false), profile("b", &[], false)],
        vec![download("one", &["a", "b"], &["u"]), download("two", &["b", "a"], &["u"])],
    );
    let launch = |job: &Job| {
        if job.profile_name == "b" {
            Outcome::NotLaunched { reason: "gone".to_string() }
        } else if job.download_name == "two" {
            Outcome::Exited { code: None }
        } else {
            Outcome::Exited { code: Some(0) }
        }
    };
    let errors = set.run_all(&config("yt-dlp"), &launch);
    assert_eq!(
        errors,
        vec![
            JobError {
                download_name: "one".to_string(),
                profile_name: "b".to_string(),
                cause: ExecError::LaunchError { reason: "gone".to_string() },
            },
            JobError {
                download_name: "two".to_string(),
                profile_name: "b".to_string(),
                cause: ExecError::LaunchError { reason: "gone".to_string() },
            },
            JobError {
                download_name: "two".to_string(),
                profile_name: "a".to_string(),
                cause: ExecError::NonZeroExit { code: None },
            },
        ]
    );
}

#[test]
fn job_set_without_downloads_launches_nothing() {
    let set = tasks(vec![profile("a", &[], true)], vec![]);
    let count: RefCell<u32> = RefCell::new(0);
    let launch = |_job: &Job| {
        *count.borrow_mut() += 1;
        Outcome::Exited { code: Some(0) }
    };
    assert!(set.run_all(&config("yt-dlp"), &launch).is_empty());
    assert_eq!(*count.borrow(), 0);
}

#[test]
fn download_without_profiles_launches_nothing() {
    let set = tasks(
        vec![profile("a", &[], true)],
        vec![download("idle", &[], &["u"]), download("busy", &["a"], &["u"])],
    );
    let launched: RefCell<Vec<String>> = RefCell::new(Vec::new());
    let launch = |job: &Job| {
        launched.borrow_mut().push(job.download_name.clone());
        Outcome::Exited { code: Some(0) }
    };
    assert!(set.run_all(&config("yt-dlp"), &launch).is_empty());
    assert_eq!(*launched.borrow(), strings(&["busy"]));
}
