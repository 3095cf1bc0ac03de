use std::cell::RefCell;
use ytdl_cron::config::{Download, Profile};
use ytdl_cron::exec::{execute, job_result, make_archive_path, ExecError, Job, Outcome};

fn strings(items: &[&str]) -> Vec<String> {
    items.iter().map(|s| s.to_string()).collect()
}

fn news() -> Download {
    Download {
        name: "news".to_string(),
        profile: strings(&["audio"]),
        url: strings(&["https://example.org/a", "https://example.org/b"]),
    }
}

fn audio(archive: bool) -> Profile {
    Profile { name: "audio".to_string(), args: strings(&["-x", "--audio-format", "mp3"]), archive }
}

#[test]
fn archive_path_of_news_audio() {
    assert_eq!(make_archive_path("news", "audio"), "archives/news-audio.txt");
}

#[test]
fn archive_path_is_the_same_on_every_call() {
    let first = make_archive_path("news", "audio");
    let _other = make_archive_path("talks", "video");
    assert_eq!(make_archive_path("news", "audio"), first);
}

#[test]
fn archive_path_keeps_names_as_they_are() {
    assert_eq!(make_archive_path("", ""), "archives/-.txt");
    assert_eq!(make_archive_path("a-b", "c d"), "archives/a-b-c d.txt");
}

#[test]
fn archive_argument_of_news_audio() {
    let job = Job::new("yt-dlp", &news(), &audio(true));
    assert_eq!(job.args[..2].join(" "), "--download-archive archives/news-audio.txt");
}

#[test]
fn job_with_archive_puts_flag_first() {
    let job = Job::new("yt-dlp", &news(), &audio(true));
    assert_eq!(
        job,
        Job {
            download_name: "news".to_string(),
            profile_name: "audio".to_string(),
            bin_name: "yt-dlp".to_string(),
            args: strings(&[
                "--download-archive",
                "archives/news-audio.txt",
                "-x",
                "--audio-format",
                "mp3",
                "https://example.org/a",
                "https://example.org/b",
            ]),
            archive_dir: Some("archives".to_string()),
        }
    );
}

#[test]
fn job_without_archive_has_no_flag() {
    let job = Job::new("/opt/bin/yt-dlp", &news(), &audio(false));
    assert_eq!(job.bin_name, "/opt/bin/yt-dlp");
    assert_eq!(
        job.args,
        strings(&["-x", "--audio-format", "mp3", "https://example.org/a", "https://example.org/b"])
    );
    assert_eq!(job.archive_dir, None);
}

#[test]
fn exit_code_zero_is_success() {
    assert_eq!(job_result(Outcome::Exited { code: Some(0) }), Ok(()));
}

#[test]
fn other_exit_code_is_failure() {
    assert_eq!(
        job_result(Outcome::Exited { code: Some(1) }),
        Err(ExecError::NonZeroExit { code: Some(1) })
    );
    assert_eq!(
        job_result(Outcome::Exited { code: Some(-1) }),
        Err(ExecError::NonZeroExit { code: Some(-1) })
    );
}

#[test]
fn end_without_exit_code_is_failure() {
    assert_eq!(
        job_result(Outcome::Exited { code: None }),
        Err(ExecError::NonZeroExit { code: None })
    );
}

#[test]
fn failed_launch_is_launch_error() {
    assert_eq!(
        job_result(Outcome::NotLaunched { reason: "No such file or directory".to_string() }),
        Err(ExecError::LaunchError { reason: "No such file or directory".to_string() })
    );
}

#[test]
fn missing_archive_dir_is_its_own_failure() {
    assert_eq!(
        job_result(Outcome::NoArchiveDir { reason: "Permission denied".to_string() }),
        Err(ExecError::ArchiveDir { reason: "Permission denied".to_string() })
    );
}

#[test]
fn execute_launches_the_assembled_job_once() {
    let seen: RefCell<Vec<Job>> = RefCell::new(Vec::new());
    let launch = |job: &Job| {
        seen.borrow_mut().push(job.clone());
        Outcome::Exited { code: Some(0) }
    };
    assert_eq!(execute("yt-dlp", &news(), &audio(true), &launch), Ok(()));
    assert_eq!(*seen.borrow(), vec![Job::new("yt-dlp", &news(), &audio(true))]);
}

#[test]
fn execute_reports_the_failure_of_the_launch() {
    let launch = |_job: &Job| Outcome::Exited { code: Some(2) };
    assert_eq!(
        execute("yt-dlp", &news(), &audio(false), &launch),
        Err(ExecError::NonZeroExit { code: Some(2) })
    );
    let launch = |_job: &Job| Outcome::NotLaunched { reason: "missing".to_string() };
    assert_eq!(
        execute("yt-dlp", &news(), &audio(false), &launch),
        Err(ExecError::LaunchError { reason: "missing".to_string() })
    );
}
