use ytdl_cron::config::{Download, Profile, TaskSource};
use ytdl_cron::resolve::{ResolutionError, Tasks};

fn profile(name: &str, args: &[&str], archive: bool) -> Profile {
    Profile {
        name: name.to_string(),
        args: args.iter().map(|a| a.to_string()).collect(),
        archive,
    }
}

fn download(name: &str, profiles: &[&str], urls: &[&str]) -> Download {
    Download {
        name: name.to_string(),
        profile: profiles.iter().map(|p| p.to_string()).collect(),
        url: urls.iter().map(|u| u.to_string()).collect(),
    }
}

fn refusal(source: TaskSource) -> ResolutionError {
    match Tasks::try_from(source) {
        Ok(_) => panic!("the source was accepted"),
        Err(error) => error,
    }
}

fn accepted(source: TaskSource) -> Tasks {
    match Tasks::try_from(source) {
        Ok(tasks) => tasks,
        Err(error) => panic!("the source was refused: {:?}", error),
    }
}

#[test]
fn duplicate_profile_name_is_refused() {
    let source = TaskSource {
        profile: vec![profile("audio", &["-x"], true), profile("audio", &["-f", "best"], false)],
        download: vec![download("news", &["audio"], &["https://example.org/news"])],
    };
    assert_eq!(
        refusal(source),
        ResolutionError::DuplicateProfile { name: "audio".to_string() }
    );
}

#[test]
fn first_repeated_name_is_reported() {
    let source = TaskSource {
        profile: vec![
            profile("a", &[], true),
            profile("b", &[], true),
            profile("b", &[], true),
            profile("a", &[], true),
        ],
        download: vec![],
    };
    assert_eq!(refusal(source), ResolutionError::DuplicateProfile { name: "b".to_string() });
}

#[test]
fn unknown_profile_reference_is_refused() {
    let source = TaskSource {
        profile: vec![profile("audio", &["-x"], true)],
        download: vec![
            download("news", &["audio"], &["https://example.org/news"]),
            download("talks", &["audio", "video"], &["https://example.org/talks"]),
        ],
    };
    assert_eq!(
        refusal(source),
        ResolutionError::UnknownProfileReference {
            download_name: "talks".to_string(),
            profile_name: "video".to_string(),
        }
    );
}

#[test]
fn first_dangling_reference_is_reported() {
    let source = TaskSource {
        profile: vec![profile("audio", &[], true)],
        download: vec![
            download("one", &["audio", "x", "y"], &["u"]),
            download("two", &["z"], &["u"]),
        ],
    };
    assert_eq!(
        refusal(source),
        ResolutionError::UnknownProfileReference {
            download_name: "one".to_string(),
            profile_name: "x".to_string(),
        }
    );
}

#[test]
fn duplicate_is_found_before_dangling_reference() {
    let source = TaskSource {
        profile: vec![profile("a", &[], true), profile("a", &[], true)],
        download: vec![download("news", &["b"], &["u"])],
    };
    assert_eq!(refusal(source), ResolutionError::DuplicateProfile { name: "a".to_string() });
}

#[test]
fn valid_source_resolves_with_declared_names_as_keys() {
    let source = TaskSource {
        profile: vec![profile("audio", &["-x"], true), profile("video", &["-f", "best"], false)],
        download: vec![
            download("news", &["audio", "video"], &["https://example.org/news"]),
            download("talks", &["video"], &["https://example.org/a", "https://example.org/b"]),
        ],
    };
    let tasks = accepted(source);
    assert_eq!(tasks.profile_count(), 2);
    assert_eq!(tasks.profile("audio"), Some(&profile("audio", &["-x"], true)));
    assert_eq!(tasks.profile("video"), Some(&profile("video", &["-f", "best"], false)));
    assert_eq!(tasks.profile("other"), None);
    assert_eq!(
        tasks.downloads(),
        &vec![
            download("news", &["audio", "video"], &["https://example.org/news"]),
            download("talks", &["video"], &["https://example.org/a", "https://example.org/b"]),
        ]
    );
    assert_eq!(tasks.referenced_profile(0, 1).name, "video");
    assert_eq!(tasks.referenced_profile(1, 0).name, "video");
}

#[test]
fn empty_source_resolves_to_nothing() {
    let tasks = accepted(TaskSource { profile: vec![], download: vec![] });
    assert_eq!(tasks.profile_count(), 0);
    assert!(tasks.downloads().is_empty());
}

#[test]
fn unused_profile_is_no_fault() {
    let tasks = accepted(TaskSource {
        profile: vec![profile("audio", &[], true), profile("spare", &[], true)],
        download: vec![download("news", &["audio"], &["u"])],
    });
    assert_eq!(tasks.profile_count(), 2);
    assert!(tasks.profile("spare").is_some());
}

#[test]
fn resolving_twice_gives_the_same_job_set() {
    let source = TaskSource {
        profile: vec![profile("audio", &["-x"], true), profile("video", &[], false)],
        download: vec![
            download("news", &["video", "audio"], &["u1"]),
            download("talks", &["audio"], &["u2"]),
        ],
    };
    let first = accepted(source.clone());
    let second = accepted(source);
    assert_eq!(first.profile_count(), second.profile_count());
    for name in ["audio", "video"] {
        assert_eq!(first.profile(name), second.profile(name));
    }
    assert_eq!(first.downloads(), second.downloads());
}

#[test]
fn resolving_a_refused_source_twice_gives_the_same_fault() {
    let source = TaskSource {
        profile: vec![profile("audio", &[], true)],
        download: vec![download("news", &["missing"], &["u"])],
    };
    assert_eq!(refusal(source.clone()), refusal(source));
}

#[test]
fn downloads_may_share_a_name() {
    let tasks = accepted(TaskSource {
        profile: vec![profile("audio", &[], true)],
        download: vec![
            download("news", &["audio"], &["u1"]),
            download("news", &["audio"], &["u2"]),
        ],
    });
    assert_eq!(tasks.downloads().len(), 2);
}
