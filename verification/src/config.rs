//! The configuration model: profiles, download targets and their defaults.

use vstd::prelude::*;

verus! {

/// The elementwise view of a sequence of values.
pub open spec fn views<T: View>(items: Seq<T>) -> Seq<T::V> {
    Seq::new(items.len(), |i: int| items[i]@)
}

/// A copy of a list of strings, text for text.
pub fn clone_strings(items: &Vec<String>) -> (copy: Vec<String>)
    ensures
        views(copy@) == views(items@),
{
    let mut copy: Vec<String> = Vec::with_capacity(items.len());
    let mut i: usize = 0;
    while i < items.len()
        invariant
            i <= items.len(),
            copy.len() == i,
            forall|k: int| 0 <= k < i ==> copy[k]@ == items[k]@,
        decreases items.len() - i,
    {
        copy.push(items[i].clone());
        i += 1;
    }
    assert(views(copy@) =~= views(items@));
    copy
}

/// A named, reusable template of arguments for the download tool.
#[derive(Debug, PartialEq, Eq)]
pub struct Profile {
    /// The identifier by which downloads refer to this profile.
    pub name: String,
    /// Arguments handed to the tool as they stand.
    pub args: Vec<String>,
    /// Whether the tool is told to keep a download archive for each job.
    pub archive: bool,
}

/// What a `Profile` holds, as plain values.
pub ghost struct ProfileView {
    pub name: Seq<char>,
    pub args: Seq<Seq<char>>,
    pub archive: bool,
}

impl View for Profile {
    type V = ProfileView;

    open spec fn view(&self) -> ProfileView {
        ProfileView { name: self.name@, args: views(self.args@), archive: self.archive }
    }
}

impl Clone for Profile {
    fn clone(&self) -> (copy: Self)
        ensures
            copy@ == self@,
    {
        Profile {
            name: self.name.clone(),
            args: clone_strings(&self.args),
            archive: self.archive,
        }
    }
}

/// A named download target.
#[derive(Debug, PartialEq, Eq)]
pub struct Download {
    /// Names the job and, with the profile's name, its archive file.
    pub name: String,
    /// The profiles to run this download under, one job for each.
    pub profile: Vec<String>,
    /// The sources handed to the tool.
    pub url: Vec<String>,
}

/// What a `Download` holds, as plain values.
pub ghost struct DownloadView {
    pub name: Seq<char>,
    pub profile: Seq<Seq<char>>,
    pub url: Seq<Seq<char>>,
}

impl View for Download {
    type V = DownloadView;

    open spec fn view(&self) -> DownloadView {
        DownloadView { name: self.name@, profile: views(self.profile@), url: views(self.url@) }
    }
}

impl Clone for Download {
    fn clone(&self) -> (copy: Self)
        ensures
            copy@ == self@,
    {
        Download {
            name: self.name.clone(),
            profile: clone_strings(&self.profile),
            url: clone_strings(&self.url),
        }
    }
}

/// A copy of a list of profiles.
pub fn clone_profiles(items: &Vec<Profile>) -> (copy: Vec<Profile>)
    ensures
        views(copy@) == views(items@),
{
    let mut copy: Vec<Profile> = Vec::with_capacity(items.len());
    let mut i: usize = 0;
    while i < items.len()
        invariant
            i <= items.len(),
            copy.len() == i,
            forall|k: int| 0 <= k < i ==> copy[k]@ == items[k]@,
        decreases items.len() - i,
    {
        copy.push(items[i].clone());
        i += 1;
    }
    assert(views(copy@) =~= views(items@));
    copy
}

/// A copy of a list of downloads.
pub fn clone_downloads(items: &Vec<Download>) -> (copy: Vec<Download>)
    ensures
        views(copy@) == views(items@),
{
    let mut copy: Vec<Download> = Vec::with_capacity(items.len());
    let mut i: usize = 0;
    while i < items.len()
        invariant
            i <= items.len(),
            copy.len() == i,
            forall|k: int| 0 <= k < i ==> copy[k]@ == items[k]@,
        decreases items.len() - i,
    {
        copy.push(items[i].clone());
        i += 1;
    }
    assert(views(copy@) =~= views(items@));
    copy
}

/// The profiles and downloads of one job source, as declared and not yet checked.
#[derive(Debug, PartialEq, Eq)]
pub struct TaskSource {
    pub profile: Vec<Profile>,
    pub download: Vec<Download>,
}

/// What a `TaskSource` holds, as plain values.
pub ghost struct TaskSourceView {
    pub profile: Seq<ProfileView>,
    pub download: Seq<DownloadView>,
}

impl View for TaskSource {
    type V = TaskSourceView;

    open spec fn view(&self) -> TaskSourceView {
        TaskSourceView { profile: views(self.profile@), download: views(self.download@) }
    }
}

impl Clone for TaskSource {
    fn clone(&self) -> (copy: Self)
        ensures
            copy@ == self@,
    {
        TaskSource {
            profile: clone_profiles(&self.profile),
            download: clone_downloads(&self.download),
        }
    }
}

/// The interval between two cycles when the configuration names none: 23 hours.
pub const DEFAULT_INTERVAL_SECS: u64 = 82800;

/// The top-level configuration of the runner.
#[derive(Debug, PartialEq, Eq)]
pub struct Config {
    /// The path of the download tool.
    pub bin_name: String,
    /// Seconds from the start of one cycle to the start of the next.
    pub interval: u64,
    pub profile: Vec<Profile>,
    pub download: Vec<Download>,
    /// Addresses of further job sources, fetched anew in every cycle.
    pub remote_job: Vec<String>,
}

/// What a `Config` holds, as plain values.
pub ghost struct ConfigView {
    pub bin_name: Seq<char>,
    pub interval: u64,
    pub local: TaskSourceView,
    pub remote_job: Seq<Seq<char>>,
}

impl View for Config {
    type V = ConfigView;

    open spec fn view(&self) -> ConfigView {
        ConfigView {
            bin_name: self.bin_name@,
            interval: self.interval,
            local: TaskSourceView {
                profile: views(self.profile@),
                download: views(self.download@),
            },
            remote_job: views(self.remote_job@),
        }
    }
}

impl Clone for Config {
    fn clone(&self) -> (copy: Self)
        ensures
            copy@ == self@,
    {
        Config {
            bin_name: self.bin_name.clone(),
            interval: self.interval,
            profile: clone_profiles(&self.profile),
            download: clone_downloads(&self.download),
            remote_job: clone_strings(&self.remote_job),
        }
    }
}

impl Config {
    /// The job source that the configuration itself declares.
    pub fn local_source(&self) -> (source: TaskSource)
        ensures
            source@ == self@.local,
    {
        TaskSource {
            profile: clone_profiles(&self.profile),
            download: clone_downloads(&self.download),
        }
    }
}

/// The name of the download tool when the configuration names none.
pub fn default_bin_name() -> (name: String)
    ensures
        name@ == "yt-dlp"@,
{
    "yt-dlp".to_string()
}

/// The seconds between the starts of two cycles when none are configured.
pub fn default_23h_in_seconds() -> (secs: u64)
    ensures
        secs == DEFAULT_INTERVAL_SECS,
        secs == 23 * 60 * 60,
{
    DEFAULT_INTERVAL_SECS
}

/// Whether a profile keeps a download archive when it does not say.
pub fn default_true() -> (flag: bool)
    ensures
        flag,
{
    true
}

} // verus!
