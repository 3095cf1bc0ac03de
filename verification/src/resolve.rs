//! The job resolver: the one gate through which declared jobs become runnable.

use vstd::prelude::*;
use vstd::hash_map::StringHashMap;
use crate::config::{
    views, Download, DownloadView, Profile, ProfileView, TaskSource, TaskSourceView,
};

verus! {

/// No two of the profiles share a name.
pub open spec fn names_distinct(profiles: Seq<ProfileView>) -> bool {
    forall|i: int, j: int| 0 <= i < j < profiles.len() ==> profiles[i].name != profiles[j].name
}

/// One of the profiles has this name.
pub open spec fn declares(profiles: Seq<ProfileView>, name: Seq<char>) -> bool {
    exists|i: int| 0 <= i < profiles.len() && #[trigger] profiles[i].name == name
}

/// The profile at `at` is the first to take a name that an earlier one has.
pub open spec fn first_repeat(profiles: Seq<ProfileView>, at: int) -> bool {
    &&& 0 <= at < profiles.len()
    &&& names_distinct(profiles.take(at))
    &&& declares(profiles.take(at), profiles[at].name)
}

/// The reference at place `entry` of the download at `at` names a declared profile.
pub open spec fn reference_known(source: TaskSourceView, at: int, entry: int) -> bool {
    declares(source.profile, source.download[at].profile[entry])
}

/// Every profile that a download refers to is declared.
pub open spec fn fully_referenced(source: TaskSourceView) -> bool {
    forall|at: int, entry: int|
        0 <= at < source.download.len() && 0 <= entry < source.download[at].profile.len()
            ==> #[trigger] reference_known(source, at, entry)
}

/// The reference at place `entry` of the download at `at` is the first, going
/// through the downloads and their references in order, to name no declared profile.
pub open spec fn first_dangling(source: TaskSourceView, at: int, entry: int) -> bool {
    &&& 0 <= at < source.download.len()
    &&& 0 <= entry < source.download[at].profile.len()
    &&& !reference_known(source, at, entry)
    &&& forall|a: int, e: int|
        0 <= a < source.download.len() && 0 <= e < source.download[a].profile.len() && (a < at
            || (a == at && e < entry)) ==> #[trigger] reference_known(source, a, e)
}

/// Why a job source was refused as a whole.
#[derive(Debug, PartialEq, Eq)]
pub enum ResolutionError {
    /// Two profiles of the source share this name.
    DuplicateProfile { name: String },
    /// A download refers to a profile that the source does not declare.
    UnknownProfileReference { download_name: String, profile_name: String },
}

/// What a `ResolutionError` holds, as plain values.
pub ghost enum ResolutionErrorView {
    DuplicateProfile { name: Seq<char> },
    UnknownProfileReference { download_name: Seq<char>, profile_name: Seq<char> },
}

impl View for ResolutionError {
    type V = ResolutionErrorView;

    open spec fn view(&self) -> ResolutionErrorView {
        match self {
            ResolutionError::DuplicateProfile { name } => ResolutionErrorView::DuplicateProfile {
                name: name@,
            },
            ResolutionError::UnknownProfileReference { download_name, profile_name } =>
                ResolutionErrorView::UnknownProfileReference {
                    download_name: download_name@,
                    profile_name: profile_name@,
                },
        }
    }
}

/// A checked job set as plain values: the profiles by name, and the downloads
/// in the order of their declaration.
pub ghost struct TasksView {
    pub profiles: Map<Seq<char>, ProfileView>,
    pub download: Seq<DownloadView>,
}

impl TasksView {
    /// Every profile is filed under its own name.
    pub open spec fn keyed_by_name(self) -> bool {
        forall|name: Seq<char>| #[trigger]
            self.profiles.contains_key(name) ==> self.profiles[name].name == name
    }

    /// Every reference of every download leads to a profile.
    pub open spec fn is_resolved(self) -> bool {
        forall|at: int, entry: int|
            0 <= at < self.download.len() && 0 <= entry < self.download[at].profile.len()
                ==> self.profiles.contains_key(#[trigger] self.download[at].profile[entry])
    }
}

/// The job set holds exactly what the source declares: each profile under its
/// name, and the downloads unchanged.
pub open spec fn holds_source(tasks: TasksView, source: TaskSourceView) -> bool {
    &&& tasks.download == source.download
    &&& forall|name: Seq<char>| #[trigger]
        tasks.profiles.contains_key(name) <==> declares(source.profile, name)
    &&& forall|i: int|
        0 <= i < source.profile.len() ==> tasks.profiles[#[trigger] source.profile[i].name]
            == source.profile[i]
}

/// The source is acceptable and `tasks` is what it resolves to.
pub open spec fn resolves_to(source: TaskSourceView, tasks: TasksView) -> bool {
    &&& names_distinct(source.profile)
    &&& fully_referenced(source)
    &&& holds_source(tasks, source)
}

/// The source is refused, and `error` is the first fault met: a repeated
/// profile name before any dangling reference.
pub open spec fn refused_with(source: TaskSourceView, error: ResolutionErrorView) -> bool {
    match error {
        ResolutionErrorView::DuplicateProfile { name } => exists|at: int| #[trigger]
            first_repeat(source.profile, at) && source.profile[at].name == name,
        ResolutionErrorView::UnknownProfileReference { download_name, profile_name } => {
            &&& names_distinct(source.profile)
            &&& exists|at: int, entry: int| #[trigger]
                first_dangling(source, at, entry) && source.download[at].name == download_name
                    && source.download[at].profile[entry] == profile_name
        },
    }
}

/// What the resolver may answer for a source: the job set of an acceptable
/// source, or the first fault of one that is not.
pub open spec fn is_resolution(
    source: TaskSourceView,
    outcome: Result<TasksView, ResolutionErrorView>,
) -> bool {
    match outcome {
        Ok(tasks) => resolves_to(source, tasks),
        Err(error) => refused_with(source, error),
    }
}

/// The resolver's answer as plain values.
pub open spec fn outcome_view(outcome: Result<Tasks, ResolutionError>) -> Result<
    TasksView,
    ResolutionErrorView,
> {
    match outcome {
        Ok(tasks) => Ok(tasks@),
        Err(error) => Err(error@),
    }
}

/// A validated job set. A value of this type exists only for a source that
/// passed the resolver, so none holds a reference that leads nowhere.
pub struct Tasks {
    profiles: StringHashMap<Profile>,
    download: Vec<Download>,
}

impl View for Tasks {
    type V = TasksView;

    closed spec fn view(&self) -> TasksView {
        TasksView {
            profiles: self.profiles@.map_values(|profile: Profile| profile@),
            download: views(self.download@),
        }
    }
}

impl Tasks {
    #[verifier::type_invariant]
    spec fn well_formed(self) -> bool {
        self@.keyed_by_name() && self@.is_resolved()
    }

    /// Checks a job source and files its profiles by name. The source is taken
    /// whole or not at all: a profile name that occurs twice, or a download
    /// that refers to a profile which is not declared, refuses all of it.
    pub fn try_from(value: TaskSource) -> (resolved: Result<Tasks, ResolutionError>)
        ensures
            is_resolution(value@, outcome_view(resolved)),
    {
        let ghost source = value@;
        let TaskSource { profile, download } = value;
        let mut profiles: StringHashMap<Profile> = StringHashMap::with_capacity(profile.len());
        let mut i: usize = 0;
        while i < profile.len()
            invariant
                i <= profile.len(),
                source == value@,
                source.profile == views(profile@),
                names_distinct(source.profile.take(i as int)),
                forall|name: Seq<char>| #[trigger]
                    profiles@.contains_key(name) <==> declares(source.profile.take(i as int), name),
                forall|k: int|
                    0 <= k < i ==> profiles@[#[trigger] source.profile[k].name]@
                        == source.profile[k],
            decreases profile.len() - i,
        {
            let entry = profile[i].clone();
            let profile_name = entry.name.clone();
            assert(source.profile[i as int] == entry@);
            if profiles.contains_key(profile_name.as_str()) {
                assert(first_repeat(source.profile, i as int));
                assert(source.profile[i as int].name == profile_name@);
                return Err(ResolutionError::DuplicateProfile { name: profile_name });
            }
            let ghost before = source.profile.take(i as int);
            let ghost after = source.profile.take(i + 1);
            profiles.insert(profile_name, entry);
            proof {
                assert(after.drop_last() =~= before);
                assert(after.last() == source.profile[i as int]);
                assert forall|name: Seq<char>| #[trigger]
                    profiles@.contains_key(name) <==> declares(after, name) by {
                    if declares(after, name) {
                        let k = choose|k: int| 0 <= k < after.len() && after[k].name == name;
                        if k < i {
                            assert(before[k].name == name);
                        }
                    }
                    if declares(before, name) {
                        let k = choose|k: int| 0 <= k < before.len() && before[k].name == name;
                        assert(after[k].name == name);
                    }
                    if name == source.profile[i as int].name {
                        assert(after[i as int].name == name);
                    }
                }
                assert forall|a: int, b: int| 0 <= a < b < after.len() implies after[a].name
                    != after[b].name by {
                    if b == i {
                        if after[a].name == after[b].name {
                            assert(before[a].name == source.profile[i as int].name);
                        }
                    } else {
                        assert(before[a].name != before[b].name);
                    }
                }
                assert forall|k: int| 0 <= k < i + 1 implies profiles@[#[trigger] source.profile[k]
                    .name]@ == source.profile[k] by {
                    if k < i {
                        assert(before[k].name == source.profile[k].name);
                    }
                }
            }
            i += 1;
        }
        assert(source.profile.take(i as int) =~= source.profile);

        let mut at: usize = 0;
        while at < download.len()
            invariant
                at <= download.len(),
                source == value@,
                source.download == views(download@),
                names_distinct(source.profile),
                forall|name: Seq<char>| #[trigger]
                    profiles@.contains_key(name) <==> declares(source.profile, name),
                forall|a: int, e: int|
                    0 <= a < at && 0 <= e < source.download[a].profile.len()
                        ==> #[trigger] reference_known(source, a, e),
            decreases download.len() - at,
        {
            let target = &download[at];
            let mut entry: usize = 0;
            while entry < target.profile.len()
                invariant
                    at < download.len(),
                    source == value@,
                    entry <= target.profile.len(),
                    *target == download[at as int],
                    source.download == views(download@),
                    names_distinct(source.profile),
                    forall|name: Seq<char>| #[trigger]
                        profiles@.contains_key(name) <==> declares(source.profile, name),
                    forall|a: int, e: int|
                        0 <= a < at && 0 <= e < source.download[a].profile.len()
                            ==> #[trigger] reference_known(source, a, e),
                    forall|e: int|
                        0 <= e < entry ==> #[trigger] reference_known(source, at as int, e),
                decreases target.profile.len() - entry,
            {
                let profile_name = &target.profile[entry];
                assert(source.download[at as int].profile[entry as int] == profile_name@);
                if !profiles.contains_key(profile_name.as_str()) {
                    assert(first_dangling(source, at as int, entry as int));
                    assert(source.download[at as int].name == target.name@);
                    return Err(
                        ResolutionError::UnknownProfileReference {
                            download_name: target.name.clone(),
                            profile_name: profile_name.clone(),
                        },
                    );
                }
                entry += 1;
            }
            at += 1;
        }
        let ghost filed = TasksView {
            profiles: profiles@.map_values(|profile: Profile| profile@),
            download: source.download,
        };
        proof {
            assert forall|name: Seq<char>| #[trigger]
                filed.profiles.contains_key(name) implies filed.profiles[name].name == name by {
                let k = choose|k: int|
                    0 <= k < source.profile.len() && source.profile[k].name == name;
                assert(profiles@[source.profile[k].name]@ == source.profile[k]);
            }
            assert forall|a: int, e: int|
                0 <= a < filed.download.len() && 0 <= e < filed.download[a].profile.len()
                implies filed.profiles.contains_key(#[trigger] filed.download[a].profile[e]) by {
                assert(reference_known(source, a, e));
            }
            assert(fully_referenced(source));
        }
        let tasks = Tasks { profiles, download };
        assert(tasks@ == filed);
        Ok(tasks)
    }

    /// The downloads, in the order of their declaration. Each of their
    /// references leads to a profile of the job set.
    pub fn downloads(&self) -> (list: &Vec<Download>)
        ensures
            views(list@) == self@.download,
            self@.is_resolved(),
    {
        proof {
            use_type_invariant(self);
        }
        &self.download
    }

    /// The profile of the given name, if the job set has one.
    pub fn profile(&self, name: &str) -> (found: Option<&Profile>)
        ensures
            match found {
                Some(profile) => self@.profiles.contains_key(name@) && profile@
                    == self@.profiles[name@] && profile@.name == name@,
                None => !self@.profiles.contains_key(name@),
            },
    {
        proof {
            use_type_invariant(self);
        }
        self.profiles.get(name)
    }

    /// The number of profiles.
    pub fn profile_count(&self) -> (count: usize)
        ensures
            count == self@.profiles.dom().len(),
    {
        assert(self@.profiles.dom() =~= self.profiles@.dom());
        self.profiles.len()
    }

    /// The profile that a download refers to at the given place. The lookup
    /// cannot fail: a job set holds no reference that leads nowhere.
    pub fn referenced_profile(&self, at: usize, entry: usize) -> (profile: &Profile)
        requires
            at < self@.download.len(),
            entry < self@.download[at as int].profile.len(),
        ensures
            self@.is_resolved(),
            self@.keyed_by_name(),
            self@.profiles.contains_key(self@.download[at as int].profile[entry as int]),
            profile@ == self@.profiles[self@.download[at as int].profile[entry as int]],
    {
        proof {
            use_type_invariant(self);
        }
        let name = &self.download[at].profile[entry];
        assert(name@ == self@.download[at as int].profile[entry as int]);
        match self.profiles.get(name.as_str()) {
            Some(profile) => profile,
            None => vstd::pervasive::unreached(),
        }
    }
}

/// A source in which two profiles share a name is refused for a duplicate
/// name that two of its profiles in fact share, and no job set comes of it.
pub proof fn lemma_duplicate_is_refused(
    source: TaskSourceView,
    outcome: Result<TasksView, ResolutionErrorView>,
)
    requires
        is_resolution(source, outcome),
        !names_distinct(source.profile),
    ensures
        outcome is Err,
        outcome->Err_0 is DuplicateProfile,
        exists|i: int, j: int|
            0 <= i < j < source.profile.len() && #[trigger] source.profile[i].name
                == outcome->Err_0->DuplicateProfile_name && #[trigger] source.profile[j].name
                == outcome->Err_0->DuplicateProfile_name,
{
    match outcome {
        Err(ResolutionErrorView::DuplicateProfile { name }) => {
            let at = choose|at: int| #[trigger]
                first_repeat(source.profile, at) && source.profile[at].name == name;
            let earlier = source.profile.take(at);
            let i = choose|i: int| 0 <= i < earlier.len() && #[trigger] earlier[i].name == name;
            assert(source.profile[i].name == name);
            assert(source.profile[at].name == name);
        },
        _ => {},
    }
}

/// A source whose profile names are distinct, and in which some download
/// refers to a profile that is not declared, is refused for a dangling
/// reference: the error names a download of the source and a profile that
/// this download refers to and that the source does not declare.
pub proof fn lemma_dangling_is_refused(
    source: TaskSourceView,
    outcome: Result<TasksView, ResolutionErrorView>,
)
    requires
        is_resolution(source, outcome),
        names_distinct(source.profile),
        !fully_referenced(source),
    ensures
        outcome is Err,
        outcome->Err_0 is UnknownProfileReference,
        !declares(source.profile, outcome->Err_0->profile_name),
        exists|at: int, entry: int|
            0 <= at < source.download.len() && 0 <= entry < source.download[at].profile.len()
                && #[trigger] source.download[at].profile[entry] == outcome->Err_0->profile_name
                && source.download[at].name == outcome->Err_0->download_name,
{
    match outcome {
        Err(ResolutionErrorView::DuplicateProfile { name }) => {
            lemma_first_repeat_is_duplicate(source.profile);
        },
        Err(ResolutionErrorView::UnknownProfileReference { download_name, profile_name }) => {
            let (at, entry) = choose|at: int, entry: int| #[trigger]
                first_dangling(source, at, entry) && source.download[at].name == download_name
                    && source.download[at].profile[entry] == profile_name;
            assert(!reference_known(source, at, entry));
            assert(source.download[at].profile[entry] == profile_name);
        },
        Ok(_) => {},
    }
}

/// A source that has a first repeated name has two profiles of one name.
pub proof fn lemma_first_repeat_is_duplicate(profiles: Seq<ProfileView>)
    requires
        exists|at: int| first_repeat(profiles, at),
    ensures
        !names_distinct(profiles),
{
    let at = choose|at: int| first_repeat(profiles, at);
    let earlier = profiles.take(at);
    let i = choose|i: int|
        0 <= i < earlier.len() && #[trigger] earlier[i].name == profiles[at].name;
    assert(profiles[i].name == profiles[at].name);
}

/// A source with distinct profile names, all of whose references are
/// declared, is accepted, and the names under which the job set files its
/// profiles are exactly the declared ones.
pub proof fn lemma_valid_source_resolves(
    source: TaskSourceView,
    outcome: Result<TasksView, ResolutionErrorView>,
)
    requires
        is_resolution(source, outcome),
        names_distinct(source.profile),
        fully_referenced(source),
    ensures
        outcome is Ok,
        outcome->Ok_0.profiles.dom() =~= Set::new(|name: Seq<char>| declares(source.profile, name)),
        outcome->Ok_0.download == source.download,
        outcome->Ok_0.is_resolved(),
        outcome->Ok_0.keyed_by_name(),
{
    match outcome {
        Err(ResolutionErrorView::DuplicateProfile { name }) => {
            lemma_first_repeat_is_duplicate(source.profile);
        },
        Err(ResolutionErrorView::UnknownProfileReference { download_name, profile_name }) => {
            let (at, entry) = choose|at: int, entry: int| #[trigger]
                first_dangling(source, at, entry) && source.download[at].name == download_name
                    && source.download[at].profile[entry] == profile_name;
            assert(reference_known(source, at, entry));
        },
        Ok(tasks) => {
            assert forall|name: Seq<char>| #[trigger]
                tasks.profiles.contains_key(name) implies tasks.profiles[name].name == name by {
                let k = choose|k: int|
                    0 <= k < source.profile.len() && #[trigger] source.profile[k].name == name;
                assert(tasks.profiles[source.profile[k].name] == source.profile[k]);
            }
            assert forall|at: int, entry: int|
                0 <= at < tasks.download.len() && 0 <= entry < tasks.download[at].profile.len()
                implies tasks.profiles.contains_key(
                #[trigger] tasks.download[at].profile[entry],
            ) by {
                assert(reference_known(source, at, entry));
            }
        },
    }
}

/// The resolver's answer is a function of the source: whatever it answers
/// for one source on two occasions, the two answers are the same, profile for
/// profile, download for download, and fault for fault.
pub proof fn lemma_resolution_is_unique(
    source: TaskSourceView,
    first: Result<TasksView, ResolutionErrorView>,
    second: Result<TasksView, ResolutionErrorView>,
)
    requires
        is_resolution(source, first),
        is_resolution(source, second),
    ensures
        first == second,
{
    if names_distinct(source.profile) && fully_referenced(source) {
        lemma_valid_source_resolves(source, first);
        lemma_valid_source_resolves(source, second);
        let a = first->Ok_0;
        let b = second->Ok_0;
        assert forall|name: Seq<char>| a.profiles.contains_key(name) implies a.profiles[name]
            == b.profiles[name] by {
            let k = choose|k: int|
                0 <= k < source.profile.len() && #[trigger] source.profile[k].name == name;
            assert(a.profiles[source.profile[k].name] == source.profile[k]);
            assert(b.profiles[source.profile[k].name] == source.profile[k]);
        }
        assert(a.profiles =~= b.profiles);
    } else if !names_distinct(source.profile) {
        lemma_duplicate_is_refused(source, first);
        lemma_duplicate_is_refused(source, second);
        let x = choose|at: int| #[trigger]
            first_repeat(source.profile, at) && source.profile[at].name
                == first->Err_0->DuplicateProfile_name;
        let y = choose|at: int| #[trigger]
            first_repeat(source.profile, at) && source.profile[at].name
                == second->Err_0->DuplicateProfile_name;
        lemma_first_repeat_is_unique(source.profile, x, y);
    } else {
        lemma_dangling_is_refused(source, first);
        lemma_dangling_is_refused(source, second);
        let (a1, e1) = choose|at: int, entry: int| #[trigger]
            first_dangling(source, at, entry) && source.download[at].name
                == first->Err_0->download_name && source.download[at].profile[entry]
                == first->Err_0->profile_name;
        let (a2, e2) = choose|at: int, entry: int| #[trigger]
            first_dangling(source, at, entry) && source.download[at].name
                == second->Err_0->download_name && source.download[at].profile[entry]
                == second->Err_0->profile_name;
        assert(reference_known(source, a1, e1) || reference_known(source, a2, e2) || (a1 == a2
            && e1 == e2));
    }
}

/// Only one profile can be the first to repeat a name.
pub proof fn lemma_first_repeat_is_unique(profiles: Seq<ProfileView>, x: int, y: int)
    requires
        first_repeat(profiles, x),
        first_repeat(profiles, y),
    ensures
        x == y,
{
    if x < y {
        let earlier = profiles.take(x);
        let i = choose|i: int|
            0 <= i < earlier.len() && #[trigger] earlier[i].name == profiles[x].name;
        let upto = profiles.take(y);
        assert(upto[i].name == upto[x].name);
    } else if y < x {
        let earlier = profiles.take(y);
        let i = choose|i: int|
            0 <= i < earlier.len() && #[trigger] earlier[i].name == profiles[y].name;
        let upto = profiles.take(x);
        assert(upto[i].name == upto[y].name);
    }
}

} // verus!
