//! The remote job fetcher: job sources that are named by address, fetched
//! anew in every cycle, and resolved like the local one. Each address stands
//! alone: what goes wrong with one is recorded and does not touch the others.

use vstd::prelude::*;
use crate::config::{views, TaskSource, TaskSourceView};
use crate::resolve::{
    refused_with, resolves_to, ResolutionError, ResolutionErrorView, Tasks, TasksView,
};

verus! {

/// Why nothing usable came back from an address.
#[derive(Debug, PartialEq, Eq)]
pub enum FetchError {
    /// The request could not be sent or was not answered.
    Request { reason: String },
    /// The answer's body could not be read as text.
    Body { reason: String },
    /// The body is not a job source.
    Parse { reason: String },
}

/// What a `FetchError` holds, as plain values.
pub ghost enum FetchErrorView {
    Request { reason: Seq<char> },
    Body { reason: Seq<char> },
    Parse { reason: Seq<char> },
}

impl View for FetchError {
    type V = FetchErrorView;

    open spec fn view(&self) -> FetchErrorView {
        match self {
            FetchError::Request { reason } => FetchErrorView::Request { reason: reason@ },
            FetchError::Body { reason } => FetchErrorView::Body { reason: reason@ },
            FetchError::Parse { reason } => FetchErrorView::Parse { reason: reason@ },
        }
    }
}

/// Why an address gave no job set.
#[derive(Debug, PartialEq, Eq)]
pub enum RemoteError {
    /// No job source could be had from the address.
    Fetch(FetchError),
    /// The job source that came back was refused by the resolver.
    Resolution(ResolutionError),
}

/// What a `RemoteError` holds, as plain values.
pub ghost enum RemoteErrorView {
    Fetch(FetchErrorView),
    Resolution(ResolutionErrorView),
}

impl View for RemoteError {
    type V = RemoteErrorView;

    open spec fn view(&self) -> RemoteErrorView {
        match self {
            RemoteError::Fetch(error) => RemoteErrorView::Fetch(error@),
            RemoteError::Resolution(error) => RemoteErrorView::Resolution(error@),
        }
    }
}

/// What came back from an address, as plain values.
pub open spec fn fetched_view(fetched: Result<TaskSource, FetchError>) -> Result<
    TaskSourceView,
    FetchErrorView,
> {
    match fetched {
        Ok(source) => Ok(source@),
        Err(error) => Err(error@),
    }
}

/// What an address gave in the end, as plain values.
pub open spec fn remote_view(outcome: Result<Tasks, RemoteError>) -> Result<
    TasksView,
    RemoteErrorView,
> {
    match outcome {
        Ok(tasks) => Ok(tasks@),
        Err(error) => Err(error@),
    }
}

/// What an address gives, given what came back from it: the failed fetch as
/// it is; else the job set that the source resolves to, or the resolver's refusal.
pub open spec fn is_remote_outcome(
    fetched: Result<TaskSourceView, FetchErrorView>,
    outcome: Result<TasksView, RemoteErrorView>,
) -> bool {
    match fetched {
        Err(error) => outcome == Err::<TasksView, RemoteErrorView>(RemoteErrorView::Fetch(error)),
        Ok(source) => match outcome {
            Ok(tasks) => resolves_to(source, tasks),
            Err(RemoteErrorView::Resolution(error)) => refused_with(source, error),
            Err(RemoteErrorView::Fetch(_)) => false,
        },
    }
}

/// Resolves what came back from one address.
pub fn resolve_fetched(fetched: Result<TaskSource, FetchError>) -> (outcome: Result<
    Tasks,
    RemoteError,
>)
    ensures
        is_remote_outcome(fetched_view(fetched), remote_view(outcome)),
{
    match fetched {
        Err(error) => Err(RemoteError::Fetch(error)),
        Ok(source) => match Tasks::try_from(source) {
            Ok(tasks) => Ok(tasks),
            Err(error) => Err(RemoteError::Resolution(error)),
        },
    }
}

/// The fetcher may answer the request for the given address with the given result.
pub open spec fn may_fetch<F: Fn(&str) -> Result<TaskSource, FetchError>>(
    fetch: &F,
    url: Seq<char>,
    fetched: Result<TaskSourceView, FetchErrorView>,
) -> bool {
    exists|asked: &str, answer: Result<TaskSource, FetchError>|
        asked@ == url && fetched_view(answer) == fetched && #[trigger] call_ensures(
            fetch,
            (asked,),
            answer,
        )
}

/// The address gave `outcome` through the fetcher: the fetcher was asked for
/// it once, and what came back was resolved.
pub open spec fn gave<F: Fn(&str) -> Result<TaskSource, FetchError>>(
    fetch: &F,
    url: Seq<char>,
    outcome: Result<TasksView, RemoteErrorView>,
) -> bool {
    exists|fetched: Result<TaskSourceView, FetchErrorView>| #[trigger]
        may_fetch(fetch, url, fetched) && is_remote_outcome(fetched, outcome)
}

/// Fetches the job source at one address and resolves it.
pub fn get_remote_job<F: Fn(&str) -> Result<TaskSource, FetchError>>(
    fetch: &F,
    url: &str,
) -> (outcome: Result<Tasks, RemoteError>)
    requires
        forall|asked: &str| asked@ == url@ ==> call_requires(fetch, (asked,)),
    ensures
        gave(fetch, url@, remote_view(outcome)),
{
    let fetched = fetch(url);
    assert(may_fetch(fetch, url@, fetched_view(fetched)));
    resolve_fetched(fetched)
}

/// A job set together with the address it came from.
pub struct RemoteTasks {
    pub url: String,
    pub tasks: Tasks,
}

/// What a `RemoteTasks` holds, as plain values.
pub ghost struct RemoteTasksView {
    pub url: Seq<char>,
    pub tasks: TasksView,
}

impl View for RemoteTasks {
    type V = RemoteTasksView;

    open spec fn view(&self) -> RemoteTasksView {
        RemoteTasksView { url: self.url@, tasks: self.tasks@ }
    }
}

/// The record of an address that gave no job set.
#[derive(Debug, PartialEq, Eq)]
pub struct RemoteFailure {
    pub url: String,
    pub error: RemoteError,
}

/// What a `RemoteFailure` holds, as plain values.
pub ghost struct RemoteFailureView {
    pub url: Seq<char>,
    pub error: RemoteErrorView,
}

impl View for RemoteFailure {
    type V = RemoteFailureView;

    open spec fn view(&self) -> RemoteFailureView {
        RemoteFailureView { url: self.url@, error: self.error@ }
    }
}

/// What became of a list of addresses: the job sets that were had, and the
/// addresses that gave none, each list in the order of the addresses.
pub struct RemoteJobs {
    pub loaded: Vec<RemoteTasks>,
    pub failed: Vec<RemoteFailure>,
}

/// The job sets among the outcomes, each with its address, in order.
pub open spec fn loaded_of(
    urls: Seq<Seq<char>>,
    outcomes: Seq<Result<TasksView, RemoteErrorView>>,
) -> Seq<RemoteTasksView>
    recommends
        urls.len() == outcomes.len(),
{
    Seq::new(urls.len(), |k: int| (urls[k], outcomes[k])).filter_map(
        |got: (Seq<char>, Result<TasksView, RemoteErrorView>)|
            match got.1 {
                Ok(tasks) => Some(RemoteTasksView { url: got.0, tasks }),
                Err(_) => None,
            },
    )
}

/// The failures among the outcomes, each with its address, in order.
pub open spec fn failed_of(
    urls: Seq<Seq<char>>,
    outcomes: Seq<Result<TasksView, RemoteErrorView>>,
) -> Seq<RemoteFailureView>
    recommends
        urls.len() == outcomes.len(),
{
    Seq::new(urls.len(), |k: int| (urls[k], outcomes[k])).filter_map(
        |got: (Seq<char>, Result<TasksView, RemoteErrorView>)|
            match got.1 {
                Ok(_) => None,
                Err(error) => Some(RemoteFailureView { url: got.0, error }),
            },
    )
}

/// Each address gave the outcome at its place.
pub open spec fn each_gave<F: Fn(&str) -> Result<TaskSource, FetchError>>(
    fetch: &F,
    urls: Seq<Seq<char>>,
    outcomes: Seq<Result<TasksView, RemoteErrorView>>,
) -> bool {
    &&& outcomes.len() == urls.len()
    &&& forall|k: int| 0 <= k < urls.len() ==> #[trigger] gave(fetch, urls[k], outcomes[k])
}

/// The lists are what the addresses gave through the fetcher, every address
/// asked once and none left out.
pub open spec fn fetched_all<F: Fn(&str) -> Result<TaskSource, FetchError>>(
    fetch: &F,
    urls: Seq<Seq<char>>,
    loaded: Seq<RemoteTasksView>,
    failed: Seq<RemoteFailureView>,
) -> bool {
    exists|outcomes: Seq<Result<TasksView, RemoteErrorView>>| #[trigger]
        each_gave(fetch, urls, outcomes) && loaded == loaded_of(urls, outcomes) && failed
            == failed_of(urls, outcomes)
}

/// One more address, with its outcome, adds to one of the two lists and
/// leaves what the earlier addresses gave as it is.
pub proof fn lemma_outcomes_push(
    urls: Seq<Seq<char>>,
    outcomes: Seq<Result<TasksView, RemoteErrorView>>,
    url: Seq<char>,
    outcome: Result<TasksView, RemoteErrorView>,
)
    requires
        urls.len() == outcomes.len(),
    ensures
        loaded_of(urls.push(url), outcomes.push(outcome)) == loaded_of(urls, outcomes) + (
        match outcome {
            Ok(tasks) => seq![RemoteTasksView { url, tasks }],
            Err(_) => Seq::empty(),
        }),
        failed_of(urls.push(url), outcomes.push(outcome)) == failed_of(urls, outcomes) + (
        match outcome {
            Ok(_) => Seq::empty(),
            Err(error) => seq![RemoteFailureView { url, error }],
        }),
{
    let keep = |got: (Seq<char>, Result<TasksView, RemoteErrorView>)|
        match got.1 {
            Ok(tasks) => Some(RemoteTasksView { url: got.0, tasks }),
            Err(_) => None,
        };
    let drop = |got: (Seq<char>, Result<TasksView, RemoteErrorView>)|
        match got.1 {
            Ok(_) => None,
            Err(error) => Some(RemoteFailureView { url: got.0, error }),
        };
    let before = Seq::new(urls.len(), |k: int| (urls[k], outcomes[k]));
    let after = Seq::new(
        urls.push(url).len(),
        |k: int| (urls.push(url)[k], outcomes.push(outcome)[k]),
    );
    assert(after.drop_last() =~= before);
    assert(after.last() == (url, outcome));
    assert(loaded_of(urls.push(url), outcomes.push(outcome)) == after.filter_map(keep));
    assert(loaded_of(urls, outcomes) == before.filter_map(keep));
    assert(failed_of(urls.push(url), outcomes.push(outcome)) == after.filter_map(drop));
    assert(failed_of(urls, outcomes) == before.filter_map(drop));
    match outcome {
        Ok(tasks) => {
            assert(after.filter_map(keep) =~= before.filter_map(keep) + seq![
                RemoteTasksView { url, tasks },
            ]);
            assert(after.filter_map(drop) =~= before.filter_map(drop) + Seq::empty());
        },
        Err(error) => {
            assert(after.filter_map(keep) =~= before.filter_map(keep) + Seq::empty());
            assert(after.filter_map(drop) =~= before.filter_map(drop) + seq![
                RemoteFailureView { url, error },
            ]);
        },
    }
}

/// An address that gives nothing does not touch the address after it: where
/// the first of two addresses fails and the second gives a job set, that job
/// set is kept under its address, and the one failure on record is the first's.
pub proof fn lemma_remote_failure_is_isolated(
    first: Seq<char>,
    second: Seq<char>,
    error: RemoteErrorView,
    tasks: TasksView,
)
    ensures
        loaded_of(seq![first, second], seq![Err(error), Ok(tasks)]) == seq![
            RemoteTasksView { url: second, tasks },
        ],
        failed_of(seq![first, second], seq![Err(error), Ok(tasks)]) == seq![
            RemoteFailureView { url: first, error },
        ],
{
    let none = Seq::<Seq<char>>::empty();
    let nothing = Seq::<Result<TasksView, RemoteErrorView>>::empty();
    assert(loaded_of(none, nothing) =~= Seq::empty());
    assert(failed_of(none, nothing) =~= Seq::empty());
    lemma_outcomes_push(none, nothing, first, Err(error));
    lemma_outcomes_push(none.push(first), nothing.push(Err(error)), second, Ok(tasks));
    assert(none.push(first).push(second) =~= seq![first, second]);
    assert(nothing.push(Err(error)).push(Ok(tasks)) =~= seq![Err(error), Ok(tasks)]);
}

/// Fetches and resolves the job source at each address, in order. An address
/// that gives no job set is recorded with the reason, and the others are
/// fetched all the same.
pub fn get_remote_jobs<F: Fn(&str) -> Result<TaskSource, FetchError>>(
    fetch: &F,
    urls: &Vec<String>,
) -> (jobs: RemoteJobs)
    requires
        forall|asked: &str| views(urls@).contains(asked@) ==> call_requires(fetch, (asked,)),
    ensures
        fetched_all(fetch, views(urls@), views(jobs.loaded@), views(jobs.failed@)),
{
    let mut loaded: Vec<RemoteTasks> = Vec::new();
    let mut failed: Vec<RemoteFailure> = Vec::new();
    let ghost mut outcomes: Seq<Result<TasksView, RemoteErrorView>> = Seq::empty();
    let ghost all = views(urls@);
    assert(views(loaded@) =~= loaded_of(all.take(0), outcomes));
    assert(views(failed@) =~= failed_of(all.take(0), outcomes));
    let mut i: usize = 0;
    while i < urls.len()
        invariant
            i <= urls.len(),
            all == views(urls@),
            forall|asked: &str| all.contains(asked@) ==> call_requires(fetch, (asked,)),
            each_gave(fetch, all.take(i as int), outcomes),
            views(loaded@) == loaded_of(all.take(i as int), outcomes),
            views(failed@) == failed_of(all.take(i as int), outcomes),
        decreases urls.len() - i,
    {
        let url = &urls[i];
        assert(all[i as int] == url@);
        let outcome = get_remote_job(fetch, url.as_str());
        let ghost had = views(loaded@);
        let ghost lost = views(failed@);
        proof {
            lemma_outcomes_push(all.take(i as int), outcomes, url@, remote_view(outcome));
            assert(all.take(i + 1) =~= all.take(i as int).push(url@));
            outcomes = outcomes.push(remote_view(outcome));
        }
        match outcome {
            Ok(tasks) => {
                let ghost kept = RemoteTasksView { url: url@, tasks: tasks@ };
                loaded.push(RemoteTasks { url: url.clone(), tasks });
                assert(views(loaded@) =~= had + seq![kept]);
                assert(views(failed@) =~= lost + Seq::empty());
            },
            Err(error) => {
                let ghost dropped = RemoteFailureView { url: url@, error: error@ };
                failed.push(RemoteFailure { url: url.clone(), error });
                assert(views(failed@) =~= lost + seq![dropped]);
                assert(views(loaded@) =~= had + Seq::empty());
            },
        }
        i += 1;
    }
    assert(all.take(i as int) =~= all);
    RemoteJobs { loaded, failed }
}

} // verus!
