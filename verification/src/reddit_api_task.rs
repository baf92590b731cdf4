//! The unit of work that travels from the scheduler through the dispatcher
//! to a worker.

use vstd::prelude::*;

verus! {

/// What a task asks a worker to fetch.
#[derive(Clone, Copy, Debug, PartialEq, Eq, Structural)]
pub enum TaskKind {
    /// The listing of one forum; the target is the forum's name.
    ListingFetch,
    /// One thread with its replies; the target is the fetch path.
    ThreadFetch,
}

/// A unit of work.  The credential is the access token that was valid when
/// the task was made; it is copied in and never refreshed.
#[derive(Clone, Debug, PartialEq, Eq)]
pub struct RedditAPITask {
    pub kind: TaskKind,
    pub target: String,
    pub credential: String,
}

/// The mathematical value of a task.
pub struct TaskModel {
    pub kind: TaskKind,
    pub target: Seq<char>,
    pub credential: Seq<char>,
}

impl View for RedditAPITask {
    type V = TaskModel;

    open spec fn view(&self) -> TaskModel {
        TaskModel { kind: self.kind, target: self.target@, credential: self.credential@ }
    }
}

/// The values of a sequence of tasks.
pub open spec fn task_models(tasks: Seq<RedditAPITask>) -> Seq<TaskModel> {
    tasks.map_values(|task: RedditAPITask| task@)
}

/// The listing task of one forum.
pub open spec fn listing_task(forum: Seq<char>, credential: Seq<char>) -> TaskModel {
    TaskModel { kind: TaskKind::ListingFetch, target: forum, credential }
}

/// The thread task of one fetch path.
pub open spec fn thread_task(path: Seq<char>, credential: Seq<char>) -> TaskModel {
    TaskModel { kind: TaskKind::ThreadFetch, target: path, credential }
}

impl TaskModel {
    /// The path that a worker fetches for the task: `/r/` and the forum's
    /// name for a listing, the target itself for a thread.
    pub open spec fn fetch_path(self) -> Seq<char> {
        match self.kind {
            TaskKind::ListingFetch => "/r/"@ + self.target,
            TaskKind::ThreadFetch => self.target,
        }
    }
}

impl RedditAPITask {
    /// A task that fetches the listing of `forum`.
    pub fn listing_fetch(forum: &str, credential: &str) -> (task: RedditAPITask)
        ensures
            task@ == listing_task(forum@, credential@),
    {
        RedditAPITask {
            kind: TaskKind::ListingFetch,
            target: forum.to_owned(),
            credential: credential.to_owned(),
        }
    }

    /// A task that fetches the thread at `path`.
    pub fn thread_fetch(path: String, credential: &str) -> (task: RedditAPITask)
        ensures
            task@ == thread_task(path@, credential@),
    {
        RedditAPITask { kind: TaskKind::ThreadFetch, target: path, credential: credential.to_owned() }
    }

    /// The path that a worker fetches for it.
    pub fn fetch_path(&self) -> (path: String)
        ensures
            path@ == self@.fetch_path(),
    {
        match self.kind {
            TaskKind::ListingFetch => "/r/".to_owned().concat(self.target.as_str()),
            TaskKind::ThreadFetch => self.target.clone(),
        }
    }
}

} // verus!
