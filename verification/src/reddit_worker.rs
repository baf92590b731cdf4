//! A worker turns one task into follow-up tasks or into messages.  It says
//! which fetch a task needs, and what the fetched reply amounts to; the
//! caller performs the fetch and passes on what comes out.

use vstd::prelude::*;
use crate::decode::{read_thread_messages, read_thread_paths, thread_messages, thread_paths};
use crate::document::Json;
use crate::error::FetchError;
use crate::listing::texts;
use crate::reddit_api_task::{task_models, thread_task, RedditAPITask, TaskKind, TaskModel};
use crate::reddit_client::{comment_tree, parse_comment_tree};
use crate::request::{
    api_request, authenticated_request, fetch_outcome, read_response, ApiRequest,
};

verus! {

/// One worker of the pool.
#[derive(Clone, Debug, PartialEq, Eq)]
pub struct RedditWorker {
    user_agent: String,
}

/// How a task ended.
#[derive(Debug, PartialEq, Eq)]
pub enum WorkerOutput {
    /// A listing task gave these thread tasks, to be submitted to the
    /// dispatcher.
    Expanded(Vec<RedditAPITask>),
    /// A thread task gave these messages, to be sent to the sink.
    Flattened(Vec<String>),
    /// The task was abandoned; nothing of it is kept or retried.
    Abandoned(FetchError),
}

/// The mathematical value of a [`WorkerOutput`].
pub enum OutputModel {
    Expanded(Seq<TaskModel>),
    Flattened(Seq<Seq<char>>),
    Abandoned(FetchError),
}

impl View for WorkerOutput {
    type V = OutputModel;

    open spec fn view(&self) -> OutputModel {
        match self {
            WorkerOutput::Expanded(tasks) => OutputModel::Expanded(task_models(tasks@)),
            WorkerOutput::Flattened(messages) => OutputModel::Flattened(texts(messages@)),
            WorkerOutput::Abandoned(error) => OutputModel::Abandoned(*error),
        }
    }
}

/// The thread tasks that a forum's listing document gives: one for each
/// story, in document order, each with the listing task's credential.
pub open spec fn expansion(document: Json, credential: Seq<char>) -> Option<Seq<TaskModel>> {
    match thread_paths(document) {
        Some(paths) => Some(paths.map_values(|path: Seq<char>| thread_task(path, credential))),
        None => None,
    }
}

/// What a fetched document amounts to for a task.
pub open spec fn outcome(task: TaskModel, document: Json) -> OutputModel {
    match task.kind {
        TaskKind::ListingFetch => match expansion(document, task.credential) {
            Some(tasks) => OutputModel::Expanded(tasks),
            None => OutputModel::Abandoned(FetchError::Shape),
        },
        TaskKind::ThreadFetch => match thread_messages(document) {
            Some(messages) => OutputModel::Flattened(messages),
            None => OutputModel::Abandoned(FetchError::Shape),
        },
    }
}

/// What the forum's reply amounts to for a task.  `None` for the reply
/// means that no answer came.
pub open spec fn completion(task: TaskModel, reply: Option<Seq<char>>) -> OutputModel {
    match fetch_outcome(reply) {
        Ok(document) => outcome(task, document),
        Err(error) => OutputModel::Abandoned(error),
    }
}

impl RedditWorker {
    /// The user agent that the worker sends.
    pub closed spec fn agent(&self) -> Seq<char> {
        self.user_agent@
    }

    /// A worker that fetches under `user_agent`.
    pub fn new(user_agent: String) -> (worker: RedditWorker)
        ensures
            worker.agent() == user_agent@,
    {
        RedditWorker { user_agent }
    }

    /// Starts on a task: the fetch that the task needs, with the task's own
    /// credential.
    pub fn start(&self, task: &RedditAPITask) -> (request: ApiRequest)
        ensures
            request@ == api_request(self.agent(), task@.fetch_path(), task@.credential),
    {
        let path = task.fetch_path();
        authenticated_request(self.user_agent.as_str(), path.as_str(), task.credential.as_str())
    }

    /// The request that fetches `api_path` with `auth_token`.
    pub fn request_with_token(&self, api_path: &String, auth_token: &String) -> (request:
        ApiRequest)
        ensures
            request@ == api_request(self.agent(), api_path@, auth_token@),
    {
        authenticated_request(self.user_agent.as_str(), api_path.as_str(), auth_token.as_str())
    }

    /// Expands a forum's listing into one thread task for each story.
    pub fn process_subreddit(&self, task: &RedditAPITask, document: &Json) -> (outcome: Result<
        Vec<RedditAPITask>,
        FetchError,
    >)
        ensures
            match outcome {
                Ok(tasks) => expansion(*document, task@.credential) == Some(task_models(tasks@)),
                Err(error) => expansion(*document, task@.credential) is None && error
                    == FetchError::Shape,
            },
    {
        match read_thread_paths(document) {
            Err(error) => Err(error),
            Ok(paths) => {
                let mut tasks: Vec<RedditAPITask> = Vec::new();
                let ghost all = texts(paths@);
                let ghost credential = task@.credential;
                for path in it: paths
                    invariant
                        all == texts(paths@),
                        credential == task@.credential,
                        task_models(tasks@) == all.take(it.index() as int).map_values(
                            |path: Seq<char>| thread_task(path, credential),
                        ),
                {
                    let ghost before = task_models(tasks@);
                    tasks.push(RedditAPITask::thread_fetch(path, task.credential.as_str()));
                    assert(task_models(tasks@) == before.push(
                        thread_task(path@, credential),
                    ));
                    assert(all.take(it.index() + 1) == all.take(it.index() as int).push(
                        path@,
                    ));
                }
                assert(all.take(all.len() as int) == all);
                Ok(tasks)
            },
        }
    }

    /// Flattens a thread document into its messages.
    pub fn process_comments(&self, document: &Json) -> (outcome: Result<Vec<String>, FetchError>)
        ensures
            match outcome {
                Ok(messages) => thread_messages(*document) == Some(texts(messages@)),
                Err(error) => thread_messages(*document) is None && error == FetchError::Shape,
            },
    {
        read_thread_messages(document)
    }

    /// Reads the listing that `entry` holds and flattens it.
    pub fn parse_comment_tree(&self, entry: &Json) -> (outcome: Result<Vec<String>, FetchError>)
        ensures
            match outcome {
                Ok(messages) => comment_tree(*entry) == Some(texts(messages@)),
                Err(error) => comment_tree(*entry) is None && error == FetchError::Shape,
            },
    {
        parse_comment_tree(entry)
    }

    /// Ends a task whose document was fetched.
    pub fn process(&self, task: &RedditAPITask, document: &Json) -> (output: WorkerOutput)
        ensures
            output@ == outcome(task@, *document),
    {
        match task.kind {
            TaskKind::ListingFetch => match self.process_subreddit(task, document) {
                Ok(tasks) => WorkerOutput::Expanded(tasks),
                Err(error) => WorkerOutput::Abandoned(error),
            },
            TaskKind::ThreadFetch => match self.process_comments(document) {
                Ok(messages) => WorkerOutput::Flattened(messages),
                Err(error) => WorkerOutput::Abandoned(error),
            },
        }
    }

    /// Ends a task with the forum's reply: the body, or `None` where no
    /// answer came.  A failure of any kind abandons the task.
    pub fn finish(&self, task: &RedditAPITask, reply: Option<&str>) -> (output: WorkerOutput)
        ensures
            output@ == completion(
                task@,
                match reply {
                    Some(body) => Some(body@),
                    None => None,
                },
            ),
    {
        match read_response(reply) {
            Ok(document) => self.process(task, &document),
            Err(error) => WorkerOutput::Abandoned(error),
        }
    }
}

} // verus!
