//! The recurring scheduler: every cycle it obtains a fresh credential and
//! submits one listing task for each configured forum, with the credential
//! of that cycle.  Without a credential the cycle submits nothing.

use vstd::prelude::*;
use crate::error::AuthError;
use crate::listing::texts;
use crate::reddit_api_task::{listing_task, task_models, RedditAPITask, TaskModel};
use crate::request::{auth_outcome, read_auth_response};

verus! {

/// The pause between two cycles, in milliseconds.
pub const POLL_INTERVAL_MILLIS: u64 = 10000;

/// The tasks of one cycle: a listing task for each forum, in the order of
/// the settings.
pub open spec fn cycle_tasks(forums: Seq<Seq<char>>, credential: Seq<char>) -> Seq<TaskModel> {
    forums.map_values(|forum: Seq<char>| listing_task(forum, credential))
}

/// The tasks to submit in one cycle.  The caller obtains the credential
/// first, submits the tasks, pauses, and starts over.
pub fn start_recurring_queries(subreddits: &Vec<String>, auth_token: &str) -> (tasks: Vec<
    RedditAPITask,
>)
    ensures
        task_models(tasks@) == cycle_tasks(texts(subreddits@), auth_token@),
{
    let mut tasks: Vec<RedditAPITask> = Vec::new();
    let mut i: usize = 0;
    while i < subreddits.len()
        invariant
            i <= subreddits.len(),
            task_models(tasks@) == cycle_tasks(texts(subreddits@).take(i as int), auth_token@),
        decreases subreddits.len() - i,
    {
        let ghost before = task_models(tasks@);
        tasks.push(RedditAPITask::listing_fetch(subreddits[i].as_str(), auth_token));
        assert(task_models(tasks@) == before.push(listing_task(subreddits[i as int]@, auth_token@)));
        assert(texts(subreddits@).take(i + 1) == texts(subreddits@).take(i as int).push(
            subreddits[i as int]@,
        ));
        i += 1;
    }
    assert(texts(subreddits@).take(i as int) == texts(subreddits@));
    tasks
}

/// What a cycle submits, given the auth provider's answer: the cycle's
/// tasks with the token of the answer, or the failure, and then nothing.
pub open spec fn cycle_outcome(forums: Seq<Seq<char>>, reply: Option<(u16, Seq<char>)>) -> Result<
    Seq<TaskModel>,
    AuthError,
> {
    match auth_outcome(reply) {
        Ok(token) => Ok(cycle_tasks(forums, token)),
        Err(error) => Err(error),
    }
}

/// The outcome of a cycle, with the tasks as values.
pub open spec fn cycle_result(outcome: Result<Vec<RedditAPITask>, AuthError>) -> Result<
    Seq<TaskModel>,
    AuthError,
> {
    match outcome {
        Ok(tasks) => Ok(task_models(tasks@)),
        Err(error) => Err(error),
    }
}

/// One cycle, from the auth provider's answer: the status and the body, or
/// `None` where no answer came.
pub fn run_cycle(subreddits: &Vec<String>, reply: Option<(u16, &str)>) -> (outcome: Result<
    Vec<RedditAPITask>,
    AuthError,
>)
    ensures
        cycle_result(outcome) == cycle_outcome(
            texts(subreddits@),
            match reply {
                Some((status, body)) => Some((status, body@)),
                None => None,
            },
        ),
{
    match read_auth_response(reply) {
        Ok(response) => Ok(start_recurring_queries(subreddits, response.access_token.as_str())),
        Err(error) => Err(error),
    }
}

} // verus!
