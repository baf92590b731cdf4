//! The settings that the pipeline is started with.

use vstd::prelude::*;

verus! {

/// The pipeline's settings, as the configuration file gives them.
#[derive(Clone, Debug, PartialEq, Eq)]
pub struct Config {
    pub client_id: String,
    pub client_secret: String,
    pub username: String,
    pub user_agent: String,
    pub num_workers: i32,
    pub subreddits: Vec<String>,
    pub slack_webhooks: Vec<String>,
}

impl Config {
    /// The size of the worker pool, where the settings ask for at least one
    /// worker; `None` where they ask for none.
    pub fn worker_count(&self) -> (count: Option<usize>)
        ensures
            self.num_workers >= 1 ==> count == Some(self.num_workers as usize),
            self.num_workers < 1 ==> count is None,
    {
        if self.num_workers >= 1 {
            Some(self.num_workers as usize)
        } else {
            None
        }
    }
}

} // verus!
