//! A client that fetches from the forum's API with a token it is handed.

use vstd::prelude::*;
use crate::request::{api_request, authenticated_request, ApiRequest};

verus! {

/// A client that knows under which user agent to fetch.
#[derive(Clone, Debug, PartialEq, Eq)]
pub struct RedditAPIClient {
    user_agent: String,
}

impl RedditAPIClient {
    /// The user agent that the client sends.
    pub closed spec fn agent(&self) -> Seq<char> {
        self.user_agent@
    }

    /// A client that fetches under `user_agent`.
    pub fn new(user_agent: String) -> (client: RedditAPIClient)
        ensures
            client.agent() == user_agent@,
    {
        RedditAPIClient { user_agent }
    }

    /// The request that fetches `api_path` with `auth_token`.
    pub fn request_with_token(&self, api_path: &String, auth_token: &String) -> (request:
        ApiRequest)
        ensures
            request@ == api_request(self.agent(), api_path@, auth_token@),
    {
        authenticated_request(self.user_agent.as_str(), api_path.as_str(), auth_token.as_str())
    }
}

} // verus!
