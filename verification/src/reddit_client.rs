//! A client that holds its own settings and the credential it obtained.

use vstd::prelude::*;
use crate::config::Config;
use crate::decode::{decode_listing, decoded_listing};
use crate::document::Json;
use crate::error::FetchError;
use crate::listing::{flatten, flattened, texts};
use crate::request::{
    api_request, auth_request, authenticated_request, is_auth_request, ApiRequest, AuthRequest,
    AuthResponse,
};

verus! {

/// A client with its settings and its current access token.
#[derive(Clone, Debug, PartialEq, Eq)]
pub struct RedditClient {
    auth_token: String,
    conf: Config,
}

/// The messages of one listing document: the listing it holds, flattened;
/// `None` where the document is malformed.
pub open spec fn comment_tree(entry: Json) -> Option<Seq<Seq<char>>> {
    match decoded_listing(entry) {
        Some(listing) => Some(flattened(listing)),
        None => None,
    }
}

/// Reads the listing that `entry` holds and flattens it.
pub fn parse_comment_tree(entry: &Json) -> (outcome: Result<Vec<String>, FetchError>)
    ensures
        match outcome {
            Ok(messages) => comment_tree(*entry) == Some(texts(messages@)),
            Err(error) => comment_tree(*entry) is None && error == FetchError::Shape,
        },
{
    match decode_listing(entry) {
        Ok(listing) => Ok(flatten(&listing)),
        Err(error) => Err(error),
    }
}

impl RedditClient {
    /// The token that the client fetches with; empty until one is stored.
    pub closed spec fn token(&self) -> Seq<char> {
        self.auth_token@
    }

    /// The client's settings.
    pub closed spec fn settings(&self) -> Config {
        self.conf
    }

    /// A client with the given settings and no token yet.
    pub fn new(conf: Config) -> (client: RedditClient)
        ensures
            client.settings() == conf,
            client.token() == Seq::<char>::empty(),
    {
        RedditClient { conf, auth_token: String::new() }
    }

    /// The request that obtains a token for this client.
    pub fn auth_request(&self) -> (request: AuthRequest)
        ensures
            is_auth_request(
                request,
                self.settings().client_id@,
                self.settings().client_secret@,
                self.settings().user_agent@,
            ),
    {
        auth_request(
            self.conf.client_id.clone(),
            self.conf.client_secret.clone(),
            self.conf.user_agent.clone(),
        )
    }

    /// Stores the token that the auth provider answered with.
    pub fn store_token(&mut self, response: AuthResponse)
        ensures
            final(self).token() == response.access_token@,
            final(self).settings() == old(self).settings(),
    {
        self.auth_token = response.access_token;
    }

    /// The request that fetches `api_path` with the stored token.
    pub fn request(&self, api_path: &String) -> (request: ApiRequest)
        ensures
            request@ == api_request(self.settings().user_agent@, api_path@, self.token()),
    {
        authenticated_request(
            self.conf.user_agent.as_str(),
            api_path.as_str(),
            self.auth_token.as_str(),
        )
    }

    /// Reads the listing that `entry` holds and flattens it.
    pub fn parse_comment_tree(&self, entry: &Json) -> (outcome: Result<Vec<String>, FetchError>)
        ensures
            match outcome {
                Ok(messages) => comment_tree(*entry) == Some(texts(messages@)),
                Err(error) => comment_tree(*entry) is None && error == FetchError::Shape,
            },
    {
        parse_comment_tree(entry)
    }
}

} // verus!
