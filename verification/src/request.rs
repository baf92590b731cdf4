//! The requests that the pipeline asks its transport to perform.  The
//! library says what to send; sending is the caller's part.

use vstd::prelude::*;
use vstd::string::StringExecFns;
use crate::document::{parsed_document, parse, Json};
use crate::error::{AuthError, FetchError};

verus! {

/// One field of a form body.
#[derive(Clone, Debug, PartialEq, Eq)]
pub struct FormField {
    pub name: String,
    pub value: String,
}

/// The request for a fresh access credential: a form posted to `endpoint`
/// under basic authentication.
#[derive(Clone, Debug, PartialEq, Eq)]
pub struct AuthRequest {
    pub endpoint: String,
    pub username: String,
    pub password: String,
    pub user_agent: String,
    pub form: Vec<FormField>,
}

/// What the auth provider answers.
#[derive(Clone, Debug, PartialEq, Eq)]
pub struct AuthResponse {
    pub access_token: String,
}

/// A fetch from the forum: a GET of `url` with a bearer token.
#[derive(Clone, Debug, PartialEq, Eq)]
pub struct ApiRequest {
    pub url: String,
    pub bearer_token: String,
    pub user_agent: String,
}

/// The mathematical value of an [`ApiRequest`].
pub struct ApiRequestModel {
    pub url: Seq<char>,
    pub bearer_token: Seq<char>,
    pub user_agent: Seq<char>,
}

impl View for ApiRequest {
    type V = ApiRequestModel;

    open spec fn view(&self) -> ApiRequestModel {
        ApiRequestModel {
            url: self.url@,
            bearer_token: self.bearer_token@,
            user_agent: self.user_agent@,
        }
    }
}

/// The fetch of `api_path` below the forum's API root.
pub open spec fn api_request(
    user_agent: Seq<char>,
    api_path: Seq<char>,
    auth_token: Seq<char>,
) -> ApiRequestModel {
    ApiRequestModel {
        url: "https://oauth.reddit.com/"@ + api_path,
        bearer_token: auth_token,
        user_agent,
    }
}

/// Whether `request` asks for a credential for the given client: the
/// provider's endpoint, the client's id and secret as basic credentials,
/// and the two form fields `grant_type` and `device_id`.
pub open spec fn is_auth_request(
    request: AuthRequest,
    client_id: Seq<char>,
    client_secret: Seq<char>,
    user_agent: Seq<char>,
) -> bool {
    &&& request.endpoint@ == "https://www.reddit.com/api/v1/access_token"@
    &&& request.username@ == client_id
    &&& request.password@ == client_secret
    &&& request.user_agent@ == user_agent
    &&& request.form@.len() == 2
    &&& request.form@[0].name@ == "grant_type"@
    &&& request.form@[0].value@ == "client_credentials"@
    &&& request.form@[1].name@ == "device_id"@
    &&& request.form@[1].value@ == "1"@
}

/// Whether a status code reports success.
pub open spec fn is_success(status: u16) -> bool {
    200 <= status <= 299
}

/// The access token in the provider's answer: the string member
/// `access_token` of the answer's document.
pub open spec fn token_of(document: Json) -> Option<Seq<char>> {
    match document.member("access_token"@) {
        Json::Text(token) => Some(token@),
        _ => None,
    }
}

/// What an answer of the auth provider amounts to.  `None` for the reply
/// means that no answer came.
pub open spec fn auth_outcome(reply: Option<(u16, Seq<char>)>) -> Result<Seq<char>, AuthError> {
    match reply {
        None => Err(AuthError::Transport),
        Some((status, body)) => if !is_success(status) {
            Err(AuthError::Status(status))
        } else {
            match parsed_document(body) {
                None => Err(AuthError::Malformed),
                Some(document) => match token_of(document) {
                    None => Err(AuthError::Malformed),
                    Some(token) => Ok(token),
                },
            }
        },
    }
}

/// What a reply of the forum amounts to.  `None` for the reply means that
/// no answer came.
pub open spec fn fetch_outcome(reply: Option<Seq<char>>) -> Result<Json, FetchError> {
    match reply {
        None => Err(FetchError::Transport),
        Some(body) => match parsed_document(body) {
            None => Err(FetchError::Syntax),
            Some(document) => Ok(document),
        },
    }
}

/// The request for a fresh access credential.
pub fn auth_request(client_id: String, client_secret: String, user_agent: String) -> (request:
    AuthRequest)
    ensures
        is_auth_request(request, client_id@, client_secret@, user_agent@),
{
    let mut form: Vec<FormField> = Vec::new();
    form.push(
        FormField { name: "grant_type".to_owned(), value: "client_credentials".to_owned() },
    );
    form.push(FormField { name: "device_id".to_owned(), value: "1".to_owned() });
    AuthRequest {
        endpoint: "https://www.reddit.com/api/v1/access_token".to_owned(),
        username: client_id,
        password: client_secret,
        user_agent,
        form,
    }
}

/// Reads the access token out of the provider's answer document.
pub fn read_token(document: &Json) -> (outcome: Result<AuthResponse, AuthError>)
    ensures
        token_result(outcome) == (match token_of(*document) {
            Some(token) => Ok(token),
            None => Err(AuthError::Malformed),
        }),
{
    match document.get("access_token") {
        Json::Text(token) => Ok(AuthResponse { access_token: token.clone() }),
        _ => Err(AuthError::Malformed),
    }
}

/// The outcome of reading a token, with the token as text.
pub open spec fn token_result(outcome: Result<AuthResponse, AuthError>) -> Result<
    Seq<char>,
    AuthError,
> {
    match outcome {
        Ok(response) => Ok(response.access_token@),
        Err(error) => Err(error),
    }
}

/// Reads the provider's answer: the status and the body, or `None` where
/// no answer came.
pub fn read_auth_response(reply: Option<(u16, &str)>) -> (outcome: Result<
    AuthResponse,
    AuthError,
>)
    ensures
        token_result(outcome) == auth_outcome(
            match reply {
                Some((status, body)) => Some((status, body@)),
                None => None,
            },
        ),
{
    match reply {
        None => Err(AuthError::Transport),
        Some((status, body)) => {
            if status < 200 || status > 299 {
                return Err(AuthError::Status(status));
            }
            match parse(body) {
                None => Err(AuthError::Malformed),
                Some(document) => read_token(&document),
            }
        },
    }
}

/// The fetch of `api_path` with the given token.
pub fn authenticated_request(user_agent: &str, api_path: &str, auth_token: &str) -> (request:
    ApiRequest)
    ensures
        request@ == api_request(user_agent@, api_path@, auth_token@),
{
    ApiRequest {
        url: "https://oauth.reddit.com/".to_owned().concat(api_path),
        bearer_token: auth_token.to_owned(),
        user_agent: user_agent.to_owned(),
    }
}

/// Reads the forum's reply: the body, or `None` where no answer came.
pub fn read_response(reply: Option<&str>) -> (outcome: Result<Json, FetchError>)
    ensures
        outcome == fetch_outcome(
            match reply {
                Some(body) => Some(body@),
                None => None,
            },
        ),
{
    match reply {
        None => Err(FetchError::Transport),
        Some(body) => match parse(body) {
            None => Err(FetchError::Syntax),
            Some(document) => Ok(document),
        },
    }
}

} // verus!
