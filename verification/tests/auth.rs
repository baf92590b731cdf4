use reddt_ingest::config::Config;
use reddt_ingest::document::{parse, Json};
use reddt_ingest::error::AuthError;
use reddt_ingest::reddit_client::RedditClient;
use reddt_ingest::request::{
    auth_request, read_auth_response, read_token, ApiRequest, AuthRequest, AuthResponse, FormField,
};
use reddt_ingest::scheduler::{run_cycle, start_recurring_queries, POLL_INTERVAL_MILLIS};
use reddt_ingest::reddit_api_task::RedditAPITask;

fn config(num_workers: i32) -> Config {
    Config {
        client_id: "id".to_string(),
        client_secret: "secret".to_string(),
        username: "someone".to_string(),
        user_agent: "agent/1.0".to_string(),
        num_workers,
        subreddits: vec!["rust".to_string(), "programming".to_string()],
        slack_webhooks: vec![],
    }
}

fn expected_auth_request() -> AuthRequest {
    AuthRequest {
        endpoint: "https://www.reddit.com/api/v1/access_token".to_string(),
        username: "id".to_string(),
        password: "secret".to_string(),
        user_agent: "agent/1.0".to_string(),
        form: vec![
            FormField { name: "grant_type".to_string(), value: "client_credentials".to_string() },
            FormField { name: "device_id".to_string(), value: "1".to_string() },
        ],
    }
}

#[test]
fn auth_request_posts_the_client_credentials() {
    let request = auth_request("id".to_string(), "secret".to_string(), "agent/1.0".to_string());
    assert_eq!(request, expected_auth_request());
}

#[test]
fn auth_response_gives_the_token() {
    let body = "{\"access_token\": \"abc123\", \"token_type\": \"bearer\", \"expires_in\": 3600}";
    assert_eq!(
        read_auth_response(Some((200, body))),
        Ok(AuthResponse { access_token: "abc123".to_string() })
    );
    assert_eq!(
        read_auth_response(Some((299, body))),
        Ok(AuthResponse { access_token: "abc123".to_string() })
    );
}

#[test]
fn auth_fails_without_an_answer() {
    assert_eq!(read_auth_response(None), Err(AuthError::Transport));
}

#[test]
fn auth_fails_on_a_status_that_is_no_success() {
    let body = "{\"access_token\": \"abc123\"}";
    assert_eq!(read_auth_response(Some((401, body))), Err(AuthError::Status(401)));
    assert_eq!(read_auth_response(Some((199, body))), Err(AuthError::Status(199)));
    assert_eq!(read_auth_response(Some((300, body))), Err(AuthError::Status(300)));
    assert_eq!(read_auth_response(Some((500, "oops"))), Err(AuthError::Status(500)));
}

#[test]
fn auth_fails_on_a_malformed_answer() {
    assert_eq!(read_auth_response(Some((200, "not json"))), Err(AuthError::Malformed));
    assert_eq!(read_auth_response(Some((200, "{}"))), Err(AuthError::Malformed));
    assert_eq!(read_auth_response(Some((200, "{\"access_token\": 5}"))), Err(AuthError::Malformed));
    assert_eq!(read_auth_response(Some((200, "[\"abc\"]"))), Err(AuthError::Malformed));
    assert_eq!(read_token(&Json::Null), Err(AuthError::Malformed));
    assert_eq!(
        read_token(&parse("{\"access_token\": \"t\"}").unwrap()),
        Ok(AuthResponse { access_token: "t".to_string() })
    );
}

#[test]
fn client_starts_without_a_token_and_keeps_the_one_it_stores() {
    let mut client = RedditClient::new(config(2));
    assert_eq!(client.auth_request(), expected_auth_request());
    assert_eq!(
        client.request(&"/r/rust".to_string()),
        ApiRequest {
            url: "https://oauth.reddit.com//r/rust".to_string(),
            bearer_token: String::new(),
            user_agent: "agent/1.0".to_string(),
        }
    );
    client.store_token(AuthResponse { access_token: "fresh".to_string() });
    assert_eq!(
        client.request(&"/r/rust".to_string()),
        ApiRequest {
            url: "https://oauth.reddit.com//r/rust".to_string(),
            bearer_token: "fresh".to_string(),
            user_agent: "agent/1.0".to_string(),
        }
    );
    assert_eq!(client.parse_comment_tree(&Json::Null), Ok(vec![]));
}

#[test]
fn worker_count_needs_at_least_one_worker() {
    assert_eq!(config(4).worker_count(), Some(4));
    assert_eq!(config(1).worker_count(), Some(1));
    assert_eq!(config(0).worker_count(), None);
    assert_eq!(config(-3).worker_count(), None);
    assert_eq!(config(i32::MAX).worker_count(), Some(2147483647));
}

#[test]
fn a_cycle_submits_one_listing_task_for_each_forum() {
    let forums = vec!["rust".to_string(), "programming".to_string()];
    assert_eq!(
        start_recurring_queries(&forums, "tok"),
        vec![
            RedditAPITask::listing_fetch("rust", "tok"),
            RedditAPITask::listing_fetch("programming", "tok"),
        ]
    );
    assert_eq!(start_recurring_queries(&Vec::new(), "tok"), Vec::new());
}

#[test]
fn cycles_are_ten_seconds_apart() {
    assert_eq!(POLL_INTERVAL_MILLIS, 10000);
}

#[test]
fn a_cycle_carries_the_token_of_its_answer() {
    let forums = vec!["rust".to_string(), "programming".to_string()];
    assert_eq!(
        run_cycle(&forums, Some((200, "{\"access_token\": \"fresh\"}"))),
        Ok(vec![
            RedditAPITask::listing_fetch("rust", "fresh"),
            RedditAPITask::listing_fetch("programming", "fresh"),
        ])
    );
}

#[test]
fn a_cycle_without_a_credential_submits_nothing() {
    let forums = vec!["rust".to_string()];
    assert_eq!(run_cycle(&forums, None), Err(AuthError::Transport));
    assert_eq!(run_cycle(&forums, Some((403, "{}"))), Err(AuthError::Status(403)));
    assert_eq!(run_cycle(&forums, Some((200, "{}"))), Err(AuthError::Malformed));
}
