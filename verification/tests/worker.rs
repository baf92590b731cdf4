use reddt_ingest::error::FetchError;
use reddt_ingest::reddit_api_client::RedditAPIClient;
use reddt_ingest::reddit_api_task::{RedditAPITask, TaskKind};
use reddt_ingest::reddit_worker::{RedditWorker, WorkerOutput};
use reddt_ingest::request::{authenticated_request, read_response, ApiRequest};
use reddt_ingest::document::Json;

fn worker() -> RedditWorker {
    RedditWorker::new("agent/1.0".to_string())
}

const LISTING: &str = "{\"kind\":\"Listing\",\"data\":{\"children\":[\
    {\"kind\":\"t3\",\"data\":{\"permalink\":\"/r/rust/comments/a1/first/\"}},\
    {\"kind\":\"t3\",\"data\":{\"permalink\":\"/r/rust/comments/b2/second/\"}}]}}";

const THREAD: &str = "[\
    {\"kind\":\"Listing\",\"data\":{\"children\":[{\"kind\":\"t3\",\"data\":{\"title\":\"post\"}}]}},\
    {\"kind\":\"Listing\",\"data\":{\"children\":[\
        {\"kind\":\"t1\",\"data\":{\"body\":\"parent\",\"replies\":{\"data\":{\"children\":[\
            {\"kind\":\"t1\",\"data\":{\"body\":\"child\",\"replies\":\"\"}}]}}}},\
        {\"kind\":\"more\",\"data\":{\"count\":9}}]}}]";

#[test]
fn task_constructors_fill_every_field() {
    let listing = RedditAPITask::listing_fetch("rust", "tok");
    assert_eq!(
        listing,
        RedditAPITask {
            kind: TaskKind::ListingFetch,
            target: "rust".to_string(),
            credential: "tok".to_string(),
        }
    );
    let thread = RedditAPITask::thread_fetch("/r/rust/x?sort=new".to_string(), "tok");
    assert_eq!(
        thread,
        RedditAPITask {
            kind: TaskKind::ThreadFetch,
            target: "/r/rust/x?sort=new".to_string(),
            credential: "tok".to_string(),
        }
    );
}

#[test]
fn fetch_path_depends_on_the_kind() {
    assert_eq!(RedditAPITask::listing_fetch("rust", "t").fetch_path(), "/r/rust");
    assert_eq!(RedditAPITask::thread_fetch("/r/rust/x".to_string(), "t").fetch_path(), "/r/rust/x");
}

#[test]
fn start_asks_for_the_listing_of_a_forum() {
    let request = worker().start(&RedditAPITask::listing_fetch("rust", "tok-1"));
    assert_eq!(
        request,
        ApiRequest {
            url: "https://oauth.reddit.com//r/rust".to_string(),
            bearer_token: "tok-1".to_string(),
            user_agent: "agent/1.0".to_string(),
        }
    );
}

#[test]
fn start_asks_for_a_thread_with_the_credential_of_the_task() {
    let task = RedditAPITask::thread_fetch("/r/rust/comments/a1/first/?sort=new".to_string(), "stale");
    let request = worker().start(&task);
    assert_eq!(request.url, "https://oauth.reddit.com//r/rust/comments/a1/first/?sort=new");
    assert_eq!(request.bearer_token, "stale");
    assert_eq!(request.user_agent, "agent/1.0");
}

#[test]
fn clients_build_the_same_request() {
    let path = "/r/rust".to_string();
    let token = "tok".to_string();
    let expected = ApiRequest {
        url: "https://oauth.reddit.com//r/rust".to_string(),
        bearer_token: "tok".to_string(),
        user_agent: "agent/1.0".to_string(),
    };
    assert_eq!(authenticated_request("agent/1.0", "/r/rust", "tok"), expected);
    assert_eq!(worker().request_with_token(&path, &token), expected);
    let client = RedditAPIClient::new("agent/1.0".to_string());
    assert_eq!(client.request_with_token(&path, &token), expected);
}

#[test]
fn listing_task_expands_into_thread_tasks() {
    let task = RedditAPITask::listing_fetch("rust", "tok");
    let output = worker().finish(&task, Some(LISTING));
    assert_eq!(
        output,
        WorkerOutput::Expanded(vec![
            RedditAPITask::thread_fetch("/r/rust/comments/a1/first/?sort=new".to_string(), "tok"),
            RedditAPITask::thread_fetch("/r/rust/comments/b2/second/?sort=new".to_string(), "tok"),
        ])
    );
}

#[test]
fn thread_task_flattens_into_messages() {
    let task = RedditAPITask::thread_fetch("/r/rust/comments/a1/first/?sort=new".to_string(), "tok");
    let output = worker().finish(&task, Some(THREAD));
    assert_eq!(output, WorkerOutput::Flattened(vec!["parent".to_string(), "child".to_string()]));
}

#[test]
fn no_reply_abandons_the_task() {
    let task = RedditAPITask::listing_fetch("rust", "tok");
    assert_eq!(worker().finish(&task, None), WorkerOutput::Abandoned(FetchError::Transport));
    let thread = RedditAPITask::thread_fetch("/x".to_string(), "tok");
    assert_eq!(worker().finish(&thread, None), WorkerOutput::Abandoned(FetchError::Transport));
}

#[test]
fn a_reply_that_is_no_json_abandons_the_task() {
    let task = RedditAPITask::thread_fetch("/x".to_string(), "tok");
    assert_eq!(
        worker().finish(&task, Some("<html>Too Many Requests</html>")),
        WorkerOutput::Abandoned(FetchError::Syntax)
    );
}

#[test]
fn a_document_of_the_wrong_shape_abandons_the_task() {
    let listing = RedditAPITask::listing_fetch("rust", "tok");
    assert_eq!(worker().finish(&listing, Some(THREAD)), WorkerOutput::Abandoned(FetchError::Shape));
    assert_eq!(
        worker().finish(&listing, Some("{\"error\": 403}")),
        WorkerOutput::Abandoned(FetchError::Shape)
    );
    let thread = RedditAPITask::thread_fetch("/x".to_string(), "tok");
    assert_eq!(worker().finish(&thread, Some(LISTING)), WorkerOutput::Abandoned(FetchError::Shape));
}

#[test]
fn process_goes_by_the_kind_of_the_task() {
    let document = reddt_ingest::document::parse(LISTING).unwrap();
    let listing = RedditAPITask::listing_fetch("rust", "tok");
    assert_eq!(
        worker().process_subreddit(&listing, &document).map(|tasks| tasks.len()),
        Ok(2)
    );
    assert!(matches!(worker().process(&listing, &document), WorkerOutput::Expanded(_)));
    let thread = reddt_ingest::document::parse(THREAD).unwrap();
    assert_eq!(
        worker().process_comments(&thread),
        Ok(vec!["parent".to_string(), "child".to_string()])
    );
    assert_eq!(worker().parse_comment_tree(&Json::Null), Ok(vec![]));
}

#[test]
fn read_response_tells_the_failures_apart() {
    assert_eq!(read_response(None), Err(FetchError::Transport));
    assert_eq!(read_response(Some("not json")), Err(FetchError::Syntax));
    assert_eq!(read_response(Some("[]")), Ok(Json::Array(vec![])));
}
