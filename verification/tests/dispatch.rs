use reddt_ingest::queue_manager::{pick_worker, queue_manager, WorkerQueue};
use reddt_ingest::reddit_api_task::{RedditAPITask, TaskKind};

fn numbered(count: usize) -> Vec<RedditAPITask> {
    (0..count).map(|i| RedditAPITask::listing_fetch(&format!("forum{}", i), "token")).collect()
}

fn open_queues(count: usize) -> Vec<WorkerQueue> {
    (0..count).map(|_| WorkerQueue { open: true, pending: Vec::new() }).collect()
}

fn index_of(task: &RedditAPITask) -> usize {
    task.target["forum".len()..].parse().unwrap()
}

#[test]
fn pick_worker_stays_in_range() {
    for _ in 0..200 {
        assert!(pick_worker(3) < 3);
    }
    for _ in 0..20 {
        assert_eq!(pick_worker(1), 0);
    }
}

#[test]
fn every_task_reaches_exactly_one_worker() {
    for workers in 1..5 {
        let mut queues = open_queues(workers);
        let dropped = queue_manager(numbered(50), &mut queues, workers);
        assert!(dropped.is_empty());
        assert_eq!(queues.len(), workers);
        let mut times = vec![0usize; 50];
        for queue in &queues {
            assert!(queue.open);
            for task in &queue.pending {
                assert_eq!(task.kind, TaskKind::ListingFetch);
                assert_eq!(task.credential, "token");
                times[index_of(task)] += 1;
            }
        }
        assert_eq!(times, vec![1usize; 50]);
    }
}

#[test]
fn each_queue_keeps_the_order_of_submission() {
    let mut queues = open_queues(3);
    queue_manager(numbered(40), &mut queues, 3);
    for queue in &queues {
        let order: Vec<usize> = queue.pending.iter().map(index_of).collect();
        let mut sorted = order.clone();
        sorted.sort();
        assert_eq!(order, sorted);
    }
}

#[test]
fn delivered_tasks_go_behind_those_that_wait() {
    let waiting = RedditAPITask::thread_fetch("/waiting".to_string(), "old");
    let mut queues = vec![WorkerQueue { open: true, pending: vec![waiting.clone()] }];
    let dropped = queue_manager(numbered(3), &mut queues, 1);
    assert!(dropped.is_empty());
    let mut expected = vec![waiting];
    expected.extend(numbered(3));
    assert_eq!(queues[0].pending, expected);
}

#[test]
fn only_the_first_workers_are_chosen() {
    let mut queues = open_queues(4);
    queue_manager(numbered(60), &mut queues, 2);
    assert_eq!(queues[0].pending.len() + queues[1].pending.len(), 60);
    assert!(queues[2].pending.is_empty());
    assert!(queues[3].pending.is_empty());
}

#[test]
fn a_task_for_a_closed_queue_is_dropped() {
    let mut queues = vec![WorkerQueue { open: false, pending: Vec::new() }];
    let dropped = queue_manager(numbered(4), &mut queues, 1);
    assert_eq!(dropped, numbered(4));
    assert!(queues[0].pending.is_empty());
    assert!(!queues[0].open);
}

#[test]
fn a_dropped_task_is_not_given_to_another_worker() {
    let mut queues = open_queues(3);
    queues[1].open = false;
    let dropped = queue_manager(numbered(90), &mut queues, 3);
    assert!(queues[1].pending.is_empty());
    let delivered = queues[0].pending.len() + queues[2].pending.len();
    assert_eq!(delivered + dropped.len(), 90);
    let mut times = vec![0usize; 90];
    for task in queues[0].pending.iter().chain(&queues[2].pending).chain(&dropped) {
        times[index_of(task)] += 1;
    }
    assert_eq!(times, vec![1usize; 90]);
}

#[test]
fn no_submission_changes_nothing() {
    let mut queues = open_queues(2);
    let dropped = queue_manager(Vec::new(), &mut queues, 2);
    assert!(dropped.is_empty());
    assert_eq!(queues, open_queues(2));
}
