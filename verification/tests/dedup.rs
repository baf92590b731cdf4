use reddt_ingest::dedup::{record, Deduplicator};

fn strings(items: &[&str]) -> Vec<String> {
    items.iter().map(|s| s.to_string()).collect()
}

#[test]
fn sink_forwards_first_occurrences_only() {
    let mut filter = Deduplicator::new();
    let mut out = Vec::new();
    for message in ["a", "b", "a", "c"] {
        if filter.observe(message) {
            out.push(message.to_string());
        }
    }
    assert_eq!(out, strings(&["a", "b", "c"]));
}

#[test]
fn batch_forwards_first_occurrences_in_order() {
    let mut filter = Deduplicator::new();
    assert_eq!(filter.forward(strings(&["a", "b", "a", "c"])), strings(&["a", "b", "c"]));
    assert_eq!(filter.forward(strings(&["c", "d", "a", "d"])), strings(&["d"]));
    assert_eq!(filter.forward(vec![]), Vec::<String>::new());
}

#[test]
fn observe_tells_new_from_seen() {
    let mut filter = Deduplicator::new();
    assert!(!filter.contains("x"));
    assert!(filter.observe("x"));
    assert!(filter.contains("x"));
    assert!(!filter.observe("x"));
    assert!(filter.observe("X"));
    assert!(filter.observe("x "));
    assert!(filter.observe(""));
    assert!(!filter.observe(""));
}

#[test]
fn a_new_filter_has_seen_nothing() {
    let mut first = Deduplicator::new();
    assert!(first.observe("kept only in memory"));
    let mut restarted = Deduplicator::new();
    assert!(!restarted.contains("kept only in memory"));
    assert!(restarted.observe("kept only in memory"));
}

#[test]
fn record_is_the_message_and_a_newline() {
    assert_eq!(record("hello"), "hello\n");
    assert_eq!(record(""), "\n");
    assert_eq!(record("two\nlines"), "two\nlines\n");
}
