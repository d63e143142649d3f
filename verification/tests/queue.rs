use website_checker::queue::JobQueue;

fn targets(urls: &[&str]) -> Vec<String> {
    urls.iter().map(|u| u.to_string()).collect()
}

#[test]
fn queue_hands_out_the_targets_in_their_order() {
    let list = targets(&["http://a.test", "http://b.test", "http://c.test"]);
    let mut queue = JobQueue::from_targets(&list);
    assert_eq!(queue.len(), 3);
    assert!(!queue.is_empty());
    assert_eq!(queue.pop().as_deref(), Some("http://a.test"));
    assert_eq!(queue.pop().as_deref(), Some("http://b.test"));
    assert_eq!(queue.len(), 1);
    assert_eq!(queue.pop().as_deref(), Some("http://c.test"));
    assert!(queue.is_empty());
}

#[test]
fn empty_queue_stays_empty() {
    let mut queue = JobQueue::from_targets(&Vec::new());
    assert!(queue.is_empty());
    assert_eq!(queue.pop(), None);
    assert_eq!(queue.pop(), None);
    assert_eq!(queue.len(), 0);
}

#[test]
fn every_target_is_handed_out_once() {
    let list = targets(&["u1", "u2", "u3", "u4", "u5"]);
    let mut queue = JobQueue::from_targets(&list);
    let mut taken = Vec::new();
    while let Some(url) = queue.pop() {
        taken.push(url);
    }
    assert_eq!(taken, list);
    assert_eq!(queue.pop(), None);
}

#[test]
fn targets_are_left_for_the_next_round() {
    let list = targets(&["http://a.test", "http://b.test"]);
    let mut first = JobQueue::from_targets(&list);
    while first.pop().is_some() {}
    let mut second = JobQueue::from_targets(&list);
    assert_eq!(second.len(), 2);
    assert_eq!(second.pop().as_deref(), Some("http://a.test"));
}
