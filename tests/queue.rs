use stash_scoring::task_queue::{Poll, TaskClient, TaskQueue};

fn item(p: Poll) -> Option<String> {
    match p {
        Poll::Item(s) => Some(s),
        _ => None,
    }
}

#[test]
fn workloads_come_out_in_order() {
    let mut q = TaskQueue::new();
    q.add_workload("a".to_string());
    q.add_workload("b".to_string());
    q.add_workload("c".to_string());
    assert_eq!(q.query_workload(), Some("a".to_string()));
    assert_eq!(q.query_workload(), Some("b".to_string()));
    q.add_workload("d".to_string());
    assert_eq!(q.query_workload(), Some("c".to_string()));
    assert_eq!(q.query_workload(), Some("d".to_string()));
    assert_eq!(q.query_workload(), None);
}

#[test]
fn responses_come_out_in_order() {
    let mut q = TaskQueue::default();
    assert_eq!(q.query_response(), None);
    q.add_response("x 1\n".to_string());
    q.add_response("y 2\n".to_string());
    assert_eq!(q.query_response(), Some("x 1\n".to_string()));
    assert_eq!(q.query_response(), Some("y 2\n".to_string()));
    assert_eq!(q.query_response(), None);
}

#[test]
fn stop_twice_stays_finished() {
    let mut q = TaskQueue::new();
    assert!(!q.is_workload_finished());
    q.stop_workload();
    q.stop_workload();
    assert!(q.is_workload_finished());
}

#[test]
fn worker_count() {
    let mut q = TaskQueue::new();
    assert!(q.no_active_workers());
    q.add_worker();
    q.add_worker();
    assert_eq!(q.worker_count(), 2);
    q.remove_worker();
    assert!(!q.no_active_workers());
    q.remove_worker();
    assert!(q.no_active_workers());
}

#[test]
fn worker_poll_waits_until_finished() {
    let mut q = TaskQueue::new();
    assert!(matches!(q.poll_workload(), Poll::Wait));
    q.add_workload("w".to_string());
    q.stop_workload();
    assert_eq!(item(q.poll_workload()), Some("w".to_string()));
    assert!(matches!(q.poll_workload(), Poll::Exhausted));
}

#[test]
fn client_poll_drains_until_no_workers() {
    let mut q = TaskQueue::new();
    q.add_worker();
    q.stop_workload();
    assert!(matches!(q.poll_response(false), Poll::Exhausted));
    assert!(matches!(q.poll_response(true), Poll::Wait));
    q.add_response("r\n".to_string());
    q.remove_worker();
    assert_eq!(item(q.poll_response(true)), Some("r\n".to_string()));
    assert!(matches!(q.poll_response(true), Poll::Exhausted));
}

#[test]
fn shared_queue_round_trip() {
    let mut client = TaskClient::new();
    let shared = client.queue_ref().clone();
    shared.add_worker();
    client.add_workload("p 0.5\n".to_string());
    client.add_workload("q 1\n".to_string());
    client.stop_workload();
    assert!(matches!(client.poll_response(true), Poll::Wait));
    assert_eq!(item(shared.poll_workload()), Some("p 0.5\n".to_string()));
    shared.add_response("p 0.5 3\n".to_string());
    assert_eq!(item(shared.poll_workload()), Some("q 1\n".to_string()));
    assert!(matches!(shared.poll_workload(), Poll::Exhausted));
    shared.add_response("q 1 -7\n".to_string());
    shared.remove_worker();
    assert_eq!(item(client.poll_response(true)), Some("p 0.5 3\n".to_string()));
    assert_eq!(item(client.poll_response(true)), Some("q 1 -7\n".to_string()));
    assert!(matches!(client.poll_response(true), Poll::Exhausted));
}

#[test]
fn shared_queue_many_workloads() {
    let mut client = TaskClient::default();
    let shared = client.queue_ref().clone();
    shared.add_worker();
    shared.add_worker();
    for i in 0..20 {
        client.add_workload(format!("w{}", i));
    }
    client.stop_workload();
    let mut got = Vec::new();
    loop {
        match shared.poll_workload() {
            Poll::Item(w) => shared.add_response(format!("{} done", w)),
            Poll::Exhausted => break,
            Poll::Wait => panic!("finished queue must not ask to wait"),
        }
        if let Poll::Item(r) = client.poll_response(false) {
            got.push(r);
        }
    }
    shared.remove_worker();
    shared.remove_worker();
    shared.remove_worker();
    loop {
        match client.poll_response(true) {
            Poll::Item(r) => got.push(r),
            Poll::Exhausted => break,
            Poll::Wait => panic!("no worker is left"),
        }
    }
    assert_eq!(got.len(), 20);
    for (i, r) in got.iter().enumerate() {
        assert_eq!(r, &format!("w{} done", i));
    }
}
