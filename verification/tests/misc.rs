use monoio::runtime::{after_polling, AfterPolling, DrainRound};
use monoio::thread_id::{generateThreadId, new_thread_id_generator, FIRST_GENERATED_THREAD_ID};
use monoio::ucred::UCred;

#[test]
fn drain_round_runs_twice_the_queue_after_the_first_task() {
    let mut round = DrainRound::new(3);
    let mut more = 0;
    while round.after_task() {
        more += 1;
    }
    assert_eq!(more, 6);
    let mut empty = DrainRound::new(0);
    assert!(!empty.after_task());
}

#[test]
fn park_only_without_queued_tasks() {
    assert_eq!(after_polling(0), AfterPolling::Park);
    assert_eq!(after_polling(2), AfterPolling::Submit);
}

#[test]
fn thread_ids_start_at_sixteen() {
    let generator = new_thread_id_generator();
    assert_eq!(generateThreadId(&generator), FIRST_GENERATED_THREAD_ID);
    assert_eq!(generateThreadId(&generator), 17);
}

#[test]
fn peer_credentials() {
    let cred = UCred::from_peer_cred(0, 12, 12, 42, 1000, 100).unwrap();
    assert_eq!(cred.pid(), Some(42));
    assert_eq!(cred.uid(), 1000);
    assert_eq!(cred.gid(), 100);
    assert!(UCred::from_peer_cred(-1, 12, 12, 42, 1000, 100).is_none());
    assert!(UCred::from_peer_cred(0, 8, 12, 42, 1000, 100).is_none());
}

#[test]
fn close_does_not_wait_for_readiness() {
    let mut op = monoio::close::Close::new(7);
    assert_eq!(op.fd(), 7);
    assert!(op.legacy_interest().is_none());
    let entry = op.uring_op();
    let shown = format!("{:?}", entry);
    assert!(shown.contains("op_code: 19"), "{}", shown);
    assert!(shown.contains("user_data: 0"), "{}", shown);
    assert_eq!(op.fd(), 7);
}
