use monoio::state::{StateSnapshot, TransitionToIdle, TransitionToNotified, INITIAL_STATE};
use monoio::task::{
    can_read_output, complete, drop_join_handle, drop_reference, finish, is_remote_task, poll,
    poll_inner, wake_by_ref, wake_by_val, CompleteAction, Header, JoinHandle, PollAction,
    PollFuture, ReadOutput, WakeAction,
};
use std::rc::Rc;

#[test]
fn initial_state() {
    let s = StateSnapshot::initial();
    assert_eq!(s.0, INITIAL_STATE);
    assert!(!s.is_running());
    assert!(!s.is_complete());
    assert!(s.is_notified());
    assert!(s.is_idle());
    assert!(s.is_join_interested());
    assert!(!s.has_join_waker());
    assert_eq!(s.ref_count(), 2);
}

#[test]
fn running_then_idle() {
    let s = StateSnapshot::initial().transition_to_running();
    assert!(s.is_running());
    assert!(!s.is_notified());
    let (idle, res) = s.transition_to_idle();
    assert_eq!(res, TransitionToIdle::OkIdle);
    assert!(idle.is_idle());
    assert_eq!(idle.ref_count(), 2);
}

#[test]
fn woken_while_running_is_polled_again() {
    let running = StateSnapshot::initial().transition_to_running();
    let (woken, res) = running.transition_to_notified();
    assert_eq!(res, TransitionToNotified::DoNothing);
    let (idle, polled) = poll_inner(woken, false);
    assert_eq!(polled, PollFuture::Notified);
    assert!(!idle.is_notified());
    let (again, action) = poll(woken, false);
    assert_eq!(action, PollAction::Reschedule);
    assert_eq!(again.ref_count(), 3);
}

#[test]
fn finished_future_completes_the_task() {
    let running = StateSnapshot::initial().transition_to_running();
    let (done, action) = poll(running, true);
    assert_eq!(action, PollAction::Completed(CompleteAction::Nothing));
    assert!(done.is_complete());
    assert!(!done.is_running());
    let (_, polled) = poll_inner(running, true);
    assert_eq!(polled, PollFuture::Complete);
}

#[test]
fn complete_without_join_interest_drops_output() {
    let s = StateSnapshot::initial().unset_join_interested().unwrap().transition_to_running();
    let (done, action) = complete(s);
    assert_eq!(action, CompleteAction::DropOutput);
    assert!(done.is_complete());
    let (_, finished) = finish(StateSnapshot::initial().set_join_waker().unwrap());
    assert_eq!(finished, CompleteAction::WakeJoinHandle);
}

#[test]
fn remote_tasks() {
    assert!(is_remote_task(0, Some(0)));
    assert!(!is_remote_task(20, Some(20)));
    assert!(is_remote_task(20, Some(21)));
    assert!(is_remote_task(20, None));
}

#[test]
fn wake_idle_task_on_its_thread() {
    let (idle, _) = StateSnapshot::initial().transition_to_running().transition_to_idle();
    let (after, action) = wake_by_ref(idle, false);
    assert_eq!(action, WakeAction::Schedule);
    assert_eq!(after.ref_count(), 3);
    assert!(after.is_notified());
    let (after, action) = wake_by_val(idle, false);
    assert_eq!(action, WakeAction::Schedule);
    assert_eq!(after.ref_count(), 2);
}

#[test]
fn wake_of_complete_task_does_nothing() {
    let running = StateSnapshot::initial().transition_to_running();
    let (done, _) = complete(running);
    let (after, action) = wake_by_val(done, false);
    assert_eq!(action, WakeAction::Nothing { release: true, dealloc: false });
    assert_eq!(after.ref_count(), 1);
    let (after, action) = wake_by_ref(done, true);
    assert_eq!(action, WakeAction::Nothing { release: false, dealloc: false });
    assert_eq!(after.0, done.0);
}

#[test]
fn remote_wake_of_idle_task_is_sent() {
    let (idle, _) = StateSnapshot::initial().transition_to_running().transition_to_idle();
    let (after, action) = wake_by_val(idle, true);
    assert_eq!(action, WakeAction::SendToOwner);
    assert_eq!(after.0, idle.0);
    let (after, action) = wake_by_ref(idle, true);
    assert_eq!(action, WakeAction::SendToOwner);
    assert_eq!(after.ref_count(), 3);
}

#[test]
fn join_handle_reads_output_only_when_complete() {
    let s = StateSnapshot::initial();
    let (with_waker, res) = can_read_output(s, false);
    assert_eq!(res, ReadOutput::Pending { store_waker: true });
    assert!(with_waker.has_join_waker());
    let (same, res) = can_read_output(with_waker, true);
    assert_eq!(res, ReadOutput::Pending { store_waker: false });
    assert_eq!(same.0, with_waker.0);
    let (replaced, res) = can_read_output(with_waker, false);
    assert_eq!(res, ReadOutput::Pending { store_waker: true });
    assert!(replaced.has_join_waker());
    let (done, _) = complete(with_waker.transition_to_running());
    let (_, res) = can_read_output(done, false);
    assert_eq!(res, ReadOutput::Ready);
}

#[test]
fn dropping_the_join_handle() {
    let (fast, drop_output, dealloc) = drop_join_handle(StateSnapshot::initial());
    assert!(!drop_output);
    assert!(!dealloc);
    assert_eq!(fast.ref_count(), 1);
    assert!(!fast.is_join_interested());

    let running = StateSnapshot::initial().transition_to_running();
    let (done, _) = complete(running);
    let (_, done_once) = drop_reference(done);
    assert!(!done_once);
    let (after, drop_output, dealloc) = drop_join_handle(done);
    assert!(drop_output);
    assert!(!dealloc);
    assert_eq!(after.ref_count(), 1);
    let (_, last) = drop_reference(after);
    assert!(last);
}

#[test]
fn join_handle_of_new_task_is_not_finished() {
    let header = Rc::new(Header::new(16));
    let handle: JoinHandle<u32> = JoinHandle::new(header.clone());
    assert!(!handle.is_finished());
    let running = header.state.load().transition_to_running();
    let (done, _) = complete(running);
    header.state.store(done);
    assert!(handle.is_finished());
}
