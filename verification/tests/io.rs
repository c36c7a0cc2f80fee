use monoio::legacy::{
    cancel_op, dispatch, dispatch_events, is_source_token, on_would_block, poll_readiness,
    Readiness, TOKEN_WAKEUP,
};
use monoio::ready::{Direction, Ready, READABLE, READ_CANCELED, WRITABLE};
use monoio::scheduled_io::ScheduledIo;
use monoio::slab::Slab;
use monoio::vec_wrapper::{IoVec, IoVecMeta};
use std::sync::atomic::{AtomicUsize, Ordering};
use std::sync::Arc;
use std::task::{Wake, Waker};

struct Counter(AtomicUsize);

impl Wake for Counter {
    fn wake(self: Arc<Self>) {
        self.0.fetch_add(1, Ordering::SeqCst);
    }
}

fn counting_waker() -> (Arc<Counter>, Waker) {
    let c = Arc::new(Counter(AtomicUsize::new(0)));
    (c.clone(), Waker::from(c))
}

#[test]
fn ready_flags() {
    let r = Ready::from_event(true, false, false, true);
    assert!(r.is_readable());
    assert!(r.is_writable());
    assert!(r.is_write_closed());
    assert!(!r.is_read_closed());
    assert!(!r.is_canceled());
    assert_eq!(r.0, 0b1001);
    assert_eq!(Direction::Read.mask().intersection(r), Ready(READABLE));
    assert_eq!(r.difference(Ready(READABLE)), Ready(0b1000));
    assert_eq!(Ready(READ_CANCELED).union(Ready(WRITABLE)).0, 0b01_0010);
    assert!(Ready(READ_CANCELED).is_canceled());
    assert!(Ready::empty().is_empty());
}

#[test]
fn scheduled_io_waits_then_is_woken() {
    let (count, waker) = counting_waker();
    let mut io = ScheduledIo::new();
    assert_eq!(io.isReady(&waker, Direction::Read), None);
    io.wake(Ready(WRITABLE));
    assert_eq!(count.0.load(Ordering::SeqCst), 0);
    io.setReady(|r| r.union(Ready(READABLE)));
    io.wake(Ready(READABLE));
    assert_eq!(count.0.load(Ordering::SeqCst), 1);
    assert_eq!(io.isReady(&waker, Direction::Read), Some(Ready(READABLE)));
    io.clearReady(Ready(READABLE));
    assert_eq!(io.get_ready(), Ready(0));
    io.set_writable();
    assert_eq!(io.get_ready(), Ready(WRITABLE));
}

#[test]
fn dispatch_reaches_the_registered_source() {
    let (count, waker) = counting_waker();
    let mut slab = Slab::new();
    let k = slab.insert(ScheduledIo::new());
    assert_eq!(poll_readiness(&mut slab, k, Direction::Read, &waker), Readiness::Pending);
    dispatch(&mut slab, k, Ready(READABLE));
    assert_eq!(count.0.load(Ordering::SeqCst), 1);
    assert_eq!(slab.get(k).unwrap().get_ready(), Ready(READABLE));
    assert_eq!(
        poll_readiness(&mut slab, k, Direction::Read, &waker),
        Readiness::Ready(Ready(READABLE))
    );
    // an unknown token is ignored
    dispatch(&mut slab, k + 1, Ready(READABLE));
    on_would_block(&mut slab, k, Direction::Read, &waker);
    assert_eq!(slab.get(k).unwrap().get_ready(), Ready(0));
    cancel_op(&mut slab, k, Direction::Read);
    assert_eq!(count.0.load(Ordering::SeqCst), 1);
    assert_eq!(poll_readiness(&mut slab, k, Direction::Read, &waker), Readiness::Canceled);
    assert_eq!(slab.get(k).unwrap().get_ready(), Ready(0));
}

#[test]
fn events_accumulate_and_skip_the_wakeup_token() {
    let mut slab = Slab::new();
    let a = slab.insert(ScheduledIo::new());
    let b = slab.insert(ScheduledIo::new());
    let events = vec![
        (a, Ready(READABLE)),
        (TOKEN_WAKEUP, Ready(WRITABLE)),
        (a, Ready(WRITABLE)),
        (b, Ready(WRITABLE)),
    ];
    dispatch_events(&mut slab, &events);
    assert_eq!(slab.get(a).unwrap().get_ready(), Ready(READABLE | WRITABLE));
    assert_eq!(slab.get(b).unwrap().get_ready(), Ready(WRITABLE));
    assert!(!is_source_token(TOKEN_WAKEUP));
    assert!(is_source_token(a));
}

#[test]
fn consume_passes_whole_and_partial_segments() {
    let data = vec![
        IoVec { base: 1000, len: 10 },
        IoVec { base: 2000, len: 20 },
        IoVec { base: 3000, len: 30 },
    ];
    let mut meta = IoVecMeta::from_iovecs(data);
    assert_eq!(meta.len(), 60);
    meta.consume(0);
    assert_eq!(meta.offset(), 0);
    meta.consume(15);
    assert_eq!(meta.offset(), 1);
    assert_eq!(meta.iovec(1), IoVec { base: 2000, len: 15 });
    meta.consume(15);
    assert_eq!(meta.offset(), 2);
    assert_eq!(meta.iovec(2), IoVec { base: 3000, len: 30 });
    meta.consume(30);
    assert_eq!(meta.offset(), 3);
    assert_eq!(meta.len(), 60);
    assert_eq!(meta.iovec_len(), 3);
}

#[test]
fn buffer_meta_has_one_segment() {
    let meta = IoVecMeta::from_buffer(4096, 512);
    assert_eq!(meta.len(), 1);
    assert_eq!(meta.iovec_len(), 1);
    assert_eq!(meta.iovec(0), IoVec { base: 4096, len: 512 });
}
