use futures::executor::block_on;
use futures::StreamExt;
use remyx::runtime::mpsc::{Sender, TrySendError};
use remyx::stream::{is_closed, retain_open, Tee};
use std::sync::{Arc, Mutex};

/// A subscriber backed by a tokio channel.
struct Channel<T>(tokio::sync::mpsc::Sender<T>);

impl<T: Send> Sender<T> for Channel<T> {
    fn try_send(&self, value: T) -> Result<(), TrySendError<T>> {
        self.0.try_send(value).map_err(|err| match err {
            tokio::sync::mpsc::error::TrySendError::Full(v) => TrySendError::Full(v),
            tokio::sync::mpsc::error::TrySendError::Closed(v) => TrySendError::Closed(v),
        })
    }
}

/// A subscriber that records what it gets, or reports a full or closed channel.
#[derive(Clone)]
struct Probe {
    got: Arc<Mutex<Vec<u32>>>,
    full: bool,
    closed: bool,
}

impl Probe {
    fn new(full: bool, closed: bool) -> Self {
        Probe { got: Arc::new(Mutex::new(Vec::new())), full, closed }
    }
}

impl Sender<u32> for Probe {
    fn try_send(&self, value: u32) -> Result<(), TrySendError<u32>> {
        if self.closed {
            Err(TrySendError::Closed(value))
        } else if self.full {
            Err(TrySendError::Full(value))
        } else {
            self.got.lock().unwrap().push(value);
            Ok(())
        }
    }
}

/// One poll of the splitter: the next item of the stream, offered to every subscriber.
fn next<S: Sender<u32>, St: futures::Stream<Item = u32> + Unpin>(tee: &mut Tee<S, St>) -> Option<u32> {
    let item = block_on(tee.stream_mut().next())?;
    tee.broadcast(&item);
    Some(item)
}

#[test]
fn tee_stream_test_original_and_fork_receive_produced_messages() {
    let stream = futures::stream::unfold(100u32, |val| async move { Some((val, val * 2)) }).boxed();
    let mut tee = Tee::new(stream);
    let (tx, mut subscriber) = tokio::sync::mpsc::channel(1024);
    tee.subscribe(Channel(tx));
    assert_eq!(next(&mut tee), Some(100));
    assert_eq!(next(&mut tee), Some(200));
    assert_eq!(subscriber.try_recv().ok(), Some(100));
    assert_eq!(subscriber.try_recv().ok(), Some(200));
}

#[test]
fn closed_subscribers_are_removed_full_ones_kept() {
    let ok = Probe::new(false, false);
    let full = Probe::new(true, false);
    let closed = Probe::new(false, true);
    let mut tee = Tee::new(futures::stream::iter(vec![1u32, 2]));
    tee.subscribe(ok.clone());
    tee.subscribe(closed.clone());
    tee.subscribe(full.clone());
    assert_eq!(tee.subscriber_count(), 3);
    assert_eq!(next(&mut tee), Some(1));
    assert_eq!(tee.subscriber_count(), 2);
    assert_eq!(next(&mut tee), Some(2));
    assert_eq!(tee.subscriber_count(), 2);
    assert_eq!(*ok.got.lock().unwrap(), vec![1, 2]);
    assert!(full.got.lock().unwrap().is_empty());
    assert_eq!(next(&mut tee), None);
}

#[test]
fn dropped_receiver_unsubscribes() {
    let (tx, rx) = tokio::sync::mpsc::channel(4);
    let mut tee = Tee::new(futures::stream::iter(vec![5u32]));
    tee.subscribe(Channel(tx));
    drop(rx);
    assert_eq!(next(&mut tee), Some(5));
    assert_eq!(tee.subscriber_count(), 0);
}

#[test]
fn only_closed_outcomes_count_as_closed() {
    assert!(is_closed::<u8>(&Err(TrySendError::Closed(1))));
    assert!(!is_closed::<u8>(&Err(TrySendError::Full(1))));
    assert!(!is_closed::<u8>(&Ok(())));
}

#[test]
fn retain_open_keeps_unflagged_in_order() {
    let mut subs = vec!['a', 'b', 'c', 'd'];
    retain_open(&mut subs, &vec![false, true, false, true]);
    assert_eq!(subs, vec!['a', 'c']);
    let mut none: Vec<char> = Vec::new();
    retain_open(&mut none, &Vec::new());
    assert!(none.is_empty());
}

#[test]
fn each_subscriber_is_offered_the_item_once() {
    let first = Probe::new(false, false);
    let second = Probe::new(false, false);
    let mut tee = Tee::new(futures::stream::iter(vec![9u32]));
    tee.subscribe(first.clone());
    tee.subscribe(second.clone());
    assert_eq!(next(&mut tee), Some(9));
    assert_eq!(*first.got.lock().unwrap(), vec![9]);
    assert_eq!(*second.got.lock().unwrap(), vec![9]);
    assert_eq!(tee.subscriber_count(), 2);
}
