use remyx::runtime::mpsc::{self, Sender, TrySendError};
use remyx::runtime::oneshot;
use remyx::runtime::time::TimedOut;
use remyx::runtime::tokio::{join_error, uses_worker_pool};
use remyx::runtime::{background_threads, JoinError, JoinHandle, JoinHandleFut, TryRecvError};
use std::cell::Cell;
use std::sync::{Arc, Mutex};

struct Handle {
    cancelled: Cell<bool>,
}

impl JoinHandle<u8> for Handle {
    fn cancel(&self) {
        self.cancelled.set(true);
    }

    fn is_finished(&self) -> bool {
        self.cancelled.get()
    }
}

#[test]
fn join_handle_future_holds_its_handle() {
    let fut: JoinHandleFut<Handle, u8> = JoinHandleFut::new(Handle { cancelled: Cell::new(false) });
    fut.into_handle().cancel();
    let mut fut = Handle { cancelled: Cell::new(false) }.into_future();
    fut.handle_mut().cancel();
    assert!(fut.handle_mut().is_finished());
}

#[test]
fn try_send_error_gives_value_back() {
    assert_eq!(TrySendError::Full(7).into_inner(), 7);
    assert_eq!(TrySendError::Closed("x").into_inner(), "x");
    assert_eq!(TrySendError::Full(0).description(), "no available capacity");
    assert_eq!(TrySendError::Closed(0).description(), "channel closed");
}

#[test]
fn recv_error_messages() {
    assert_eq!(TryRecvError::Empty.description(), "receiving on an empty channel");
    assert_eq!(TryRecvError::Disconnected.description(), "receiving on a closed channel");
    assert_eq!(mpsc::TryRecvError::Empty.description(), "receiving on an empty channel");
    assert_eq!(mpsc::TryRecvError::Disconnected.description(), "receiving on a closed channel");
}

#[test]
fn thread_counts() {
    assert_eq!(background_threads(0), 1);
    assert_eq!(background_threads(1), 1);
    assert_eq!(background_threads(4), 4);
    assert!(!uses_worker_pool(0));
    assert!(!uses_worker_pool(1));
    assert!(uses_worker_pool(2));
}

struct Slot(Arc<Mutex<Option<u8>>>);

impl oneshot::Sender<u8> for Slot {
    fn send(self, value: u8) -> Result<(), u8> {
        *self.0.lock().unwrap() = Some(value);
        Ok(())
    }
}

struct Closed;

impl Sender<u8> for Closed {
    fn try_send(&self, value: u8) -> Result<(), TrySendError<u8>> {
        Err(TrySendError::Closed(value))
    }
}

#[test]
fn channel_traits_can_be_implemented() {
    let slot = Arc::new(Mutex::new(None));
    assert_eq!(oneshot::Sender::send(Slot(slot.clone()), 5), Ok(()));
    assert_eq!(*slot.lock().unwrap(), Some(5));
    assert_eq!(Closed.try_send(1).map_err(|e| e.into_inner()), Err(1));
    assert_eq!(JoinError::Cancelled, JoinError::Cancelled);
    assert_eq!(TimedOut {}, TimedOut {});
}

#[test]
fn unfinished_tasks_report_panic_or_cancellation() {
    assert_eq!(join_error(true), JoinError::Panicked);
    assert_eq!(join_error(false), JoinError::Cancelled);
}
