//! The handle the file browser keeps on a running background transfer.

use vstd::prelude::*;
use std::sync::{Arc, Mutex};
use std::sync::mpsc::Receiver;
use std::sync::atomic::{AtomicBool, Ordering};
use crate::browser::{ActionResult, TransferProgressState};

verus! {

#[verifier::external_type_specification]
#[verifier::external_body]
#[verifier::reject_recursive_types(T)]
pub struct ExMutex<T: ?Sized>(Mutex<T>);

#[verifier::external_type_specification]
#[verifier::external_body]
#[verifier::reject_recursive_types(T)]
pub struct ExReceiver<T>(Receiver<T>);

/// A transfer running on another thread: its shared progress, the channel
/// its result arrives on, and the flag that asks it to stop.
pub struct PendingTransfer {
    pub progress: Arc<Mutex<TransferProgressState>>,
    pub done_rx: Receiver<ActionResult>,
    pub cancel: Arc<AtomicBool>,
}

impl PendingTransfer {
    /// Asks the transfer thread to stop at its next check.
    pub fn cancel(&self) {
        self.cancel.store(true, Ordering::SeqCst);
    }
}

} // verus!
