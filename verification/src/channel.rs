//! The command queue between the control plane and the playback worker:
//! an unbounded FIFO whose sending half the player keeps and whose
//! receiving half the worker loop owns. Sends never block; a send to a
//! worker whose end is gone is reported, not swallowed.
use std::sync::mpsc;

use vstd::prelude::*;

use crate::errors::Error;
use crate::player::BackendCommand;

verus! {

/// Declares std::sync::mpsc::Sender so that it can stand in fields and
/// signatures; the queue's state stays invisible here.
#[verifier::external_type_specification]
#[verifier::external_body]
#[verifier::reject_recursive_types(T)]
pub struct ExSender<T>(mpsc::Sender<T>);

/// Declares std::sync::mpsc::Receiver, for the worker-facing half.
#[verifier::external_type_specification]
#[verifier::external_body]
#[verifier::reject_recursive_types(T)]
pub struct ExReceiver<T>(mpsc::Receiver<T>);

/// Relies on std::sync::mpsc::channel: a new unbounded FIFO queue, sending
/// half first.
#[verifier::external_body]
fn mpsc_channel<T>() -> (r: (mpsc::Sender<T>, mpsc::Receiver<T>)) {
    mpsc::channel()
}

/// Relies on std::sync::mpsc::Sender::send: queues the message without
/// blocking; it fails exactly when the receiving half is gone, and then
/// hands the unsent message back.
#[verifier::external_body]
fn mpsc_send<T>(tx: &mpsc::Sender<T>, message: T) -> (r: Result<(), T>)
    ensures
        r matches Err(m) ==> m == message,
{
    tx.send(message).map_err(|e| e.0)
}

/// The sending half of the backend's command queue, kept by the player.
pub struct CommandSender {
    tx: mpsc::Sender<BackendCommand>,
}

/// The receiving half, for the worker loop that drives the engine. The
/// loop itself runs outside the core; it blocks on this queue until a
/// command arrives or every sender is gone.
pub struct CommandReceiver {
    pub rx: mpsc::Receiver<BackendCommand>,
}

/// One fresh command queue for one backend worker.
pub fn backend_channel() -> (r: (CommandSender, CommandReceiver)) {
    let (tx, rx) = mpsc_channel();
    (CommandSender { tx }, CommandReceiver { rx })
}

impl CommandSender {
    /// Queues one command for the worker, without blocking. An error is
    /// always `ChannelClosed`: the worker's end of the queue is gone.
    pub fn send(&self, command: BackendCommand) -> (r: Result<(), Error>)
        ensures
            r matches Err(e) ==> e == Error::ChannelClosed,
    {
        match mpsc_send(&self.tx, command) {
            Ok(u) => Ok(u),
            Err(_) => Err(Error::ChannelClosed),
        }
    }
}

} // verus!
