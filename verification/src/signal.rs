//! The cancellation pair: a one-slot broadcast channel of `tokio`, split
//! into a sending half and receiving halves.
//!
//! Verus sees nothing inside these values. The session manager reasons about
//! a pair through the resource table alone: the signal counts as raised once
//! the sending half has left the table.

use vstd::prelude::*;
use tokio::sync::broadcast::{Receiver, Sender};

verus! {

#[verifier::external_type_specification]
#[verifier::external_body]
#[verifier::reject_recursive_types(T)]
pub struct ExSender<T>(Sender<T>);

#[verifier::external_type_specification]
#[verifier::external_body]
#[verifier::reject_recursive_types(T)]
pub struct ExReceiver<T>(Receiver<T>);

/// `tokio::sync::broadcast::channel` with room for one message: a fresh
/// sending half and a receiving half that belongs to it.
#[verifier::external_body]
pub(crate) fn new_pair() -> (pair: (Sender<()>, Receiver<()>)) {
    tokio::sync::broadcast::channel::<()>(1)
}

/// `Sender::send` of the unit message, after which the sending half is
/// dropped. That there may be nobody left to receive it is no error.
#[verifier::external_body]
pub(crate) fn fire(sender: Sender<()>) {
    let _ = sender.send(());
}

/// `Receiver::resubscribe`: another receiving half of the same channel, which
/// sees what is sent from now on.
#[verifier::external_body]
pub(crate) fn resubscribe(receiver: &Receiver<()>) -> (copy: Receiver<()>) {
    receiver.resubscribe()
}

} // verus!
