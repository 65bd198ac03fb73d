//! The finalizer: what is to be stored when a transfer completes, and what
//! the transfer came to once storing was tried. The storing itself is the
//! caller's.

use crate::sink::Notification;
use crate::sink::NotificationModel;
use vstd::prelude::*;

verus! {

/// How one transfer ended.
#[derive(Debug, PartialEq, Eq)]
pub enum TransferOutcome {
    /// The bytes of the transfer were stored.
    Completed(Vec<u8>),
    /// Storing failed, for the reason given. The bytes are gone.
    Failed(String),
}

/// The mathematical value of a [`TransferOutcome`].
pub ghost enum OutcomeModel {
    Completed(Seq<u8>),
    Failed(Seq<char>),
}

impl View for TransferOutcome {
    type V = OutcomeModel;

    open spec fn view(&self) -> OutcomeModel {
        match *self {
            TransferOutcome::Completed(data) => OutcomeModel::Completed(data@),
            TransferOutcome::Failed(reason) => OutcomeModel::Failed(reason@),
        }
    }
}

/// The bytes that a notification asks to store: those of a completed
/// transfer, which may be none at all; nothing for the other kinds.
pub open spec fn spec_to_store(notification: NotificationModel) -> Option<Seq<u8>> {
    match notification {
        NotificationModel::TransferComplete { data } => Some(data),
        _ => None,
    }
}

/// Picks out of a notification what is to be stored.
pub fn on_image_reception_complete(notification: &Notification) -> (data: Option<&[u8]>)
    ensures
        data is Some <==> spec_to_store(notification@) is Some,
        data is Some ==> (data->0)@ == spec_to_store(notification@)->0,
{
    match notification {
        Notification::TransferComplete { data } => Some(data.as_slice()),
        _ => None,
    }
}

/// The outcome of a transfer whose bytes were `data`, given how storing them
/// went: completed with the bytes, or failed with the reason of the failure.
pub fn conclude(data: Vec<u8>, stored: Result<(), String>) -> (outcome: TransferOutcome)
    ensures
        stored is Ok ==> outcome@ == OutcomeModel::Completed(data@),
        stored is Err ==> outcome@ == OutcomeModel::Failed((stored->Err_0)@),
{
    match stored {
        Ok(_) => TransferOutcome::Completed(data),
        Err(reason) => TransferOutcome::Failed(reason),
    }
}

} // verus!
