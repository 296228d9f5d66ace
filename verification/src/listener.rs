use vstd::prelude::*;
use crate::codec::{decode, DecodeError};
use crate::data::Data;
use crate::log::RsLog;
use crate::status::{StatusView, Statuses, ThreadStatus, ThreadType};
use crate::storage::StorageError;

verus! {

/// What one receive on the listening socket gave, without waiting.
#[derive(Debug, PartialEq, Eq)]
pub enum Received {
    /// No message was there.
    Nothing,
    /// One message, with the peer address of its sender.
    Message { payload: Vec<u8>, sender: String },
    /// The transport failed, with its description.
    Failed(String),
}

/// Why a receive stored nothing.
#[derive(Debug, PartialEq, Eq)]
pub enum ListenError {
    /// The transport failed.
    Transport(String),
    /// The message was not a record.
    Decode(DecodeError),
}

/// What one pass of the listener did.
#[derive(Debug, PartialEq, Eq)]
pub enum Step {
    /// No message was there.
    Idle,
    /// A record was stored under this sequence id.
    Stored(usize),
    /// The message was dropped, or the transport failed; the listener goes on.
    Dropped(ListenError),
}

/// The record of a received message, with the sender's address as its
/// sender address: `None` where no message was there, an error where the
/// transport failed or the message is not a record.
pub fn listen(received: Received) -> (r: Result<Option<RsLog>, ListenError>)
    ensures
        match received {
            Received::Nothing => r == Ok::<Option<RsLog>, ListenError>(None),
            Received::Failed(reason) => r == Err::<Option<RsLog>, ListenError>(
                ListenError::Transport(reason),
            ),
            Received::Message { payload, sender } => match decode(payload@, sender@) {
                Ok(x) => r is Ok && r->Ok_0 is Some && r->Ok_0->0@ == x,
                Err(e) => r == Err::<Option<RsLog>, ListenError>(ListenError::Decode(e)),
            },
        },
{
    match received {
        Received::Nothing => Ok(None),
        Received::Failed(reason) => Err(ListenError::Transport(reason)),
        Received::Message { payload, sender } => match RsLog::from(payload.as_slice(), sender) {
            Ok(log) => Ok(Some(log)),
            Err(e) => Err(ListenError::Decode(e)),
        },
    }
}

/// The check that a listener makes before each receive: whether it was
/// asked to stop. If so, it is marked as stopped, and the caller leaves its
/// loop; if not, nothing changes.
pub fn must_stop(statuses: &mut Statuses, thread_type: ThreadType) -> (stop: bool)
    ensures
        stop == (old(statuses)@.dom().contains(thread_type) && old(statuses)@[thread_type]
            is Terminating),
        stop ==> final(statuses)@ == old(statuses)@.insert(thread_type, StatusView::Stopped),
        !stop ==> final(statuses)@ == old(statuses)@,
        final(statuses).roles() == old(statuses).roles(),
{
    if statuses.must_terminate(thread_type) {
        statuses.set(thread_type, ThreadStatus::Stopped);
        true
    } else {
        false
    }
}

/// One pass of a listener after a receive: a message that is a record is
/// appended to the store, anything else leaves the store as it is. The
/// volatile store takes every record, so the result is never an error.
pub fn receive(data: &mut Data, received: Received) -> (r: Result<Step, StorageError>)
    ensures
        final(data).statuses == old(data).statuses,
        final(data).args == old(data).args,
        match received {
            Received::Nothing => r == Ok::<Step, StorageError>(Step::Idle) && final(data).storage
                == old(data).storage,
            Received::Failed(reason) => r == Ok::<Step, StorageError>(
                Step::Dropped(ListenError::Transport(reason)),
            ) && final(data).storage == old(data).storage,
            Received::Message { payload, sender } => match decode(payload@, sender@) {
                Ok(x) => {
                    &&& r is Ok
                    &&& r->Ok_0 is Stored
                    &&& r->Ok_0->Stored_0 == old(data).storage@.len()
                    &&& final(data).storage@ == old(data).storage@.push(x)
                    &&& final(data).storage.updated()
                },
                Err(e) => r == Ok::<Step, StorageError>(Step::Dropped(ListenError::Decode(e)))
                    && final(data).storage == old(data).storage,
            },
        },
{
    match listen(received) {
        Err(e) => Ok(Step::Dropped(e)),
        Ok(None) => Ok(Step::Idle),
        Ok(Some(log)) => match data.storage.add_log(log) {
            Ok(id) => Ok(Step::Stored(id)),
            Err(e) => Err(e),
        },
    }
}

} // verus!
