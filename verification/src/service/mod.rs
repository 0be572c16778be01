//! The dispatch service: a processor behind a handle that is cheap to clone,
//! with every failure turned into a response.

pub mod process;
pub mod processor;

use vstd::prelude::*;
use std::sync::Arc;
use crate::error::RemotingError;
use crate::protocol::error_response_view;
use crate::protocol::remoting_command::{RemotingCommand, RemotingCommandView};
use crate::service::process::RemotingProcess;

verus! {

/// What becomes of a command before any processor sees it.
pub enum Admission {
    /// The command carries a payload: hand it to the processor.
    Process(RemotingCommand),
    /// The command carries none: answer with this response at once.
    Reject(RemotingCommand),
}

/// The response that a command with the given id gets, once the processor
/// has come back with `outcome`: its own response, or the error response that
/// reports its failure under the same id.
pub open spec fn settled_view(
    id: u64,
    outcome: Result<RemotingCommand, RemotingError>,
) -> RemotingCommandView {
    match outcome {
        Ok(response) => response@,
        Err(error) => error_response_view(error, id),
    }
}

/// Decides whether a command goes to the processor. One without a payload is
/// answered with "command not supported" under its own id.
pub fn screen(command: RemotingCommand) -> (admission: Admission)
    ensures
        match admission {
            Admission::Process(accepted) => command.command is Some && accepted == command,
            Admission::Reject(response) => command.command is None && response@
                == error_response_view(RemotingError::NoCommand, command.id),
        },
{
    if command.command.is_none() {
        Admission::Reject(RemotingCommand::command_not_support(command.id))
    } else {
        Admission::Process(command)
    }
}

/// Turns what a processor came back with into the response that is sent. A
/// response is passed on as it is; a failure becomes an error response with
/// the id of the command.
pub fn settle(
    id: u64,
    outcome: Result<RemotingCommand, RemotingError>,
) -> (response: RemotingCommand)
    ensures
        response@ == settled_view(id, outcome),
        outcome matches Ok(answer) ==> response == answer,
        outcome is Err ==> response@.id == id && response@.is_response(),
{
    match outcome {
        Ok(response) => response,
        Err(error) => RemotingCommand::from_error_with_id(&error, id),
    }
}

/// Whatever a processor fails with, the response that reports the failure is
/// a response under the id of the command that failed. A processor's own
/// answer is passed on as it is, id included.
pub proof fn lemma_settled_keeps_id(id: u64, error: RemotingError, answer: RemotingCommand)
    ensures
        settled_view(id, Err(error)).id == id,
        settled_view(id, Err(error)).is_response(),
        settled_view(id, Ok(answer)) == answer@,
{
}

/// The state a service shares between its handles.
struct RemotingServiceInner<Processor> {
    processor: Processor,
}

impl<Processor> RemotingServiceInner<Processor> {
    fn new(processor: Processor) -> (inner: Self)
        ensures
            inner.processor == processor,
    {
        RemotingServiceInner { processor }
    }
}

/// A processor that never lets a failure out: whatever happens to a command,
/// `execute` hands back a response for it.
pub struct RemotingService<Processor> {
    inner: Arc<RemotingServiceInner<Processor>>,
}

impl<Processor: RemotingProcess> RemotingService<Processor> {
    /// The processor behind this service.
    pub closed spec fn processor(&self) -> Processor {
        self.inner.processor
    }

    /// A service around `processor`.
    pub fn new(processor: Processor) -> (service: Self)
        ensures
            service.processor() == processor,
    {
        RemotingService { inner: Arc::new(RemotingServiceInner::new(processor)) }
    }

    /// Another handle to the same processor.
    pub fn share(&self) -> (other: Self)
        ensures
            other.processor() == self.processor(),
    {
        RemotingService { inner: share_arc(&self.inner) }
    }

    /// The response to `remoting_command`.
    ///
    /// A command without a payload never reaches the processor: it is answered
    /// with "command not supported" under its own id. Any other command goes to
    /// the processor as it came, and the response is what `settle` makes of
    /// the processor's outcome: its answer as it is, or the error response that
    /// reports its failure under the id of the command.
    pub fn execute(&self, remoting_command: RemotingCommand) -> (response: RemotingCommand)
        ensures
            remoting_command.command is None ==> response@ == error_response_view(
                RemotingError::NoCommand,
                remoting_command.id,
            ),
            remoting_command.command is None ==> response@.id == remoting_command.id,
            remoting_command.command is Some ==> exists|
                outcome: Result<RemotingCommand, RemotingError>,
            |
                #[trigger] call_ensures(
                    Processor::process,
                    (&self.processor(), remoting_command),
                    outcome,
                ) && response@ == settled_view(remoting_command.id, outcome),
    {
        let command_id = remoting_command.id;
        match screen(remoting_command) {
            Admission::Reject(response) => response,
            Admission::Process(command) => {
                let outcome = self.inner.processor.process(command);
                settle(command_id, outcome)
            },
        }
    }
}

impl<Processor: RemotingProcess> Clone for RemotingService<Processor> {
    fn clone(&self) -> (other: Self)
        ensures
            other.processor() == self.processor(),
    {
        self.share()
    }
}

/// `Arc::clone`: another pointer to the same value.
#[verifier::external_body]
fn share_arc<T>(pointer: &Arc<T>) -> (other: Arc<T>)
    ensures
        other == *pointer,
{
    Arc::clone(pointer)
}

} // verus!
