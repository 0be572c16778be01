//! The capability a server is built around: turning a command into its
//! response.

use vstd::prelude::*;
use crate::error::RemotingError;
use crate::protocol::remoting_command::RemotingCommand;

verus! {

/// Business logic that answers commands.
///
/// A processor is only ever handed a command that carries a payload. One
/// instance serves every command of a server, from several tasks at once, so
/// an implementation keeps its state behind its own synchronisation.
pub trait RemotingProcess {
    /// The response to `cmd`, or the reason there is none.
    fn process(&self, cmd: RemotingCommand) -> (outcome: Result<RemotingCommand, RemotingError>)
        requires
            cmd.command is Some,
    ;
}

} // verus!
