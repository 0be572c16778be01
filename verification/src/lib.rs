//! Transport and protocol core of a broker / name-service control plane.
//!
//! Peers exchange `RemotingCommand`s over a byte stream. Each command travels in
//! one self-describing frame: a compression flag, a big-endian length and the
//! payload. The crate holds the frame codec, the command model, the buffering
//! rules of a duplex command stream, the dispatch service and the decisions a
//! connection server takes; sockets and task scheduling live with the caller.

pub mod common;
pub mod error;
pub mod namesrv;
pub mod network;
pub mod protocol;
pub mod service;
pub mod text;

pub use crate::error::RemotingError;
pub use crate::protocol::remoting_command::RemotingCommand;
pub use crate::service::process::RemotingProcess;

use vstd::prelude::*;
use tokio::sync::mpsc::UnboundedSender;
use crate::text::owned;

verus! {

/// Where a server listens, as one `host:port` text.
#[derive(Debug, PartialEq)]
pub struct ServerConfig {
    addr: String,
}

impl ServerConfig {
    /// The listen address.
    pub closed spec fn addr(&self) -> Seq<char> {
        self.addr@
    }

    /// The configuration that listens at `addr`.
    pub fn new(addr: &str) -> (config: Self)
        ensures
            config.addr() == addr@,
    {
        ServerConfig { addr: owned(addr) }
    }

    /// The listen address.
    pub fn address(&self) -> (addr: &str)
        ensures
            addr@ == self.addr(),
    {
        self.addr.as_str()
    }
}

/// `tokio::sync::mpsc::UnboundedSender`, as an opaque type.
#[verifier::external_type_specification]
#[verifier::external_body]
#[verifier::reject_recursive_types(T)]
pub struct ExUnboundedSender<T>(tokio::sync::mpsc::UnboundedSender<T>);

/// `UnboundedSender::send`: queues the command without waiting. Where the
/// receiving half is gone the command comes back.
#[verifier::external_body]
fn offer(
    sender: &UnboundedSender<RemotingCommand>,
    command: RemotingCommand,
) -> (refused: Result<(), RemotingCommand>)
    ensures
        refused matches Err(returned) ==> returned == command,
{
    sender.send(command).map_err(|refusal| refusal.0)
}

/// How handing a response to the write side ended.
#[derive(Clone, Copy, Debug, PartialEq, Eq, Structural)]
pub enum Delivery {
    /// The queue took the response at once.
    Delivered,
    /// The queue refused the response once and took it at the second try.
    DeliveredOnRetry,
    /// The queue refused the response twice; the response with this id is
    /// lost.
    Dropped(u64),
}

/// What follows an offer of a response to the queue.
pub enum Offer {
    /// Nothing more is tried.
    Done(Delivery),
    /// The response came back and is offered once more.
    Again(RemotingCommand),
}

/// Decides what follows an offer. `refused` holds the response where the
/// queue gave it back; `retried` says whether this was the second offer. A
/// response is offered again once, and dropped when it comes back again.
pub fn after_offer(retried: bool, refused: Result<(), RemotingCommand>) -> (next: Offer)
    ensures
        match refused {
            Ok(_) => next == Offer::Done(
                if retried {
                    Delivery::DeliveredOnRetry
                } else {
                    Delivery::Delivered
                },
            ),
            Err(command) => if retried {
                next == Offer::Done(Delivery::Dropped(command.id))
            } else {
                next == Offer::Again(command)
            },
        },
{
    match refused {
        Ok(()) => if retried {
            Offer::Done(Delivery::DeliveredOnRetry)
        } else {
            Offer::Done(Delivery::Delivered)
        },
        Err(command) => if retried {
            Offer::Done(Delivery::Dropped(command.id))
        } else {
            Offer::Again(command)
        },
    }
}

/// Whether `answer` is what the queue behind `sender` said when `command` was
/// offered to it: `Ok` where it took the command, the command back where it
/// refused it. What a queue says is known of an offer that was made, and of
/// no other.
pub closed spec fn queue_answered(
    sender: &UnboundedSender<RemotingCommand>,
    command: RemotingCommand,
    answer: Result<(), RemotingCommand>,
) -> bool {
    call_ensures(offer, (sender, command), answer)
}

/// A queue that refuses a command hands that command back.
pub proof fn lemma_refused_command_comes_back(
    sender: &UnboundedSender<RemotingCommand>,
    command: RemotingCommand,
    answer: Result<(), RemotingCommand>,
)
    requires
        queue_answered(sender, command, answer),
    ensures
        answer matches Err(back) ==> back == command,
{
}

/// How the delivery of `command` comes about. The command is offered to the
/// queue. Where the queue takes it, it is delivered. Where the queue hands it
/// back, what came back is offered once more, and no third time: it is
/// delivered on the retry where the queue takes it then, and dropped, under
/// the id of the command, where the queue hands it back again.
pub open spec fn handed(
    sender: &UnboundedSender<RemotingCommand>,
    command: RemotingCommand,
    delivery: Delivery,
) -> bool {
    exists|first: Result<(), RemotingCommand>| #[trigger]
        queue_answered(sender, command, first) && (match first {
            Ok(_) => delivery == Delivery::Delivered,
            Err(back) => exists|second: Result<(), RemotingCommand>| #[trigger]
                queue_answered(sender, back, second) && delivery == (match second {
                    Ok(_) => Delivery::DeliveredOnRetry,
                    Err(_) => Delivery::Dropped(command.id),
                }),
        })
}

/// Hands a response to the queue that leads to the write side of its
/// connection. A response the queue refuses is offered once more; one that is
/// refused again is dropped. Delivery is best effort: nothing is queued twice,
/// and something may not be queued at all. Whether the queue takes a response
/// is for the queue to say; a response that is reported as dropped is the one
/// that was handed in.
pub fn send_response_to_channel(
    sender: &UnboundedSender<RemotingCommand>,
    command: RemotingCommand,
) -> (delivery: Delivery)
    ensures
        handed(sender, command, delivery),
        delivery matches Delivery::Dropped(id) ==> id == command.id,
{
    let first = offer(sender, command);
    let ghost first_answer = first;
    assert(queue_answered(sender, command, first_answer));
    match after_offer(false, first) {
        Offer::Done(delivery) => delivery,
        Offer::Again(back) => {
            let ghost offered_again = back;
            let second = offer(sender, back);
            let ghost second_answer = second;
            assert(queue_answered(sender, offered_again, second_answer));
            match after_offer(true, second) {
                Offer::Done(delivery) => delivery,
                Offer::Again(back) => Delivery::Dropped(back.id),
            }
        },
    }
}

} // verus!
