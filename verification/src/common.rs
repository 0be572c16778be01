//! Process-wide helpers: the protocol version and the source of correlation ids.

use vstd::prelude::*;
use vstd::string::StringExecFns;
use crate::text::owned;

verus! {

/// A failure of the frame layer, as the helpers of this module report it.
#[derive(Clone, Copy, Debug, PartialEq, Eq)]
pub enum MQError {
    /// A message could not be framed, for the reason given.
    FrameEncodeError(&'static str),
    /// A frame could not be read.
    FrameDecodeError,
}

impl MQError {
    /// The failure in words.
    pub open spec fn description(&self) -> Seq<char> {
        match self {
            MQError::FrameEncodeError(reason) => "Frame encode error: "@ + reason@,
            MQError::FrameDecodeError => "Frame decode error"@,
        }
    }

    /// The failure in words.
    pub fn message(&self) -> (text: String)
        ensures
            text@ == self.description(),
    {
        match self {
            MQError::FrameEncodeError(reason) => {
                let mut text = owned("Frame encode error: ");
                text.append(reason);
                text
            },
            MQError::FrameDecodeError => owned("Frame decode error"),
        }
    }
}

/// Protocol version stamped on every command this process originates.
pub const PROTOCOL_VERSION: i32 = 1;

/// First correlation id a fresh generator hands out.
pub const FIRST_COMMAND_ID: u64 = 1;

/// Sum of two sizes.
pub fn add(left: usize, right: usize) -> (sum: usize)
    requires
        left + right <= usize::MAX,
    ensures
        sum == left + right,
{
    left + right
}

/// The protocol version of this build.
pub fn version() -> (v: i32)
    ensures
        v == PROTOCOL_VERSION,
{
    PROTOCOL_VERSION
}

/// Source of correlation ids for newly originated requests.
///
/// Ids grow by one from `FIRST_COMMAND_ID`; after `u64::MAX` the counter wraps
/// to zero. The generator is handed to whatever builds outgoing requests, so a
/// caller decides how it is shared.
pub struct CommandIdGenerator {
    next: u64,
}

/// The id that follows `id`.
pub open spec fn following_id(id: u64) -> u64 {
    if id == u64::MAX {
        0
    } else {
        (id + 1) as u64
    }
}

impl CommandIdGenerator {
    /// The id the next call of `next_command_id` returns.
    pub closed spec fn upcoming(&self) -> u64 {
        self.next
    }

    /// A generator whose first id is `FIRST_COMMAND_ID`.
    pub fn new() -> (ids: Self)
        ensures
            ids.upcoming() == FIRST_COMMAND_ID,
    {
        CommandIdGenerator { next: FIRST_COMMAND_ID }
    }

    /// A generator whose first id is `first`.
    pub fn starting_at(first: u64) -> (ids: Self)
        ensures
            ids.upcoming() == first,
    {
        CommandIdGenerator { next: first }
    }

    /// Hands out the upcoming id and moves on to the one that follows it.
    pub fn next_command_id(&mut self) -> (id: u64)
        ensures
            id == old(self).upcoming(),
            final(self).upcoming() == following_id(id),
    {
        let id = self.next;
        self.next = if id == u64::MAX {
            0
        } else {
            id + 1
        };
        id
    }
}

/// Takes a fresh correlation id from `ids`.
pub fn get_command_id(ids: &mut CommandIdGenerator) -> (id: u64)
    ensures
        id == old(ids).upcoming(),
        final(ids).upcoming() == following_id(id),
{
    ids.next_command_id()
}

/// The id that a generator hands out at its `n`-th call, counted from zero,
/// where its first id is `first`.
pub open spec fn nth_id(first: u64, n: nat) -> u64 {
    ((first + n) % 0x1_0000_0000_0000_0000) as u64
}

/// Each id is followed by the next one of the sequence.
pub proof fn lemma_nth_id_follows(first: u64, n: nat)
    ensures
        nth_id(first, 0) == first,
        nth_id(first, n + 1) == following_id(nth_id(first, n)),
{
}

/// No id is handed out twice before the counter has gone once round all of
/// `u64`: among the first 2^64 ids of a generator, no two are equal.
pub proof fn lemma_ids_are_not_reused(first: u64, i: nat, j: nat)
    requires
        i < j < 0x1_0000_0000_0000_0000,
    ensures
        nth_id(first, i) != nth_id(first, j),
{
}

} // verus!
