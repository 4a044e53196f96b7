//! The decisions of a slot-update forwarding loop.
//!
//! The loop itself waits on the stream and the network; here is what it does
//! with each thing it receives.
use vstd::prelude::*;
use crate::block::Block;
use crate::gateway::FetchError;

verus! {

/// Seconds to wait after a failed fetch before listening again.
pub const BACKOFF_SECS: u64 = 5;

/// A notification of the slot-update stream, as far as forwarding cares.
#[derive(PartialEq, Eq, Structural, Clone, Copy, Debug)]
pub enum SlotUpdate {
    /// The slot's block is complete.
    Completed { slot: u64 },
    /// Any other stage of a slot.
    Other,
}

/// What to do with a notification.
#[derive(PartialEq, Eq, Structural, Clone, Copy, Debug)]
pub enum NotificationAction {
    /// Fetch the block of this slot and extract it.
    Fetch(u64),
    /// Keep listening.
    Ignore,
}

/// What to do once a fetch has come back.
#[derive(Debug)]
pub enum FetchAction {
    /// Send the block to the caller.
    Forward(Block),
    /// Wait this many seconds, then keep listening; the stream stays open.
    Backoff(u64),
}

/// Only completed slots are fetched.
pub fn on_slot_update(update: SlotUpdate) -> (r: NotificationAction)
    ensures
        r == match update {
            SlotUpdate::Completed { slot } => NotificationAction::Fetch(slot),
            SlotUpdate::Other => NotificationAction::Ignore,
        },
{
    match update {
        SlotUpdate::Completed { slot } => NotificationAction::Fetch(slot),
        SlotUpdate::Other => NotificationAction::Ignore,
    }
}

/// A fetched block is forwarded; a transient failure backs off.
pub fn on_fetched(result: Result<Block, FetchError>) -> (r: FetchAction)
    ensures
        match result {
            Ok(b) => r == FetchAction::Forward(b),
            Err(_) => r == FetchAction::Backoff(BACKOFF_SECS),
        },
{
    match result {
        Ok(b) => FetchAction::Forward(b),
        Err(_) => FetchAction::Backoff(BACKOFF_SECS),
    }
}

} // verus!
