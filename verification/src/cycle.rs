//! Decisions of the polling cycle.
//!
//! Once per interval the bot enumerates the stored subscriptions, queries
//! each game server, edits the corresponding channel message, and — only
//! when the edit failed because the message no longer exists — deletes the
//! subscription. The querying and the edit are transport work done outside
//! the library; the functions here take their outcomes as plain values and
//! decide what happens to each subscription.

use vstd::prelude::*;
use vstd::string::*;

use crate::db::BotDb;
use crate::status::ServerInfo;
use crate::store::{without_id, StoreError};
use crate::types::Subscription;

verus! {

/// What the library reads from a failed message edit: the chat transport
/// reported an unsuccessful HTTP request with an error message, or it
/// failed in any other way.
pub enum EditFailure {
    HttpUnsuccessful { message: String },
    Other,
}

/// The edit failed because the target message no longer exists: the
/// transport reported an unsuccessful request whose error message is
/// exactly "Unknown Message".
pub open spec fn message_removed_spec(err: EditFailure) -> bool {
    err matches EditFailure::HttpUnsuccessful { message } && message@ == "Unknown Message"@
}

/// Classify an edit failure: `true` exactly when it signals that the
/// target message was removed.
pub fn is_message_was_removed_error(err: &EditFailure) -> (b: bool)
    ensures
        b == message_removed_spec(*err),
{
    match err {
        EditFailure::HttpUnsuccessful { message } => {
            let target = String::from_str("Unknown Message");
            *message == target
        },
        EditFailure::Other => false,
    }
}

/// The edit outcome confirms that the message is gone.
pub open spec fn edit_says_message_gone(res: Result<(), EditFailure>) -> bool {
    res matches Err(e) && message_removed_spec(e)
}

/// What became of a subscription after one cycle step.
#[derive(Clone, Copy, Debug, PartialEq, Eq, Structural)]
pub enum SubscriptionFate {
    /// The row stays; it is retried next cycle.
    Kept,
    /// The row was deleted because the target message no longer exists.
    Removed,
}

/// Whether the player-name list should be fetched after a query: only when
/// the query succeeded and reported at least one player.
pub fn should_query_players(info: &Option<ServerInfo>) -> (b: bool)
    ensures
        b == (*info matches Some(i) && i.players > 0),
{
    match info {
        Some(i) => i.players > 0,
        None => false,
    }
}

/// Apply the outcome of a message edit to the subscription's row. Exactly
/// when the edit failed because the message is gone, the row is deleted (by
/// its id, so at most that one row); on every other outcome — success or
/// any other failure — the store stays untouched and the row is retried
/// next cycle.
pub fn handle_edit_outcome(
    db: &mut BotDb,
    sub: &Subscription,
    edit_result: &Result<(), EditFailure>,
) -> (r: Result<SubscriptionFate, StoreError>)
    requires
        sub.id is Some,
    ensures
        !edit_says_message_gone(*edit_result) ==> r == Ok::<SubscriptionFate, StoreError>(
            SubscriptionFate::Kept,
        ) && final(db)@ == old(db)@,
        edit_says_message_gone(*edit_result) ==> match r {
            Ok(fate) => {
                &&& fate == SubscriptionFate::Removed
                &&& final(db)@ == without_id(old(db)@, sub@.id->0)
                &&& old(db)@.len() <= final(db)@.len() + 1
            },
            Err(e) => final(db)@ == old(db)@ && e == StoreError::Storage,
        },
{
    match edit_result {
        Ok(()) => Ok(SubscriptionFate::Kept),
        Err(err) => {
            if is_message_was_removed_error(err) {
                let id = sub.id.unwrap();
                match db.delete_subscription_by_id(id) {
                    Ok(_) => Ok(SubscriptionFate::Removed),
                    Err(e) => Err(e),
                }
            } else {
                Ok(SubscriptionFate::Kept)
            }
        },
    }
}

/// The one-shot guard around starting the polling loop: however often the
/// readiness signal fires, only the first attempt may start it.
pub struct LoopGuard {
    started: bool,
}

impl LoopGuard {
    /// Whether the loop has been started.
    pub closed spec fn is_started(self) -> bool {
        self.started
    }

    /// A fresh guard: nothing started yet.
    pub fn new() -> (g: Self)
        ensures
            !g.is_started(),
    {
        LoopGuard { started: false }
    }

    /// Claim the right to start the loop: succeeds exactly once.
    pub fn try_start(&mut self) -> (r: bool)
        ensures
            r == !old(self).is_started(),
            final(self).is_started(),
    {
        let r = !self.started;
        self.started = true;
        r
    }
}

} // verus!
