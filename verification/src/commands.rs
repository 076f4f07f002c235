//! Decisions of the follow / unfollow chat commands.
//!
//! The commands themselves run on the chat transport outside the library:
//! reading the argument, resolving the hostname to a socket address,
//! sending the initial message and storing the subscription. The functions
//! here decide, from plain values, which of those steps happens and which
//! reply the user sees.

use vstd::prelude::*;
use vstd::string::*;

verus! {

/// The outcome of resolving the given hostname to a socket address,
/// determined by the platform's resolver outside the library.
#[derive(Clone, Copy, Debug, PartialEq, Eq, Structural)]
pub enum HostResolution {
    /// The string is not a well-formed `host:port` address.
    Invalid,
    /// The string is well-formed but resolves to no socket address.
    NoAddress,
    /// The string resolved to at least one socket address.
    Resolved,
}

/// What the follow command does for one invocation.
#[derive(Clone, Copy, Debug, PartialEq, Eq, Structural)]
pub enum FollowAction {
    /// No hostname argument was given: ask for one.
    AskForHostname,
    /// The argument is not a well-formed address: reject it.
    RejectInvalidHostname,
    /// The address resolves to nothing: reject it.
    RejectUnresolvable,
    /// Send the initial status message and store the subscription.
    Subscribe,
}

impl FollowAction {
    /// The error reply the user sees, or `None` when the subscription
    /// proceeds.
    pub fn reply_text(&self) -> (r: Option<String>)
        ensures
            match *self {
                FollowAction::AskForHostname => r matches Some(t) && t@
                    == "Expected server hostname"@,
                FollowAction::RejectInvalidHostname => r matches Some(t) && t@
                    == "Invalid server hostname"@,
                FollowAction::RejectUnresolvable => r matches Some(t) && t@
                    == "Failed to resolve server address"@,
                FollowAction::Subscribe => r is None,
            },
    {
        match self {
            FollowAction::AskForHostname => Some(String::from_str("Expected server hostname")),
            FollowAction::RejectInvalidHostname => Some(
                String::from_str("Invalid server hostname"),
            ),
            FollowAction::RejectUnresolvable => Some(
                String::from_str("Failed to resolve server address"),
            ),
            FollowAction::Subscribe => None,
        }
    }
}

/// Decide what the follow command does: without an argument it asks for a
/// hostname; with one, the resolver's verdict decides between the two
/// rejections and the subscription itself.
pub fn plan_follow(hostname: &Option<String>, resolution: &HostResolution) -> (p: FollowAction)
    ensures
        hostname is None ==> p == FollowAction::AskForHostname,
        hostname is Some && resolution == HostResolution::Invalid
            ==> p == FollowAction::RejectInvalidHostname,
        hostname is Some && resolution == HostResolution::NoAddress
            ==> p == FollowAction::RejectUnresolvable,
        hostname is Some && resolution == HostResolution::Resolved
            ==> p == FollowAction::Subscribe,
{
    match hostname {
        None => FollowAction::AskForHostname,
        Some(_) => match resolution {
            HostResolution::Invalid => FollowAction::RejectInvalidHostname,
            HostResolution::NoAddress => FollowAction::RejectUnresolvable,
            HostResolution::Resolved => FollowAction::Subscribe,
        },
    }
}

/// The confirmation reply of the unfollow command.
pub fn unfollow_reply() -> (r: String)
    ensures
        r@ == "Unsubscribed from server status updates :("@,
{
    String::from_str("Unsubscribed from server status updates :(")
}

} // verus!
