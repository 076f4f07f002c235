//! The subscription record: one per (channel, game server) pair.

use vstd::prelude::*;

verus! {

/// Mathematical value of a [`Subscription`].
pub ghost struct SubscriptionVal {
    pub id: Option<int>,
    pub guild_id: int,
    pub channel_id: int,
    pub message_id: int,
    pub server_hostname: Seq<char>,
}

/// A persisted binding of a chat channel and status message to a game
/// server address. `id` is assigned by the store on first insert and is the
/// stable handle for deletion; it is `None` only on a record that has not
/// been persisted yet.
#[derive(Debug)]
pub struct Subscription {
    pub id: Option<i64>,
    pub guild_id: u64,
    pub channel_id: u64,
    pub message_id: u64,
    pub server_hostname: String,
}

impl View for Subscription {
    type V = SubscriptionVal;

    open spec fn view(&self) -> SubscriptionVal {
        SubscriptionVal {
            id: if self.id is Some {
                Some(self.id->0 as int)
            } else {
                None
            },
            guild_id: self.guild_id as int,
            channel_id: self.channel_id as int,
            message_id: self.message_id as int,
            server_hostname: self.server_hostname@,
        }
    }
}

impl DeepView for Subscription {
    type V = SubscriptionVal;

    open spec fn deep_view(&self) -> SubscriptionVal {
        self.view()
    }
}

impl Clone for Subscription {
    fn clone(&self) -> (r: Self)
        ensures
            r@ == self@,
    {
        Subscription {
            id: self.id,
            guild_id: self.guild_id,
            channel_id: self.channel_id,
            message_id: self.message_id,
            server_hostname: self.server_hostname.clone(),
        }
    }
}

} // verus!
