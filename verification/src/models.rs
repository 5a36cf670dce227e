//! The document models the REST layer stores and serves: channels, messages
//! and user accounts as they live in the document store. Timestamps come
//! from the wall clock and tokens from the token minter, both outside
//! collaborators, so constructors take what they compute as given.

use vstd::prelude::*;

use crate::ext::{new_token, now_timestamp};

verus! {

/// Seconds since the Unix epoch, clamped at zero for a clock that reads
/// before the epoch.
fn current_timestamp() -> u64 {
    let ts = now_timestamp();
    if ts >= 0 {
        ts as u64
    } else {
        0
    }
}

/// A stored channel document.
pub struct Channel {
    pub id: i64,
    pub name: String,
    pub description: Option<String>,
    /// Unix timestamp of the channel's creation.
    pub created_at: u64,
    /// The id of the user who created the channel.
    pub owner_id: i64,
}

impl Channel {
    /// A new channel document, stamped with the current time.
    pub fn new(id: i64, name: &str, description: Option<String>, owner_id: i64) -> (r: Self)
        ensures
            r.id == id,
            r.name@ == name@,
            r.description.deep_view() == description.deep_view(),
            r.owner_id == owner_id,
    {
        Channel {
            id,
            name: name.to_owned(),
            description,
            created_at: current_timestamp(),
            owner_id,
        }
    }
}

/// A stored message document.
pub struct Message {
    pub id: i64,
    pub channel_id: i64,
    pub author_id: i64,
    pub content: String,
    /// Unix timestamp of the message's creation.
    pub created_at: u64,
}

impl Message {
    /// A new message document, stamped with the current time.
    pub fn new(id: i64, channel_id: i64, author_id: i64, content: &str) -> (r: Self)
        ensures
            r.id == id,
            r.channel_id == channel_id,
            r.author_id == author_id,
            r.content@ == content@,
    {
        Message {
            id,
            channel_id,
            author_id,
            content: content.to_owned(),
            created_at: current_timestamp(),
        }
    }
}

/// A stored user account.
pub struct User {
    pub id: i64,
    pub email: String,
    pub username: String,
    /// The hash of the user's password, never the password itself.
    pub password: String,
    /// The user's bearer token.
    pub token: String,
    /// Unix timestamp of the account's creation.
    pub created_at: u64,
    pub avatar: Option<String>,
}

impl User {
    /// A new account with a freshly minted bearer token, stamped with the
    /// current time.
    pub fn new(
        id: i64,
        email: &str,
        username: &str,
        password: &str,
        avatar: Option<String>,
    ) -> (r: Self)
        ensures
            r.id == id,
            r.email@ == email@,
            r.username@ == username@,
            r.password@ == password@,
            r.token@.len() == 36,
            crate::ext::uuid_valid(r.token@),
            r.avatar.deep_view() == avatar.deep_view(),
    {
        User {
            id,
            email: email.to_owned(),
            username: username.to_owned(),
            password: password.to_owned(),
            token: new_token(),
            created_at: current_timestamp(),
            avatar,
        }
    }

    /// The gateway-facing projection of this account: no email, no
    /// credentials.
    pub fn to_gateway(&self) -> (r: crate::events::User)
        ensures
            r@ == (crate::events::UserV {
                id: self.id,
                username: self.username@,
                joined: self.created_at,
                avatar: self.avatar.deep_view(),
            }),
    {
        crate::events::User {
            id: self.id,
            username: self.username.clone(),
            joined: self.created_at,
            avatar: match &self.avatar {
                Some(a) => Some(a.clone()),
                None => None,
            },
        }
    }
}

} // verus!
