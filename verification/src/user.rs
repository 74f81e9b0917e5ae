//! The account a game is started for, and the statuses a connection
//! attempt can report.

use vstd::prelude::*;

verus! {

/// What a connection attempt against the identity provider has reported
/// so far.
#[derive(Debug)]
pub enum UCStatus {
    /// The connection succeeded with this user.
    User(User),
    /// The request itself could not be sent or answered.
    RequestError(String),
    /// The identity provider rejected the connection.
    ConnectionError(String),
    /// Anything else, such as a closed channel.
    OtherError(String),
    /// Nothing has been decided yet.
    Waiting,
}

/// The account information a running game needs.
#[derive(Debug, PartialEq, Default, Clone)]
pub struct User {
    /// Email or pseudonym.
    pub username: String,
    /// The player's UUID.
    pub uuid: String,
    /// The client token obtained on connection.
    pub client_token: String,
    /// The access token for this account.
    pub access_token: String,
}

impl User {
    pub fn new(username: String, uuid: String, client_token: String, access_token: String) -> (r:
        Self)
        ensures
            r.username == username,
            r.uuid == uuid,
            r.client_token == client_token,
            r.access_token == access_token,
    {
        Self { username, uuid, client_token, access_token }
    }
}

} // verus!
