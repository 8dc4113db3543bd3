use vstd::prelude::*;

use crate::entity::{account, github_auth, spotify_auth, user_session};

verus! {

/// The user id that the code-hosting provider assigns.
#[derive(Debug, Clone, Copy, PartialEq, Eq, Structural)]
pub struct GithubUserId(pub u64);

impl GithubUserId {
    /// The id as the hosting provider's API reports it.
    pub fn from_octocrab(user_id: u64) -> (r: GithubUserId)
        ensures
            r.0 == user_id,
    {
        GithubUserId(user_id)
    }

    pub fn from_model(model: &github_auth::Model) -> (r: GithubUserId)
        ensures
            r.0 == model.user_id,
    {
        GithubUserId(model.user_id)
    }
}

/// The user id that the streaming provider assigns.
#[derive(Debug, Clone)]
pub struct SpotifyUserId(pub String);

impl View for SpotifyUserId {
    type V = Seq<char>;

    open spec fn view(&self) -> Seq<char> {
        self.0@
    }
}

impl SpotifyUserId {
    pub fn from_model(auth: &spotify_auth::Model) -> (r: SpotifyUserId)
        ensures
            r@ == auth.user_id@,
    {
        SpotifyUserId(auth.user_id.clone())
    }

    /// The id as the streaming provider's API reports it.
    pub fn from_rspotify_user_id(id: String) -> (r: SpotifyUserId)
        ensures
            r@ == id@,
    {
        SpotifyUserId(id)
    }

    pub fn as_str(&self) -> (r: &str)
        ensures
            r@ == self@,
    {
        self.0.as_str()
    }

    pub fn into_string(self) -> (r: String)
        ensures
            r@ == self@,
    {
        self.0
    }
}

/// The identifier of an account (a UUID, as its 128-bit value).
#[derive(Debug, Clone, Copy, PartialEq, Eq, Structural)]
pub struct AccountId(pub u128);

impl AccountId {
    pub fn from_model(account: &account::Model) -> (r: AccountId)
        ensures
            r.0 == account.id,
    {
        AccountId(account.id)
    }

    pub fn from_session(session: &user_session::Model) -> (r: AccountId)
        ensures
            r.0 == session.account,
    {
        AccountId(session.account)
    }

    pub fn into_uuid(self) -> (r: u128)
        ensures
            r == self.0,
    {
        self.0
    }
}

/// The identifier of a session (a UUID, as its 128-bit value). The nil id, 0, stands
/// for no session.
#[derive(Debug, Clone, Copy, PartialEq, Eq, Structural)]
pub struct UserSessionId(pub u128);

impl UserSessionId {
    pub fn from_model(session: &user_session::Model) -> (r: UserSessionId)
        ensures
            r.0 == session.id,
    {
        UserSessionId(session.id)
    }

    pub fn into_uuid(self) -> (r: u128)
        ensures
            r == self.0,
    {
        self.0
    }

    pub fn from_raw(uuid: u128) -> (r: UserSessionId)
        ensures
            r.0 == uuid,
    {
        UserSessionId(uuid)
    }
}

} // verus!
