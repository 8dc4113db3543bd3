//! Provider authentications as the login flows obtain them, and the signed-in user.
use vstd::prelude::*;

use crate::database::id::{AccountId, GithubUserId, SpotifyUserId};
use crate::database::model::{AccountView, GithubAuthView, IdentityView, SpotifyAuthView};
use crate::database::table::Row;
use crate::entity::account::opt_view;
use crate::entity::{github_auth, spotify_auth, user_session};

verus! {

/// A streaming-provider authentication. Times are Unix timestamps in seconds.
pub struct SpotifyAuthentication {
    pub access_token: String,
    pub refresh_token: Option<String>,
    pub user_id: SpotifyUserId,
    pub expires_at: Option<i64>,
    pub created_at: i64,
}

/// A hosting-provider authentication. `created_at` is a Unix timestamp in seconds.
pub struct GithubAuthentication {
    pub access_token: String,
    pub user_id: GithubUserId,
    pub created_at: i64,
}

/// A freshly completed login with one of the two providers.
pub enum ProviderIdentity {
    Streaming(SpotifyAuthentication),
    Hosting(GithubAuthentication),
}

pub(crate) fn clone_opt(s: &Option<String>) -> (r: Option<String>)
    ensures
        opt_view(r) == opt_view(*s),
{
    match s {
        Some(v) => Some(v.clone()),
        None => None,
    }
}

impl SpotifyAuthentication {
    pub open spec fn auth_view(&self) -> SpotifyAuthView {
        SpotifyAuthView {
            access_token: self.access_token@,
            refresh_token: opt_view(self.refresh_token),
            expires_at: self.expires_at,
            created_at: self.created_at,
        }
    }

    pub fn into_model(self) -> (m: spotify_auth::Model)
        ensures
            m.user_id@ == self.user_id@,
            m.row_view() == self.auth_view(),
    {
        spotify_auth::Model {
            user_id: self.user_id.into_string(),
            access_token: self.access_token,
            refresh_token: self.refresh_token,
            expires_at: self.expires_at,
            created_at: self.created_at,
        }
    }

    pub fn from_model(model: spotify_auth::Model) -> (a: SpotifyAuthentication)
        ensures
            a.user_id@ == model.user_id@,
            a.auth_view() == model.row_view(),
    {
        SpotifyAuthentication {
            access_token: model.access_token,
            refresh_token: model.refresh_token,
            user_id: SpotifyUserId::from_rspotify_user_id(model.user_id),
            expires_at: model.expires_at,
            created_at: model.created_at,
        }
    }
}

impl GithubAuthentication {
    pub open spec fn auth_view(&self) -> GithubAuthView {
        GithubAuthView { access_token: self.access_token@, created_at: self.created_at }
    }

    pub fn into_model(self) -> (m: github_auth::Model)
        ensures
            m.user_id == self.user_id.0,
            m.row_view() == self.auth_view(),
    {
        github_auth::Model {
            user_id: self.user_id.0,
            access_token: self.access_token,
            created_at: self.created_at,
        }
    }

    pub fn from_model(model: github_auth::Model) -> (a: GithubAuthentication)
        ensures
            a.user_id.0 == model.user_id,
            a.auth_view() == model.row_view(),
    {
        let user_id = GithubUserId::from_model(&model);
        GithubAuthentication {
            access_token: model.access_token,
            user_id,
            created_at: model.created_at,
        }
    }
}

impl View for ProviderIdentity {
    type V = IdentityView;

    open spec fn view(&self) -> IdentityView {
        match self {
            ProviderIdentity::Streaming(a) => IdentityView::Streaming(a.user_id@, a.auth_view()),
            ProviderIdentity::Hosting(a) => IdentityView::Hosting(a.user_id.0, a.auth_view()),
        }
    }
}

/// An account with the authentications of its linked identities.
pub struct Account {
    pub id: AccountId,
    pub created_at: i64,
    pub spotify: Option<SpotifyAuthentication>,
    pub github: Option<GithubAuthentication>,
}

impl Account {
    /// The account as the store's view records it.
    pub open spec fn account_view(&self) -> AccountView {
        AccountView {
            spotify: match self.spotify {
                Some(a) => Some(a.user_id@),
                None => None,
            },
            github: match self.github {
                Some(a) => Some(a.user_id.0),
                None => None,
            },
            created: self.created_at,
        }
    }

    /// Both identities are linked.
    pub fn is_complete(&self) -> (r: bool)
        ensures
            r == self.account_view().is_complete(),
    {
        self.spotify.is_some() && self.github.is_some()
    }
}

/// A signed-in user: the session presented and the account it is bound to.
pub struct User {
    pub session: user_session::Model,
    pub account: Account,
}

} // verus!
