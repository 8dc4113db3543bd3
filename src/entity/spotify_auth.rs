use vstd::prelude::*;

use crate::database::model::SpotifyAuthView;
use crate::database::table::Row;
use crate::entity::account::opt_view;

verus! {

/// A row of the streaming-provider authentication relation, keyed by the provider's
/// user id. Times are Unix timestamps in seconds.
pub struct Model {
    pub user_id: String,
    pub access_token: String,
    pub refresh_token: Option<String>,
    pub expires_at: Option<i64>,
    pub created_at: i64,
}

impl Row for Model {
    type Key = String;
    type K = Seq<char>;
    type V = SpotifyAuthView;

    open spec fn key(&self) -> Seq<char> {
        self.user_id@
    }

    open spec fn key_view(k: &String) -> Seq<char> {
        k@
    }

    open spec fn row_view(&self) -> SpotifyAuthView {
        SpotifyAuthView {
            access_token: self.access_token@,
            refresh_token: opt_view(self.refresh_token),
            expires_at: self.expires_at,
            created_at: self.created_at,
        }
    }

    fn has_key(&self, k: &String) -> (r: bool) {
        self.user_id == *k
    }
}

} // verus!
