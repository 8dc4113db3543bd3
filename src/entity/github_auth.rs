use vstd::prelude::*;

use crate::database::model::GithubAuthView;
use crate::database::table::Row;

verus! {

/// A row of the hosting-provider authentication relation, keyed by the provider's
/// user id. `created_at` is a Unix timestamp in seconds.
pub struct Model {
    pub user_id: u64,
    pub access_token: String,
    pub created_at: i64,
}

impl Row for Model {
    type Key = u64;
    type K = u64;
    type V = GithubAuthView;

    open spec fn key(&self) -> u64 {
        self.user_id
    }

    open spec fn key_view(k: &u64) -> u64 {
        *k
    }

    open spec fn row_view(&self) -> GithubAuthView {
        GithubAuthView { access_token: self.access_token@, created_at: self.created_at }
    }

    fn has_key(&self, k: &u64) -> (r: bool) {
        self.user_id == *k
    }
}

} // verus!
