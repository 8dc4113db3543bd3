use vstd::prelude::*;

use crate::database::model::AccountView;
use crate::database::table::Row;

verus! {

/// A row of the account relation.
///
/// `spotify` and `github` are the provider user ids of the linked identities, if any.
/// `created` is a Unix timestamp in seconds.
#[derive(Debug)]
pub struct Model {
    pub id: u128,
    pub spotify: Option<String>,
    pub github: Option<u64>,
    pub created: i64,
}

pub open spec fn opt_view(s: Option<String>) -> Option<Seq<char>> {
    match s {
        Some(v) => Some(v@),
        None => None,
    }
}

impl Row for Model {
    type Key = u128;
    type K = u128;
    type V = AccountView;

    open spec fn key(&self) -> u128 {
        self.id
    }

    open spec fn key_view(k: &u128) -> u128 {
        *k
    }

    open spec fn row_view(&self) -> AccountView {
        AccountView { spotify: opt_view(self.spotify), github: self.github, created: self.created }
    }

    fn has_key(&self, k: &u128) -> (r: bool) {
        self.id == *k
    }
}

} // verus!
