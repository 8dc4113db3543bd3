use vstd::prelude::*;

use crate::database::model::SessionView;
use crate::database::table::Row;

verus! {

/// A row of the session relation. Times are Unix timestamps in seconds.
#[derive(Debug, Clone, Copy, PartialEq, Eq, Structural)]
pub struct Model {
    pub id: u128,
    pub created: i64,
    pub last_seen: i64,
    pub account: u128,
}

impl Row for Model {
    type Key = u128;
    type K = u128;
    type V = SessionView;

    open spec fn key(&self) -> u128 {
        self.id
    }

    open spec fn key_view(k: &u128) -> u128 {
        *k
    }

    open spec fn row_view(&self) -> SessionView {
        SessionView { account: self.account, created: self.created, last_seen: self.last_seen }
    }

    fn has_key(&self, k: &u128) -> (r: bool) {
        self.id == *k
    }
}

} // verus!
