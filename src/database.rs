//! The account store and its reconciliation operations.
//!
//! Each public operation of [`Database`] is all-or-nothing: it either performs every
//! write of the step, or fails and leaves the store as it was. The reading half of a
//! login ([`Database::begin_login`]) and the writing half ([`Database::commit_login`])
//! are separate, so that a plan made on one state can be committed on a later one: the
//! commit checks the uniqueness of identities again and reports a claim that another
//! login made in between as a conflict.
pub mod id;
pub mod laws;
pub mod model;
pub mod preservation;
pub mod table;

use vstd::prelude::*;

use crate::authentication::{
    clone_opt, Account, GithubAuthentication, ProviderIdentity, SpotifyAuthentication, User,
};
use crate::error::GithubAccountAlreadyTakenError;
use crate::fresh::{fresh_uuid, now_unix};
use crate::session::UserSession;
use crate::entity::{account, github_auth, spotify_auth, user_session};
use crate::error::ReconcileError;

use self::id::{AccountId, GithubUserId, SpotifyUserId, UserSessionId};
use self::model::{AccountView, DatabaseView, IdentityKey, IdentityView, LoginPlan};
use self::preservation::{
    lemma_claimant, lemma_commit, lemma_delete_account, lemma_logout, lemma_remove_hosting,
    lemma_resolve,
};
use self::table::{lemma_view_at, lemma_view_has_row, Row, Table};

verus! {

/// The session key that an optional session id stands for.
pub open spec fn session_key(session: Option<UserSessionId>) -> Option<u128> {
    match session {
        Some(s) => Some(s.0),
        None => None,
    }
}

/// The session key of the session a browser presents, if any.
pub open spec fn presented_key(session: Option<UserSession>) -> Option<u128> {
    match session {
        Some(u) => Some(u.id.0),
        None => None,
    }
}

/// A login result with the session as its key.
pub open spec fn session_result(r: Result<UserSessionId, ReconcileError>) -> Result<
    u128,
    ReconcileError,
> {
    match r {
        Ok(s) => Ok(s.0),
        Err(e) => Err(e),
    }
}

/// `acc` is an account of the store, with the stored authentications of its identities.
pub open spec fn account_matches(s: DatabaseView, acc: Account) -> bool {
    &&& s.accounts.contains_key(acc.id.0)
    &&& acc.account_view() == s.accounts[acc.id.0]
    &&& match acc.spotify {
        Some(a) => s.spotify.contains_key(a.user_id@) && s.spotify[a.user_id@] == a.auth_view(),
        None => true,
    }
    &&& match acc.github {
        Some(a) => s.github.contains_key(a.user_id.0) && s.github[a.user_id.0] == a.auth_view(),
        None => true,
    }
}

/// The answer of a hosting link to a commit's result: a conflict means the identity
/// is taken; any other error is passed on.
pub open spec fn link_answer(c: Result<u128, ReconcileError>) -> Result<
    Result<(), GithubAccountAlreadyTakenError>,
    ReconcileError,
> {
    match c {
        Ok(_) => Ok(Ok(())),
        Err(ReconcileError::Conflict) => Ok(Err(GithubAccountAlreadyTakenError)),
        Err(e) => Err(e),
    }
}

/// The commit `c` left the store `t` and its result gives the answer `r`.
pub open spec fn link_matches(
    c: (DatabaseView, Result<u128, ReconcileError>),
    t: DatabaseView,
    r: Result<Result<(), GithubAccountAlreadyTakenError>, ReconcileError>,
) -> bool {
    c.0 == t && r == link_answer(c.1)
}

/// What a hosting link from session `sid` onto account `a` guarantees, going from `s`
/// to `t` with answer `r`: when the session is stored, the identity is reported taken
/// exactly when another account holds it; the link succeeds when the session is bound
/// to `a` and no other account holds the identity; on success `a` holds it; otherwise
/// nothing changed.
pub open spec fn link_guarantees(
    s: DatabaseView,
    t: DatabaseView,
    sid: u128,
    a: u128,
    k: IdentityKey,
    r: Result<Result<(), GithubAccountAlreadyTakenError>, ReconcileError>,
) -> bool {
    let foreign = s.claimed(k) && s.claimant(k) != a;
    &&& s.sessions.contains_key(sid) ==> (r == Ok::<
        Result<(), GithubAccountAlreadyTakenError>,
        ReconcileError,
    >(Err(GithubAccountAlreadyTakenError))) == foreign
    &&& s.sessions.contains_key(sid) && s.sessions[sid].account == a && !foreign ==> r == Ok::<
        Result<(), GithubAccountAlreadyTakenError>,
        ReconcileError,
    >(Ok(()))
    &&& r is Ok && r->Ok_0 is Ok ==> t.accounts.contains_key(a) && t.accounts[a].holds(k)
    &&& !(r is Ok && r->Ok_0 is Ok) ==> t == s
}

/// What holds after a login from `s` to `t`, whatever fresh ids it drew: on success the
/// session is stored and bound to an account that holds the identity, a non-nil id, and
/// the presented id only if that session was stored and stays bound to the same account;
/// on failure the store is unchanged.
pub open spec fn login_outcome(
    s: DatabaseView,
    t: DatabaseView,
    session: Option<u128>,
    k: IdentityKey,
    r: Result<UserSessionId, ReconcileError>,
) -> bool {
    match r {
        Ok(sid) => {
            &&& sid.0 != 0
            &&& t.sessions.contains_key(sid.0)
            &&& t.accounts.contains_key(t.sessions[sid.0].account)
            &&& t.accounts[t.sessions[sid.0].account].holds(k)
            &&& session == Some(sid.0) ==> s.sessions.contains_key(sid.0)
                && s.sessions[sid.0].account == t.sessions[sid.0].account
        },
        Err(_) => t == s,
    }
}

/// The store: accounts, streaming and hosting authentications, and sessions.
pub struct Database {
    accounts: Table<account::Model>,
    spotify_auths: Table<spotify_auth::Model>,
    github_auths: Table<github_auth::Model>,
    sessions: Table<user_session::Model>,
}

impl View for Database {
    type V = DatabaseView;

    closed spec fn view(&self) -> DatabaseView {
        DatabaseView {
            accounts: self.accounts.view(),
            spotify: self.spotify_auths.view(),
            github: self.github_auths.view(),
            sessions: self.sessions.view(),
        }
    }
}

fn row_holds(row: &account::Model, id: &ProviderIdentity) -> (r: bool)
    ensures
        r == row.row_view().holds(id@.key()),
{
    match id {
        ProviderIdentity::Streaming(a) => match &row.spotify {
            Some(s) => *s == a.user_id.0,
            None => false,
        },
        ProviderIdentity::Hosting(a) => match row.github {
            Some(g) => g == a.user_id.0,
            None => false,
        },
    }
}

impl Database {
    closed spec fn tables_wf(&self) -> bool {
        &&& self.accounts.wf()
        &&& self.spotify_auths.wf()
        &&& self.github_auths.wf()
        &&& self.sessions.wf()
    }

    /// The store's invariant holds.
    pub closed spec fn wf(&self) -> bool {
        self.tables_wf() && self@.wf()
    }

    /// An empty store.
    pub fn new() -> (db: Database)
        ensures
            db.wf(),
            db@ == DatabaseView::empty(),
    {
        let db = Database {
            accounts: Table::new(),
            spotify_auths: Table::new(),
            github_auths: Table::new(),
            sessions: Table::new(),
        };
        assert(db@ == DatabaseView::empty());
        db
    }

    /// The index of the account that holds the identity, if any.
    fn find_claimant(&self, id: &ProviderIdentity) -> (r: Option<usize>)
        requires
            self.wf(),
        ensures
            match r {
                Some(i) => i < self.accounts.rows@.len() && self@.claimed(id@.key())
                    && self@.claimant(id@.key()) == self.accounts.rows@[i as int].id,
                None => !self@.claimed(id@.key()),
            },
    {
        let mut i: usize = 0;
        while i < self.accounts.len()
            invariant
                self.wf(),
                i <= self.accounts.rows@.len(),
                forall|j: int|
                    0 <= j < i ==> !(#[trigger] self.accounts.rows@[j]).row_view().holds(id@.key()),
            decreases self.accounts.rows@.len() - i,
        {
            if row_holds(self.accounts.get(i), id) {
                proof {
                    lemma_view_at(self.accounts.rows@, i as int);
                    lemma_claimant(self@, self.accounts.rows@[i as int].id, id@.key());
                }
                return Some(i);
            }
            i = i + 1;
        }
        proof {
            assert forall|a: u128| self@.accounts.contains_key(a) implies !(
            #[trigger] self@.accounts[a]).holds(id@.key()) by {
                lemma_view_has_row(self.accounts.rows@, a);
                let j = choose|j: int|
                    0 <= j < self.accounts.rows@.len() && #[trigger] self.accounts.rows@[j].key()
                        == a;
                lemma_view_at(self.accounts.rows@, j);
            }
        }
        None
    }

    /// Some session is bound to account `a`.
    fn has_sessions(&self, a: u128) -> (r: bool)
        requires
            self.tables_wf(),
        ensures
            r == self@.has_sessions(a),
    {
        let mut i: usize = 0;
        while i < self.sessions.len()
            invariant
                self.tables_wf(),
                i <= self.sessions.rows@.len(),
                forall|j: int| 0 <= j < i ==> (#[trigger] self.sessions.rows@[j]).account != a,
            decreases self.sessions.rows@.len() - i,
        {
            if self.sessions.get(i).account == a {
                proof {
                    lemma_view_at(self.sessions.rows@, i as int);
                    assert(self@.sessions[self.sessions.rows@[i as int].id].account == a);
                }
                return true;
            }
            i = i + 1;
        }
        proof {
            assert forall|sid: u128| self@.sessions.contains_key(sid) implies (
            #[trigger] self@.sessions[sid]).account != a by {
                lemma_view_has_row(self.sessions.rows@, sid);
                let j = choose|j: int|
                    0 <= j < self.sessions.rows@.len() && #[trigger] self.sessions.rows@[j].key()
                        == sid;
                lemma_view_at(self.sessions.rows@, j);
            }
        }
        false
    }

    /// Stores the authentication of the identity; an existing entry keeps its creation time.
    fn upsert_auth(&mut self, id: &ProviderIdentity)
        requires
            old(self).tables_wf(),
        ensures
            final(self).tables_wf(),
            final(self)@ == old(self)@.upsert_auth(id@),
            final(self).accounts == old(self).accounts,
    {
        match id {
            ProviderIdentity::Streaming(a) => {
                let found = self.spotify_auths.find(&a.user_id.0);
                let created_at = match found {
                    Some(i) => self.spotify_auths.get(i).created_at,
                    None => a.created_at,
                };
                let row = spotify_auth::Model {
                    user_id: a.user_id.0.clone(),
                    access_token: a.access_token.clone(),
                    refresh_token: clone_opt(&a.refresh_token),
                    expires_at: a.expires_at,
                    created_at,
                };
                match found {
                    Some(i) => self.spotify_auths.set(i, row),
                    None => self.spotify_auths.push(row),
                }
            },
            ProviderIdentity::Hosting(a) => {
                let found = self.github_auths.find(&a.user_id.0);
                let created_at = match found {
                    Some(i) => self.github_auths.get(i).created_at,
                    None => a.created_at,
                };
                let row = github_auth::Model {
                    user_id: a.user_id.0,
                    access_token: a.access_token.clone(),
                    created_at,
                };
                match found {
                    Some(i) => self.github_auths.set(i, row),
                    None => self.github_auths.push(row),
                }
            },
        }
    }

    /// Removes the stored streaming authentication with this user id, if any.
    fn drop_spotify_auth(&mut self, user_id: &String)
        requires
            old(self).tables_wf(),
        ensures
            final(self).tables_wf(),
            final(self)@ == old(self)@.drop_auth(IdentityKey::Streaming(user_id@)),
            final(self).accounts == old(self).accounts,
    {
        match self.spotify_auths.find(user_id) {
            Some(j) => {
                self.spotify_auths.remove(j);
            },
            None => {
                assert(self@.spotify =~= self@.spotify.remove(user_id@));
            },
        }
    }

    /// Removes the stored hosting authentication with this user id, if any.
    fn drop_github_auth(&mut self, user_id: u64)
        requires
            old(self).tables_wf(),
        ensures
            final(self).tables_wf(),
            final(self)@ == old(self)@.drop_auth(IdentityKey::Hosting(user_id)),
            final(self).accounts == old(self).accounts,
    {
        match self.github_auths.find(&user_id) {
            Some(j) => {
                self.github_auths.remove(j);
            },
            None => {
                assert(self@.github =~= self@.github.remove(user_id));
            },
        }
    }

    /// Links the identity onto the account at index `ai`, in place of the one it had
    /// from that provider, whose authentication goes.
    fn link(&mut self, ai: usize, id: &ProviderIdentity)
        requires
            old(self).tables_wf(),
            ai < old(self).accounts.rows@.len(),
        ensures
            final(self).tables_wf(),
            final(self)@ == old(self)@.link(old(self).accounts.rows@[ai as int].id, id@.key()),
    {
        proof {
            lemma_view_at(self.accounts.rows@, ai as int);
        }
        let ghost a = self.accounts.rows@[ai as int].id;
        let row_id = self.accounts.get(ai).id;
        let created = self.accounts.get(ai).created;
        let new_row = match id {
            ProviderIdentity::Streaming(auth) => {
                let github = self.accounts.get(ai).github;
                match &self.accounts.get(ai).spotify {
                    Some(previous) => {
                        let previous = previous.clone();
                        self.drop_spotify_auth(&previous);
                    },
                    None => {},
                }
                account::Model {
                    id: row_id,
                    spotify: Some(auth.user_id.0.clone()),
                    github,
                    created,
                }
            },
            ProviderIdentity::Hosting(auth) => {
                let spotify = clone_opt(&self.accounts.get(ai).spotify);
                match self.accounts.get(ai).github {
                    Some(previous) => {
                        self.drop_github_auth(previous);
                    },
                    None => {},
                }
                account::Model { id: row_id, spotify, github: Some(auth.user_id.0), created }
            },
        };
        self.accounts.set(ai, new_row);
    }

    /// Adds a new account that holds the identity alone.
    fn create_account(&mut self, fresh_account: u128, id: &ProviderIdentity, now: i64)
        requires
            old(self).tables_wf(),
            !old(self)@.accounts.contains_key(fresh_account),
        ensures
            final(self).tables_wf(),
            final(self)@ == (DatabaseView {
                accounts: old(self)@.accounts.insert(
                    fresh_account,
                    AccountView::fresh(id@.key(), now),
                ),
                ..old(self)@
            }),
    {
        let row = match id {
            ProviderIdentity::Streaming(a) => account::Model {
                id: fresh_account,
                spotify: Some(a.user_id.0.clone()),
                github: None,
                created: now,
            },
            ProviderIdentity::Hosting(a) => account::Model {
                id: fresh_account,
                spotify: None,
                github: Some(a.user_id.0),
                created: now,
            },
        };
        self.accounts.push(row);
    }

    /// Removes every session bound to account `a`.
    fn remove_sessions_of(&mut self, a: u128)
        requires
            old(self).tables_wf(),
        ensures
            final(self).tables_wf(),
            final(self)@ == (DatabaseView {
                sessions: Map::new(
                    |sid: u128|
                        old(self)@.sessions.contains_key(sid) && old(self)@.sessions[sid].account
                            != a,
                    |sid: u128| old(self)@.sessions[sid],
                ),
                ..old(self)@
            }),
    {
        let ghost before = self@.sessions;
        let mut i: usize = 0;
        while i < self.sessions.len()
            invariant
                self.tables_wf(),
                self.accounts == old(self).accounts,
                self.spotify_auths == old(self).spotify_auths,
                self.github_auths == old(self).github_auths,
                before == old(self)@.sessions,
                i <= self.sessions.rows@.len(),
                forall|j: int| 0 <= j < i ==> (#[trigger] self.sessions.rows@[j]).account != a,
                forall|sid: u128| #[trigger]
                    self@.sessions.contains_key(sid) ==> before.contains_key(sid)
                        && self@.sessions[sid] == before[sid],
                forall|sid: u128|
                    before.contains_key(sid) && before[sid].account != a ==> #[trigger]
                    self@.sessions.contains_key(sid),
            decreases self.sessions.rows@.len() - i,
        {
            if self.sessions.get(i).account == a {
                proof {
                    lemma_view_at(self.sessions.rows@, i as int);
                }
                let ghost prev = self.sessions.rows@;
                let ghost prev_view = self@.sessions;
                let removed = self.sessions.remove(i);
                assert(self@.sessions == prev_view.remove(removed.id));
                assert(prev_view[removed.id].account == a);
                assert forall|sid: u128|
                    before.contains_key(sid) && before[sid].account != a implies #[trigger]
                    self@.sessions.contains_key(sid) by {
                    assert(prev_view.contains_key(sid));
                    assert(prev_view[sid] == before[sid]);
                }
                assert forall|j: int| 0 <= j < i implies (
                #[trigger] self.sessions.rows@[j]).account != a by {
                    assert(self.sessions.rows@[j] == prev[j]);
                }
            } else {
                i = i + 1;
            }
        }
        proof {
            let target = Map::new(
                |sid: u128| before.contains_key(sid) && before[sid].account != a,
                |sid: u128| before[sid],
            );
            assert forall|sid: u128| #[trigger]
                self@.sessions.contains_key(sid) implies before[sid].account != a by {
                lemma_view_has_row(self.sessions.rows@, sid);
                let j = choose|j: int|
                    0 <= j < self.sessions.rows@.len() && #[trigger] self.sessions.rows@[j].key()
                        == sid;
                lemma_view_at(self.sessions.rows@, j);
            }
            assert(self@.sessions =~= target);
        }
    }

    /// Removes account `a` with its authentications and sessions.
    fn remove_account(&mut self, a: u128)
        requires
            old(self).tables_wf(),
            old(self)@.accounts.contains_key(a),
        ensures
            final(self).tables_wf(),
            final(self)@ == old(self)@.without_account(a),
    {
        let ghost s0 = self@;
        match self.accounts.find(&a) {
            Some(ai) => {
                let row = self.accounts.remove(ai);
                let ghost s1 = self@;
                match &row.spotify {
                    Some(id) => self.drop_spotify_auth(id),
                    None => {},
                }
                match row.github {
                    Some(id) => self.drop_github_auth(id),
                    None => {},
                }
                self.remove_sessions_of(a);
                assert(self@.accounts == s0.without_account(a).accounts);
                assert(self@.sessions =~= s0.without_account(a).sessions);
            },
            None => {},
        }
    }

    /// Ends session `sid`, with the cleanup of an abandoned incomplete account.
    fn end_session(&mut self, sid: u128)
        requires
            old(self).tables_wf(),
        ensures
            final(self).tables_wf(),
            final(self)@ == old(self)@.logout(sid),
    {
        match self.sessions.find(&sid) {
            None => {},
            Some(i) => {
                let row = self.sessions.remove(i);
                let a = row.account;
                match self.accounts.find(&a) {
                    Some(ai) => {
                        let acc = self.accounts.get(ai);
                        let complete = acc.spotify.is_some() && acc.github.is_some();
                        if !complete && !self.has_sessions(a) {
                            self.remove_account(a);
                        }
                    },
                    None => {},
                }
            },
        }
    }

    /// Gives the caller a session bound to account `t`.
    fn bind_session(
        &mut self,
        session: Option<UserSessionId>,
        t: u128,
        fresh_session: u128,
        now: i64,
    ) -> (r: Result<u128, ReconcileError>)
        requires
            old(self).tables_wf(),
        ensures
            final(self).tables_wf(),
            match old(self)@.bind_session(session_key(session), t, fresh_session, now) {
                Ok((s, sid)) => final(self)@ == s && r == Ok::<u128, ReconcileError>(sid),
                Err(e) => final(self)@ == old(self)@ && r == Err::<u128, ReconcileError>(e),
            },
    {
        let mut reuse: Option<usize> = None;
        let mut presented_stored = false;
        match session {
            Some(sid) => match self.sessions.find(&sid.0) {
                Some(i) => {
                    presented_stored = true;
                    if self.sessions.get(i).account == t {
                        reuse = Some(i);
                    }
                },
                None => {},
            },
            None => {},
        }
        match reuse {
            Some(i) => {
                let row = *self.sessions.get(i);
                self.sessions.set(
                    i,
                    user_session::Model {
                        id: row.id,
                        created: row.created,
                        last_seen: now,
                        account: row.account,
                    },
                );
                Ok(row.id)
            },
            None => {
                let same_as_presented = match session {
                    Some(sid) => sid.0 == fresh_session,
                    None => false,
                };
                if fresh_session == 0 || same_as_presented || self.sessions.find(
                    &fresh_session,
                ).is_some() {
                    return Err(ReconcileError::Internal);
                }
                self.sessions.push(
                    user_session::Model {
                        id: fresh_session,
                        created: now,
                        last_seen: now,
                        account: t,
                    },
                );
                match session {
                    Some(sid) => {
                        if presented_stored {
                            self.end_session(sid.0);
                        }
                    },
                    None => {},
                }
                Ok(fresh_session)
            },
        }
    }

    /// The reading half of a login: which account the identity goes to.
    pub fn begin_login(&self, session: Option<UserSessionId>, identity: &ProviderIdentity) -> (p:
        LoginPlan)
        requires
            self.wf(),
        ensures
            p == self@.plan(session_key(session), identity@.key()),
    {
        match self.find_claimant(identity) {
            Some(ci) => LoginPlan::Existing(self.accounts.get(ci).id),
            None => match session {
                Some(sid) => match self.sessions.find(&sid.0) {
                    Some(i) => LoginPlan::LinkTo(self.sessions.get(i).account),
                    None => LoginPlan::Create,
                },
                None => LoginPlan::Create,
            },
        }
    }

    /// The writing half of a login, checked against the store as it is now. On failure
    /// the store is left as it was.
    pub fn commit_login(
        &mut self,
        plan: LoginPlan,
        session: Option<UserSessionId>,
        identity: ProviderIdentity,
        fresh_account: u128,
        fresh_session: u128,
        now: i64,
    ) -> (r: Result<UserSessionId, ReconcileError>)
        requires
            old(self).wf(),
        ensures
            final(self).wf(),
            (final(self)@, session_result(r)) == old(self)@.commit(
                plan,
                session_key(session),
                identity@,
                fresh_account,
                fresh_session,
                now,
            ),
    {
        proof {
            lemma_commit(
                self@,
                plan,
                session_key(session),
                identity@,
                fresh_account,
                fresh_session,
                now,
            );
        }
        // Reads: the target account, and what the writes will be.
        let target: u128;
        let mut link_at: Option<usize> = None;
        let mut create = false;
        match self.find_claimant(&identity) {
            Some(ci) => {
                let c = self.accounts.get(ci).id;
                let matches = match plan {
                    LoginPlan::Existing(a) => a == c,
                    LoginPlan::LinkTo(a) => a == c,
                    LoginPlan::Create => false,
                };
                if !matches {
                    return Err(ReconcileError::Conflict);
                }
                target = c;
            },
            None => match plan {
                LoginPlan::Existing(_) => {
                    return Err(ReconcileError::Internal);
                },
                LoginPlan::LinkTo(a) => match self.accounts.find(&a) {
                    Some(ai) => {
                        target = a;
                        link_at = Some(ai);
                    },
                    None => {
                        return Err(ReconcileError::Internal);
                    },
                },
                LoginPlan::Create => {
                    if self.accounts.find(&fresh_account).is_some() {
                        return Err(ReconcileError::Internal);
                    }
                    target = fresh_account;
                    create = true;
                },
            },
        }
        let reuse = match session {
            Some(sid) => match self.sessions.find(&sid.0) {
                Some(i) => self.sessions.get(i).account == target,
                None => false,
            },
            None => false,
        };
        let same_as_presented = match session {
            Some(sid) => sid.0 == fresh_session,
            None => false,
        };
        if !reuse && (fresh_session == 0 || same_as_presented || self.sessions.find(
            &fresh_session,
        ).is_some()) {
            return Err(ReconcileError::Internal);
        }
        // Writes.
        self.upsert_auth(&identity);
        match link_at {
            Some(ai) => self.link(ai, &identity),
            None => {
                if create {
                    self.create_account(fresh_account, &identity, now);
                }
            },
        }
        match self.bind_session(session, target, fresh_session, now) {
            Ok(sid) => Ok(UserSessionId(sid)),
            Err(e) => Err(e),
        }
    }

    /// A whole login with the given fresh ids and time: [`Database::begin_login`] and
    /// [`Database::commit_login`] on the same store.
    pub fn login_with(
        &mut self,
        session: Option<UserSessionId>,
        identity: ProviderIdentity,
        fresh_account: u128,
        fresh_session: u128,
        now: i64,
    ) -> (r: Result<UserSessionId, ReconcileError>)
        requires
            old(self).wf(),
        ensures
            final(self).wf(),
            (final(self)@, session_result(r)) == old(self)@.login(
                session_key(session),
                identity@,
                fresh_account,
                fresh_session,
                now,
            ),
    {
        let plan = self.begin_login(session, &identity);
        self.commit_login(plan, session, identity, fresh_account, fresh_session, now)
    }

    /// Logs session `session` out; see [`DatabaseView::logout`].
    pub fn logout(&mut self, session: UserSessionId)
        requires
            old(self).wf(),
        ensures
            final(self).wf(),
            final(self)@ == old(self)@.logout(session.0),
    {
        proof {
            lemma_logout(self@, session.0);
        }
        self.end_session(session.0);
    }

    /// Deletes account `account` with its authentications and sessions. Returns whether
    /// there was such an account.
    pub fn delete_account(&mut self, account: u128) -> (deleted: bool)
        requires
            old(self).wf(),
        ensures
            final(self).wf(),
            (final(self)@, deleted) == old(self)@.delete_account(account),
    {
        proof {
            lemma_delete_account(self@, account);
        }
        match self.accounts.find(&account) {
            Some(_) => {
                self.remove_account(account);
                true
            },
            None => false,
        }
    }

    /// The store's view satisfies its invariant.
    pub proof fn lemma_view_wf(&self)
        requires
            self.wf(),
        ensures
            self@.wf(),
    {
    }

    /// Reconciles a freshly completed provider login with the presented session: the
    /// identity's authentication is stored, the identity goes to the account that holds
    /// it, else to the presented session's account, else to a new account, and the
    /// caller gets a session bound to that account. The fresh ids are random and the
    /// time is the current one; [`Database::login_with`] states the step for given ones.
    pub fn login_via_provider(
        &mut self,
        session: Option<UserSessionId>,
        identity: ProviderIdentity,
    ) -> (r: Result<UserSessionId, ReconcileError>)
        requires
            old(self).wf(),
        ensures
            final(self).wf(),
            exists|fresh_account: u128, fresh_session: u128, now: i64|
                fresh_account != 0 && fresh_session != 0 && #[trigger] old(self)@.login(
                    session_key(session),
                    identity@,
                    fresh_account,
                    fresh_session,
                    now,
                ) == (final(self)@, session_result(r)),
            login_outcome(old(self)@, final(self)@, session_key(session), identity@.key(), r),
    {
        let fresh_account = fresh_uuid();
        let fresh_session = fresh_uuid();
        let now = now_unix();
        proof {
            lemma_commit(
                self@,
                self@.plan(session_key(session), identity@.key()),
                session_key(session),
                identity@,
                fresh_account,
                fresh_session,
                now,
            );
        }
        self.login_with(session, identity, fresh_account, fresh_session, now)
    }

    /// A streaming-provider login; see [`Database::login_via_provider`].
    pub fn login_user(
        &mut self,
        user_session: Option<UserSession>,
        spotify_auth: SpotifyAuthentication,
    ) -> (r: Result<UserSessionId, ReconcileError>)
        requires
            old(self).wf(),
        ensures
            final(self).wf(),
            exists|fresh_account: u128, fresh_session: u128, now: i64|
                fresh_account != 0 && fresh_session != 0 && #[trigger] old(self)@.login(
                    presented_key(user_session),
                    IdentityView::Streaming(spotify_auth.user_id@, spotify_auth.auth_view()),
                    fresh_account,
                    fresh_session,
                    now,
                ) == (final(self)@, session_result(r)),
            login_outcome(
                old(self)@,
                final(self)@,
                presented_key(user_session),
                IdentityKey::Streaming(spotify_auth.user_id@),
                r,
            ),
    {
        let session = match user_session {
            Some(u) => Some(u.id),
            None => None,
        };
        self.login_via_provider(session, ProviderIdentity::Streaming(spotify_auth))
    }

    /// Links a hosting identity onto account `account` from session `session`, with the
    /// given fresh ids and time: a commit of [`LoginPlan::LinkTo`] the account. When the
    /// session is not stored the answer is [`ReconcileError::NotFound`]; when another
    /// account holds the identity it is [`GithubAccountAlreadyTakenError`]. Either way,
    /// and on any other failure, nothing changes.
    pub fn associate_github_with(
        &mut self,
        session: UserSessionId,
        account: AccountId,
        github_auth: GithubAuthentication,
        fresh_account: u128,
        fresh_session: u128,
        now: i64,
    ) -> (r: Result<Result<(), GithubAccountAlreadyTakenError>, ReconcileError>)
        requires
            old(self).wf(),
        ensures
            final(self).wf(),
            !old(self)@.sessions.contains_key(session.0) ==> final(self)@ == old(self)@ && r
                == Err::<Result<(), GithubAccountAlreadyTakenError>, ReconcileError>(
                ReconcileError::NotFound,
            ),
            old(self)@.sessions.contains_key(session.0) ==> link_matches(
                old(self)@.commit(
                    LoginPlan::LinkTo(account.0),
                    Some(session.0),
                    IdentityView::Hosting(github_auth.user_id.0, github_auth.auth_view()),
                    fresh_account,
                    fresh_session,
                    now,
                ),
                final(self)@,
                r,
            ),
            link_guarantees(
                old(self)@,
                final(self)@,
                session.0,
                account.0,
                IdentityKey::Hosting(github_auth.user_id.0),
                r,
            ),
    {
        if self.sessions.find(&session.0).is_none() {
            return Err(ReconcileError::NotFound);
        }
        let ghost s0 = self@;
        let plan = LoginPlan::LinkTo(account.0);
        let identity = ProviderIdentity::Hosting(github_auth);
        proof {
            lemma_commit(s0, plan, Some(session.0), identity@, fresh_account, fresh_session, now);
        }
        let r = self.commit_login(plan, Some(session), identity, fresh_account, fresh_session, now);
        proof {
            let k = identity@.key();
            let a = account.0;
            if s0.claimed(k) {
                let c = s0.claimant(k);
                if c == a {
                    assert(s0.resolve(plan, identity@, fresh_account, now) is Ok);
                }
            }
            if s0.sessions[session.0].account == a && !(s0.claimed(k) && s0.claimant(k) != a) {
                lemma_resolve(s0, plan, identity@, fresh_account, now);
                assert(s0.accounts.contains_key(a));
                let (m, t) = s0.resolve(plan, identity@, fresh_account, now)->Ok_0;
                assert(t == a);
                assert(m.sessions == s0.sessions);
                assert(m.bind_session(Some(session.0), t, fresh_session, now) is Ok);
            }
        }
        let answer = match r {
            Ok(_) => Ok(Ok(())),
            Err(ReconcileError::Conflict) => Ok(Err(GithubAccountAlreadyTakenError)),
            Err(e) => Err(e),
        };
        proof {
            assert(link_matches(
                s0.commit(plan, Some(session.0), identity@, fresh_account, fresh_session, now),
                self@,
                answer,
            ));
        }
        answer
    }

    /// Links a hosting identity onto the signed-in user's account; see
    /// [`Database::associate_github_with`]. The fresh ids are random and the time is the
    /// current one.
    pub fn associate_github_to_account(&mut self, user: &User, github_auth: GithubAuthentication) -> (r:
        Result<Result<(), GithubAccountAlreadyTakenError>, ReconcileError>)
        requires
            old(self).wf(),
        ensures
            final(self).wf(),
            !old(self)@.sessions.contains_key(user.session.id) ==> final(self)@ == old(self)@ && r
                == Err::<Result<(), GithubAccountAlreadyTakenError>, ReconcileError>(
                ReconcileError::NotFound,
            ),
            old(self)@.sessions.contains_key(user.session.id) ==> exists|
                fresh_account: u128,
                fresh_session: u128,
                now: i64,
            |
                fresh_account != 0 && fresh_session != 0 && #[trigger] link_matches(
                    old(self)@.commit(
                        LoginPlan::LinkTo(user.account.id.0),
                        Some(user.session.id),
                        IdentityView::Hosting(github_auth.user_id.0, github_auth.auth_view()),
                        fresh_account,
                        fresh_session,
                        now,
                    ),
                    final(self)@,
                    r,
                ),
            link_guarantees(
                old(self)@,
                final(self)@,
                user.session.id,
                user.account.id.0,
                IdentityKey::Hosting(github_auth.user_id.0),
                r,
            ),
    {
        let fresh_account = fresh_uuid();
        let fresh_session = fresh_uuid();
        let now = now_unix();
        let ghost idv = IdentityView::Hosting(github_auth.user_id.0, github_auth.auth_view());
        let ghost s0 = self@;
        let r = self.associate_github_with(
            UserSessionId(user.session.id),
            user.account.id,
            github_auth,
            fresh_account,
            fresh_session,
            now,
        );
        proof {
            if s0.sessions.contains_key(user.session.id) {
                assert(link_matches(
                    s0.commit(
                        LoginPlan::LinkTo(user.account.id.0),
                        Some(user.session.id),
                        idv,
                        fresh_account,
                        fresh_session,
                        now,
                    ),
                    self@,
                    r,
                ));
            }
        }
        r
    }

    /// Logs the session out (see [`DatabaseView::logout`]) and returns the session that
    /// clears the browser's cookie.
    pub fn logout_current_user(&mut self, session: UserSession) -> (r: UserSession)
        requires
            old(self).wf(),
        ensures
            final(self).wf(),
            final(self)@ == old(self)@.logout(session.id.0),
            r.id.0 == 0,
    {
        self.logout(session.id);
        UserSession::remove()
    }

    /// Deletes the user's account with its authentications and sessions. Returns the
    /// session that clears the browser's cookie, and whether there was an account to
    /// delete.
    pub fn delete_current_user(&mut self, user: &User) -> (r: (UserSession, bool))
        requires
            old(self).wf(),
        ensures
            final(self).wf(),
            (final(self)@, r.1) == old(self)@.delete_account(user.account.id.0),
            r.0.id.0 == 0,
    {
        let deleted = self.delete_account(user.account.id.0);
        (UserSession::remove(), deleted)
    }

    /// Takes the hosting identity off account `account`, with its authentication; the
    /// account, its streaming identity and its sessions stay. Returns whether the account
    /// had a hosting identity.
    pub fn remove_github(&mut self, account: AccountId) -> (removed: bool)
        requires
            old(self).wf(),
        ensures
            final(self).wf(),
            (final(self)@, removed) == old(self)@.remove_hosting(account.0),
            old(self)@.accounts.contains_key(account.0) ==> {
                &&& final(self)@.accounts.contains_key(account.0)
                &&& final(self)@.accounts[account.0].github is None
                &&& final(self)@.accounts[account.0].spotify
                    == old(self)@.accounts[account.0].spotify
                &&& final(self)@.sessions == old(self)@.sessions
            },
    {
        proof {
            lemma_remove_hosting(self@, account.0);
        }
        let a = account.0;
        match self.accounts.find(&a) {
            Some(ai) => {
                let row = self.accounts.get(ai);
                match row.github {
                    Some(g) => {
                        proof {
                            lemma_view_at(self.accounts.rows@, ai as int);
                        }
                        let new_row = account::Model {
                            id: row.id,
                            spotify: clone_opt(&row.spotify),
                            github: None,
                            created: row.created,
                        };
                        self.drop_github_auth(g);
                        self.accounts.set(ai, new_row);
                        true
                    },
                    _ => false,
                }
            },
            None => false,
        }
    }

    /// Takes the hosting identity off the user's account; see [`Database::remove_github`].
    pub fn remove_github_from_account(&mut self, user: &User) -> (removed: bool)
        requires
            old(self).wf(),
        ensures
            final(self).wf(),
            (final(self)@, removed) == old(self)@.remove_hosting(user.account.id.0),
            old(self)@.accounts.contains_key(user.account.id.0) ==> {
                &&& final(self)@.accounts.contains_key(user.account.id.0)
                &&& final(self)@.accounts[user.account.id.0].github is None
                &&& final(self)@.accounts[user.account.id.0].spotify
                    == old(self)@.accounts[user.account.id.0].spotify
                &&& final(self)@.sessions == old(self)@.sessions
            },
    {
        self.remove_github(user.account.id)
    }

    /// The account at index `ai`, with the stored authentications of its identities.
    fn account_at(&self, ai: usize) -> (r: Account)
        requires
            self.wf(),
            ai < self.accounts.rows@.len(),
        ensures
            r.id.0 == self.accounts.rows@[ai as int].id,
            account_matches(self@, r),
    {
        proof {
            lemma_view_at(self.accounts.rows@, ai as int);
        }
        let arow = self.accounts.get(ai);
        let spotify = match &arow.spotify {
            Some(id) => match self.spotify_auths.find(id) {
                Some(j) => {
                    let row = self.spotify_auths.get(j);
                    Some(
                        SpotifyAuthentication {
                            access_token: row.access_token.clone(),
                            refresh_token: clone_opt(&row.refresh_token),
                            user_id: SpotifyUserId(row.user_id.clone()),
                            expires_at: row.expires_at,
                            created_at: row.created_at,
                        },
                    )
                },
                None => {
                    proof {
                        assert(self@.accounts[arow.id].holds(IdentityKey::Streaming(id@)));
                        assert(self@.has_auth(IdentityKey::Streaming(id@)));
                    }
                    None
                },
            },
            None => None,
        };
        let github = match arow.github {
            Some(id) => match self.github_auths.find(&id) {
                Some(j) => {
                    let row = self.github_auths.get(j);
                    Some(
                        GithubAuthentication {
                            access_token: row.access_token.clone(),
                            user_id: GithubUserId(row.user_id),
                            created_at: row.created_at,
                        },
                    )
                },
                None => {
                    proof {
                        assert(self@.accounts[arow.id].holds(IdentityKey::Hosting(id)));
                        assert(self@.has_auth(IdentityKey::Hosting(id)));
                    }
                    None
                },
            },
            None => None,
        };
        Account { id: AccountId(arow.id), created_at: arow.created, spotify, github }
    }

    /// The signed-in user of session `session`: the session and its account with the
    /// stored authentications; `None` when the session is not stored.
    pub fn get_current_user(&self, session: UserSessionId) -> (r: Option<User>)
        requires
            self.wf(),
        ensures
            match r {
                None => !self@.sessions.contains_key(session.0),
                Some(u) => {
                    &&& self@.sessions.contains_key(session.0)
                    &&& u.session.id == session.0
                    &&& u.session.row_view() == self@.sessions[session.0]
                    &&& u.account.id.0 == self@.sessions[session.0].account
                    &&& account_matches(self@, u.account)
                },
            },
    {
        let si = match self.sessions.find(&session.0) {
            Some(si) => si,
            None => {
                return None;
            },
        };
        let srow = *self.sessions.get(si);
        match self.accounts.find(&srow.account) {
            Some(ai) => Some(User { session: srow, account: self.account_at(ai) }),
            None => None,
        }
    }

    /// Every account, each once, with the stored authentications of its identities.
    pub fn list_users(&self) -> (r: Vec<Account>)
        requires
            self.wf(),
        ensures
            forall|i: int| 0 <= i < r@.len() ==> account_matches(self@, #[trigger] r@[i]),
            forall|i: int, j: int|
                0 <= i < r@.len() && 0 <= j < r@.len() && i != j ==> (#[trigger] r@[i]).id != (
                #[trigger] r@[j]).id,
            forall|a: u128| #[trigger]
                self@.accounts.contains_key(a) ==> exists|i: int|
                    0 <= i < r@.len() && (#[trigger] r@[i]).id.0 == a,
    {
        let mut r: Vec<Account> = Vec::new();
        let mut i: usize = 0;
        while i < self.accounts.len()
            invariant
                self.wf(),
                i <= self.accounts.rows@.len(),
                r@.len() == i,
                forall|m: int| 0 <= m < i ==> (#[trigger] r@[m]).id.0 == self.accounts.rows@[m].id,
                forall|m: int| 0 <= m < r@.len() ==> account_matches(self@, #[trigger] r@[m]),
            decreases self.accounts.rows@.len() - i,
        {
            let acc = self.account_at(i);
            r.push(acc);
            i = i + 1;
        }
        proof {
            assert forall|m: int, n: int|
                0 <= m < r@.len() && 0 <= n < r@.len() && m != n implies (#[trigger] r@[m]).id != (
            #[trigger] r@[n]).id by {
                assert(self.accounts.rows@[m].key() != self.accounts.rows@[n].key());
            }
            assert forall|a: u128| #[trigger] self@.accounts.contains_key(a) implies exists|m: int|
                0 <= m < r@.len() && (#[trigger] r@[m]).id.0 == a by {
                lemma_view_has_row(self.accounts.rows@, a);
                let j = choose|j: int|
                    0 <= j < self.accounts.rows@.len() && #[trigger] self.accounts.rows@[j].key()
                        == a;
                assert(r@[j].id.0 == a);
            }
        }
        r
    }

    /// The accounts whose data the periodic backup copies: the complete ones, each once.
    pub fn backup_targets(&self) -> (r: Vec<AccountId>)
        requires
            self.wf(),
        ensures
            forall|i: int|
                0 <= i < r@.len() ==> self@.accounts.contains_key((#[trigger] r@[i]).0)
                    && self@.accounts[r@[i].0].is_complete(),
            forall|i: int, j: int|
                0 <= i < r@.len() && 0 <= j < r@.len() && i != j ==> (#[trigger] r@[i]) != (
                #[trigger] r@[j]),
            forall|a: u128| #[trigger]
                self@.accounts.contains_key(a) && self@.accounts[a].is_complete() ==> exists|i: int|
                    0 <= i < r@.len() && (#[trigger] r@[i]).0 == a,
    {
        let mut r: Vec<AccountId> = Vec::new();
        // the index of the row each entry came from
        let ghost mut taken: Seq<int> = Seq::empty();
        let mut i: usize = 0;
        while i < self.accounts.len()
            invariant
                self.wf(),
                i <= self.accounts.rows@.len(),
                taken.len() == r@.len(),
                forall|m: int|
                    0 <= m < r@.len() ==> 0 <= #[trigger] taken[m] < i && r@[m].0
                        == self.accounts.rows@[taken[m]].id,
                forall|m: int, n: int|
                    0 <= m < n < r@.len() ==> #[trigger] taken[m] < #[trigger] taken[n],
                forall|m: int|
                    0 <= m < r@.len() ==> self@.accounts.contains_key((#[trigger] r@[m]).0)
                        && self@.accounts[r@[m].0].is_complete(),
                forall|j: int|
                    0 <= j < i && (#[trigger] self.accounts.rows@[j]).row_view().is_complete()
                        ==> exists|m: int|
                        0 <= m < r@.len() && (#[trigger] r@[m]).0 == self.accounts.rows@[j].id,
            decreases self.accounts.rows@.len() - i,
        {
            let row = self.accounts.get(i);
            proof {
                lemma_view_at(self.accounts.rows@, i as int);
            }
            let ghost r_old = r@;
            if row.spotify.is_some() && row.github.is_some() {
                r.push(AccountId(row.id));
                proof {
                    taken = taken.push(i as int);
                    assert(r@[r@.len() - 1].0 == self.accounts.rows@[i as int].id);
                }
            }
            proof {
                assert forall|j: int|
                    0 <= j < i + 1 && (#[trigger] self.accounts.rows@[j]).row_view().is_complete()
                    implies exists|m: int|
                    0 <= m < r@.len() && (#[trigger] r@[m]).0 == self.accounts.rows@[j].id by {
                    if j < i {
                        let m = choose|m: int|
                            0 <= m < r_old.len() && (#[trigger] r_old[m]).0
                                == self.accounts.rows@[j].id;
                        assert(r@[m] == r_old[m]);
                    } else {
                        assert(r@[r@.len() - 1].0 == self.accounts.rows@[j].id);
                    }
                }
            }
            i = i + 1;
        }
        proof {
            assert forall|m: int, n: int|
                0 <= m < r@.len() && 0 <= n < r@.len() && m != n implies (#[trigger] r@[m]) != (
            #[trigger] r@[n]) by {
                if m < n {
                    assert(taken[m] < taken[n]);
                } else {
                    assert(taken[n] < taken[m]);
                }
                assert(self.accounts.rows@[taken[m]].key() != self.accounts.rows@[taken[n]].key());
            }
            assert forall|a: u128| #[trigger]
                self@.accounts.contains_key(a) && self@.accounts[a].is_complete() implies exists|
                m: int,
            | 0 <= m < r@.len() && (#[trigger] r@[m]).0 == a by {
                lemma_view_has_row(self.accounts.rows@, a);
                let j = choose|j: int|
                    0 <= j < self.accounts.rows@.len() && #[trigger] self.accounts.rows@[j].key()
                        == a;
                lemma_view_at(self.accounts.rows@, j);
            }
        }
        r
    }
}

} // verus!
