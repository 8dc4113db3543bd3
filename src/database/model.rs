use vstd::prelude::*;

use crate::error::ReconcileError;

verus! {

/// An account: the provider identities linked to it and when it was made.
pub struct AccountView {
    pub spotify: Option<Seq<char>>,
    pub github: Option<u64>,
    pub created: i64,
}

/// A stored streaming-provider authentication.
pub struct SpotifyAuthView {
    pub access_token: Seq<char>,
    pub refresh_token: Option<Seq<char>>,
    pub expires_at: Option<i64>,
    pub created_at: i64,
}

/// A stored hosting-provider authentication.
pub struct GithubAuthView {
    pub access_token: Seq<char>,
    pub created_at: i64,
}

/// A session: the account it is bound to, when it was made and last used.
pub struct SessionView {
    pub account: u128,
    pub created: i64,
    pub last_seen: i64,
}

/// A provider identity, by the provider's user id.
pub enum IdentityKey {
    Streaming(Seq<char>),
    Hosting(u64),
}

/// A freshly obtained provider identity with its authentication details.
pub enum IdentityView {
    Streaming(Seq<char>, SpotifyAuthView),
    Hosting(u64, GithubAuthView),
}

impl IdentityView {
    pub open spec fn key(self) -> IdentityKey {
        match self {
            IdentityView::Streaming(id, _) => IdentityKey::Streaming(id),
            IdentityView::Hosting(id, _) => IdentityKey::Hosting(id),
        }
    }
}

impl AccountView {
    /// The account has identity `k` linked.
    pub open spec fn holds(self, k: IdentityKey) -> bool {
        match k {
            IdentityKey::Streaming(id) => self.spotify == Some(id),
            IdentityKey::Hosting(id) => self.github == Some(id),
        }
    }

    /// Both identities are linked.
    pub open spec fn is_complete(self) -> bool {
        self.spotify.is_some() && self.github.is_some()
    }

    /// The identity of the same provider as `k` that the account has now, if any.
    pub open spec fn same_provider(self, k: IdentityKey) -> Option<IdentityKey> {
        match k {
            IdentityKey::Streaming(_) => match self.spotify {
                Some(id) => Some(IdentityKey::Streaming(id)),
                None => None,
            },
            IdentityKey::Hosting(_) => match self.github {
                Some(id) => Some(IdentityKey::Hosting(id)),
                None => None,
            },
        }
    }

    /// The account with `k` linked in place of whatever it had from that provider.
    pub open spec fn link(self, k: IdentityKey) -> AccountView {
        match k {
            IdentityKey::Streaming(id) => AccountView { spotify: Some(id), ..self },
            IdentityKey::Hosting(id) => AccountView { github: Some(id), ..self },
        }
    }

    pub open spec fn fresh(k: IdentityKey, now: i64) -> AccountView {
        AccountView { spotify: None, github: None, created: now }.link(k)
    }
}

/// The whole store: accounts, both authentication relations and sessions, each by key.
pub struct DatabaseView {
    pub accounts: Map<u128, AccountView>,
    pub spotify: Map<Seq<char>, SpotifyAuthView>,
    pub github: Map<u64, GithubAuthView>,
    pub sessions: Map<u128, SessionView>,
}

/// What a login decides from what it reads, before it writes.
#[derive(Debug, Clone, Copy, PartialEq, Eq, Structural)]
pub enum LoginPlan {
    /// The identity belongs to this account already.
    Existing(u128),
    /// Link the identity onto this account (the one of the presented session).
    LinkTo(u128),
    /// Make a new account for the identity.
    Create,
}

impl DatabaseView {
    pub open spec fn empty() -> DatabaseView {
        DatabaseView {
            accounts: Map::empty(),
            spotify: Map::empty(),
            github: Map::empty(),
            sessions: Map::empty(),
        }
    }

    /// A stored authentication exists for identity `k`.
    pub open spec fn has_auth(self, k: IdentityKey) -> bool {
        match k {
            IdentityKey::Streaming(id) => self.spotify.contains_key(id),
            IdentityKey::Hosting(id) => self.github.contains_key(id),
        }
    }

    /// Some account has identity `k` linked.
    pub open spec fn claimed(self, k: IdentityKey) -> bool {
        exists|a: u128| self.accounts.contains_key(a) && #[trigger] self.accounts[a].holds(k)
    }

    /// The account that has identity `k` linked.
    pub open spec fn claimant(self, k: IdentityKey) -> u128 {
        choose|a: u128| self.accounts.contains_key(a) && #[trigger] self.accounts[a].holds(k)
    }

    /// Some session is bound to account `a`.
    pub open spec fn has_sessions(self, a: u128) -> bool {
        exists|sid: u128| self.sessions.contains_key(sid) && #[trigger] self.sessions[sid].account == a
    }

    /// The account that session `sid` is bound to.
    pub open spec fn session_account(self, sid: u128) -> Option<u128> {
        if self.sessions.contains_key(sid) {
            Some(self.sessions[sid].account)
        } else {
            None
        }
    }

    /// The store's invariant.
    pub open spec fn wf(self) -> bool {
        // every session is bound to an existing account
        &&& forall|sid: u128| #[trigger]
            self.sessions.contains_key(sid) ==> self.accounts.contains_key(self.sessions[sid].account)
        // the nil id stands for no session and is never stored
        &&& !self.sessions.contains_key(0)
        // an authentication is stored exactly for the identities that are linked
        &&& forall|k: IdentityKey| #[trigger] self.has_auth(k) == self.claimed(k)
        // no identity is linked to two accounts
        &&& forall|a: u128, b: u128, k: IdentityKey|
            self.accounts.contains_key(a) && self.accounts.contains_key(b) && #[trigger]
            self.accounts[a].holds(k) && #[trigger] self.accounts[b].holds(k) ==> a == b
    }

    /// Stores the authentication of `id`: a new entry, or new tokens on the existing one,
    /// which keeps its creation time.
    pub open spec fn upsert_auth(self, id: IdentityView) -> DatabaseView {
        match id {
            IdentityView::Streaming(k, auth) => DatabaseView {
                spotify: self.spotify.insert(
                    k,
                    if self.spotify.contains_key(k) {
                        SpotifyAuthView { created_at: self.spotify[k].created_at, ..auth }
                    } else {
                        auth
                    },
                ),
                ..self
            },
            IdentityView::Hosting(k, auth) => DatabaseView {
                github: self.github.insert(
                    k,
                    if self.github.contains_key(k) {
                        GithubAuthView { created_at: self.github[k].created_at, ..auth }
                    } else {
                        auth
                    },
                ),
                ..self
            },
        }
    }

    pub open spec fn drop_auth(self, k: IdentityKey) -> DatabaseView {
        match k {
            IdentityKey::Streaming(id) => DatabaseView { spotify: self.spotify.remove(id), ..self },
            IdentityKey::Hosting(id) => DatabaseView { github: self.github.remove(id), ..self },
        }
    }

    /// Links `k` onto account `a`; the identity it replaces loses its authentication.
    pub open spec fn link(self, a: u128, k: IdentityKey) -> DatabaseView {
        let acc = self.accounts[a];
        let s = match acc.same_provider(k) {
            Some(previous) => self.drop_auth(previous),
            None => self,
        };
        DatabaseView { accounts: s.accounts.insert(a, acc.link(k)), ..s }
    }

    /// Removes account `a` with its authentications and its sessions.
    pub open spec fn without_account(self, a: u128) -> DatabaseView {
        let acc = self.accounts[a];
        let s1 = match acc.spotify {
            Some(id) => self.drop_auth(IdentityKey::Streaming(id)),
            None => self,
        };
        let s2 = match acc.github {
            Some(id) => s1.drop_auth(IdentityKey::Hosting(id)),
            None => s1,
        };
        DatabaseView {
            accounts: s2.accounts.remove(a),
            sessions: Map::new(
                |sid: u128| s2.sessions.contains_key(sid) && s2.sessions[sid].account != a,
                |sid: u128| s2.sessions[sid],
            ),
            ..s2
        }
    }

    /// Takes the hosting identity off account `a`, with its authentication; the account
    /// stays. The flag says whether the account had a hosting identity.
    pub open spec fn remove_hosting(self, a: u128) -> (DatabaseView, bool) {
        if self.accounts.contains_key(a) && self.accounts[a].github is Some {
            let acc = self.accounts[a];
            let s = self.drop_auth(IdentityKey::Hosting(acc.github.unwrap()));
            (DatabaseView { accounts: s.accounts.insert(a, AccountView { github: None, ..acc }), ..s }, true)
        } else {
            (self, false)
        }
    }

    /// Explicit account deletion; the flag says whether there was an account to delete.
    pub open spec fn delete_account(self, a: u128) -> (DatabaseView, bool) {
        if self.accounts.contains_key(a) {
            (self.without_account(a), true)
        } else {
            (self, false)
        }
    }

    /// Ends session `sid`. An incomplete account that is left without sessions goes too.
    pub open spec fn logout(self, sid: u128) -> DatabaseView {
        if !self.sessions.contains_key(sid) {
            self
        } else {
            let a = self.sessions[sid].account;
            let s = DatabaseView { sessions: self.sessions.remove(sid), ..self };
            if s.accounts.contains_key(a) && !s.accounts[a].is_complete() && !s.has_sessions(a) {
                s.without_account(a)
            } else {
                s
            }
        }
    }

    /// The reading half of a login.
    pub open spec fn plan(self, session: Option<u128>, k: IdentityKey) -> LoginPlan {
        if self.claimed(k) {
            LoginPlan::Existing(self.claimant(k))
        } else {
            match session {
                Some(sid) if self.sessions.contains_key(sid) => LoginPlan::LinkTo(
                    self.sessions[sid].account,
                ),
                _ => LoginPlan::Create,
            }
        }
    }

    /// The account that a plan targets once the uniqueness of identities is checked
    /// against the store as it is now, with the store after the identity is stored
    /// and linked.
    pub open spec fn resolve(
        self,
        plan: LoginPlan,
        id: IdentityView,
        fresh_account: u128,
        now: i64,
    ) -> Result<(DatabaseView, u128), ReconcileError> {
        let k = id.key();
        if self.claimed(k) {
            let c = self.claimant(k);
            match plan {
                LoginPlan::Existing(a) if a == c => Ok((self.upsert_auth(id), c)),
                LoginPlan::LinkTo(a) if a == c => Ok((self.upsert_auth(id), c)),
                _ => Err(ReconcileError::Conflict),
            }
        } else {
            match plan {
                LoginPlan::Existing(_) => Err(ReconcileError::Internal),
                LoginPlan::LinkTo(a) => if self.accounts.contains_key(a) {
                    Ok((self.upsert_auth(id).link(a, k), a))
                } else {
                    Err(ReconcileError::Internal)
                },
                LoginPlan::Create => if self.accounts.contains_key(fresh_account) {
                    Err(ReconcileError::Internal)
                } else {
                    let s = self.upsert_auth(id);
                    Ok((
                        DatabaseView {
                            accounts: s.accounts.insert(fresh_account, AccountView::fresh(k, now)),
                            ..s
                        },
                        fresh_account,
                    ))
                },
            }
        }
    }

    /// Gives the caller a session bound to account `t`: the presented one if it is bound
    /// to `t` already, else a new one, and the presented one is then ended. A fresh id
    /// that is nil, taken, or equal to the presented id fails the step.
    pub open spec fn bind_session(
        self,
        session: Option<u128>,
        t: u128,
        fresh_session: u128,
        now: i64,
    ) -> Result<(DatabaseView, u128), ReconcileError> {
        match session {
            Some(sid) if self.sessions.contains_key(sid) && self.sessions[sid].account == t => Ok(
                (
                    DatabaseView {
                        sessions: self.sessions.insert(
                            sid,
                            SessionView { last_seen: now, ..self.sessions[sid] },
                        ),
                        ..self
                    },
                    sid,
                ),
            ),
            _ => if fresh_session == 0 || self.sessions.contains_key(fresh_session) || session
                == Some(fresh_session) {
                Err(ReconcileError::Internal)
            } else {
                let s = DatabaseView {
                    sessions: self.sessions.insert(
                        fresh_session,
                        SessionView { account: t, created: now, last_seen: now },
                    ),
                    ..self
                };
                match session {
                    Some(sid) if self.sessions.contains_key(sid) => Ok(
                        (s.logout(sid), fresh_session),
                    ),
                    _ => Ok((s, fresh_session)),
                }
            },
        }
    }

    /// The writing half of a login: the store afterwards and the caller's session, or
    /// the store unchanged and the error.
    pub open spec fn commit(
        self,
        plan: LoginPlan,
        session: Option<u128>,
        id: IdentityView,
        fresh_account: u128,
        fresh_session: u128,
        now: i64,
    ) -> (DatabaseView, Result<u128, ReconcileError>) {
        match self.resolve(plan, id, fresh_account, now) {
            Err(e) => (self, Err(e)),
            Ok((s, t)) => match s.bind_session(session, t, fresh_session, now) {
                Err(e) => (self, Err(e)),
                Ok((s2, sid)) => (s2, Ok(sid)),
            },
        }
    }

    /// A whole login: plan and commit on the same store.
    pub open spec fn login(
        self,
        session: Option<u128>,
        id: IdentityView,
        fresh_account: u128,
        fresh_session: u128,
        now: i64,
    ) -> (DatabaseView, Result<u128, ReconcileError>) {
        self.commit(self.plan(session, id.key()), session, id, fresh_account, fresh_session, now)
    }
}

} // verus!
