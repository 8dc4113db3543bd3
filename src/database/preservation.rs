//! Every step of the store keeps its invariant.
use vstd::prelude::*;

use super::model::{AccountView, DatabaseView, IdentityKey, IdentityView, LoginPlan, SessionView};
use crate::error::ReconcileError;

verus! {

/// The account that holds an identity is its claimant.
pub proof fn lemma_claimant(s: DatabaseView, a: u128, k: IdentityKey)
    requires
        s.wf(),
        s.accounts.contains_key(a),
        s.accounts[a].holds(k),
    ensures
        s.claimed(k),
        s.claimant(k) == a,
{
    assert(s.claimed(k));
    let c = s.claimant(k);
    assert(s.accounts.contains_key(c) && s.accounts[c].holds(k));
}

/// A change that touches sessions alone keeps the invariant, as long as every session
/// is still bound to an existing account.
pub proof fn lemma_sessions_only(s: DatabaseView, r: DatabaseView)
    requires
        s.wf(),
        r.accounts == s.accounts,
        r.spotify == s.spotify,
        r.github == s.github,
        forall|sid: u128| #[trigger]
            r.sessions.contains_key(sid) ==> r.accounts.contains_key(r.sessions[sid].account),
        !r.sessions.contains_key(0),
    ensures
        r.wf(),
{
    assert forall|k: IdentityKey| #[trigger] r.has_auth(k) == r.claimed(k) by {
        assert(r.has_auth(k) == s.has_auth(k));
        assert(s.has_auth(k) == s.claimed(k));
        if s.claimed(k) {
            let b = s.claimant(k);
            assert(r.accounts.contains_key(b) && r.accounts[b].holds(k));
        }
        if r.claimed(k) {
            let b = r.claimant(k);
            assert(s.accounts.contains_key(b) && s.accounts[b].holds(k));
        }
    }
}

pub proof fn lemma_without_account(s: DatabaseView, a: u128)
    requires
        s.wf(),
        s.accounts.contains_key(a),
    ensures
        s.without_account(a).wf(),
        s.without_account(a).accounts == s.accounts.remove(a),
        forall|sid: u128| #[trigger]
            s.without_account(a).sessions.contains_key(sid) == (s.sessions.contains_key(sid)
                && s.sessions[sid].account != a),
        forall|sid: u128| #[trigger]
            s.without_account(a).sessions.contains_key(sid) ==> s.without_account(a).sessions[sid]
                == s.sessions[sid],
{
    let r = s.without_account(a);
    let acc = s.accounts[a];
    assert forall|k: IdentityKey| #[trigger] r.has_auth(k) == r.claimed(k) by {
        if r.has_auth(k) {
            assert(s.has_auth(k));
            assert(!acc.holds(k));
            assert(s.claimed(k));
            let b = s.claimant(k);
            assert(s.accounts.contains_key(b) && s.accounts[b].holds(k));
            assert(b != a);
            assert(r.accounts.contains_key(b) && r.accounts[b].holds(k));
        }
        if r.claimed(k) {
            let b = r.claimant(k);
            assert(r.accounts.contains_key(b) && r.accounts[b].holds(k));
            assert(s.accounts.contains_key(b) && s.accounts[b].holds(k));
            assert(b != a);
            assert(s.has_auth(k));
            if acc.holds(k) {
                assert(false);
            }
        }
    }
    assert forall|sid: u128| #[trigger]
        r.sessions.contains_key(sid) implies r.accounts.contains_key(r.sessions[sid].account) by {
        assert(s.sessions.contains_key(sid));
    }
}

pub proof fn lemma_logout(s: DatabaseView, sid: u128)
    requires
        s.wf(),
    ensures
        s.logout(sid).wf(),
        !s.logout(sid).sessions.contains_key(sid),
        forall|a: u128| #[trigger]
            s.logout(sid).accounts.contains_key(a) ==> s.accounts.contains_key(a)
                && s.logout(sid).accounts[a] == s.accounts[a],
        forall|a: u128|
            s.accounts.contains_key(a) && s.accounts[a].is_complete() ==> #[trigger]
            s.logout(sid).accounts.contains_key(a),
{
    if s.sessions.contains_key(sid) {
        let a = s.sessions[sid].account;
        let t = DatabaseView { sessions: s.sessions.remove(sid), ..s };
        lemma_sessions_only(s, t);
        if t.accounts.contains_key(a) && !t.accounts[a].is_complete() && !t.has_sessions(a) {
            lemma_without_account(t, a);
        }
    }
}

pub proof fn lemma_delete_account(s: DatabaseView, a: u128)
    requires
        s.wf(),
    ensures
        s.delete_account(a).0.wf(),
        s.delete_account(a).1 == s.accounts.contains_key(a),
        !s.delete_account(a).0.accounts.contains_key(a),
        forall|sid: u128| #[trigger]
            s.delete_account(a).0.sessions.contains_key(sid) ==> s.delete_account(a).0.sessions[sid].account
                != a,
{
    if s.accounts.contains_key(a) {
        lemma_without_account(s, a);
    }
}

/// What a successful resolution hands on: a well-formed store whose account `t`
/// holds the identity, with every complete account of before still there and complete.
pub open spec fn resolved(s: DatabaseView, r: DatabaseView, t: u128, k: IdentityKey) -> bool {
    &&& r.wf()
    &&& r.accounts.contains_key(t)
    &&& r.accounts[t].holds(k)
    &&& r.sessions == s.sessions
    &&& forall|a: u128| #[trigger]
        s.accounts.contains_key(a) ==> r.accounts.contains_key(a)
    &&& forall|a: u128|
        s.accounts.contains_key(a) && s.accounts[a].is_complete() ==> #[trigger]
        r.accounts[a].is_complete()
}

pub proof fn lemma_upsert_keeps(s: DatabaseView, id: IdentityView)
    requires
        s.wf(),
        s.claimed(id.key()),
    ensures
        s.upsert_auth(id).wf(),
        s.upsert_auth(id).accounts == s.accounts,
        s.upsert_auth(id).sessions == s.sessions,
{
    let r = s.upsert_auth(id);
    assert(s.has_auth(id.key()));
    assert forall|k: IdentityKey| #[trigger] r.has_auth(k) == r.claimed(k) by {
        assert(r.has_auth(k) == (s.has_auth(k) || k == id.key()));
        if s.claimed(k) {
            let b = s.claimant(k);
            assert(r.accounts.contains_key(b) && r.accounts[b].holds(k));
        }
        if r.claimed(k) {
            let b = r.claimant(k);
            assert(s.accounts.contains_key(b) && s.accounts[b].holds(k));
        }
    }
}

pub proof fn lemma_link_new(s: DatabaseView, id: IdentityView, a: u128)
    requires
        s.wf(),
        !s.claimed(id.key()),
        s.accounts.contains_key(a),
    ensures
        resolved(s, s.upsert_auth(id).link(a, id.key()), a, id.key()),
{
    let k = id.key();
    let u = s.upsert_auth(id);
    let r = u.link(a, k);
    let acc = s.accounts[a];
    assert(!s.has_auth(k));
    assert(r.accounts[a] == acc.link(k));
    assert forall|j: IdentityKey| #[trigger] r.has_auth(j) == r.claimed(j) by {
        if j == k {
            assert(r.accounts.contains_key(a) && r.accounts[a].holds(j));
            match acc.same_provider(k) {
                Some(p) => {
                    assert(acc.holds(p));
                    assert(p != k);
                },
                None => {},
            }
            assert(r.has_auth(j));
        } else if acc.same_provider(k) == Some(j) {
            assert(!r.has_auth(j));
            if r.claimed(j) {
                let b = r.claimant(j);
                assert(r.accounts.contains_key(b) && r.accounts[b].holds(j));
                assert(b != a);
                assert(s.accounts[b].holds(j));
                assert(acc.holds(j));
                assert(false);
            }
        } else {
            assert(r.has_auth(j) == s.has_auth(j));
            assert(acc.link(k).holds(j) == acc.holds(j));
            if s.claimed(j) {
                let b = s.claimant(j);
                assert(r.accounts.contains_key(b) && r.accounts[b].holds(j));
            }
            if r.claimed(j) {
                let b = r.claimant(j);
                assert(s.accounts.contains_key(b) && s.accounts[b].holds(j));
            }
        }
    }
    assert forall|b: u128, c: u128, j: IdentityKey|
        r.accounts.contains_key(b) && r.accounts.contains_key(c) && #[trigger] r.accounts[b].holds(j)
            && #[trigger] r.accounts[c].holds(j) implies b == c by {
        if j == k {
            if b != a {
                assert(s.accounts[b].holds(k));
            }
            if c != a {
                assert(s.accounts[c].holds(k));
            }
        } else {
            assert(acc.link(k).holds(j) ==> acc.holds(j));
            assert(s.accounts[b].holds(j) && s.accounts[c].holds(j));
        }
    }
}

pub proof fn lemma_create(s: DatabaseView, id: IdentityView, fresh_account: u128, now: i64)
    requires
        s.wf(),
        !s.claimed(id.key()),
        !s.accounts.contains_key(fresh_account),
    ensures
        ({
            let u = s.upsert_auth(id);
            resolved(
                s,
                DatabaseView {
                    accounts: u.accounts.insert(fresh_account, AccountView::fresh(id.key(), now)),
                    ..u
                },
                fresh_account,
                id.key(),
            )
        }),
{
    let k = id.key();
    let u = s.upsert_auth(id);
    let r = DatabaseView {
        accounts: u.accounts.insert(fresh_account, AccountView::fresh(k, now)),
        ..u
    };
    assert(!s.has_auth(k));
    assert forall|j: IdentityKey| #[trigger] r.has_auth(j) == r.claimed(j) by {
        if j == k {
            assert(r.accounts.contains_key(fresh_account) && r.accounts[fresh_account].holds(j));
        } else {
            assert(r.has_auth(j) == s.has_auth(j));
            assert(!AccountView::fresh(k, now).holds(j));
            if s.claimed(j) {
                let b = s.claimant(j);
                assert(r.accounts.contains_key(b) && r.accounts[b].holds(j));
            }
            if r.claimed(j) {
                let b = r.claimant(j);
                assert(s.accounts.contains_key(b) && s.accounts[b].holds(j));
            }
        }
    }
    assert forall|b: u128, c: u128, j: IdentityKey|
        r.accounts.contains_key(b) && r.accounts.contains_key(c) && #[trigger] r.accounts[b].holds(j)
            && #[trigger] r.accounts[c].holds(j) implies b == c by {
        if b != fresh_account {
            assert(s.accounts[b].holds(j));
        }
        if c != fresh_account {
            assert(s.accounts[c].holds(j));
        }
    }
}

pub proof fn lemma_resolve(
    s: DatabaseView,
    plan: LoginPlan,
    id: IdentityView,
    fresh_account: u128,
    now: i64,
)
    requires
        s.wf(),
    ensures
        match s.resolve(plan, id, fresh_account, now) {
            Ok((r, t)) => resolved(s, r, t, id.key()),
            Err(e) => e == ReconcileError::Conflict <==> s.claimed(id.key()),
        },
{
    let k = id.key();
    if s.claimed(k) {
        let c = s.claimant(k);
        lemma_upsert_keeps(s, id);
    } else {
        match plan {
            LoginPlan::Existing(_) => {},
            LoginPlan::LinkTo(a) => {
                if s.accounts.contains_key(a) {
                    lemma_link_new(s, id, a);
                }
            },
            LoginPlan::Create => {
                if !s.accounts.contains_key(fresh_account) {
                    lemma_create(s, id, fresh_account, now);
                }
            },
        }
    }
}

pub proof fn lemma_bind_session(
    s: DatabaseView,
    session: Option<u128>,
    t: u128,
    fresh_session: u128,
    now: i64,
)
    requires
        s.wf(),
        s.accounts.contains_key(t),
    ensures
        match s.bind_session(session, t, fresh_session, now) {
            Ok((r, sid)) => {
                &&& r.wf()
                &&& r.sessions.contains_key(sid)
                &&& r.sessions[sid].account == t
                &&& session == Some(sid) ==> s.sessions.contains_key(sid) && s.sessions[sid].account
                    == t
                &&& r.accounts.contains_key(t)
                &&& r.accounts[t] == s.accounts[t]
                &&& forall|a: u128|
                    s.accounts.contains_key(a) && s.accounts[a].is_complete() ==> #[trigger]
                    r.accounts.contains_key(a)
                &&& forall|a: u128| #[trigger]
                    r.accounts.contains_key(a) ==> s.accounts.contains_key(a) && r.accounts[a]
                        == s.accounts[a]
            },
            Err(e) => e == ReconcileError::Internal,
        },
{
    match session {
        Some(sid) if s.sessions.contains_key(sid) && s.sessions[sid].account == t => {
            let r = DatabaseView {
                sessions: s.sessions.insert(sid, SessionView { last_seen: now, ..s.sessions[sid] }),
                ..s
            };
            lemma_sessions_only(s, r);
        },
        _ => {
            if !(fresh_session == 0 || s.sessions.contains_key(fresh_session) || session == Some(
                fresh_session,
            )) {
                let r = DatabaseView {
                    sessions: s.sessions.insert(
                        fresh_session,
                        SessionView { account: t, created: now, last_seen: now },
                    ),
                    ..s
                };
                lemma_sessions_only(s, r);
                match session {
                    Some(sid) if s.sessions.contains_key(sid) => {
                        lemma_logout(r, sid);
                        let o = r.sessions[sid].account;
                        assert(o != t);
                        let m = DatabaseView { sessions: r.sessions.remove(sid), ..r };
                        lemma_sessions_only(r, m);
                        assert(m.sessions.contains_key(fresh_session));
                        if m.accounts.contains_key(o) && !m.accounts[o].is_complete()
                            && !m.has_sessions(o) {
                            lemma_without_account(m, o);
                        }
                    },
                    _ => {},
                }
            }
        },
    }
}

/// What a commit leaves behind, in either outcome.
pub proof fn lemma_commit(
    s: DatabaseView,
    plan: LoginPlan,
    session: Option<u128>,
    id: IdentityView,
    fresh_account: u128,
    fresh_session: u128,
    now: i64,
)
    requires
        s.wf(),
    ensures
        ({
            let (r, res) = s.commit(plan, session, id, fresh_account, fresh_session, now);
            &&& r.wf()
            &&& match res {
                Ok(sid) => {
                    &&& r.sessions.contains_key(sid)
                    &&& r.accounts.contains_key(r.sessions[sid].account)
                    &&& r.accounts[r.sessions[sid].account].holds(id.key())
                    &&& session == Some(sid) ==> s.sessions.contains_key(sid)
                        && s.sessions[sid].account == r.sessions[sid].account
                },
                Err(e) => r == s && (e == ReconcileError::Conflict || e
                    == ReconcileError::Internal),
            }
            &&& forall|a: u128|
                s.accounts.contains_key(a) && s.accounts[a].is_complete() ==> #[trigger]
                r.accounts.contains_key(a) && r.accounts[a].is_complete()
        }),
{
    lemma_resolve(s, plan, id, fresh_account, now);
    match s.resolve(plan, id, fresh_account, now) {
        Ok((m, t)) => {
            lemma_bind_session(m, session, t, fresh_session, now);
        },
        Err(_) => {},
    }
}

pub proof fn lemma_remove_hosting(s: DatabaseView, a: u128)
    requires
        s.wf(),
    ensures
        s.remove_hosting(a).0.wf(),
        s.remove_hosting(a).0.sessions == s.sessions,
{
    if s.accounts.contains_key(a) && s.accounts[a].github is Some {
        let acc = s.accounts[a];
        let g = IdentityKey::Hosting(acc.github.unwrap());
        let r = s.remove_hosting(a).0;
        assert(acc.holds(g));
        assert forall|k: IdentityKey| #[trigger] r.has_auth(k) == r.claimed(k) by {
            if k == g {
                if r.claimed(k) {
                    let b = r.claimant(k);
                    assert(r.accounts.contains_key(b) && r.accounts[b].holds(k));
                    assert(b != a);
                    assert(s.accounts[b].holds(k));
                    assert(false);
                }
            } else {
                assert(r.has_auth(k) == s.has_auth(k));
                if s.claimed(k) {
                    let b = s.claimant(k);
                    assert(r.accounts.contains_key(b) && r.accounts[b].holds(k));
                }
                if r.claimed(k) {
                    let b = r.claimant(k);
                    assert(s.accounts.contains_key(b) && s.accounts[b].holds(k));
                }
            }
        }
        assert forall|b: u128, c: u128, k: IdentityKey|
            r.accounts.contains_key(b) && r.accounts.contains_key(c) && #[trigger] r.accounts[b].holds(k)
                && #[trigger] r.accounts[c].holds(k) implies b == c by {
            assert(s.accounts[b].holds(k) && s.accounts[c].holds(k));
        }
    }
}

} // verus!
