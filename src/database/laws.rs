//! Properties of the store that relate several steps.
use vstd::prelude::*;

use super::model::{DatabaseView, IdentityView, LoginPlan};
use super::preservation::{
    lemma_bind_session, lemma_claimant, lemma_commit, lemma_delete_account, lemma_logout,
    lemma_remove_hosting, lemma_resolve, lemma_sessions_only, lemma_upsert_keeps,
    lemma_without_account,
};
use crate::error::ReconcileError;

verus! {

/// One step of the normal flow: a login or a logout.
pub enum Step {
    /// A login with the presented session, the identity, and the fresh account id,
    /// fresh session id and time that it uses.
    Login(Option<u128>, IdentityView, u128, u128, i64),
    /// A logout of the session.
    Logout(u128),
}

/// The store after the steps, one after the other.
pub open spec fn run(s: DatabaseView, steps: Seq<Step>) -> DatabaseView
    decreases steps.len(),
{
    if steps.len() == 0 {
        s
    } else {
        let next = match steps[0] {
            Step::Login(session, id, fresh_account, fresh_session, now) => s.login(
                session,
                id,
                fresh_account,
                fresh_session,
                now,
            ).0,
            Step::Logout(sid) => s.logout(sid),
        };
        run(next, steps.drop_first())
    }
}

/// Logging in twice in a row with the same identity and no session reaches the same
/// account both times, and the second login adds no account. The second login
/// succeeds unless its fresh session id is nil or taken.
pub proof fn lemma_login_idempotent(
    s: DatabaseView,
    id: IdentityView,
    fresh_account1: u128,
    fresh_session1: u128,
    now1: i64,
    fresh_account2: u128,
    fresh_session2: u128,
    now2: i64,
)
    requires
        s.wf(),
    ensures
        ({
            let (s1, r1) = s.login(None, id, fresh_account1, fresh_session1, now1);
            let (s2, r2) = s1.login(None, id, fresh_account2, fresh_session2, now2);
            r1 is Ok ==> {
                &&& s2.accounts.dom() == s1.accounts.dom()
                &&& fresh_session2 != 0 && !s1.sessions.contains_key(fresh_session2) ==> r2 is Ok
                &&& r2 is Ok ==> s2.session_account(r2->Ok_0) == s1.session_account(r1->Ok_0)
            }
        }),
{
    let k = id.key();
    let (s1, r1) = s.login(None, id, fresh_account1, fresh_session1, now1);
    lemma_commit(s, s.plan(None, k), None, id, fresh_account1, fresh_session1, now1);
    if r1 is Ok {
        let sid1 = r1->Ok_0;
        let t = s1.sessions[sid1].account;
        lemma_claimant(s1, t, k);
        assert(s1.plan(None, k) == LoginPlan::Existing(t));
        lemma_upsert_keeps(s1, id);
        let u = s1.upsert_auth(id);
        assert(s1.resolve(LoginPlan::Existing(t), id, fresh_account2, now2) == Ok::<
            (DatabaseView, u128),
            ReconcileError,
        >((u, t)));
        let (s2, r2) = s1.login(None, id, fresh_account2, fresh_session2, now2);
        assert(s2.accounts.dom() =~= s1.accounts.dom());
    }
}

/// Two logins of a brand-new identity without a session, both planned on the same
/// store and committed one after the other: once the first has made the account, the
/// second gets a conflict and changes nothing, and exactly one account holds the
/// identity. The first succeeds unless its fresh account id is taken or its fresh
/// session id is nil or taken.
pub proof fn lemma_no_duplicate_claims(
    s: DatabaseView,
    id: IdentityView,
    fresh_account1: u128,
    fresh_session1: u128,
    now1: i64,
    fresh_account2: u128,
    fresh_session2: u128,
    now2: i64,
)
    requires
        s.wf(),
        !s.claimed(id.key()),
    ensures
        ({
            let p = s.plan(None, id.key());
            let (s1, r1) = s.commit(p, None, id, fresh_account1, fresh_session1, now1);
            let (s2, r2) = s1.commit(p, None, id, fresh_account2, fresh_session2, now2);
            &&& p == LoginPlan::Create
            &&& !s.accounts.contains_key(fresh_account1) && fresh_session1 != 0
                && !s.sessions.contains_key(fresh_session1) ==> r1 is Ok
            &&& r1 is Ok ==> {
                &&& r2 == Err::<u128, ReconcileError>(ReconcileError::Conflict)
                &&& s2 == s1
                &&& s2.claimed(id.key())
                &&& forall|a: u128|
                    s2.accounts.contains_key(a) && #[trigger] s2.accounts[a].holds(id.key()) ==> a
                        == fresh_account1
            }
        }),
{
    let k = id.key();
    let p = s.plan(None, k);
    lemma_commit(s, p, None, id, fresh_account1, fresh_session1, now1);
    let (s1, r1) = s.commit(p, None, id, fresh_account1, fresh_session1, now1);
    if r1 is Ok {
        let t = s1.sessions[r1->Ok_0].account;
        lemma_claimant(s1, t, k);
        assert(t == fresh_account1);
        assert forall|a: u128|
            s1.accounts.contains_key(a) && #[trigger] s1.accounts[a].holds(k) implies a
            == fresh_account1 by {
            lemma_claimant(s1, a, k);
        }
    }
}

/// Once an account is complete, no sequence of logins and logouts removes it or
/// takes it back below complete; the store stays well formed throughout.
pub proof fn lemma_completion_monotonic(s: DatabaseView, steps: Seq<Step>, a: u128)
    requires
        s.wf(),
        s.accounts.contains_key(a),
        s.accounts[a].is_complete(),
    ensures
        run(s, steps).wf(),
        run(s, steps).accounts.contains_key(a),
        run(s, steps).accounts[a].is_complete(),
    decreases steps.len(),
{
    if steps.len() > 0 {
        let next = match steps[0] {
            Step::Login(session, id, fresh_account, fresh_session, now) => {
                lemma_commit(
                    s,
                    s.plan(session, id.key()),
                    session,
                    id,
                    fresh_account,
                    fresh_session,
                    now,
                );
                s.login(session, id, fresh_account, fresh_session, now).0
            },
            Step::Logout(sid) => {
                lemma_logout(s, sid);
                s.logout(sid)
            },
        };
        lemma_completion_monotonic(next, steps.drop_first(), a);
    }
}

/// Logging out the only session of an account removes the account if it is
/// incomplete, and keeps it if it is complete.
pub proof fn lemma_orphan_cleanup(s: DatabaseView, sid: u128)
    requires
        s.wf(),
        s.sessions.contains_key(sid),
        forall|other: u128|
            s.sessions.contains_key(other) && #[trigger] s.sessions[other].account
                == s.sessions[sid].account ==> other == sid,
    ensures
        s.logout(sid).accounts.contains_key(s.sessions[sid].account)
            == s.accounts[s.sessions[sid].account].is_complete(),
{
    let a = s.sessions[sid].account;
    let t = DatabaseView { sessions: s.sessions.remove(sid), ..s };
    assert(!t.has_sessions(a)) by {
        if t.has_sessions(a) {
            let o = choose|o: u128| t.sessions.contains_key(o) && #[trigger] t.sessions[o].account == a;
            assert(s.sessions.contains_key(o) && s.sessions[o].account == a);
        }
    }
    if !s.accounts[a].is_complete() {
        lemma_sessions_only(s, t);
        assert(s.logout(sid) == t.without_account(a));
        assert(t.accounts.contains_key(a));
        assert(t.without_account(a).accounts == t.accounts.remove(a));
    }
}

/// Every stored session is bound to an account of the store, and deleting that
/// account removes the session; the store stays well formed.
pub proof fn lemma_session_account(s: DatabaseView, sid: u128)
    requires
        s.wf(),
        s.sessions.contains_key(sid),
    ensures
        s.accounts.contains_key(s.sessions[sid].account),
        s.delete_account(s.sessions[sid].account).1,
        s.delete_account(s.sessions[sid].account).0.wf(),
        !s.delete_account(s.sessions[sid].account).0.sessions.contains_key(sid),
        !s.delete_account(s.sessions[sid].account).0.accounts.contains_key(s.sessions[sid].account),
{
    let a = s.sessions[sid].account;
    lemma_delete_account(s, a);
    lemma_without_account(s, a);
}

/// A login that fails leaves the store exactly as it was: no authentication stored,
/// no account made or changed, no session made or ended.
pub proof fn lemma_failed_commit_changes_nothing(
    s: DatabaseView,
    plan: LoginPlan,
    session: Option<u128>,
    id: IdentityView,
    fresh_account: u128,
    fresh_session: u128,
    now: i64,
)
    requires
        s.wf(),
        s.commit(plan, session, id, fresh_account, fresh_session, now).1 is Err,
    ensures
        s.commit(plan, session, id, fresh_account, fresh_session, now).0 == s,
{
}

/// The account a plan means to give the identity to, if it names one.
pub open spec fn plan_target(plan: LoginPlan) -> Option<u128> {
    match plan {
        LoginPlan::Existing(a) => Some(a),
        LoginPlan::LinkTo(a) => Some(a),
        LoginPlan::Create => None,
    }
}

/// A commit reports a conflict exactly when another account than the one the plan
/// names holds the identity.
pub proof fn lemma_conflict_exactly_on_foreign_claim(
    s: DatabaseView,
    plan: LoginPlan,
    session: Option<u128>,
    id: IdentityView,
    fresh_account: u128,
    fresh_session: u128,
    now: i64,
)
    requires
        s.wf(),
    ensures
        (s.commit(plan, session, id, fresh_account, fresh_session, now).1 == Err::<
            u128,
            ReconcileError,
        >(ReconcileError::Conflict)) == (s.claimed(id.key()) && plan_target(plan) != Some(
            s.claimant(id.key()),
        )),
{
    lemma_resolve(s, plan, id, fresh_account, now);
    match s.resolve(plan, id, fresh_account, now) {
        Ok((m, t)) => {
            lemma_bind_session(m, session, t, fresh_session, now);
        },
        Err(_) => {},
    }
}

/// Logging out a session that is not stored changes nothing.
pub proof fn lemma_logout_unknown_session(s: DatabaseView, sid: u128)
    requires
        !s.sessions.contains_key(sid),
    ensures
        s.logout(sid) == s,
{
}

/// Taking the hosting identity off an account that has one keeps the account, with
/// its streaming identity and its sessions, and leaves it without a hosting identity.
pub proof fn lemma_remove_hosting_keeps_account(s: DatabaseView, a: u128)
    requires
        s.wf(),
        s.accounts.contains_key(a),
        s.accounts[a].github is Some,
    ensures
        s.remove_hosting(a).1,
        s.remove_hosting(a).0.wf(),
        s.remove_hosting(a).0.accounts.contains_key(a),
        s.remove_hosting(a).0.accounts[a].github is None,
        s.remove_hosting(a).0.accounts[a].spotify == s.accounts[a].spotify,
        s.remove_hosting(a).0.sessions == s.sessions,
{
    lemma_remove_hosting(s, a);
}

} // verus!
