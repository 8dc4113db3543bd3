use spotify_backup::authentication::{
    Account, GithubAuthentication, ProviderIdentity, SpotifyAuthentication,
};
use spotify_backup::database::id::{AccountId, GithubUserId, SpotifyUserId, UserSessionId};
use spotify_backup::database::Database;
use spotify_backup::error::{GithubAccountAlreadyTakenError, ReconcileError};
use spotify_backup::session::UserSession;

fn spotify_auth(id: &str, token: &str, created_at: i64) -> SpotifyAuthentication {
    SpotifyAuthentication {
        access_token: token.to_string(),
        refresh_token: Some(format!("refresh-{token}")),
        user_id: SpotifyUserId(id.to_string()),
        expires_at: Some(created_at + 3600),
        created_at,
    }
}

fn github_auth(id: u64, token: &str, created_at: i64) -> GithubAuthentication {
    GithubAuthentication {
        access_token: token.to_string(),
        user_id: GithubUserId(id),
        created_at,
    }
}

fn spotify(id: &str) -> ProviderIdentity {
    ProviderIdentity::Streaming(spotify_auth(id, "token", 100))
}

fn github(id: u64) -> ProviderIdentity {
    ProviderIdentity::Hosting(github_auth(id, "gh-token", 100))
}

fn account_of(db: &Database, session: UserSessionId) -> Account {
    db.get_current_user(session).expect("session should be stored").account
}

fn account_ids(db: &Database) -> Vec<u128> {
    let mut ids: Vec<u128> = db.list_users().iter().map(|a| a.id.0).collect();
    ids.sort();
    ids
}

fn signed_in(db: &Database, session: UserSessionId) -> spotify_backup::authentication::User {
    db.get_current_user(session).expect("session should be stored")
}

#[test]
fn streaming_then_hosting_then_new_browser_reaches_the_same_account() {
    let mut db = Database::new();

    let s1 = db.login_via_provider(None, spotify("alice")).unwrap();
    let a = account_of(&db, s1);
    assert_eq!(a.spotify.as_ref().unwrap().user_id.0, "alice");
    assert!(a.github.is_none());
    assert!(!a.is_complete());

    // 77 stands for the hosting provider's id of the same person.
    let s = db.login_via_provider(Some(s1), github(77)).unwrap();
    assert_eq!(s, s1);
    let a2 = account_of(&db, s1);
    assert_eq!(a2.id, a.id);
    assert_eq!(a2.github.as_ref().unwrap().user_id, GithubUserId(77));
    assert!(a2.is_complete());

    let cleared = db.logout_current_user(UserSession { id: s1 });
    assert_eq!(cleared.id.0, 0);
    assert!(db.get_current_user(s1).is_none());
    assert_eq!(account_ids(&db), vec![a.id.0]);

    let s2 = db.login_via_provider(None, spotify("alice")).unwrap();
    assert_ne!(s2, s1);
    assert_eq!(account_of(&db, s2).id, a.id);
    assert_eq!(account_ids(&db), vec![a.id.0]);
}

#[test]
fn logging_in_twice_without_session_reaches_one_account() {
    let mut db = Database::new();
    let s1 = db.login_with(None, spotify("bob"), 10, 20, 1000).unwrap();
    let s2 = db.login_with(None, spotify("bob"), 11, 21, 2000).unwrap();
    assert_eq!(s1, UserSessionId(20));
    assert_eq!(s2, UserSessionId(21));
    assert_eq!(account_of(&db, s1).id, AccountId(10));
    assert_eq!(account_of(&db, s2).id, AccountId(10));
    assert_eq!(account_ids(&db), vec![10]);
}

#[test]
fn second_of_two_racing_first_logins_gets_a_conflict() {
    let mut db = Database::new();
    let identity = spotify("carol");
    let plan1 = db.begin_login(None, &identity);
    let plan2 = db.begin_login(None, &spotify("carol"));
    assert_eq!(plan1, plan2);

    let first = db.commit_login(plan1, None, identity, 1, 2, 50);
    assert_eq!(first, Ok(UserSessionId(2)));
    let second = db.commit_login(plan2, None, spotify("carol"), 3, 4, 51);
    assert_eq!(second, Err(ReconcileError::Conflict));

    assert_eq!(account_ids(&db), vec![1]);
    assert!(db.get_current_user(UserSessionId(4)).is_none());
}

#[test]
fn complete_account_stays_complete_through_logins_and_logouts() {
    let mut db = Database::new();
    let s1 = db.login_with(None, spotify("dave"), 1, 2, 0).unwrap();
    db.login_with(Some(s1), github(5), 9, 9, 1).unwrap();
    assert!(account_of(&db, s1).is_complete());

    let s3 = db.login_with(None, github(5), 7, 3, 2).unwrap();
    db.logout(s1);
    db.logout(s3);
    let s4 = db.login_with(None, spotify("erin"), 8, 4, 3).unwrap();
    db.logout(s4);
    let s5 = db.login_with(None, spotify("dave"), 6, 5, 4).unwrap();
    db.logout(s5);

    let accounts = db.list_users();
    let dave = accounts.iter().find(|a| a.id == AccountId(1)).expect("account 1 should exist");
    assert!(dave.is_complete());
    assert_eq!(dave.spotify.as_ref().unwrap().user_id.0, "dave");
    assert_eq!(dave.github.as_ref().unwrap().user_id.0, 5);
}

#[test]
fn logout_of_the_only_session_removes_an_incomplete_account() {
    let mut db = Database::new();
    let s = db.login_with(None, spotify("frank"), 1, 2, 0).unwrap();
    db.logout(s);
    assert!(db.list_users().is_empty());
    assert!(db.get_current_user(s).is_none());
    // The identity is free again: a new login makes a new account.
    let s2 = db.login_with(None, spotify("frank"), 3, 4, 1).unwrap();
    assert_eq!(account_of(&db, s2).id, AccountId(3));
}

#[test]
fn logout_of_the_only_session_keeps_a_complete_account() {
    let mut db = Database::new();
    let s = db.login_with(None, spotify("gina"), 1, 2, 0).unwrap();
    db.login_with(Some(s), github(8), 9, 9, 1).unwrap();
    db.logout(s);
    assert_eq!(account_ids(&db), vec![1]);
}

#[test]
fn logout_keeps_an_incomplete_account_with_other_sessions() {
    let mut db = Database::new();
    let s1 = db.login_with(None, spotify("hank"), 1, 2, 0).unwrap();
    let s2 = db.login_with(None, spotify("hank"), 1, 3, 0).unwrap();
    db.logout(s1);
    assert_eq!(account_ids(&db), vec![1]);
    assert_eq!(account_of(&db, s2).id, AccountId(1));
}

#[test]
fn logout_of_an_unknown_session_changes_nothing() {
    let mut db = Database::new();
    let s = db.login_with(None, spotify("ivy"), 1, 2, 0).unwrap();
    db.logout(UserSessionId(999));
    assert_eq!(account_ids(&db), vec![1]);
    assert!(db.get_current_user(s).is_some());
}

#[test]
fn deleting_an_account_removes_its_sessions() {
    let mut db = Database::new();
    let s1 = db.login_with(None, spotify("jack"), 1, 2, 0).unwrap();
    let s2 = db.login_with(None, spotify("jack"), 1, 3, 0).unwrap();
    let other = db.login_with(None, spotify("kate"), 4, 5, 0).unwrap();
    let user = signed_in(&db, s1);
    let (cleared, deleted) = db.delete_current_user(&user);
    assert!(deleted);
    assert_eq!(cleared.id.0, 0);
    assert!(db.get_current_user(s1).is_none());
    assert!(db.get_current_user(s2).is_none());
    assert_eq!(account_ids(&db), vec![4]);
    assert!(db.get_current_user(other).is_some());

    // A second deletion finds nothing to delete.
    let (_, again) = db.delete_current_user(&user);
    assert!(!again);
    assert!(!db.delete_account(1));
}

#[test]
fn repeat_login_refreshes_tokens_and_keeps_creation_time() {
    let mut db = Database::new();
    let first = ProviderIdentity::Streaming(spotify_auth("lena", "old", 100));
    let s1 = db.login_with(None, first, 1, 2, 100).unwrap();
    let again = ProviderIdentity::Streaming(spotify_auth("lena", "new", 500));
    let s2 = db.login_with(None, again, 3, 4, 500).unwrap();
    let auth = account_of(&db, s2).spotify.unwrap();
    assert_eq!(auth.access_token, "new");
    assert_eq!(auth.refresh_token.as_deref(), Some("refresh-new"));
    assert_eq!(auth.expires_at, Some(4100));
    assert_eq!(auth.created_at, 100);
    assert_eq!(account_of(&db, s1).id, AccountId(1));
}

#[test]
fn presenting_a_session_reuses_it_and_records_the_time() {
    let mut db = Database::new();
    let s = db.login_with(None, spotify("mona"), 1, 2, 10).unwrap();
    let again = db.login_with(Some(s), spotify("mona"), 3, 4, 99).unwrap();
    assert_eq!(again, s);
    let user = signed_in(&db, s);
    assert_eq!(user.session.created, 10);
    assert_eq!(user.session.last_seen, 99);
    assert!(db.get_current_user(UserSessionId(4)).is_none());
}

#[test]
fn a_stale_session_is_treated_as_no_session() {
    let mut db = Database::new();
    let s = db.login_with(Some(UserSessionId(42)), spotify("nina"), 1, 2, 0).unwrap();
    assert_eq!(s, UserSessionId(2));
    assert_eq!(account_ids(&db), vec![1]);
}

#[test]
fn a_fresh_session_id_equal_to_the_presented_one_is_refused() {
    let mut db = Database::new();
    assert_eq!(
        db.login_with(Some(UserSessionId(2)), spotify("nina"), 1, 2, 0),
        Err(ReconcileError::Internal)
    );
    assert!(db.list_users().is_empty());
    let s = db.login_with(Some(UserSessionId(2)), spotify("nina"), 1, 3, 0).unwrap();
    assert_eq!(s, UserSessionId(3));
    assert_eq!(account_of(&db, s).id, AccountId(1));
}

#[test]
fn a_nil_fresh_session_id_is_refused() {
    let mut db = Database::new();
    assert_eq!(db.login_with(None, spotify("nils"), 1, 0, 0), Err(ReconcileError::Internal));
    assert!(db.list_users().is_empty());
    assert!(db.get_current_user(UserSessionId(0)).is_none());
}

#[test]
fn taken_fresh_ids_fail_without_changing_the_store() {
    let mut db = Database::new();
    let s = db.login_with(None, spotify("olga"), 1, 2, 0).unwrap();
    assert_eq!(
        db.login_with(None, spotify("paul"), 1, 5, 0),
        Err(ReconcileError::Internal)
    );
    assert_eq!(
        db.login_with(None, spotify("paul"), 6, 2, 0),
        Err(ReconcileError::Internal)
    );
    assert_eq!(account_ids(&db), vec![1]);
    assert!(db.get_current_user(UserSessionId(5)).is_none());
    assert_eq!(account_of(&db, s).spotify.unwrap().user_id.0, "olga");
}

#[test]
fn a_stale_plan_is_refused() {
    let mut db = Database::new();
    let s = db.login_with(None, spotify("quinn"), 1, 2, 0).unwrap();
    let plan = db.begin_login(None, &spotify("quinn"));
    let user = signed_in(&db, s);
    db.delete_current_user(&user);
    assert_eq!(
        db.commit_login(plan, None, spotify("quinn"), 3, 4, 1),
        Err(ReconcileError::Internal)
    );
    assert!(db.list_users().is_empty());
}

#[test]
fn a_new_streaming_identity_replaces_the_old_one_on_the_session_account() {
    let mut db = Database::new();
    let s = db.login_with(None, spotify("rosa"), 1, 2, 0).unwrap();
    db.login_with(Some(s), spotify("rosa-2"), 3, 4, 1).unwrap();
    let acc = account_of(&db, s);
    assert_eq!(acc.id, AccountId(1));
    assert_eq!(acc.spotify.unwrap().user_id.0, "rosa-2");
    // The replaced identity is free: it makes a new account.
    let s2 = db.login_with(None, spotify("rosa"), 5, 6, 2).unwrap();
    assert_eq!(account_of(&db, s2).id, AccountId(5));
}

#[test]
fn logging_in_with_another_accounts_identity_moves_the_browser_there() {
    let mut db = Database::new();
    let sa = db.login_with(None, spotify("sam"), 1, 2, 0).unwrap();
    db.login_with(Some(sa), github(3), 9, 9, 0).unwrap();
    let sb = db.login_with(None, spotify("tess"), 4, 5, 0).unwrap();
    // The browser of the incomplete account 4 logs in with an identity of account 1.
    let moved = db.login_with(Some(sb), github(3), 6, 7, 1).unwrap();
    assert_eq!(moved, UserSessionId(7));
    assert_eq!(account_of(&db, moved).id, AccountId(1));
    assert!(db.get_current_user(sb).is_none());
    // Account 4 was incomplete and lost its only session.
    assert_eq!(account_ids(&db), vec![1]);
}

#[test]
fn hosting_identity_of_another_account_is_already_taken() {
    let mut db = Database::new();
    let sa = db.login_with(None, spotify("uma"), 1, 2, 0).unwrap();
    let sb = db.login_with(None, spotify("vic"), 3, 4, 0).unwrap();
    let ua = signed_in(&db, sa);
    assert_eq!(db.associate_github_to_account(&ua, github_auth(11, "t", 0)), Ok(Ok(())));
    let ub = signed_in(&db, sb);
    assert_eq!(
        db.associate_github_to_account(&ub, github_auth(11, "t", 0)),
        Ok(Err(GithubAccountAlreadyTakenError))
    );
    assert!(account_of(&db, sb).github.is_none());
    assert_eq!(account_of(&db, sa).github.unwrap().user_id, GithubUserId(11));
    // Linking it again onto its own account is fine.
    let ua = signed_in(&db, sa);
    assert_eq!(db.associate_github_to_account(&ua, github_auth(11, "u", 0)), Ok(Ok(())));
}

#[test]
fn hosting_identity_comes_off_an_account_that_has_one() {
    let mut db = Database::new();
    let s = db.login_with(None, spotify("walt"), 1, 2, 0).unwrap();
    let user = signed_in(&db, s);
    assert!(!db.remove_github_from_account(&user));
    db.login_with(Some(s), github(12), 9, 9, 0).unwrap();
    let user = signed_in(&db, s);
    assert!(db.remove_github_from_account(&user));
    let acc = account_of(&db, s);
    assert!(acc.github.is_none());
    assert_eq!(acc.spotify.unwrap().user_id.0, "walt");
    // The identity is free again.
    let s2 = db.login_with(None, github(12), 13, 14, 0).unwrap();
    assert_eq!(account_of(&db, s2).id, AccountId(13));
}

#[test]
fn a_hosting_login_without_session_makes_its_own_account() {
    let mut db = Database::new();
    let s = db.login_with(None, github(21), 1, 2, 0).unwrap();
    let acc = account_of(&db, s);
    assert!(acc.spotify.is_none());
    assert_eq!(acc.github.unwrap().user_id.0, 21);
}

#[test]
fn login_user_links_a_streaming_identity() {
    let mut db = Database::new();
    let s = db.login_user(None, spotify_auth("xena", "t", 0)).unwrap();
    assert_ne!(s.0, 0);
    let again = db.login_user(Some(UserSession { id: s }), spotify_auth("xena", "t2", 1)).unwrap();
    assert_eq!(again, s);
    assert_eq!(db.list_users().len(), 1);
}

#[test]
fn random_logins_give_distinct_non_nil_ids() {
    let mut db = Database::new();
    let s1 = db.login_via_provider(None, spotify("yuri")).unwrap();
    let s2 = db.login_via_provider(None, spotify("zoe")).unwrap();
    assert_ne!(s1.0, 0);
    assert_ne!(s2.0, 0);
    assert_ne!(s1, s2);
    let a1 = account_of(&db, s1).id;
    let a2 = account_of(&db, s2).id;
    assert_ne!(a1.0, 0);
    assert_ne!(a1, a2);
}

#[test]
fn only_complete_accounts_are_backed_up() {
    let mut db = Database::new();
    assert!(db.backup_targets().is_empty());
    let s1 = db.login_with(None, spotify("ada"), 1, 2, 0).unwrap();
    db.login_with(None, spotify("bea"), 3, 4, 0).unwrap();
    db.login_with(Some(s1), github(9), 9, 9, 0).unwrap();
    db.login_with(None, github(10), 5, 6, 0).unwrap();
    assert_eq!(db.backup_targets(), vec![AccountId(1)]);
}

#[test]
fn hosting_identity_comes_off_a_hosting_only_account_which_stays() {
    let mut db = Database::new();
    let s = db.login_with(None, github(30), 1, 2, 0).unwrap();
    let user = signed_in(&db, s);
    assert!(db.remove_github_from_account(&user));
    assert_eq!(account_ids(&db), vec![1]);
    let acc = account_of(&db, s);
    assert!(acc.github.is_none());
    assert!(acc.spotify.is_none());
    // The identity is free again and a streaming login can be linked onto the account.
    let again = db.login_with(Some(s), spotify("orla"), 3, 4, 1).unwrap();
    assert_eq!(again, s);
    assert_eq!(account_of(&db, s).spotify.unwrap().user_id.0, "orla");
}

#[test]
fn linking_from_a_session_that_is_gone_is_not_found() {
    let mut db = Database::new();
    let s = db.login_with(None, spotify("pia"), 1, 2, 0).unwrap();
    let user = signed_in(&db, s);
    db.logout(UserSessionId(999));
    let other = db.login_with(None, spotify("pia"), 1, 3, 0).unwrap();
    db.logout(s);
    assert_eq!(
        db.associate_github_to_account(&user, github_auth(40, "t", 0)),
        Err(ReconcileError::NotFound)
    );
    assert!(account_of(&db, other).github.is_none());
}

#[test]
fn relinking_an_own_hosting_identity_refreshes_its_token() {
    let mut db = Database::new();
    let s = db.login_with(None, spotify("quin"), 1, 2, 0).unwrap();
    let user = signed_in(&db, s);
    assert_eq!(db.associate_github_to_account(&user, github_auth(50, "first", 10)), Ok(Ok(())));
    let user = signed_in(&db, s);
    assert_eq!(db.associate_github_to_account(&user, github_auth(50, "second", 20)), Ok(Ok(())));
    let gh = account_of(&db, s).github.unwrap();
    assert_eq!(gh.access_token, "second");
    assert_eq!(gh.created_at, 10);
}

fn replayed() -> Database {
    let mut db = Database::new();
    let s = db.login_with(None, spotify("rhea"), 1, 2, 10).unwrap();
    assert_eq!(
        db.associate_github_with(s, AccountId(1), github_auth(60, "t", 11), 3, 4, 11),
        Ok(Ok(()))
    );
    db.login_with(None, github(60), 5, 6, 12).unwrap();
    assert!(db.remove_github(AccountId(1)));
    db.logout(UserSessionId(6));
    db
}

#[test]
fn the_same_operations_with_the_same_ids_rebuild_the_same_store() {
    let a = replayed();
    let b = replayed();
    let describe = |db: &Database| -> Vec<(u128, Option<String>, Option<u64>, i64)> {
        let mut v: Vec<_> = db
            .list_users()
            .iter()
            .map(|acc| {
                (
                    acc.id.0,
                    acc.spotify.as_ref().map(|s| s.user_id.0.clone()),
                    acc.github.as_ref().map(|g| g.user_id.0),
                    acc.created_at,
                )
            })
            .collect();
        v.sort();
        v
    };
    assert_eq!(describe(&a), describe(&b));
    assert_eq!(describe(&a), vec![(1, Some("rhea".to_string()), None, 10)]);
    assert!(a.get_current_user(UserSessionId(2)).is_some());
    assert!(a.get_current_user(UserSessionId(6)).is_none());
}

#[test]
fn linking_with_explicit_ids_needs_a_stored_session() {
    let mut db = Database::new();
    db.login_with(None, spotify("sven"), 1, 2, 0).unwrap();
    assert_eq!(
        db.associate_github_with(UserSessionId(77), AccountId(1), github_auth(70, "t", 0), 3, 4, 0),
        Err(ReconcileError::NotFound)
    );
    assert!(!db.remove_github(AccountId(1)));
    assert!(!db.remove_github(AccountId(42)));
}
