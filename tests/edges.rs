use spotify_backup::authentication::{GithubAuthentication, SpotifyAuthentication};
use spotify_backup::database::id::{AccountId, GithubUserId, SpotifyUserId, UserSessionId};
use spotify_backup::entity::{github_auth, spotify_auth, user_session};
use spotify_backup::error::ReconcileError;
use spotify_backup::oauth::{
    delete_action, eq_ignore_ascii_case, required_spotify_scopes, scopes_cover, DeleteAction, DeleteQuery,
    GithubAccessTokenResponse, GithubAuthCodeResponse, SpotifyAuthCodeResponse, DECREE,
};
use spotify_backup::server::{error_sources, Location, StaticServerInformation};
use spotify_backup::session::{UserSession, UserSessionRejection, SESSION_COOKIE};

#[test]
fn a_missing_cookie_is_no_session() {
    assert_eq!(
        UserSession::from_cookie(None),
        Err(UserSessionRejection::NoSessionCookie)
    );
}

#[test]
fn a_cookie_that_is_no_uuid_is_rejected() {
    assert_eq!(
        UserSession::from_cookie(Some("not-a-session")),
        Err(UserSessionRejection::BadSessionCookie)
    );
}

#[test]
fn a_cookie_holding_a_uuid_is_read() {
    let s = UserSession::from_cookie(Some("a1a2a3a4-b1b2-c1c2-d1d2-d3d4d5d6d7d8")).unwrap();
    assert_eq!(s.id, UserSessionId(0xa1a2a3a4b1b2c1c2d1d2d3d4d5d6d7d8));
}

#[test]
fn the_session_cookie_holds_the_hyphenated_id() {
    let s = UserSession { id: UserSessionId(0xa1a2a3a4b1b2c1c2d1d2d3d4d5d6d7d8) };
    let c = s.cookie();
    assert_eq!(c.name, SESSION_COOKIE);
    assert_eq!(c.name, "spotify-backup-session");
    assert_eq!(c.value, "a1a2a3a4-b1b2-c1c2-d1d2-d3d4d5d6d7d8");
    assert_eq!(c.path, "/");
    assert!(c.same_site_lax && c.secure && c.http_only);
    assert_eq!(c.expires_at, None);
}

#[test]
fn the_logout_cookie_expires_at_the_epoch() {
    let c = UserSession::remove().cookie();
    assert_eq!(c.value, "00000000-0000-0000-0000-000000000000");
    assert_eq!(c.expires_at, Some(0));
}

#[test]
fn callback_codes_and_failures() {
    let ok = SpotifyAuthCodeResponse::Success { code: "c1".to_string(), state: "s".to_string() };
    assert_eq!(ok.into_code(), Ok("c1".to_string()));
    let failed = SpotifyAuthCodeResponse::Failure {
        error: "access_denied".to_string(),
        state: "s".to_string(),
    };
    assert_eq!(failed.into_code(), Err(ReconcileError::Upstream));

    let ok = GithubAuthCodeResponse::Success { code: "c2".to_string() };
    assert_eq!(ok.into_code(), Ok("c2".to_string()));
    let failed = GithubAuthCodeResponse::Failure {
        error: "e".to_string(),
        error_description: "d".to_string(),
        error_uri: "u".to_string(),
    };
    assert_eq!(failed.into_code(), Err(ReconcileError::Upstream));
}

fn token(scope: &str, token_type: &str) -> GithubAccessTokenResponse {
    GithubAccessTokenResponse::Success {
        access_token: "gho_abc".to_string(),
        scope: scope.to_string(),
        token_type: token_type.to_string(),
    }
}

#[test]
fn access_token_needs_no_scope_and_a_bearer_type() {
    assert_eq!(token("", "bearer").into_access_token(), Ok("gho_abc".to_string()));
    assert_eq!(token("", "BeArEr").into_access_token(), Ok("gho_abc".to_string()));
    assert_eq!(token("repo", "bearer").into_access_token(), Err(ReconcileError::Internal));
    assert_eq!(token("", "mac").into_access_token(), Err(ReconcileError::Internal));
    assert_eq!(token("", "bearers").into_access_token(), Err(ReconcileError::Internal));
    let failed = GithubAccessTokenResponse::Failure {
        error: "bad_verification_code".to_string(),
        error_description: "d".to_string(),
        error_uri: "u".to_string(),
    };
    assert_eq!(failed.into_access_token(), Err(ReconcileError::Upstream));
}

#[test]
fn granted_scopes_must_cover_the_required_ones() {
    let required = required_spotify_scopes();
    assert_eq!(required, vec!["playlist-read-private", "user-library-read"]);
    let all = vec![
        "user-library-read".to_string(),
        "streaming".to_string(),
        "playlist-read-private".to_string(),
    ];
    assert!(scopes_cover(&all, &required));
    let some = vec!["user-library-read".to_string()];
    assert!(!scopes_cover(&some, &required));
    assert!(scopes_cover(&Vec::new(), &Vec::new()));
    assert!(!scopes_cover(&Vec::new(), &required));
}

#[test]
fn deletion_needs_a_user_and_the_exact_decree() {
    assert_eq!(delete_action(false, None), DeleteAction::RedirectHome);
    let right = DeleteQuery { decree: DECREE.to_string() };
    assert_eq!(delete_action(false, Some(&right)), DeleteAction::RedirectHome);
    assert_eq!(delete_action(true, None), DeleteAction::AskForDecree);
    assert_eq!(delete_action(true, Some(&right)), DeleteAction::Delete);
    let wrong = DeleteQuery { decree: "i solemnly swear that i am deleting my account".to_string() };
    assert_eq!(delete_action(true, Some(&wrong)), DeleteAction::RejectDecree);
}

#[test]
fn server_information_and_origin_header() {
    let info = StaticServerInformation::new(
        "spotify-backup".to_string(),
        "0.1.0".to_string(),
        "abc123".to_string(),
        "abc123",
        true,
    );
    assert_eq!(info.source, "https://github.com/dusterthefirst/spotify-backup/tree/abc123");
    assert_eq!(info.environment, "development");
    assert_eq!(info.origin_server(), "spotify-backup@0.1.0 (commit abc123)");
    let release = StaticServerInformation::new(
        "n".to_string(),
        "1".to_string(),
        "c".to_string(),
        "r",
        false,
    );
    assert_eq!(release.environment, "production");
}

#[test]
fn error_sources_are_listed_deepest_first() {
    let chain = vec!["top".to_string(), "middle".to_string(), "root".to_string()];
    assert_eq!(error_sources(&chain), vec!["root".to_string(), "middle".to_string()]);
    assert!(error_sources(&vec!["only".to_string()]).is_empty());
    assert!(error_sources(&Vec::new()).is_empty());
}

#[test]
fn location_parts() {
    let l = Location::new("src/main.rs".to_string(), 12, 5);
    assert_eq!(l.file(), "src/main.rs");
    assert_eq!(l.line(), 12);
    assert_eq!(l.column(), 5);
}

#[test]
fn ids_from_rows() {
    let g = github_auth::Model { user_id: 99, access_token: "t".to_string(), created_at: 1 };
    assert_eq!(GithubUserId::from_model(&g), GithubUserId(99));
    let s = spotify_auth::Model {
        user_id: "sp".to_string(),
        access_token: "t".to_string(),
        refresh_token: None,
        expires_at: None,
        created_at: 1,
    };
    let id = SpotifyUserId::from_model(&s);
    assert_eq!(id.as_str(), "sp");
    assert_eq!(id.into_string(), "sp".to_string());
    let session = user_session::Model { id: 5, created: 1, last_seen: 2, account: 6 };
    assert_eq!(UserSessionId::from_model(&session), UserSessionId(5));
    assert_eq!(AccountId::from_session(&session), AccountId(6));
    assert_eq!(UserSessionId::from_raw(5).into_uuid(), 5);
}

#[test]
fn authentications_round_trip_through_rows() {
    let a = SpotifyAuthentication {
        access_token: "a".to_string(),
        refresh_token: Some("r".to_string()),
        user_id: SpotifyUserId("u".to_string()),
        expires_at: Some(9),
        created_at: 3,
    };
    let m = a.into_model();
    assert_eq!(m.user_id, "u");
    assert_eq!(m.refresh_token.as_deref(), Some("r"));
    let back = SpotifyAuthentication::from_model(m);
    assert_eq!(back.user_id.0, "u");
    assert_eq!(back.expires_at, Some(9));

    let g = GithubAuthentication {
        access_token: "g".to_string(),
        user_id: GithubUserId(4),
        created_at: 2,
    };
    let m = g.into_model();
    assert_eq!(m.user_id, 4);
    let back = GithubAuthentication::from_model(m);
    assert_eq!(back.user_id, GithubUserId(4));
    assert_eq!(back.access_token, "g");
}

#[test]
fn hosting_authorization_address() {
    assert_eq!(
        spotify_backup::oauth::github_authorize_url("cid", "https://example.org/login/github"),
        "https://github.com/login/oauth/authorize?client_id=cid&redirect_uri=https://example.org/login/github"
    );
}

#[test]
fn the_session_cookie_reads_back_as_the_session() {
    let s = UserSession { id: UserSessionId(0x0123456789abcdef0011223344556677) };
    let c = s.cookie();
    assert_eq!(UserSession::from_cookie(Some(&c.value)), Ok(s));
}

#[test]
fn ascii_case_insensitive_comparison() {
    assert!(eq_ignore_ascii_case("Bearer", "bEARER"));
    assert!(eq_ignore_ascii_case("", ""));
    assert!(eq_ignore_ascii_case("Ünï", "Ünï"));
    assert!(!eq_ignore_ascii_case("Ünï", "ünï"));
    assert!(!eq_ignore_ascii_case("bearer", "bearer "));
}
