//! What the providers hand back during a login, and the decisions taken on it.
use vstd::prelude::*;

use crate::error::ReconcileError;

verus! {

/// The parameters of the hosting provider's authorization callback.
pub enum GithubAuthCodeResponse {
    Success { code: String },
    Failure { error: String, error_description: String, error_uri: String },
}

/// The parameters of the streaming provider's authorization callback.
pub enum SpotifyAuthCodeResponse {
    Success { code: String, state: String },
    Failure { error: String, state: String },
}

/// The hosting provider's answer to the exchange of an authorization code.
pub enum GithubAccessTokenResponse {
    Success { access_token: String, scope: String, token_type: String },
    Failure { error: String, error_description: String, error_uri: String },
}

impl GithubAuthCodeResponse {
    /// The authorization code; a reported failure is an upstream error.
    pub fn into_code(self) -> (r: Result<String, ReconcileError>)
        ensures
            match self {
                GithubAuthCodeResponse::Success { code } => r is Ok && r->Ok_0@ == code@,
                GithubAuthCodeResponse::Failure { .. } => r == Err::<String, ReconcileError>(
                    ReconcileError::Upstream,
                ),
            },
    {
        match self {
            GithubAuthCodeResponse::Success { code } => Ok(code),
            GithubAuthCodeResponse::Failure { .. } => Err(ReconcileError::Upstream),
        }
    }
}

impl SpotifyAuthCodeResponse {
    /// The authorization code; a reported failure is an upstream error.
    pub fn into_code(self) -> (r: Result<String, ReconcileError>)
        ensures
            match self {
                SpotifyAuthCodeResponse::Success { code, .. } => r is Ok && r->Ok_0@ == code@,
                SpotifyAuthCodeResponse::Failure { .. } => r == Err::<String, ReconcileError>(
                    ReconcileError::Upstream,
                ),
            },
    {
        match self {
            SpotifyAuthCodeResponse::Success { code, .. } => Ok(code),
            SpotifyAuthCodeResponse::Failure { .. } => Err(ReconcileError::Upstream),
        }
    }
}

/// A character with ASCII capitals lowered, as a code point.
pub open spec fn ascii_folded(c: char) -> u32 {
    let v = c as u32;
    if 65 <= v <= 90 {
        (v + 32) as u32
    } else {
        v
    }
}

/// The texts are equal once ASCII capitals are lowered.
pub open spec fn ascii_case_equal(a: Seq<char>, b: Seq<char>) -> bool {
    a.len() == b.len() && forall|i: int|
        0 <= i < a.len() ==> ascii_folded(#[trigger] a[i]) == ascii_folded(b[i])
}

/// A character with ASCII capitals lowered, as a code point.
fn ascii_fold(c: char) -> (r: u32)
    ensures
        r == ascii_folded(c),
{
    let v = c as u32;
    if 65 <= v && v <= 90 {
        v + 32
    } else {
        v
    }
}

/// Whether the texts are equal once ASCII capitals are lowered.
pub fn eq_ignore_ascii_case(a: &str, b: &str) -> (r: bool)
    ensures
        r == ascii_case_equal(a@, b@),
{
    let n = a.unicode_len();
    if n != b.unicode_len() {
        return false;
    }
    let mut i: usize = 0;
    while i < n
        invariant
            n == a@.len(),
            n == b@.len(),
            i <= n,
            forall|j: int| 0 <= j < i ==> ascii_folded(#[trigger] a@[j]) == ascii_folded(b@[j]),
        decreases n - i,
    {
        if ascii_fold(a.get_char(i)) != ascii_fold(b.get_char(i)) {
            return false;
        }
        i = i + 1;
    }
    true
}

impl GithubAccessTokenResponse {
    /// The access token, accepted only with no scopes granted and a bearer token type;
    /// a reported failure is an upstream error, an unexpected grant an internal one.
    pub fn into_access_token(self) -> (r: Result<String, ReconcileError>)
        ensures
            match self {
                GithubAccessTokenResponse::Success { access_token, scope, token_type } => if scope@.len()
                    == 0 && ascii_case_equal(token_type@, "bearer"@) {
                    r is Ok && r->Ok_0@ == access_token@
                } else {
                    r == Err::<String, ReconcileError>(ReconcileError::Internal)
                },
                GithubAccessTokenResponse::Failure { .. } => r == Err::<String, ReconcileError>(
                    ReconcileError::Upstream,
                ),
            },
    {
        match self {
            GithubAccessTokenResponse::Success { access_token, scope, token_type } => {
                if !scope.as_str().is_empty() {
                    return Err(ReconcileError::Internal);
                }
                if !eq_ignore_ascii_case(token_type.as_str(), "bearer") {
                    return Err(ReconcileError::Internal);
                }
                Ok(access_token)
            },
            GithubAccessTokenResponse::Failure { .. } => Err(ReconcileError::Upstream),
        }
    }
}

/// Where the hosting provider's authorization starts.
pub const GITHUB_AUTHORIZE: &'static str = "https://github.com/login/oauth/authorize";

/// The address that starts the hosting provider's authorization for this client.
pub fn github_authorize_url(client_id: &str, redirect_uri: &str) -> (r: String)
    ensures
        r@ == GITHUB_AUTHORIZE@ + "?client_id="@ + client_id@ + "&redirect_uri="@ + redirect_uri@,
{
    let mut r = GITHUB_AUTHORIZE.to_owned();
    r.append("?client_id=");
    r.append(client_id);
    r.append("&redirect_uri=");
    r.append(redirect_uri);
    r
}

/// The scopes that a streaming login asks for.
pub fn required_spotify_scopes() -> (r: Vec<String>)
    ensures
        r@.len() == 2,
        r@[0]@ == "playlist-read-private"@,
        r@[1]@ == "user-library-read"@,
{
    let mut r: Vec<String> = Vec::new();
    r.push("playlist-read-private".to_owned());
    r.push("user-library-read".to_owned());
    r
}

/// The scope is among the granted ones.
pub open spec fn has_scope(granted: Seq<String>, scope: Seq<char>) -> bool {
    exists|j: int| 0 <= j < granted.len() && #[trigger] granted[j]@ == scope
}

/// Every required scope is among the granted ones.
pub open spec fn covers(granted: Seq<String>, required: Seq<String>) -> bool {
    forall|i: int| 0 <= i < required.len() ==> has_scope(granted, #[trigger] required[i]@)
}

/// Whether the granted scopes include every required one.
pub fn scopes_cover(granted: &Vec<String>, required: &Vec<String>) -> (r: bool)
    ensures
        r == covers(granted@, required@),
{
    let mut i: usize = 0;
    while i < required.len()
        invariant
            i <= required@.len(),
            forall|m: int| 0 <= m < i ==> has_scope(granted@, #[trigger] required@[m]@),
        decreases required@.len() - i,
    {
        let mut found = false;
        let mut j: usize = 0;
        while j < granted.len()
            invariant
                j <= granted@.len(),
                i < required@.len(),
                found ==> has_scope(granted@, required@[i as int]@),
                !found ==> forall|n: int| 0 <= n < j ==> #[trigger] granted@[n]@ != required@[i as int]@,
            decreases granted@.len() - j,
        {
            if granted[j] == required[i] {
                found = true;
            }
            j = j + 1;
        }
        if !found {
            assert(!has_scope(granted@, required@[i as int]@));
            return false;
        }
        i = i + 1;
    }
    true
}

/// The phrase that confirms an account deletion.
pub const DECREE: &'static str = "I solemnly swear that I am deleting my account";

/// The parameters of a deletion request.
pub struct DeleteQuery {
    pub decree: String,
}

/// What an account deletion request leads to.
#[derive(Debug, Clone, Copy, PartialEq, Eq, Structural)]
pub enum DeleteAction {
    /// Nobody is signed in: back to the start page.
    RedirectHome,
    /// Ask for the confirming phrase.
    AskForDecree,
    /// The phrase is right: delete the account.
    Delete,
    /// The phrase is wrong: keep the account.
    RejectDecree,
}

/// Decides a deletion request from whether a user is signed in and the phrase given.
pub fn delete_action(signed_in: bool, query: Option<&DeleteQuery>) -> (r: DeleteAction)
    ensures
        r == (if !signed_in {
            DeleteAction::RedirectHome
        } else {
            match query {
                None => DeleteAction::AskForDecree,
                Some(q) => if q.decree@ == DECREE@ {
                    DeleteAction::Delete
                } else {
                    DeleteAction::RejectDecree
                },
            }
        }),
{
    if !signed_in {
        return DeleteAction::RedirectHome;
    }
    match query {
        None => DeleteAction::AskForDecree,
        Some(q) => {
            let decree = DECREE.to_owned();
            if q.decree == decree {
                DeleteAction::Delete
            } else {
                DeleteAction::RejectDecree
            }
        },
    }
}

} // verus!
