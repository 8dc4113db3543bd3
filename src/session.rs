//! The session cookie: reading the session a browser presents, and the cookie that
//! hands a session to it.
use vstd::prelude::*;

use crate::database::id::UserSessionId;

verus! {

/// The name of the session cookie.
pub const SESSION_COOKIE: &'static str = "spotify-backup-session";

/// The session id that the `uuid` crate reads from a text, if it reads one.
pub uninterp spec fn parsed_uuid(s: Seq<char>) -> Option<u128>;

#[verifier::external_type_specification]
#[verifier::external_body]
pub struct ExUuidError(uuid::Error);

/// Relies on `uuid::Uuid::parse_str`: the UUID the text spells, as its 128-bit value,
/// or the crate's error.
#[verifier::external_body]
fn parse_uuid(s: &str) -> (r: Result<u128, uuid::Error>)
    ensures
        match r {
            Ok(v) => parsed_uuid(s@) == Some(v),
            Err(_) => parsed_uuid(s@) is None,
        },
{
    uuid::Uuid::parse_str(s).map(|u| u.as_u128())
}

/// The sixteen lower-case hexadecimal digits.
pub open spec fn hex_digit(n: int) -> char {
    seq!['0', '1', '2', '3', '4', '5', '6', '7', '8', '9', 'a', 'b', 'c', 'd', 'e', 'f'][n]
}

/// The lowest `count` hexadecimal digits of `x`, most significant first.
pub open spec fn hex_digits(x: nat, count: nat) -> Seq<char>
    decreases count,
{
    if count == 0 {
        Seq::empty()
    } else {
        hex_digits(x / 16, (count - 1) as nat).push(hex_digit((x % 16) as int))
    }
}

/// The hyphenated lower-case text of a UUID: 8-4-4-4-12 hexadecimal digits.
pub open spec fn hyphenated(x: u128) -> Seq<char> {
    let v = x as nat;
    hex_digits(v / 0x1_0000_0000_0000_0000_0000_0000, 8) + seq!['-'] + hex_digits(
        v / 0x1_0000_0000_0000_0000_0000,
        4,
    ) + seq!['-'] + hex_digits(v / 0x1_0000_0000_0000_0000, 4) + seq!['-'] + hex_digits(
        v / 0x1_0000_0000_0000,
        4,
    ) + seq!['-'] + hex_digits(v, 12)
}

/// Relies on `uuid::Uuid::from_u128` and its `Display`: the hyphenated lower-case text,
/// which `uuid::Uuid::parse_str` reads back as the same UUID.
#[verifier::external_body]
fn uuid_text(x: u128) -> (r: String)
    ensures
        r@ == hyphenated(x),
        parsed_uuid(r@) == Some(x),
{
    uuid::Uuid::from_u128(x).to_string()
}

/// The session a browser presents.
#[derive(Debug, Clone, Copy, PartialEq, Eq, Structural)]
pub struct UserSession {
    pub id: UserSessionId,
}

/// Why no session could be read from a request.
#[derive(Debug, Clone, Copy, PartialEq, Eq, Structural)]
pub enum UserSessionRejection {
    /// The request has no session cookie.
    NoSessionCookie,
    /// The session cookie does not hold a UUID.
    BadSessionCookie,
}

/// A cookie to set on the response. `expires_at` is a Unix timestamp in seconds;
/// `None` makes a cookie that lasts for the browser session.
pub struct SessionCookie {
    pub name: String,
    pub value: String,
    pub path: String,
    pub same_site_lax: bool,
    pub secure: bool,
    pub http_only: bool,
    pub expires_at: Option<i64>,
}

impl UserSession {
    /// The session that logs the browser out: its cookie expires at once.
    pub fn remove() -> (r: UserSession)
        ensures
            r.id.0 == 0,
    {
        UserSession { id: UserSessionId(0) }
    }

    /// The session in the value of the session cookie, if the request has one.
    pub fn from_cookie(value: Option<&str>) -> (r: Result<UserSession, UserSessionRejection>)
        ensures
            match value {
                None => r == Err::<UserSession, UserSessionRejection>(
                    UserSessionRejection::NoSessionCookie,
                ),
                Some(v) => match parsed_uuid(v@) {
                    Some(id) => r == Ok::<UserSession, UserSessionRejection>(
                        UserSession { id: UserSessionId(id) },
                    ),
                    None => r == Err::<UserSession, UserSessionRejection>(
                        UserSessionRejection::BadSessionCookie,
                    ),
                },
            },
    {
        match value {
            None => Err(UserSessionRejection::NoSessionCookie),
            Some(v) => match parse_uuid(v) {
                Ok(id) => Ok(UserSession { id: UserSessionId(id) }),
                Err(_) => Err(UserSessionRejection::BadSessionCookie),
            },
        }
    }

    /// The cookie that hands this session to the browser: HTTP-only, secure, same-site
    /// lax, for every path; the nil session expires at the Unix epoch, any other lasts
    /// for the browser session. [`UserSession::from_cookie`] reads its value back as
    /// this session.
    pub fn cookie(&self) -> (c: SessionCookie)
        ensures
            c.name@ == SESSION_COOKIE@,
            c.value@ == hyphenated(self.id.0),
            parsed_uuid(c.value@) == Some(self.id.0),
            c.path@ == seq!['/'],
            c.same_site_lax,
            c.secure,
            c.http_only,
            c.expires_at == (if self.id.0 == 0 {
                Some(0i64)
            } else {
                None
            }),
    {
        let path = "/".to_owned();
        proof {
            reveal_strlit("/");
        }
        SessionCookie {
            name: SESSION_COOKIE.to_owned(),
            value: uuid_text(self.id.0),
            path,
            same_site_lax: true,
            secure: true,
            http_only: true,
            expires_at: if self.id.0 == 0 {
                Some(0)
            } else {
                None
            },
        }
    }
}

} // verus!
