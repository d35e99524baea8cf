use vstd::prelude::*;
use vstd::arithmetic::power::pow;
use crate::time::Timestamp;

verus! {

/// The name of the cookie that carries the session token.
pub const SESSION_COOKIE: &'static str = "session";

/// The path that the session cookie is scoped to.
pub const SESSION_COOKIE_PATH: &'static str = "/";

/// Whether the session cookie is restricted to secure transport. It is not in
/// this deployment: a deliberate weakening that keeps plain-HTTP clients
/// working, and that a hardened deployment should turn on.
pub const SESSION_COOKIE_SECURE: bool = false;

#[verifier::external_type_specification]
#[verifier::external_body]
pub struct ExUuidError(uuid::Error);

/// The 128-bit value of a textual UUID, or `None` when the text is none.
pub uninterp spec fn uuid_parse(text: Seq<char>) -> Option<u128>;

/// The lower-case hexadecimal digit of a value below sixteen.
pub open spec fn hex_digit(v: int) -> char {
    if v < 10 {
        (v + 48) as char
    } else {
        (v + 87) as char
    }
}

/// Which of the 32 digits stands at position `p` of the hyphenated form.
pub open spec fn digit_position(p: int) -> int {
    if p < 8 {
        p
    } else if p < 13 {
        p - 1
    } else if p < 18 {
        p - 2
    } else if p < 23 {
        p - 3
    } else {
        p - 4
    }
}

/// The canonical textual form of a UUID value: its 32 lower-case hexadecimal
/// digits, most significant first, in groups of 8, 4, 4, 4 and 12 joined by
/// hyphens.
pub open spec fn uuid_text(id: u128) -> Seq<char> {
    Seq::new(
        36,
        |p: int|
            if p == 8 || p == 13 || p == 18 || p == 23 {
                '-'
            } else {
                hex_digit((id as int / pow(16, (31 - digit_position(p)) as nat)) % 16)
            },
    )
}

/// Relies on `Uuid::parse_str`, which `str::parse::<Uuid>` calls: it parses the
/// text into a UUID (read back with `Uuid::as_u128`) or fails, depending on
/// the text alone; the hyphenated lower-case form, which `Uuid`'s `Display`
/// writes, is among the forms that it reads back.
#[verifier::external_body]
fn uuid_from_text(text: &str) -> (r: Result<u128, uuid::Error>)
    ensures
        r matches Ok(v) ==> uuid_parse(text@) == Some(v),
        r is Err ==> uuid_parse(text@) is None,
        (exists|w: u128| text@ == uuid_text(w)) ==> r is Ok,
        r matches Ok(v) ==> forall|w: u128| text@ == uuid_text(w) ==> v == w,
{
    uuid::Uuid::parse_str(text).map(|u| u.as_u128())
}

/// Relies on `Uuid::from_u128` and `Uuid`'s `Display`: the hyphenated
/// lower-case form of the value.
#[verifier::external_body]
fn uuid_to_text(id: u128) -> (r: String)
    ensures
        r@ == uuid_text(id),
{
    uuid::Uuid::from_u128(id).to_string()
}

/// Relies on `Uuid::new_v4`: a random identifier; nothing is known of it.
#[verifier::external_body]
pub(crate) fn random_user_id() -> (r: u128) {
    uuid::Uuid::new_v4().as_u128()
}

/// The session token that stands for a user: the canonical text of its id.
pub fn session_token(user_id: u128) -> (r: String)
    ensures
        r@ == uuid_text(user_id),
{
    uuid_to_text(user_id)
}

/// A stored user.
pub struct User {
    pub id: u128,
    pub username: String,
    pub password_hash: String,
    pub created_at: Timestamp,
}

/// The user that a request was authenticated as.
pub struct AuthSession(pub User);

/// Why a request was not authenticated.
#[derive(Clone, Copy, Debug, PartialEq, Eq, Structural)]
pub enum AuthRejection {
    /// The request carries no session cookie.
    MissingCookie,
    /// The cookie's value is not a user identifier.
    MalformedToken,
    /// No user has that identifier (deleted, or a forged token).
    UnknownUser,
    /// The user could not be looked up.
    StoreUnavailable,
}

impl AuthRejection {
    /// The HTTP status of the rejection.
    pub open spec fn spec_status(self) -> u16 {
        match self {
            AuthRejection::StoreUnavailable => 500,
            _ => 401,
        }
    }

    /// Whether the request counts as unauthenticated, rather than failed.
    pub fn is_unauthenticated(&self) -> (r: bool)
        ensures
            r == !(*self is StoreUnavailable),
    {
        !matches!(self, AuthRejection::StoreUnavailable)
    }

    /// The HTTP status of the rejection: 401, or 500 when the store failed.
    pub fn status(&self) -> (r: u16)
        ensures
            r == self.spec_status(),
    {
        match self {
            AuthRejection::StoreUnavailable => 500,
            _ => 401,
        }
    }

    /// The reason reported with the rejection.
    pub fn reason(&self) -> (r: &'static str)
        ensures
            r@ == match *self {
                AuthRejection::MissingCookie => "No session cookie"@,
                AuthRejection::MalformedToken => "Invalid session token"@,
                AuthRejection::UnknownUser => "Invalid session"@,
                AuthRejection::StoreUnavailable => "Failed to load user"@,
            },
    {
        match self {
            AuthRejection::MissingCookie => "No session cookie",
            AuthRejection::MalformedToken => "Invalid session token",
            AuthRejection::UnknownUser => "Invalid session",
            AuthRejection::StoreUnavailable => "Failed to load user",
        }
    }
}

/// The user id that a session cookie refers to, read from the cookie's value
/// if there is a cookie.
pub open spec fn token_target(cookie: Option<Seq<char>>) -> Result<u128, AuthRejection> {
    match cookie {
        None => Err(AuthRejection::MissingCookie),
        Some(text) => match uuid_parse(text) {
            Some(id) => Ok(id),
            None => Err(AuthRejection::MalformedToken),
        },
    }
}

/// The first half of session resolution: the id of the user to look up, from
/// the session cookie's value. A token minted for a user names that user.
pub fn session_user_id(cookie: Option<&str>) -> (r: Result<u128, AuthRejection>)
    ensures
        r == token_target(
            match cookie {
                Some(c) => Some(c@),
                None => None,
            },
        ),
        forall|v: u128|
            (cookie matches Some(c) && c@ == uuid_text(v)) ==> r == Ok::<u128, AuthRejection>(v),
{
    match cookie {
        None => Err(AuthRejection::MissingCookie),
        Some(text) => match uuid_from_text(text) {
            Ok(id) => Ok(id),
            Err(_) => Err(AuthRejection::MalformedToken),
        },
    }
}

/// What the store answered when asked for the user with a given id.
pub enum UserLookup {
    Found(User),
    Missing,
    Failed,
}

/// The second half of session resolution: binds the looked-up user to the
/// request. A row whose id is not the one asked for is treated as missing.
pub fn resolve_user(user_id: u128, lookup: UserLookup) -> (r: Result<AuthSession, AuthRejection>)
    ensures
        match lookup {
            UserLookup::Found(u) => if u.id == user_id {
                r matches Ok(s) && s.0 == u
            } else {
                r == Err::<AuthSession, AuthRejection>(AuthRejection::UnknownUser)
            },
            UserLookup::Missing => r == Err::<AuthSession, AuthRejection>(
                AuthRejection::UnknownUser,
            ),
            UserLookup::Failed => r == Err::<AuthSession, AuthRejection>(
                AuthRejection::StoreUnavailable,
            ),
        },
{
    match lookup {
        UserLookup::Found(u) => if u.id == user_id {
            Ok(AuthSession(u))
        } else {
            Err(AuthRejection::UnknownUser)
        },
        UserLookup::Missing => Err(AuthRejection::UnknownUser),
        UserLookup::Failed => Err(AuthRejection::StoreUnavailable),
    }
}

/// A request without a session cookie, with a cookie that is no identifier, or
/// with one that names no stored user, is rejected as unauthenticated (401).
pub proof fn lemma_rejections_unauthenticated(text: Seq<char>)
    requires
        uuid_parse(text) is None,
    ensures
        token_target(None) == Err::<u128, AuthRejection>(AuthRejection::MissingCookie),
        token_target(Some(text)) == Err::<u128, AuthRejection>(AuthRejection::MalformedToken),
        AuthRejection::MissingCookie.spec_status() == 401,
        AuthRejection::MalformedToken.spec_status() == 401,
        AuthRejection::UnknownUser.spec_status() == 401,
{
}

} // verus!
