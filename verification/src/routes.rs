//! Decisions of the HTTP interface: ids, ownership, secrets, permissions and answers.
use vstd::prelude::*;
use crate::text::same_text;
use crate::encoding::{push_char, push_str};
use crate::numbers::{parse_i32, parse_i32_spec};
use crate::models::Overlay;
use crate::sql::{JsonError, SqlReason};
use crate::messages::CloseOverlay;

verus! {

/// An error answered with an HTTP status code and a text.
pub struct HttpError {
    pub status: u16,
    pub message: String,
}

/// HTTP 400.
pub const STATUS_BAD_REQUEST: u16 = 400;
/// HTTP 401.
pub const STATUS_UNAUTHORIZED: u16 = 401;
/// HTTP 403.
pub const STATUS_FORBIDDEN: u16 = 403;
/// HTTP 409.
pub const STATUS_CONFLICT: u16 = 409;

/// Whether `r` is the error with this status and text.
pub open spec fn is_error<T>(r: Result<T, HttpError>, status: u16, message: Seq<char>) -> bool {
    r matches Err(e) && e.status == status && e.message@ == message
}

fn http_error(status: u16, message: &str) -> (r: HttpError)
    ensures
        r.status == status,
        r.message@ == message@,
{
    HttpError { status, message: message.to_owned() }
}

/// Reads an overlay id from a request path; anything but a decimal `i32` is a bad request.
pub fn parse_overlay_id(id: &str) -> (r: Result<i32, HttpError>)
    ensures
        parse_i32_spec(id@) matches Some(v) ==> r == Ok::<i32, HttpError>(v),
        parse_i32_spec(id@) is None ==> is_error(r, STATUS_BAD_REQUEST, "bad id"@),
{
    match parse_i32(id) {
        Some(v) => Ok(v),
        None => Err(http_error(STATUS_BAD_REQUEST, "bad id")),
    }
}

/// Only the creator of an overlay may change or delete it.
pub fn ensure_creator(overlay: &Overlay, user_id: &str) -> (r: Result<(), HttpError>)
    ensures
        r is Ok <==> overlay.created_by@ == user_id@,
        r is Err ==> is_error(r, STATUS_FORBIDDEN, "arnoldHalt you are not the creator!"@),
{
    if same_text(overlay.created_by.as_str(), user_id) {
        Ok(())
    } else {
        Err(http_error(STATUS_FORBIDDEN, "arnoldHalt you are not the creator!"))
    }
}

/// An overlay socket may only open with the overlay's current secret.
pub fn ensure_secret(overlay: &Overlay, secret: &str) -> (r: Result<(), HttpError>)
    ensures
        r is Ok <==> overlay.secret@ == secret@,
        r is Err ==> is_error(r, STATUS_UNAUTHORIZED, "No, I don't think so"@),
{
    if same_text(overlay.secret.as_str(), secret) {
        Ok(())
    } else {
        Err(http_error(STATUS_UNAUTHORIZED, "No, I don't think so"))
    }
}

/// Gives `overlay` a new secret. Every socket open on it was opened with the old secret, so
/// the answer names the overlay whose sockets must close, which makes the old link unusable.
pub fn reset_secret(overlay: &mut Overlay, secret: String) -> (r: CloseOverlay)
    ensures
        final(overlay).secret == secret,
        final(overlay).id == old(overlay).id,
        final(overlay).created_by == old(overlay).created_by,
        final(overlay).for_user == old(overlay).for_user,
        final(overlay).last_image == old(overlay).last_image,
        r.0 == old(overlay).id,
{
    overlay.secret = secret;
    CloseOverlay(overlay.id)
}

/// Whether creating an overlay for `for_user` needs the moderator list: only when the user
/// creates it for another channel than their own.
pub fn needs_mod_check(user_login: &str, for_user: &str) -> (r: bool)
    ensures
        r == (user_login@ != for_user@),
{
    !same_text(user_login, for_user)
}

/// A user may create an overlay for their own channel, or for a channel they moderate.
pub fn authorize_creation(user_login: &str, for_user: &str, is_mod: bool) -> (r: Result<(), HttpError>)
    ensures
        r is Ok <==> (user_login@ == for_user@ || is_mod),
        r is Err ==> is_error(r, STATUS_FORBIDDEN, "You aren't a moderator."@),
{
    if !same_text(user_login, for_user) && !is_mod {
        Err(http_error(STATUS_FORBIDDEN, "You aren't a moderator."))
    } else {
        Ok(())
    }
}

/// What to do after creating an overlay failed.
pub enum CreateFailure {
    /// The channel already has an overlay by this user: look up who manages the channel.
    AskCreator,
    /// Answer with this error.
    Reject(HttpError),
}

/// The name of the constraint that allows one overlay per user and channel.
pub open spec fn unique_overlay_constraint() -> Seq<char> {
    "overlays_created_by_for_user_uindex"@
}

/// Decides on a failed overlay creation: a violation of the one-overlay-per-user-and-channel
/// constraint leads to a lookup of the channel's manager; anything else is a bad request.
pub fn on_create_error(err: &JsonError<SqlReason>) -> (r: CreateFailure)
    ensures
        (err.error matches SqlReason::Duplicate(c) && c@ == unique_overlay_constraint()) ==> r is AskCreator,
        !(err.error matches SqlReason::Duplicate(c) && c@ == unique_overlay_constraint()) ==> (r matches CreateFailure::Reject(e) && e.status == STATUS_BAD_REQUEST && e.message@ == "This channel already exists"@),
{
    match &err.error {
        SqlReason::Duplicate(c) => {
            if same_text(c.as_str(), "overlays_created_by_for_user_uindex") {
                return CreateFailure::AskCreator;
            }
        },
        _ => {},
    }
    CreateFailure::Reject(http_error(STATUS_BAD_REQUEST, "This channel already exists"))
}

/// The conflict answered when the channel already has an overlay: naming the user who manages
/// it where known.
pub fn conflict_error(creator: Option<&str>) -> (r: HttpError)
    ensures
        r.status == STATUS_CONFLICT,
        creator matches Some(c) ==> r.message@ == "This channel already exists. It's managed by "@ + c@,
        creator is None ==> r.message@ == "This channel already exists but there's no further info."@,
{
    match creator {
        Some(c) => {
            let mut m = "This channel already exists. It's managed by ".to_owned();
            push_str(&mut m, c);
            HttpError { status: STATUS_CONFLICT, message: m }
        },
        None => http_error(STATUS_CONFLICT, "This channel already exists but there's no further info."),
    }
}

/// Reads the answer of the Twitch login: with both a code and a scope the login goes on;
/// otherwise the user is sent to the failure page with the error's description, or else the
/// error.
pub fn callback_params(
    code: Option<String>,
    scope: Option<String>,
    error: Option<String>,
    error_description: Option<String>,
) -> (r: Result<(String, String), Option<String>>)
    ensures
        (code is Some && scope is Some) ==> (r matches Ok((c, s)) && c@ == code->0@ && s@ == scope->0@),
        !(code is Some && scope is Some) ==> r == Err::<(String, String), Option<String>>(
            if error_description is Some { error_description } else { error },
        ),
{
    match (code, scope) {
        (Some(c), Some(s)) => Ok((c, s)),
        _ => Err(
            match error_description {
                Some(d) => Some(d),
                None => error,
            },
        ),
    }
}

/// The address Twitch sends the user back to after the login.
pub fn callback_url(server_url: &str) -> (r: String)
    ensures
        r@ == server_url@ + "/api/v1/auth/twitch-callback"@,
{
    let mut r = server_url.to_owned();
    push_str(&mut r, "/api/v1/auth/twitch-callback");
    r
}

/// The lower-case form of `s`, as `str::to_lowercase` computes it.
pub uninterp spec fn lowercase(s: Seq<char>) -> Seq<char>;

/// Lower-cases `s` with `str::to_lowercase`.
///
/// Trusted: the result is `lowercase(s)`; `lowercase` names what `str::to_lowercase` computes
/// (the Unicode lower-case mapping), which nothing here states further.
#[verifier::external_body]
fn to_lowercase(s: &str) -> (r: String)
    ensures
        r@ == lowercase(s@),
{
    s.to_lowercase()
}

/// The channel an overlay is created for, as stored: the requested login in lower case.
pub fn normalize_channel(for_user: &str) -> (r: String)
    ensures
        r@ == lowercase(for_user@),
{
    to_lowercase(for_user)
}

/// Whether `c` is an ASCII letter or digit.
pub open spec fn is_alphanumeric(c: char) -> bool {
    ||| 'a' <= c && c <= 'z'
    ||| 'A' <= c && c <= 'Z'
    ||| '0' <= c && c <= '9'
}

/// A random ASCII letter or digit from `rand`'s `Alphanumeric` distribution.
///
/// Trusted: sampling `rand::distributions::Alphanumeric` with the thread's generator returns one
/// of the 62 bytes `A-Z`, `a-z`, `0-9`; the contract states only that, not which one.
#[verifier::external_body]
fn random_alphanumeric() -> (c: char)
    ensures
        is_alphanumeric(c),
{
    char::from(rand::Rng::sample(&mut rand::thread_rng(), rand::distributions::Alphanumeric))
}

/// Length of an overlay secret.
pub const SECRET_LEN: usize = 30;

/// The secret made of the drawn characters `draws`, in order.
pub fn secret_from(draws: &Vec<char>) -> (r: String)
    ensures
        r@ == draws@,
{
    let mut r = String::new();
    let n = draws.len();
    let mut k: usize = 0;
    while k < n
        invariant
            n == draws@.len(),
            k <= n,
            r@ == draws@.take(k as int),
        decreases n - k,
    {
        push_char(&mut r, draws[k]);
        k = k + 1;
        assert(r@ =~= draws@.take(k as int));
    }
    assert(draws@.take(n as int) =~= draws@);
    r
}

/// A new random overlay secret: 30 ASCII letters and digits, each drawn from `rand`'s
/// `Alphanumeric` distribution.
pub fn generate_secret() -> (r: String)
    ensures
        r@.len() == SECRET_LEN,
        forall|i: int| 0 <= i < r@.len() ==> is_alphanumeric(#[trigger] r@[i]),
{
    let mut draws: Vec<char> = Vec::new();
    let mut k: usize = 0;
    while k < SECRET_LEN
        invariant
            k <= SECRET_LEN,
            draws@.len() == k,
            forall|i: int| 0 <= i < draws@.len() ==> is_alphanumeric(#[trigger] draws@[i]),
        decreases SECRET_LEN - k,
    {
        let c = random_alphanumeric();
        draws.push(c);
        k = k + 1;
    }
    secret_from(&draws)
}

} // verus!
