use crate::auth::clock::{in_clock_range, unix_now};
use crate::text::is_base64_url_char;
use vstd::prelude::*;

verus! {

/// How long an issued token stays valid: twenty-four hours, in seconds.
pub const TOKEN_LIFETIME_SECS: i64 = 86400;

/// The error of `jsonwebtoken`, `jsonwebtoken::errors::Error`. Nothing is read from it:
/// the library maps it to an error of its own.
#[verifier::external_type_specification]
#[verifier::external_body]
pub struct ExJwtError(jsonwebtoken::errors::Error);

/// What a token carries: the project it was issued for and the second at which it expires.
#[derive(Debug)]
pub struct Claims {
    pub project_id: String,
    pub exp: usize,
}

/// The claims, with the project taken by its view.
pub struct ClaimsView {
    pub project_id: Seq<char>,
    pub exp: usize,
}

impl View for Claims {
    type V = ClaimsView;

    open spec fn view(&self) -> ClaimsView {
        ClaimsView { project_id: self.project_id@, exp: self.exp }
    }
}

/// Why a token was not issued or not accepted.
#[derive(Debug, Clone, Copy, PartialEq, Eq, Structural)]
pub enum TokenError {
    /// The expiry time cannot be represented.
    ClockOverflow,
    /// The token is malformed, is signed by another key or another algorithm, or has expired.
    Rejected,
}

impl TokenError {
    /// What went wrong, in words.
    pub open spec fn text(self) -> Seq<char> {
        match self {
            TokenError::ClockOverflow => "Failed to compute expiration time"@,
            TokenError::Rejected => "Invalid token"@,
        }
    }

    /// The words for this error.
    pub fn message(&self) -> (message: &'static str)
        ensures
            message@ == self.text(),
    {
        match self {
            TokenError::ClockOverflow => "Failed to compute expiration time",
            TokenError::Rejected => "Invalid token",
        }
    }
}

/// The name of the claim that holds the project.
pub open spec fn subject_claim() -> Seq<char> {
    "project_id"@
}

/// The name of the claim that holds the expiry.
pub open spec fn expiry_claim() -> Seq<char> {
    "exp"@
}

/// A character that a token can hold: one of the URL-safe base64 alphabet, or the dot
/// between its parts.
pub open spec fn is_token_char(c: char) -> bool {
    is_base64_url_char(c) || c == '.'
}

/// The token that `jsonwebtoken::encode` makes, with its default HS256 header and under
/// the key `secret`, of the JSON object that holds the text `text` under `text_name` and
/// then the number `number` under `number_name`.
pub uninterp spec fn hs256_token(
    secret: Seq<char>,
    text_name: Seq<char>,
    text: Seq<char>,
    number_name: Seq<char>,
    number: usize,
) -> Seq<char>;

/// The text claim `text_name` and the number claim `number_name` that
/// `jsonwebtoken::decode` finds in `token` when it checks the HS256 signature under the
/// key `secret` and leaves the expiry alone; `None` where it reports an error or one of
/// the two claims is not there in that form.
pub uninterp spec fn hs256_claims(
    secret: Seq<char>,
    token: Seq<char>,
    text_name: Seq<char>,
    number_name: Seq<char>,
) -> Option<(Seq<char>, u64)>;

/// Whatever key lets `token` pass the decoder, the claims that it finds are `found`: they
/// are read from the token, and the key serves the check of the signature alone.
pub open spec fn reads_alike(
    token: Seq<char>,
    text_name: Seq<char>,
    number_name: Seq<char>,
    found: (Seq<char>, u64),
) -> bool {
    forall|key: Seq<char>|
        (#[trigger] hs256_claims(key, token, text_name, number_name)) is Some ==> hs256_claims(
            key,
            token,
            text_name,
            number_name,
        ) == Some(found)
}

/// Calls `jsonwebtoken::encode` with `Header::default()`, a `serde_json` object that holds
/// the two claims in the order given, and `EncodingKey::from_secret`.
/// - The call has no way to fail: the key and the header are both of the HMAC family, a
///   header and an object of a string and a number always serialise, and HS256 signing
///   returns `Ok`.
/// - The result is a function of the five arguments alone; it is named `hs256_token`.
/// - It is three base64 parts without padding, joined by dots.
/// - Under the claim names `project_id` and `exp`, `jsonwebtoken::decode` as
///   `decode_claims` calls it reads the two claims back: the header names HS256, the
///   signature is the one that it computes anew, `exp` is there as a number, no audience is
///   there to refuse, and JSON hands a string and an unsigned number back as they were.
///   Under another key it finds the same two claims or reports an error, since it reads
///   them from the token.
#[verifier::external_body]
fn encode_claims(
    secret: &str,
    text_name: &str,
    text: &str,
    number_name: &str,
    number: usize,
) -> (r: Result<String, jsonwebtoken::errors::Error>)
    ensures
        match r {
            Ok(token) => {
                &&& token@ == hs256_token(secret@, text_name@, text@, number_name@, number)
                &&& token@.len() > 0
                &&& forall|i: int| 0 <= i < token@.len() ==> is_token_char(#[trigger] token@[i])
                &&& text_name@ == subject_claim() && number_name@ == expiry_claim()
                    ==> hs256_claims(secret@, token@, text_name@, number_name@) == Some(
                    (text@, number as u64),
                ) && reads_alike(token@, text_name@, number_name@, (text@, number as u64))
            },
            Err(_) => false,
        },
{
    let mut claims = serde_json::Map::new();
    claims.insert(String::from(text_name), serde_json::Value::from(text));
    claims.insert(String::from(number_name), serde_json::Value::from(number));
    let key = jsonwebtoken::EncodingKey::from_secret(secret.as_bytes());
    jsonwebtoken::encode(&jsonwebtoken::Header::default(), &claims, &key)
}

/// Calls `jsonwebtoken::decode` with `DecodingKey::from_secret` and
/// `Validation::new(Algorithm::HS256)` whose `validate_exp` is switched off, so that the
/// call does not read the clock, and hands out the two claims asked for as plain values.
/// The result is a function of the four arguments alone; it is named `hs256_claims`. The
/// call takes the claims from the token and uses the key for the check of the signature
/// alone: under whatever key the token passes, the claims found are the same.
#[verifier::external_body]
fn decode_claims(secret: &str, token: &str, text_name: &str, number_name: &str) -> (r: Option<
    (String, u64),
>)
    ensures
        match r {
            Some(found) => hs256_claims(secret@, token@, text_name@, number_name@) == Some(
                (found.0@, found.1),
            ) && reads_alike(token@, text_name@, number_name@, (found.0@, found.1)),
            None => hs256_claims(secret@, token@, text_name@, number_name@) is None,
        },
{
    let mut validation = jsonwebtoken::Validation::new(jsonwebtoken::Algorithm::HS256);
    validation.validate_exp = false;
    let key = jsonwebtoken::DecodingKey::from_secret(secret.as_bytes());
    let data = jsonwebtoken::decode::<serde_json::Value>(token, &key, &validation).ok()?;
    let text = data.claims.get(text_name)?.as_str()?.to_string();
    let number = data.claims.get(number_name)?.as_u64()?;
    Some((text, number))
}

/// The token service of one tenant: it signs and checks with `secret`.
pub struct JwtAuth {
    pub secret: String,
}

/// The expiry of a token issued at `now`, where it can be represented.
pub open spec fn expiry_of(now: int) -> Option<usize> {
    let exp = now + TOKEN_LIFETIME_SECS;
    if 0 <= exp <= usize::MAX && exp <= i64::MAX {
        Some(exp as usize)
    } else {
        None
    }
}

/// What issuing a token for `project_id` at the second `now` under `secret` gives: the
/// token of the two claims, unless the expiry cannot be represented.
pub open spec fn issued(secret: Seq<char>, project_id: Seq<char>, now: int) -> Result<
    Seq<char>,
    TokenError,
> {
    match expiry_of(now) {
        None => Err(TokenError::ClockOverflow),
        Some(exp) => Ok(hs256_token(secret, subject_claim(), project_id, expiry_claim(), exp)),
    }
}

/// `token` is the token that was issued for `project_id` at the second `now` under
/// `secret`: it is the one that issuing gives, the decoder finds in it the project and the
/// expiry that were put into it, and it is not empty and made of token characters.
pub open spec fn is_issued(
    secret: Seq<char>,
    project_id: Seq<char>,
    now: int,
    token: Seq<char>,
) -> bool {
    &&& issued(secret, project_id, now) == Ok::<Seq<char>, TokenError>(token)
    &&& hs256_claims(secret, token, subject_claim(), expiry_claim()) == Some(
        (project_id, (now + TOKEN_LIFETIME_SECS) as u64),
    )
    &&& reads_alike(
        token,
        subject_claim(),
        expiry_claim(),
        (project_id, (now + TOKEN_LIFETIME_SECS) as u64),
    )
    &&& token.len() > 0
    &&& forall|i: int| 0 <= i < token.len() ==> is_token_char(#[trigger] token[i])
}

/// `r` is what issuing for `project_id` at the second `now` under `secret` has given.
pub open spec fn issuing(
    secret: Seq<char>,
    project_id: Seq<char>,
    now: int,
    r: Result<Seq<char>, TokenError>,
) -> bool {
    match r {
        Ok(token) => is_issued(secret, project_id, now, token),
        Err(e) => issued(secret, project_id, now) == Err::<Seq<char>, TokenError>(e),
    }
}

/// The claims under which `token` is accepted at the second `now` under `secret`: its
/// signature holds, it expires later than `now`, and the claims are those that the token
/// holds, whatever key it is read with.
pub open spec fn accepted(secret: Seq<char>, token: Seq<char>, now: int) -> Option<ClaimsView> {
    match hs256_claims(secret, token, subject_claim(), expiry_claim()) {
        Some((project_id, exp)) => if now < exp && exp <= usize::MAX && reads_alike(
            token,
            subject_claim(),
            expiry_claim(),
            (project_id, exp),
        ) {
            Some(ClaimsView { project_id, exp: exp as usize })
        } else {
            None
        },
        None => None,
    }
}

/// The result of issuing, with the token taken by its view.
pub open spec fn token_text(r: Result<String, TokenError>) -> Result<Seq<char>, TokenError> {
    match r {
        Ok(token) => Ok(token@),
        Err(e) => Err(e),
    }
}

/// The claims that a validation hands out, if it succeeds.
pub open spec fn claims_of(r: Result<Claims, TokenError>) -> Option<ClaimsView> {
    match r {
        Ok(claims) => Some(claims@),
        Err(_) => None,
    }
}

/// A token that is accepted at one instant is accepted, with the same claims, at every
/// instant before the expiry that it carries.
pub proof fn law_accepted_until_expiry(secret: Seq<char>, token: Seq<char>, now: int, then: int)
    requires
        accepted(secret, token, now) is Some,
        then < accepted(secret, token, now)->Some_0.exp,
    ensures
        accepted(secret, token, then) == accepted(secret, token, now),
{
}

/// A token is accepted at no instant at or after the expiry that it carries.
pub proof fn law_rejected_from_expiry(secret: Seq<char>, token: Seq<char>, now: int)
    requires
        hs256_claims(secret, token, subject_claim(), expiry_claim()) is Some,
        now >= hs256_claims(secret, token, subject_claim(), expiry_claim())->Some_0.1,
    ensures
        accepted(secret, token, now) is None,
{
}

/// A token that was issued at the instant `now` is accepted at every instant before
/// `now` plus the lifetime, with the project it was issued for and that expiry.
pub proof fn law_issued_token_is_accepted(
    secret: Seq<char>,
    project_id: Seq<char>,
    now: int,
    token: Seq<char>,
    then: int,
)
    requires
        is_issued(secret, project_id, now, token),
        then < now + TOKEN_LIFETIME_SECS,
    ensures
        accepted(secret, token, then) == Some(
            ClaimsView { project_id, exp: (now + TOKEN_LIFETIME_SECS) as usize },
        ),
{
}

/// A token that was issued at the instant `now` is accepted at no instant from `now`
/// plus the lifetime on.
pub proof fn law_issued_token_expires(
    secret: Seq<char>,
    project_id: Seq<char>,
    now: int,
    token: Seq<char>,
    then: int,
)
    requires
        is_issued(secret, project_id, now, token),
        then >= now + TOKEN_LIFETIME_SECS,
    ensures
        accepted(secret, token, then) is None,
{
}

/// At an instant that the clock can show, on a machine whose `usize` has 64 bits, a token
/// is issued.
pub proof fn law_issuing_succeeds(secret: Seq<char>, project_id: Seq<char>, now: int)
    requires
        in_clock_range(now),
        usize::MAX >= i64::MAX,
    ensures
        issued(secret, project_id, now) is Ok,
{
}

impl JwtAuth {
    /// The token service that signs and checks with `secret`.
    pub fn new(secret: String) -> (auth: Self)
        ensures
            auth.secret == secret,
    {
        Self { secret }
    }

    /// Issues a token for `project_id` as of the second `now`. It fails only where `now`
    /// plus the lifetime cannot be represented.
    pub fn generate_token_at(&self, project_id: &str, now: i64) -> (r: Result<String, TokenError>)
        ensures
            token_text(r) == issued(self.secret@, project_id@, now as int),
            issuing(self.secret@, project_id@, now as int, token_text(r)),
    {
        let exp: usize = match now.checked_add(TOKEN_LIFETIME_SECS) {
            None => { return Err(TokenError::ClockOverflow); },
            Some(at) => {
                if at < 0 || at as u64 > usize::MAX as u64 {
                    return Err(TokenError::ClockOverflow);
                }
                at as usize
            },
        };
        match encode_claims(self.secret.as_str(), "project_id", project_id, "exp", exp) {
            Ok(token) => Ok(token),
            Err(_) => vstd::pervasive::unreached(),
        }
    }

    /// Issues a token for `project_id` that expires twenty-four hours from now.
    pub fn generate_token(&self, project_id: &str) -> (r: Result<String, TokenError>)
        ensures
            exists|now: i64|
                in_clock_range(now as int) && #[trigger] issuing(
                    self.secret@,
                    project_id@,
                    now as int,
                    token_text(r),
                ),
    {
        let now: i64 = unix_now();
        self.generate_token_at(project_id, now)
    }

    /// Checks `token` as of the second `now`.
    pub fn validate_token_at(&self, token: &str, now: i64) -> (r: Result<Claims, TokenError>)
        ensures
            claims_of(r) == accepted(self.secret@, token@, now as int),
            r is Err ==> r == Err::<Claims, TokenError>(TokenError::Rejected),
    {
        match decode_claims(self.secret.as_str(), token, "project_id", "exp") {
            None => Err(TokenError::Rejected),
            Some(found) => {
                let (project_id, exp) = found;
                if exp > usize::MAX as u64 {
                    return Err(TokenError::Rejected);
                }
                if now >= 0 && now as u64 >= exp {
                    return Err(TokenError::Rejected);
                }
                Ok(Claims { project_id, exp: exp as usize })
            },
        }
    }

    /// Checks `token` against the clock.
    pub fn validate_token(&self, token: &str) -> (r: Result<Claims, TokenError>)
        ensures
            exists|now: i64|
                in_clock_range(now as int) && claims_of(r) == #[trigger] accepted(
                    self.secret@,
                    token@,
                    now as int,
                ),
            r is Err ==> r == Err::<Claims, TokenError>(TokenError::Rejected),
    {
        let now: i64 = unix_now();
        self.validate_token_at(token, now)
    }
}

} // verus!
