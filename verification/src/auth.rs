use vstd::prelude::*;
use crate::error::ErrorKind;
use crate::models::{snapshot, ClaimsUser, TokenClaims, User};

verus! {

/// The instant at which a token made at `now` stops being accepted. Where
/// the sum does not fit, it is the last instant that does.
pub open spec fn expiry(now: usize, lifetime: usize) -> usize {
    if now + lifetime > usize::MAX {
        usize::MAX
    } else {
        (now + lifetime) as usize
    }
}

/// The claims that are signed for a user at `now`.
pub open spec fn issued(user: User, now: usize, lifetime: usize) -> TokenClaims {
    TokenClaims { exp: expiry(now, lifetime), user: snapshot(user) }
}

/// What the verifier makes of an access token: `decoded` is `None` where the
/// token is malformed, unsigned or tampered with, and holds its claims
/// otherwise.
pub open spec fn verification(decoded: Option<TokenClaims>, now: usize) -> Result<
    ClaimsUser,
    ErrorKind,
> {
    match decoded {
        None => Err(ErrorKind::TokenInvalid),
        Some(claims) => if now > claims.exp {
            Err(ErrorKind::TokenExpired)
        } else {
            Ok(claims.user)
        },
    }
}

/// What a renewal gives: the expiry of the old token plays no part, and the
/// new claims are taken from the stored user.
pub open spec fn renewal(
    decoded: Option<TokenClaims>,
    refresh_token: Seq<char>,
    stored: User,
    now: usize,
    lifetime: usize,
) -> Result<TokenClaims, ErrorKind> {
    if decoded is None {
        Err(ErrorKind::TokenInvalid)
    } else if refresh_token != stored.refresh_token@ {
        Err(ErrorKind::RefreshMismatch)
    } else {
        Ok(issued(stored, now, lifetime))
    }
}

/// The stored user after a login: the new refresh token takes the place of
/// the old one, and nothing else changes.
pub open spec fn after_login(user: User, refresh_token: String) -> User {
    User {
        id: user.id,
        username: user.username,
        pass: user.pass,
        created_on: user.created_on,
        study_lang: user.study_lang,
        display_lang: user.display_lang,
        refresh_token: refresh_token,
    }
}

/// What a login gives. An unknown user and a wrong password give the same
/// error.
pub open spec fn login_outcome(
    user: Option<User>,
    password_matches: bool,
    refresh_token: String,
    now: usize,
    lifetime: usize,
) -> Result<(TokenClaims, User), ErrorKind> {
    match user {
        Some(user) if password_matches => Ok(
            (issued(user, now, lifetime), after_login(user, refresh_token)),
        ),
        _ => Err(ErrorKind::InvalidCredentials),
    }
}

/// Makes the claims of a new access token for a user.
pub fn issue_claims(user: &User, now: usize, lifetime: usize) -> (claims: TokenClaims)
    ensures
        claims == issued(*user, now, lifetime),
{
    let exp: usize = if lifetime > usize::MAX - now {
        usize::MAX
    } else {
        now + lifetime
    };
    TokenClaims { exp, user: ClaimsUser::from_user(user) }
}

/// Decides on an access token from what decoding it gave and the present
/// instant. Nothing is read from the store: the identity returned is the one
/// that the token carries.
pub fn verify_claims(decoded: Option<TokenClaims>, now: usize) -> (outcome: Result<
    ClaimsUser,
    ErrorKind,
>)
    ensures
        outcome == verification(decoded, now),
{
    match decoded {
        None => Err(ErrorKind::TokenInvalid),
        Some(claims) => {
            if now > claims.exp {
                Err(ErrorKind::TokenExpired)
            } else {
                Ok(claims.user)
            }
        },
    }
}

/// Decides on a renewal. The access token must decode, expired or not; the
/// refresh token must be the one stored for the user. The new claims hold
/// the stored user as it is now and a fresh expiry. The refresh token itself
/// stays as it is.
pub fn refresh_claims(
    decoded: Option<TokenClaims>,
    refresh_token: &String,
    stored: &User,
    now: usize,
    lifetime: usize,
) -> (outcome: Result<TokenClaims, ErrorKind>)
    ensures
        outcome == renewal(decoded, refresh_token@, *stored, now, lifetime),
{
    if decoded.is_none() {
        return Err(ErrorKind::TokenInvalid);
    }
    if *refresh_token == stored.refresh_token {
        Ok(issue_claims(stored, now, lifetime))
    } else {
        Err(ErrorKind::RefreshMismatch)
    }
}

/// Decides on a login from what the store and the password check gave.
/// `user` is the stored user of that name, if there is one;
/// `password_matches` is the verdict on the password; `refresh_token` is a
/// new random token. On success the claims to sign are returned together
/// with the user to store, whose only valid refresh token is the new one.
pub fn authorize_login(
    user: Option<User>,
    password_matches: bool,
    refresh_token: String,
    now: usize,
    lifetime: usize,
) -> (outcome: Result<(TokenClaims, User), ErrorKind>)
    ensures
        outcome == login_outcome(user, password_matches, refresh_token, now, lifetime),
{
    match user {
        Some(user) => {
            if password_matches {
                let claims = issue_claims(&user, now, lifetime);
                let stored = User {
                    id: user.id,
                    username: user.username,
                    pass: user.pass,
                    created_on: user.created_on,
                    study_lang: user.study_lang,
                    display_lang: user.display_lang,
                    refresh_token,
                };
                Ok((claims, stored))
            } else {
                Err(ErrorKind::InvalidCredentials)
            }
        },
        None => Err(ErrorKind::InvalidCredentials),
    }
}

/// Claims issued for a user are accepted up to their expiry, and give back
/// the snapshot taken when they were issued; after the expiry they are
/// refused as expired.
pub proof fn lemma_issued_claims_verify(user: User, issued_at: usize, lifetime: usize, now: usize)
    ensures
        now <= expiry(issued_at, lifetime) ==> verification(
            Some(issued(user, issued_at, lifetime)),
            now,
        ) == Ok::<ClaimsUser, ErrorKind>(snapshot(user)),
        now > expiry(issued_at, lifetime) ==> verification(
            Some(issued(user, issued_at, lifetime)),
            now,
        ) == Err::<ClaimsUser, ErrorKind>(ErrorKind::TokenExpired),
{
}

/// A renewal with the stored refresh token succeeds whatever the old claims
/// hold and however long they have been expired, and the new claims verify
/// to the snapshot of the stored user, not to that of the old claims.
pub proof fn lemma_renewal_follows_store(
    stale: TokenClaims,
    stored: User,
    now: usize,
    lifetime: usize,
)
    ensures
        renewal(Some(stale), stored.refresh_token@, stored, now, lifetime) == Ok::<
            TokenClaims,
            ErrorKind,
        >(issued(stored, now, lifetime)),
        verification(Some(issued(stored, now, lifetime)), now) == Ok::<ClaimsUser, ErrorKind>(
            snapshot(stored),
        ),
{
}

/// Once a login has stored a new refresh token, a renewal with any other
/// refresh token, the earlier one included, is refused as a mismatch.
pub proof fn lemma_login_retires_refresh_token(
    user: User,
    fresh: String,
    presented: Seq<char>,
    claims: TokenClaims,
    now: usize,
    lifetime: usize,
)
    requires
        presented != fresh@,
    ensures
        renewal(Some(claims), presented, after_login(user, fresh), now, lifetime) == Err::<
            TokenClaims,
            ErrorKind,
        >(ErrorKind::RefreshMismatch),
        renewal(Some(claims), fresh@, after_login(user, fresh), now, lifetime) is Ok,
{
}

} // verus!
