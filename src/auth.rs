use vstd::prelude::*;

use crate::codes::{starts_with, has_prefix};

verus! {

/// The claims of an issued token: the user's id and the expiry, in seconds
/// since the Unix epoch.
#[derive(Debug)]
pub struct Claims {
    pub sub: i32,
    pub exp: usize,
}

/// How long an issued token stays valid, in seconds.
pub const TOKEN_LIFETIME: usize = 86400;

/// Relies on SystemTime::elapsed on UNIX_EPOCH: the whole seconds since the
/// epoch, or `None` when the clock reads earlier.
#[verifier::external_body]
fn seconds_since_epoch() -> Option<usize> {
    std::time::UNIX_EPOCH.elapsed().ok().map(|d| d.as_secs() as usize)
}

impl Claims {
    /// Claims for `user_id` issued at `now`, expiring a day later (at the
    /// largest time that can be held, if that is earlier).
    pub fn issued_at(user_id: i32, now: usize) -> (r: Claims)
        ensures
            r.sub == user_id,
            r.exp == if now + TOKEN_LIFETIME <= usize::MAX {
                (now + TOKEN_LIFETIME) as usize
            } else {
                usize::MAX
            },
    {
        let exp = if now <= usize::MAX - TOKEN_LIFETIME {
            now + TOKEN_LIFETIME
        } else {
            usize::MAX
        };
        Claims { sub: user_id, exp }
    }

    /// Claims for `user_id` that expire a day from now.
    pub fn new(user_id: i32) -> (r: Claims)
        ensures
            r.sub == user_id,
            r.exp >= TOKEN_LIFETIME,
    {
        let now = match seconds_since_epoch() {
            Some(s) => s,
            None => 0,
        };
        Self::issued_at(user_id, now)
    }
}

/// The token of an `Authorization` header value of the form `Bearer <token>`.
pub fn bearer_token(header: &str) -> (r: Option<String>)
    ensures
        starts_with(header@, "Bearer "@) <==> r is Some,
        r matches Some(t) ==> t@ == header@.subrange(7, header@.len() as int),
{
    proof {
        reveal_strlit("Bearer ");
    }
    if has_prefix(header, "Bearer ") {
        let n = header.unicode_len();
        let rest = header.substring_char(7, n);
        Some(rest.to_string())
    } else {
        None
    }
}

} // verus!
