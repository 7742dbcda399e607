//! The token manager: one bearer credential gates every sensitive call.
//! Rotation replaces the current token and keeps the previous one valid for
//! a fixed grace window, so in-flight clients are not abruptly locked out.

use vstd::prelude::*;

use crate::text::is_alnum;

verus! {

/// Seconds between rotations.
pub const TOKEN_ROTATION_INTERVAL_SECS: u64 = 600;

/// Seconds the rotated-out token stays valid.
pub const TOKEN_GRACE_PERIOD_SECS: u64 = 60;

/// The process-lifetime credential state.  Exactly one current token is
/// valid at any instant; the previous one only within the grace window
/// after the last rotation.
#[derive(Debug)]
pub struct TokenState {
    pub current_token: String,
    pub previous_token: Option<String>,
    pub last_rotation: u64,
}

/// The response of the token endpoint.
#[derive(Debug)]
pub struct TokenResponse {
    pub token: String,
    /// Seconds until the next rotation, never negative, never more than
    /// the full rotation interval.
    pub expires_in: u64,
}

/// Whether a presented token is accepted at instant `now`: it is the
/// current token, or the previous one within the grace window.
pub open spec fn token_valid(st: TokenState, token: Seq<char>, now: int) -> bool {
    token == st.current_token@ || (st.previous_token is Some && token
        == st.previous_token.unwrap()@ && now - st.last_rotation
        < TOKEN_GRACE_PERIOD_SECS as int)
}

/// The `Bearer ` scheme prefix of an authorization header value.
pub open spec fn has_bearer_prefix(h: Seq<char>) -> bool {
    h.len() >= 7 && h.subrange(0, 7) == "Bearer "@
}

/// The token carried after the scheme prefix.
pub open spec fn bearer_token(h: Seq<char>) -> Seq<char> {
    h.skip(7)
}

/// What token validation says of a raw authorization header value: absent
/// or ill-formed headers never validate.
pub open spec fn header_valid(st: TokenState, authorization: Option<&str>, now: int) -> bool {
    match authorization {
        Some(h) => has_bearer_prefix(h@) && token_valid(st, bearer_token(h@), now),
        None => false,
    }
}

impl TokenState {
    /// The state at startup: a first token, nothing rotated out yet.
    pub fn new(initial: String, now: u64) -> (st: Self)
        ensures
            st.current_token == initial,
            st.previous_token is None,
            st.last_rotation == now,
    {
        TokenState { current_token: initial, previous_token: None, last_rotation: now }
    }

    /// The state after one rotation at instant `now`.
    pub open spec fn rotated(self, fresh: String, now: u64) -> TokenState {
        TokenState {
            current_token: fresh,
            previous_token: Some(self.current_token),
            last_rotation: now,
        }
    }

    /// Rotates: the current token becomes the previous one, the fresh token
    /// becomes current, and the rotation instant is recorded.
    pub fn rotate(&mut self, fresh: String, now: u64)
        ensures
            *final(self) == old(self).rotated(fresh, now),
    {
        let outgoing = self.current_token.clone();
        self.previous_token = Some(outgoing);
        self.current_token = fresh;
        self.last_rotation = now;
    }

    /// Validates a raw authorization header value at instant `now`.
    pub fn validate_token(&self, authorization: Option<&str>, now: u64) -> (r: bool)
        requires
            now >= self.last_rotation,
        ensures
            r == header_valid(*self, authorization, now as int),
    {
        match authorization {
            None => false,
            Some(h) => {
                let n = h.unicode_len();
                if n < 7 {
                    return false;
                }
                proof {
                    reveal_strlit("Bearer ");
                }
                if !(h.get_char(0) == 'B' && h.get_char(1) == 'e' && h.get_char(2) == 'a'
                    && h.get_char(3) == 'r' && h.get_char(4) == 'e' && h.get_char(5) == 'r'
                    && h.get_char(6) == ' ') {
                    proof {
                        assert(h@.subrange(0, 7) != "Bearer "@) by {
                            if h@.subrange(0, 7) == "Bearer "@ {
                                assert(h@[0] == h@.subrange(0, 7)[0]);
                                assert(h@[1] == h@.subrange(0, 7)[1]);
                                assert(h@[2] == h@.subrange(0, 7)[2]);
                                assert(h@[3] == h@.subrange(0, 7)[3]);
                                assert(h@[4] == h@.subrange(0, 7)[4]);
                                assert(h@[5] == h@.subrange(0, 7)[5]);
                                assert(h@[6] == h@.subrange(0, 7)[6]);
                            }
                        }
                    }
                    return false;
                }
                proof {
                    assert(h@.subrange(0, 7) =~= "Bearer "@);
                }
                let token = String::from_str(h.substring_char(7, n));
                if token == self.current_token {
                    return true;
                }
                match &self.previous_token {
                    Some(prev) => {
                        token == *prev && now - self.last_rotation < TOKEN_GRACE_PERIOD_SECS
                    },
                    None => false,
                }
            },
        }
    }

    /// Returns the current token and the seconds left until the next
    /// rotation, floored at zero.
    pub fn get_token(&self, now: u64) -> (r: TokenResponse)
        requires
            now >= self.last_rotation,
        ensures
            r.token@ == self.current_token@,
            r.expires_in as int == (if now - self.last_rotation
                >= TOKEN_ROTATION_INTERVAL_SECS as int {
                0int
            } else {
                TOKEN_ROTATION_INTERVAL_SECS as int - (now - self.last_rotation)
            }),
            r.expires_in <= TOKEN_ROTATION_INTERVAL_SECS,
    {
        let elapsed = now - self.last_rotation;
        let expires_in = if elapsed >= TOKEN_ROTATION_INTERVAL_SECS {
            0
        } else {
            TOKEN_ROTATION_INTERVAL_SECS - elapsed
        };
        TokenResponse { token: self.current_token.clone(), expires_in }
    }
}

/// Relies on rand's `Alphanumeric` distribution with `SampleString`: a
/// sample of length 32 is a string of exactly 32 characters drawn from
/// `a-z`, `A-Z`, `0-9`.
#[verifier::external_body]
pub fn generate_token() -> (r: String)
    ensures
        r@.len() == 32,
        forall|i: int| 0 <= i < r@.len() ==> is_alnum(#[trigger] r@[i]),
{
    rand::distr::SampleString::sample_string(&rand::distr::Alphanumeric, &mut rand::rng(), 32)
}

/// Law: immediately after a rotation, both the fresh token and the
/// just-rotated-out one validate; once the grace window has fully passed,
/// the old token no longer validates while the fresh one still does.  The
/// fresh token is assumed distinct from the outgoing one, as two random
/// 32-character tokens are.
pub proof fn lemma_rotation_grace(st: TokenState, fresh: String, now: u64, later: int)
    requires
        fresh@ != st.current_token@,
        later >= now + TOKEN_GRACE_PERIOD_SECS,
    ensures
        token_valid(st.rotated(fresh, now), fresh@, now as int),
        token_valid(st.rotated(fresh, now), st.current_token@, now as int),
        token_valid(st.rotated(fresh, now), fresh@, later),
        !token_valid(st.rotated(fresh, now), st.current_token@, later),
{
}

} // verus!
