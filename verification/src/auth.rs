//! Bearer-token authentication of bridge clients.

use vstd::prelude::*;
use vstd::string::*;

use crate::config::Settings;
use crate::error::AppError;
use crate::text::chars_of;

verus! {

/// Proof that a request carried `Authorization: Bearer <BRIDGE_TOKEN>`.
#[derive(Debug)]
pub struct BearerAuth;

/// Message for a request without an `Authorization` header.
pub open spec fn missing_header_message() -> Seq<char> {
    "缺少 Authorization header"@
}

/// Message for an `Authorization` header that is not `Bearer <token>`.
pub open spec fn bad_format_message() -> Seq<char> {
    "Authorization header 格式应为: Bearer <token>"@
}

/// Message for a bearer token that does not match the bridge token.
pub open spec fn wrong_token_message() -> Seq<char> {
    "Token 无效"@
}

/// `s` starts with the scheme `Bearer ` in any letter case.
pub open spec fn has_bearer_scheme(s: Seq<char>) -> bool {
    &&& s.len() >= 7
    &&& forall|i: int| 0 <= i < 7 ==> #[trigger] s[i] == "bearer "@[i] || s[i] == "BEARER "@[i]
}

/// The token that follows the `Bearer ` scheme, if the header has that scheme.
pub open spec fn bearer_token(s: Seq<char>) -> Option<Seq<char>> {
    if has_bearer_scheme(s) {
        Some(s.skip(7))
    } else {
        None
    }
}

/// What authenticating a request with `Authorization` value `header` against `bridge_token`
/// yields: `Ok(())`, or the message of the 401 answer.
pub open spec fn auth_outcome(header: Option<Seq<char>>, bridge_token: Seq<char>) -> Result<
    (),
    Seq<char>,
> {
    match header {
        None => Err(missing_header_message()),
        Some(h) => match bearer_token(h) {
            None => Err(bad_format_message()),
            Some(t) => if t.len() == 0 {
                Err(bad_format_message())
            } else if t != bridge_token {
                Err(wrong_token_message())
            } else {
                Ok(())
            },
        },
    }
}

/// Byte-slice comparison whose running time depends only on the lengths.
/// Returns true iff `a` and `b` have the same length and the same bytes.
pub fn constant_time_eq(a: &[u8], b: &[u8]) -> (r: bool)
    ensures
        r == (a@ == b@),
{
    if a.len() != b.len() {
        return false;
    }
    let n = a.len();
    let mut result: u8 = 0;
    let mut i: usize = 0;
    assert(a@.subrange(0, 0) =~= b@.subrange(0, 0));
    while i < n
        invariant
            n == a@.len(),
            n == b@.len(),
            i <= n,
            (result == 0) == (a@.subrange(0, i as int) == b@.subrange(0, i as int)),
        decreases n - i,
    {
        let x = a[i];
        let y = b[i];
        let old_result = result;
        result = result | (x ^ y);
        assert((old_result | (x ^ y)) == 0 <==> (old_result == 0 && x == y)) by (bit_vector);
        assert(a@.subrange(0, i + 1) =~= a@.subrange(0, i as int).push(x));
        assert(b@.subrange(0, i + 1) =~= b@.subrange(0, i as int).push(y));
        proof {
            if a@.subrange(0, i + 1) == b@.subrange(0, i + 1) {
                assert(a@.subrange(0, i + 1)[i as int] == b@.subrange(0, i + 1)[i as int]);
                assert(a@.subrange(0, i as int) =~= a@.subrange(0, i + 1).drop_last());
                assert(b@.subrange(0, i as int) =~= b@.subrange(0, i + 1).drop_last());
            }
        }
        i += 1;
    }
    assert(a@.subrange(0, n as int) == a@);
    assert(b@.subrange(0, n as int) == b@);
    result == 0
}

/// Whether `s` starts with `Bearer ` in any letter case.
fn starts_with_bearer(s: &Vec<char>) -> (r: bool)
    ensures
        r == has_bearer_scheme(s@),
{
    if s.len() < 7 {
        return false;
    }
    let lower = chars_of("bearer ");
    let upper = chars_of("BEARER ");
    proof {
        reveal_strlit("bearer ");
        reveal_strlit("BEARER ");
    }
    let mut i: usize = 0;
    while i < 7
        invariant
            s@.len() >= 7,
            lower@ == "bearer "@,
            upper@ == "BEARER "@,
            lower@.len() == 7,
            upper@.len() == 7,
            i <= 7,
            forall|k: int| 0 <= k < i ==> #[trigger] s@[k] == "bearer "@[k] || s@[k] == "BEARER "@[k],
        decreases 7 - i,
    {
        if s[i] != lower[i] && s[i] != upper[i] {
            return false;
        }
        i += 1;
    }
    true
}

impl BearerAuth {
    /// Authenticates a request from the value of its `Authorization` header
    /// (`None` if absent or not visible ASCII): the header must read `Bearer <token>`
    /// (scheme in any letter case) with a non-empty token equal to the bridge token.
    pub fn from_header(authorization: Option<&str>, settings: &Settings) -> (r: Result<
        BearerAuth,
        AppError,
    >)
        ensures
            r is Ok <==> auth_outcome(
                match authorization {
                    Some(h) => Some(h@),
                    None => None,
                },
                settings.bridge_token@,
            ) is Ok,
            r matches Err(e) ==> (e matches AppError::Unauthenticated(m) && auth_outcome(
                match authorization {
                    Some(h) => Some(h@),
                    None => None,
                },
                settings.bridge_token@,
            ) == Err::<(), Seq<char>>(m@)),
    {
        let header = match authorization {
            Some(h) => h,
            None => return Err(AppError::Unauthenticated("缺少 Authorization header".to_owned())),
        };
        let cs = chars_of(header);
        if !starts_with_bearer(&cs) {
            return Err(
                AppError::Unauthenticated("Authorization header 格式应为: Bearer <token>".to_owned()),
            );
        }
        let n = header.unicode_len();
        let token = header.substring_char(7, n);
        assert(token@ == header@.skip(7));
        if token.is_empty() {
            return Err(
                AppError::Unauthenticated("Authorization header 格式应为: Bearer <token>".to_owned()),
            );
        }
        proof {
            vstd::utf8::encode_utf8_decode_utf8(token@);
            vstd::utf8::encode_utf8_decode_utf8(settings.bridge_token@);
        }
        if !constant_time_eq(token.as_bytes(), settings.bridge_token.as_str().as_bytes()) {
            return Err(AppError::Unauthenticated("Token 无效".to_owned()));
        }
        Ok(BearerAuth)
    }
}

/// `Authorization: Bearer <t>` is accepted exactly when `t` is the (non-empty) bridge token.
pub proof fn bearer_accepts_only_the_bridge_token(t: Seq<char>, bridge_token: Seq<char>)
    requires
        bridge_token.len() > 0,
    ensures
        auth_outcome(Some("Bearer "@ + t), bridge_token) is Ok <==> t == bridge_token,
{
    reveal_strlit("Bearer ");
    reveal_strlit("bearer ");
    reveal_strlit("BEARER ");
    let s = "Bearer "@ + t;
    assert(has_bearer_scheme(s)) by {
        assert forall|i: int| 0 <= i < 7 implies #[trigger] s[i] == "bearer "@[i] || s[i] == "BEARER "@[i] by {
            assert(s[i] == "Bearer "@[i]);
        }
    }
    assert(s.skip(7) =~= t);
}

} // verus!
