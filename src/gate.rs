use std::rc::Rc;
use vstd::prelude::*;
use vstd::string::*;
use crate::codec::{
    now_secs, opened_token, verdict, verify_token_at, Claims, ClaimsView,
    TokenError,
};

verus! {

/// Why a request was turned away before reaching a protected route.
#[derive(Debug, Clone, Copy, PartialEq, Eq, Structural)]
pub enum GateError {
    /// The request carries no `Authorization` header.
    MissingCredential,
    /// The header does not use the `Bearer ` scheme.
    MalformedCredential,
    /// The bearer token did not verify.
    Unauthorized(TokenError),
}

impl GateError {
    /// A short reason to send back with the refusal.
    pub fn reason(&self) -> (r: &'static str)
        ensures
            r@ == gate_reason(*self),
    {
        match self {
            GateError::MissingCredential => {
                proof {
                    reveal_strlit("Missing auth header");
                }
                let r = "Missing auth header";
                assert(r@ =~= seq!['M', 'i', 's', 's', 'i', 'n', 'g', ' ', 'a', 'u', 't', 'h', ' ', 'h', 'e', 'a', 'd', 'e', 'r']);
                r
            },
            GateError::MalformedCredential => {
                proof {
                    reveal_strlit("Malformed auth header");
                }
                let r = "Malformed auth header";
                assert(r@ =~= seq!['M', 'a', 'l', 'f', 'o', 'r', 'm', 'e', 'd', ' ', 'a', 'u', 't', 'h', ' ', 'h', 'e', 'a', 'd', 'e', 'r']);
                r
            },
            GateError::Unauthorized(_) => {
                proof {
                    reveal_strlit("Invalid token");
                }
                let r = "Invalid token";
                assert(r@ =~= seq!['I', 'n', 'v', 'a', 'l', 'i', 'd', ' ', 't', 'o', 'k', 'e', 'n']);
                r
            },
        }
    }
}

/// The reason sent back with each refusal.
pub open spec fn gate_reason(e: GateError) -> Seq<char> {
    match e {
        GateError::MissingCredential => seq!['M', 'i', 's', 's', 'i', 'n', 'g', ' ', 'a', 'u', 't', 'h', ' ', 'h', 'e', 'a', 'd', 'e', 'r'],
        GateError::MalformedCredential => seq!['M', 'a', 'l', 'f', 'o', 'r', 'm', 'e', 'd', ' ', 'a', 'u', 't', 'h', ' ', 'h', 'e', 'a', 'd', 'e', 'r'],
        GateError::Unauthorized(_) => seq!['I', 'n', 'v', 'a', 'l', 'i', 'd', ' ', 't', 'o', 'k', 'e', 'n'],
    }
}

/// The scheme prefix that a credential header must start with.
pub open spec fn bearer_scheme() -> Seq<char> {
    seq!['B', 'e', 'a', 'r', 'e', 'r', ' ']
}

/// The token that a header carries after the `Bearer ` prefix, if it has one.
pub open spec fn credential_of(header: Seq<char>) -> Option<Seq<char>> {
    if header.len() >= 7 && header.subrange(0, 7) == bearer_scheme() {
        Some(header.subrange(7, header.len() as int))
    } else {
        None
    }
}

/// What authentication decides on a request whose `Authorization` header is
/// `header`, under `secret`, at time `now`.
pub open spec fn gate_verdict(header: Option<Seq<char>>, secret: Seq<u8>, now: u64) -> Result<ClaimsView, GateError> {
    match header {
        None => Err(GateError::MissingCredential),
        Some(h) => match credential_of(h) {
            None => Err(GateError::MalformedCredential),
            Some(t) => match verdict(opened_token(t, secret), now) {
                Ok(c) => Ok(c),
                Err(e) => Err(GateError::Unauthorized(e)),
            },
        },
    }
}

pub open spec fn gate_result(r: Result<Claims, GateError>) -> Result<ClaimsView, GateError> {
    match r {
        Ok(c) => Ok(c@),
        Err(e) => Err(e),
    }
}

pub open spec fn header_view(h: Option<&str>) -> Option<Seq<char>> {
    match h {
        Some(s) => Some(s@),
        None => None,
    }
}

/// The token after the `Bearer ` prefix of `header`, or `None` where the
/// header does not start with that prefix.
pub fn strip_bearer(header: &str) -> (r: Option<&str>)
    ensures
        match r {
            Some(t) => credential_of(header@) == Some(t@),
            None => credential_of(header@) is None,
        },
{
    let n = header.unicode_len();
    if n < 7 {
        return None;
    }
    let scheme = "Bearer ";
    proof {
        reveal_strlit("Bearer ");
    }
    assert(scheme@ =~= bearer_scheme());
    let mut i: usize = 0;
    while i < 7
        invariant
            n == header@.len(),
            n >= 7,
            scheme@ == bearer_scheme(),
            i <= 7,
            forall|j: int| 0 <= j < i ==> header@[j] == bearer_scheme()[j],
        decreases 7 - i,
    {
        if header.get_char(i) != scheme.get_char(i) {
            assert(header@.subrange(0, 7)[i as int] != bearer_scheme()[i as int]);
            return None;
        }
        i = i + 1;
    }
    assert(header@.subrange(0, 7) =~= bearer_scheme());
    Some(header.substring_char(7, n))
}

/// Decides on a request at time `now`: the verified claims, or why it is refused.
pub fn authenticate_at(header: Option<&str>, secret: &[u8], now: u64) -> (r: Result<Claims, GateError>)
    ensures
        gate_result(r) == gate_verdict(header_view(header), secret@, now),
        header is None ==> r == Err::<Claims, GateError>(GateError::MissingCredential),
{
    let h = match header {
        Some(h) => h,
        None => return Err(GateError::MissingCredential),
    };
    let token = match strip_bearer(h) {
        Some(t) => t,
        None => return Err(GateError::MalformedCredential),
    };
    match verify_token_at(token, secret, now) {
        Ok(c) => Ok(c),
        Err(e) => Err(GateError::Unauthorized(e)),
    }
}

/// Decides on a request at the present time.
pub fn authenticate(header: Option<&str>, secret: &[u8]) -> (r: Result<Claims, GateError>)
    ensures
        exists|now: u64| now <= i64::MAX && gate_result(r) == gate_verdict(header_view(header), secret@, now),
        header is None ==> r == Err::<Claims, GateError>(GateError::MissingCredential),
{
    let now = now_secs();
    let r = authenticate_at(header, secret, now);
    assert(gate_result(r) == gate_verdict(header_view(header), secret@, now));
    r
}

/// A header that does not start with `Bearer ` is refused as malformed,
/// whatever follows, before any token is looked at.
pub proof fn lemma_other_scheme_is_malformed(header: Seq<char>, secret: Seq<u8>, now: u64)
    requires
        !(header.len() >= 7 && header.subrange(0, 7) == bearer_scheme()),
    ensures
        gate_verdict(Some(header), secret, now) == Err::<ClaimsView, GateError>(GateError::MalformedCredential),
{
}

/// The authentication step placed in front of a group of protected routes; it holds the
/// process-wide signing secret.
pub struct AuthMiddleware {
    secret: Vec<u8>,
}

impl AuthMiddleware {
    pub closed spec fn secret(&self) -> Seq<u8> {
        self.secret@
    }

    pub fn new(secret: Vec<u8>) -> (r: Self)
        ensures
            r.secret() == secret@,
    {
        AuthMiddleware { secret }
    }

    /// Puts this authentication step in front of `service`.
    pub fn new_transform<S>(&self, service: S) -> (r: AuthMiddlewareMiddleware<S>)
        ensures
            r.secret() == self.secret(),
            r.inner() == service,
    {
        AuthMiddlewareMiddleware { service: Rc::new(service), secret: self.secret.clone() }
    }
}

/// A service with authentication in front of it.
pub struct AuthMiddlewareMiddleware<S> {
    pub service: Rc<S>,
    secret: Vec<u8>,
}

impl<S> AuthMiddlewareMiddleware<S> {
    pub closed spec fn secret(&self) -> Seq<u8> {
        self.secret@
    }

    /// The service behind the authentication step.
    pub closed spec fn inner(&self) -> S {
        *self.service
    }

    /// What authentication decides on a request with this `Authorization` header;
    /// on `Ok` the claims go with the request to the service.
    pub fn authorize(&self, header: Option<&str>) -> (r: Result<Claims, GateError>)
        ensures
            exists|now: u64| now <= i64::MAX && gate_result(r) == gate_verdict(header_view(header), self.secret(), now),
            header is None ==> r == Err::<Claims, GateError>(GateError::MissingCredential),
    {
        let now = now_secs();
        let r = authenticate_at(header, self.secret.as_slice(), now);
        assert(gate_result(r) == gate_verdict(header_view(header), self.secret(), now));
        r
    }
}

} // verus!
