//! Token authentication of the relay's HTTP API against the application
//! gateway: the bearer token a request carries, the answer to a failed check,
//! and the small services around it (the locator that reports the public
//! address, the relay's connect service).

use vstd::prelude::*;

use crate::decimal::{decimal, decimal_string};
use crate::relay_auth::AuthHeader;
use crate::text::{chars_of, push_str, starts_with, string_of, sub_vec, vec_starts_with};

verus! {

/// Why the gateway did not vouch for a token.
#[derive(Clone, Debug)]
pub enum AuthError {
    MissingToken,
    InvalidToken(String),
    GrpcError(String),
}

impl AuthError {
    /// The text of the error.
    pub fn message(&self) -> (r: String)
        ensures
            r@ == (match self {
                AuthError::MissingToken => "Missing token"@,
                AuthError::InvalidToken(e) => "Invalid token: "@ + e@,
                AuthError::GrpcError(e) => "gRPC error: "@ + e@,
            }),
    {
        let mut r = String::new();
        match self {
            AuthError::MissingToken => push_str(&mut r, "Missing token"),
            AuthError::InvalidToken(e) => {
                push_str(&mut r, "Invalid token: ");
                push_str(&mut r, e.as_str());
            },
            AuthError::GrpcError(e) => {
                push_str(&mut r, "gRPC error: ");
                push_str(&mut r, e.as_str());
            },
        }
        r
    }
}

/// Why a request was refused before its token was checked.
#[derive(Clone, Copy, Debug, PartialEq, Eq)]
pub enum BearerRejection {
    /// There is no `authorization` header.
    MissingHeader,
    /// The header is not `Bearer <token>`.
    InvalidFormat,
}

impl BearerRejection {
    /// The error the refusal answers with.
    pub fn message(&self) -> (r: &'static str)
        ensures
            r@ == match *self {
                BearerRejection::MissingHeader => "Missing authorization header"@,
                BearerRejection::InvalidFormat => "Invalid authorization header format"@,
            },
    {
        match self {
            BearerRejection::MissingHeader => "Missing authorization header",
            BearerRejection::InvalidFormat => "Invalid authorization header format",
        }
    }
}

/// The token of a request with `header`: what follows `Bearer `; a header
/// that is not text counts as empty.
pub open spec fn bearer_token_spec(header: AuthHeader) -> Result<Seq<char>, BearerRejection> {
    match header {
        AuthHeader::Missing => Err(BearerRejection::MissingHeader),
        AuthHeader::Unreadable => Err(BearerRejection::InvalidFormat),
        AuthHeader::Text(t) => if starts_with(t@, "Bearer "@) {
            Ok(t@.skip(7))
        } else {
            Err(BearerRejection::InvalidFormat)
        },
    }
}

/// The token a request with `header` carries.
pub fn bearer_token(header: AuthHeader) -> (r: Result<String, BearerRejection>)
    ensures
        match r {
            Ok(t) => bearer_token_spec(header) == Ok::<Seq<char>, BearerRejection>(t@),
            Err(e) => bearer_token_spec(header) == Err::<Seq<char>, BearerRejection>(e),
        },
{
    match header {
        AuthHeader::Missing => Err(BearerRejection::MissingHeader),
        AuthHeader::Unreadable => Err(BearerRejection::InvalidFormat),
        AuthHeader::Text(t) => {
            let chars = chars_of(t.as_str());
            let prefix = chars_of("Bearer ");
            if !vec_starts_with(&chars, &prefix) {
                return Err(BearerRejection::InvalidFormat);
            }
            proof {
                reveal_strlit("Bearer ");
            }
            let token = sub_vec(&chars, 7, chars.len());
            assert(token@ =~= t@.skip(7));
            Ok(string_of(&token))
        },
    }
}

/// The HTTP status and message a failed token check is answered with: 503
/// when the gateway could not be asked, 401 otherwise.
pub fn auth_failure_response(e: &AuthError) -> (r: (u16, &'static str))
    ensures
        r.0 == (match e {
            AuthError::GrpcError(_) => 503u16,
            _ => 401u16,
        }),
{
    match e {
        AuthError::GrpcError(_) => (503, "Authentication service unavailable"),
        AuthError::InvalidToken(_) => (401, "Invalid token"),
        AuthError::MissingToken => (401, "Missing token"),
    }
}

/// Why the locator did not report an address.
#[derive(Clone, Debug)]
pub enum LocatorError {
    HttpError(String),
    Timeout,
    ParseError,
}

impl LocatorError {
    /// The text of the error.
    pub fn message(&self) -> (r: String)
        ensures
            r@ == (match self {
                LocatorError::HttpError(e) => "HTTP error: "@ + e@,
                LocatorError::Timeout => "Request timeout"@,
                LocatorError::ParseError => "Failed to parse response"@,
            }),
    {
        let mut r = String::new();
        match self {
            LocatorError::HttpError(e) => {
                push_str(&mut r, "HTTP error: ");
                push_str(&mut r, e.as_str());
            },
            LocatorError::Timeout => push_str(&mut r, "Request timeout"),
            LocatorError::ParseError => push_str(&mut r, "Failed to parse response"),
        }
        r
    }

    /// The error for a failed request: a timeout, or any other transport
    /// failure with its text.
    pub fn from_transport(timed_out: bool, text: String) -> (r: Self)
        ensures
            timed_out ==> r is Timeout,
            !timed_out ==> (r matches LocatorError::HttpError(e) && e == text),
    {
        if timed_out {
            LocatorError::Timeout
        } else {
            LocatorError::HttpError(text)
        }
    }
}

/// The service, behind the Kong gateway, that reports the public address of
/// whoever asks.
pub struct LocatorClient {
    pub kong_host: String,
    pub kong_port: u16,
}

impl LocatorClient {
    /// A client of the locator behind `kong_host:kong_port`.
    pub fn new(kong_host: String, kong_port: u16) -> (r: Self)
        ensures
            r.kong_host == kong_host,
            r.kong_port == kong_port,
    {
        LocatorClient { kong_host, kong_port }
    }

    /// The URL the locator answers at.
    pub fn locator_url(&self) -> (r: String)
        ensures
            r@ == "http://"@ + self.kong_host@ + ":"@ + decimal(self.kong_port as nat) + "/locator"@,
    {
        let mut r = String::new();
        push_str(&mut r, "http://");
        push_str(&mut r, self.kong_host.as_str());
        push_str(&mut r, ":");
        let port = decimal_string(self.kong_port as u64);
        push_str(&mut r, port.as_str());
        push_str(&mut r, "/locator");
        r
    }
}

/// What the relay's connect service answers.
#[derive(Clone, Debug)]
pub struct ConnectReply {
    pub success: bool,
    pub sdp: Option<String>,
    pub error_message: Option<String>,
}

/// The relay's gRPC connect service.
pub struct RelayServiceImpl;

impl RelayServiceImpl {
    /// The service.
    pub fn new() -> (r: Self) {
        RelayServiceImpl
    }

    /// The answer to a connect request: success, with no description and no
    /// error, whatever the session.
    pub fn connect(&self, session_id: &str) -> (r: ConnectReply)
        ensures
            r.success,
            r.sdp is None,
            r.error_message is None,
    {
        ConnectReply { success: true, sdp: None, error_message: None }
    }
}

} // verus!
