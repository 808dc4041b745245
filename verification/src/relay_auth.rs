//! HTTP Basic authentication between a relay and the signalling gateway: the
//! header a relay sends, and the check its gRPC service makes of incoming
//! requests against the shared secret.

use vstd::prelude::*;
use vstd::utf8::{decode_utf8, encode_utf8, valid_utf8};

use crate::ice::{first_index_of, lemma_first_index_of_is};
use crate::text::{chars_of, push_str, starts_with, string_of, sub_vec, vec_starts_with};

verus! {

#[verifier::external_type_specification]
#[verifier::external_body]
pub struct ExDecodeError(base64::DecodeError);

#[verifier::external_type_specification]
#[verifier::external_body]
pub struct ExFromUtf8Error(std::string::FromUtf8Error);

/// The base64 digit of the six-bit value `v`: `A`-`Z`, `a`-`z`, `0`-`9`,
/// then `c62` and `c63`.
pub open spec fn base64_digit(v: int, c62: char, c63: char) -> char {
    if v < 26 {
        (('A' as int) + v) as char
    } else if v < 52 {
        (('a' as int) + v - 26) as char
    } else if v < 62 {
        (('0' as int) + v - 52) as char
    } else if v == 62 {
        c62
    } else {
        c63
    }
}

/// Base64 (RFC 4648) of `data` with `c62` and `c63` as the last two digits:
/// each three bytes become four digits; a last group of one or two bytes
/// becomes two or three digits, followed by `=` to four where `pad` is set.
pub open spec fn base64_encode_with(data: Seq<u8>, c62: char, c63: char, pad: bool) -> Seq<char>
    decreases data.len(),
{
    if data.len() == 0 {
        Seq::empty()
    } else if data.len() >= 3 {
        let n = data[0] as int * 65536 + data[1] as int * 256 + data[2] as int;
        seq![
            base64_digit(n / 262144, c62, c63),
            base64_digit((n / 4096) % 64, c62, c63),
            base64_digit((n / 64) % 64, c62, c63),
            base64_digit(n % 64, c62, c63),
        ] + base64_encode_with(data.skip(3), c62, c63, pad)
    } else if data.len() == 2 {
        let n = data[0] as int * 65536 + data[1] as int * 256;
        seq![
            base64_digit(n / 262144, c62, c63),
            base64_digit((n / 4096) % 64, c62, c63),
            base64_digit((n / 64) % 64, c62, c63),
        ] + if pad {
            seq!['=']
        } else {
            Seq::empty()
        }
    } else {
        let n = data[0] as int * 65536;
        seq![base64_digit(n / 262144, c62, c63), base64_digit((n / 4096) % 64, c62, c63)] + if pad {
            seq!['=', '=']
        } else {
            Seq::empty()
        }
    }
}

/// What `general_purpose::STANDARD.encode` makes of `data`: padded base64
/// with the standard alphabet (`+` and `/`).
pub open spec fn base64_standard_encode(data: Seq<u8>) -> Seq<char> {
    base64_encode_with(data, '+', '/', true)
}

/// What `general_purpose::STANDARD.decode` makes of `text`: the bytes, or
/// `None` where it refuses the text.
pub uninterp spec fn base64_standard_decode(text: Seq<char>) -> Option<Seq<u8>>;

/// `Engine::encode` of the `general_purpose::STANDARD` engine of `base64`.
/// Claims that the result is the padded standard base64 of `data` (see
/// `base64_standard_encode`), and that decoding it with the same engine
/// gives `data` back, as the crate's round-trip tests check.
#[verifier::external_body]
pub(crate) fn base64_encode(data: &[u8]) -> (r: String)
    ensures
        r@ == base64_standard_encode(data@),
        base64_standard_decode(r@) == Some(data@),
{
    base64::Engine::encode(&base64::engine::general_purpose::STANDARD, data)
}

/// `Engine::decode` of the `general_purpose::STANDARD` engine of `base64`,
/// applied to the UTF-8 bytes of `text`. Claims that the result is a function
/// of `text` alone.
#[verifier::external_body]
fn base64_decode(text: &str) -> (r: Result<Vec<u8>, base64::DecodeError>)
    ensures
        match r {
            Ok(v) => base64_standard_decode(text@) == Some(v@),
            Err(_) => base64_standard_decode(text@) is None,
        },
{
    base64::Engine::decode(&base64::engine::general_purpose::STANDARD, text)
}

/// `String::from_utf8`: the string whose UTF-8 encoding is `bytes`, or an
/// error where `bytes` is not UTF-8.
#[verifier::external_body]
fn string_from_utf8(bytes: Vec<u8>) -> (r: Result<String, std::string::FromUtf8Error>)
    ensures
        match r {
            Ok(s) => valid_utf8(bytes@) && s@ == decode_utf8(bytes@),
            Err(_) => !valid_utf8(bytes@),
        },
{
    String::from_utf8(bytes)
}

/// The secret a relay uses where `RELAY_SERVER_SECRET` is not set.
pub const DEFAULT_RELAY_SECRET: &'static str = "supersecret";

/// The user name a relay presents.
pub const RELAY_USER: &'static str = "user";

/// The secret given by the value of `RELAY_SERVER_SECRET`, the default where
/// it is unset.
pub open spec fn relay_secret_spec(env: Option<String>) -> Seq<char> {
    match env {
        Some(s) => s@,
        None => DEFAULT_RELAY_SECRET@,
    }
}

/// The `user:password` credentials of Basic authentication, base64-encoded.
pub open spec fn basic_credentials_spec(username: Seq<char>, password: Seq<char>) -> Seq<char> {
    base64_standard_encode(encode_utf8(username + ":"@ + password))
}

/// The value of an `authorization` header for Basic authentication.
pub open spec fn basic_header_spec(username: Seq<char>, password: Seq<char>) -> Seq<char> {
    "Basic "@ + basic_credentials_spec(username, password)
}

/// The user name and password of decoded `user:password` credentials: the
/// text before and after the first colon.
pub open spec fn split_credentials_spec(text: Seq<char>) -> Option<(Seq<char>, Seq<char>)> {
    let k = first_index_of(text, ':');
    if 0 <= k < text.len() {
        Some((text.take(k), text.skip(k + 1)))
    } else {
        None
    }
}

/// The `authorization` header of a request as the gRPC layer sees it.
pub enum AuthHeader {
    /// There is none.
    Missing,
    /// It holds bytes other than visible ASCII.
    Unreadable,
    /// Its text.
    Text(String),
}

/// Why a request to the relay's gRPC service is refused.
#[derive(Clone, Copy, Debug, PartialEq, Eq)]
pub enum RelayAuthRejection {
    MissingHeader,
    InvalidHeaderEncoding,
    InvalidBase64,
    InvalidCredentialsEncoding,
    InvalidCredentials,
}

impl RelayAuthRejection {
    /// The message the refusal carries.
    pub fn message(&self) -> (r: &'static str)
        ensures
            r@ == match *self {
                RelayAuthRejection::MissingHeader => "Missing authorization header"@,
                RelayAuthRejection::InvalidHeaderEncoding => "Invalid authorization header encoding"@,
                RelayAuthRejection::InvalidBase64 => "Invalid base64 encoding"@,
                RelayAuthRejection::InvalidCredentialsEncoding => "Invalid credentials encoding"@,
                RelayAuthRejection::InvalidCredentials => "Invalid credentials"@,
            },
    {
        match self {
            RelayAuthRejection::MissingHeader => "Missing authorization header",
            RelayAuthRejection::InvalidHeaderEncoding => "Invalid authorization header encoding",
            RelayAuthRejection::InvalidBase64 => "Invalid base64 encoding",
            RelayAuthRejection::InvalidCredentialsEncoding => "Invalid credentials encoding",
            RelayAuthRejection::InvalidCredentials => "Invalid credentials",
        }
    }
}

/// What the decoding of base64 credentials gives: the user name and the
/// password, or why they are refused.
pub open spec fn decode_credentials_spec(encoded: Seq<char>) -> Result<(Seq<char>, Seq<char>), RelayAuthRejection> {
    match base64_standard_decode(encoded) {
        None => Err(RelayAuthRejection::InvalidBase64),
        Some(bytes) => if !valid_utf8(bytes) {
            Err(RelayAuthRejection::InvalidCredentialsEncoding)
        } else {
            match split_credentials_spec(decode_utf8(bytes)) {
                Some(pair) => Ok(pair),
                None => Err(RelayAuthRejection::InvalidCredentials),
            }
        },
    }
}

/// The answer to a request carrying `header`, for a service whose secret is
/// `secret`: accepted exactly when the header is `Basic` credentials, in
/// base64 of UTF-8 text, whose password (after the first colon) is the secret.
pub open spec fn authorize_spec(secret: Seq<char>, header: AuthHeader) -> Result<(), RelayAuthRejection> {
    match header {
        AuthHeader::Missing => Err(RelayAuthRejection::MissingHeader),
        AuthHeader::Unreadable => Err(RelayAuthRejection::InvalidHeaderEncoding),
        AuthHeader::Text(t) => if !starts_with(t@, "Basic "@) {
            Err(RelayAuthRejection::InvalidCredentials)
        } else {
            match decode_credentials_spec(t@.skip(6)) {
                Err(e) => Err(e),
                Ok((_, password)) => if password == secret {
                    Ok(())
                } else {
                    Err(RelayAuthRejection::InvalidCredentials)
                },
            }
        },
    }
}

pub(crate) fn bytes_of(s: &str) -> (r: Vec<u8>)
    ensures
        r@ == encode_utf8(s@),
{
    let b = s.as_bytes();
    let mut r: Vec<u8> = Vec::new();
    let mut i: usize = 0;
    while i < b.len()
        invariant
            i <= b@.len(),
            b@ == encode_utf8(s@),
            r@ == b@.take(i as int),
        decreases b@.len() - i,
    {
        r.push(b[i]);
        assert(b@.take(i as int + 1) =~= b@.take(i as int).push(b@[i as int]));
        i += 1;
    }
    assert(b@.take(b@.len() as int) =~= b@);
    r
}

/// The base64 `user:password` credentials of Basic authentication.
/// Decoding them gives back the user name and the password, where the user
/// name holds no colon.
pub fn basic_credentials(username: &str, password: &str) -> (r: String)
    ensures
        r@ == basic_credentials_spec(username@, password@),
        base64_standard_decode(r@) == Some(encode_utf8(username@ + ":"@ + password@)),
        !username@.contains(':') ==> decode_credentials_spec(r@) == Ok::<(Seq<char>, Seq<char>), RelayAuthRejection>(
            (username@, password@),
        ),
{
    let mut text = String::new();
    push_str(&mut text, username);
    push_str(&mut text, ":");
    push_str(&mut text, password);
    let bytes = bytes_of(text.as_str());
    let r = base64_encode(bytes.as_slice());
    proof {
        reveal_strlit(":");
        let t = username@ + ":"@ + password@;
        assert(text@ == t);
        vstd::utf8::encode_utf8_valid_utf8(t);
        vstd::utf8::encode_utf8_decode_utf8(t);
        if !username@.contains(':') {
            let k = username@.len() as int;
            assert(t[k] == ':');
            assert forall|j: int| 0 <= j < k implies t[j] != ':' by {
                assert(t[j] == username@[j]);
                if t[j] == ':' {
                    assert(username@.contains(':'));
                }
            }
            lemma_first_index_of_is(t, ':', k);
            assert(t.take(k) =~= username@);
            assert(t.skip(k + 1) =~= password@);
        }
    }
    r
}

/// The user name and password of base64 `user:password` credentials.
pub fn decode_credentials(encoded: &str) -> (r: Result<(String, String), RelayAuthRejection>)
    ensures
        match r {
            Ok((u, p)) => decode_credentials_spec(encoded@) == Ok::<
                (Seq<char>, Seq<char>),
                RelayAuthRejection,
            >((u@, p@)),
            Err(e) => decode_credentials_spec(encoded@) == Err::<
                (Seq<char>, Seq<char>),
                RelayAuthRejection,
            >(e),
        },
{
    let bytes = match base64_decode(encoded) {
        Ok(b) => b,
        Err(_) => return Err(RelayAuthRejection::InvalidBase64),
    };
    let text = match string_from_utf8(bytes) {
        Ok(t) => t,
        Err(_) => return Err(RelayAuthRejection::InvalidCredentialsEncoding),
    };
    let chars = chars_of(text.as_str());
    let n = chars.len();
    let mut k: usize = 0;
    while k < n && chars[k] != ':'
        invariant
            n == chars@.len(),
            k <= n,
            forall|j: int| 0 <= j < k ==> chars@[j] != ':',
        decreases n - k,
    {
        k += 1;
    }
    proof {
        lemma_first_index_of_is(chars@, ':', k as int);
    }
    if k == n {
        return Err(RelayAuthRejection::InvalidCredentials);
    }
    let user = sub_vec(&chars, 0, k);
    let pass = sub_vec(&chars, k + 1, n);
    assert(user@ =~= chars@.take(k as int));
    assert(pass@ =~= chars@.skip(k + 1));
    Ok((string_of(&user), string_of(&pass)))
}

/// The `authorization` header a relay sends: Basic authentication as
/// `user`, with the secret from `RELAY_SERVER_SECRET` (`secret_env`, its
/// value where set) or the default. A service holding the same secret accepts
/// it.
pub fn relay_auth_header(secret_env: Option<String>) -> (r: String)
    ensures
        r@ == basic_header_spec(RELAY_USER@, relay_secret_spec(secret_env)),
        authorize_spec(relay_secret_spec(secret_env), AuthHeader::Text(r)) == Ok::<
            (),
            RelayAuthRejection,
        >(()),
{
    let secret = match secret_env {
        Some(s) => s,
        None => {
            let mut s = String::new();
            push_str(&mut s, DEFAULT_RELAY_SECRET);
            s
        },
    };
    let credentials = basic_credentials(RELAY_USER, secret.as_str());
    let mut header = String::new();
    push_str(&mut header, "Basic ");
    push_str(&mut header, credentials.as_str());
    proof {
        reveal_strlit("Basic ");
        reveal_strlit("user");
        reveal_strlit(":");
        let text = RELAY_USER@ + ":"@ + secret@;
        assert(header@.take(6) =~= "Basic "@);
        assert(header@.skip(6) =~= credentials@);
        vstd::utf8::encode_utf8_valid_utf8(text);
        vstd::utf8::encode_utf8_decode_utf8(text);
        assert(text[4] == ':');
        assert forall|j: int| 0 <= j < 4 implies text[j] != ':' by {
            assert(text[j] == RELAY_USER@[j]);
        }
        lemma_first_index_of_is(text, ':', 4);
        assert(text.skip(5) =~= secret@);
    }
    header
}

/// The check of the relay's gRPC service: the secret a request's Basic
/// credentials must carry as password.
pub struct RelayAuthInterceptor {
    secret: String,
}

impl RelayAuthInterceptor {
    /// The secret the check compares against.
    pub closed spec fn secret_spec(&self) -> Seq<char> {
        self.secret@
    }

    /// A check against the secret from `RELAY_SERVER_SECRET` (`secret_env`,
    /// its value where set) or the default.
    pub fn new(secret_env: Option<String>) -> (r: Self)
        ensures
            r.secret_spec() == relay_secret_spec(secret_env),
    {
        let secret = match secret_env {
            Some(s) => s,
            None => {
                let mut s = String::new();
                push_str(&mut s, DEFAULT_RELAY_SECRET);
                s
            },
        };
        RelayAuthInterceptor { secret }
    }

    /// Whether a request with `header` passes.
    pub fn authorize(&self, header: AuthHeader) -> (r: Result<(), RelayAuthRejection>)
        ensures
            r == authorize_spec(self.secret_spec(), header),
    {
        let ghost h = header;
        match header {
            AuthHeader::Missing => Err(RelayAuthRejection::MissingHeader),
            AuthHeader::Unreadable => Err(RelayAuthRejection::InvalidHeaderEncoding),
            AuthHeader::Text(t) => {
                let chars = chars_of(t.as_str());
                let prefix = chars_of("Basic ");
                if !vec_starts_with(&chars, &prefix) {
                    return Err(RelayAuthRejection::InvalidCredentials);
                }
                proof {
                    reveal_strlit("Basic ");
                }
                let rest = sub_vec(&chars, 6, chars.len());
                assert(rest@ =~= t@.skip(6));
                let encoded = string_of(&rest);
                match decode_credentials(encoded.as_str()) {
                    Err(e) => Err(e),
                    Ok((_, password)) => {
                        if password == self.secret {
                            Ok(())
                        } else {
                            Err(RelayAuthRejection::InvalidCredentials)
                        }
                    },
                }
            },
        }
    }
}

} // verus!
