use bitbridge::gateway_auth::{auth_failure_response, bearer_token, AuthError, BearerRejection, LocatorClient, LocatorError, RelayServiceImpl};
use bitbridge::relay_auth::{
    basic_credentials, decode_credentials, relay_auth_header, AuthHeader, RelayAuthInterceptor, RelayAuthRejection,
};

#[test]
fn test_basic_auth_encoding() {
    let encoded = basic_credentials("user", "secret123");
    assert_eq!(encoded, "dXNlcjpzZWNyZXQxMjM=");

    let (user, password) = decode_credentials(&encoded).unwrap();
    assert_eq!(format!("{user}:{password}"), "user:secret123");
}

#[test]
fn test_basic_auth_decoding() {
    let encoded = "dXNlcjpzZWNyZXQxMjM=";
    let (user, password) = decode_credentials(encoded).unwrap();
    assert_eq!(format!("{user}:{password}"), "user:secret123");

    let parts = [user, password];
    assert_eq!(parts.len(), 2);
    assert_eq!(parts[0], "user");
    assert_eq!(parts[1], "secret123");
}

#[test]
fn relay_accepts_its_own_header() {
    let header = relay_auth_header(Some("secret123".to_string()));
    assert_eq!(header, "Basic dXNlcjpzZWNyZXQxMjM=");
    let interceptor = RelayAuthInterceptor::new(Some("secret123".to_string()));
    assert_eq!(interceptor.authorize(AuthHeader::Text(header)), Ok(()));
    let default_header = relay_auth_header(None);
    assert_eq!(RelayAuthInterceptor::new(None).authorize(AuthHeader::Text(default_header)), Ok(()));
}

#[test]
fn relay_refusals_name_their_reason() {
    let interceptor = RelayAuthInterceptor::new(None);
    assert_eq!(interceptor.authorize(AuthHeader::Missing), Err(RelayAuthRejection::MissingHeader));
    assert_eq!(interceptor.authorize(AuthHeader::Unreadable), Err(RelayAuthRejection::InvalidHeaderEncoding));
    assert_eq!(
        interceptor.authorize(AuthHeader::Text("Bearer abc".to_string())),
        Err(RelayAuthRejection::InvalidCredentials)
    );
    assert_eq!(
        interceptor.authorize(AuthHeader::Text("Basic !!!".to_string())),
        Err(RelayAuthRejection::InvalidBase64)
    );
    assert_eq!(
        interceptor.authorize(AuthHeader::Text("Basic /w==".to_string())),
        Err(RelayAuthRejection::InvalidCredentialsEncoding)
    );
    assert_eq!(
        interceptor.authorize(AuthHeader::Text("Basic dXNlcg==".to_string())),
        Err(RelayAuthRejection::InvalidCredentials)
    );
    let wrong = relay_auth_header(Some("other".to_string()));
    assert_eq!(interceptor.authorize(AuthHeader::Text(wrong)), Err(RelayAuthRejection::InvalidCredentials));
    assert_eq!(RelayAuthRejection::InvalidBase64.message(), "Invalid base64 encoding");
}

#[test]
fn password_is_everything_after_the_first_colon() {
    let encoded = basic_credentials("a", "b:c");
    assert_eq!(decode_credentials(&encoded), Ok(("a".to_string(), "b:c".to_string())));
}

#[test]
fn bearer_tokens_are_read_from_the_header() {
    assert_eq!(bearer_token(AuthHeader::Text("Bearer tok".to_string())), Ok("tok".to_string()));
    assert_eq!(bearer_token(AuthHeader::Text("Basic tok".to_string())), Err(BearerRejection::InvalidFormat));
    assert_eq!(bearer_token(AuthHeader::Unreadable), Err(BearerRejection::InvalidFormat));
    assert_eq!(bearer_token(AuthHeader::Missing), Err(BearerRejection::MissingHeader));
    assert_eq!(BearerRejection::MissingHeader.message(), "Missing authorization header");
}

#[test]
fn auth_failures_map_to_status_codes() {
    assert_eq!(auth_failure_response(&AuthError::GrpcError("x".to_string())), (503, "Authentication service unavailable"));
    assert_eq!(auth_failure_response(&AuthError::InvalidToken("x".to_string())), (401, "Invalid token"));
    assert_eq!(auth_failure_response(&AuthError::MissingToken), (401, "Missing token"));
    assert_eq!(AuthError::InvalidToken("bad".to_string()).message(), "Invalid token: bad");
    assert_eq!(AuthError::GrpcError("down".to_string()).message(), "gRPC error: down");
}

#[test]
fn locator_and_connect_service() {
    let client = LocatorClient::new("kong".to_string(), 8001);
    assert_eq!(client.locator_url(), "http://kong:8001/locator");
    assert_eq!(LocatorError::from_transport(true, "x".to_string()).message(), "Request timeout");
    assert_eq!(LocatorError::from_transport(false, "refused".to_string()).message(), "HTTP error: refused");
    assert_eq!(LocatorError::ParseError.message(), "Failed to parse response");
    let reply = RelayServiceImpl::new().connect("session");
    assert!(reply.success);
    assert!(reply.sdp.is_none());
    assert!(reply.error_message.is_none());
}
