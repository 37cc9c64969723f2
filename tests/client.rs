use armory::client::{receive, Client, Error, OkHeader, Operation, Response, TransportError};
use armory::model::{ErrorInfo, GeneralError, GetError, ListError, ListOutput, PublishError, PublishOutput};

fn response<O>(ok: OkHeader, error: Option<&str>, output: Option<O>) -> Response<O> {
    Response { ok, error: error.map(|c| ErrorInfo { code: c.to_string() }), output }
}

fn text(s: &str) -> OkHeader {
    OkHeader::Text(s.to_string())
}

#[test]
fn missing_indicator_is_transport() {
    let r = receive::<ListOutput, ListError>(response(OkHeader::Missing, Some("internal_error"), None));
    assert!(matches!(r, Err(Error::Transport(TransportError::OkHeaderMissing))));
    let r = receive::<u32, ListError>(response(OkHeader::Missing, None, Some(7)));
    assert!(matches!(r, Err(Error::Transport(TransportError::OkHeaderMissing))));
}

#[test]
fn malformed_indicator_is_transport() {
    let r = receive::<u32, GetError>(response(OkHeader::Malformed, Some("password_missing"), Some(1)));
    assert!(matches!(r, Err(Error::Transport(TransportError::OkHeaderMalformed))));
}

#[test]
fn unparseable_success_body_is_transport() {
    let r = receive::<u32, GetError>(response(text("true"), Some("package_not_found"), None));
    assert!(matches!(r, Err(Error::Transport(TransportError::OutputMalformed))));
}

#[test]
fn success_returns_output() {
    let r = receive::<u32, GetError>(response(text("true"), None, Some(42)));
    assert!(matches!(r, Ok(42)));
}

#[test]
fn general_error_is_tried_first() {
    let r = receive::<u32, PublishError>(response(text("false"), Some("password_missing"), Some(1)));
    assert!(matches!(r, Err(Error::General(GeneralError::PasswordMissing))));
    let r = receive::<u32, GetError>(response(text("false"), Some("password_invalid"), None));
    assert!(matches!(r, Err(Error::General(GeneralError::PasswordInvalid))));
}

#[test]
fn specific_error_follows() {
    let r = receive::<u32, PublishError>(response(text("false"), Some("version_exists"), None));
    assert!(matches!(r, Err(Error::Specific(PublishError::VersionExists))));
    let r = receive::<u32, GetError>(response(text("false"), Some("package_not_found"), None));
    assert!(matches!(r, Err(Error::Specific(GetError::PackageNotFound))));
}

#[test]
fn unknown_code_is_transport() {
    let r = receive::<u32, ListError>(response(text("false"), Some("package_not_found"), None));
    match r {
        Err(Error::Transport(TransportError::UnrecognizedCode(c))) => assert_eq!(c, "package_not_found"),
        other => panic!("unexpected {other:?}"),
    }
}

#[test]
fn unparseable_error_body_is_transport() {
    let r = receive::<u32, ListError>(response(text("false"), None, Some(3)));
    assert!(matches!(r, Err(Error::Transport(TransportError::ErrorBodyMalformed))));
}

#[test]
fn indicator_other_than_true_or_false_is_transport() {
    let r = receive::<u32, ListError>(response(text("TRUE"), Some("internal_error"), Some(3)));
    assert!(matches!(r, Err(Error::Transport(TransportError::OkHeaderMalformed))));
    let r = receive::<u32, GetError>(response(text("yes"), Some("password_missing"), None));
    assert!(matches!(r, Err(Error::Transport(TransportError::OkHeaderMalformed))));
    let r = receive::<u32, GetError>(response(text(""), Some("package_not_found"), Some(1)));
    assert!(matches!(r, Err(Error::Transport(TransportError::OkHeaderMalformed))));
}

#[test]
fn indicator_readings() {
    assert_eq!(text("true").reading(), Some(true));
    assert_eq!(text("false").reading(), Some(false));
    assert_eq!(text("False").reading(), None);
    assert_eq!(OkHeader::Missing.reading(), None);
    assert_eq!(OkHeader::Malformed.reading(), None);
}

#[test]
fn client_endpoints_and_credential() {
    let c = Client::new("http://localhost:3000".to_string(), Some("pw".to_string()));
    assert_eq!(c.endpoint(Operation::Publish), "http://localhost:3000/publish");
    assert_eq!(c.endpoint(Operation::Get), "http://localhost:3000/get");
    assert_eq!(c.endpoint(Operation::GetInfo), "http://localhost:3000/get-info");
    assert_eq!(c.endpoint(Operation::List), "http://localhost:3000/list");
    assert_eq!(c.credential(), Some("pw"));
    let c = Client::new("http://registry".to_string(), None);
    assert_eq!(c.credential(), None);
}

#[test]
fn client_operation_decoders() {
    let c = Client::new("http://localhost:3000".to_string(), None);
    let out = c.list(response(text("true"), None, Some(ListOutput { packages: vec!["a".to_string()] }))).unwrap();
    assert_eq!(out.packages, vec!["a"]);
    let r = c.publish(response::<PublishOutput>(text("false"), Some("invalid_encoding"), None));
    assert!(matches!(r, Err(Error::Specific(PublishError::InvalidEncoding))));
    let r = c.get(response(text("false"), Some("internal_error"), None));
    assert!(matches!(r, Err(Error::Specific(GetError::InternalError))));
    let r = c.get_info(response(OkHeader::Missing, None, None));
    assert!(matches!(r, Err(Error::Transport(TransportError::OkHeaderMissing))));
}
