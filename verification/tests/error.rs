use cf_zt_cleaner::error::{Error, RequestFailure};

fn request(timeout: bool, connect: bool) -> Error {
    Error::Request(RequestFailure { description: "x".into(), timeout, connect })
}

#[test]
fn transient_errors_are_retryable() {
    assert!(Error::RateLimited.is_retryable());
    assert!(request(true, false).is_retryable());
    assert!(request(false, true).is_retryable());
}

#[test]
fn other_errors_are_not_retryable() {
    assert!(!request(false, false).is_retryable());
    assert!(!Error::CloudFlareUnsuccessful.is_retryable());
    assert!(!Error::CloudFlareApi { code: 10015, message: "x".into() }.is_retryable());
    assert!(!Error::MissingCredential("api_token".into()).is_retryable());
    assert!(!Error::Config("bad".into()).is_retryable());
    assert!(!Error::Io("gone".into()).is_retryable());
}
