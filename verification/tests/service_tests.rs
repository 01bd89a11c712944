use cnb_shim::errors::{
    classify_fetch_failure, failure_body, BadRequestError, FetchFailure, ServiceError, ShimFailure,
};
use cnb_shim::health_check;
use cnb_shim::request::{resolve, ShimOptions};
use cnb_shim::shim::{package_filename, registry_url, respond};

#[test]
fn health_always_ok() {
    let (status, body) = health_check();
    assert_eq!(status, 200);
    assert_eq!(body, "health check ok");
}

#[test]
fn client_errors_answer_400() {
    let failure = ShimFailure::BadRequest(BadRequestError::new("invalid buildpack id"));
    assert_eq!(failure.status_code(), 400);
    assert_eq!(failure.message(), "invalid buildpack id");
}

#[test]
fn service_errors_answer_500() {
    let failure = ShimFailure::Service(ServiceError::new("Can't create tmp dir"));
    assert_eq!(failure.status_code(), 500);
    assert_eq!(failure.message(), "Can't create tmp dir");
}

#[test]
fn every_failure_body_is_the_fixed_text() {
    assert_eq!(failure_body(), "INTERNAL SERVER ERROR");
}

#[test]
fn transport_fetch_failure_counts_against_the_request() {
    let failure = classify_fetch_failure(&FetchFailure::Transport);
    assert_eq!(failure.status_code(), 400);
    assert_eq!(failure.message(), "Can't download v2 buildpack");
}

#[test]
fn local_io_fetch_failure_counts_against_the_service() {
    let failure = classify_fetch_failure(&FetchFailure::LocalIo);
    assert_eq!(failure.status_code(), 500);
    assert_eq!(failure.message(), "Can't download v2 buildpack");
}

#[test]
fn registry_url_follows_the_fixed_convention() {
    let no_opts = ShimOptions { version: None, name: None, api: None, stacks: None };
    let req = resolve("my-namespace", "my-name", &no_opts).unwrap();
    assert_eq!(
        registry_url(&req.id),
        "https://buildpack-registry.s3.amazonaws.com/buildpacks/my-namespace/my-name.tgz"
    );
}

#[test]
fn package_filenames_are_fresh_tokens() {
    let a = package_filename();
    let b = package_filename();
    assert_eq!(a.len(), 40);
    assert!(a.ends_with(".tgz"));
    assert!(a[..36].chars().all(|c| c.is_ascii_hexdigit() && !c.is_ascii_uppercase() || c == '-'));
    assert_ne!(a, b);
}

#[test]
fn success_response_envelope() {
    let r = respond("abc.tgz", b"bytes".to_vec());
    assert_eq!(r.status, 200);
    assert_eq!(r.content_type, "application/x-gzip");
    assert_eq!(r.content_disposition, "attachment; filename=\"abc.tgz\"");
    assert_eq!(r.body, b"bytes");
}
