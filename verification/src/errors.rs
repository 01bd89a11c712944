//! The error taxonomy: client-input failures answer 400, service-side
//! failures answer 500, and every failure body is one fixed text.

use vstd::prelude::*;

verus! {

/// A service-side failure, answered with HTTP status 500.
#[derive(Debug)]
pub struct ServiceError {
    msg: String,
}

impl ServiceError {
    /// The logged detail message.
    pub closed spec fn msg_seq(&self) -> Seq<char> {
        self.msg@
    }

    pub fn new(msg: &str) -> (r: ServiceError)
        ensures
            r.msg_seq() == msg@,
    {
        ServiceError { msg: msg.to_owned() }
    }

    pub fn message(&self) -> (r: &str)
        ensures
            r@ == self.msg_seq(),
    {
        self.msg.as_str()
    }
}

/// A client-input failure, answered with HTTP status 400.
#[derive(Debug)]
pub struct BadRequestError {
    msg: String,
}

impl BadRequestError {
    /// The logged detail message.
    pub closed spec fn msg_seq(&self) -> Seq<char> {
        self.msg@
    }

    pub fn new(msg: &str) -> (r: BadRequestError)
        ensures
            r.msg_seq() == msg@,
    {
        BadRequestError { msg: msg.to_owned() }
    }

    pub fn message(&self) -> (r: &str)
        ensures
            r@ == self.msg_seq(),
    {
        self.msg.as_str()
    }
}

/// Any failure of the request pipeline, tagged with its taxonomy kind.
#[derive(Debug)]
pub enum ShimFailure {
    BadRequest(BadRequestError),
    Service(ServiceError),
}

impl ShimFailure {
    /// The HTTP status class of this failure: 400 for client-input errors,
    /// 500 for service errors.
    pub fn status_code(&self) -> (r: u16)
        ensures
            self is BadRequest ==> r == 400,
            self is Service ==> r == 500,
    {
        match self {
            ShimFailure::BadRequest(_) => 400,
            ShimFailure::Service(_) => 500,
        }
    }

    /// The logged detail message.
    pub fn message(&self) -> (r: &str)
        ensures
            self is BadRequest ==> r@ == self->BadRequest_0.msg_seq(),
            self is Service ==> r@ == self->Service_0.msg_seq(),
    {
        match self {
            ShimFailure::BadRequest(e) => e.message(),
            ShimFailure::Service(e) => e.message(),
        }
    }
}

/// The fixed response body sent for every failure, whatever its kind.
pub fn failure_body() -> (r: String)
    ensures
        r@ == "INTERNAL SERVER ERROR"@,
{
    "INTERNAL SERVER ERROR".to_owned()
}

/// How fetching the legacy package failed.
pub enum FetchFailure {
    /// Creating or writing the local destination failed.
    LocalIo,
    /// The network call itself failed.
    Transport,
}

/// Maps a fetch failure to the taxonomy: a transport failure counts against
/// the request (the legacy package may not exist), a local write failure
/// against the service.
pub fn classify_fetch_failure(f: &FetchFailure) -> (r: ShimFailure)
    ensures
        f is LocalIo ==> r is Service && r->Service_0.msg_seq() == "Can't download v2 buildpack"@,
        f is Transport ==> r is BadRequest && r->BadRequest_0.msg_seq()
            == "Can't download v2 buildpack"@,
{
    match f {
        FetchFailure::LocalIo => ShimFailure::Service(
            ServiceError::new("Can't download v2 buildpack"),
        ),
        FetchFailure::Transport => ShimFailure::BadRequest(
            BadRequestError::new("Can't download v2 buildpack"),
        ),
    }
}

} // verus!
