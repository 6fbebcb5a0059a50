//! Actors of a substrate: what may leave them, and how they are reached.

use vstd::prelude::*;
use vstd::string::*;

pub mod egress;
pub mod ingress;
pub mod tcp;

verus! {

/// Why traffic of an actor is refused.
#[derive(Debug)]
pub enum SubstrateError {
    /// It may not leave the actor.
    EgressDenied(String),
    /// It cannot be found out whether it may leave the actor.
    EgressUnavailable(String),
    /// It cannot reach the actor: a status and a text for the client.
    IngressFailed { status: u16, body: String },
}

/// The status codes of gRPC.
#[derive(Debug, Clone, Copy, PartialEq, Eq, Structural)]
pub enum GrpcCode {
    Success,
    Cancelled,
    Unknown,
    InvalidArgument,
    DeadlineExceeded,
    NotFound,
    AlreadyExists,
    PermissionDenied,
    ResourceExhausted,
    FailedPrecondition,
    Aborted,
    OutOfRange,
    Unimplemented,
    Internal,
    Unavailable,
    DataLoss,
    Unauthenticated,
}

/// The name of a status code.
pub open spec fn code_text(code: GrpcCode) -> Seq<char> {
    match code {
        GrpcCode::Success => "Ok"@,
        GrpcCode::Cancelled => "Cancelled"@,
        GrpcCode::Unknown => "Unknown"@,
        GrpcCode::InvalidArgument => "InvalidArgument"@,
        GrpcCode::DeadlineExceeded => "DeadlineExceeded"@,
        GrpcCode::NotFound => "NotFound"@,
        GrpcCode::AlreadyExists => "AlreadyExists"@,
        GrpcCode::PermissionDenied => "PermissionDenied"@,
        GrpcCode::ResourceExhausted => "ResourceExhausted"@,
        GrpcCode::FailedPrecondition => "FailedPrecondition"@,
        GrpcCode::Aborted => "Aborted"@,
        GrpcCode::OutOfRange => "OutOfRange"@,
        GrpcCode::Unimplemented => "Unimplemented"@,
        GrpcCode::Internal => "Internal"@,
        GrpcCode::Unavailable => "Unavailable"@,
        GrpcCode::DataLoss => "DataLoss"@,
        GrpcCode::Unauthenticated => "Unauthenticated"@,
    }
}

impl GrpcCode {
    /// The name of this status code.
    pub fn name(self) -> (r: &'static str)
        ensures
            r@ == code_text(self),
    {
        match self {
            GrpcCode::Success => "Ok",
            GrpcCode::Cancelled => "Cancelled",
            GrpcCode::Unknown => "Unknown",
            GrpcCode::InvalidArgument => "InvalidArgument",
            GrpcCode::DeadlineExceeded => "DeadlineExceeded",
            GrpcCode::NotFound => "NotFound",
            GrpcCode::AlreadyExists => "AlreadyExists",
            GrpcCode::PermissionDenied => "PermissionDenied",
            GrpcCode::ResourceExhausted => "ResourceExhausted",
            GrpcCode::FailedPrecondition => "FailedPrecondition",
            GrpcCode::Aborted => "Aborted",
            GrpcCode::OutOfRange => "OutOfRange",
            GrpcCode::Unimplemented => "Unimplemented",
            GrpcCode::Internal => "Internal",
            GrpcCode::Unavailable => "Unavailable",
            GrpcCode::DataLoss => "DataLoss",
            GrpcCode::Unauthenticated => "Unauthenticated",
        }
    }
}

/// Which actor is meant.
#[derive(Debug)]
pub struct ActorRef {
    pub atespace: String,
    pub name: String,
}

/// The host of an authority (`host`, `host:port`, `user@host`), or what is wrong with it.
pub uninterp spec fn authority_host(text: Seq<char>) -> Result<Seq<char>, Seq<char>>;

/// Reads an authority and takes its host (`str::parse` into the `Authority` of the `http` crate,
/// and `Authority::host`).
///
/// Trusted: the host, or the text of the error, depends on the authority alone.
#[verifier::external_body]
pub(crate) fn parse_authority(text: &str) -> (r: Result<String, String>)
    ensures
        match r {
            Ok(host) => authority_host(text@) == Ok::<Seq<char>, Seq<char>>(host@),
            Err(e) => authority_host(text@) == Err::<Seq<char>, Seq<char>>(e@),
        },
{
    match text.parse::<http::uri::Authority>() {
        Ok(authority) => Ok(authority.host().to_owned()),
        Err(e) => Err(e.to_string()),
    }
}

} // verus!
