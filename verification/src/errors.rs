//! Error surfaces of the ingestion and delivery services.

use vstd::prelude::*;

verus! {

/// Errors of the ingestion service, answered as HTTP 500 with a
/// `{messages: ...}` body.
#[derive(Debug, PartialEq, Eq)]
pub enum NotiSrvError {
    DatabaseError,
    MissingEnvError,
    RedisQueuePushError,
    /// A request field failed validation; carries the human-readable reason.
    InvalidDataField(String),
}

pub open spec fn spec_srv_error_message(e: NotiSrvError) -> Seq<char> {
    match e {
        NotiSrvError::DatabaseError => "Database query failed"@,
        NotiSrvError::MissingEnvError => "Env must be set"@,
        NotiSrvError::RedisQueuePushError => "Redis push failed"@,
        NotiSrvError::InvalidDataField(m) => m@,
    }
}

impl NotiSrvError {
    /// The human-readable text placed in the `messages` body.
    pub fn message(&self) -> (r: &str)
        ensures
            r@ == spec_srv_error_message(*self),
    {
        match self {
            NotiSrvError::DatabaseError => "Database query failed",
            NotiSrvError::MissingEnvError => "Env must be set",
            NotiSrvError::RedisQueuePushError => "Redis push failed",
            NotiSrvError::InvalidDataField(m) => m.as_str(),
        }
    }
}

/// Errors of the delivery service.
#[derive(Clone, Copy, Debug, PartialEq, Eq, Structural)]
pub enum NotiDeliverError {
    DatabaseError,
    MissingEnvError,
    RedisConnectionError,
    RedisQueuePopError,
    /// A looked-up value was absent, such as a channel with no worker.
    NoneValue,
    /// A payload or descriptor did not have the expected shape.
    JsonParseError,
    /// The outbound request could not be sent at all.
    RequestError,
    GCPAuthError,
    /// The provider answered with a non-success status.
    RequestFailed,
}

pub open spec fn spec_deliver_error_message(e: NotiDeliverError) -> Seq<char> {
    match e {
        NotiDeliverError::DatabaseError => "Database query failed"@,
        NotiDeliverError::MissingEnvError => "Env must be set"@,
        NotiDeliverError::RedisConnectionError => "Redis connect failed"@,
        NotiDeliverError::RedisQueuePopError => "Redis pop failed"@,
        NotiDeliverError::NoneValue => "None value"@,
        NotiDeliverError::JsonParseError => "Cannot parse this object"@,
        NotiDeliverError::RequestError => "Cannot send request"@,
        NotiDeliverError::GCPAuthError => "Google cloud platform authentication"@,
        NotiDeliverError::RequestFailed => "Request failed"@,
    }
}

impl NotiDeliverError {
    /// The human-readable text used in logs and HTTP error bodies.
    pub fn message(&self) -> (r: &str)
        ensures
            r@ == spec_deliver_error_message(*self),
    {
        match self {
            NotiDeliverError::DatabaseError => "Database query failed",
            NotiDeliverError::MissingEnvError => "Env must be set",
            NotiDeliverError::RedisConnectionError => "Redis connect failed",
            NotiDeliverError::RedisQueuePopError => "Redis pop failed",
            NotiDeliverError::NoneValue => "None value",
            NotiDeliverError::JsonParseError => "Cannot parse this object",
            NotiDeliverError::RequestError => "Cannot send request",
            NotiDeliverError::GCPAuthError => "Google cloud platform authentication",
            NotiDeliverError::RequestFailed => "Request failed",
        }
    }
}

} // verus!
