//! The reply to each request, decided from the outcome of its operation:
//! the status to answer with, the message, and the payload. The payload is
//! passed through as it is, whatever its type.

use crate::models::api_models::ApiResponse;
use crate::models::errors::MyError;
use vstd::prelude::*;

verus! {

/// The request succeeded.
pub const STATUS_OK: u16 = 200;

/// The request asks for something the lifecycle does not allow.
pub const STATUS_BAD_REQUEST: u16 = 400;

/// The license asked for does not exist.
pub const STATUS_NOT_FOUND: u16 = 404;

/// The request failed for a reason that is not the caller's.
pub const STATUS_INTERNAL_SERVER_ERROR: u16 = 500;

/// A status together with the envelope sent under it.
#[derive(Debug, PartialEq, Eq)]
pub struct Reply<T> {
    pub status: u16,
    pub body: ApiResponse<T>,
}

impl<T> Reply<T> {
    /// Whether the reply carries `status`, the message `msg` and the
    /// payload `data`.
    pub open spec fn carries(self, status: u16, msg: Seq<char>, data: Option<T>) -> bool {
        &&& self.status == status
        &&& self.body.msg is Some
        &&& self.body.msg->Some_0@ == msg
        &&& self.body.data == data
    }
}

/// The status and message for a renewal that failed.
pub open spec fn renew_failure(e: MyError) -> (u16, Seq<char>) {
    match e {
        MyError::LicenseNotActivated => (
            STATUS_INTERNAL_SERVER_ERROR,
            "License hasn't been activated yet"@,
        ),
        MyError::DatabaseError => (STATUS_INTERNAL_SERVER_ERROR, "Database error"@),
        MyError::LicenseExpired => (STATUS_BAD_REQUEST, "License expired. Can not renew"@),
        MyError::LicenseNotFound => (STATUS_NOT_FOUND, "License not found"@),
        _ => (STATUS_INTERNAL_SERVER_ERROR, "Internal error"@),
    }
}

/// The status and message for a removal that failed.
pub open spec fn delete_failure(e: MyError) -> (u16, Seq<char>) {
    match e {
        MyError::LicenseDoesNotExist => (STATUS_BAD_REQUEST, "License does not exist"@),
        MyError::DatabaseError => (STATUS_INTERNAL_SERVER_ERROR, "Database error"@),
        _ => (STATUS_INTERNAL_SERVER_ERROR, "Not found"@),
    }
}

/// The status and message for an activation that failed.
pub open spec fn activate_failure(e: MyError) -> (u16, Seq<char>) {
    match e {
        MyError::InvalidDuration => (
            STATUS_BAD_REQUEST,
            "Invalid duration. It should be greater than 0"@,
        ),
        MyError::LicenseAlreadyActive => (
            STATUS_BAD_REQUEST,
            "License has already been activated"@,
        ),
        MyError::LicenseNotFound => (STATUS_NOT_FOUND, "License not found"@),
        MyError::DatabaseError => (STATUS_INTERNAL_SERVER_ERROR, "Database error"@),
        _ => (STATUS_INTERNAL_SERVER_ERROR, "Internal Error Happened"@),
    }
}

fn reply<T>(status: u16, msg: &str, data: Option<T>) -> (out: Reply<T>)
    ensures
        out.carries(status, msg@, data),
{
    Reply { status, body: ApiResponse { msg: Some(msg.to_owned()), data } }
}

/// The reply to a lookup: the record, or an internal error whatever went
/// wrong.
pub fn get_license<T>(outcome: Result<T, MyError>) -> (out: Reply<T>)
    ensures
        match outcome {
            Ok(record) => out.carries(STATUS_OK, "success"@, Some(record)),
            Err(_) => out.carries(STATUS_INTERNAL_SERVER_ERROR, "Not found"@, None),
        },
{
    match outcome {
        Ok(record) => reply(STATUS_OK, "success", Some(record)),
        Err(_) => reply(STATUS_INTERNAL_SERVER_ERROR, "Not found", None),
    }
}

/// The reply to a creation: the record as stored, or an internal error.
pub fn add_license<T>(outcome: Result<T, MyError>) -> (out: Reply<T>)
    ensures
        match outcome {
            Ok(record) => out.carries(STATUS_OK, "Successfully inserted"@, Some(record)),
            Err(_) => out.carries(
                STATUS_INTERNAL_SERVER_ERROR,
                "Error happened when inserting data"@,
                None,
            ),
        },
{
    match outcome {
        Ok(record) => reply(STATUS_OK, "Successfully inserted", Some(record)),
        Err(_) => reply(STATUS_INTERNAL_SERVER_ERROR, "Error happened when inserting data", None),
    }
}

/// The reply to a renewal. A license past its grace window is the caller's
/// mistake, an absent one is not found, and everything else is an internal
/// error.
pub fn renew_license<T>(outcome: Result<T, MyError>) -> (out: Reply<T>)
    ensures
        match outcome {
            Ok(done) => out.carries(STATUS_OK, "Success"@, Some(done)),
            Err(e) => out.carries(renew_failure(e).0, renew_failure(e).1, None),
        },
{
    match outcome {
        Ok(done) => reply(STATUS_OK, "Success", Some(done)),
        Err(MyError::LicenseNotActivated) => reply(
            STATUS_INTERNAL_SERVER_ERROR,
            "License hasn't been activated yet",
            None,
        ),
        Err(MyError::DatabaseError) => reply(STATUS_INTERNAL_SERVER_ERROR, "Database error", None),
        Err(MyError::LicenseExpired) => reply(
            STATUS_BAD_REQUEST,
            "License expired. Can not renew",
            None,
        ),
        Err(MyError::LicenseNotFound) => reply(STATUS_NOT_FOUND, "License not found", None),
        Err(_) => reply(STATUS_INTERNAL_SERVER_ERROR, "Internal error", None),
    }
}

/// The reply to a removal. An absent license is the caller's mistake;
/// everything else is an internal error.
pub fn delete_license<T>(outcome: Result<T, MyError>) -> (out: Reply<T>)
    ensures
        match outcome {
            Ok(done) => out.carries(STATUS_OK, "Success"@, Some(done)),
            Err(e) => out.carries(delete_failure(e).0, delete_failure(e).1, None),
        },
{
    match outcome {
        Ok(done) => reply(STATUS_OK, "Success", Some(done)),
        Err(MyError::LicenseDoesNotExist) => reply(
            STATUS_BAD_REQUEST,
            "License does not exist",
            None,
        ),
        Err(MyError::DatabaseError) => reply(STATUS_INTERNAL_SERVER_ERROR, "Database error", None),
        Err(_) => reply(STATUS_INTERNAL_SERVER_ERROR, "Not found", None),
    }
}

/// The reply to a listing: the records, or an internal error where the
/// store could not be asked at all.
pub fn get_all_licenses<T, E>(outcome: Result<T, E>) -> (out: Reply<T>)
    ensures
        match outcome {
            Ok(records) => out.carries(STATUS_OK, "success"@, Some(records)),
            Err(_) => out.carries(STATUS_INTERNAL_SERVER_ERROR, "Not found"@, None),
        },
{
    match outcome {
        Ok(records) => reply(STATUS_OK, "success", Some(records)),
        Err(_) => reply(STATUS_INTERNAL_SERVER_ERROR, "Not found", None),
    }
}

/// The reply to an activation. A bad day count and a license that is
/// already active are the caller's mistakes, an absent license is not
/// found, and everything else is an internal error.
pub fn activate<T>(outcome: Result<T, MyError>) -> (out: Reply<T>)
    ensures
        match outcome {
            Ok(done) => out.carries(STATUS_OK, "Success"@, Some(done)),
            Err(e) => out.carries(activate_failure(e).0, activate_failure(e).1, None),
        },
{
    match outcome {
        Ok(done) => reply(STATUS_OK, "Success", Some(done)),
        Err(MyError::InvalidDuration) => reply(
            STATUS_BAD_REQUEST,
            "Invalid duration. It should be greater than 0",
            None,
        ),
        Err(MyError::LicenseAlreadyActive) => reply(
            STATUS_BAD_REQUEST,
            "License has already been activated",
            None,
        ),
        Err(MyError::LicenseNotFound) => reply(STATUS_NOT_FOUND, "License not found", None),
        Err(MyError::DatabaseError) => reply(STATUS_INTERNAL_SERVER_ERROR, "Database error", None),
        Err(_) => reply(STATUS_INTERNAL_SERVER_ERROR, "Internal Error Happened", None),
    }
}

} // verus!
