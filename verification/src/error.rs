//! The errors that a request is answered with.

use vstd::prelude::*;

use crate::text::{decimal, decimal_string, has_block_hash_form, is_block_hash};

verus! {

/// The request was answered.
pub const OK: u16 = 200;

/// The request is malformed.
pub const BAD_REQUEST: u16 = 400;

/// There is no such block, or none yet.
pub const NOT_FOUND: u16 = 404;

/// The service failed.
pub const INTERNAL_SERVER_ERROR: u16 = 500;

/// The service that this one asks failed.
pub const BAD_GATEWAY: u16 = 502;

/// An error reply: a status code and a message.
#[derive(Debug)]
pub struct AppError {
    pub status: u16,
    pub message: String,
}

/// What an error reply says.
pub struct ErrorView {
    pub status: u16,
    pub message: Seq<char>,
}

impl View for AppError {
    type V = ErrorView;

    open spec fn view(&self) -> ErrorView {
        ErrorView { status: self.status, message: self.message@ }
    }
}

/// The reply where a database query failed.
pub open spec fn db_error() -> ErrorView {
    ErrorView { status: INTERNAL_SERVER_ERROR, message: "database query failed"@ }
}

/// The reply where the indexer could not be reached or understood.
pub open spec fn transport_error() -> ErrorView {
    ErrorView { status: BAD_GATEWAY, message: "upstream request failed"@ }
}

/// The reply where an upstream could not be reached or understood, with the reason.
pub open spec fn detailed_transport_error(detail: Seq<char>) -> ErrorView {
    ErrorView { status: BAD_GATEWAY, message: "upstream request failed: "@ + detail }
}

/// The reply where an upstream answered with an error of its own.
pub open spec fn status_error(status: u16) -> ErrorView {
    ErrorView {
        status: BAD_GATEWAY,
        message: "upstream returned status "@ + decimal(status as nat),
    }
}

/// The reply where a block is unknown.
pub open spec fn unknown_block_error(height: u64) -> ErrorView {
    ErrorView { status: NOT_FOUND, message: "block "@ + decimal(height as nat) + " not found"@ }
}

/// The reply where a block's bitmap is not stored.
pub open spec fn unseeded_block_error(height: u64) -> ErrorView {
    ErrorView {
        status: NOT_FOUND,
        message: "block "@ + decimal(height as nat) + " not found or not yet seeded"@,
    }
}

/// The reply where a text is no block hash.
pub open spec fn hash_format_error() -> ErrorView {
    ErrorView { status: BAD_REQUEST, message: "invalid block hash format"@ }
}

/// The reply where an image could not be encoded.
pub open spec fn image_error() -> ErrorView {
    ErrorView { status: INTERNAL_SERVER_ERROR, message: "failed to generate image"@ }
}

/// Whether a status code stands for success.
pub open spec fn is_success(status: u16) -> bool {
    200 <= status < 300
}

impl AppError {
    /// A database query failed.
    pub fn db() -> (r: AppError)
        ensures
            r@ == db_error(),
    {
        AppError { status: INTERNAL_SERVER_ERROR, message: "database query failed".to_owned() }
    }

    /// The indexer could not be reached or understood.
    pub fn upstream_transport() -> (r: AppError)
        ensures
            r@ == transport_error(),
    {
        AppError { status: BAD_GATEWAY, message: "upstream request failed".to_owned() }
    }

    /// An upstream could not be reached or understood, for the reason given.
    pub fn upstream_transport_detailed(detail: &str) -> (r: AppError)
        ensures
            r@ == detailed_transport_error(detail@),
    {
        let mut message: String = "upstream request failed: ".to_owned();
        message.append(detail);
        AppError { status: BAD_GATEWAY, message }
    }

    /// An upstream answered with the given status code.
    pub fn upstream_status(status: u16) -> (r: AppError)
        ensures
            r@ == status_error(status),
    {
        let mut message: String = "upstream returned status ".to_owned();
        message.append(decimal_string(status as u64).as_str());
        AppError { status: BAD_GATEWAY, message }
    }

    /// There is no such block.
    pub fn unknown_block(height: u64) -> (r: AppError)
        ensures
            r@ == unknown_block_error(height),
    {
        let mut message: String = "block ".to_owned();
        message.append(decimal_string(height).as_str());
        message.append(" not found");
        AppError { status: NOT_FOUND, message }
    }

    /// The bitmap of a block is not stored.
    pub fn unseeded_block(height: u64) -> (r: AppError)
        ensures
            r@ == unseeded_block_error(height),
    {
        let mut message: String = "block ".to_owned();
        message.append(decimal_string(height).as_str());
        message.append(" not found or not yet seeded");
        AppError { status: NOT_FOUND, message }
    }

    /// A text is no block hash.
    pub fn hash_format() -> (r: AppError)
        ensures
            r@ == hash_format_error(),
    {
        AppError { status: BAD_REQUEST, message: "invalid block hash format".to_owned() }
    }

    /// An image could not be encoded.
    pub fn image() -> (r: AppError)
        ensures
            r@ == image_error(),
    {
        AppError { status: INTERNAL_SERVER_ERROR, message: "failed to generate image".to_owned() }
    }
}

/// Passes an upstream's answer on only where its status code stands for success.
pub fn check_status(status: u16) -> (r: Result<(), AppError>)
    ensures
        r is Ok <==> is_success(status),
        r matches Err(e) ==> e@ == status_error(status),
{
    if 200 <= status && status < 300 {
        Ok(())
    } else {
        Err(AppError::upstream_status(status))
    }
}

/// Lets a text through only where it has the form of a block hash.
pub fn check_block_hash(hash: &str) -> (r: Result<(), AppError>)
    ensures
        r is Ok <==> is_block_hash(hash@),
        r matches Err(e) ==> e@ == hash_format_error(),
{
    if has_block_hash_form(hash) {
        Ok(())
    } else {
        Err(AppError::hash_format())
    }
}

/// Whatever an upstream answers with, its failures reach the caller as a bad gateway that names
/// the upstream's status code: two codes never give the same message.
pub proof fn law_status_messages_differ(a: u16, b: u16)
    requires
        status_error(a) == status_error(b),
    ensures
        a == b,
{
    crate::text::law_decimal_round_trip(a as nat);
    crate::text::law_decimal_round_trip(b as nat);
    let p = "upstream returned status "@;
    let n = p.len() as int;
    assert((p + decimal(a as nat)).skip(n) =~= decimal(a as nat));
    assert((p + decimal(b as nat)).skip(n) =~= decimal(b as nat));
}

/// Success is a status code in the two hundreds.
pub proof fn law_success(status: u16)
    ensures
        is_success(status) <==> status / 100 == 2,
{
}

/// An error is described by its status code and its message.
pub proof fn law_error_view(error: AppError)
    ensures
        error@.status == error.status,
        error@.message == error.message@,
{
}

/// What each failure is replied with: a status code that says whose fault it is, and a message
/// that names the block or the upstream's status code in full.
pub proof fn law_error_replies(height: u64, status: u16, detail: Seq<char>)
    ensures
        db_error().status == 500 && db_error().message == "database query failed"@,
        image_error().status == 500 && image_error().message == "failed to generate image"@,
        transport_error().status == 502 && transport_error().message
            == "upstream request failed"@,
        detailed_transport_error(detail).status == 502 && detailed_transport_error(detail).message
            == "upstream request failed: "@ + detail,
        status_error(status).status == 502 && status_error(status).message
            == "upstream returned status "@ + decimal(status as nat),
        unknown_block_error(height).status == 404 && unknown_block_error(height).message
            == "block "@ + decimal(height as nat) + " not found"@,
        unseeded_block_error(height).status == 404 && unseeded_block_error(height).message
            == "block "@ + decimal(height as nat) + " not found or not yet seeded"@,
        hash_format_error().status == 400 && hash_format_error().message
            == "invalid block hash format"@,
{
}

} // verus!
