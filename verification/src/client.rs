//! Decisions of the two-call remote compression protocol.
//!
//! One job is compressed by submitting the file bytes to the service and,
//! on a `201 Created` answer, fetching the compressed bytes from the URL
//! named by the response's location header.  The calls themselves are
//! plain I/O and live outside this library; the functions here take the
//! observed status, header and body as plain values and decide, exactly,
//! between the next step and each typed error.

use vstd::prelude::*;

verus! {

use crate::errors::TinyPngError;
use vstd::string::StrSliceExecFns;
use vstd::string::StringExecFns;

/// Where a user registers an API key.
pub const REGISTER_URL: &'static str = "https://tinypng.com/developers";

/// The submission endpoint of the compression service.
pub const API_URL: &'static str = "https://api.tinify.com/shrink";

/// The client's share of the protocol state: the credential used to
/// authenticate submissions.
pub struct TinyPng {
    pub key: String,
}

impl TinyPng {
    /// Holds an API key for the lifetime of the batch.
    pub fn new(key: String) -> (client: Self)
        ensures
            client.key@ == key@,
    {
        TinyPng { key }
    }

    /// The stored credential, used as the password of the upload request.
    pub fn api_key(&self) -> (key: &str)
        ensures
            key@ == self.key@,
    {
        self.key.as_str()
    }
}

/// Whether a credential has the required 32-character length.
pub fn valid_key_length(key: &str) -> (valid: bool)
    ensures
        valid == (key@.len() == 32),
{
    key.unicode_len() == 32
}

/// Whether a header byte is readable as text: visible ASCII or tab,
/// the rule the HTTP layer applies when turning a header into a string.
pub open spec fn spec_header_text_byte(b: u8) -> bool {
    (32 <= b && b < 127) || b == 9
}

/// Whether every byte of a header value is readable as text.
pub open spec fn spec_header_text(bytes: Seq<u8>) -> bool {
    forall|k: int| 0 <= k < bytes.len() ==> spec_header_text_byte(bytes[k])
}

/// Checks that every byte of a header value is readable as text.
pub fn header_text_valid(bytes: &Vec<u8>) -> (valid: bool)
    ensures
        valid == spec_header_text(bytes@),
{
    let mut k: usize = 0;
    while k < bytes.len()
        invariant
            k <= bytes@.len(),
            forall|j: int| 0 <= j < k ==> spec_header_text_byte(bytes@[j]),
        decreases bytes@.len() - k,
    {
        let b: u8 = bytes[k];
        if !((32 <= b && b < 127) || b == 9) {
            return false;
        }
        k = k + 1;
    }
    true
}

/// Decides what follows the submission call.  A `201 Created` with a
/// readable location header yields the result URL (as its bytes); any
/// other status is a service error carrying the response body text; a
/// missing or unreadable location header is a protocol error.
pub fn handle_submit_response(status: u16, location: Option<Vec<u8>>, body: String) -> (r: Result<
    Vec<u8>,
    TinyPngError,
>)
    ensures
        status != 201 ==> (r matches Err(TinyPngError::Service { status: st, body: b }) && st
            == status && b@ == body@),
        status == 201 && location is None ==> (r matches Err(TinyPngError::Protocol(reason))
            && reason@ == ("location header not found")@),
        status == 201 ==> (location matches Some(loc) ==> ((!spec_header_text(loc@) ==> (r matches
            Err(TinyPngError::Protocol(reason)) && reason@ == (
        "location header not valid text")@)) && (spec_header_text(loc@) ==> (r matches Ok(url)
            && url@ == loc@)))),
{
    if status != 201 {
        return Err(TinyPngError::Service { status, body });
    }
    match location {
        None => Err(TinyPngError::Protocol(String::from_str("location header not found"))),
        Some(loc) => {
            if header_text_valid(&loc) {
                Ok(loc)
            } else {
                Err(TinyPngError::Protocol(String::from_str("location header not valid text")))
            }
        },
    }
}

/// Decides what follows the fetch of the result URL.  A `200 OK` yields
/// the compressed size, the length of the fetched bytes; any other status
/// is a service error carrying the response body text.
pub fn handle_fetch_response(status: u16, body_len: u64, error_body: String) -> (r: Result<
    u64,
    TinyPngError,
>)
    ensures
        status == 200 ==> (r matches Ok(n) && n == body_len),
        status != 200 ==> (r matches Err(TinyPngError::Service { status: st, body: b }) && st
            == status && b@ == error_body@),
{
    if status == 200 {
        Ok(body_len)
    } else {
        Err(TinyPngError::Service { status, body: error_body })
    }
}

} // verus!
