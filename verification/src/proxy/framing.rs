//! How much body a request carries: reading the `Content-Length` header,
//! holding it against the cap, and following the body as it arrives.

use crate::numerals::{is_numeral, parse_unsigned, value_of};
use crate::proxy::connection::RequestError;
use vstd::prelude::*;

verus! {

/// The body length that a request declares. A request without the header
/// has no body. A header that is no decimal number, or a number too large
/// to count with, is invalid; a number above `max_body_size` is too large.
pub open spec fn declared_length(content_length: Option<Seq<u8>>, max_body_size: usize) -> Result<
    usize,
    RequestError,
> {
    match content_length {
        None => Ok(0),
        Some(value) => if !is_numeral(value, 10) || value_of(value, 10) > usize::MAX {
            Err(RequestError::InvalidContentLength)
        } else if value_of(value, 10) > max_body_size {
            Err(RequestError::RequestBodyTooLarge)
        } else {
            Ok(value_of(value, 10) as usize)
        },
    }
}

/// The body received so far after `chunk` more bytes came in. A read of no
/// bytes means that the stream ended before the body was whole; more bytes
/// than were declared is a mismatch as well.
pub open spec fn body_after(received: usize, chunk: usize, declared: usize) -> Result<
    usize,
    RequestError,
> {
    if chunk == 0 || received + chunk > declared {
        Err(RequestError::ContentLengthMismatch)
    } else {
        Ok((received + chunk) as usize)
    }
}

/// Reads the `Content-Length` header's value, `None` where the request has
/// no such header, and holds it against the cap.
pub fn declared_body_length(content_length: Option<&[u8]>, max_body_size: usize) -> (r: Result<
    usize,
    RequestError,
>)
    ensures
        r == declared_length(
            match content_length {
                Some(value) => Some(value@),
                None => None,
            },
            max_body_size,
        ),
{
    match content_length {
        None => Ok(0),
        Some(value) => match parse_unsigned(value, 10) {
            None => Err(RequestError::InvalidContentLength),
            Some(length) => if length > max_body_size {
                Err(RequestError::RequestBodyTooLarge)
            } else {
                Ok(length)
            },
        },
    }
}

/// Counts `chunk` more bytes of body towards the `declared` length.
pub fn body_received(received: usize, chunk: usize, declared: usize) -> (r: Result<
    usize,
    RequestError,
>)
    ensures
        r == body_after(received, chunk, declared),
{
    if chunk == 0 || received > declared || chunk > declared - received {
        Err(RequestError::ContentLengthMismatch)
    } else {
        Ok(received + chunk)
    }
}

/// Whether a response carries a body: every response does, but for one
/// that answers a `HEAD` request and those with a status below 200, with
/// 204 (no content) or with 304 (not modified).
pub fn response_has_body(answers_head: bool, status: u16) -> (r: bool)
    ensures
        r == !(answers_head || status < 200 || status == 204 || status == 304),
{
    !(answers_head || status < 200 || status == 204 || status == 304)
}

} // verus!
