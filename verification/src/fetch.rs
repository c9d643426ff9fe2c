//! What a remote asset read answers: how the HTTP status of a response, a
//! failed request or a failed body read becomes the reader's result.

use vstd::prelude::*;

use crate::decimal::{all_digits, decimal, digits_value, law_zero_padded_value, push_decimal};
use crate::uri::WebAssetReader;

verus! {

/// Why reading a remote asset failed.
#[derive(PartialEq, Eq, Debug)]
pub enum FetchError {
    /// Nothing was found at the given location.
    NotFound(String),
    /// The transfer failed; the text says why.
    Io(String),
}

/// What to do once the status of a response is known.
#[derive(PartialEq, Eq, Debug)]
pub enum StatusOutcome {
    /// The response is `200 OK`: read its body.
    ReadBody,
    /// The read fails with this error.
    Fail(FetchError),
}

/// The text of an error for an unexpected status code.
pub open spec fn unexpected_status_text(code: u16, location: Seq<char>) -> Seq<char> {
    "unexpected status code "@ + decimal(code as nat) + " while loading "@ + location
}

/// The text of an error for a request that failed with a status code and
/// an underlying reason.
pub open spec fn failed_request_text(code: u16, location: Seq<char>, reason: Seq<char>) -> Seq<char> {
    unexpected_status_text(code, location) + ": "@ + reason
}

/// The message for an unexpected status names both: it is `unexpected
/// status code `, the digits of the code, ` while loading ` and then the
/// location itself.
pub proof fn law_status_message_parts(code: u16, location: Seq<char>)
    ensures
        ({
            let m = unexpected_status_text(code, location);
            let k = m.len() - location.len() - 15;
            let digits = m.subrange(23, k);
            &&& 23 < k
            &&& m.subrange(0, 23) == seq![
                'u', 'n', 'e', 'x', 'p', 'e', 'c', 't', 'e', 'd', ' ', 's', 't', 'a', 't', 'u', 's',
                ' ', 'c', 'o', 'd', 'e', ' ',
            ]
            &&& all_digits(digits)
            &&& digits_value(digits) == code
            &&& m.subrange(k, k + 15) == seq![
                ' ', 'w', 'h', 'i', 'l', 'e', ' ', 'l', 'o', 'a', 'd', 'i', 'n', 'g', ' ',
            ]
            &&& m.subrange(k + 15, m.len() as int) == location
        }),
{
    reveal_strlit("unexpected status code ");
    reveal_strlit(" while loading ");
    law_zero_padded_value(code as nat, 0);
    let d = decimal(code as nat);
    assert(crate::decimal::zero_padded(code as nat, 0) == d);
    let pre = seq![
        'u', 'n', 'e', 'x', 'p', 'e', 'c', 't', 'e', 'd', ' ', 's', 't', 'a', 't', 'u', 's',
        ' ', 'c', 'o', 'd', 'e', ' ',
    ];
    let mid = seq![' ', 'w', 'h', 'i', 'l', 'e', ' ', 'l', 'o', 'a', 'd', 'i', 'n', 'g', ' '];
    assert("unexpected status code "@ =~= pre);
    assert(" while loading "@ =~= mid);
    let m = unexpected_status_text(code, location);
    assert(m =~= pre + d + mid + location);
    let k = m.len() - location.len() - 15;
    assert(d.subrange(0, d.len() as int) =~= d);
    assert(m.subrange(0, 23) =~= pre);
    assert(m.subrange(23, k) =~= d);
    assert(m.subrange(k, k + 15) =~= mid);
    assert(m.subrange(k + 15, m.len() as int) =~= location);
}

/// The message for a response with an unexpected status code:
/// `unexpected status code {code} while loading {location}`.
pub fn unexpected_status_message(code: u16, location: &str) -> (m: String)
    ensures
        m@ == unexpected_status_text(code, location@),
{
    let mut m = "unexpected status code ".to_owned();
    push_decimal(&mut m, code as u64);
    m.append(" while loading ");
    m.append(location);
    m
}

/// The error for a request that could not be completed: its status code,
/// the location and the reason, as
/// `unexpected status code {code} while loading {location}: {reason}`.
pub fn failed_request_error(code: u16, location: &str, reason: &str) -> (e: FetchError)
    ensures
        e matches FetchError::Io(m) && m@ == failed_request_text(code, location@, reason@),
{
    let mut m = unexpected_status_message(code, location);
    m.append(": ");
    m.append(reason);
    FetchError::Io(m)
}

/// The decision on a response's status: `200` reads the body, `404` is
/// "not found" at the location, any other code is a transfer error that
/// names the code and the location.
pub fn response_status_outcome(code: u16, location: &str) -> (o: StatusOutcome)
    ensures
        code == 200 ==> o == StatusOutcome::ReadBody,
        code == 404 ==> (o matches StatusOutcome::Fail(FetchError::NotFound(p)) && p@ == location@),
        code != 200 && code != 404 ==> (o matches StatusOutcome::Fail(FetchError::Io(m))
            && m@ == unexpected_status_text(code, location@)),
{
    if code == 200 {
        StatusOutcome::ReadBody
    } else if code == 404 {
        StatusOutcome::Fail(FetchError::NotFound(location.to_owned()))
    } else {
        StatusOutcome::Fail(FetchError::Io(unexpected_status_message(code, location)))
    }
}

/// The result of reading a body: the bytes when they arrived, else
/// "not found" at the location.
pub fn body_outcome(body: Option<Vec<u8>>, location: &str) -> (r: Result<Vec<u8>, FetchError>)
    ensures
        body matches Some(b) ==> r == Ok::<Vec<u8>, FetchError>(b),
        body is None ==> (r matches Err(FetchError::NotFound(p)) && p@ == location@),
{
    match body {
        Some(b) => Ok(b),
        None => Err(FetchError::NotFound(location.to_owned())),
    }
}

impl WebAssetReader {
    /// A remote location is never a directory.
    pub fn is_directory(&self, path: &str) -> (r: bool)
        ensures
            !r,
    {
        false
    }

    /// Listing a remote directory always fails with "not found" at the
    /// location of `path`.
    pub fn read_directory(&self, path: &str) -> (e: FetchError)
        ensures
            e matches FetchError::NotFound(p) && p@ == self.uri_of(path@),
    {
        FetchError::NotFound(self.make_uri(path))
    }
}

} // verus!
