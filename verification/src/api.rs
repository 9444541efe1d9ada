//! The caller-facing boundary: a request names an account, a response carries
//! either the zero-padded code or a human-readable error message for that
//! account. The outer envelope that carries these values between processes is
//! plumbing layered outside the engine.

use vstd::prelude::*;

use crate::oath;
use crate::oath::calculate_fuzzy;
use crate::transport;
use crate::transport::SmartCard;

verus! {

/// One lookup request: the (possibly partial) account name to search for.
#[derive(Debug, PartialEq, Eq)]
pub struct Request {
    pub account: String,
}

/// The outcome reported for one request.
#[derive(Debug, PartialEq, Eq)]
pub enum Response {
    /// The code calculated for the account, zero-padded to at least 6 digits.
    Code { account: String, code: String },
    /// Why no code could be calculated.
    Error { account: String, error: String },
}

/// A failure of one request, with its origin preserved.
#[derive(Clone, Copy, Debug, PartialEq, Eq, Structural)]
pub enum Error {
    /// The request could not be read.
    Read,
    /// The response could not be written.
    Write,
    /// Discovering or opening the token failed.
    Yubikey(transport::Error),
    /// The protocol engine failed.
    Oath(oath::Error),
}

/// The message a response carries for each failure, naming its origin and
/// its kind.
pub open spec fn spec_error_message(e: Error) -> Seq<char> {
    match e {
        Error::Read => "Read"@,
        Error::Write => "Write"@,
        Error::Yubikey(t) => match t {
            transport::Error::NoYubikey => "Yubikey(NoYubikey)"@,
            transport::Error::MoreThanOneYubikey => "Yubikey(MoreThanOneYubikey)"@,
            transport::Error::Connection => "Yubikey(Connection)"@,
            transport::Error::Transmission => "Yubikey(Transmission)"@,
        },
        Error::Oath(o) => match o {
            oath::Error::Yubikey => "Oath(Yubikey)"@,
            oath::Error::NoMatchingCredential => "Oath(NoMatchingCredential)"@,
            oath::Error::TooManyMatchingCredentials => "Oath(TooManyMatchingCredentials)"@,
            oath::Error::AuthRequired => "Oath(AuthRequired)"@,
        },
    }
}

/// Renders a failure as its human-readable message.
pub fn error_message(e: &Error) -> (s: String)
    ensures
        s@ == spec_error_message(*e),
{
    match e {
        Error::Read => "Read".to_owned(),
        Error::Write => "Write".to_owned(),
        Error::Yubikey(t) => match t {
            transport::Error::NoYubikey => "Yubikey(NoYubikey)".to_owned(),
            transport::Error::MoreThanOneYubikey => "Yubikey(MoreThanOneYubikey)".to_owned(),
            transport::Error::Connection => "Yubikey(Connection)".to_owned(),
            transport::Error::Transmission => "Yubikey(Transmission)".to_owned(),
        },
        Error::Oath(o) => match o {
            oath::Error::Yubikey => "Oath(Yubikey)".to_owned(),
            oath::Error::NoMatchingCredential => "Oath(NoMatchingCredential)".to_owned(),
            oath::Error::TooManyMatchingCredentials => "Oath(TooManyMatchingCredentials)".to_owned(
            ),
            oath::Error::AuthRequired => "Oath(AuthRequired)".to_owned(),
        },
    }
}

/// The character of one decimal digit.
pub open spec fn spec_digit_char(d: int) -> char
    recommends
        0 <= d <= 9,
{
    if d == 0 {
        '0'
    } else if d == 1 {
        '1'
    } else if d == 2 {
        '2'
    } else if d == 3 {
        '3'
    } else if d == 4 {
        '4'
    } else if d == 5 {
        '5'
    } else if d == 6 {
        '6'
    } else if d == 7 {
        '7'
    } else if d == 8 {
        '8'
    } else {
        '9'
    }
}

/// The decimal digits of `n`, most significant first, without leading zeros.
pub open spec fn spec_decimal(n: nat) -> Seq<char>
    decreases n,
{
    if n < 10 {
        seq![spec_digit_char(n as int)]
    } else {
        spec_decimal(n / 10) + seq![spec_digit_char((n % 10) as int)]
    }
}

/// The display form of a code: its decimal digits, left-padded with zeros to
/// at least 6 characters.
pub open spec fn spec_code_string(code: u32) -> Seq<char> {
    let d = spec_decimal(code as nat);
    if d.len() >= 6 {
        d
    } else {
        Seq::new((6 - d.len()) as nat, |i: int| '0') + d
    }
}

/// How many decimal digits a value has, by its magnitude.
proof fn lemma_decimal_len(n: nat)
    ensures
        n < 10 ==> spec_decimal(n).len() == 1,
        10 <= n < 100 ==> spec_decimal(n).len() == 2,
        100 <= n < 1000 ==> spec_decimal(n).len() == 3,
        1000 <= n < 10000 ==> spec_decimal(n).len() == 4,
        10000 <= n < 100000 ==> spec_decimal(n).len() == 5,
        100000 <= n ==> spec_decimal(n).len() >= 6,
    decreases n,
{
    if n >= 10 {
        lemma_decimal_len(n / 10);
    }
}

/// Relies on `String::push`: it appends exactly the one character.
#[verifier::external_body]
fn push_char(s: &mut String, c: char)
    ensures
        final(s)@ == old(s)@.push(c),
{
    s.push(c);
}

/// The character of one decimal digit.
fn digit_char(d: u32) -> (c: char)
    requires
        d <= 9,
    ensures
        c == spec_digit_char(d as int),
{
    if d == 0 {
        '0'
    } else if d == 1 {
        '1'
    } else if d == 2 {
        '2'
    } else if d == 3 {
        '3'
    } else if d == 4 {
        '4'
    } else if d == 5 {
        '5'
    } else if d == 6 {
        '6'
    } else if d == 7 {
        '7'
    } else if d == 8 {
        '8'
    } else {
        '9'
    }
}

/// Appends the decimal digits of `n`, most significant first.
fn push_decimal(s: &mut String, n: u32)
    ensures
        final(s)@ == old(s)@ + spec_decimal(n as nat),
    decreases n,
{
    if n < 10 {
        push_char(s, digit_char(n));
        proof {
            assert(s@ =~= old(s)@ + spec_decimal(n as nat));
        }
    } else {
        push_decimal(s, n / 10);
        push_char(s, digit_char(n % 10));
        proof {
            assert(s@ =~= old(s)@ + spec_decimal(n as nat));
        }
    }
}

/// Renders a code as decimal digits, zero-padded to at least 6 characters.
pub fn format_code(code: u32) -> (s: String)
    ensures
        s@ == spec_code_string(code),
{
    proof {
        lemma_decimal_len(code as nat);
    }
    let mut s = String::new();
    if code < 10 {
        push_char(&mut s, '0');
        push_char(&mut s, '0');
        push_char(&mut s, '0');
        push_char(&mut s, '0');
        push_char(&mut s, '0');
    } else if code < 100 {
        push_char(&mut s, '0');
        push_char(&mut s, '0');
        push_char(&mut s, '0');
        push_char(&mut s, '0');
    } else if code < 1000 {
        push_char(&mut s, '0');
        push_char(&mut s, '0');
        push_char(&mut s, '0');
    } else if code < 10000 {
        push_char(&mut s, '0');
        push_char(&mut s, '0');
    } else if code < 100000 {
        push_char(&mut s, '0');
    }
    push_decimal(&mut s, code);
    proof {
        assert(s@ =~= spec_code_string(code));
    }
    s
}

/// Builds the response reported for one outcome: the account echoed back
/// with either the formatted code or the failure's message.
pub fn render_response(account: &str, outcome: Result<u32, Error>) -> (resp: Response)
    ensures
        ({
            match outcome {
                Ok(code) => resp matches Response::Code { account: a, code: c } && a@ == account@
                    && c@ == spec_code_string(code),
                Err(e) => resp matches Response::Error { account: a, error: m } && a@ == account@
                    && m@ == spec_error_message(e),
            }
        }),
{
    match outcome {
        Ok(code) => Response::Code { account: account.to_owned(), code: format_code(code) },
        Err(e) => Response::Error { account: account.to_owned(), error: error_message(&e) },
    }
}

/// The account a response is about.
pub open spec fn spec_response_account(resp: Response) -> Seq<char> {
    match resp {
        Response::Code { account, .. } => account@,
        Response::Error { account, .. } => account@,
    }
}

/// Serves one request against a token: calculates the fuzzy-matched code at
/// the time step of `time` and renders the outcome.
///
/// The card comes in as the result of opening the session, so that a failed
/// discovery is reported in the response like every other failure.
pub fn handle_request<C: SmartCard>(
    card: &Result<C, transport::Error>,
    request: &Request,
    time: u64,
) -> (resp: Response)
    ensures
        spec_response_account(resp) == request.account@,
        card matches Err(t) ==> resp matches Response::Error { account: a, error: m } && m@
            == spec_error_message(Error::Yubikey(*t)),
        resp matches Response::Code { .. } ==> card is Ok,
{
    let outcome: Result<u32, Error> = match card {
        Ok(c) => match calculate_fuzzy(c, request.account.as_str(), time) {
            Ok(code) => Ok(code),
            Err(e) => Err(Error::Oath(e)),
        },
        Err(t) => Err(Error::Yubikey(*t)),
    };
    render_response(request.account.as_str(), outcome)
}

} // verus!
