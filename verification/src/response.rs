//! The response held as {status code, optional body}, and its serialization
//! to the HTTP/1.1 wire format: status line, a Content-Length header, a
//! blank line, then the body.

use vstd::prelude::*;
use vstd::string::{StringExecFns, StringSliceAdditionalSpecFns};
use vstd::utf8::encode_utf8;
use crate::request::http_version_token;
use crate::status_code::{phrase_chars, spec_numeric, StatusCode};

verus! {

/// The character for one decimal digit.
pub open spec fn digit_char(d: nat) -> char {
    if d == 0 {
        '0'
    } else if d == 1 {
        '1'
    } else if d == 2 {
        '2'
    } else if d == 3 {
        '3'
    } else if d == 4 {
        '4'
    } else if d == 5 {
        '5'
    } else if d == 6 {
        '6'
    } else if d == 7 {
        '7'
    } else if d == 8 {
        '8'
    } else {
        '9'
    }
}

/// The decimal rendering of a number, most significant digit first, with no
/// leading zeroes (zero itself renders as one digit).
pub open spec fn dec_digits(n: nat) -> Seq<char>
    decreases n,
{
    if n < 10 {
        seq![digit_char(n)]
    } else {
        dec_digits(n / 10).push(digit_char(n % 10))
    }
}

/// One decimal digit as text.
fn digit_str(d: usize) -> (r: &'static str)
    requires
        d < 10,
    ensures
        r@ == seq![digit_char(d as nat)],
{
    proof {
        reveal_strlit("0");
        reveal_strlit("1");
        reveal_strlit("2");
        reveal_strlit("3");
        reveal_strlit("4");
        reveal_strlit("5");
        reveal_strlit("6");
        reveal_strlit("7");
        reveal_strlit("8");
        reveal_strlit("9");
        assert("0"@ =~= seq![digit_char(0)]);
        assert("1"@ =~= seq![digit_char(1)]);
        assert("2"@ =~= seq![digit_char(2)]);
        assert("3"@ =~= seq![digit_char(3)]);
        assert("4"@ =~= seq![digit_char(4)]);
        assert("5"@ =~= seq![digit_char(5)]);
        assert("6"@ =~= seq![digit_char(6)]);
        assert("7"@ =~= seq![digit_char(7)]);
        assert("8"@ =~= seq![digit_char(8)]);
        assert("9"@ =~= seq![digit_char(9)]);
    }
    match d {
        0 => "0",
        1 => "1",
        2 => "2",
        3 => "3",
        4 => "4",
        5 => "5",
        6 => "6",
        7 => "7",
        8 => "8",
        _ => "9",
    }
}

/// Renders a number in decimal.
pub fn usize_to_string(n: usize) -> (r: String)
    ensures
        r@ == dec_digits(n as nat),
    decreases n,
{
    if n < 10 {
        let mut s = String::new();
        s.append(digit_str(n));
        proof {
            assert(s@ =~= dec_digits(n as nat));
        }
        s
    } else {
        let mut s = usize_to_string(n / 10);
        s.append(digit_str(n % 10));
        proof {
            assert(s@ =~= dec_digits(n as nat));
        }
        s
    }
}

/// The wire line ending.
pub open spec fn crlf() -> Seq<char> {
    seq!['\r', '\n']
}

/// The status line, without its line ending:
/// `HTTP/1.1 <code> <reason phrase>`.
pub open spec fn status_line_chars(code: StatusCode) -> Seq<char> {
    http_version_token() + seq![' '] + dec_digits(spec_numeric(code) as nat) + seq![' ']
        + phrase_chars(code)
}

/// The body text, empty when absent.
pub open spec fn body_chars(body: Option<Seq<char>>) -> Seq<char> {
    match body {
        Some(b) => b,
        None => Seq::empty(),
    }
}

/// The byte length of the body on the wire, or 0 when absent.
pub open spec fn body_byte_len(body: Option<Seq<char>>) -> nat {
    match body {
        Some(b) => encode_utf8(b).len(),
        None => 0,
    }
}

/// The mathematical content of a response.
pub ghost struct SpecResponse {
    pub status: StatusCode,
    pub body: Option<Seq<char>>,
}

/// The full wire format: status line, one Content-Length header, a blank
/// line, then the body if present.
pub open spec fn spec_serialize(resp: SpecResponse) -> Seq<char> {
    status_line_chars(resp.status) + crlf() + "Content-Length: "@ + dec_digits(
        body_byte_len(resp.body),
    ) + crlf() + crlf() + body_chars(resp.body)
}

/// A response: status code and optional body. Immutable after construction;
/// serialized once onto the outbound stream.
pub struct Response {
    status: StatusCode,
    body: Option<String>,
}

impl View for Response {
    type V = SpecResponse;

    closed spec fn view(&self) -> SpecResponse {
        SpecResponse {
            status: self.status,
            body: match self.body {
                Some(b) => Some(b@),
                None => None,
            },
        }
    }
}

impl Response {
    /// Builds a response from its parts.
    pub fn new(status: StatusCode, body: Option<String>) -> (r: Response)
        ensures
            r@.status == status,
            r@.body == match body {
                Some(b) => Some(b@),
                None => None::<Seq<char>>,
            },
    {
        Response { status, body }
    }

    /// The status code.
    pub fn status(&self) -> (r: StatusCode)
        ensures
            r == self@.status,
    {
        self.status
    }

    /// The body, if any.
    pub fn body(&self) -> (r: Option<&String>)
        ensures
            match r {
                Some(b) => self@.body == Some(b@),
                None => self@.body is None,
            },
    {
        self.body.as_ref()
    }

    /// Serializes the response to its wire text. A pure function of the
    /// response: the same response always yields the same output.
    pub fn serialize(&self) -> (out: String)
        ensures
            out@ == spec_serialize(self@),
    {
        let mut out = String::new();
        out.append("HTTP/1.1 ");
        let code_str = usize_to_string(self.status.numeric_value() as usize);
        out.append(code_str.as_str());
        out.append(" ");
        out.append(self.status.reason_phrase());
        out.append("\r\n");
        out.append("Content-Length: ");
        let blen: usize = match &self.body {
            Some(b) => b.as_str().as_bytes().len(),
            None => 0,
        };
        let len_str = usize_to_string(blen);
        out.append(len_str.as_str());
        out.append("\r\n");
        out.append("\r\n");
        match &self.body {
            Some(b) => out.append(b.as_str()),
            None => (),
        }
        proof {
            reveal_strlit("HTTP/1.1 ");
            reveal_strlit(" ");
            reveal_strlit("\r\n");
            assert("HTTP/1.1 "@ =~= http_version_token() + seq![' ']);
            assert(" "@ =~= seq![' ']);
            assert("\r\n"@ =~= crlf());
            assert(out@ =~= spec_serialize(self@));
        }
        out
    }
}

/// Serialization is deterministic: two responses with the same content
/// serialize to identical wire text, so serializing the same response twice
/// yields byte-identical output.
pub proof fn lemma_serialize_deterministic(r1: Response, r2: Response)
    requires
        r1@ == r2@,
    ensures
        spec_serialize(r1@) == spec_serialize(r2@),
{
}

/// The serialized text begins with the status line,
/// `HTTP/1.1 <code> <reason phrase>`, followed by the line ending.
pub proof fn lemma_serialize_starts_with_status_line(resp: SpecResponse)
    ensures
        spec_serialize(resp).take(status_line_chars(resp.status).len() as int + 2) == status_line_chars(
            resp.status,
        ) + crlf(),
{
    assert(spec_serialize(resp).take(status_line_chars(resp.status).len() as int + 2) =~=
        status_line_chars(resp.status) + crlf());
}

/// The digits in the serialized status line are the decimal rendering of
/// the status code's enumerated numeric value.
pub proof fn lemma_status_line_digits()
    ensures
        dec_digits(spec_numeric(StatusCode::Okay) as nat) == seq!['2', '0', '0'],
        dec_digits(spec_numeric(StatusCode::BadRequest) as nat) == seq!['4', '0', '0'],
        dec_digits(spec_numeric(StatusCode::NotFound) as nat) == seq!['4', '0', '4'],
{
    assert(dec_digits(2nat) =~= seq!['2']);
    assert(dec_digits(20nat) =~= seq!['2', '0']);
    assert(dec_digits(200nat) =~= seq!['2', '0', '0']);
    assert(dec_digits(4nat) =~= seq!['4']);
    assert(dec_digits(40nat) =~= seq!['4', '0']);
    assert(dec_digits(400nat) =~= seq!['4', '0', '0']);
    assert(dec_digits(404nat) =~= seq!['4', '0', '4']);
}

} // verus!
