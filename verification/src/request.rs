//! Parsing of a raw byte buffer into a request: method, path and optional
//! query string. All string data borrows the original buffer; only the
//! request line is examined, and anything after the protocol token is
//! ignored by design.

use vstd::prelude::*;
use vstd::string::{StrSliceExecFns, StringSliceAdditionalSpecFns};
use vstd::utf8::{decode_utf8, encode_utf8_decode_utf8, valid_utf8};
use crate::method::{lemma_method_closed_set, method_token, spec_parse_method, Method};
use crate::query_string::{qs_of, QueryString};
use crate::text::{
    eq_pred, find_char, find_first, lemma_find_first, lemma_find_first_is,
    lemma_find_first_none, str_eq,
};

verus! {

/// Everything that can go wrong while parsing a request line. All four are
/// terminal for the connection's request; none is retried.
#[derive(Clone, Copy, PartialEq, Eq, Structural, Debug)]
pub enum ParseError {
    InvalidRequest,
    InvalidEncoding,
    InvalidProtocol,
    InvalidMethod,
}

impl ParseError {
    /// The diagnostic text of each error.
    pub open spec fn spec_message(&self) -> Seq<char> {
        match self {
            ParseError::InvalidRequest => "Invalid Request"@,
            ParseError::InvalidEncoding => "Invalid Encoding"@,
            ParseError::InvalidProtocol => "Invalid Protocol"@,
            ParseError::InvalidMethod => "Invalid Method"@,
        }
    }

    /// A short human-readable description, for logging and diagnostics.
    pub fn message(&self) -> (r: &str)
        ensures
            r@ == self.spec_message(),
    {
        match self {
            ParseError::InvalidRequest => "Invalid Request",
            ParseError::InvalidEncoding => "Invalid Encoding",
            ParseError::InvalidProtocol => "Invalid Protocol",
            ParseError::InvalidMethod => "Invalid Method",
        }
    }
}

/// A token boundary in the request line: a single space or carriage return.
pub open spec fn is_delim(c: char) -> bool {
    c == ' ' || c == '\r'
}

/// The delimiter test as a first-class predicate.
pub open spec fn delim_pred() -> spec_fn(char) -> bool {
    |c: char| is_delim(c)
}

/// The token before the first delimiter and the remainder after it; the
/// delimiter itself belongs to neither. `None` when no delimiter occurs.
pub open spec fn next_word(s: Seq<char>) -> Option<(Seq<char>, Seq<char>)> {
    match find_first(s, delim_pred()) {
        Some(i) => Some((s.take(i), s.skip(i + 1))),
        None => None,
    }
}

/// Splits the next whitespace/carriage-return-delimited token off the front
/// of `request`, consuming the delimiter.
pub fn get_next_word(request: &str) -> (r: Option<(&str, &str)>)
    ensures
        match r {
            Some(p) => next_word(request@) == Some((p.0@, p.1@)),
            None => next_word(request@) is None,
        },
{
    let n = request.unicode_len();
    let mut i: usize = 0;
    while i < n
        invariant
            n == request@.len(),
            0 <= i <= n,
            forall|j: int| 0 <= j < i ==> !is_delim(request@[j]),
        decreases n - i,
    {
        let c = request.get_char(i);
        if c == ' ' || c == '\r' {
            let word = request.substring_char(0, i);
            let rest = request.substring_char(i + 1, n);
            proof {
                lemma_find_first_is(request@, delim_pred(), i as int);
                assert(word@ =~= request@.take(i as int));
                assert(rest@ =~= request@.skip(i + 1));
            }
            return Some((word, rest));
        }
        i = i + 1;
    }
    proof {
        lemma_find_first_none(request@, delim_pred());
    }
    None
}

/// The protocol token this core accepts: HTTP/1.1 and nothing else.
pub open spec fn http_version_token() -> Seq<char> {
    seq!['H', 'T', 'T', 'P', '/', '1', '.', '1']
}

/// The mathematical content of a parsed request.
pub ghost struct SpecRequest {
    pub path: Seq<char>,
    pub query: Option<Seq<(Seq<char>, Seq<Seq<char>>)>>,
    pub method: Method,
}

/// Splitting the raw path token at its first `?`: everything before is the
/// final path, everything after denotes the query string.
pub open spec fn split_query(raw_path: Seq<char>, m: Method) -> SpecRequest {
    match find_first(raw_path, eq_pred('?')) {
        Some(i) => SpecRequest {
            path: raw_path.take(i),
            query: Some(qs_of(raw_path.skip(i + 1))),
            method: m,
        },
        None => SpecRequest { path: raw_path, query: None, method: m },
    }
}

/// The request-line grammar over characters: three delimited tokens (verb,
/// raw path, protocol), the protocol checked before the verb is parsed, and
/// the raw path split at its first `?`.
pub open spec fn spec_parse_chars(s: Seq<char>) -> Result<SpecRequest, ParseError> {
    match next_word(s) {
        None => Err(ParseError::InvalidRequest),
        Some((method_tok, r1)) => match next_word(r1) {
            None => Err(ParseError::InvalidRequest),
            Some((raw_path, r2)) => match next_word(r2) {
                None => Err(ParseError::InvalidRequest),
                Some((protocol, _r3)) => if protocol != http_version_token() {
                    Err(ParseError::InvalidProtocol)
                } else {
                    match spec_parse_method(method_tok) {
                        None => Err(ParseError::InvalidMethod),
                        Some(m) => Ok(split_query(raw_path, m)),
                    }
                },
            },
        },
    }
}

/// What parsing a raw buffer yields: the buffer must decode as UTF-8 text,
/// whose characters must then follow the request-line grammar.
pub open spec fn spec_parse(bytes: Seq<u8>) -> Result<SpecRequest, ParseError> {
    if valid_utf8(bytes) {
        spec_parse_chars(decode_utf8(bytes))
    } else {
        Err(ParseError::InvalidEncoding)
    }
}

/// Relies on std's `str::from_utf8`: it succeeds exactly on valid UTF-8
/// input, and the returned string borrows those same bytes.
#[verifier::external_body]
fn bytes_as_str(buf: &[u8]) -> (r: Option<&str>)
    ensures
        match r {
            Some(s) => valid_utf8(buf@) && s.spec_bytes() == buf@,
            None => !valid_utf8(buf@),
        },
{
    core::str::from_utf8(buf).ok()
}

/// A parsed request: path (query split off), optional query string, method.
/// Entirely non-owning: valid only as long as the source buffer.
#[derive(Debug)]
pub struct Request<'buf> {
    path: &'buf str,
    query_string: Option<QueryString<'buf>>,
    method: Method,
}

impl<'buf> View for Request<'buf> {
    type V = SpecRequest;

    closed spec fn view(&self) -> SpecRequest {
        SpecRequest {
            path: self.path@,
            query: match self.query_string {
                Some(qs) => Some(qs@),
                None => None,
            },
            method: self.method,
        }
    }
}

impl<'buf> Request<'buf> {
    /// The query string, if present, keeps its well-formedness discipline.
    pub closed spec fn wf(&self) -> bool {
        match self.query_string {
            Some(qs) => qs.wf(),
            None => true,
        }
    }

    /// The path, with the query split off: it never contains a `?`.
    pub fn path(&self) -> (r: &str)
        ensures
            r@ == self@.path,
    {
        self.path
    }

    /// The parsed method.
    pub fn method(&self) -> (r: &Method)
        ensures
            *r == self@.method,
    {
        &self.method
    }

    /// The query string, if the raw path carried one.
    pub fn query_string(&self) -> (r: Option<&QueryString<'buf>>)
        ensures
            match r {
                Some(qs) => self@.query == Some(qs@) && (self.wf() ==> qs.wf()),
                None => self@.query is None,
            },
    {
        self.query_string.as_ref()
    }

    /// Parses a raw byte buffer as an HTTP/1.1 request line. A pure,
    /// single-pass, deterministic function of the buffer: the result is
    /// exactly what the request-line grammar assigns to the bytes, and each
    /// failure is the grammar's own error for them.
    pub fn parse(buf: &'buf [u8]) -> (r: Result<Request<'buf>, ParseError>)
        ensures
            match r {
                Ok(req) => spec_parse(buf@) == Ok::<SpecRequest, ParseError>(req@) && req.wf(),
                Err(e) => spec_parse(buf@) == Err::<SpecRequest, ParseError>(e),
            },
    {
        let request: &'buf str = match bytes_as_str(buf) {
            Some(s) => s,
            None => {
                return Err(ParseError::InvalidEncoding);
            },
        };
        proof {
            encode_utf8_decode_utf8(request@);
            assert(request@ == decode_utf8(buf@));
        }
        let (method_tok, r1) = match get_next_word(request) {
            Some(p) => p,
            None => {
                return Err(ParseError::InvalidRequest);
            },
        };
        let (raw_path, r2) = match get_next_word(r1) {
            Some(p) => p,
            None => {
                return Err(ParseError::InvalidRequest);
            },
        };
        let (protocol, _) = match get_next_word(r2) {
            Some(p) => p,
            None => {
                return Err(ParseError::InvalidRequest);
            },
        };
        proof {
            reveal_strlit("HTTP/1.1");
            assert("HTTP/1.1"@ =~= http_version_token());
        }
        if !str_eq(protocol, "HTTP/1.1") {
            return Err(ParseError::InvalidProtocol);
        }
        let method = match Method::parse(method_tok) {
            Ok(m) => m,
            Err(_) => {
                return Err(ParseError::InvalidMethod);
            },
        };
        let plen = raw_path.unicode_len();
        proof {
            lemma_find_first(raw_path@, eq_pred('?'));
        }
        match find_char(raw_path, '?') {
            Some(i) => {
                let fragment = raw_path.substring_char(i + 1, plen);
                let path = raw_path.substring_char(0, i);
                let qs = QueryString::parse(fragment);
                proof {
                    assert(fragment@ =~= raw_path@.skip(i + 1));
                    assert(path@ =~= raw_path@.take(i as int));
                }
                Ok(Request { path, query_string: Some(qs), method })
            },
            None => Ok(Request { path: raw_path, query_string: None, method }),
        }
    }
}

/// A request line whose verb token falls outside the closed Method set is
/// rejected with `InvalidMethod`, however well-formed the rest of the line.
pub proof fn lemma_unknown_method_rejected(
    s: Seq<char>,
    method_tok: Seq<char>,
    r1: Seq<char>,
    raw_path: Seq<char>,
    r2: Seq<char>,
    protocol: Seq<char>,
    r3: Seq<char>,
)
    requires
        next_word(s) == Some((method_tok, r1)),
        next_word(r1) == Some((raw_path, r2)),
        next_word(r2) == Some((protocol, r3)),
        protocol == http_version_token(),
        forall|m: Method| method_tok != method_token(m),
    ensures
        spec_parse_chars(s) == Err::<SpecRequest, ParseError>(ParseError::InvalidMethod),
{
    lemma_method_closed_set(method_tok);
}

/// A request line whose protocol token is anything but `HTTP/1.1` is
/// rejected with `InvalidProtocol`, even if method and path are well-formed.
pub proof fn lemma_wrong_protocol_rejected(
    s: Seq<char>,
    method_tok: Seq<char>,
    r1: Seq<char>,
    raw_path: Seq<char>,
    r2: Seq<char>,
    protocol: Seq<char>,
    r3: Seq<char>,
)
    requires
        next_word(s) == Some((method_tok, r1)),
        next_word(r1) == Some((raw_path, r2)),
        next_word(r2) == Some((protocol, r3)),
        protocol != http_version_token(),
    ensures
        spec_parse_chars(s) == Err::<SpecRequest, ParseError>(ParseError::InvalidProtocol),
{
}

/// A request line missing a delimited token — in particular one with no
/// space-delimited second token — is rejected with `InvalidRequest`.
pub proof fn lemma_missing_token_rejected(s: Seq<char>)
    ensures
        next_word(s) is None ==> spec_parse_chars(s) == Err::<SpecRequest, ParseError>(ParseError::InvalidRequest),
        match next_word(s) {
            Some(p) => next_word(p.1) is None ==> spec_parse_chars(s) == Err::<SpecRequest, ParseError>(
                ParseError::InvalidRequest,
            ),
            None => true,
        },
{
}

/// After construction the path never contains a literal `?`: a query is
/// always split off into the query string.
pub proof fn lemma_path_has_no_query(s: Seq<char>, req: SpecRequest)
    requires
        spec_parse_chars(s) == Ok::<SpecRequest, ParseError>(req),
    ensures
        forall|i: int| 0 <= i < req.path.len() ==> req.path[i] != '?',
{
    let (method_tok, r1) = next_word(s).unwrap();
    let (raw_path, r2) = next_word(r1).unwrap();
    lemma_find_first(raw_path, eq_pred('?'));
    match find_first(raw_path, eq_pred('?')) {
        Some(i) => {
            assert(forall|j: int| 0 <= j < i ==> raw_path.take(i)[j] == raw_path[j]);
        },
        None => {},
    }
}

} // verus!
