//! The closed set of HTTP verbs, parsed case-sensitively from the
//! request-line token.

use vstd::prelude::*;
use crate::text::str_eq;

verus! {

/// The closed set of HTTP verbs. A `Method` is only ever constructed by
/// exact-match parsing of the request-line token.
#[derive(Clone, Copy, PartialEq, Eq, Structural, Debug)]
pub enum Method {
    GET,
    DELETE,
    POST,
    PUT,
    HEAD,
    CONNECT,
    OPTIONS,
    TRACE,
    PATCH,
}

/// The token that names each verb on the wire.
pub open spec fn method_token(m: Method) -> Seq<char> {
    match m {
        Method::GET => seq!['G', 'E', 'T'],
        Method::DELETE => seq!['D', 'E', 'L', 'E', 'T', 'E'],
        Method::POST => seq!['P', 'O', 'S', 'T'],
        Method::PUT => seq!['P', 'U', 'T'],
        Method::HEAD => seq!['H', 'E', 'A', 'D'],
        Method::CONNECT => seq!['C', 'O', 'N', 'N', 'E', 'C', 'T'],
        Method::OPTIONS => seq!['O', 'P', 'T', 'I', 'O', 'N', 'S'],
        Method::TRACE => seq!['T', 'R', 'A', 'C', 'E'],
        Method::PATCH => seq!['P', 'A', 'T', 'C', 'H'],
    }
}

/// Case-sensitive exact-match parsing of a verb token: the verb whose token
/// is `s`, or `None` when `s` names no verb.
pub open spec fn spec_parse_method(s: Seq<char>) -> Option<Method> {
    if s == method_token(Method::GET) {
        Some(Method::GET)
    } else if s == method_token(Method::DELETE) {
        Some(Method::DELETE)
    } else if s == method_token(Method::POST) {
        Some(Method::POST)
    } else if s == method_token(Method::PUT) {
        Some(Method::PUT)
    } else if s == method_token(Method::HEAD) {
        Some(Method::HEAD)
    } else if s == method_token(Method::CONNECT) {
        Some(Method::CONNECT)
    } else if s == method_token(Method::OPTIONS) {
        Some(Method::OPTIONS)
    } else if s == method_token(Method::TRACE) {
        Some(Method::TRACE)
    } else if s == method_token(Method::PATCH) {
        Some(Method::PATCH)
    } else {
        None
    }
}

/// A token matches the closed set exactly when it is some verb's token:
/// parsing fails on every other token, never falling back to a default.
pub proof fn lemma_method_closed_set(s: Seq<char>)
    ensures
        spec_parse_method(s) is Some <==> exists|m: Method| s == method_token(m),
        forall|m: Method| s == method_token(m) ==> spec_parse_method(s) == Some(m),
{
    if spec_parse_method(s) is Some {
        let m = spec_parse_method(s).unwrap();
        assert(s == method_token(m));
    }
}

/// The unit error returned when a token names no verb.
pub struct MethodError;

impl Method {
    /// Case-sensitive exact-match parse of the request-line verb token.
    pub fn parse(token: &str) -> (r: Result<Method, MethodError>)
        ensures
            match r {
                Ok(m) => spec_parse_method(token@) == Some(m),
                Err(_) => spec_parse_method(token@) is None,
            },
    {
        proof {
            reveal_strlit("GET");
            reveal_strlit("DELETE");
            reveal_strlit("POST");
            reveal_strlit("PUT");
            reveal_strlit("HEAD");
            reveal_strlit("CONNECT");
            reveal_strlit("OPTIONS");
            reveal_strlit("TRACE");
            reveal_strlit("PATCH");
            assert("GET"@ =~= method_token(Method::GET));
            assert("DELETE"@ =~= method_token(Method::DELETE));
            assert("POST"@ =~= method_token(Method::POST));
            assert("PUT"@ =~= method_token(Method::PUT));
            assert("HEAD"@ =~= method_token(Method::HEAD));
            assert("CONNECT"@ =~= method_token(Method::CONNECT));
            assert("OPTIONS"@ =~= method_token(Method::OPTIONS));
            assert("TRACE"@ =~= method_token(Method::TRACE));
            assert("PATCH"@ =~= method_token(Method::PATCH));
        }
        if str_eq(token, "GET") {
            Ok(Method::GET)
        } else if str_eq(token, "DELETE") {
            Ok(Method::DELETE)
        } else if str_eq(token, "POST") {
            Ok(Method::POST)
        } else if str_eq(token, "PUT") {
            Ok(Method::PUT)
        } else if str_eq(token, "HEAD") {
            Ok(Method::HEAD)
        } else if str_eq(token, "CONNECT") {
            Ok(Method::CONNECT)
        } else if str_eq(token, "OPTIONS") {
            Ok(Method::OPTIONS)
        } else if str_eq(token, "TRACE") {
            Ok(Method::TRACE)
        } else if str_eq(token, "PATCH") {
            Ok(Method::PATCH)
        } else {
            Err(MethodError)
        }
    }
}

} // verus!
