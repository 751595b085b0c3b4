//! An example consumer of the handler contract: a tiny website with two
//! pages under GET, answering NotFound to everything else.

use vstd::prelude::*;
use vstd::string::StringExecFns;
use crate::method::Method;
use crate::request::{Request, SpecRequest};
use crate::response::{Response, SpecResponse};
use crate::server::Handler;
use crate::status_code::StatusCode;
use crate::text::str_eq;

verus! {

/// A handler serving a homepage at `/` and a second page at `/hello`.
pub struct WebsiteHandler;

/// The response the website gives each request: the two pages under GET,
/// NotFound for every other path or method.
pub open spec fn spec_website_response(req: SpecRequest) -> SpecResponse {
    if req.method == Method::GET {
        if req.path == "/"@ {
            SpecResponse { status: StatusCode::Okay, body: Some("<h1>Welcome to homepage</h1>"@) }
        } else if req.path == "/hello"@ {
            SpecResponse {
                status: StatusCode::Okay,
                body: Some("<h1>Welcome to another page</h1>"@),
            }
        } else {
            SpecResponse { status: StatusCode::NotFound, body: None }
        }
    } else {
        SpecResponse { status: StatusCode::NotFound, body: None }
    }
}

impl WebsiteHandler {
    /// Routes one request to its page.
    pub fn respond(&self, request: &Request) -> (r: Response)
        ensures
            r@ == spec_website_response(request@),
    {
        match *request.method() {
            Method::GET => {
                if str_eq(request.path(), "/") {
                    Response::new(
                        StatusCode::Okay,
                        Some(String::from_str("<h1>Welcome to homepage</h1>")),
                    )
                } else if str_eq(request.path(), "/hello") {
                    Response::new(
                        StatusCode::Okay,
                        Some(String::from_str("<h1>Welcome to another page</h1>")),
                    )
                } else {
                    Response::new(StatusCode::NotFound, None)
                }
            },
            _ => Response::new(StatusCode::NotFound, None),
        }
    }
}

impl Handler for WebsiteHandler {
    /// The website's promise: its response is `spec_website_response`.
    open spec fn on_request(&self, req: SpecRequest, r: SpecResponse) -> bool {
        r == spec_website_response(req)
    }

    fn handle_request(&mut self, request: &Request) -> (r: Response)
        ensures
            r@ == spec_website_response(request@),
    {
        self.respond(request)
    }
}

} // verus!
