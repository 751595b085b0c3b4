//! The dispatch driver and the handler contract. The core is a thin driver
//! from an already-read buffer to a response; accepting connections and
//! socket I/O live with the embedding program.

use vstd::prelude::*;
use crate::request::{spec_parse, Request, SpecRequest};
use crate::response::{Response, SpecResponse};
use crate::status_code::StatusCode;

verus! {

/// The sole interface the core exposes outward: external code maps an
/// immutable parsed request to an owned response.
pub trait Handler {
    /// The relation this handler promises between a request it is handed
    /// and the response it returns. An implementation says here what its
    /// responses are; one that stays with the default promises nothing.
    open spec fn on_request(&self, req: SpecRequest, r: SpecResponse) -> bool {
        true
    }

    /// Maps one parsed request to the response to send back.
    fn handle_request(&mut self, request: &Request) -> (r: Response)
        ensures
            old(self).on_request(request@, r@),
    ;
}

/// The server's configuration: the address to listen on. The accept loop
/// and socket I/O belong to the embedding program.
pub struct Server {
    addr: String,
}

impl View for Server {
    type V = Seq<char>;

    closed spec fn view(&self) -> Seq<char> {
        self.addr@
    }
}

impl Server {
    /// Remembers the listen address.
    pub fn new(addr: String) -> (r: Server)
        ensures
            r@ == addr@,
    {
        Server { addr }
    }

    /// The listen address.
    pub fn addr(&self) -> (r: &str)
        ensures
            r@ == self@,
    {
        self.addr.as_str()
    }
}

/// One request/response cycle over an already-read buffer: parse, then hand
/// the request to the handler. On a successful parse the result is the
/// handler's own response to that request. A parse failure never reaches
/// the handler: every failure is answered uniformly with BadRequest and no
/// body, the error taxonomy being collapsed for the wire.
pub fn dispatch<H: Handler>(handler: &mut H, buf: &[u8]) -> (r: Response)
    ensures
        spec_parse(buf@) matches Ok(q) ==> old(handler).on_request(q, r@),
        spec_parse(buf@) is Err ==> r@ == (SpecResponse {
            status: StatusCode::BadRequest,
            body: None,
        }),
{
    match Request::parse(buf) {
        Ok(request) => handler.handle_request(&request),
        Err(_) => Response::new(StatusCode::BadRequest, None),
    }
}

} // verus!
