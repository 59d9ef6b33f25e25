//! The request/response dispatch shim: pairs a request buffer with a
//! response buffer and a status code.  It copies nothing — the response
//! container the handler populated is forwarded verbatim, and any
//! non-success status suppresses the response so the caller cannot read
//! fields from a failed reply.

use crate::root::Root;
use crate::status::Status;
use vstd::prelude::*;

verus! {

/// The completed state of one call: either the populated response
/// buffer, forwarded without copying, or the non-success status that
/// suppresses it.  (A call that has not completed yet is simply the
/// absence of this value.)
pub enum CallOutcome {
    /// The call succeeded; the response container may be read.
    Reply(Root),
    /// The call failed; no response contents are available.
    Failed(Status),
}

/// The server side of a call, implemented by the application: for the
/// given method it reads the request's header view and populates the
/// exclusively owned, zero-initialized response container in place.
/// Nothing is assumed of an implementation.
pub trait Handler {
    /// Handles one method call; a returned status reports failure.
    fn handle(&mut self, method_id: u64, req: &Root, resp: &mut Root) -> Result<(), Status>;
}

/// Completes a call from what the handler returned: success forwards the
/// populated response buffer verbatim; any failure status is forwarded
/// unchanged and the response is suppressed.
pub fn complete(res: Result<(), Status>, resp: Root) -> (r: CallOutcome)
    ensures
        match res {
            Ok(()) => r == CallOutcome::Reply(resp),
            Err(s) => r == CallOutcome::Failed(s),
        },
{
    match res {
        Ok(()) => CallOutcome::Reply(resp),
        Err(s) => CallOutcome::Failed(s),
    }
}

/// Runs one call: allocates the zero-initialized response container of
/// the declared response header size, lets the handler populate it in
/// place, and completes the call.  Whatever the handler did, a reply is
/// only ever a well-formed container of the declared header size.
pub fn dispatch<H: Handler>(
    h: &mut H,
    method_id: u64,
    req: &Root,
    resp_header_size: usize,
) -> (r: CallOutcome)
    ensures
        match r {
            CallOutcome::Reply(resp) => resp.wf() && resp.hsize() == resp_header_size,
            CallOutcome::Failed(_s) => true,
        },
{
    let mut resp = Root::new(resp_header_size);
    let res = h.handle(method_id, req, &mut resp);
    if resp.header_size() != resp_header_size || resp.size() < resp.header_size() {
        return CallOutcome::Failed(Status::Decode);
    }
    complete(res, resp)
}

/// The client side of the dispatch shim: an aggregate holding the
/// connection to a server.  Each call hands over the request buffer and
/// returns either the populated response or the status code, never both.
pub struct ClientConn<H: Handler> {
    handler: H,
}

impl<H: Handler> ClientConn<H> {
    /// Wraps a connection around the given server.
    pub fn new(handler: H) -> ClientConn<H> {
        ClientConn { handler }
    }

    /// Calls method `method_id` with the given request buffer; returns
    /// the populated response exactly when the server reported success,
    /// and the failure status otherwise.
    pub fn call(&mut self, method_id: u64, req: &Root, resp_header_size: usize) -> (r: Result<
        Root,
        Status,
    >)
        ensures
            match r {
                Ok(resp) => resp.wf() && resp.hsize() == resp_header_size,
                Err(_s) => true,
            },
    {
        match dispatch(&mut self.handler, method_id, req, resp_header_size) {
            CallOutcome::Reply(resp) => Ok(resp),
            CallOutcome::Failed(s) => Err(s),
        }
    }
}

} // verus!
