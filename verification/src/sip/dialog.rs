//! BYE and CANCEL.
use std::sync::Arc;

use vstd::prelude::*;

use crate::sip::message::{Request, Response};

verus! {

/// What to do with a request inside a dialog.
#[derive(Debug)]
pub enum DialogAction {
    /// Send this final response.
    SendFinal(Response),
}

/// Finds calls by SIP `Call-ID` and asks them to shut down.
pub trait DialogTerminator: Send + Sync {
    /// Ask the call to shut down; whether there was one. Must not block.
    fn terminate(&self, sip_call_id: &str) -> bool;
}

/// The terminator is asked to end the call `id`.
pub open spec fn told<T: DialogTerminator + ?Sized>(terminator: &T, id: Seq<char>) -> bool {
    exists|sip_call_id: &str, known: bool|
        sip_call_id@ == id && #[trigger] call_ensures(
            T::terminate,
            (terminator, sip_call_id),
            known,
        )
}

/// The answer to a BYE: `200 OK`, whether or not the call is known. The
/// terminator is told the request's `Call-ID`, empty when there is none.
pub fn dispatch_bye<T: DialogTerminator + ?Sized>(terminator: &T, request: &Request) -> (r:
    DialogAction)
    ensures
        told(terminator, request.call_id_text()),
        r matches DialogAction::SendFinal(response) && response.answers(
            *request,
            200,
            "OK"@,
            seq![],
        ),
{
    let sip_call_id = request.call_id();
    let _ = terminator.terminate(sip_call_id.as_str());
    DialogAction::SendFinal(Response::create_response(request, 200, "OK"))
}

/// The answer to a CANCEL: `200 OK`, whether or not the call is known. The
/// terminator is told the request's `Call-ID`, empty when there is none.
pub fn dispatch_cancel<T: DialogTerminator + ?Sized>(terminator: &T, request: &Request) -> (r:
    DialogAction)
    ensures
        told(terminator, request.call_id_text()),
        r matches DialogAction::SendFinal(response) && response.answers(
            *request,
            200,
            "OK"@,
            seq![],
        ),
{
    let sip_call_id = request.call_id();
    let _ = terminator.terminate(sip_call_id.as_str());
    DialogAction::SendFinal(Response::create_response(request, 200, "OK"))
}

/// A terminator that knows no call.
#[derive(Debug)]
pub struct NullDialogTerminator;

impl Default for NullDialogTerminator {
    fn default() -> Self {
        NullDialogTerminator
    }
}

impl DialogTerminator for NullDialogTerminator {
    fn terminate(&self, sip_call_id: &str) -> (r: bool)
        ensures
            !r,
    {
        false
    }
}

/// A terminator that is shared.
pub type DialogTerminatorHandle = Arc<dyn DialogTerminator>;

/// A BYE and a CANCEL are answered `200`, known or not, and end the call that their
/// `Call-ID` names.
pub proof fn a_dialog_ends_by_its_call_id<T: DialogTerminator>(
    terminator: &T,
    request: &Request,
    bye: DialogAction,
    cancel: DialogAction,
    id: String,
)
    requires
        call_ensures(dispatch_bye::<T>, (terminator, request), bye),
        call_ensures(dispatch_cancel::<T>, (terminator, request), cancel),
        call_ensures(Request::call_id, (request,), id),
    ensures
        bye->SendFinal_0.code == 200 && bye->SendFinal_0.reason@ == "OK"@,
        cancel->SendFinal_0.code == 200 && cancel->SendFinal_0.reason@ == "OK"@,
        exists|asked: &str, known: bool|
            asked@ == id@ && #[trigger] call_ensures(T::terminate, (terminator, asked), known),
{
    assert(told(terminator, id@));
}

} // verus!
