//! What the dialogs of the legs report to the session.
use vstd::prelude::*;
use crate::sip::Method;
use crate::state::MidDialogLeg;

verus! {

/// Which side ended its leg.
#[derive(Clone, Copy, Debug, PartialEq, Eq, Structural)]
pub enum TerminationReason {
    ByCaller,
    ByCallee,
}

/// An event of a leg.
#[derive(Clone, Debug)]
pub enum LegEvent {
    /// The dialog of the leg is over.
    Terminated { reason: TerminationReason },
    /// A re-INVITE or UPDATE came within the dialog.
    ReInvite { leg: MidDialogLeg, method: Method, sdp: Option<String>, dialog_id: String },
    /// A trickled candidate came in an INFO on the exported leg.
    TrickleIce { payload: String },
}

} // verus!
