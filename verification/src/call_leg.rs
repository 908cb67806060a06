//! A leg of a call: its signalling and its media.
use vstd::prelude::*;
use crate::media_endpoint::MediaEndpoint;
use crate::sip_leg::{
    CallLegDirection, DialogId, DialogIdView, DialogPhase, InboundHangup, ServerDialog, SipLeg,
    copy_dialogs,
};

verus! {

/// The part that a leg plays in the call.
#[derive(Clone, Copy, Debug, PartialEq, Eq, Structural)]
pub enum LegRole {
    Caller,
    Callee,
}

/// Where a leg stands in an offer and answer exchange.
#[derive(Clone, Copy, Debug, PartialEq, Eq, Structural)]
pub enum NegotiationState {
    Idle,
    Stable,
    LocalOfferSent,
    RemoteOfferReceived,
}

/// A leg of a call.
#[derive(Debug)]
pub struct CallLeg {
    pub id: String,
    pub role: LegRole,
    pub direction: CallLegDirection,
    pub sip: SipLeg,
    pub media: MediaEndpoint,
    pub negotiation_state: NegotiationState,
}

/// A request on a leg without the dialog that it needs.
#[derive(Clone, Copy, Debug, PartialEq, Eq, Structural)]
pub enum LegError {
    NoServerDialog,
}

/// Whether `leg` is one of which nothing is known but what it was made with, and
/// perhaps the dialog that an inbound call opened.
pub open spec fn is_fresh_leg(
    leg: CallLeg,
    id: String,
    role: LegRole,
    direction: CallLegDirection,
    offer_sdp: Option<String>,
    server_dialog: Option<ServerDialog>,
    now: u64,
) -> bool {
    &&& leg.id == id
    &&& leg.role == role
    &&& leg.direction == direction
    &&& leg.negotiation_state is Idle
    &&& leg.sip.role == direction
    &&& leg.sip.active() == Seq::<DialogIdView>::empty()
    &&& leg.sip.recorded() == Seq::<DialogIdView>::empty()
    &&& leg.sip.well_formed()
    &&& leg.sip.connected_dialog_id is None
    &&& leg.sip.server_dialog == server_dialog
    &&& !leg.sip.supports_trickle_ice
    &&& leg.sip.session_timer.is_idle_since(now)
    &&& leg.media == (MediaEndpoint {
        offer_sdp,
        answer_sdp: None,
        negotiated_audio: None,
        ssrc: None,
        dtmf_listener_cancel: None,
        early_media_sent: false,
        directional_recorder_option: None,
    })
}

impl CallLeg {
    /// A leg without dialogs.
    pub fn new(
        id: String,
        role: LegRole,
        direction: CallLegDirection,
        offer_sdp: Option<String>,
        now: u64,
    ) -> (r: CallLeg)
        ensures
            is_fresh_leg(r, id, role, direction, offer_sdp, None, now),
    {
        CallLeg {
            id,
            role,
            direction,
            sip: SipLeg::new(direction, now),
            media: MediaEndpoint::new(offer_sdp),
            negotiation_state: NegotiationState::Idle,
        }
    }

    /// Sets the dialog that an inbound call opened.
    pub fn set_server_dialog(&mut self, server_dialog: ServerDialog)
        ensures
            *final(self) == (CallLeg {
                sip: SipLeg { server_dialog: Some(server_dialog), ..old(self).sip },
                ..*old(self)
            }),
    {
        self.sip.server_dialog = Some(server_dialog);
    }

    /// The identifier of the inbound dialog.
    pub fn server_dialog_id(&self) -> (r: Option<DialogId>)
        ensures
            r == (match self.sip.server_dialog {
                Some(d) => Some(d.id),
                None => None,
            }),
    {
        match &self.sip.server_dialog {
            Some(d) => Some(d.id.copy()),
            None => None,
        }
    }

    /// Whether the inbound dialog is in a phase; `missing` where there is none.
    pub open spec fn dialog_is(self, phase: DialogPhase, missing: bool) -> bool {
        match self.sip.server_dialog {
            Some(d) => d.phase == phase,
            None => missing,
        }
    }

    /// Whether the inbound dialog is over, as it is where there is none.
    pub fn is_server_dialog_terminated(&self) -> (r: bool)
        ensures
            r == self.dialog_is(DialogPhase::Terminated, true),
    {
        match &self.sip.server_dialog {
            Some(d) => d.phase == DialogPhase::Terminated,
            None => true,
        }
    }

    /// Whether the inbound dialog is confirmed.
    pub fn is_server_dialog_confirmed(&self) -> (r: bool)
        ensures
            r == self.dialog_is(DialogPhase::Confirmed, false),
    {
        match &self.sip.server_dialog {
            Some(d) => d.phase == DialogPhase::Confirmed,
            None => false,
        }
    }

    /// Whether the inbound dialog is answered and waits for the ACK.
    pub fn is_server_dialog_waiting_ack(&self) -> (r: bool)
        ensures
            r == self.dialog_is(DialogPhase::WaitAck, false),
    {
        match &self.sip.server_dialog {
            Some(d) => d.phase == DialogPhase::WaitAck,
            None => false,
        }
    }

    /// The inbound dialog that a provisional or final response or a BYE is sent
    /// on; an error where the leg has none.
    pub fn inbound_dialog(&self) -> (r: Result<DialogId, LegError>)
        ensures
            r == (match self.sip.server_dialog {
                Some(d) => Ok::<DialogId, LegError>(d.id),
                None => Err(LegError::NoServerDialog),
            }),
    {
        match &self.sip.server_dialog {
            Some(d) => Ok(d.id.copy()),
            None => Err(LegError::NoServerDialog),
        }
    }

    /// How the inbound dialog is ended, see [`SipLeg::hangup_inbound_dialog`];
    /// nothing is done where the leg has none.
    pub fn hangup_inbound(&self, code: Option<u16>, reason: Option<String>) -> (r: InboundHangup)
        ensures
            r == self.inbound_hangup(code, reason),
    {
        match &self.sip.server_dialog {
            Some(d) => SipLeg::hangup_inbound_dialog(d.phase, code, reason),
            None => InboundHangup::Nothing,
        }
    }

    /// See [`CallLeg::hangup_inbound`].
    pub open spec fn inbound_hangup(self, code: Option<u16>, reason: Option<String>) -> InboundHangup {
        match self.sip.server_dialog {
            Some(d) => match d.phase {
                DialogPhase::Confirmed | DialogPhase::WaitAck => match reason {
                    Some(t) => InboundHangup::ByeWithReason(t),
                    None => InboundHangup::Bye,
                },
                DialogPhase::Pending => InboundHangup::Reject(
                    match code {
                        Some(c) => c,
                        None => 487u16,
                    },
                    reason,
                ),
                DialogPhase::Terminated => InboundHangup::Nothing,
            },
            None => InboundHangup::Nothing,
        }
    }

    /// The dialogs that are hung up when the leg is torn down: those that are open.
    pub fn terminate_client_dialogs(&self) -> (r: Vec<DialogId>)
        ensures
            r@ == self.sip.active_dialog_ids@,
    {
        copy_dialogs(&self.sip.active_dialog_ids)
    }
}

} // verus!
