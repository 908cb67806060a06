//! The signalling side of a leg of a call: its dialogs and its session timer.
use vstd::prelude::*;
use crate::model::Location;
use crate::session_timer::{
    SessionRefresher, SessionTimerState, find_other_header, first_header_of_a_name_counts,
    has_entry, has_timer_support, lists_tag, names_timer, other_header, parse_session_expires,
    session_expires, session_interval_is_read_back, timer_is_named_anywhere_in_the_list,
};
use crate::sip::{Header, HeaderView, InviteOption, Uri, header_views};
use crate::text::{
    decimal, decimal_of, eq_ignoring_case, join2, join3, lower, opt_text, own, same,
    same_ignoring_case, split_on, text_is_split_at_each, text_without_white_ends_is_trimmed, trim,
    trimmed,
};

verus! {

/// Whether a leg was called or calls.
#[derive(Clone, Copy, Debug, PartialEq, Eq, Structural)]
pub enum CallLegDirection {
    Inbound,
    Outbound,
}

/// What tells dialogs apart.
#[derive(Clone, Debug, PartialEq, Eq)]
pub struct DialogId {
    pub call_id: String,
    pub local_tag: String,
    pub remote_tag: String,
}

/// The contents of a dialog identifier.
pub struct DialogIdView {
    pub call_id: Seq<char>,
    pub local_tag: Seq<char>,
    pub remote_tag: Seq<char>,
}

impl View for DialogId {
    type V = DialogIdView;

    open spec fn view(&self) -> DialogIdView {
        DialogIdView {
            call_id: self.call_id@,
            local_tag: self.local_tag@,
            remote_tag: self.remote_tag@,
        }
    }
}

impl DialogIdView {
    /// The identifier as text.
    pub open spec fn text(self) -> Seq<char> {
        self.call_id + "-"@ + self.local_tag + "-"@ + self.remote_tag
    }
}

impl DialogId {
    /// A copy.
    pub fn copy(&self) -> (r: DialogId)
        ensures
            r == *self,
    {
        DialogId {
            call_id: self.call_id.clone(),
            local_tag: self.local_tag.clone(),
            remote_tag: self.remote_tag.clone(),
        }
    }

    /// Whether two identifiers name one dialog.
    pub fn same_as(&self, other: &DialogId) -> (r: bool)
        ensures
            r == (self@ == other@),
    {
        same(self.call_id.as_str(), other.call_id.as_str()) && same(
            self.local_tag.as_str(),
            other.local_tag.as_str(),
        ) && same(self.remote_tag.as_str(), other.remote_tag.as_str())
    }

    /// The identifier as text.
    pub fn to_text(&self) -> (r: String)
        ensures
            r@ == self@.text(),
    {
        let a = join3(self.call_id.as_str(), "-", self.local_tag.as_str());
        join3(a.as_str(), "-", self.remote_tag.as_str())
    }
}

/// The dialogs as values.
pub open spec fn dialog_views(v: Seq<DialogId>) -> Seq<DialogIdView> {
    Seq::new(v.len(), |i: int| v[i]@)
}

/// The dialogs with one more, which is entered only once.
pub open spec fn dialog_added(v: Seq<DialogIdView>, id: DialogIdView) -> Seq<DialogIdView> {
    if v.contains(id) {
        v
    } else {
        v.push(id)
    }
}

/// The position of a dialog, or the number of dialogs.
fn find_dialog(v: &Vec<DialogId>, id: &DialogId) -> (r: usize)
    ensures
        r <= v.len(),
        r < v.len() ==> v@[r as int]@ == id@,
        r < v.len() <==> dialog_views(v@).contains(id@),
{
    let ghost all = dialog_views(v@);
    let mut i: usize = 0;
    while i < v.len()
        invariant
            i <= v.len(),
            all == dialog_views(v@),
            forall|k: int| 0 <= k < i ==> #[trigger] all[k] != id@,
        decreases v.len() - i,
    {
        if v[i].same_as(id) {
            assert(all[i as int] == id@);
            return i;
        }
        assert(all[i as int] != id@);
        i += 1;
    }
    i
}

fn add_once(v: &mut Vec<DialogId>, id: DialogId)
    ensures
        dialog_views(final(v)@) == dialog_added(dialog_views(old(v)@), id@),
        dialog_views(old(v)@).no_duplicates() ==> dialog_views(final(v)@).no_duplicates(),
{
    let i = find_dialog(v, &id);
    if i == v.len() {
        let ghost before = dialog_views(v@);
        v.push(id);
        assert(dialog_views(v@) =~= before.push(id@));
    }
}

/// The state of the dialog that an inbound call opened.
#[derive(Clone, Copy, Debug, PartialEq, Eq, Structural)]
pub enum DialogPhase {
    Pending,
    WaitAck,
    Confirmed,
    Terminated,
}

/// The dialog that an inbound call opened.
#[derive(Clone, Debug)]
pub struct ServerDialog {
    pub id: DialogId,
    pub phase: DialogPhase,
}

/// How an inbound dialog is ended.
#[derive(Clone, Debug)]
pub enum InboundHangup {
    Bye,
    ByeWithReason(String),
    Reject(u16, Option<String>),
    Nothing,
}

/// The shortest session interval that is accepted, in seconds.
pub const LOCAL_MIN_SE: u64 = 90;

/// The signalling side of a leg.
#[derive(Debug)]
pub struct SipLeg {
    pub role: CallLegDirection,
    pub active_dialog_ids: Vec<DialogId>,
    pub recorded_dialog_ids: Vec<DialogId>,
    pub connected_dialog_id: Option<DialogId>,
    pub session_timer: SessionTimerState,
    pub supports_trickle_ice: bool,
    pub server_dialog: Option<ServerDialog>,
}

/// Whether a header says that trickled candidates are supported. The first entry
/// of the `Supported` header is read with the name of the header before it.
pub open spec fn names_trickle_ice(h: HeaderView) -> bool {
    match h {
        HeaderView::Supported(v) => has_entry(split_on("Supported: "@ + v, ','), "trickle-ice"@),
        HeaderView::Other(n, v) => if same_ignoring_case(n, "Supported"@) {
            has_entry(split_on(v, ','), "trickle-ice"@)
        } else {
            same_ignoring_case(n, "X-RustPBX-Trickle-ICE"@) && (trimmed(v) == "1"@ || trimmed(v)
                == "true"@ || trimmed(v) == "yes"@)
        },
        _ => false,
    }
}

fn is_trickle_ice_header(h: &Header) -> (r: bool)
    ensures
        r == names_trickle_ice(h@),
{
    match h {
        Header::Supported(v) => {
            let line = join2("Supported: ", v.as_str());
            lists_tag(line.as_str(), "trickle-ice")
        },
        Header::Other(n, v) => {
            if eq_ignoring_case(n.as_str(), "Supported") {
                lists_tag(v.as_str(), "trickle-ice")
            } else if eq_ignoring_case(n.as_str(), "X-RustPBX-Trickle-ICE") {
                let t = trim(v.as_str());
                same(t.as_str(), "1") || same(t.as_str(), "true") || same(t.as_str(), "yes")
            } else {
                false
            }
        },
        _ => false,
    }
}

/// The headers of an outbound INVITE: those given, then `Max-Forwards`, then the
/// session timer where one is asked for.
pub open spec fn outbound_headers(
    given: Seq<HeaderView>,
    max_forwards: u32,
    session_timer: Option<u64>,
) -> Seq<HeaderView> {
    let base = given.push(HeaderView::MaxForwards(max_forwards));
    match session_timer {
        Some(t) => base.push(HeaderView::Supported("timer"@)).push(
            HeaderView::Other("Session-Expires"@, decimal(t as nat)),
        ),
        None => base,
    }
}

/// The timer that the first request of a dialog asks for: an error where the
/// interval is too short, the same timer where the request says nothing readable.
pub open spec fn timer_asked(
    t: SessionTimerState,
    headers: Seq<HeaderView>,
    supported: bool,
    default_expires: u64,
) -> Option<SessionTimerState> {
    match other_header(headers, "Session-Expires"@) {
        Some(v) => match session_expires(v) {
            Some((n, f)) => if n < LOCAL_MIN_SE {
                None
            } else {
                Some(
                    SessionTimerState {
                        enabled: true,
                        session_interval: n as u64,
                        active: true,
                        refresher: match f {
                            Some(x) => x,
                            None => SessionRefresher::Uac,
                        },
                        ..t
                    },
                )
            },
            None => Some(t),
        },
        None => Some(
            SessionTimerState {
                enabled: true,
                session_interval: default_expires,
                active: true,
                refresher: if supported {
                    SessionRefresher::Uas
                } else {
                    SessionRefresher::Uac
                },
                ..t
            },
        ),
    }
}

/// The timer that the final response to an INVITE grants.
pub open spec fn timer_granted(
    t: SessionTimerState,
    headers: Seq<HeaderView>,
    default_expires: u64,
    now: u64,
) -> SessionTimerState {
    match other_header(headers, "Session-Expires"@) {
        Some(v) => match session_expires(v) {
            Some((n, f)) => SessionTimerState {
                enabled: true,
                session_interval: n as u64,
                active: true,
                last_refresh: now,
                refresher: match f {
                    Some(x) => x,
                    None => SessionRefresher::Uac,
                },
                ..t
            },
            None => t,
        },
        None => SessionTimerState {
            enabled: true,
            session_interval: default_expires,
            active: true,
            last_refresh: now,
            refresher: SessionRefresher::Uac,
            ..t
        },
    }
}

/// The timer after a refresh by the other side.
pub open spec fn timer_refreshed(t: SessionTimerState, headers: Seq<HeaderView>, now: u64) -> SessionTimerState {
    let value = match other_header(headers, "Session-Expires"@) {
        Some(v) => session_expires(v),
        None => None,
    };
    match value {
        Some((n, f)) => SessionTimerState {
            session_interval: n as u64,
            last_refresh: now,
            active: true,
            refresher: match f {
                Some(x) => x,
                None => t.refresher,
            },
            ..t
        },
        None => if t.active {
            SessionTimerState { last_refresh: now, ..t }
        } else {
            t
        },
    }
}

impl SipLeg {
    /// The dialogs that are open.
    pub open spec fn active(self) -> Seq<DialogIdView> {
        dialog_views(self.active_dialog_ids@)
    }

    /// The dialogs that have been open.
    pub open spec fn recorded(self) -> Seq<DialogIdView> {
        dialog_views(self.recorded_dialog_ids@)
    }

    /// No dialog is listed twice.
    pub open spec fn well_formed(self) -> bool {
        &&& self.active().no_duplicates()
        &&& self.recorded().no_duplicates()
    }

    /// A leg without dialogs.
    pub fn new(role: CallLegDirection, now: u64) -> (r: SipLeg)
        ensures
            r.role == role,
            r.active() == Seq::<DialogIdView>::empty(),
            r.recorded() == Seq::<DialogIdView>::empty(),
            r.well_formed(),
            r.connected_dialog_id is None,
            r.server_dialog is None,
            !r.supports_trickle_ice,
            r.session_timer.is_idle_since(now),
    {
        let r = SipLeg {
            role,
            active_dialog_ids: Vec::new(),
            recorded_dialog_ids: Vec::new(),
            connected_dialog_id: None,
            session_timer: SessionTimerState::new(now),
            supports_trickle_ice: false,
            server_dialog: None,
        };
        assert(r.active() =~= Seq::empty());
        assert(r.recorded() =~= Seq::empty());
        r
    }

    /// Whether one of the headers says that trickled candidates are supported.
    pub fn has_trickle_ice_support(headers: &Vec<Header>) -> (r: bool)
        ensures
            r == exists|i: int|
                0 <= i < headers.len() && names_trickle_ice((#[trigger] headers@[i])@),
    {
        let mut i: usize = 0;
        while i < headers.len()
            invariant
                i <= headers.len(),
                forall|k: int| 0 <= k < i ==> !names_trickle_ice((#[trigger] headers@[k])@),
            decreases headers.len() - i,
        {
            if is_trickle_ice_header(&headers[i]) {
                return true;
            }
            i += 1;
        }
        false
    }

    /// Enters an open dialog.
    pub fn add_dialog(&mut self, dialog_id: DialogId)
        ensures
            final(self).active() == dialog_added(old(self).active(), dialog_id@),
            final(self).recorded() == dialog_added(old(self).recorded(), dialog_id@),
            old(self).well_formed() ==> final(self).well_formed(),
            *final(self) == (SipLeg {
                active_dialog_ids: final(self).active_dialog_ids,
                recorded_dialog_ids: final(self).recorded_dialog_ids,
                ..*old(self)
            }),
    {
        add_once(&mut self.active_dialog_ids, dialog_id.copy());
        add_once(&mut self.recorded_dialog_ids, dialog_id);
    }

    /// Notes that a dialog is open, without recording it.
    pub fn open_dialog(&mut self, dialog_id: DialogId)
        ensures
            final(self).active() == dialog_added(old(self).active(), dialog_id@),
            old(self).well_formed() ==> final(self).well_formed(),
            *final(self) == (SipLeg {
                active_dialog_ids: final(self).active_dialog_ids,
                ..*old(self)
            }),
    {
        add_once(&mut self.active_dialog_ids, dialog_id);
    }

    /// Whether a dialog is not among those that are open.
    pub fn is_new_dialog(&self, dialog_id: &DialogId) -> (r: bool)
        ensures
            r == !self.active().contains(dialog_id@),
    {
        find_dialog(&self.active_dialog_ids, dialog_id) == self.active_dialog_ids.len()
    }

    /// Notes that a dialog is no longer open. Returns whether it was.
    pub fn remove_dialog(&mut self, dialog_id: &DialogId) -> (r: bool)
        requires
            old(self).well_formed(),
        ensures
            r == old(self).active().contains(dialog_id@),
            !final(self).active().contains(dialog_id@),
            r ==> final(self).active() == old(self).active().remove(
                old(self).active().index_of(dialog_id@),
            ),
            !r ==> *final(self) == *old(self),
            final(self).well_formed(),
            *final(self) == (SipLeg {
                active_dialog_ids: final(self).active_dialog_ids,
                ..*old(self)
            }),
    {
        let ghost before = self.active();
        let i = find_dialog(&self.active_dialog_ids, dialog_id);
        if i == self.active_dialog_ids.len() {
            return false;
        }
        let _gone = self.active_dialog_ids.remove(i);
        proof {
            let k = before.index_of(dialog_id@);
            assert(before[i as int] == dialog_id@ && before[k] == dialog_id@);
            assert(self.active() =~= before.remove(i as int));
            assert(!self.active().contains(dialog_id@)) by {
                if self.active().contains(dialog_id@) {
                    let j = self.active().index_of(dialog_id@);
                    assert(self.active()[j] == before[if j < i {
                        j
                    } else {
                        j + 1
                    }]);
                }
            }
            assert(self.active().no_duplicates()) by {
                assert forall|a: int, b: int|
                    0 <= a < self.active().len() && 0 <= b < self.active().len() && a
                        != b implies self.active()[a] != self.active()[b] by {
                    assert(self.active()[a] == before[if a < i {
                        a
                    } else {
                        a + 1
                    }]);
                    assert(self.active()[b] == before[if b < i {
                        b
                    } else {
                        b + 1
                    }]);
                }
            }
        }
        true
    }

    /// The dialogs that have been open.
    pub fn recorded_dialogs(&self) -> (r: Vec<DialogId>)
        ensures
            r@ == self.recorded_dialog_ids@,
    {
        copy_dialogs(&self.recorded_dialog_ids)
    }

    /// The dialog with an identifier, as text, among those that have been open.
    pub fn recorded_as(&self, text: &str) -> (r: Option<DialogId>)
        ensures
            match r {
                Some(d) => d@.text() == text@ && self.recorded().contains(d@),
                None => forall|i: int|
                    0 <= i < self.recorded().len() ==> (#[trigger] self.recorded()[i]).text() != text@,
            },
    {
        let mut i: usize = 0;
        while i < self.recorded_dialog_ids.len()
            invariant
                i <= self.recorded_dialog_ids.len(),
                forall|k: int| 0 <= k < i ==> (#[trigger] self.recorded()[k]).text() != text@,
            decreases self.recorded_dialog_ids.len() - i,
        {
            let t = self.recorded_dialog_ids[i].to_text();
            assert(self.recorded()[i as int] == self.recorded_dialog_ids@[i as int]@);
            if same(t.as_str(), text) {
                return Some(self.recorded_dialog_ids[i].copy());
            }
            i += 1;
        }
        None
    }

    /// Notes the dialog through which the call is connected.
    pub fn set_connected_dialog(&mut self, dialog_id: DialogId)
        ensures
            *final(self) == (SipLeg { connected_dialog_id: Some(dialog_id), ..*old(self) }),
    {
        self.connected_dialog_id = Some(dialog_id);
    }

    /// The dialog through which the call is connected.
    pub fn connected_dialog(&self) -> (r: Option<&DialogId>)
        ensures
            r == (match self.connected_dialog_id {
                Some(d) => Some(&d),
                None => None,
            }),
    {
        match &self.connected_dialog_id {
            Some(d) => Some(d),
            None => None,
        }
    }

    /// The contact of outbound requests: the routed one, else the server's own.
    pub fn local_contact_uri(routed_contact: Option<Uri>, default_contact: Option<Uri>) -> (r: Option<Uri>)
        ensures
            r == (if routed_contact is Some {
                routed_contact
            } else {
                default_contact
            }),
    {
        match routed_contact {
            Some(u) => Some(u),
            None => default_contact,
        }
    }

    /// The INVITE to a target. Its contact is the caller where none is given.
    pub fn build_outbound_invite_option(
        target: &Location,
        caller: Uri,
        caller_display_name: Option<String>,
        offer: Option<String>,
        contact: Option<Uri>,
        headers: Vec<Header>,
        max_forwards: u32,
        session_timer: Option<u64>,
        call_id: Option<String>,
    ) -> (r: InviteOption)
        ensures
            r.caller_display_name == caller_display_name,
            r.callee == target.aor,
            r.caller == caller,
            opt_text(r.content_type) == (if offer is Some {
                Some("application/sdp"@)
            } else {
                None
            }),
            r.offer == offer,
            r.destination == target.destination,
            r.contact == (match contact {
                Some(c) => c,
                None => caller,
            }),
            r.credential == target.credential,
            r.headers is Some,
            header_views(r.headers->0@) == outbound_headers(
                header_views(headers@),
                max_forwards,
                session_timer,
            ),
            r.call_id == call_id,
    {
        let content_type = if offer.is_some() {
            Some(own("application/sdp"))
        } else {
            None
        };
        let mut headers = headers;
        let ghost given = header_views(headers@);
        headers.push(Header::MaxForwards(max_forwards));
        assert(header_views(headers@) =~= given.push(HeaderView::MaxForwards(max_forwards)));
        if let Some(session_expires) = session_timer {
            let ghost base = header_views(headers@);
            headers.push(Header::Supported(own("timer")));
            assert(header_views(headers@) =~= base.push(HeaderView::Supported("timer"@)));
            let ghost more = header_views(headers@);
            headers.push(Header::Other(own("Session-Expires"), decimal_of(session_expires)));
            assert(header_views(headers@) =~= more.push(
                HeaderView::Other("Session-Expires"@, decimal(session_expires as nat)),
            ));
        }
        InviteOption {
            caller_display_name,
            callee: target.aor.copy(),
            contact: match contact {
                Some(c) => c,
                None => caller.copy(),
            },
            caller,
            content_type,
            offer,
            destination: match &target.destination {
                Some(d) => Some(d.copy()),
                None => None,
            },
            credential: match &target.credential {
                Some(c) => Some(c.copy()),
                None => None,
            },
            headers: Some(headers),
            call_id,
        }
    }

    /// Sets the timer from the first request of an inbound dialog. Too short an
    /// interval is refused with the shortest one that is accepted.
    pub fn init_timer_from_initial_request(&mut self, headers: &Vec<Header>, default_expires: u64) -> (r:
        Result<(), (u16, Option<String>)>)
        ensures
            ({
                let supported = exists|i: int|
                    0 <= i < headers.len() && names_timer((#[trigger] headers@[i])@);
                match timer_asked(
                    old(self).session_timer,
                    header_views(headers@),
                    supported,
                    default_expires,
                ) {
                    Some(t) => r is Ok && *final(self) == (SipLeg { session_timer: t, ..*old(self) }),
                    None => r is Err && r->Err_0.0 == 422 && opt_text(r->Err_0.1) == Some(
                        decimal(LOCAL_MIN_SE as nat),
                    ) && *final(self) == *old(self),
                }
            }),
    {
        let supported = has_timer_support(headers);
        match find_other_header(headers, "Session-Expires") {
            Some(value) => {
                if let Some((interval, refresher)) = parse_session_expires(value.as_str()) {
                    if interval < LOCAL_MIN_SE {
                        return Err((422, Some(decimal_of(LOCAL_MIN_SE))));
                    }
                    self.session_timer.enabled = true;
                    self.session_timer.session_interval = interval;
                    self.session_timer.active = true;
                    self.session_timer.refresher = match refresher {
                        Some(f) => f,
                        None => SessionRefresher::Uac,
                    };
                }
            },
            None => {
                self.session_timer.enabled = true;
                self.session_timer.session_interval = default_expires;
                self.session_timer.active = true;
                self.session_timer.refresher = if supported {
                    SessionRefresher::Uas
                } else {
                    SessionRefresher::Uac
                };
            },
        }
        Ok(())
    }

    /// Sets the timer from the final response to an outbound INVITE.
    pub fn init_timer_from_final_response(
        &mut self,
        headers: &Vec<Header>,
        default_expires: u64,
        now: u64,
    )
        ensures
            *final(self) == (SipLeg {
                session_timer: timer_granted(
                    old(self).session_timer,
                    header_views(headers@),
                    default_expires,
                    now,
                ),
                ..*old(self)
            }),
    {
        match find_other_header(headers, "Session-Expires") {
            Some(value) => {
                if let Some((interval, refresher)) = parse_session_expires(value.as_str()) {
                    self.session_timer = SessionTimerState {
                        enabled: true,
                        session_interval: interval,
                        active: true,
                        last_refresh: now,
                        refresher: match refresher {
                            Some(f) => f,
                            None => SessionRefresher::Uac,
                        },
                        refreshing: self.session_timer.refreshing,
                    };
                }
            },
            None => {
                self.session_timer = SessionTimerState {
                    enabled: true,
                    session_interval: default_expires,
                    active: true,
                    last_refresh: now,
                    refresher: SessionRefresher::Uac,
                    refreshing: self.session_timer.refreshing,
                };
            },
        }
    }

    /// Notes a refresh of the session by the other side.
    pub fn refresh_timer_state(session_timer: &mut SessionTimerState, headers: &Vec<Header>, now: u64)
        ensures
            *final(session_timer) == timer_refreshed(
                *old(session_timer),
                header_views(headers@),
                now,
            ),
    {
        if let Some(value) = find_other_header(headers, "Session-Expires") {
            if let Some((interval, refresher)) = parse_session_expires(value.as_str()) {
                session_timer.session_interval = interval;
                session_timer.update_refresh(now);
                session_timer.active = true;
                if let Some(f) = refresher {
                    session_timer.refresher = f;
                }
                return;
            }
        }
        if session_timer.active {
            session_timer.update_refresh(now);
        }
    }

    /// How the inbound dialog is ended: with BYE once it is answered, else with a
    /// refusal, 487 where no code is given. A dialog that is over is left alone.
    pub fn hangup_inbound_dialog(phase: DialogPhase, code: Option<u16>, reason: Option<String>) -> (r:
        InboundHangup)
        ensures
            r == (match phase {
                DialogPhase::Confirmed | DialogPhase::WaitAck => match reason {
                    Some(t) => InboundHangup::ByeWithReason(t),
                    None => InboundHangup::Bye,
                },
                DialogPhase::Pending => InboundHangup::Reject(
                    match code {
                        Some(c) => c,
                        None => 487u16,
                    },
                    reason,
                ),
                DialogPhase::Terminated => InboundHangup::Nothing,
            }),
    {
        match phase {
            DialogPhase::Confirmed | DialogPhase::WaitAck => match reason {
                Some(t) => InboundHangup::ByeWithReason(t),
                None => InboundHangup::Bye,
            },
            DialogPhase::Pending => InboundHangup::Reject(
                match code {
                    Some(c) => c,
                    None => 487,
                },
                reason,
            ),
            DialogPhase::Terminated => InboundHangup::Nothing,
        }
    }
}

/// A copy of a list of dialogs.
pub fn copy_dialogs(v: &Vec<DialogId>) -> (r: Vec<DialogId>)
    ensures
        r@ == v@,
{
    let mut out: Vec<DialogId> = Vec::new();
    let mut i: usize = 0;
    while i < v.len()
        invariant
            i <= v.len(),
            out@ == v@.take(i as int),
        decreases v.len() - i,
    {
        out.push(v[i].copy());
        assert(out@ =~= v@.take(i + 1));
        i += 1;
    }
    assert(out@ =~= v@);
    out
}

/// How a request of the caller within its dialog is answered.
#[derive(Clone, Debug)]
pub enum ServerReply {
    /// With this description.
    Accept(String),
    Reject(u16),
    Nothing,
}

/// What to do with an offer that a re-INVITE or UPDATE of the caller brought.
#[derive(Clone, Debug)]
pub struct ForwardedOffer {
    pub dialog_id: DialogId,
    pub as_invite: bool,
}

impl SipLeg {
    /// The reply to a re-INVITE of the caller: the answer to it; without one the
    /// offer is not acceptable.
    pub fn reply_to_server_reinvite(answer_sdp: Option<String>) -> (r: ServerReply)
        ensures
            r == (match answer_sdp {
                Some(sdp) => ServerReply::Accept(sdp),
                None => ServerReply::Reject(488),
            }),
    {
        match answer_sdp {
            Some(sdp) => ServerReply::Accept(sdp),
            None => ServerReply::Reject(488),
        }
    }

    /// The reply to an UPDATE of the caller that offers nothing: the answer that is in
    /// force, where there is one.
    pub fn reply_to_server_offerless_update(answer_sdp: Option<String>) -> (r: ServerReply)
        ensures
            r == (match answer_sdp {
                Some(sdp) => ServerReply::Accept(sdp),
                None => ServerReply::Nothing,
            }),
    {
        match answer_sdp {
            Some(sdp) => ServerReply::Accept(sdp),
            None => ServerReply::Nothing,
        }
    }

    /// Where and how the caller's offer is sent on: on the connected dialog, as the
    /// kind of request that brought it.
    pub fn forward_remote_offer(&self, method_is_invite: bool) -> (r: Option<ForwardedOffer>)
        ensures
            r == (match self.connected_dialog_id {
                Some(d) => Some(ForwardedOffer { dialog_id: d, as_invite: method_is_invite }),
                None => None,
            }),
    {
        match &self.connected_dialog_id {
            Some(d) => Some(ForwardedOffer { dialog_id: d.copy(), as_invite: method_is_invite }),
            None => None,
        }
    }
}

/// A timer that a request or response sets is in force, unless the request is
/// refused or says nothing readable.
pub proof fn timer_is_in_force(t: SessionTimerState, headers: Seq<HeaderView>, supported: bool, d: u64)
    requires
        other_header(headers, "Session-Expires"@) is None
            || session_expires(other_header(headers, "Session-Expires"@)->0) is Some,
    ensures
        match timer_asked(t, headers, supported, d) {
            Some(n) => n.active && n.enabled && (n.session_interval >= LOCAL_MIN_SE
                || n.session_interval == d),
            None => other_header(headers, "Session-Expires"@) is Some,
        },
{
}

/// A dialog that is entered and then over is no longer open, but stays recorded.
pub proof fn ended_dialog_stays_recorded(active: Seq<DialogIdView>, recorded: Seq<DialogIdView>, id: DialogIdView)
    requires
        active.no_duplicates(),
    ensures
        dialog_added(active, id).contains(id),
        dialog_added(active, id).no_duplicates(),
        dialog_added(recorded, id).contains(id),
        !dialog_added(active, id).remove(dialog_added(active, id).index_of(id)).contains(id),
{
    let a = dialog_added(active, id);
    let r = dialog_added(recorded, id);
    if !active.contains(id) {
        assert(a[a.len() - 1] == id);
    }
    if !recorded.contains(id) {
        assert(r[r.len() - 1] == id);
    }
    let k = a.index_of(id);
    let rest = a.remove(k);
    if rest.contains(id) {
        let j = rest.index_of(id);
        assert(rest[j] == a[if j < k {
            j
        } else {
            j + 1
        }]);
    }
}

/// Whether the first `Session-Expires` header of a message stands at `i` and has this
/// value.
pub open spec fn asks_for_interval(h: Seq<HeaderView>, i: int, value: Seq<char>) -> bool {
    &&& 0 <= i < h.len()
    &&& h[i] is Other && lower(h[i]->Other_0) == lower("Session-Expires"@) && h[i]->Other_1 == value
    &&& forall|k: int|
        0 <= k < i ==> !((#[trigger] h[k]) is Other && lower(h[k]->Other_0) == lower(
            "Session-Expires"@,
        ))
}

/// A timer runs with the interval that the header of a message names, by the side that
/// it names, else by the client. A request that asks for less than the shortest
/// interval is refused.
pub proof fn timer_has_the_interval_of_the_header(
    t: SessionTimerState,
    h: Seq<HeaderView>,
    i: int,
    n: u64,
    side: SessionRefresher,
    supported: bool,
    default_expires: u64,
    now: u64,
)
    ensures
        asks_for_interval(h, i, decimal(n as nat)) ==> {
            &&& timer_asked(t, h, supported, default_expires) is None <==> n < LOCAL_MIN_SE
            &&& timer_asked(t, h, supported, default_expires) matches Some(a) ==> a.active && a.enabled
                && a.session_interval == n && a.refresher is Uac && a.last_refresh == t.last_refresh
            &&& ({
                let g = timer_granted(t, h, default_expires, now);
                g.active && g.enabled && g.session_interval == n && g.refresher is Uac
                    && g.last_refresh == now
            })
            &&& ({
                let f = timer_refreshed(t, h, now);
                f.active && f.session_interval == n && f.refresher == t.refresher && f.last_refresh
                    == now
            })
        },
        asks_for_interval(h, i, decimal(n as nat) + ";refresher="@ + side.name_text()) ==> {
            &&& timer_asked(t, h, supported, default_expires) is None <==> n < LOCAL_MIN_SE
            &&& timer_asked(t, h, supported, default_expires) matches Some(a) ==> a.active
                && a.session_interval == n && a.refresher == side
            &&& timer_granted(t, h, default_expires, now).session_interval == n
            &&& timer_granted(t, h, default_expires, now).refresher == side
            &&& timer_refreshed(t, h, now).session_interval == n
            &&& timer_refreshed(t, h, now).refresher == side
        },
{
    session_interval_is_read_back(n, side);
    if asks_for_interval(h, i, decimal(n as nat)) || asks_for_interval(
        h,
        i,
        decimal(n as nat) + ";refresher="@ + side.name_text(),
    ) {
        first_header_of_a_name_counts(h, "Session-Expires"@, i);
    }
}

/// Without the header a timer runs with the default interval: the server refreshes
/// where the client knows of timers, the client after a response. A refresh without it
/// keeps a running timer alive and starts none.
pub proof fn timer_has_the_default_interval(
    t: SessionTimerState,
    h: Seq<HeaderView>,
    supported: bool,
    default_expires: u64,
    now: u64,
)
    requires
        forall|k: int|
            0 <= k < h.len() ==> !((#[trigger] h[k]) is Other && lower(h[k]->Other_0) == lower(
                "Session-Expires"@,
            )),
    ensures
        timer_asked(t, h, supported, default_expires) matches Some(a) && a.active
            && a.session_interval == default_expires && (a.refresher is Uas <==> supported),
        timer_granted(t, h, default_expires, now).active,
        timer_granted(t, h, default_expires, now).session_interval == default_expires,
        timer_granted(t, h, default_expires, now).last_refresh == now,
        timer_granted(t, h, default_expires, now).refresher is Uac,
        t.active ==> timer_refreshed(t, h, now).last_refresh == now,
        !t.active ==> timer_refreshed(t, h, now) == t,
        timer_refreshed(t, h, now).active == t.active,
        timer_refreshed(t, h, now).session_interval == t.session_interval,
        timer_refreshed(t, h, now).refresher == t.refresher,
{
    first_header_of_a_name_counts(h, "Session-Expires"@, h.len() as int);
}

/// An INVITE has the headers that are given, in their order, then the hops that it may
/// take, then its session timer where it asks for one, and nothing else.
pub proof fn invite_has_its_headers_in_order(given: Seq<HeaderView>, hops: u32, timer: Option<u64>)
    ensures
        ({
            let h = outbound_headers(given, hops, timer);
            &&& h.take(given.len() as int) == given
            &&& h[given.len() as int] == HeaderView::MaxForwards(hops)
            &&& timer is None ==> h.len() == given.len() + 1
            &&& timer matches Some(t) ==> {
                &&& h.len() == given.len() + 3
                &&& names_timer(h[(given.len() + 1) as int])
                &&& h[(given.len() + 2) as int] == HeaderView::Other("Session-Expires"@, decimal(t as nat))
            }
        }),
{
    let h = outbound_headers(given, hops, timer);
    assert(h.take(given.len() as int) =~= given);
    timer_is_named_anywhere_in_the_list(Seq::empty(), Seq::empty());
}

/// Trickled candidates are supported where the own header says 1, true or yes, and where
/// a list of extensions has them; other headers say nothing of them.
pub proof fn trickling_is_supported_where_said(v: Seq<char>)
    ensures
        names_trickle_ice(HeaderView::Other("X-RustPBX-Trickle-ICE"@, v)) <==> trimmed(v) == "1"@
            || trimmed(v) == "true"@ || trimmed(v) == "yes"@,
        names_trickle_ice(HeaderView::Other("Supported"@, "trickle-ice"@)),
        names_trickle_ice(HeaderView::Other("Supported"@, v + seq![','] + "trickle-ice"@)),
        names_trickle_ice(HeaderView::Supported(v + seq![','] + "trickle-ice"@)),
        !names_trickle_ice(HeaderView::UserAgent(v)) && !names_trickle_ice(HeaderView::Contact(v)),
{
    reveal_strlit("X-RustPBX-Trickle-ICE");
    reveal_strlit("Supported");
    reveal_strlit("trickle-ice");
    reveal_strlit("Supported: ");
    let t = "trickle-ice"@;
    let none = Seq::<char>::empty();
    assert("Supported"@.len() == 9 && "X-RustPBX-Trickle-ICE"@.len() == 21);
    assert(lower("Supported"@).len() == 9 && lower("X-RustPBX-Trickle-ICE"@).len() == 21);
    assert(!t.contains(',')) by {
        assert forall|i: int| 0 <= i < t.len() implies t[i] != ',' by {}
    }
    text_is_split_at_each(t, ',', none);
    text_without_white_ends_is_trimmed(t);
    assert(same_ignoring_case(trimmed(split_on(t, ',')[0]), t));
    text_is_split_at_each(v, ',', t);
    let r = split_on(v + seq![','] + t, ',');
    assert(r[r.len() - 1] == t);
    let s = "Supported: "@ + v;
    assert("Supported: "@ + (v + seq![','] + t) =~= s + seq![','] + t);
    text_is_split_at_each(s, ',', t);
    let q = split_on(s + seq![','] + t, ',');
    assert(q[q.len() - 1] == t);
}

/// A timer that a message sets is in use.
pub proof fn timer_that_is_set_is_in_use(t: SessionTimerState, h: Seq<HeaderView>, supported: bool, d: u64, now: u64)
    requires
        other_header(h, "Session-Expires"@) is None,
    ensures
        timer_asked(t, h, supported, d) matches Some(a) && a.enabled && a.refreshing == t.refreshing,
        timer_granted(t, h, d, now).enabled && timer_granted(t, h, d, now).refreshing == t.refreshing,
{
}

} // verus!
