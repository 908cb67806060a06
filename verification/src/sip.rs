//! The parts of SIP messages that call handling reads: addresses, headers,
//! methods and response classes, held as plain values.
use vstd::prelude::*;
use crate::text::{decimal, decimal_of, has_prefix, has_suffix, join3, opt_text, own, own_opt};

verus! {

/// The transport of a SIP address.
#[derive(Clone, Copy, Debug, PartialEq, Eq, Structural)]
pub enum Transport {
    Udp,
    Tcp,
    Tls,
    Sctp,
    TlsSctp,
    Ws,
    Wss,
}

/// A SIP URI. `scheme` is the text before the user part with its colon
/// (`sip:`), empty where there is none; `params` is the text after the host
/// and port (`;transport=ws`).
#[derive(Clone, Debug)]
pub struct Uri {
    pub scheme: String,
    pub user: Option<String>,
    pub password: Option<String>,
    pub host: String,
    pub port: Option<u16>,
    pub params: String,
}

/// A network address with its transport.
#[derive(Clone, Debug)]
pub struct SipAddr {
    pub transport: Option<Transport>,
    pub host: String,
    pub port: Option<u16>,
}

/// The text `host` or `host:port`.
pub open spec fn host_port_text(host: Seq<char>, port: Option<u16>) -> Seq<char> {
    match port {
        Some(p) => host.push(':') + decimal(p as nat),
        None => host,
    }
}

/// `host` or `host:port`.
pub fn host_port(host: &str, port: Option<u16>) -> (r: String)
    ensures
        r@ == host_port_text(host@, port),
{
    let mut out = own(host);
    if let Some(p) = port {
        out.push(':');
        let d = decimal_of(p as u64);
        out.append(d.as_str());
    }
    out
}

/// The contents of a URI.
pub struct UriView {
    pub scheme: Seq<char>,
    pub user: Option<Seq<char>>,
    pub password: Option<Seq<char>>,
    pub host: Seq<char>,
    pub port: Option<u16>,
    pub params: Seq<char>,
}

impl UriView {
    /// The user part, empty where there is none.
    pub open spec fn user_text(self) -> Seq<char> {
        match self.user {
            Some(u) => u,
            None => Seq::empty(),
        }
    }

    /// The part before the at sign, with it.
    pub open spec fn auth_text(self) -> Seq<char> {
        match (self.user, self.password) {
            (None, _) => Seq::empty(),
            (Some(u), None) => u.push('@'),
            (Some(u), Some(p)) => (u.push(':') + p).push('@'),
        }
    }

    /// The URI as it is written.
    pub open spec fn text(self) -> Seq<char> {
        self.scheme + self.auth_text() + host_port_text(self.host, self.port) + self.params
    }

    /// The text `user@host`.
    pub open spec fn user_at_host(self) -> Seq<char> {
        self.user_text().push('@') + self.host
    }
}

impl View for Uri {
    type V = UriView;

    open spec fn view(&self) -> UriView {
        UriView {
            scheme: self.scheme@,
            user: opt_text(self.user),
            password: opt_text(self.password),
            host: self.host@,
            port: self.port,
            params: self.params@,
        }
    }
}

impl Uri {
    /// The user part, empty where there is none.
    pub open spec fn user_text(self) -> Seq<char> {
        self@.user_text()
    }

    /// The URI as it is written.
    pub open spec fn text(self) -> Seq<char> {
        self@.text()
    }

    /// The URI as it is written.
    pub fn to_text(&self) -> (r: String)
        ensures
            r@ == self.text(),
    {
        let mut auth = String::new();
        if let Some(u) = &self.user {
            auth.append(u.as_str());
            if let Some(p) = &self.password {
                auth.push(':');
                auth.append(p.as_str());
            }
            auth.push('@');
        }
        assert(auth@ =~= self@.auth_text());
        let hp = host_port(self.host.as_str(), self.port);
        let mut out = self.scheme.clone();
        out.append(auth.as_str());
        out.append(hp.as_str());
        out.append(self.params.as_str());
        out
    }

    /// The user part, empty where there is none.
    pub fn user_or_empty(&self) -> (r: String)
        ensures
            r@ == self.user_text(),
    {
        match &self.user {
            Some(u) => u.clone(),
            None => String::new(),
        }
    }

    /// The text `user@host`.
    pub fn to_user_at_host(&self) -> (r: String)
        ensures
            r@ == self@.user_at_host(),
    {
        let mut out = self.user_or_empty();
        out.push('@');
        out.append(self.host.as_str());
        out
    }

    /// A copy.
    pub fn copy(&self) -> (r: Uri)
        ensures
            r == *self,
    {
        Uri {
            scheme: self.scheme.clone(),
            user: own_opt(&self.user),
            password: own_opt(&self.password),
            host: self.host.clone(),
            port: self.port,
            params: self.params.clone(),
        }
    }
}

/// What `rsip` reads from the text of a URI.
pub uninterp spec fn parsed_uri(text: Seq<char>) -> Option<UriView>;

/// `rsip::Uri::try_from`: the URI that a text gives; `None` where it is none.
#[verifier::external_body]
pub(crate) fn parse_uri(text: &str) -> (r: Option<Uri>)
    ensures
        parsed_uri(text@) == (match r {
            Some(u) => Some(u@),
            None => None,
        }),
{
    let u = rsip::Uri::try_from(text).ok()?;
    let scheme = match u.scheme {
        Some(rsip::Scheme::Other(s)) => format!("{}://", s),
        Some(s) => format!("{}:", s),
        None => String::new(),
    };
    let (user, password) = u.auth.map_or((None, None), |a| (Some(a.user), a.password));
    let host = u.host_with_port.host.to_string();
    let port = u.host_with_port.port.map(|p| p.into());
    let params = u.params.iter().map(|p| p.to_string()).collect();
    Some(Uri { scheme, user, password, host, port, params })
}

impl Transport {
    /// The name of the transport.
    pub open spec fn name_text(self) -> Seq<char> {
        match self {
            Transport::Udp => "UDP"@,
            Transport::Tcp => "TCP"@,
            Transport::Tls => "TLS"@,
            Transport::Sctp => "SCTP"@,
            Transport::TlsSctp => "TLS-SCTP"@,
            Transport::Ws => "WS"@,
            Transport::Wss => "WSS"@,
        }
    }

    /// The name of the transport.
    pub fn name(&self) -> (r: String)
        ensures
            r@ == self.name_text(),
    {
        match self {
            Transport::Udp => own("UDP"),
            Transport::Tcp => own("TCP"),
            Transport::Tls => own("TLS"),
            Transport::Sctp => own("SCTP"),
            Transport::TlsSctp => own("TLS-SCTP"),
            Transport::Ws => own("WS"),
            Transport::Wss => own("WSS"),
        }
    }
}

impl AddrView {
    /// The address as text: the transport, where it is known, and the host and port.
    pub open spec fn text(self) -> Seq<char> {
        match self.transport {
            Some(t) => t.name_text() + " "@ + host_port_text(self.host, self.port),
            None => host_port_text(self.host, self.port),
        }
    }
}

impl SipAddr {
    /// The address as text.
    pub fn to_text(&self) -> (r: String)
        ensures
            r@ == self@.text(),
    {
        let addr = host_port(self.host.as_str(), self.port);
        match &self.transport {
            Some(t) => {
                let name = t.name();
                join3(name.as_str(), " ", addr.as_str())
            },
            None => addr,
        }
    }
    /// A copy.
    pub fn copy(&self) -> (r: SipAddr)
        ensures
            r == *self,
    {
        SipAddr { transport: self.transport, host: self.host.clone(), port: self.port }
    }

    /// Whether two addresses have the same transport, host and port.
    pub open spec fn same_as(self, other: SipAddr) -> bool {
        self.transport == other.transport && self.host@ == other.host@ && self.port == other.port
    }

    pub fn same(&self, other: &SipAddr) -> (r: bool)
        ensures
            r == self.same_as(*other),
    {
        let t = match (self.transport, other.transport) {
            (Some(a), Some(b)) => a == b,
            (None, None) => true,
            _ => false,
        };
        let p = match (self.port, other.port) {
            (Some(a), Some(b)) => a == b,
            (None, None) => true,
            _ => false,
        };
        t && p && self.host == other.host
    }
}

/// A header of a SIP message. The variants are those that call handling tells
/// apart, with the header's value; `Typed` is any other header that the parser
/// knows by name.
#[derive(Clone, Debug)]
pub enum Header {
    Other(String, String),
    UserAgent(String),
    Contact(String),
    Supported(String),
    ContentType(String),
    MaxForwards(u32),
    Typed(String, String),
}

impl Header {
    /// A copy.
    pub fn copy(&self) -> (r: Header)
        ensures
            r == *self,
    {
        match self {
            Header::Other(n, v) => Header::Other(n.clone(), v.clone()),
            Header::UserAgent(v) => Header::UserAgent(v.clone()),
            Header::Contact(v) => Header::Contact(v.clone()),
            Header::Supported(v) => Header::Supported(v.clone()),
            Header::ContentType(v) => Header::ContentType(v.clone()),
            Header::MaxForwards(n) => Header::MaxForwards(*n),
            Header::Typed(n, v) => Header::Typed(n.clone(), v.clone()),
        }
    }
}

/// The contents of a header.
pub enum HeaderView {
    Other(Seq<char>, Seq<char>),
    UserAgent(Seq<char>),
    Contact(Seq<char>),
    Supported(Seq<char>),
    ContentType(Seq<char>),
    MaxForwards(u32),
    Typed(Seq<char>, Seq<char>),
}

impl View for Header {
    type V = HeaderView;

    open spec fn view(&self) -> HeaderView {
        match self {
            Header::Other(n, v) => HeaderView::Other(n@, v@),
            Header::UserAgent(v) => HeaderView::UserAgent(v@),
            Header::Contact(v) => HeaderView::Contact(v@),
            Header::Supported(v) => HeaderView::Supported(v@),
            Header::ContentType(v) => HeaderView::ContentType(v@),
            Header::MaxForwards(n) => HeaderView::MaxForwards(*n),
            Header::Typed(n, v) => HeaderView::Typed(n@, v@),
        }
    }
}

/// The contents of a list of headers.
pub open spec fn header_views(h: Seq<Header>) -> Seq<HeaderView> {
    h.map_values(|x: Header| x@)
}

/// What a request is authenticated with.
#[derive(Clone, Debug)]
pub struct Credential {
    pub username: String,
    pub password: String,
    pub realm: Option<String>,
}

impl Credential {
    /// A copy.
    pub fn copy(&self) -> (r: Credential)
        ensures
            r == *self,
    {
        Credential {
            username: self.username.clone(),
            password: self.password.clone(),
            realm: own_opt(&self.realm),
        }
    }
}

/// The contents of a credential.
pub struct CredentialView {
    pub username: Seq<char>,
    pub password: Seq<char>,
    pub realm: Option<Seq<char>>,
}

impl View for Credential {
    type V = CredentialView;

    open spec fn view(&self) -> CredentialView {
        CredentialView {
            username: self.username@,
            password: self.password@,
            realm: opt_text(self.realm),
        }
    }
}

/// The contents of an address.
pub struct AddrView {
    pub transport: Option<Transport>,
    pub host: Seq<char>,
    pub port: Option<u16>,
}

impl View for SipAddr {
    type V = AddrView;

    open spec fn view(&self) -> AddrView {
        AddrView { transport: self.transport, host: self.host@, port: self.port }
    }
}

/// An INVITE that is about to be sent.
#[derive(Debug)]
pub struct InviteOption {
    pub caller_display_name: Option<String>,
    pub caller: Uri,
    pub callee: Uri,
    pub contact: Uri,
    pub content_type: Option<String>,
    pub offer: Option<String>,
    pub destination: Option<SipAddr>,
    pub credential: Option<Credential>,
    pub headers: Option<Vec<Header>>,
    pub call_id: Option<String>,
}

/// The contents of an INVITE.
pub struct InviteView {
    pub caller_display_name: Option<Seq<char>>,
    pub caller: UriView,
    pub callee: UriView,
    pub contact: UriView,
    pub content_type: Option<Seq<char>>,
    pub offer: Option<Seq<char>>,
    pub destination: Option<AddrView>,
    pub credential: Option<CredentialView>,
    pub headers: Option<Seq<HeaderView>>,
    pub call_id: Option<Seq<char>>,
}

impl View for InviteOption {
    type V = InviteView;

    open spec fn view(&self) -> InviteView {
        InviteView {
            caller_display_name: opt_text(self.caller_display_name),
            caller: self.caller@,
            callee: self.callee@,
            contact: self.contact@,
            content_type: opt_text(self.content_type),
            offer: opt_text(self.offer),
            destination: match self.destination {
                Some(d) => Some(d@),
                None => None,
            },
            credential: match self.credential {
                Some(c) => Some(c@),
                None => None,
            },
            headers: match self.headers {
                Some(h) => Some(header_views(h@)),
                None => None,
            },
            call_id: opt_text(self.call_id),
        }
    }
}

impl InviteView {
    /// The headers, none where there is no list of them.
    pub open spec fn header_list(self) -> Seq<HeaderView> {
        match self.headers {
            Some(h) => h,
            None => Seq::empty(),
        }
    }
}

impl InviteOption {
    /// Appends a header; the list is made where there is none.
    pub fn push_header(&mut self, header: Header)
        ensures
            final(self)@ == (InviteView {
                headers: Some(old(self)@.header_list().push(header@)),
                ..old(self)@
            }),
    {
        let mut list = match self.headers.take() {
            Some(h) => h,
            None => Vec::new(),
        };
        let ghost before = list@;
        list.push(header);
        assert(header_views(list@) =~= header_views(before).push(header@));
        assert(header_views(before) =~= old(self)@.header_list());
        self.headers = Some(list);
    }
}

/// A request method.
#[derive(Clone, Copy, Debug, PartialEq, Eq, Structural)]
pub enum Method {
    Ack,
    Bye,
    Cancel,
    Info,
    Invite,
    Message,
    Notify,
    Options,
    PRack,
    Publish,
    Refer,
    Register,
    Subscribe,
    Update,
}

/// Whether a response code is of the class 2xx.
pub open spec fn is_success(code: u16) -> bool {
    200 <= code < 300
}

/// Whether a response code is of the class 2xx.
pub fn is_successful(code: u16) -> (r: bool)
    ensures
        r == is_success(code),
{
    200 <= code && code < 300
}

impl Method {
    /// The name of the method in a request.
    pub open spec fn name_text(self) -> Seq<char> {
        match self {
            Method::Ack => "ACK"@,
            Method::Bye => "BYE"@,
            Method::Cancel => "CANCEL"@,
            Method::Info => "INFO"@,
            Method::Invite => "INVITE"@,
            Method::Message => "MESSAGE"@,
            Method::Notify => "NOTIFY"@,
            Method::Options => "OPTIONS"@,
            Method::PRack => "PRACK"@,
            Method::Publish => "PUBLISH"@,
            Method::Refer => "REFER"@,
            Method::Register => "REGISTER"@,
            Method::Subscribe => "SUBSCRIBE"@,
            Method::Update => "UPDATE"@,
        }
    }

    /// The name of the method in a request.
    pub fn name(&self) -> (r: String)
        ensures
            r@ == self.name_text(),
    {
        match self {
            Method::Ack => own("ACK"),
            Method::Bye => own("BYE"),
            Method::Cancel => own("CANCEL"),
            Method::Info => own("INFO"),
            Method::Invite => own("INVITE"),
            Method::Message => own("MESSAGE"),
            Method::Notify => own("NOTIFY"),
            Method::Options => own("OPTIONS"),
            Method::PRack => own("PRACK"),
            Method::Publish => own("PUBLISH"),
            Method::Refer => own("REFER"),
            Method::Register => own("REGISTER"),
            Method::Subscribe => own("SUBSCRIBE"),
            Method::Update => own("UPDATE"),
        }
    }
}

/// A URI is written with all that it has, in order: the scheme, the user and the
/// password before the at sign, the host and the port behind it, and the parameters.
pub proof fn uri_is_written_in_full(u: UriView)
    ensures
        has_prefix(u.text(), u.scheme),
        has_suffix(u.text(), u.params),
        u.user is None && u.port is None ==> u.text() == u.scheme + u.host + u.params,
        u.user is None ==> (u.port matches Some(p) ==> u.text() == u.scheme + (u.host + seq![':']
            + decimal(p as nat)) + u.params),
        u.user matches Some(x) ==> u.password is None && u.port is None ==> u.text() == u.scheme + (x + seq![
            '@',
        ]) + u.host + u.params,
        u.user matches Some(x) ==> (u.password matches Some(w) ==> u.port is None ==> u.text() == u.scheme
            + (x + seq![':'] + w + seq!['@']) + u.host + u.params),
{
    let t = u.text();
    assert(t.take(u.scheme.len() as int) =~= u.scheme);
    assert(t.skip(t.len() - u.params.len()) =~= u.params);
    if u.user is None {
        if let Some(p) = u.port {
            assert(t =~= u.scheme + (u.host + seq![':'] + decimal(p as nat)) + u.params);
        } else {
            assert(t =~= u.scheme + u.host + u.params);
        }
    }
    if let Some(x) = u.user {
        if u.port is None {
            if let Some(w) = u.password {
                assert(t =~= u.scheme + (x + seq![':'] + w + seq!['@']) + u.host + u.params);
            } else {
                assert(t =~= u.scheme + (x + seq!['@']) + u.host + u.params);
            }
        }
    }
}

/// Two addresses are the same only if transport, host and port are.
pub proof fn addresses_differ_in_each_part(a: SipAddr, b: SipAddr)
    ensures
        a.transport != b.transport ==> !a.same_as(b),
        a.host@ != b.host@ ==> !a.same_as(b),
        a.port != b.port ==> !a.same_as(b),
        a.transport == b.transport && a.host@ == b.host@ && a.port == b.port ==> a.same_as(b),
{
}

/// The address of record of a URI is its user, an at sign and its host, whatever else it
/// has.
pub proof fn address_of_record_is_user_and_host(u: UriView)
    ensures
        u.user matches Some(x) ==> u.user_at_host() == x + seq!['@'] + u.host,
        u.user is None ==> u.user_at_host() == seq!['@'] + u.host,
{
    if let Some(x) = u.user {
        assert(u.user_at_host() =~= x + seq!['@'] + u.host);
    } else {
        assert(u.user_at_host() =~= seq!['@'] + u.host);
    }
}

} // verus!
