//! The SIP server: what it listens on, which modules it runs, which realms it
//! serves, and what it does with the requests that come in.
use vstd::prelude::*;
use crate::host::{ip_address, is_ip_address};
use crate::matcher::{to_lowercase, unicode_lower};
use crate::sip::{AddrView, Method, SipAddr, Transport, Uri, UriView};
use crate::text::{
    after, before, decimal, has_suffix, join2, own, own_opt, parse_number, parse_unsigned, same,
    split_first, text_is_parted_at_the_first, texts, written_number_is_read_back,
};

verus! {

/// Why a server could not be built.
#[derive(Clone, Copy, Debug, PartialEq, Eq, Structural)]
pub enum BuildError {
    UserBackend,
    Locator,
    LocalAddress,
    ExternalAddress,
    NoPort,
    MissingCertificate,
    MissingPrivateKey,
    DataContext,
}

/// What a server is configured with.
#[derive(Clone, Debug)]
pub struct ServerConfig {
    pub addr: String,
    pub external_ip: Option<String>,
    pub udp_port: Option<u16>,
    pub tcp_port: Option<u16>,
    pub tls_port: Option<u16>,
    pub ws_port: Option<u16>,
    pub ssl_certificate: Option<String>,
    pub ssl_private_key: Option<String>,
    pub realms: Option<Vec<String>>,
    pub useragent: Option<String>,
    pub callid_suffix: Option<String>,
    pub max_concurrency: Option<usize>,
    pub t1_timer: Option<u64>,
    pub t1x64_timer: Option<u64>,
    pub nat_fix: bool,
    pub http_router: bool,
    pub modules: Option<Vec<String>>,
}

/// A transport that the server listens on.
#[derive(Clone, Copy, Debug, PartialEq, Eq, Structural)]
pub struct Listener {
    pub transport: Transport,
    pub port: u16,
}

/// What is known of the surroundings that a server is built in.
#[derive(Clone, Copy, Debug)]
pub struct BuildInputs {
    /// Whether there is a user backend, given or built.
    pub user_backend: bool,
    /// Whether there is a locator, given or created.
    pub locator: bool,
    pub certificate_exists: bool,
    pub private_key_exists: bool,
    /// Whether there is a data context, given or created.
    pub data_context: bool,
    /// Whether the signalling is stored.
    pub stores_signalling: bool,
    /// Whether a call router was given.
    pub call_router: bool,
}

/// Where a message inspector comes from.
#[derive(Clone, Copy, Debug, PartialEq, Eq, Structural)]
pub enum InspectorSlot {
    Nat,
    /// One of those that were given, by its position.
    Given(usize),
    CapabilityHeaders,
    SignallingStore,
}

/// How calls are routed to targets.
#[derive(Clone, Copy, Debug, PartialEq, Eq, Structural)]
pub enum RouterChoice {
    Given,
    Http,
    Default,
}

/// What a server is built from.
#[derive(Debug)]
pub struct ServerPlan {
    pub listeners: Vec<Listener>,
    /// The name under which the server sends, and what its call identifiers end with,
    /// where they are set.
    pub user_agent: Option<String>,
    pub callid_suffix: Option<String>,
    /// The retransmission timers in milliseconds, where they are set.
    pub t1: Option<u64>,
    pub t1x64: Option<u64>,
    /// The message inspectors in the order in which they see a message.
    pub inspectors: Vec<InspectorSlot>,
    pub router: RouterChoice,
}

/// What a server is built with.
#[derive(Debug)]
pub struct SipServerBuilder {
    pub config: ServerConfig,
    pub module_names: Vec<String>,
    pub message_inspectors: usize,
    pub ignore_out_of_dialog_request: bool,
    pub no_bind: bool,
    pub skip_migrate: bool,
}

/// The listener on a transport, where a port is set.
pub open spec fn on_port(transport: Transport, port: Option<u16>) -> Seq<Listener> {
    match port {
        Some(p) => seq![Listener { transport, port: p }],
        None => Seq::empty(),
    }
}

/// The listeners of a server: UDP, TCP, TLS and WS, each where its port is set; TLS
/// only where its files exist.
pub open spec fn listeners_of(c: ServerConfig, tls_files: bool) -> Seq<Listener> {
    on_port(Transport::Udp, c.udp_port) + on_port(Transport::Tcp, c.tcp_port) + (if tls_files {
        on_port(Transport::Tls, c.tls_port)
    } else {
        Seq::empty()
    }) + on_port(Transport::Ws, c.ws_port)
}

/// Why a server cannot listen as it is configured to; the first reason counts.
pub open spec fn listen_error(c: ServerConfig) -> Option<BuildError> {
    if !ip_address(c.addr@) {
        Some(BuildError::LocalAddress)
    } else if c.external_ip is Some && !ip_address(c.external_ip->0@) {
        Some(BuildError::ExternalAddress)
    } else if c.udp_port is None && c.tcp_port is None && c.tls_port is None && c.ws_port is None {
        Some(BuildError::NoPort)
    } else if c.tls_port is Some && c.ssl_certificate is None {
        Some(BuildError::MissingCertificate)
    } else if c.tls_port is Some && c.ssl_private_key is None {
        Some(BuildError::MissingPrivateKey)
    } else {
        None
    }
}

fn check_listen(c: &ServerConfig) -> (r: Result<(), BuildError>)
    ensures
        match listen_error(*c) {
            Some(e) => r == Err::<(), BuildError>(e),
            None => r is Ok,
        },
{
    if !is_ip_address(c.addr.as_str()) {
        return Err(BuildError::LocalAddress);
    }
    if let Some(ip) = &c.external_ip {
        if !is_ip_address(ip.as_str()) {
            return Err(BuildError::ExternalAddress);
        }
    }
    if c.udp_port.is_none() && c.tcp_port.is_none() && c.tls_port.is_none() && c.ws_port.is_none() {
        return Err(BuildError::NoPort);
    }
    if c.tls_port.is_some() && c.ssl_certificate.is_none() {
        return Err(BuildError::MissingCertificate);
    }
    if c.tls_port.is_some() && c.ssl_private_key.is_none() {
        return Err(BuildError::MissingPrivateKey);
    }
    Ok(())
}

fn add_listener(v: &mut Vec<Listener>, transport: Transport, port: Option<u16>)
    ensures
        final(v)@ == old(v)@ + on_port(transport, port),
{
    if let Some(p) = port {
        v.push(Listener { transport, port: p });
    }
    assert(v@ =~= old(v)@ + on_port(transport, port));
}

fn plan_listeners(c: &ServerConfig, tls_files: bool) -> (r: Vec<Listener>)
    ensures
        r@ == listeners_of(*c, tls_files),
{
    let mut v: Vec<Listener> = Vec::new();
    add_listener(&mut v, Transport::Udp, c.udp_port);
    add_listener(&mut v, Transport::Tcp, c.tcp_port);
    if tls_files {
        add_listener(&mut v, Transport::Tls, c.tls_port);
    }
    add_listener(&mut v, Transport::Ws, c.ws_port);
    assert(v@ =~= listeners_of(*c, tls_files));
    v
}

/// The given inspectors, by position.
pub open spec fn given_slots(n: nat) -> Seq<InspectorSlot> {
    Seq::new(n, |i: int| InspectorSlot::Given(i as usize))
}

/// The message inspectors in the order in which they see a message: the one that
/// mends addresses first, the one that stores last.
pub open spec fn inspector_order(nat_fix: bool, given: nat, stores: bool) -> Seq<InspectorSlot> {
    (if nat_fix {
        seq![InspectorSlot::Nat]
    } else {
        Seq::empty()
    }) + given_slots(given) + seq![InspectorSlot::CapabilityHeaders] + (if stores {
        seq![InspectorSlot::SignallingStore]
    } else {
        Seq::empty()
    })
}

fn order_inspectors(nat_fix: bool, given: usize, stores: bool) -> (r: Vec<InspectorSlot>)
    ensures
        r@ == inspector_order(nat_fix, given as nat, stores),
{
    let mut v: Vec<InspectorSlot> = Vec::new();
    if nat_fix {
        v.push(InspectorSlot::Nat);
    }
    let ghost head = v@;
    let mut i: usize = 0;
    while i < given
        invariant
            i <= given,
            v@ == head + given_slots(i as nat),
        decreases given - i,
    {
        v.push(InspectorSlot::Given(i));
        assert(v@ =~= head + given_slots((i + 1) as nat));
        i += 1;
    }
    v.push(InspectorSlot::CapabilityHeaders);
    if stores {
        v.push(InspectorSlot::SignallingStore);
    }
    assert(v@ =~= inspector_order(nat_fix, given as nat, stores));
    v
}

/// Why a server cannot be built; the first reason counts.
pub open spec fn build_error(b: SipServerBuilder, i: BuildInputs) -> Option<BuildError> {
    if !i.user_backend {
        Some(BuildError::UserBackend)
    } else if !i.locator {
        Some(BuildError::Locator)
    } else if !b.no_bind && listen_error(b.config) is Some {
        listen_error(b.config)
    } else if !i.data_context {
        Some(BuildError::DataContext)
    } else {
        None
    }
}

impl SipServerBuilder {
    /// A server that listens, prepares its tables and passes over requests out of
    /// any dialog.
    pub fn new(config: ServerConfig) -> (r: SipServerBuilder)
        ensures
            r.config == config,
            r.module_names@ == Seq::<String>::empty(),
            r.message_inspectors == 0,
            r.ignore_out_of_dialog_request,
            !r.no_bind && !r.skip_migrate,
    {
        SipServerBuilder {
            config,
            module_names: Vec::new(),
            message_inspectors: 0,
            ignore_out_of_dialog_request: true,
            no_bind: false,
            skip_migrate: false,
        }
    }

    /// Sets whether the server opens no port.
    pub fn with_no_bind(self, no_bind: bool) -> (r: SipServerBuilder)
        ensures
            r == (SipServerBuilder { no_bind, ..self }),
    {
        let mut b = self;
        b.no_bind = no_bind;
        b
    }

    /// Sets whether the server leaves its tables as they are.
    pub fn with_skip_migrate(self, skip_migrate: bool) -> (r: SipServerBuilder)
        ensures
            r == (SipServerBuilder { skip_migrate, ..self }),
    {
        let mut b = self;
        b.skip_migrate = skip_migrate;
        b
    }

    /// Sets whether requests out of any dialog are passed over.
    pub fn with_ignore_out_of_dialog_request(self, ignore: bool) -> (r: SipServerBuilder)
        ensures
            r == (SipServerBuilder { ignore_out_of_dialog_request: ignore, ..self }),
    {
        let mut b = self;
        b.ignore_out_of_dialog_request = ignore;
        b
    }

    /// Adds a message inspector behind those that were added before.
    pub fn with_message_inspector(self) -> (r: SipServerBuilder)
        requires
            self.message_inspectors < usize::MAX,
        ensures
            r == (SipServerBuilder {
                message_inspectors: (self.message_inspectors + 1) as usize,
                ..self
            }),
    {
        let mut b = self;
        b.message_inspectors = b.message_inspectors + 1;
        b
    }

    /// Whether a module is known under a name.
    pub open spec fn knows_module(self, name: Seq<char>) -> bool {
        texts(self.module_names@).contains(name)
    }

    fn has_module(&self, name: &str) -> (r: bool)
        ensures
            r == self.knows_module(name@),
    {
        let ghost known = texts(self.module_names@);
        let mut i: usize = 0;
        while i < self.module_names.len()
            invariant
                i <= self.module_names.len(),
                known == texts(self.module_names@),
                forall|k: int| 0 <= k < i ==> #[trigger] known[k] != name@,
            decreases self.module_names.len() - i,
        {
            assert(known[i as int] == self.module_names@[i as int]@);
            if same(self.module_names[i].as_str(), name) {
                return true;
            }
            i += 1;
        }
        false
    }

    /// Makes a module known under a name, in lower case. A name that is known
    /// already is not added again.
    pub fn register_module(self, name: &str) -> (r: SipServerBuilder)
        ensures
            self.knows_module(unicode_lower(name@)) ==> r == self,
            !self.knows_module(unicode_lower(name@)) ==> {
                &&& texts(r.module_names@) == texts(self.module_names@).push(unicode_lower(name@))
                &&& r == (SipServerBuilder { module_names: r.module_names, ..self })
            },
    {
        let mut b = self;
        let lowered = to_lowercase(name);
        if b.has_module(lowered.as_str()) {
            return b;
        }
        let ghost before = texts(b.module_names@);
        b.module_names.push(lowered);
        assert(texts(b.module_names@) =~= before.push(unicode_lower(name@)));
        b
    }

    /// The modules that the configuration names.
    pub open spec fn configured_modules(self) -> Seq<Seq<char>> {
        match self.config.modules {
            Some(names) => texts(names@),
            None => Seq::empty(),
        }
    }

    /// The modules that are to be loaded: those that the configuration names, in its
    /// order, each with whether it is known. A name is looked up as it is written.
    pub fn modules_to_load(&self) -> (r: Vec<(String, bool)>)
        ensures
            r@.len() == self.configured_modules().len(),
            forall|i: int|
                0 <= i < r@.len() ==> (#[trigger] r@[i]).0@ == self.configured_modules()[i] && r@[i].1
                    == self.knows_module(self.configured_modules()[i]),
    {
        let mut out: Vec<(String, bool)> = Vec::new();
        if let Some(names) = &self.config.modules {
            let mut i: usize = 0;
            while i < names.len()
                invariant
                    i <= names.len(),
                    self.configured_modules() == texts(names@),
                    out@.len() == i,
                    forall|k: int|
                        0 <= k < i ==> (#[trigger] out@[k]).0@ == self.configured_modules()[k]
                            && out@[k].1 == self.knows_module(self.configured_modules()[k]),
                decreases names.len() - i,
            {
                let known = self.has_module(names[i].as_str());
                out.push((names[i].clone(), known));
                i += 1;
            }
        }
        out
    }

    /// What a server is built from; an error where it cannot be built.
    pub fn build(&self, inputs: BuildInputs) -> (r: Result<ServerPlan, BuildError>)
        ensures
            match build_error(*self, inputs) {
                Some(e) => r == Err::<ServerPlan, BuildError>(e),
                None => {
                    &&& r matches Ok(p)
                    &&& p.listeners@ == (if self.no_bind {
                        Seq::empty()
                    } else {
                        listeners_of(
                            self.config,
                            inputs.certificate_exists && inputs.private_key_exists,
                        )
                    })
                    &&& p.user_agent == self.config.useragent
                    &&& p.callid_suffix == self.config.callid_suffix
                    &&& p.t1 == self.config.t1_timer
                    &&& p.t1x64 == self.config.t1x64_timer
                    &&& p.inspectors@ == inspector_order(
                        self.config.nat_fix,
                        self.message_inspectors as nat,
                        inputs.stores_signalling,
                    )
                    &&& p.router == (if inputs.call_router {
                        RouterChoice::Given
                    } else if self.config.http_router {
                        RouterChoice::Http
                    } else {
                        RouterChoice::Default
                    })
                },
            },
    {
        if !inputs.user_backend {
            return Err(BuildError::UserBackend);
        }
        if !inputs.locator {
            return Err(BuildError::Locator);
        }
        let listeners = if self.no_bind {
            Vec::new()
        } else {
            match check_listen(&self.config) {
                Ok(()) => {},
                Err(e) => return Err(e),
            }
            plan_listeners(
                &self.config,
                inputs.certificate_exists && inputs.private_key_exists,
            )
        };
        if !inputs.data_context {
            return Err(BuildError::DataContext);
        }
        let router = if inputs.call_router {
            RouterChoice::Given
        } else if self.config.http_router {
            RouterChoice::Http
        } else {
            RouterChoice::Default
        };
        Ok(
            ServerPlan {
                listeners,
                user_agent: own_opt(&self.config.useragent),
                callid_suffix: own_opt(&self.config.callid_suffix),
                t1: self.config.t1_timer,
                t1x64: self.config.t1x64_timer,
                inspectors: order_inspectors(
                    self.config.nat_fix,
                    self.message_inspectors,
                    inputs.stores_signalling,
                ),
                router,
            },
        )
    }
}

/// The methods without repetitions: of equal ones the first stays.
pub open spec fn distinct_methods(m: Seq<Method>) -> Seq<Method>
    decreases m.len(),
{
    if m.len() == 0 {
        Seq::empty()
    } else {
        let before = distinct_methods(m.drop_last());
        if before.contains(m.last()) {
            before
        } else {
            before.push(m.last())
        }
    }
}

/// The methods that the server advertises: those of its modules, without
/// repetitions.
pub fn advertised_methods(methods: &Vec<Method>) -> (r: Vec<Method>)
    ensures
        r@ == distinct_methods(methods@),
{
    let mut out: Vec<Method> = Vec::new();
    let mut i: usize = 0;
    assert(methods@.take(0) =~= Seq::empty());
    while i < methods.len()
        invariant
            i <= methods.len(),
            out@ == distinct_methods(methods@.take(i as int)),
        decreases methods.len() - i,
    {
        assert(methods@.take(i + 1).drop_last() =~= methods@.take(i as int));
        assert(methods@.take(i + 1).last() == methods@[i as int]);
        let mut known = false;
        let mut j: usize = 0;
        while j < out.len()
            invariant
                i < methods.len(),
                j <= out.len(),
                known == exists|k: int| 0 <= k < j && out@[k] == methods@[i as int],
            decreases out.len() - j,
        {
            if out[j] == methods[i] {
                known = true;
            }
            j += 1;
        }
        if !known {
            assert(!out@.contains(methods@[i as int]));
            out.push(methods[i]);
        } else {
            assert(out@.contains(methods@[i as int]));
        }
        i += 1;
    }
    assert(methods@.take(i as int) =~= methods@);
    out
}

/// The advertised methods are those of the modules, each once.
pub proof fn advertised_methods_are_distinct(m: Seq<Method>)
    ensures
        distinct_methods(m).no_duplicates(),
        forall|x: Method| #[trigger] distinct_methods(m).contains(x) <==> m.contains(x),
    decreases m.len(),
{
    if m.len() > 0 {
        let rest = m.drop_last();
        advertised_methods_are_distinct(rest);
        let before = distinct_methods(rest);
        let all = distinct_methods(m);
        assert forall|x: Method| #[trigger] all.contains(x) implies m.contains(x) by {
            let k = all.index_of(x);
            if k < before.len() {
                assert(before.contains(x));
                let j = rest.index_of(x);
                assert(m[j] == x);
            } else {
                assert(m[m.len() - 1] == x);
            }
        }
        assert forall|x: Method| m.contains(x) implies #[trigger] all.contains(x) by {
            let j = m.index_of(x);
            if j < m.len() - 1 {
                assert(rest[j] == x);
                assert(before.contains(x));
                let k = before.index_of(x);
                assert(all[k] == x);
            } else if before.contains(m.last()) {
                let k = before.index_of(x);
                assert(all[k] == x);
            } else {
                assert(all[all.len() - 1] == x);
            }
        }
    }
}

/// What became of a module that the configuration names.
#[derive(Debug)]
pub enum ModuleOutcome {
    NotFound,
    CreateFailed,
    StartFailed,
    Started(Vec<Method>),
}

/// The modules that run, and the methods that they take.
#[derive(Debug)]
pub struct LoadedModules {
    pub names: Vec<String>,
    pub methods: Vec<Method>,
}

impl LoadedModules {
    /// No module runs yet.
    pub fn new() -> (r: LoadedModules)
        ensures
            r.names@ == Seq::<String>::empty(),
            r.methods@ == Seq::<Method>::empty(),
    {
        LoadedModules { names: Vec::new(), methods: Vec::new() }
    }

    /// Notes what became of a module. One that could not be started is passed over.
    pub fn note(&mut self, name: &str, outcome: ModuleOutcome)
        ensures
            match outcome {
                ModuleOutcome::Started(m) => {
                    &&& texts(final(self).names@) == texts(old(self).names@).push(name@)
                    &&& final(self).methods@ == old(self).methods@ + m@
                },
                _ => *final(self) == *old(self),
            },
    {
        match outcome {
            ModuleOutcome::Started(m) => {
                let ghost before = texts(self.names@);
                self.names.push(own(name));
                assert(texts(self.names@) =~= before.push(name@));
                let ghost start = self.methods@;
                let mut i: usize = 0;
                assert(start + m@.take(0) =~= start);
                while i < m.len()
                    invariant
                        i <= m.len(),
                        self.methods@ == start + m@.take(i as int),
                        texts(self.names@) == before.push(name@),
                    decreases m.len() - i,
                {
                    self.methods.push(m[i]);
                    assert(self.methods@ =~= start + m@.take(i + 1));
                    i += 1;
                }
                assert(m@.take(i as int) =~= m@);
            },
            _ => {},
        }
    }
}

/// The contact of the server: its first address, with the transport where that is
/// not UDP.
pub open spec fn contact_of(addr: AddrView) -> UriView {
    UriView {
        scheme: match addr.transport {
            Some(Transport::Tls) | Some(Transport::TlsSctp) | Some(Transport::Wss) => "sips:"@,
            Some(_) => "sip:"@,
            None => Seq::empty(),
        },
        user: Some("rustpbx"@),
        password: None,
        host: addr.host,
        port: addr.port,
        params: match addr.transport {
            Some(Transport::Udp) => Seq::empty(),
            Some(t) => ";transport="@ + t.name_text(),
            None => Seq::empty(),
        },
    }
}

/// The contact of the server, where it has an address.
pub fn default_contact_uri(addrs: &Vec<SipAddr>) -> (r: Option<Uri>)
    ensures
        addrs.len() == 0 ==> r is None,
        addrs.len() > 0 ==> r is Some && r->0@ == contact_of(addrs@[0]@),
{
    if addrs.len() == 0 {
        return None;
    }
    let addr = &addrs[0];
    let scheme = match addr.transport {
        Some(Transport::Tls) | Some(Transport::TlsSctp) | Some(Transport::Wss) => own("sips:"),
        Some(_) => own("sip:"),
        None => String::new(),
    };
    let params = match addr.transport {
        Some(Transport::Udp) => String::new(),
        Some(t) => {
            let name = t.name();
            join2(";transport=", name.as_str())
        },
        None => String::new(),
    };
    Some(
        Uri {
            scheme,
            user: Some(own("rustpbx")),
            password: None,
            host: addr.host.clone(),
            port: addr.port,
            params,
        },
    )
}

/// The port of a realm, where it has one that can be read.
pub open spec fn realm_port(realm: Seq<char>) -> Option<nat> {
    match after(realm, ':') {
        Some(p) => parse_number(p, 65535),
        None => None,
    }
}

/// Whether the server listens on a port.
pub open spec fn own_port(c: ServerConfig, port: nat) -> bool {
    (c.udp_port matches Some(p) && p == port) || (c.tcp_port matches Some(p) && p == port) || (
    c.tls_port matches Some(p) && p == port) || (c.ws_port matches Some(p) && p == port)
}

/// Whether the port of a realm of the own host is the server's: one that is not
/// given is.
pub open spec fn port_fits(c: ServerConfig, realm: Seq<char>) -> bool {
    match realm_port(realm) {
        Some(p) => own_port(c, p),
        None => true,
    }
}

/// What the configured realms say of a realm, tried in order: one that is the realm
/// with its port serves it, one that is its host if the port fits.
pub open spec fn realm_listed(c: ServerConfig, realms: Seq<String>, realm: Seq<char>) -> Option<bool>
    decreases realms.len(),
{
    if realms.len() == 0 {
        None
    } else if realms[0]@ == realm {
        Some(true)
    } else if realms[0]@ == before(realm, ':') {
        Some(port_fits(c, realm))
    } else {
        realm_listed(c, realms.drop_first(), realm)
    }
}

/// Whether an address of the server is that of a realm.
pub open spec fn is_own_address(addr: SipAddr, realm: Seq<char>) -> bool {
    addr.host@ == before(realm, ':') && match realm_port(realm) {
        Some(p) => addr.port matches Some(q) && q == p,
        None => true,
    }
}

/// Whether the server serves a realm: its own host under any of its names, a
/// configured realm, one of its addresses, or a realm of the user backend, as
/// `backend` says.
pub open spec fn serves_realm(
    c: ServerConfig,
    addrs: Seq<SipAddr>,
    realm: Seq<char>,
    backend: bool,
) -> bool {
    let host = before(realm, ':');
    if host == "localhost"@ || host == "127.0.0.1"@ || host == "::1"@ || (
    c.external_ip matches Some(ip) && ip@ == host) {
        port_fits(c, realm)
    } else {
        let listed = match c.realms {
            Some(r) => realm_listed(c, r@, realm),
            None => None,
        };
        match listed {
            Some(b) => b,
            None => (exists|i: int| 0 <= i < addrs.len() && is_own_address(#[trigger] addrs[i], realm))
                || backend,
        }
    }
}

fn same_port(a: Option<u16>, b: u64) -> (r: bool)
    ensures
        r == (a matches Some(p) && p == b),
{
    match a {
        Some(p) => p as u64 == b,
        None => false,
    }
}

fn port_is_own(c: &ServerConfig, port: Option<u64>) -> (r: bool)
    ensures
        r == (match port {
            Some(p) => own_port(*c, p as nat),
            None => true,
        }),
{
    match port {
        Some(p) => same_port(c.udp_port, p) || same_port(c.tcp_port, p) || same_port(c.tls_port, p)
            || same_port(c.ws_port, p),
        None => true,
    }
}

/// See [`serves_realm`].
pub fn is_same_realm(c: &ServerConfig, addrs: &Vec<SipAddr>, callee_realm: &str, backend: bool) -> (r:
    bool)
    ensures
        r == serves_realm(*c, addrs@, callee_realm@, backend),
{
    let (host, port_text) = split_first(callee_realm, ':');
    let port = match &port_text {
        Some(p) => parse_unsigned(p.as_str(), 65535),
        None => None,
    };
    let fits = port_is_own(c, port);
    if same(host.as_str(), "localhost") || same(host.as_str(), "127.0.0.1") || same(
        host.as_str(),
        "::1",
    ) {
        return fits;
    }
    if let Some(ip) = &c.external_ip {
        if same(ip.as_str(), host.as_str()) {
            return fits;
        }
    }
    if let Some(realms) = &c.realms {
        let mut i: usize = 0;
        assert(realms@.skip(0) =~= realms@);
        while i < realms.len()
            invariant
                i <= realms.len(),
                c.realms == Some(*realms),
                host@ == before(callee_realm@, ':'),
                fits == port_fits(*c, callee_realm@),
                realm_listed(*c, realms@.skip(i as int), callee_realm@) == realm_listed(
                    *c,
                    realms@,
                    callee_realm@,
                ),
                !(host@ == "localhost"@ || host@ == "127.0.0.1"@ || host@ == "::1"@ || (
                c.external_ip matches Some(ip) && ip@ == host@)),
            decreases realms.len() - i,
        {
            assert(realms@.skip(i as int)[0] == realms@[i as int]);
            assert(realms@.skip(i as int).drop_first() =~= realms@.skip(i + 1));
            if same(realms[i].as_str(), callee_realm) {
                return true;
            }
            if same(realms[i].as_str(), host.as_str()) {
                return fits;
            }
            i += 1;
        }
        assert(realms@.skip(i as int) =~= Seq::empty());
    }
    let mut i: usize = 0;
    while i < addrs.len()
        invariant
            i <= addrs.len(),
            host@ == before(callee_realm@, ':'),
            realm_port(callee_realm@) == (match port {
                Some(p) => Some(p as nat),
                None => None,
            }),
            forall|k: int| 0 <= k < i ==> !is_own_address(#[trigger] addrs@[k], callee_realm@),
            !(host@ == "localhost"@ || host@ == "127.0.0.1"@ || host@ == "::1"@ || (
            c.external_ip matches Some(ip) && ip@ == host@)),
            (match c.realms {
                Some(r) => realm_listed(*c, r@, callee_realm@),
                None => None,
            }) is None,
        decreases addrs.len() - i,
    {
        if same(addrs[i].host.as_str(), host.as_str()) {
            let own_addr = match port {
                Some(p) => same_port(addrs[i].port, p),
                None => true,
            };
            if own_addr {
                assert(is_own_address(addrs@[i as int], callee_realm@));
                return true;
            }
        }
        i += 1;
    }
    backend
}

proof fn listed_realm_counts(c: ServerConfig, realms: Seq<String>, realm: Seq<char>, k: int)
    requires
        0 <= k < realms.len(),
        realms[k]@ == realm,
        realm_port(realm) is None,
    ensures
        realm_listed(c, realms, realm) == Some(true),
    decreases realms.len(),
{
    if realms[0]@ != realm && realms[0]@ != before(realm, ':') {
        assert(realms.drop_first()[k - 1] == realms[k]);
        listed_realm_counts(c, realms.drop_first(), realm, k - 1);
    }
}

/// A realm without a port that is configured is served.
pub proof fn configured_realm_is_served(
    c: ServerConfig,
    addrs: Seq<SipAddr>,
    realm: Seq<char>,
    backend: bool,
    k: int,
)
    requires
        c.realms is Some,
        0 <= k < c.realms->0@.len(),
        c.realms->0@[k]@ == realm,
        realm_port(realm) is None,
    ensures
        serves_realm(c, addrs, realm, backend),
{
    listed_realm_counts(c, c.realms->0@, realm, k);
}

/// The own host is served under a port if and only if the server listens on it,
/// whatever is configured otherwise.
pub proof fn own_host_is_served_on_own_ports(c: ServerConfig, addrs: Seq<SipAddr>, realm: Seq<char>, backend: bool)
    requires
        before(realm, ':') == "localhost"@,
        realm_port(realm) is Some,
    ensures
        serves_realm(c, addrs, realm, backend) == own_port(c, realm_port(realm)->0),
{
}

/// What is done with a request that comes in.
#[derive(Clone, Copy, Debug, PartialEq, Eq, Structural)]
pub enum IncomingPlan {
    /// It is refused with this code.
    Refuse(u16),
    /// It is passed over.
    Ignore,
    Process,
}

/// Whether a request of this kind is expected only within a dialog.
pub open spec fn only_in_dialog(method: Method) -> bool {
    method is Options || method is Info || method is Refer || method is Update
}

/// What is done with a request that comes in while `running` others are handled:
/// too many at once are refused, and those out of any dialog may be passed over.
pub fn plan_incoming(
    max_concurrency: Option<usize>,
    running: usize,
    method: Method,
    ignore_out_of_dialog_request: bool,
    has_to_tag: bool,
) -> (r: IncomingPlan)
    ensures
        r == (if max_concurrency is Some && running >= max_concurrency->0 {
            IncomingPlan::Refuse(503)
        } else if only_in_dialog(method) && ignore_out_of_dialog_request && !has_to_tag {
            IncomingPlan::Ignore
        } else {
            IncomingPlan::Process
        }),
{
    if let Some(max) = max_concurrency {
        if running >= max {
            return IncomingPlan::Refuse(503);
        }
    }
    let dialog_only = matches!(
        method,
        Method::Options | Method::Info | Method::Refer | Method::Update
    );
    if dialog_only && ignore_out_of_dialog_request && !has_to_tag {
        IncomingPlan::Ignore
    } else {
        IncomingPlan::Process
    }
}

/// Whether a request that no module answered is answered with 501: not one that ends
/// a transaction or lies within a dialog, and not spam.
pub fn replies_not_implemented(method: Method, has_to_tag: bool, answered: bool, spam: bool) -> (r: bool)
    ensures
        r == (!(method is Bye || method is Cancel || method is Ack) && !has_to_tag && !answered
            && !spam),
{
    let ends = matches!(method, Method::Bye | Method::Cancel | Method::Ack);
    !ends && !has_to_tag && !answered && !spam
}

/// What a module made of a request.
#[derive(Clone, Copy, Debug, PartialEq, Eq, Structural)]
pub enum ModuleAction {
    Continue,
    Abort,
    Error,
}

/// What follows from it.
#[derive(Clone, Copy, Debug, PartialEq, Eq, Structural)]
pub enum TransactionStep {
    /// The next module gets the request.
    Next,
    /// The modules are told that the transaction is over.
    End,
    /// The transaction is over; `reply` says whether it is answered with 500 first.
    Fail { reply: bool },
}

/// What follows from what a module made of a request. `last` says whether it was the
/// last module, and `answered` whether the request has been answered.
pub fn on_module_action(action: ModuleAction, last: bool, answered: bool) -> (r: TransactionStep)
    ensures
        r == (match action {
            ModuleAction::Error => TransactionStep::Fail { reply: !answered },
            ModuleAction::Abort => TransactionStep::End,
            ModuleAction::Continue => if last {
                TransactionStep::End
            } else {
                TransactionStep::Next
            },
        }),
{
    match action {
        ModuleAction::Error => TransactionStep::Fail { reply: !answered },
        ModuleAction::Abort => TransactionStep::End,
        ModuleAction::Continue => if last {
            TransactionStep::End
        } else {
            TransactionStep::Next
        },
    }
}

/// A server listens on each port that is set, with the transport that it is set for, and
/// on no other; on TLS only where its files exist.
pub proof fn server_listens_where_it_is_told(c: ServerConfig, tls_files: bool, l: Listener)
    ensures
        listeners_of(c, tls_files).contains(l) <==> {
            ||| l.transport is Udp && c.udp_port == Some(l.port)
            ||| l.transport is Tcp && c.tcp_port == Some(l.port)
            ||| l.transport is Tls && c.tls_port == Some(l.port) && tls_files
            ||| l.transport is Ws && c.ws_port == Some(l.port)
        },
{
    let a = on_port(Transport::Udp, c.udp_port);
    let b = on_port(Transport::Tcp, c.tcp_port);
    let t = if tls_files {
        on_port(Transport::Tls, c.tls_port)
    } else {
        Seq::empty()
    };
    let w = on_port(Transport::Ws, c.ws_port);
    let all = listeners_of(c, tls_files);
    if l.transport is Udp && c.udp_port == Some(l.port) {
        assert(all[0] == l);
    }
    if l.transport is Tcp && c.tcp_port == Some(l.port) {
        assert(all[a.len() as int] == l);
    }
    if l.transport is Tls && c.tls_port == Some(l.port) && tls_files {
        assert(all[(a.len() + b.len()) as int] == l);
    }
    if l.transport is Ws && c.ws_port == Some(l.port) {
        assert(all[(a.len() + b.len() + t.len()) as int] == l);
    }
}

/// A server can listen where its addresses are IP addresses, a port is set, and TLS has
/// its certificate and its key.
pub proof fn server_can_listen(c: ServerConfig)
    ensures
        listen_error(c) is None <==> {
            &&& ip_address(c.addr@)
            &&& c.external_ip matches Some(ip) ==> ip_address(ip@)
            &&& c.udp_port is Some || c.tcp_port is Some || c.tls_port is Some || c.ws_port is Some
            &&& c.tls_port is Some ==> c.ssl_certificate is Some && c.ssl_private_key is Some
        },
        listen_error(c) is Some && listen_error(c)->0 is NoPort ==> c.udp_port is None && c.tcp_port is None
            && c.tls_port is None && c.ws_port is None,
        listen_error(c) is Some && (listen_error(c)->0 is MissingCertificate
            || listen_error(c)->0 is MissingPrivateKey) ==> c.tls_port is Some,
{
}

/// A server is built where it has users, a locator and its data, and can listen unless
/// it is not to bind.
pub proof fn server_is_built_with_all_it_needs(b: SipServerBuilder, i: BuildInputs)
    ensures
        build_error(b, i) is None <==> i.user_backend && i.locator && i.data_context && (b.no_bind
            || listen_error(b.config) is None),
{
}

/// The inspectors that are given see a message in the order in which they were given;
/// addresses are mended before them, and messages are stored after all.
pub proof fn inspectors_see_messages_in_order(nat_fix: bool, given: nat, stores: bool, k: int)
    requires
        given <= usize::MAX,
        0 <= k < given,
    ensures
        ({
            let s = inspector_order(nat_fix, given, stores);
            let first = if nat_fix {
                1int
            } else {
                0
            };
            &&& s[first + k] == InspectorSlot::Given(k as usize)
            &&& nat_fix ==> s[0] is Nat
            &&& stores ==> s.last() is SignallingStore
            &&& s[first + given] is CapabilityHeaders
            &&& s.len() == first + given + 1 + (if stores {
                1int
            } else {
                0
            })
        }),
{
}

/// The contact of the server is its address; it is a secure one for TLS and WSS, and
/// names the transport unless that is UDP.
pub proof fn contact_is_the_address(addr: AddrView)
    ensures
        contact_of(addr).host == addr.host && contact_of(addr).port == addr.port,
        addr.transport == Some(Transport::Udp) || addr.transport is None ==> contact_of(addr).params.len()
            == 0,
        addr.transport matches Some(t) ==> !(t is Udp) ==> has_suffix(
            contact_of(addr).params,
            t.name_text(),
        ),
        addr.transport matches Some(t) ==> (contact_of(addr).scheme == "sips:"@ <==> t is Tls
            || t is TlsSctp || t is Wss),
        addr.transport matches Some(t) ==> (contact_of(addr).scheme == "sip:"@ <==> !(t is Tls
            || t is TlsSctp || t is Wss)),
        contact_of(addr).password is None,
{
    reveal_strlit("sips:");
    reveal_strlit("sip:");
    reveal_strlit(";transport=");
    assert("sips:"@.len() != "sip:"@.len());
    if let Some(t) = addr.transport {
        let p = ";transport="@ + t.name_text();
        assert(p.skip(p.len() - t.name_text().len()) =~= t.name_text());
    }
}

proof fn unlisted_realm(c: ServerConfig, realms: Seq<String>, realm: Seq<char>)
    requires
        forall|i: int|
            0 <= i < realms.len() ==> (#[trigger] realms[i])@ != realm && realms[i]@ != before(realm, ':'),
    ensures
        realm_listed(c, realms, realm) is None,
    decreases realms.len(),
{
    if realms.len() > 0 {
        let rest = realms.drop_first();
        assert(realms[0]@ != realm && realms[0]@ != before(realm, ':'));
        assert forall|i: int| 0 <= i < rest.len() implies (#[trigger] rest[i])@ != realm && rest[i]@
            != before(realm, ':') by {
            assert(rest[i] == realms[i + 1]);
        }
        unlisted_realm(c, rest, realm);
    }
}

/// A realm that is neither of this host nor configured is served where the server has
/// its address, or where its users are of that realm, and not otherwise.
pub proof fn other_realms_are_those_of_addresses_and_users(
    c: ServerConfig,
    addrs: Seq<SipAddr>,
    realm: Seq<char>,
    backend: bool,
)
    requires
        ({
            let host = before(realm, ':');
            host != "localhost"@ && host != "127.0.0.1"@ && host != "::1"@ && (
            c.external_ip matches Some(ip) ==> ip@ != host)
        }),
        c.realms matches Some(r) ==> forall|i: int|
            0 <= i < r@.len() ==> (#[trigger] r@[i])@ != realm && r@[i]@ != before(realm, ':'),
    ensures
        serves_realm(c, addrs, realm, backend) <==> backend || exists|i: int|
            0 <= i < addrs.len() && (#[trigger] addrs[i]).host@ == before(realm, ':') && (realm_port(
                realm,
            ) matches Some(p) ==> (addrs[i].port matches Some(q) && q == p)),
{
    if let Some(r) = c.realms {
        unlisted_realm(c, r@, realm);
    }
    if exists|i: int| 0 <= i < addrs.len() && is_own_address(#[trigger] addrs[i], realm) {
        let i = choose|i: int| 0 <= i < addrs.len() && is_own_address(#[trigger] addrs[i], realm);
        assert(addrs[i].host@ == before(realm, ':'));
    }
    if exists|i: int|
        0 <= i < addrs.len() && (#[trigger] addrs[i]).host@ == before(realm, ':') && (realm_port(
            realm,
        ) matches Some(p) ==> (addrs[i].port matches Some(q) && q == p)) {
        let i = choose|i: int|
            0 <= i < addrs.len() && (#[trigger] addrs[i]).host@ == before(realm, ':') && (realm_port(
                realm,
            ) matches Some(p) ==> (addrs[i].port matches Some(q) && q == p));
        assert(is_own_address(addrs[i], realm));
    }
}

/// A host of this machine is served on a port if the server listens there: on any of its
/// transports.
pub proof fn own_ports_are_those_of_the_transports(c: ServerConfig, host: Seq<char>, port: u16)
    requires
        !host.contains(':'),
    ensures
        realm_port(host + seq![':'] + decimal(port as nat)) == Some(port as nat),
        realm_port(host) is None,
        before(host + seq![':'] + decimal(port as nat), ':') == host,
        own_port(c, port as nat) <==> c.udp_port == Some(port) || c.tcp_port == Some(port) || c.tls_port
            == Some(port) || c.ws_port == Some(port),
{
    text_is_parted_at_the_first(host, ':', decimal(port as nat));
    written_number_is_read_back(port as nat, 65535);
}

/// OPTIONS, INFO, REFER and UPDATE are expected within a dialog only; no other method is.
pub proof fn methods_of_a_dialog(method: Method)
    ensures
        method is Invite || method is Bye || method is Ack || method is Cancel || method is Register
            || method is Message || method is Notify || method is Subscribe || method is Publish
            || method is PRack <==> !only_in_dialog(method),
{
}

/// A realm that is configured by its host alone is served on the ports that the server
/// listens on, and on no other.
pub proof fn configured_host_is_served_on_own_ports(c: ServerConfig, realms: Seq<String>, host: Seq<char>, port: u16)
    requires
        !host.contains(':'),
        realms.len() > 0,
        realms[0]@ == host,
    ensures
        realm_listed(c, realms, host + seq![':'] + decimal(port as nat)) == Some(
            c.udp_port == Some(port) || c.tcp_port == Some(port) || c.tls_port == Some(port) || c.ws_port
                == Some(port),
        ),
        realm_listed(c, realms, host) == Some(true),
{
    own_ports_are_those_of_the_transports(c, host, port);
    let realm = host + seq![':'] + decimal(port as nat);
    assert(realm.len() > host.len());
}

/// The contact of the server names the server as its user.
pub proof fn contact_names_the_server(addr: AddrView)
    ensures
        contact_of(addr).user == Some("rustpbx"@),
        contact_of(addr).user_text().len() == 7,
{
    reveal_strlit("rustpbx");
}

} // verus!
