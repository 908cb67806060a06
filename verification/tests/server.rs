//! The server: what it listens on, which realms it serves, and what it does
//! with requests.

use active_call::server::{
    advertised_methods, default_contact_uri, is_same_realm, on_module_action, plan_incoming,
    replies_not_implemented, BuildError, BuildInputs, IncomingPlan, InspectorSlot, Listener,
    LoadedModules, ModuleAction, ModuleOutcome, RouterChoice, ServerConfig, SipServerBuilder,
    TransactionStep,
};
use active_call::sip::{Method, SipAddr, Transport};

fn config() -> ServerConfig {
    ServerConfig {
        addr: "0.0.0.0".to_string(),
        external_ip: None,
        udp_port: Some(5060),
        tcp_port: None,
        tls_port: None,
        ws_port: None,
        ssl_certificate: None,
        ssl_private_key: None,
        realms: None,
        useragent: None,
        callid_suffix: None,
        max_concurrency: None,
        t1_timer: None,
        t1x64_timer: None,
        nat_fix: false,
        http_router: false,
        modules: None,
    }
}

fn inputs() -> BuildInputs {
    BuildInputs {
        user_backend: true,
        locator: true,
        certificate_exists: true,
        private_key_exists: true,
        data_context: true,
        stores_signalling: false,
        call_router: false,
    }
}

fn error(c: ServerConfig, i: BuildInputs) -> Option<BuildError> {
    SipServerBuilder::new(c).build(i).err()
}

#[test]
fn server_listens_where_ports_are_set() {
    let mut c = config();
    c.ws_port = Some(8080);
    c.tls_port = Some(5061);
    c.ssl_certificate = Some("c.pem".to_string());
    c.ssl_private_key = Some("k.pem".to_string());
    c.t1_timer = Some(500);
    c.useragent = Some("pbx/1".to_string());
    c.callid_suffix = Some("pbx.example".to_string());
    let plan = SipServerBuilder::new(c.clone()).build(inputs()).unwrap();
    assert_eq!(
        plan.listeners,
        vec![
            Listener {
                transport: Transport::Udp,
                port: 5060
            },
            Listener {
                transport: Transport::Tls,
                port: 5061
            },
            Listener {
                transport: Transport::Ws,
                port: 8080
            },
        ]
    );
    assert_eq!(plan.t1, Some(500));
    assert_eq!(plan.user_agent.as_deref(), Some("pbx/1"));
    assert_eq!(plan.callid_suffix.as_deref(), Some("pbx.example"));
    assert_eq!(plan.router, RouterChoice::Default);

    let mut no_files = inputs();
    no_files.certificate_exists = false;
    let plan = SipServerBuilder::new(c).build(no_files).unwrap();
    assert_eq!(plan.listeners.len(), 2);

    let plan = SipServerBuilder::new(config())
        .with_no_bind(true)
        .build(inputs())
        .unwrap();
    assert!(plan.listeners.is_empty());
}

#[test]
fn every_reason_not_to_build_is_reported() {
    let mut i = inputs();
    i.user_backend = false;
    assert_eq!(error(config(), i), Some(BuildError::UserBackend));
    let mut i = inputs();
    i.locator = false;
    assert_eq!(error(config(), i), Some(BuildError::Locator));
    let mut i = inputs();
    i.data_context = false;
    assert_eq!(error(config(), i), Some(BuildError::DataContext));

    let mut c = config();
    c.addr = "nowhere".to_string();
    assert_eq!(error(c, inputs()), Some(BuildError::LocalAddress));
    let mut c = config();
    c.external_ip = Some("1.2.3".to_string());
    assert_eq!(error(c, inputs()), Some(BuildError::ExternalAddress));
    let mut c = config();
    c.udp_port = None;
    assert_eq!(error(c, inputs()), Some(BuildError::NoPort));
    let mut c = config();
    c.tls_port = Some(5061);
    assert_eq!(error(c.clone(), inputs()), Some(BuildError::MissingCertificate));
    c.ssl_certificate = Some("c.pem".to_string());
    assert_eq!(error(c, inputs()), Some(BuildError::MissingPrivateKey));

    let mut c = config();
    c.addr = "::1".to_string();
    c.external_ip = Some("203.0.113.7".to_string());
    assert_eq!(error(c, inputs()), None);
}

#[test]
fn inspectors_see_messages_in_order() {
    let mut c = config();
    c.nat_fix = true;
    c.http_router = true;
    let mut i = inputs();
    i.stores_signalling = true;
    let plan = SipServerBuilder::new(c)
        .with_message_inspector()
        .with_message_inspector()
        .build(i)
        .unwrap();
    assert_eq!(
        plan.inspectors,
        vec![
            InspectorSlot::Nat,
            InspectorSlot::Given(0),
            InspectorSlot::Given(1),
            InspectorSlot::CapabilityHeaders,
            InspectorSlot::SignallingStore,
        ]
    );
    assert_eq!(plan.router, RouterChoice::Http);
    i.call_router = true;
    let plan = SipServerBuilder::new(config()).build(i).unwrap();
    assert_eq!(plan.router, RouterChoice::Given);
}

#[test]
fn builder_keeps_its_settings() {
    let b = SipServerBuilder::new(config())
        .with_skip_migrate(true)
        .with_ignore_out_of_dialog_request(false)
        .register_module("CALL")
        .register_module("\u{c4}B");
    assert!(b.skip_migrate);
    assert!(!b.ignore_out_of_dialog_request);
    assert_eq!(b.module_names, vec!["call", "\u{e4}b"]);
    // A name that is known is not listed again.
    let b = b.register_module("Call").register_module("acl");
    assert_eq!(b.module_names, vec!["call", "\u{e4}b", "acl"]);
}

#[test]
fn configured_modules_are_loaded_in_order() {
    let mut c = config();
    c.modules = Some(vec![
        "call".to_string(),
        "ghost".to_string(),
        "acl".to_string(),
        "call".to_string(),
    ]);
    let b = SipServerBuilder::new(c)
        .register_module("ACL")
        .register_module("call")
        .register_module("auth");
    let found: Vec<(String, bool)> = b.modules_to_load();
    assert_eq!(
        found,
        vec![
            ("call".to_string(), true),
            ("ghost".to_string(), false),
            ("acl".to_string(), true),
            ("call".to_string(), true),
        ]
    );
    assert!(SipServerBuilder::new(config())
        .register_module("call")
        .modules_to_load()
        .is_empty());
}

#[test]
fn methods_are_advertised_once() {
    let mut modules = LoadedModules::new();
    modules.note("a", ModuleOutcome::Started(vec![Method::Invite, Method::Bye]));
    modules.note("b", ModuleOutcome::NotFound);
    modules.note("c", ModuleOutcome::CreateFailed);
    modules.note("d", ModuleOutcome::StartFailed);
    modules.note("e", ModuleOutcome::Started(vec![Method::Bye, Method::Options]));
    assert_eq!(modules.names, vec!["a", "e"]);
    assert_eq!(
        advertised_methods(&modules.methods),
        vec![Method::Invite, Method::Bye, Method::Options]
    );
}

#[test]
fn contact_is_the_first_address() {
    assert!(default_contact_uri(&Vec::new()).is_none());
    let at = |transport| {
        default_contact_uri(&vec![SipAddr {
            transport,
            host: "10.0.0.1".to_string(),
            port: Some(5060),
        }])
        .unwrap()
        .to_text()
    };
    assert_eq!(at(Some(Transport::Udp)), "sip:rustpbx@10.0.0.1:5060");
    assert_eq!(
        at(Some(Transport::Tls)),
        "sips:rustpbx@10.0.0.1:5060;transport=TLS"
    );
    assert_eq!(
        at(Some(Transport::Ws)),
        "sip:rustpbx@10.0.0.1:5060;transport=WS"
    );
}

#[test]
fn realms_are_served_by_name_and_port() {
    let mut c = config();
    c.external_ip = Some("203.0.113.7".to_string());
    c.realms = Some(vec!["pbx.com".to_string(), "other.com:9999".to_string()]);
    let addrs = vec![SipAddr {
        transport: Some(Transport::Udp),
        host: "10.0.0.1".to_string(),
        port: Some(5060),
    }];
    let serves = |realm: &str| is_same_realm(&c, &addrs, realm, false);
    assert!(serves("localhost"));
    assert!(serves("localhost:5060"));
    assert!(!serves("localhost:5070"));
    assert!(serves("203.0.113.7"));
    assert!(serves("pbx.com"));
    assert!(serves("pbx.com:5060"));
    assert!(!serves("pbx.com:1"));
    assert!(serves("other.com:9999"));
    assert!(serves("10.0.0.1:5060"));
    assert!(!serves("10.0.0.1:5061"));
    assert!(!serves("elsewhere.com"));
    assert!(is_same_realm(&c, &addrs, "elsewhere.com", true));
}

#[test]
fn requests_are_taken_passed_over_or_refused() {
    assert_eq!(
        plan_incoming(Some(2), 2, Method::Invite, true, false),
        IncomingPlan::Refuse(503)
    );
    assert_eq!(
        plan_incoming(Some(2), 1, Method::Options, true, false),
        IncomingPlan::Ignore
    );
    assert_eq!(
        plan_incoming(None, 9, Method::Options, true, true),
        IncomingPlan::Process
    );
    assert_eq!(
        plan_incoming(None, 9, Method::Options, false, false),
        IncomingPlan::Process
    );
    assert_eq!(
        plan_incoming(None, 9, Method::Invite, true, false),
        IncomingPlan::Process
    );
    assert!(replies_not_implemented(Method::Message, false, false, false));
    assert!(!replies_not_implemented(Method::Ack, false, false, false));
    assert!(!replies_not_implemented(Method::Message, true, false, false));
    assert!(!replies_not_implemented(Method::Message, false, true, false));
    assert!(!replies_not_implemented(Method::Message, false, false, true));
}

#[test]
fn modules_hand_requests_on() {
    assert_eq!(
        on_module_action(ModuleAction::Continue, false, false),
        TransactionStep::Next
    );
    assert_eq!(
        on_module_action(ModuleAction::Continue, true, false),
        TransactionStep::End
    );
    assert_eq!(
        on_module_action(ModuleAction::Abort, false, false),
        TransactionStep::End
    );
    assert_eq!(
        on_module_action(ModuleAction::Error, false, false),
        TransactionStep::Fail { reply: true }
    );
    assert_eq!(
        on_module_action(ModuleAction::Error, true, true),
        TransactionStep::Fail { reply: false }
    );
}
