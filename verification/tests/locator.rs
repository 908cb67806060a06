//! Registration and lookup of bindings.

use active_call::locator::{
    AnsweredRealms,
    get_identifier, host_without_port, is_local_realm, keeps_in_memory, located_destination,
    offline_event, realm_matches, sort_locations_by_recency, uri_matches, LocalRealms,
    LocatorConfig, LocatorEvent, MemoryLocator,
};
use active_call::model::Location;
use active_call::sip::{SipAddr, Transport, Uri};

fn uri(user: &str, host: &str) -> Uri {
    Uri {
        scheme: "sip:".to_string(),
        user: Some(user.to_string()),
        password: None,
        host: host.to_string(),
        port: None,
        params: String::new(),
    }
}

fn udp(host: &str, port: u16) -> SipAddr {
    SipAddr {
        transport: Some(Transport::Udp),
        host: host.to_string(),
        port: Some(port),
    }
}

fn location(aor: &Uri, expires: u32, binding: &str) -> Location {
    let mut l = Location::bare(aor.copy(), false);
    l.expires = expires;
    l.binding = binding.to_string();
    l
}

#[test]
fn memory_locator_orders_by_last_modified() {
    let mut locator = MemoryLocator::new();
    let aor = uri("alice", "rustpbx.com");
    let now: u64 = 1_000_000;
    let older = now - 120_000;

    let mut secondary = location(&aor, 3600, "secondary");
    secondary.destination = Some(udp("127.0.0.1", 5070));
    secondary.last_modified = Some(older);
    secondary.instance_id = Some("secondary".to_string());
    locator.register("alice", Some("rustpbx.com"), secondary, now, &LocalRealms);

    let mut primary = location(&aor, 3600, "primary");
    primary.destination = Some(udp("127.0.0.1", 5060));
    primary.last_modified = Some(now);
    primary.instance_id = Some("primary".to_string());
    locator.register("alice", Some("rustpbx.com"), primary, now, &LocalRealms);

    let locations = locator.lookup(&aor, now, &LocalRealms);
    assert_eq!(locations.len(), 2);
    assert_eq!(locations[0].instance_id.as_deref(), Some("primary"));
    assert_eq!(locations[1].instance_id.as_deref(), Some("secondary"));
    assert!(located_destination(&locations)
        .unwrap()
        .same(&udp("127.0.0.1", 5060)));
}

#[test]
fn memory_locator_matches_localhost_alias() {
    let mut locator = MemoryLocator::new();
    let registered_uri = uri("alice", "192.168.3.181");
    let lookup_uri = uri("alice", "localhost");

    let mut l = location(&registered_uri, 3600, "b");
    l.registered_aor = Some(registered_uri.copy());
    l.destination = Some(udp("192.168.3.181", 5060));
    l.last_modified = Some(10);
    locator.register("alice", Some("192.168.3.181"), l, 10, &LocalRealms);

    let locations = locator.lookup(&lookup_uri, 10, &LocalRealms);
    assert_eq!(locations.len(), 1);
    assert_eq!(locations[0].aor.to_text(), registered_uri.to_text());
}

#[test]
fn test_is_local_realm_logic() {
    assert!(is_local_realm("localhost"));
    assert!(is_local_realm("127.0.0.1"));
    assert!(is_local_realm("0.0.0.0"));
    assert!(is_local_realm("::1"));
    assert!(is_local_realm("192.168.1.1"));
    assert!(is_local_realm("10.0.0.1"));
    assert!(is_local_realm("172.16.0.1"));
    assert!(is_local_realm("[::1]"));
    assert!(is_local_realm("127.0.0.1:5060"));

    assert!(!is_local_realm("rustpbx.com"));
    assert!(!is_local_realm("8.8.8.8"));
    assert!(!is_local_realm(""));
}

#[test]
fn test_realm_matches_logic() {
    let realms = LocalRealms;
    // Both local
    assert!(realm_matches(&realms, "127.0.0.1", "localhost"));
    assert!(realm_matches(&realms, "192.168.1.1", "10.0.0.1"));

    // One local, one not
    assert!(!realm_matches(&realms, "127.0.0.1", "rustpbx.com"));
    assert!(!realm_matches(&realms, "rustpbx.com", "127.0.0.1"));

    // Both same non-local
    assert!(realm_matches(&realms, "rustpbx.com", "rustpbx.com"));
    assert!(realm_matches(&realms, "rustpbx.com:5060", "rustpbx.com"));

    // Different non-local
    assert!(!realm_matches(&realms, "rustpbx.com", "other.com"));
}

#[test]
fn test_custom_realm_checker() {
    let mut locator = MemoryLocator::new();
    // Treats "my-special-realm.com" as local
    let realms = AnsweredRealms {
        answers: vec![("my-special-realm.com".to_string(), true)],
    };
    let registered_uri = uri("alice", "my-special-realm.com");
    let lookup_uri = uri("alice", "localhost");

    locator.register(
        "alice",
        Some("my-special-realm.com"),
        location(&registered_uri, 3600, "b"),
        0,
        &realms,
    );

    let locations = locator.lookup(&lookup_uri, 0, &realms);
    assert_eq!(locations.len(), 1);

    let strict = AnsweredRealms {
        answers: vec![("localhost".to_string(), false)],
    };
    assert!(!realm_matches(&strict, "localhost", "127.0.0.1"));
    assert!(realm_matches(&strict, "10.0.0.1", "127.0.0.1"));
}

#[test]
fn test_uri_matches_relaxed() {
    let mut locator = MemoryLocator::new();
    let registered_uri = uri("3sf0hatf", "eee3se8lru7o.invalid");
    let mut lookup_uri = uri("3sf0hatf", "eee3se8lru7o.invalid");
    lookup_uri.params = ";transport=ws".to_string();

    locator.register(
        "test_user",
        Some("localhost"),
        location(&registered_uri, 3600, "b"),
        0,
        &LocalRealms,
    );

    let locations = locator.lookup(&lookup_uri, 0, &LocalRealms);
    assert_eq!(locations.len(), 1);

    let lookup_uri_no_transport = uri("3sf0hatf", "eee3se8lru7o.invalid");
    let locations = locator.lookup(&lookup_uri_no_transport, 0, &LocalRealms);
    assert_eq!(locations.len(), 1);
}

#[test]
fn lapsed_bindings_are_dropped() {
    let mut locator = MemoryLocator::new();
    let aor = uri("alice", "rustpbx.com");
    locator.register(
        "alice",
        Some("rustpbx.com"),
        location(&aor, 60, "b"),
        1_000,
        &LocalRealms,
    );
    assert_eq!(locator.lookup(&aor, 30_000, &LocalRealms).len(), 1);
    assert_eq!(locator.lookup(&aor, 62_000, &LocalRealms).len(), 0);
    assert!(locator.bindings.is_empty());
}

#[test]
fn registration_replaces_and_ends_bindings() {
    let mut locator = MemoryLocator::new();
    let aor = uri("alice", "rustpbx.com");
    for at in [1_000, 2_000] {
        locator.register(
            "Alice",
            Some("rustpbx.com"),
            location(&aor, 60, "b"),
            at,
            &LocalRealms,
        );
    }
    assert_eq!(locator.bindings.len(), 1);
    assert_eq!(locator.bindings[0].identifier, "alice@rustpbx.com");
    locator.register(
        "alice",
        Some("rustpbx.com"),
        location(&aor, 0, "b"),
        3_000,
        &LocalRealms,
    );
    assert!(locator.bindings.is_empty());
    locator.register("  ", Some("x"), location(&aor, 60, "b"), 0, &LocalRealms);
    assert!(locator.bindings.is_empty());
}

#[test]
fn bindings_of_a_user_are_removed_together() {
    let mut locator = MemoryLocator::new();
    let aor = uri("alice", "10.0.0.1");
    locator.register(
        "alice",
        Some("10.0.0.1"),
        location(&aor, 60, "b"),
        0,
        &LocalRealms,
    );
    locator.register(
        "alice",
        Some("localhost"),
        location(&aor, 60, "c"),
        0,
        &LocalRealms,
    );
    assert_eq!(locator.bindings.len(), 2);
    locator.unregister("alice", Some("127.0.0.1"), &LocalRealms);
    assert!(locator.bindings.is_empty());
}

#[test]
fn bindings_of_an_address_go_offline() {
    let mut locator = MemoryLocator::new();
    let aor = uri("alice", "rustpbx.com");
    let mut l = location(&aor, 60, "b");
    l.destination = Some(udp("10.0.0.9", 5060));
    locator.register("alice", Some("rustpbx.com"), l, 0, &LocalRealms);
    assert!(locator
        .unregister_with_address(&udp("10.0.0.9", 5061))
        .is_none());
    let removed = locator.unregister_with_address(&udp("10.0.0.9", 5060));
    assert_eq!(removed.as_ref().map(|v| v.len()), Some(1));
    assert!(matches!(
        offline_event(removed),
        Some(LocatorEvent::Offline(v)) if v.len() == 1
    ));
    assert!(offline_event(None).is_none());
    assert!(offline_event(Some(Vec::new())).is_none());
}

#[test]
fn recency_keeps_the_latest_of_each_binding() {
    let aor = uri("alice", "x");
    let mut a = location(&aor, 60, "k");
    a.last_modified = Some(1);
    let mut b = location(&aor, 60, "k");
    b.last_modified = Some(2);
    let never = location(&aor, 60, "n");
    let sorted = sort_locations_by_recency(vec![never, a, b]);
    assert_eq!(sorted.len(), 2);
    assert_eq!(sorted[0].last_modified, Some(2));
    assert_eq!(sorted[1].last_modified, None);
}

#[test]
fn hosts_and_identifiers() {
    assert_eq!(host_without_port("a.com:5060"), "a.com");
    assert_eq!(host_without_port("[::1]:5060"), "::1");
    assert_eq!(host_without_port("2001:db8::1"), "2001:db8::1");
    assert_eq!(host_without_port(" a.com "), "a.com");
    assert_eq!(
        get_identifier(" Alice ", Some("192.168.0.7"), &LocalRealms),
        "alice@localhost"
    );
    assert_eq!(
        get_identifier("Alice", Some("Rustpbx.COM"), &LocalRealms),
        "alice@rustpbx.com"
    );
    assert_eq!(get_identifier("Alice", None, &LocalRealms), "alice");
    assert_eq!(get_identifier(" ", Some("x"), &LocalRealms), "");
}

#[test]
fn uris_match_up_to_case_and_local_hosts() {
    assert!(uri_matches(&uri("alice", "A.com"), &uri("ALICE", "a.COM")));
    assert!(uri_matches(&uri("bob", "10.0.0.1"), &uri("bob", "localhost")));
    assert!(!uri_matches(&uri("bob", "10.0.0.1"), &uri("Bob", "localhost")));
    assert!(!uri_matches(&uri("bob", "a.com"), &uri("bob", "b.com")));
}

#[test]
fn only_a_database_is_not_in_memory() {
    assert!(keeps_in_memory(&LocatorConfig::Memory));
    assert!(keeps_in_memory(&LocatorConfig::Http {
        url: "http://x".to_string()
    }));
    assert!(!keeps_in_memory(&LocatorConfig::Database {
        url: "sqlite://x".to_string()
    }));
}
