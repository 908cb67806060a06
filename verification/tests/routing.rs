//! Routing rules, rewrites and the choice of trunks.

use active_call::call::{DefaultRouteInvite, TrunkIdentity};
use active_call::matcher::{
    apply_rewrite_pattern, apply_rewrite_pattern_with_match, apply_rewrite_rules,
    apply_trunk_config, extract_capture_group, find_trunk, get_header_value, match_input,
    match_invite, matches_pattern, matches_rule, reject_response, select_trunk, text_of_group,
    update_uri_host, update_uri_user, ActionType, DefaultRoute, DestConfig, MatchConditions,
    MatchInput, RejectConfig, RewriteRules, RouteAction, RouteError, RouteResult, RouteRule,
    RoutingState, TrunkConfig,
};
use active_call::model::DialDirection;
use active_call::sip::{Header, InviteOption, Transport, Uri};

fn uri(user: &str, host: &str) -> Uri {
    Uri {
        scheme: "sip:".to_string(),
        user: Some(user.to_string()),
        password: None,
        host: host.to_string(),
        port: None,
        params: String::new(),
    }
}

fn invite(caller: &str, callee: &str) -> InviteOption {
    InviteOption {
        caller_display_name: None,
        caller: uri(caller, "a.com"),
        callee: uri(callee, "b.com"),
        contact: uri(caller, "a.com"),
        content_type: None,
        offer: None,
        destination: None,
        credential: None,
        headers: None,
        call_id: None,
    }
}

fn input(option: &InviteOption) -> MatchInput {
    match_input(
        option,
        &uri("req", "proxy.com"),
        vec![
            Header::Other("X-Tenant".to_string(), "blue".to_string()),
            Header::UserAgent("phone/1".to_string()),
        ],
    )
}

fn no_conditions() -> MatchConditions {
    MatchConditions {
        from_user: None,
        from_host: None,
        to_user: None,
        to_host: None,
        request_uri_user: None,
        request_uri_host: None,
        caller: None,
        callee: None,
        headers: Vec::new(),
    }
}

fn no_rewrite() -> RewriteRules {
    RewriteRules {
        from_user: None,
        from_host: None,
        to_user: None,
        to_host: None,
        caller: None,
        callee: None,
        headers: Vec::new(),
    }
}

fn rule(action: ActionType, dest: Option<DestConfig>) -> RouteRule {
    RouteRule {
        name: "r".to_string(),
        disabled: None,
        match_conditions: no_conditions(),
        rewrite: None,
        action: RouteAction {
            action,
            reject: None,
            dest,
            select: "rr".to_string(),
            hash_key: None,
        },
    }
}

fn trunk(name: &str, dest: &str) -> TrunkConfig {
    TrunkConfig {
        name: name.to_string(),
        dest: dest.to_string(),
        transport: None,
        username: None,
        password: None,
    }
}

fn names(list: &[&str]) -> DestConfig {
    DestConfig::Multiple(list.iter().map(|s| s.to_string()).collect())
}

#[test]
fn plain_patterns_are_compared_and_others_searched() {
    assert_eq!(matches_pattern("1001", "1001"), Ok(true));
    assert_eq!(matches_pattern("1001", "11001"), Ok(false));
    assert_eq!(matches_pattern("^1\\d{3}$", "1001"), Ok(true));
    assert_eq!(matches_pattern("^1\\d{3}$", "10010"), Ok(false));
    assert_eq!(matches_pattern("0+", "a00b"), Ok(true));
    assert_eq!(
        matches_pattern("(", "x"),
        Err(RouteError::InvalidPattern)
    );
}

#[test]
fn headers_are_found_by_name() {
    let headers = vec![
        Header::Other("X-Tenant".to_string(), "blue".to_string()),
        Header::UserAgent("phone/1".to_string()),
    ];
    assert_eq!(
        get_header_value(&headers, "x-tenant").as_deref(),
        Some("blue")
    );
    assert_eq!(
        get_header_value(&headers, "User-Agent").as_deref(),
        Some("User-Agent: phone/1")
    );
    assert_eq!(get_header_value(&headers, "Contact"), None);
    let contact = vec![Header::Contact("<sip:a@b.com>".to_string())];
    assert_eq!(
        get_header_value(&contact, "Contact").as_deref(),
        Some("Contact: <sip:a@b.com>")
    );
}

#[test]
fn typed_headers_are_matched_as_they_are_written() {
    let option = invite("1001", "2002");
    let by_agent = |pattern: &str| {
        let mut c = no_conditions();
        c.headers = vec![("header.User-Agent".to_string(), pattern.to_string())];
        matches_rule(&c, &input(&option))
    };
    assert_eq!(by_agent("phone/\\d$"), Ok(true));
    assert_eq!(by_agent("^User-Agent: phone/\\d$"), Ok(true));
    assert_eq!(by_agent("User-Agent: phone/1"), Ok(true));
    assert_eq!(by_agent("^phone/\\d$"), Ok(false));
    assert_eq!(by_agent("phone/1"), Ok(false));
}

#[test]
fn filled_patterns_hold_digits_of_the_value_in_order() {
    for value in ["+8613800138000", "+15551234567", "4711", "a1b2", "ab12cd34", "ab"] {
        let digits: String = value.chars().filter(|c| c.is_ascii_digit()).collect();
        let filled = apply_rewrite_pattern_with_match("<{1}>", value);
        assert!(filled.starts_with('<') && filled.ends_with('>'));
        let taken = &filled[1..filled.len() - 1];
        // What was taken is left out of the digits one by one, from the front.
        let mut rest = digits.chars();
        assert!(taken.chars().all(|c| rest.any(|d| d == c)));
    }
    // A group that there is none of, and a group that is no number.
    assert_eq!(apply_rewrite_pattern_with_match("<{7}>", "4711"), "<4711>");
    assert_eq!(apply_rewrite_pattern_with_match("<{-1}>", "4711"), "<{-1}>");
    assert_eq!(apply_rewrite_pattern_with_match("<{1", "4711"), "<{1");
}

#[test]
fn braces_matter_only_in_rules_that_are_applied() {
    let unreadable = || {
        let mut r = rule(ActionType::Forward, Some(DestConfig::Single("gw".to_string())));
        let mut rewrite = no_rewrite();
        rewrite.to_user = Some("}{".to_string());
        r.rewrite = Some(rewrite);
        r
    };
    let router = |routes: Vec<RouteRule>| DefaultRouteInvite {
        routing_state: RoutingState::new(),
        trunks: vec![trunk("gw", "sip:gw.net")],
        routes,
        default_route: None,
        source_trunk_hint: None,
    };
    let option = || invite("1001", "2002");
    let outbound = |routes: Vec<RouteRule>| {
        router(routes).try_route_invite(
            option(),
            &input(&option()),
            DialDirection::Outbound,
            None,
        )
    };
    assert!(outbound(vec![unreadable()]).is_none());

    let mut disabled = unreadable();
    disabled.disabled = Some(true);
    assert!(matches!(outbound(vec![disabled]), Some(Ok(RouteResult::Forward(_)))));

    let mut elsewhere = unreadable();
    elsewhere.match_conditions.to_user = Some("9999".to_string());
    assert!(matches!(outbound(vec![elsewhere]), Some(Ok(RouteResult::Forward(_)))));

    // No rule is tried where the caller's trunk is refused.
    let r = router(vec![unreadable()]).try_route_invite(
        option(),
        &input(&option()),
        DialDirection::Inbound,
        Some(TrunkIdentity::Rejected),
    );
    assert!(matches!(r, Some(Ok(RouteResult::Abort(403, _)))));
}

#[test]
fn all_conditions_of_a_rule_must_hold() {
    let option = invite("1001", "2002");
    let m = input(&option);
    assert_eq!(matches_rule(&no_conditions(), &m), Ok(true));
    let mut c = no_conditions();
    c.from_user = Some("^10".to_string());
    c.to_user = Some("2002".to_string());
    c.headers = vec![
        ("header.X-Tenant".to_string(), "blue".to_string()),
        ("unrelated".to_string(), "never".to_string()),
    ];
    assert_eq!(matches_rule(&c, &m), Ok(true));
    c.request_uri_host = Some("other.com".to_string());
    assert_eq!(matches_rule(&c, &m), Ok(false));
    c.request_uri_host = Some("[".to_string());
    assert_eq!(matches_rule(&c, &m), Err(RouteError::InvalidPattern));
    let mut missing = no_conditions();
    missing.headers = vec![("header.X-None".to_string(), "x".to_string())];
    assert_eq!(matches_rule(&missing, &m), Ok(false));
}

#[test]
fn groups_are_taken_from_numbers() {
    assert_eq!(
        extract_capture_group("+8613800138000", 1).as_deref(),
        Some("13800138000")
    );
    assert_eq!(
        extract_capture_group("+15551234567", 1).as_deref(),
        Some("5551234567")
    );
    assert_eq!(extract_capture_group("4711", 1).as_deref(), Some("4711"));
    assert_eq!(extract_capture_group("ab12cd", 1).as_deref(), Some("12"));
    assert_eq!(extract_capture_group("ab", 1), None);
    assert_eq!(extract_capture_group("4711", 0), None);
    assert_eq!(extract_capture_group("4711", 2), None);
}

#[test]
fn group_is_read_from_a_given_match() {
    let groups = vec![Some("+18005550100".to_string()), Some("8005550100".to_string())];
    assert_eq!(
        text_of_group(&Some(groups), Some(2), "+18005550100", 1).as_deref(),
        Some("8005550100")
    );
    assert_eq!(text_of_group(&None, Some(2), "+18005550100", 1), None);
}

#[test]
fn rewrite_patterns_are_filled() {
    assert_eq!(
        apply_rewrite_pattern_with_match("0{1}", "+8613800138000"),
        "013800138000"
    );
    assert_eq!(apply_rewrite_pattern_with_match("9{1}#", "a1b2"), "912#");
    assert_eq!(apply_rewrite_pattern_with_match("9{x}", "12"), "9{x}");
    assert_eq!(apply_rewrite_pattern_with_match("fixed", "12"), "fixed");
    assert_eq!(apply_rewrite_pattern("96123{1}", "77"), "9612377");
    assert_eq!(apply_rewrite_pattern("plain", "77"), "plain");
}

#[test]
fn uris_are_rewritten() {
    let mut u = uri("alice", "a.com");
    u.password = Some("p".to_string());
    assert_eq!(update_uri_user(&u, "bob").to_text(), "sip:bob:p@a.com");
    assert_eq!(
        update_uri_host(&u, "b.com:5070").unwrap().to_text(),
        "sip:alice:p@b.com:5070"
    );
    assert_eq!(
        update_uri_host(&u, "b.com:port").err(),
        Some(RouteError::InvalidHost)
    );
}

#[test]
fn rewrite_rules_change_the_parties() {
    let mut option = invite("+8613800138000", "2002");
    let mut w = no_rewrite();
    w.from_user = Some("0{1}".to_string());
    w.to_host = Some("gw.net".to_string());
    w.headers = vec![("header.X-Route".to_string(), "one".to_string())];
    assert!(apply_rewrite_rules(&mut option, &w).is_ok());
    assert_eq!(option.caller.to_text(), "sip:013800138000@a.com");
    assert_eq!(option.callee.to_text(), "sip:2002@gw.net");
    let headers = option.headers.unwrap();
    assert!(matches!(&headers[0], Header::Other(n, v) if n == "X-Route" && v == "one"));
}

#[test]
fn trunks_take_turns() {
    let option = invite("1", "2");
    let mut state = RoutingState::new();
    let dest = names(&["a", "b", "c"]);
    let picks: Vec<String> = (0..4)
        .map(|_| select_trunk(&dest, "rr", &None, &option, &mut state).unwrap())
        .collect();
    assert_eq!(picks, vec!["a", "b", "c", "a"]);
    // Another list has a turn of its own.
    assert_eq!(
        select_trunk(&names(&["x", "y"]), "", &None, &option, &mut state).unwrap(),
        "x"
    );
}

#[test]
fn hashed_choice_depends_on_the_text_alone() {
    let option = invite("alice", "2");
    let dest = names(&["a", "b", "c"]);
    let key = Some("from.user".to_string());
    let mut state = RoutingState::new();
    let first = select_trunk(&dest, "hash", &key, &option, &mut state).unwrap();
    for _ in 0..5 {
        select_trunk(&dest, "rr", &None, &option, &mut state).unwrap();
        assert_eq!(
            select_trunk(&dest, "hash", &key, &option, &mut state).unwrap(),
            first
        );
    }
    use_all_hash_targets(&dest);
}

fn use_all_hash_targets(dest: &DestConfig) {
    let mut seen: Vec<String> = Vec::new();
    for i in 0..60 {
        let option = invite(&format!("user{}", i), "2");
        let key = Some("from.user".to_string());
        let name = select_trunk(dest, "hash", &key, &option, &mut RoutingState::new()).unwrap();
        if !seen.contains(&name) {
            seen.push(name);
        }
    }
    assert_eq!(seen.len(), 3);
}

#[test]
fn random_choice_stays_in_the_list() {
    let option = invite("1", "2");
    let dest = names(&["a", "b"]);
    let mut seen: Vec<String> = Vec::new();
    for _ in 0..100 {
        let name =
            select_trunk(&dest, "random", &None, &option, &mut RoutingState::new()).unwrap();
        assert!(name == "a" || name == "b");
        if !seen.contains(&name) {
            seen.push(name);
        }
    }
    assert_eq!(seen.len(), 2);
}

#[test]
fn empty_list_of_trunks_is_an_error() {
    let option = invite("1", "2");
    assert_eq!(
        select_trunk(&names(&[]), "rr", &None, &option, &mut RoutingState::new()),
        Err(RouteError::NoTrunks)
    );
    let single = DestConfig::Single("only".to_string());
    assert_eq!(
        select_trunk(&single, "random", &None, &option, &mut RoutingState::new()),
        Ok("only".to_string())
    );
}

#[test]
fn trunk_sets_destination_and_identity() {
    let mut option = invite("alice", "bob");
    let mut t = trunk("gw", "sip:gw.net:5080");
    t.transport = Some("TCP".to_string());
    t.username = Some("u".to_string());
    t.password = Some("p".to_string());
    assert!(apply_trunk_config(&mut option, &t).is_ok());
    let dest = option.destination.as_ref().unwrap();
    assert_eq!(dest.transport, Some(Transport::Tcp));
    assert_eq!(dest.host, "gw.net");
    assert_eq!(dest.port, Some(5080));
    let credential = option.credential.as_ref().unwrap();
    assert_eq!(credential.realm.as_deref(), Some("gw.net"));
    let headers = option.headers.as_ref().unwrap();
    assert!(matches!(
        &headers[0],
        Header::Other(n, v) if n == "P-Asserted-Identity" && v == "<sip:alice@a.com>"
    ));
}

#[test]
fn trunk_without_a_uri_is_an_error() {
    let mut option = invite("alice", "bob");
    assert_eq!(
        apply_trunk_config(&mut option, &trunk("gw", "::not a uri::")),
        Err(RouteError::InvalidDestination)
    );
}

#[test]
fn refusals_have_a_reason() {
    assert_eq!(reject_response(&None), (403, "Forbidden".to_string()));
    for (code, reason) in [
        (403, "Forbidden"),
        (404, "Not Found"),
        (486, "Busy Here"),
        (500, "Rejected"),
    ] {
        let config = Some(RejectConfig { code, reason: None });
        assert_eq!(reject_response(&config), (code, reason.to_string()));
    }
    let given = Some(RejectConfig {
        code: 404,
        reason: Some("gone".to_string()),
    });
    assert_eq!(reject_response(&given), (404, "gone".to_string()));
}

fn route(
    trunks: Vec<TrunkConfig>,
    rules: Vec<RouteRule>,
    default: Option<DefaultRoute>,
) -> Result<RouteResult, RouteError> {
    let option = invite("1001", "2002");
    let m = input(&option);
    match_invite(
        &trunks,
        Some(&rules),
        default.as_ref(),
        option,
        &m,
        &mut RoutingState::new(),
    )
}

#[test]
fn rules_are_tried_in_order() {
    let gw = || vec![trunk("gw", "sip:gw.net")];
    let to = |name: &str| Some(DestConfig::Single(name.to_string()));

    let mut off = rule(ActionType::Reject, None);
    off.disabled = Some(true);
    let r = route(gw(), vec![off, rule(ActionType::Forward, to("gw"))], None);
    assert!(matches!(
        r,
        Ok(RouteResult::Forward(o)) if o.destination.as_ref().unwrap().host == "gw.net"
    ));

    let r = route(gw(), vec![rule(ActionType::Busy, None)], None);
    assert!(matches!(r, Ok(RouteResult::Abort(486, t)) if t == "Busy Here"));

    // A rule whose trunk is unknown leaves the request to the next one.
    let rules = vec![
        rule(ActionType::Forward, to("nowhere")),
        rule(ActionType::Reject, None),
    ];
    let r = route(gw(), rules, None);
    assert!(matches!(r, Ok(RouteResult::Abort(403, _))));

    let default = Some(DefaultRoute {
        dest: DestConfig::Single("gw".to_string()),
        select: "rr".to_string(),
    });
    let mut never = rule(ActionType::Reject, None);
    never.match_conditions.to_user = Some("nobody".to_string());
    let r = route(gw(), vec![never], default);
    assert!(matches!(r, Ok(RouteResult::Forward(o)) if o.destination.is_some()));

    let mut broken = rule(ActionType::Reject, None);
    broken.match_conditions.to_user = Some("(".to_string());
    assert_eq!(
        route(gw(), vec![broken], None).err(),
        Some(RouteError::InvalidPattern)
    );
}

#[test]
fn request_without_rules_is_sent_on() {
    let option = invite("1001", "2002");
    let m = input(&option);
    let r = match_invite(&Vec::new(), None, None, option, &m, &mut RoutingState::new());
    assert!(matches!(r, Ok(RouteResult::Forward(o)) if o.destination.is_none()));
    assert!(find_trunk(&vec![trunk("gw", "sip:x")], "gw").is_some());
    assert!(find_trunk(&Vec::new(), "gw").is_none());
}

#[test]
fn inbound_identity_is_checked_before_the_rules() {
    let router = || DefaultRouteInvite {
        routing_state: RoutingState::new(),
        trunks: vec![trunk("gw", "sip:gw.net")],
        routes: Vec::new(),
        default_route: None,
        source_trunk_hint: Some("gw".to_string()),
    };
    let option = || invite("1001", "2002");
    let r = router().route_invite(
        option(),
        &input(&option()),
        DialDirection::Inbound,
        Some(TrunkIdentity::Rejected),
    );
    assert!(matches!(r, Ok(RouteResult::Abort(403, t)) if t == "Inbound identity rejected"));
    let r = router().route_invite(
        option(),
        &input(&option()),
        DialDirection::Inbound,
        Some(TrunkIdentity::InvalidRule),
    );
    assert!(matches!(r, Ok(RouteResult::Abort(500, _))));
    let r = router().route_invite(
        option(),
        &input(&option()),
        DialDirection::Outbound,
        Some(TrunkIdentity::Rejected),
    );
    assert!(matches!(r, Ok(RouteResult::Forward(_))));
    assert_eq!(
        router().resolve_source_trunk(DialDirection::Inbound, None).as_deref(),
        Some("gw")
    );
    assert_eq!(
        router().resolve_source_trunk(DialDirection::Outbound, Some("gw".to_string())),
        None
    );
}
