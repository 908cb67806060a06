//! Taking on calls: how a request becomes the plan of a call, whether the call is
//! recorded, and how a refused call is answered.
use vstd::prelude::*;
use crate::matcher::{
    DefaultRoute, MatchInput, RouteError, RouteResult, RouteRule, RoutingState, TrunkConfig,
    braces_fit, can_route, find_trunk, match_invite, routed, rules_are_readable,
    trunk_is_known_by_name, trunk_named,
};
use crate::model::{
    AppParams, CallForwardingConfig, DialDirection, DialStrategy, Dialplan, DialplanFlow, Location,
    MediaProxyMode, QueuePlan, RecorderOption, RecordingConfig,
};
use crate::negotiate::{CodecType, codec_from_name, codec_named};
use crate::session::random_uuid;
use crate::sip::{InviteOption, Method, Uri, UriView};
use crate::text::{
    chars_of, decimal, decimal_of, ends_with, eq_ignoring_case, has_prefix, has_suffix, join2,
    join3, lower, occurrences_are_replaced, occurs_at, only_digits_are_read, opt_text, own,
    parse_number, parse_unsigned, replace_text, replaced, same, same_ignoring_case, starts_with,
    string_of, trim, trimmed, trimmed_is_stable, written_number_is_read_back,
};

verus! {

/// The Q.850 cause of a response code.
pub open spec fn q850_cause(code: u16) -> u16 {
    if code == 400 || code == 401 || code == 402 || code == 403 || code == 405 || code == 406 || code
        == 407 || code == 421 || code == 603 {
        21
    } else if code == 404 || code == 484 || code == 604 {
        1
    } else if code == 410 {
        22
    } else if code == 413 || code == 414 || code == 416 || code == 420 {
        127
    } else if code == 480 || code == 408 {
        18
    } else if code == 486 || code == 600 {
        17
    } else if code == 487 {
        31
    } else if code == 488 || code == 606 {
        79
    } else if code == 502 || code == 503 {
        38
    } else if code == 504 {
        34
    } else if 500 <= code <= 599 {
        41
    } else {
        16
    }
}

/// The Q.850 cause of a response code.
pub fn q850_cause_from_status(code: u16) -> (r: u16)
    ensures
        r == q850_cause(code),
{
    match code {
        400 | 401 | 402 | 403 | 405 | 406 | 407 | 421 | 603 => 21,
        404 | 484 | 604 => 1,
        410 => 22,
        413 | 414 | 416 | 420 => 127,
        480 | 408 => 18,
        486 | 600 => 17,
        487 => 31,
        488 | 606 => 79,
        502 | 503 => 38,
        504 => 34,
        _ => if 500 <= code && code <= 599 {
            41
        } else {
            16
        },
    }
}

/// A character within quotes: quotes and backslashes have a backslash before them.
pub open spec fn escaped_char(c: char) -> Seq<char> {
    if c == '\\' || c == '"' {
        seq!['\\', c]
    } else {
        seq![c]
    }
}

/// A text within quotes.
pub open spec fn escaped(s: Seq<char>) -> Seq<char>
    decreases s.len(),
{
    if s.len() == 0 {
        Seq::empty()
    } else {
        escaped_char(s[0]) + escaped(s.drop_first())
    }
}

/// The text that an escaped one stands for: a backslash stands for what follows it.
pub open spec fn unescaped(s: Seq<char>) -> Seq<char>
    decreases s.len(),
{
    if s.len() == 0 {
        Seq::empty()
    } else if s[0] == '\\' && s.len() > 1 {
        seq![s[1]] + unescaped(s.skip(2))
    } else {
        seq![s[0]] + unescaped(s.drop_first())
    }
}

/// Escapes a text for use within quotes.
pub fn escape_reason_text(text: &str) -> (r: String)
    ensures
        r@ == escaped(text@),
{
    let v = chars_of(text);
    let mut out = String::new();
    let mut i: usize = 0;
    assert(v@.skip(0) =~= text@);
    assert(out@ + escaped(v@.skip(0)) =~= escaped(text@));
    while i < v.len()
        invariant
            i <= v.len(),
            out@ + escaped(v@.skip(i as int)) == escaped(text@),
        decreases v.len() - i,
    {
        let ghost before = out@;
        let ghost rest = v@.skip(i as int);
        assert(rest[0] == v@[i as int]);
        assert(rest.drop_first() =~= v@.skip(i + 1));
        if v[i] == '\\' || v[i] == '"' {
            out.push('\\');
        }
        out.push(v[i]);
        assert(out@ =~= before + escaped_char(v@[i as int]));
        assert(out@ + escaped(v@.skip(i + 1)) =~= before + (escaped_char(v@[i as int]) + escaped(
            v@.skip(i + 1),
        )));
        i += 1;
    }
    assert(v@.skip(i as int) =~= Seq::empty());
    assert(out@ =~= escaped(text@));
    out
}

/// Nothing is lost by escaping: an escaped text stands for the text.
pub proof fn escaping_keeps_the_text(s: Seq<char>)
    ensures
        unescaped(escaped(s)) == s,
    decreases s.len(),
{
    if s.len() > 0 {
        let rest = escaped(s.drop_first());
        escaping_keeps_the_text(s.drop_first());
        let all = escaped(s);
        if s[0] == '\\' || s[0] == '"' {
            assert(all[0] == '\\' && all[1] == s[0]);
            assert(all.skip(2) =~= rest);
        } else {
            assert(all[0] == s[0]);
            assert(all.drop_first() =~= rest);
        }
        assert(unescaped(all) =~= s);
    }
}

/// The text of a `Reason` header: the detail where there is any, else the code.
pub open spec fn reason_text(code: u16, detail: Option<Seq<char>>) -> Seq<char> {
    match detail {
        Some(d) => if trimmed(d).len() > 0 {
            trimmed(d)
        } else {
            "SIP "@ + decimal(code as nat)
        },
        None => "SIP "@ + decimal(code as nat),
    }
}

/// The value of the `Reason` header of a refusal.
pub fn q850_reason_value(code: u16, detail: Option<&str>) -> (r: String)
    ensures
        r@ == "Q.850;cause="@ + decimal(q850_cause(code) as nat) + ";text=\""@ + escaped(
            reason_text(
                code,
                match detail {
                    Some(d) => Some(d@),
                    None => None,
                },
            ),
        ) + "\""@,
{
    let number = decimal_of(code as u64);
    let mut text = join2("SIP ", number.as_str());
    if let Some(d) = detail {
        let t = trim(d);
        if !t.as_str().is_empty() {
            text = t;
        }
    }
    let cause = decimal_of(q850_cause_from_status(code) as u64);
    let quoted = escape_reason_text(text.as_str());
    let head = join3("Q.850;cause=", cause.as_str(), ";text=\"");
    join3(head.as_str(), quoted.as_str(), "\"")
}

/// Whether `glob` takes a value for one of the pattern; `None` where the pattern is
/// not valid.
pub uninterp spec fn glob_match(pattern: Seq<char>, value: Seq<char>) -> Option<bool>;

/// `glob::Pattern::new` and `glob::Pattern::matches`: whether the value is one of the
/// pattern; `None` where the pattern is not valid.
#[verifier::external_body]
fn glob_matches(pattern: &str, value: &str) -> (r: Option<bool>)
    ensures
        r == glob_match(pattern@, value@),
{
    Some(glob::Pattern::new(pattern).ok()?.matches(value))
}

/// Whether a value is one of a pattern, if `compiled` says whether it is as far as the
/// pattern is valid: a star takes every value, and one that is not valid is taken
/// literally, whatever the case of its letters.
pub open spec fn takes(pattern: Seq<char>, value: Seq<char>, compiled: Option<bool>) -> bool {
    pattern == "*"@ || match compiled {
        Some(b) => b,
        None => same_ignoring_case(pattern, value),
    }
}

/// See [`takes`].
pub fn pattern_takes(pattern: &str, value: &str, compiled: Option<bool>) -> (r: bool)
    ensures
        r == takes(pattern@, value@, compiled),
{
    if same(pattern, "*") {
        return true;
    }
    match compiled {
        Some(b) => b,
        None => eq_ignoring_case(pattern, value),
    }
}

/// Whether a value is one of a pattern.
pub fn match_pattern(pattern: &str, value: &str) -> (r: bool)
    ensures
        r == takes(pattern@, value@, glob_match(pattern@, value@)),
{
    let compiled = glob_matches(pattern, value);
    pattern_takes(pattern, value, compiled)
}

/// Whether a value is one of the patterns.
pub open spec fn is_any(value: Seq<char>, patterns: Seq<String>) -> bool {
    exists|i: int|
        0 <= i < patterns.len() && takes(
            (#[trigger] patterns[i])@,
            value,
            glob_match(patterns[i]@, value),
        )
}

/// Whether a value is one of the patterns.
pub fn matches_any_pattern(value: &str, patterns: &Vec<String>) -> (r: bool)
    ensures
        r == is_any(value@, patterns@),
{
    let mut i: usize = 0;
    while i < patterns.len()
        invariant
            i <= patterns.len(),
            forall|k: int|
                0 <= k < i ==> !takes(
                    (#[trigger] patterns@[k])@,
                    value@,
                    glob_match(patterns@[k]@, value@),
                ),
        decreases patterns.len() - i,
    {
        if match_pattern(patterns[i].as_str(), value) {
            return true;
        }
        i += 1;
    }
    false
}

/// Who a URI names: the user at the host, or the host alone.
pub open spec fn identity_of(uri: UriView) -> Seq<char> {
    if uri.user_text().len() == 0 {
        uri.host
    } else {
        uri.user_text() + "@"@ + uri.host
    }
}

/// See [`identity_of`].
pub fn identity_from_uri(uri: &Uri) -> (r: String)
    ensures
        r@ == identity_of(uri@),
{
    let user = uri.user_or_empty();
    if user.as_str().is_empty() {
        uri.host.clone()
    } else {
        join3(user.as_str(), "@", uri.host.as_str())
    }
}

/// A file name with its tokens filled in, one kind of token after the other.
pub open spec fn rendered_name(
    pattern: Seq<char>,
    session_id: Seq<char>,
    caller: Seq<char>,
    callee: Seq<char>,
    direction: Seq<char>,
    timestamp: Seq<char>,
) -> Seq<char> {
    let a = replaced(pattern, "{session_id}"@, session_id);
    let b = replaced(a, "{caller}"@, caller);
    let c = replaced(b, "{callee}"@, callee);
    let d = replaced(c, "{direction}"@, direction);
    replaced(d, "{timestamp}"@, timestamp)
}

/// See [`rendered_name`].
pub fn render_filename(
    pattern: &str,
    session_id: &str,
    caller: &str,
    callee: &str,
    direction: &str,
    timestamp: &str,
) -> (r: String)
    ensures
        r@ == rendered_name(
            pattern@,
            session_id@,
            caller@,
            callee@,
            direction@,
            timestamp@,
        ),
{
    proof {
        reveal_strlit("{session_id}");
        reveal_strlit("{caller}");
        reveal_strlit("{callee}");
        reveal_strlit("{direction}");
        reveal_strlit("{timestamp}");
    }
    let a = replace_text(pattern, "{session_id}", session_id);
    let b = replace_text(a.as_str(), "{caller}", caller);
    let c = replace_text(b.as_str(), "{callee}", callee);
    let d = replace_text(c.as_str(), "{direction}", direction);
    replace_text(d.as_str(), "{timestamp}", timestamp)
}

/// The characters that a file name keeps.
pub open spec fn is_name_char(c: char) -> bool {
    ('a' <= c && c <= 'z') || ('A' <= c && c <= 'Z') || ('0' <= c && c <= '9') || c == '-' || c
        == '_' || c == '.'
}

/// The longest file name that is made.
pub const MAX_NAME_LEN: usize = 120;

/// A text with each run of other characters than those of a file name as one
/// underscore, cut to the longest name; and whether it ends in such a run.
pub open spec fn cleaned(s: Seq<char>) -> (Seq<char>, bool)
    decreases s.len(),
{
    if s.len() == 0 {
        (Seq::empty(), false)
    } else {
        let (out, sep) = cleaned(s.drop_last());
        if out.len() >= MAX_NAME_LEN {
            (out, sep)
        } else if is_name_char(s.last()) {
            (out.push(s.last()), false)
        } else if !sep {
            (out.push('_'), true)
        } else {
            (out, sep)
        }
    }
}

/// A text without the characters `c` at its start.
pub open spec fn strip_start(s: Seq<char>, c: char) -> Seq<char>
    decreases s.len(),
{
    if s.len() > 0 && s[0] == c {
        strip_start(s.drop_first(), c)
    } else {
        s
    }
}

/// A text without the characters `c` at its end.
pub open spec fn strip_end(s: Seq<char>, c: char) -> Seq<char>
    decreases s.len(),
{
    if s.len() > 0 && s.last() == c {
        strip_end(s.drop_last(), c)
    } else {
        s
    }
}

/// A text without the characters `c` at its ends.
pub open spec fn stripped(s: Seq<char>, c: char) -> Seq<char> {
    strip_end(strip_start(s, c), c)
}

/// The file name that a text gives: its cleaned form without underscores and then
/// dots at its ends, or the fallback where nothing is left.
pub open spec fn file_name(value: Seq<char>, fallback: Seq<char>) -> Seq<char> {
    let name = stripped(stripped(cleaned(value).0, '_'), '.');
    if name.len() == 0 {
        fallback
    } else {
        name
    }
}

/// The bounds of a range without the characters `c` at its ends.
fn strip_bounds(v: &Vec<char>, from: usize, to: usize, c: char) -> (r: (usize, usize))
    requires
        from <= to <= v.len(),
    ensures
        from <= r.0 <= r.1 <= to,
        v@.subrange(r.0 as int, r.1 as int) == stripped(v@.subrange(from as int, to as int), c),
{
    let mut a: usize = from;
    while a < to && v[a] == c
        invariant
            from <= a <= to <= v.len(),
            strip_start(v@.subrange(a as int, to as int), c) == strip_start(
                v@.subrange(from as int, to as int),
                c,
            ),
        decreases to - a,
    {
        assert(v@.subrange(a as int, to as int)[0] == v@[a as int]);
        assert(v@.subrange(a as int, to as int).drop_first() =~= v@.subrange(a + 1, to as int));
        a += 1;
    }
    let ghost mid = v@.subrange(a as int, to as int);
    assert(mid == strip_start(v@.subrange(from as int, to as int), c)) by {
        if a < to {
            assert(mid[0] == v@[a as int]);
        }
    }
    let mut b: usize = to;
    while b > a && v[b - 1] == c
        invariant
            from <= a <= b <= to <= v.len(),
            strip_end(v@.subrange(a as int, b as int), c) == strip_end(mid, c),
        decreases b,
    {
        assert(v@.subrange(a as int, b as int).last() == v@[b - 1]);
        assert(v@.subrange(a as int, b as int).drop_last() =~= v@.subrange(a as int, b - 1));
        b -= 1;
    }
    assert(v@.subrange(a as int, b as int) == strip_end(mid, c)) by {
        if b > a {
            assert(v@.subrange(a as int, b as int).last() == v@[b - 1]);
        }
    }
    (a, b)
}

fn clean(v: &Vec<char>) -> (r: Vec<char>)
    ensures
        r@ == cleaned(v@).0,
{
    let mut out: Vec<char> = Vec::new();
    let mut sep = false;
    let mut i: usize = 0;
    assert(v@.take(0) =~= Seq::empty());
    while i < v.len()
        invariant
            i <= v.len(),
            (out@, sep) == cleaned(v@.take(i as int)),
        decreases v.len() - i,
    {
        assert(v@.take(i + 1).drop_last() =~= v@.take(i as int));
        assert(v@.take(i + 1).last() == v@[i as int]);
        let c = v[i];
        if out.len() < MAX_NAME_LEN {
            let kept = (c >= 'a' && c <= 'z') || (c >= 'A' && c <= 'Z') || (c >= '0' && c <= '9') || c
                == '-' || c == '_' || c == '.';
            if kept {
                out.push(c);
                sep = false;
            } else if !sep {
                out.push('_');
                sep = true;
            }
        }
        i += 1;
    }
    assert(v@.take(i as int) =~= v@);
    out
}

/// See [`file_name`].
pub fn sanitize_filename_component(value: &str, fallback: &str) -> (r: String)
    ensures
        r@ == file_name(value@, fallback@),
{
    let v = chars_of(value);
    let out = clean(&v);
    let (a, b) = strip_bounds(&out, 0, out.len(), '_');
    assert(out@.subrange(0, out@.len() as int) =~= out@);
    let (c, d) = strip_bounds(&out, a, b, '.');
    if c == d {
        own(fallback)
    } else {
        string_of(&out, c, d)
    }
}

proof fn cleaned_is_a_name(s: Seq<char>)
    ensures
        cleaned(s).0.len() <= MAX_NAME_LEN,
        forall|i: int| 0 <= i < cleaned(s).0.len() ==> is_name_char(#[trigger] cleaned(s).0[i]),
    decreases s.len(),
{
    if s.len() > 0 {
        cleaned_is_a_name(s.drop_last());
    }
}

proof fn stripped_is_a_part(s: Seq<char>, c: char)
    ensures
        stripped(s, c).len() <= s.len(),
        stripped(s, c).len() > 0 ==> stripped(s, c)[0] != c && stripped(s, c).last() != c,
        forall|i: int| 0 <= i < stripped(s, c).len() ==> s.contains(#[trigger] stripped(s, c)[i]),
{
    strip_start_facts(s, c);
    strip_end_facts(strip_start(s, c), c);
    let a = strip_start(s, c);
    let r = stripped(s, c);
    assert forall|i: int| 0 <= i < r.len() implies s.contains(#[trigger] r[i]) by {
        assert(r[i] == a[i]);
        assert(s[s.len() - a.len() + i] == a[i]);
    }
    if r.len() > 0 {
        assert(r[0] == a[0]);
    }
}

proof fn strip_start_facts(s: Seq<char>, c: char)
    ensures
        strip_start(s, c).len() <= s.len(),
        strip_start(s, c) == s.skip(s.len() - strip_start(s, c).len()),
        strip_start(s, c).len() > 0 ==> strip_start(s, c)[0] != c,
    decreases s.len(),
{
    if s.len() > 0 && s[0] == c {
        strip_start_facts(s.drop_first(), c);
        let r = strip_start(s, c);
        assert(r =~= s.skip(s.len() - r.len()));
    } else {
        assert(s.skip(0) =~= s);
    }
}

proof fn strip_end_facts(s: Seq<char>, c: char)
    ensures
        strip_end(s, c).len() <= s.len(),
        strip_end(s, c) == s.take(strip_end(s, c).len() as int),
        strip_end(s, c).len() > 0 ==> strip_end(s, c).last() != c,
    decreases s.len(),
{
    if s.len() > 0 && s.last() == c {
        strip_end_facts(s.drop_last(), c);
        let r = strip_end(s, c);
        assert(r =~= s.take(r.len() as int));
    } else {
        assert(s.take(s.len() as int) =~= s);
    }
}

/// A file name is the fallback, or has only the characters of a file name, is not
/// too long, and neither begins nor ends with a dot.
pub proof fn file_name_is_safe(value: Seq<char>, fallback: Seq<char>)
    ensures
        file_name(value, fallback) == fallback || {
            let n = file_name(value, fallback);
            &&& 0 < n.len() <= MAX_NAME_LEN
            &&& n[0] != '.' && n.last() != '.'
            &&& forall|i: int| 0 <= i < n.len() ==> is_name_char(#[trigger] n[i])
        },
{
    let a = cleaned(value).0;
    let b = stripped(a, '_');
    let n = stripped(b, '.');
    cleaned_is_a_name(value);
    stripped_is_a_part(a, '_');
    stripped_is_a_part(b, '.');
    assert forall|i: int| 0 <= i < n.len() implies is_name_char(#[trigger] n[i]) by {
        assert(b.contains(n[i]));
        let j = b.index_of(n[i]);
        assert(a.contains(b[j]));
        let k = a.index_of(b[j]);
        assert(is_name_char(a[k]));
    }
}

/// When and how calls are recorded.
#[derive(Clone, Debug)]
pub struct RecordingPolicy {
    pub enabled: bool,
    pub directions: Vec<DialDirection>,
    pub caller_allow: Vec<String>,
    pub caller_deny: Vec<String>,
    pub callee_allow: Vec<String>,
    pub callee_deny: Vec<String>,
    pub auto_start: Option<bool>,
    pub filename_pattern: Option<String>,
    pub samplerate: Option<u32>,
    pub ptime: Option<u32>,
    /// The directory of the recordings.
    pub root: String,
}

/// What a recording is made with where the policy leaves it open.
#[derive(Clone, Copy, Debug)]
pub struct RecorderDefaults {
    pub samplerate: u32,
    pub ptime: u32,
}

/// Whether a party is let pass by what is denied and what is allowed; nothing that
/// is allowed stands for everything.
pub open spec fn is_allowed(value: Seq<char>, allow: Seq<String>, deny: Seq<String>) -> bool {
    !is_any(value, deny) && (allow.len() == 0 || is_any(value, allow))
}

/// Whether the policy records a call in this direction between these parties.
pub open spec fn policy_covers(
    policy: RecordingPolicy,
    direction: DialDirection,
    caller: Seq<char>,
    callee: Seq<char>,
) -> bool {
    &&& policy.directions@.len() == 0 || policy.directions@.contains(direction)
    &&& is_allowed(caller, policy.caller_allow@, policy.caller_deny@)
    &&& is_allowed(callee, policy.callee_allow@, policy.callee_deny@)
}

fn passes(value: &str, allow: &Vec<String>, deny: &Vec<String>) -> (r: bool)
    ensures
        r == is_allowed(value@, allow@, deny@),
{
    if matches_any_pattern(value, deny) {
        return false;
    }
    allow.len() == 0 || matches_any_pattern(value, allow)
}

fn lists_direction(v: &Vec<DialDirection>, d: DialDirection) -> (r: bool)
    ensures
        r == v@.contains(d),
{
    let mut i: usize = 0;
    while i < v.len()
        invariant
            i <= v.len(),
            forall|k: int| 0 <= k < i ==> v@[k] != d,
        decreases v.len() - i,
    {
        if v[i] == d {
            assert(v@[i as int] == d);
            return true;
        }
        i += 1;
    }
    false
}

/// Whether the policy records a call in this direction between these parties.
pub fn covers(policy: &RecordingPolicy, direction: DialDirection, caller: &str, callee: &str) -> (r: bool)
    ensures
        r == policy_covers(*policy, direction, caller@, callee@),
{
    if policy.directions.len() > 0 && !lists_direction(&policy.directions, direction) {
        return false;
    }
    passes(caller, &policy.caller_allow, &policy.caller_deny) && passes(
        callee,
        &policy.callee_allow,
        &policy.callee_deny,
    )
}

/// The path of a name in a directory: an absolute name is a path of its own.
pub open spec fn joined_path(root: Seq<char>, name: Seq<char>) -> Seq<char> {
    if has_prefix(name, "/"@) {
        name
    } else if root.len() == 0 || root.last() == '/' {
        root + name
    } else {
        root + "/"@ + name
    }
}

fn join_path(root: &str, name: &str) -> (r: String)
    ensures
        r@ == joined_path(root@, name@),
{
    proof {
        reveal_strlit("/");
    }
    if starts_with(name, "/") {
        own(name)
    } else if root.is_empty() || ends_with(root, "/") {
        assert(root@.len() > 0 && has_suffix(root@, "/"@) ==> root@.last() == '/') by {
            if root@.len() > 0 && has_suffix(root@, "/"@) {
                assert(root@.skip(root@.len() - 1)[0] == root@.last());
            }
        }
        join2(root, name)
    } else {
        assert(root@.last() != '/') by {
            if root@.last() == '/' {
                assert(root@.skip(root@.len() - 1) =~= "/"@);
            }
        }
        join3(root, "/", name)
    }
}

/// A path without the `/` and `/.` that it may end in, which name nothing.
pub open spec fn path_body(path: Seq<char>) -> Seq<char>
    decreases path.len(),
{
    let n = path.len() as int;
    if n > 0 && path[n - 1] == '/' {
        path_body(path.take(n - 1))
    } else if n > 1 && path[n - 1] == '.' && path[n - 2] == '/' {
        path_body(path.take(n - 2))
    } else {
        path
    }
}

/// The place behind the last `c` in a text, 0 where there is none.
pub open spec fn behind_last(s: Seq<char>, c: char) -> int
    decreases s.len(),
{
    if s.len() == 0 {
        0
    } else if s.last() == c {
        s.len() as int
    } else {
        behind_last(s.drop_last(), c)
    }
}

/// The length of a file name without its extension: what stands before the last dot,
/// all of it where that is nothing.
pub open spec fn stem_len(file: Seq<char>) -> int {
    let dot = behind_last(file, '.') - 1;
    if dot > 0 {
        dot
    } else {
        file.len() as int
    }
}

/// A path with another extension: a path that names no file stays as it is.
pub open spec fn path_with_extension(path: Seq<char>, extension: Seq<char>) -> Seq<char> {
    let body = path_body(path);
    let start = behind_last(body, '/');
    let file = body.skip(start);
    if file.len() == 0 || file == "."@ || file == ".."@ {
        path
    } else {
        body.take(start + stem_len(file)) + "."@ + extension
    }
}

fn body_len(path: &Vec<char>) -> (r: usize)
    ensures
        r <= path.len(),
        path_body(path@) == path@.take(r as int),
{
    let mut n: usize = path.len();
    assert(path@.take(n as int) =~= path@);
    loop
        invariant
            n <= path.len(),
            path_body(path@.take(n as int)) == path_body(path@),
        ensures
            n <= path.len(),
            path_body(path@) == path@.take(n as int),
        decreases n,
    {
        let ghost t = path@.take(n as int);
        if n > 0 && path[n - 1] == '/' {
            assert(t.take(n - 1) =~= path@.take(n - 1));
            n = n - 1;
        } else if n > 1 && path[n - 1] == '.' && path[n - 2] == '/' {
            assert(t.take(n - 2) =~= path@.take(n - 2));
            n = n - 2;
        } else {
            break;
        }
    }
    n
}

fn find_behind_last(v: &Vec<char>, from: usize, to: usize, c: char) -> (r: usize)
    requires
        from <= to <= v.len(),
    ensures
        from <= r <= to,
        r - from == behind_last(v@.subrange(from as int, to as int), c),
{
    let mut n: usize = to;
    while n > from
        invariant
            from <= n <= to <= v.len(),
            behind_last(v@.subrange(from as int, n as int), c) == behind_last(
                v@.subrange(from as int, to as int),
                c,
            ),
        decreases n,
    {
        let ghost t = v@.subrange(from as int, n as int);
        if v[n - 1] == c {
            return n;
        }
        assert(t.drop_last() =~= v@.subrange(from as int, n - 1));
        n = n - 1;
    }
    n
}

fn set_extension(path: &str, extension: &str) -> (r: String)
    ensures
        r@ == path_with_extension(path@, extension@),
{
    proof {
        reveal_strlit(".");
        reveal_strlit("..");
    }
    let v = chars_of(path);
    let end: usize = body_len(&v);
    let start: usize = find_behind_last(&v, 0, end, '/');
    let ghost body = path_body(path@);
    let ghost file = body.skip(start as int);
    assert(v@.subrange(0, end as int) =~= body);
    assert(v@.subrange(start as int, end as int) =~= file);
    let len: usize = end - start;
    assert(len > 0 ==> file[0] == v@[start as int]);
    assert(len > 1 ==> file[1] == v@[start + 1]);
    if len == 0 || (len == 1 && v[start] == '.') || (len == 2 && v[start] == '.' && v[start + 1]
        == '.') {
        assert(file.len() == 1 && file[0] == '.' ==> file =~= "."@);
        assert(file.len() == 2 && file[0] == '.' && file[1] == '.' ==> file =~= ".."@);
        return own(path);
    }
    let dot: usize = find_behind_last(&v, start, end, '.');
    let stem: usize = if dot > start + 1 {
        dot - 1
    } else {
        end
    };
    assert(v@.take(stem as int) =~= body.take(stem as int));
    let kept = string_of(&v, 0, stem);
    assert(v@.subrange(0, stem as int) =~= v@.take(stem as int));
    join3(kept.as_str(), ".", extension)
}

/// What the name of a recording is made from.
#[derive(Clone, Debug)]
pub struct RecordingNames {
    pub caller: String,
    pub callee: String,
    pub direction: String,
    pub timestamp: String,
}

/// The name of a recording, before the directory and the extension.
pub open spec fn recording_name(policy: RecordingPolicy, names: RecordingNames, session_id: Seq<char>) -> Seq<char> {
    let pattern = match policy.filename_pattern {
        Some(p) => p@,
        None => "{session_id}"@,
    };
    file_name(
        rendered_name(
            pattern,
            session_id,
            names.caller@,
            names.callee@,
            names.direction@,
            names.timestamp@,
        ),
        session_id,
    )
}

/// The name of a recording, before the directory and the extension.
pub fn name_recording(policy: &RecordingPolicy, names: &RecordingNames, session_id: &str) -> (r: String)
    ensures
        r@ == recording_name(*policy, *names, session_id@),
{
    let pattern = match &policy.filename_pattern {
        Some(p) => p.as_str(),
        None => "{session_id}",
    };
    let rendered = render_filename(
        pattern,
        session_id,
        names.caller.as_str(),
        names.callee.as_str(),
        names.direction.as_str(),
        names.timestamp.as_str(),
    );
    sanitize_filename_component(rendered.as_str(), session_id)
}

/// A value, or another where there is none.
pub open spec fn or_default(a: Option<u32>, b: u32) -> u32 {
    match a {
        Some(x) => x,
        None => b,
    }
}

/// Whether `option` is the recorder of a call whose session has this identifier; none
/// where its recording would have no name.
pub open spec fn is_recorder(
    option: Option<RecorderOption>,
    policy: RecordingPolicy,
    names: RecordingNames,
    session_id: Seq<char>,
    defaults: RecorderDefaults,
) -> bool {
    let name = recording_name(policy, names, session_id);
    if name.len() == 0 {
        option is None
    } else {
        &&& option matches Some(o)
        &&& o.recorder_file@ == path_with_extension(joined_path(policy.root@, name), "wav"@)
        &&& o.samplerate == or_default(policy.samplerate, defaults.samplerate)
        &&& o.ptime == or_default(policy.ptime, defaults.ptime)
    }
}

/// The recorder of a call. A session without an identifier is given a random one.
pub fn build_recorder_option(
    session_id: &Option<String>,
    policy: &RecordingPolicy,
    names: &RecordingNames,
    defaults: RecorderDefaults,
) -> (r: Option<RecorderOption>)
    ensures
        exists|id: Seq<char>|
            #![trigger is_recorder(r, *policy, *names, id, defaults)]
            is_recorder(r, *policy, *names, id, defaults) && match *session_id {
                Some(s) => id == s@,
                None => id.len() == 36,
            },
{
    let id = match session_id {
        Some(s) => s.clone(),
        None => random_uuid(),
    };
    let name = name_recording(policy, names, id.as_str());
    if name.as_str().is_empty() {
        let r: Option<RecorderOption> = None;
        assert(is_recorder(r, *policy, *names, id@, defaults));
        return r;
    }
    let path = join_path(policy.root.as_str(), name.as_str());
    let recorder_file = set_extension(path.as_str(), "wav");
    let r = Some(
        RecorderOption {
            recorder_file,
            samplerate: match policy.samplerate {
                Some(s) => s,
                None => defaults.samplerate,
            },
            ptime: match policy.ptime {
                Some(p) => p,
                None => defaults.ptime,
            },
        },
    );
    assert(is_recorder(r, *policy, *names, id@, defaults));
    r
}

/// The recording of a call after the policy has been applied with this recorder: what
/// the plan of the call sets stays, as far as the policy does not.
pub open spec fn is_recorded_with(
    before: RecordingConfig,
    after: RecordingConfig,
    policy: RecordingPolicy,
    recorder: RecorderOption,
) -> bool {
    &&& after.enabled
    &&& after.auto_start == (match policy.auto_start {
        Some(a) => a,
        None => true,
    })
    &&& match before.option {
        Some(o) => after.option == Some(
            RecorderOption {
                recorder_file: if o.recorder_file@.len() == 0 {
                    recorder.recorder_file
                } else {
                    o.recorder_file
                },
                samplerate: or_default(policy.samplerate, o.samplerate),
                ptime: or_default(policy.ptime, o.ptime),
            },
        ),
        None => after.option == Some(recorder),
    }
}

/// Whether the policy leaves a call as it is: it is off, the call has a recorder
/// already, or the policy does not cover it.
pub open spec fn policy_passes_over(plan: Dialplan, policy: Option<RecordingPolicy>, names: RecordingNames) -> bool {
    match policy {
        Some(p) => !p.enabled || (plan.recording.enabled && plan.recording.option is Some) || (
        !plan.recording.enabled && !policy_covers(
            p,
            plan.direction,
            names.caller@,
            names.callee@,
        )),
        None => true,
    }
}

fn set_recorder(recording: RecordingConfig, policy: &RecordingPolicy, recorder: RecorderOption) -> (r:
    RecordingConfig)
    ensures
        is_recorded_with(recording, r, *policy, recorder),
{
    let auto_start = match policy.auto_start {
        Some(a) => a,
        None => true,
    };
    let option = match recording.option {
        Some(o) => {
            let mut o = o;
            if o.recorder_file.as_str().is_empty() {
                o.recorder_file = recorder.recorder_file;
            }
            if let Some(rate) = policy.samplerate {
                o.samplerate = rate;
            }
            if let Some(ptime) = policy.ptime {
                o.ptime = ptime;
            }
            Some(o)
        },
        None => Some(recorder),
    };
    RecordingConfig { enabled: true, auto_start, option }
}

/// Whether the recording policy leads from one plan to another.
pub open spec fn policy_applied(
    before: Dialplan,
    after: Dialplan,
    policy: Option<RecordingPolicy>,
    names: RecordingNames,
    defaults: RecorderDefaults,
    recorder: Option<RecorderOption>,
    id: Seq<char>,
) -> bool {
    if policy_passes_over(before, policy, names) {
        after == before
    } else {
        &&& is_recorder(recorder, policy->0, names, id, defaults)
        &&& match before.session_id {
            Some(s) => id == s@,
            None => id.len() == 36,
        }
        &&& match recorder {
            Some(o) => is_recorded_with(before.recording, after.recording, policy->0, o) && after == (
            Dialplan { recording: after.recording, ..before }),
            None => after == before,
        }
    }
}

/// Applies the recording policy to the plan of a call.
pub fn apply_recording_policy(
    dialplan: Dialplan,
    policy: &Option<RecordingPolicy>,
    names: &RecordingNames,
    defaults: RecorderDefaults,
) -> (r: Dialplan)
    ensures
        exists|recorder: Option<RecorderOption>, id: Seq<char>| #[trigger]
            policy_applied(dialplan, r, *policy, *names, defaults, recorder, id),
{
    let ghost before = dialplan;
    let p = match policy {
        Some(p) => p,
        None => {
            assert(policy_applied(before, dialplan, *policy, *names, defaults, None, Seq::empty()));
            return dialplan;
        },
    };
    let skipped = !p.enabled || (dialplan.recording.enabled && dialplan.recording.option.is_some())
        || (!dialplan.recording.enabled && !covers(
        p,
        dialplan.direction,
        names.caller.as_str(),
        names.callee.as_str(),
    ));
    if skipped {
        assert(policy_applied(before, dialplan, *policy, *names, defaults, None, Seq::empty()));
        return dialplan;
    }
    let recorder = build_recorder_option(&dialplan.session_id, p, names, defaults);
    let ghost id = choose|id: Seq<char>|
        #![trigger is_recorder(recorder, *p, *names, id, defaults)]
        is_recorder(recorder, *p, *names, id, defaults) && match dialplan.session_id {
            Some(s) => id == s@,
            None => id.len() == 36,
        };
    let ghost chosen = recorder;
    let mut dialplan = dialplan;
    if let Some(o) = recorder {
        dialplan.recording = set_recorder(dialplan.recording, p, o);
    }
    assert(policy_applied(before, dialplan, *policy, *names, defaults, chosen, id));
    dialplan
}

/// A call that the policy covers is recorded, whether or not its plan says so; one
/// that is recorded already stays so.
pub proof fn covered_call_is_recorded(
    before: Dialplan,
    after: Dialplan,
    policy: Option<RecordingPolicy>,
    names: RecordingNames,
    defaults: RecorderDefaults,
    recorder: Option<RecorderOption>,
    id: Seq<char>,
)
    requires
        policy_applied(before, after, policy, names, defaults, recorder, id),
        policy is Some && policy->0.enabled,
        before.recording.enabled || policy_covers(
            policy->0,
            before.direction,
            names.caller@,
            names.callee@,
        ),
        recording_name(policy->0, names, id).len() > 0,
    ensures
        after.recording.enabled,
        after.recording.option is Some,
{
}

/// Why the plan of a call could not be made: the text, and the code to refuse the call
/// with.
pub type PlanError = (String, Option<u16>);

/// The direction of a call, from where its parties are: `None` where neither is of the
/// own realm and the call does not come from a trunk.
pub open spec fn direction_of_call(
    caller_is_local: bool,
    callee_is_local: bool,
    from_trunk: bool,
    callee_unknown: bool,
) -> Option<DialDirection> {
    match (caller_is_local, callee_is_local) {
        (true, true) => if !from_trunk && !callee_unknown {
            Some(DialDirection::Internal)
        } else {
            Some(DialDirection::Outbound)
        },
        (true, false) => Some(DialDirection::Outbound),
        (false, true) => Some(DialDirection::Inbound),
        (false, false) => if from_trunk {
            Some(DialDirection::Inbound)
        } else {
            None
        },
    }
}

/// The direction of a call. `callee_unknown` says whether the callee is no user of the
/// own realm. A call between two strangers is refused.
pub fn resolve_direction(
    caller_is_local: bool,
    callee_is_local: bool,
    from_trunk: bool,
    callee_unknown: bool,
) -> (r: Result<DialDirection, PlanError>)
    ensures
        match direction_of_call(caller_is_local, callee_is_local, from_trunk, callee_unknown) {
            Some(d) => r == Ok::<DialDirection, PlanError>(d),
            None => r matches Err((text, code)) && text@
                == "Both caller and callee are external realm"@ && code == Some(403u16),
        },
{
    match (caller_is_local, callee_is_local) {
        (true, true) => if !from_trunk && !callee_unknown {
            Ok(DialDirection::Internal)
        } else {
            Ok(DialDirection::Outbound)
        },
        (true, false) => Ok(DialDirection::Outbound),
        (false, true) => Ok(DialDirection::Inbound),
        (false, false) => if from_trunk {
            Ok(DialDirection::Inbound)
        } else {
            Err((own("Both caller and callee are external realm"), Some(403)))
        },
    }
}

/// A call between two strangers is taken on only if it comes from a trunk.
pub proof fn strangers_need_a_trunk(from_trunk: bool, callee_unknown: bool)
    ensures
        direction_of_call(false, false, from_trunk, callee_unknown) is Some == from_trunk,
{
}

/// Whether one of the locations takes secure media.
pub open spec fn any_webrtc(found: Seq<Location>) -> bool {
    exists|i: int| 0 <= i < found.len() && (#[trigger] found[i]).supports_webrtc
}

/// The target of a call: the callee. `found` are its locations, where it is of the own
/// realm and they could be looked up.
pub fn call_target(callee: Uri, found: &Option<Vec<Location>>) -> (r: Location)
    ensures
        r.is_bare(callee, found matches Some(f) && any_webrtc(f@)),
{
    let mut webrtc = false;
    if let Some(f) = found {
        let mut i: usize = 0;
        while i < f.len()
            invariant
                i <= f.len(),
                webrtc == exists|k: int| 0 <= k < i && (#[trigger] f@[k]).supports_webrtc,
            decreases f.len() - i,
        {
            if f[i].supports_webrtc {
                webrtc = true;
            }
            i += 1;
        }
    }
    Location::bare(callee, webrtc)
}

/// What routing says of a call beside its target. Durations are in milliseconds.
#[derive(Clone, Debug)]
pub struct DialplanHints {
    pub enable_recording: Option<bool>,
    pub bypass_media: Option<bool>,
    pub max_duration: Option<u64>,
    pub enable_sipflow: Option<bool>,
    pub allow_codecs: Option<Vec<String>>,
}

/// What routing makes of a call.
#[derive(Debug)]
pub enum PreviewOutcome {
    Queue { plan: QueuePlan, hints: Option<DialplanHints> },
    Forward(Option<DialplanHints>),
    NotHandled(Option<DialplanHints>),
    Abort(u16, Option<String>),
    Application { app_name: String, app_params: Option<AppParams>, auto_answer: bool },
}

/// The codecs that have one of the names, in order.
pub open spec fn codecs_named(names: Seq<String>) -> Seq<CodecType>
    decreases names.len(),
{
    if names.len() == 0 {
        Seq::empty()
    } else {
        let before = codecs_named(names.drop_last());
        match codec_named(names.last()@) {
            Some(c) => before.push(c),
            None => before,
        }
    }
}

fn find_codecs(names: &Vec<String>) -> (r: Vec<CodecType>)
    ensures
        r@ == codecs_named(names@),
{
    let mut out: Vec<CodecType> = Vec::new();
    let mut i: usize = 0;
    assert(names@.take(0) =~= Seq::empty());
    while i < names.len()
        invariant
            i <= names.len(),
            out@ == codecs_named(names@.take(i as int)),
        decreases names.len() - i,
    {
        assert(names@.take(i + 1).drop_last() =~= names@.take(i as int));
        assert(names@.take(i + 1).last() == names@[i as int]);
        if let Some(c) = codec_from_name(names[i].as_str()) {
            out.push(c);
        }
        i += 1;
    }
    assert(names@.take(i as int) =~= names@);
    out
}

/// The codecs of a call: those that routing names, else those that are configured;
/// names of which none is known change nothing.
pub open spec fn call_codecs(
    base: Seq<CodecType>,
    hints: Option<DialplanHints>,
    configured: Option<Vec<String>>,
) -> Seq<CodecType> {
    let names = match hints {
        Some(h) => match h.allow_codecs {
            Some(n) => Some(n),
            None => configured,
        },
        None => configured,
    };
    match names {
        Some(n) => if codecs_named(n@).len() > 0 {
            codecs_named(n@)
        } else {
            base
        },
        None => base,
    }
}

/// What routing and the configuration say beside the flow of a call.
pub open spec fn hinted(before: Dialplan, after: Dialplan, hints: Option<DialplanHints>, configured: Option<Vec<String>>) -> bool {
    let h = match hints {
        Some(h) => h,
        None => DialplanHints {
            enable_recording: None,
            bypass_media: None,
            max_duration: None,
            enable_sipflow: None,
            allow_codecs: None,
        },
    };
    &&& after.allow_codecs@ == call_codecs(before.allow_codecs@, hints, configured)
    &&& after == (Dialplan {
        recording: RecordingConfig {
            enabled: match h.enable_recording {
                Some(e) => e,
                None => before.recording.enabled,
            },
            ..before.recording
        },
        media_proxy: if h.bypass_media == Some(true) {
            MediaProxyMode::Disabled
        } else {
            before.media_proxy
        },
        max_call_duration: match h.max_duration {
            Some(d) => Some(d),
            None => before.max_call_duration,
        },
        enable_sipflow: match h.enable_sipflow {
            Some(e) => e,
            None => before.enable_sipflow,
        },
        allow_codecs: after.allow_codecs,
        ..before
    })
}

/// Applies what routing and the configuration say beside the flow of a call.
pub fn apply_hints(dialplan: Dialplan, hints: &Option<DialplanHints>, configured: &Option<Vec<String>>) -> (r:
    Dialplan)
    ensures
        hinted(dialplan, r, *hints, *configured),
{
    let mut plan = dialplan;
    let mut names: Option<&Vec<String>> = match configured {
        Some(n) => Some(n),
        None => None,
    };
    if let Some(h) = hints {
        if let Some(enabled) = h.enable_recording {
            plan.recording.enabled = enabled;
        }
        if matches!(h.bypass_media, Some(true)) {
            plan.media_proxy = MediaProxyMode::Disabled;
        }
        if let Some(d) = h.max_duration {
            plan.max_call_duration = Some(d);
        }
        if let Some(e) = h.enable_sipflow {
            plan.enable_sipflow = e;
        }
        if let Some(n) = &h.allow_codecs {
            names = Some(n);
        }
    }
    if let Some(n) = names {
        let codecs = find_codecs(n);
        if codecs.len() > 0 {
            plan.allow_codecs = codecs;
        }
    }
    plan
}

/// What a new call is planned from: the plan that calls begin with, and what the
/// configuration says of recordings and failures.
#[derive(Debug)]
pub struct PlanBase {
    pub dialplan: Dialplan,
    pub recording: RecordingConfig,
    pub passthrough_failure: bool,
    pub media_proxy: MediaProxyMode,
    pub codecs: Option<Vec<String>>,
}

/// The plan of a call before what routing says beside its flow.
pub open spec fn flow_planned(
    base: PlanBase,
    session_id: String,
    direction: DialDirection,
    caller: Uri,
    target: Location,
    preview: PreviewOutcome,
    plan: Dialplan,
) -> bool {
    &&& match preview {
        PreviewOutcome::Application { app_name, app_params, auto_answer } => plan.flow == (
        DialplanFlow::Application { app_name, app_params, auto_answer }),
        PreviewOutcome::Queue { plan: q, hints } => plan.flow == (DialplanFlow::Queue {
            plan: q,
            next: Box::new(base.dialplan.flow),
        }),
        _ => plan.flow matches DialplanFlow::Targets(DialStrategy::Sequential(t)) && t@ == seq![
            target,
        ],
    }
    &&& plan == (Dialplan {
        session_id: Some(session_id),
        direction,
        caller: Some(caller),
        recording: base.recording,
        passthrough_failure: base.passthrough_failure,
        media_proxy: base.media_proxy,
        flow: plan.flow,
        ..base.dialplan
    })
}

/// What routing says beside the flow of a call.
pub open spec fn preview_hints(preview: PreviewOutcome) -> Option<DialplanHints> {
    match preview {
        PreviewOutcome::Queue { plan, hints } => hints,
        PreviewOutcome::Forward(hints) => hints,
        PreviewOutcome::NotHandled(hints) => hints,
        _ => None,
    }
}

/// Whether `r` is the plan of a call for which the preview of its routing says this:
/// the flow and then the hints of the preview, or the reason why there is no call.
pub open spec fn is_plan_of(
    base: PlanBase,
    session_id: String,
    direction: DialDirection,
    caller: Uri,
    target: Location,
    preview: PreviewOutcome,
    contact: Option<Uri>,
    r: Result<Dialplan, PlanError>,
) -> bool {
    match preview {
        PreviewOutcome::Abort(code, reason) => r matches Err((text, c)) && c == Some(code) && text@
            == (match reason {
            Some(t) => t@,
            None => "route aborted during preview"@,
        }),
        _ => {
            &&& r matches Ok(plan)
            &&& exists|flow: Dialplan, after: Dialplan|
                #![trigger flow_planned(base, session_id, direction, caller, target, preview, flow), hinted(flow, after, preview_hints(preview), base.codecs)]
                flow_planned(base, session_id, direction, caller, target, preview, flow) && hinted(
                    flow,
                    after,
                    preview_hints(preview),
                    base.codecs,
                ) && plan == (match contact {
                    Some(c) => Dialplan { caller_contact: Some(c), ..after },
                    None => after,
                })
        },
    }
}

/// Plans a call from what routing makes of it; an error where routing refuses it.
/// `contact` is the contact of the server.
pub fn default_resolve(
    base: PlanBase,
    session_id: String,
    direction: DialDirection,
    caller: Uri,
    target: Location,
    preview: PreviewOutcome,
    contact: Option<Uri>,
) -> (r: Result<Dialplan, PlanError>)
    ensures
        is_plan_of(base, session_id, direction, caller, target, preview, contact, r),
{
    let ghost start = base;
    let ghost routed = preview;
    let mut plan = base.dialplan;
    plan.session_id = Some(session_id);
    plan.direction = direction;
    plan.caller = Some(caller);
    plan.recording = base.recording;
    plan.passthrough_failure = base.passthrough_failure;
    plan.media_proxy = base.media_proxy;
    let hints = match preview {
        PreviewOutcome::Abort(code, reason) => {
            let text = match reason {
                Some(t) => t,
                None => own("route aborted during preview"),
            };
            return Err((text, Some(code)));
        },
        PreviewOutcome::Application { app_name, app_params, auto_answer } => {
            plan.flow = DialplanFlow::Application { app_name, app_params, auto_answer };
            None
        },
        PreviewOutcome::Queue { plan: queue, hints } => {
            plan.flow = DialplanFlow::Queue { plan: queue, next: Box::new(plan.flow) };
            hints
        },
        PreviewOutcome::Forward(hints) | PreviewOutcome::NotHandled(hints) => {
            let mut targets: Vec<Location> = Vec::new();
            targets.push(target);
            assert(targets@ =~= seq![target]);
            plan.flow = DialplanFlow::Targets(DialStrategy::Sequential(targets));
            hints
        },
    };
    let ghost flow = plan;
    assert(flow_planned(start, session_id, direction, caller, target, routed, flow));
    let mut plan = apply_hints(plan, &hints, &base.codecs);
    let ghost after = plan;
    assert(hinted(flow, after, preview_hints(routed), start.codecs));
    if let Some(c) = contact {
        plan.caller_contact = Some(c);
    }
    Ok(plan)
}

/// What the own user that is called has set.
#[derive(Clone, Debug)]
pub struct CalleeSettings {
    pub forwarding: Option<CallForwardingConfig>,
    pub voicemail_disabled: bool,
}

/// A plan with what the callee has set, unless the call is a wholesale one.
pub open spec fn with_callee_settings(dialplan: Dialplan, callee: Option<CalleeSettings>, wholesale: bool) -> Dialplan {
    if wholesale || callee is None {
        dialplan
    } else {
        Dialplan {
            call_forwarding: match dialplan.call_forwarding {
                Some(f) => Some(f),
                None => callee->0.forwarding,
            },
            voicemail_enabled: !callee->0.voicemail_disabled,
            ..dialplan
        }
    }
}

/// Applies the settings of the own user that is called, if any is: its forwarding,
/// unless the plan has one, and whether it takes messages. The calls of a wholesale
/// trunk are left as they are.
pub fn apply_callee_settings(dialplan: Dialplan, callee: Option<CalleeSettings>, wholesale: bool) -> (r:
    Dialplan)
    ensures
        r == with_callee_settings(dialplan, callee, wholesale),
{
    let mut plan = dialplan;
    if !wholesale {
        if let Some(c) = callee {
            if plan.call_forwarding.is_none() {
                plan.call_forwarding = c.forwarding;
            }
            plan.voicemail_enabled = !c.voicemail_disabled;
        }
    }
    plan
}

/// The own user that a request calls: none where the callee is of another realm or
/// has no user part.
pub fn callee_user(callee: &Uri, same_realm: bool) -> (r: Option<String>)
    ensures
        opt_text(r) == (if same_realm && trimmed(callee.user_text()).len() > 0 {
            Some(trimmed(callee.user_text()))
        } else {
            None
        }),
{
    if !same_realm {
        return None;
    }
    let user = callee.user_or_empty();
    let name = trim(user.as_str());
    if name.as_str().is_empty() {
        None
    } else {
        Some(name)
    }
}

/// The trunk that an inbound call comes from: the one it was recognised by, where it
/// is known, else the one whose address it comes from.
pub open spec fn source_trunk_of(
    inbound: bool,
    hint: Option<String>,
    trunks: Seq<TrunkConfig>,
    by_address: Option<String>,
) -> Option<Seq<char>> {
    if !inbound {
        None
    } else if hint is Some && trunk_named(trunks, hint->0@) is Some {
        Some(hint->0@)
    } else if by_address is Some && trunk_named(trunks, by_address->0@) is Some {
        Some(by_address->0@)
    } else {
        None
    }
}

/// Whether an inbound call shows a party that its trunk lets pass.
#[derive(Clone, Copy, Debug, PartialEq, Eq, Structural)]
pub enum TrunkIdentity {
    Accepted,
    Rejected,
    /// The trunk's rule cannot be evaluated.
    InvalidRule,
}

/// The routing of calls by the configured trunks and rules.
#[derive(Debug)]
pub struct DefaultRouteInvite {
    pub routing_state: RoutingState,
    pub trunks: Vec<TrunkConfig>,
    pub routes: Vec<RouteRule>,
    pub default_route: Option<DefaultRoute>,
    pub source_trunk_hint: Option<String>,
}

impl DefaultRouteInvite {
    /// The trunk that a call comes from, see [`source_trunk_of`].
    pub fn resolve_source_trunk(&self, direction: DialDirection, by_address: Option<String>) -> (r: Option<
        String,
    >)
        ensures
            opt_text(r) == source_trunk_of(
                direction is Inbound,
                self.source_trunk_hint,
                self.trunks@,
                by_address,
            ),
    {
        if direction != DialDirection::Inbound {
            return None;
        }
        if let Some(name) = &self.source_trunk_hint {
            if find_trunk(&self.trunks, name.as_str()).is_some() {
                return Some(name.clone());
            }
        }
        match by_address {
            Some(name) => if find_trunk(&self.trunks, name.as_str()).is_some() {
                Some(name)
            } else {
                None
            },
            None => None,
        }
    }

    /// Whether an INVITE is refused for the party that it shows.
    pub open spec fn refuses_party(direction: DialDirection, identity: Option<TrunkIdentity>) -> bool {
        direction is Inbound && (identity == Some(TrunkIdentity::Rejected) || identity == Some(
            TrunkIdentity::InvalidRule,
        ))
    }

    /// What becomes of an INVITE that is routed. An inbound call from a trunk has to
    /// show a party that the trunk lets pass, as `identity` says of the trunk that it
    /// comes from; then the rules decide, see [`can_route`]. Without rules the INVITE is
    /// sent on as it is.
    pub open spec fn is_routed(
        self,
        after: DefaultRouteInvite,
        option: InviteOption,
        input: MatchInput,
        direction: DialDirection,
        identity: Option<TrunkIdentity>,
        r: Result<RouteResult, RouteError>,
    ) -> bool {
        &&& after == (DefaultRouteInvite { routing_state: after.routing_state, ..self })
        &&& if direction is Inbound && identity == Some(TrunkIdentity::Rejected) {
            &&& r matches Ok(RouteResult::Abort(code, reason))
            &&& code == 403
            &&& reason@ == "Inbound identity rejected"@
            &&& after == self
        } else if direction is Inbound && identity == Some(TrunkIdentity::InvalidRule) {
            &&& r matches Ok(RouteResult::Abort(code, reason))
            &&& code == 500
            &&& reason@ == "Invalid trunk prefix configuration"@
            &&& after == self
        } else if self.routes.len() == 0 {
            &&& r == Ok::<RouteResult, RouteError>(RouteResult::Forward(option))
            &&& after == self
        } else {
            can_route(
                self.routes@,
                match self.default_route {
                    Some(d) => Some(&d),
                    None => None,
                },
                self.trunks@,
                input,
                option@,
                self.routing_state.counts(),
                (routed(r), after.routing_state.counts()),
            )
        }
    }

    /// Routes an INVITE, see [`DefaultRouteInvite::is_routed`].
    pub fn route_invite(
        &mut self,
        option: InviteOption,
        input: &MatchInput,
        direction: DialDirection,
        identity: Option<TrunkIdentity>,
    ) -> (r: Result<RouteResult, RouteError>)
        requires
            Self::refuses_party(direction, identity) || braces_fit(
                old(self).routes@,
                old(self).trunks@,
                *input,
            ),
        ensures
            old(self).is_routed(*final(self), option, *input, direction, identity, r),
    {
        if direction == DialDirection::Inbound {
            match identity {
                Some(TrunkIdentity::Rejected) => return Ok(
                    RouteResult::Abort(403, own("Inbound identity rejected")),
                ),
                Some(TrunkIdentity::InvalidRule) => return Ok(
                    RouteResult::Abort(500, own("Invalid trunk prefix configuration")),
                ),
                _ => {},
            }
        }
        let default = match &self.default_route {
            Some(d) => Some(d),
            None => None,
        };
        let routes = if self.routes.len() == 0 {
            None
        } else {
            Some(&self.routes)
        };
        match_invite(&self.trunks, routes, default, option, input, &mut self.routing_state)
    }

    /// Routes an INVITE where the rules can be tried on it; `None`, and nothing changes,
    /// where a rule that can apply has a rewrite pattern with its braces out of order.
    pub fn try_route_invite(
        &mut self,
        option: InviteOption,
        input: &MatchInput,
        direction: DialDirection,
        identity: Option<TrunkIdentity>,
    ) -> (r: Option<Result<RouteResult, RouteError>>)
        ensures
            r is Some == (Self::refuses_party(direction, identity) || braces_fit(
                old(self).routes@,
                old(self).trunks@,
                *input,
            )),
            match r {
                Some(x) => old(self).is_routed(*final(self), option, *input, direction, identity, x),
                None => *final(self) == *old(self),
            },
    {
        let refused = direction == DialDirection::Inbound && matches!(
            identity,
            Some(TrunkIdentity::Rejected) | Some(TrunkIdentity::InvalidRule)
        );
        if refused || rules_are_readable(&self.routes, &self.trunks, input) {
            Some(self.route_invite(option, input, direction, identity))
        } else {
            None
        }
    }
}

/// The hops that a request may still take: as its header says, else 70.
pub open spec fn hops_left(max_forwards: Option<Seq<char>>) -> nat {
    match max_forwards {
        Some(v) => match parse_number(v, u32::MAX as nat) {
            Some(n) => n,
            None => 70,
        },
        None => 70,
    }
}

/// The hops that the INVITE to the target may take; `None` where the request may take
/// none any more and is refused with 483. `max_forwards` is the value of the header of
/// the request.
pub fn forwarded_hops(max_forwards: Option<&str>) -> (r: Option<u32>)
    ensures
        ({
            let hops = hops_left(
                match max_forwards {
                    Some(v) => Some(v@),
                    None => None,
                },
            );
            match r {
                Some(n) => hops > 0 && n == hops - 1,
                None => hops == 0,
            }
        }),
{
    let hops: u64 = match max_forwards {
        Some(v) => match parse_unsigned(v, u32::MAX as u64) {
            Some(n) => n,
            None => 70,
        },
        None => 70,
    };
    if hops == 0 {
        None
    } else {
        Some((hops - 1) as u32)
    }
}

/// What the call module does with a request.
#[derive(Clone, Copy, Debug, PartialEq, Eq, Structural)]
pub enum CallRequest {
    /// It begins a call.
    NewCall,
    /// It belongs to a dialog.
    InDialog,
    /// It is left to other modules.
    NotHandled,
}

/// What a request is to the calls: an INVITE outside a dialog begins one.
pub open spec fn request_kind(method: Method, in_dialog: bool) -> CallRequest {
    match method {
        Method::Invite => if in_dialog {
            CallRequest::InDialog
        } else {
            CallRequest::NewCall
        },
        Method::Options | Method::Info | Method::Ack | Method::Update | Method::Cancel
        | Method::Bye => CallRequest::InDialog,
        _ => CallRequest::NotHandled,
    }
}

/// What the call module does with a request. `local_tag` is the tag of the server's
/// side, empty where the request is out of any dialog.
pub fn classify_request(method: Method, local_tag: &str) -> (r: CallRequest)
    ensures
        r == request_kind(method, local_tag@.len() > 0),
{
    match method {
        Method::Invite => if local_tag.is_empty() {
            CallRequest::NewCall
        } else {
            CallRequest::InDialog
        },
        Method::Options | Method::Info | Method::Ack | Method::Update | Method::Cancel | Method::Bye => CallRequest::InDialog,
        _ => CallRequest::NotHandled,
    }
}

/// The methods that the call module takes.
pub fn allow_methods() -> (r: Vec<Method>)
    ensures
        r@ == seq![
            Method::Invite,
            Method::Bye,
            Method::Info,
            Method::Ack,
            Method::Cancel,
            Method::Options,
        ],
{
    let mut v: Vec<Method> = Vec::new();
    v.push(Method::Invite);
    v.push(Method::Bye);
    v.push(Method::Info);
    v.push(Method::Ack);
    v.push(Method::Cancel);
    v.push(Method::Options);
    assert(v@ =~= seq![
        Method::Invite,
        Method::Bye,
        Method::Info,
        Method::Ack,
        Method::Cancel,
        Method::Options,
    ]);
    v
}

/// The refusal of a call whose plan could not be made: the code and the value of the
/// `Reason` header. Spam is not answered.
pub fn refuse_plan(error: &PlanError, spam: bool) -> (r: Option<(u16, String)>)
    ensures
        spam ==> r is None,
        !spam ==> {
            let code = match error.1 {
                Some(c) => c,
                None => 500u16,
            };
            &&& r matches Some((c, value))
            &&& c == code
            &&& value@ == "Q.850;cause="@ + decimal(q850_cause(code) as nat) + ";text=\""@ + escaped(
                reason_text(code, Some(error.0@)),
            ) + "\""@
        },
{
    if spam {
        return None;
    }
    let code: u16 = match error.1 {
        Some(c) => c,
        None => 500,
    };
    Some((code, q850_reason_value(code, Some(error.0.as_str()))))
}

/// The direction under which a call is reported that failed before it was planned.
pub fn failure_direction(from_trunk: bool) -> (r: DialDirection)
    ensures
        r == (if from_trunk {
            DialDirection::Inbound
        } else {
            DialDirection::Internal
        }),
{
    if from_trunk {
        DialDirection::Inbound
    } else {
        DialDirection::Internal
    }
}

/// Where the rates of calls are counted.
#[derive(Clone, Copy, Debug, PartialEq, Eq, Structural)]
pub enum LimiterChoice {
    Given,
    Database,
    InMemory,
    NoLimit,
}

/// Where the rates of calls are counted: as given, else as configured; in memory
/// where the database is asked for but there is none.
pub fn choose_limiter(given: bool, configured: Option<&str>, has_database: bool) -> (r: LimiterChoice)
    ensures
        r == (if given {
            LimiterChoice::Given
        } else {
            match configured {
                Some(name) => if name@ == "db"@ && has_database {
                    LimiterChoice::Database
                } else {
                    LimiterChoice::InMemory
                },
                None => LimiterChoice::NoLimit,
            }
        }),
{
    if given {
        return LimiterChoice::Given;
    }
    match configured {
        Some(name) => if same(name, "db") && has_database {
            LimiterChoice::Database
        } else {
            LimiterChoice::InMemory
        },
        None => LimiterChoice::NoLimit,
    }
}

/// Each cause stands for its own response codes: 1 for a callee that is not there, 17
/// for a busy one, 18 for one that does not answer, 21 for a refusal, 22 for one that
/// has moved on, 31 for a cancelled call, 34, 38 and 41 for failing servers, 79 for
/// media that do not fit, 127 for what cannot be read, and 16 for all else.
pub proof fn causes_tell_failures_apart(code: u16)
    ensures
        q850_cause(code) == 1 <==> code == 404 || code == 484 || code == 604,
        q850_cause(code) == 17 <==> code == 486 || code == 600,
        q850_cause(code) == 18 <==> code == 408 || code == 480,
        q850_cause(code) == 21 <==> 400 <= code <= 403 || 405 <= code <= 407 || code == 421 || code
            == 603,
        q850_cause(code) == 22 <==> code == 410,
        q850_cause(code) == 31 <==> code == 487,
        q850_cause(code) == 34 <==> code == 504,
        q850_cause(code) == 38 <==> code == 502 || code == 503,
        q850_cause(code) == 41 <==> 500 <= code < 600 && code != 502 && code != 503 && code != 504,
        q850_cause(code) == 79 <==> code == 488 || code == 606,
        q850_cause(code) == 127 <==> code == 413 || code == 414 || code == 416 || code == 420,
        code < 400 || code > 606 ==> q850_cause(code) == 16,
        200 <= code < 300 ==> q850_cause(code) == 16,
{
}

/// Escaping puts one backslash before each quote and each backslash and nothing else.
pub proof fn escaping_adds_backslashes_only(s: Seq<char>)
    ensures
        escaped(s).len() == s.len() + s.filter(|c: char| c == '\\' || c == '"').len(),
        forall|i: int|
            0 <= i < escaped(s).len() && #[trigger] escaped(s)[i] == '"' ==> i > 0 && escaped(s)[i - 1]
                == '\\',
    decreases s.len(),
{
    let special = |c: char| c == '\\' || c == '"';
    reveal(Seq::filter);
    if s.len() > 0 {
        let t = s.drop_first();
        escaping_adds_backslashes_only(t);
        assert(s =~= seq![s[0]] + t);
        Seq::filter_distributes_over_add(seq![s[0]], t, special);
        let one = seq![s[0]];
        assert(one.drop_last() =~= Seq::<char>::empty());
        assert(one.last() == s[0]);
        assert(Seq::<char>::empty().filter(special).len() == 0);
        assert(one.filter(special).len() == (if special(s[0]) {
            1int
        } else {
            0
        }));
        let h = escaped_char(s[0]);
        assert forall|i: int|
            0 <= i < escaped(s).len() && #[trigger] escaped(s)[i] == '"' implies i > 0 && escaped(
            s,
        )[i - 1] == '\\' by {
            if i >= h.len() {
                assert(escaped(s)[i] == escaped(t)[i - h.len()]);
                assert(i - h.len() > 0);
                assert(escaped(s)[i - 1] == escaped(t)[i - h.len() - 1]);
            }
        }
    }
}

/// The reason that is given is the detail, whatever white space is around it; where
/// there is none, the code stands for it. It is never blank.
pub proof fn reason_is_never_blank(code: u16, detail: Option<Seq<char>>)
    ensures
        reason_text(code, detail).len() > 0,
        detail is None || trimmed(detail->0).len() == 0 ==> reason_text(code, detail) == "SIP "@
            + decimal(code as nat),
        detail matches Some(d) ==> trimmed(d).len() > 0 ==> reason_text(code, detail) == reason_text(
            code,
            Some(trimmed(d)),
        ) && reason_text(code, detail) == trimmed(d),
{
    reveal_strlit("SIP ");
    if let Some(d) = detail {
        trimmed_is_stable(d);
    }
}

/// A star takes every value; a pattern that is valid what it matches; one that is not
/// valid just itself, in any case.
pub proof fn patterns_take_what_they_match(pattern: Seq<char>, value: Seq<char>, compiled: Option<bool>)
    ensures
        takes("*"@, value, compiled),
        pattern != "*"@ && compiled is Some ==> takes(pattern, value, compiled) == compiled->0,
        pattern != "*"@ && compiled is None ==> takes(pattern, value, compiled) == (lower(pattern)
            == lower(value)),
{
}

/// A call is recorded where its direction is one of those of the policy, no pattern
/// denies its caller or its callee, and the patterns that allow callers or callees, as
/// far as there are any, take them; and not otherwise.
pub proof fn policy_covers_the_calls_it_names(
    policy: RecordingPolicy,
    direction: DialDirection,
    caller: Seq<char>,
    callee: Seq<char>,
    i: int,
)
    ensures
        policy.directions@.len() > 0 && !policy.directions@.contains(direction) ==> !policy_covers(
            policy,
            direction,
            caller,
            callee,
        ),
        0 <= i < policy.caller_deny@.len() && takes(
            policy.caller_deny@[i]@,
            caller,
            glob_match(policy.caller_deny@[i]@, caller),
        ) ==> !policy_covers(policy, direction, caller, callee),
        0 <= i < policy.callee_deny@.len() && takes(
            policy.callee_deny@[i]@,
            callee,
            glob_match(policy.callee_deny@[i]@, callee),
        ) ==> !policy_covers(policy, direction, caller, callee),
        policy.caller_allow@.len() > 0 && (forall|k: int|
            0 <= k < policy.caller_allow@.len() ==> !takes(
                (#[trigger] policy.caller_allow@[k])@,
                caller,
                glob_match(policy.caller_allow@[k]@, caller),
            )) ==> !policy_covers(policy, direction, caller, callee),
        policy.callee_allow@.len() > 0 && (forall|k: int|
            0 <= k < policy.callee_allow@.len() ==> !takes(
                (#[trigger] policy.callee_allow@[k])@,
                callee,
                glob_match(policy.callee_allow@[k]@, callee),
            )) ==> !policy_covers(policy, direction, caller, callee),
        (policy.directions@.len() == 0 || policy.directions@.contains(direction))
            && policy.caller_deny@.len() == 0 && policy.callee_deny@.len() == 0 && (
        policy.caller_allow@.len() == 0 || 0 <= i < policy.caller_allow@.len() && takes(
            policy.caller_allow@[i]@,
            caller,
            glob_match(policy.caller_allow@[i]@, caller),
        )) && policy.callee_allow@.len() == 0 ==> policy_covers(policy, direction, caller, callee),
        (policy.directions@.len() == 0 || policy.directions@.contains(direction))
            && policy.caller_deny@.len() == 0 && policy.callee_deny@.len() == 0
            && policy.caller_allow@.len() == 0 && (policy.callee_allow@.len() == 0 || 0 <= i
            < policy.callee_allow@.len() && takes(
            policy.callee_allow@[i]@,
            callee,
            glob_match(policy.callee_allow@[i]@, callee),
        )) ==> policy_covers(policy, direction, caller, callee),
{
}

/// The identity of a URI with a user is the user, an at sign and the host; of one
/// without a user, the host.
pub proof fn identity_names_user_and_host(uri: UriView)
    ensures
        uri.user is None ==> identity_of(uri) == uri.host,
        uri.user matches Some(u) ==> u.len() > 0 ==> {
            let text = identity_of(uri);
            &&& text.len() == u.len() + 1 + uri.host.len()
            &&& has_prefix(text, u)
            &&& text[u.len() as int] == '@'
            &&& has_suffix(text, uri.host)
        },
{
    reveal_strlit("@");
    if let Some(u) = uri.user {
        if u.len() > 0 {
            let text = identity_of(uri);
            assert(text.take(u.len() as int) =~= u);
            assert(text.skip(text.len() - uri.host.len()) =~= uri.host);
        }
    }
}

proof fn token_stays(p: Seq<char>, t: Seq<char>, q: Seq<char>, other: Seq<char>, v: Seq<char>, at: int)
    requires
        t.len() > 0 && other.len() > 0,
        t[0] == '{' && other[0] == '{',
        !p.contains('{') && !q.contains('{'),
        forall|i: int| 0 < i < t.len() ==> t[i] != '{',
        0 < at < t.len() && at < other.len() && t[at] != other[at],
    ensures
        replaced(p + t + q, other, v) == p + t + q,
{
    let s = p + t + q;
    assert forall|k: int| !occurs_at(s, other, k) by {
        if occurs_at(s, other, k) {
            let part = s.subrange(k, k + other.len());
            assert(part[0] == s[k]);
            assert(part[at] == s[k + at]);
            if k < p.len() {
                assert(p.contains(p[k]));
            } else if k >= p.len() + t.len() {
                assert(q.contains(q[k - p.len() - t.len()]));
            } else {
                assert(s[k] == t[k - p.len()]);
                assert(k == p.len());
                assert(s[k + at] == t[at]);
            }
        }
    }
    occurrences_are_replaced(s, other, Seq::empty(), v);
}

proof fn no_token_is_left(s: Seq<char>, other: Seq<char>, v: Seq<char>)
    requires
        other.len() > 0 && other[0] == '{',
        !s.contains('{'),
    ensures
        replaced(s, other, v) == s,
{
    assert forall|k: int| !occurs_at(s, other, k) by {
        if occurs_at(s, other, k) {
            assert(s.subrange(k, k + other.len())[0] == s[k]);
            assert(s.contains(s[k]));
        }
    }
    occurrences_are_replaced(s, other, Seq::empty(), v);
}

proof fn token_is_filled(p: Seq<char>, t: Seq<char>, q: Seq<char>, v: Seq<char>)
    requires
        t.len() > 0 && t[0] == '{',
        !p.contains('{') && !q.contains('{') && !v.contains('{'),
    ensures
        replaced(p + t + q, t, v) == p + v + q,
        !(p + v + q).contains('{'),
{
    let s = p + t + q;
    assert forall|k: int| 0 <= k < p.len() implies !occurs_at(s, t, k) by {
        if occurs_at(s, t, k) {
            assert(s.subrange(k, k + t.len())[0] == s[k]);
            assert(p.contains(p[k]));
        }
    }
    occurrences_are_replaced(p, t, q, v);
    no_token_is_left(q, t, v);
    let r = p + v + q;
    if r.contains('{') {
        let k = choose|k: int| 0 <= k < r.len() && r[k] == '{';
        if k < p.len() {
            assert(p.contains(p[k]));
        } else if k < p.len() + v.len() {
            assert(v.contains(v[k - p.len()]));
        } else {
            assert(q.contains(q[k - p.len() - v.len()]));
        }
    }
}

/// Each token of a file name stands for its own value: a name with one token in it has
/// that value in the token's place, and a name without any stays as it is.
pub proof fn each_token_stands_for_its_value(
    p: Seq<char>,
    q: Seq<char>,
    session_id: Seq<char>,
    caller: Seq<char>,
    callee: Seq<char>,
    direction: Seq<char>,
    timestamp: Seq<char>,
)
    requires
        !p.contains('{') && !q.contains('{'),
        !session_id.contains('{') && !caller.contains('{') && !callee.contains('{'),
        !direction.contains('{') && !timestamp.contains('{'),
    ensures
        rendered_name(p, session_id, caller, callee, direction, timestamp) == p,
        rendered_name(p + "{session_id}"@ + q, session_id, caller, callee, direction, timestamp) == p
            + session_id + q,
        rendered_name(p + "{caller}"@ + q, session_id, caller, callee, direction, timestamp) == p
            + caller + q,
        rendered_name(p + "{callee}"@ + q, session_id, caller, callee, direction, timestamp) == p
            + callee + q,
        rendered_name(p + "{direction}"@ + q, session_id, caller, callee, direction, timestamp) == p
            + direction + q,
        rendered_name(p + "{timestamp}"@ + q, session_id, caller, callee, direction, timestamp) == p
            + timestamp + q,
{
    reveal_strlit("{session_id}");
    reveal_strlit("{caller}");
    reveal_strlit("{callee}");
    reveal_strlit("{direction}");
    reveal_strlit("{timestamp}");
    let t1 = "{session_id}"@;
    let t2 = "{caller}"@;
    let t3 = "{callee}"@;
    let t4 = "{direction}"@;
    let t5 = "{timestamp}"@;
    no_token_is_left(p, t1, session_id);
    no_token_is_left(p, t2, caller);
    no_token_is_left(p, t3, callee);
    no_token_is_left(p, t4, direction);
    no_token_is_left(p, t5, timestamp);
    token_is_filled(p, t1, q, session_id);
    let a = p + session_id + q;
    no_token_is_left(a, t2, caller);
    no_token_is_left(a, t3, callee);
    no_token_is_left(a, t4, direction);
    no_token_is_left(a, t5, timestamp);
    token_stays(p, t2, q, t1, session_id, 1);
    token_is_filled(p, t2, q, caller);
    let b = p + caller + q;
    no_token_is_left(b, t3, callee);
    no_token_is_left(b, t4, direction);
    no_token_is_left(b, t5, timestamp);
    token_stays(p, t3, q, t1, session_id, 1);
    token_stays(p, t3, q, t2, caller, 6);
    token_is_filled(p, t3, q, callee);
    let c = p + callee + q;
    no_token_is_left(c, t4, direction);
    no_token_is_left(c, t5, timestamp);
    token_stays(p, t4, q, t1, session_id, 1);
    token_stays(p, t4, q, t2, caller, 1);
    token_stays(p, t4, q, t3, callee, 1);
    token_is_filled(p, t4, q, direction);
    let d = p + direction + q;
    no_token_is_left(d, t5, timestamp);
    token_stays(p, t5, q, t1, session_id, 1);
    token_stays(p, t5, q, t2, caller, 1);
    token_stays(p, t5, q, t3, callee, 1);
    token_stays(p, t5, q, t4, direction, 1);
    token_is_filled(p, t5, q, timestamp);
}

proof fn name_is_clean(s: Seq<char>)
    requires
        s.len() <= MAX_NAME_LEN,
        forall|i: int| 0 <= i < s.len() ==> is_name_char(#[trigger] s[i]),
    ensures
        cleaned(s) == (s, false),
    decreases s.len(),
{
    if s.len() > 0 {
        name_is_clean(s.drop_last());
        assert(is_name_char(s[s.len() - 1]));
        assert(s.drop_last().push(s.last()) =~= s);
    } else {
        assert(s =~= Seq::empty());
    }
}

/// A text that is a file name already is kept as it is.
pub proof fn file_name_is_kept(value: Seq<char>, fallback: Seq<char>)
    requires
        0 < value.len() <= MAX_NAME_LEN,
        forall|i: int| 0 <= i < value.len() ==> is_name_char(#[trigger] value[i]),
        value[0] != '_' && value[0] != '.',
        value.last() != '_' && value.last() != '.',
    ensures
        file_name(value, fallback) == value,
{
    name_is_clean(value);
}

proof fn place_behind_last(s: Seq<char>, c: char, n: int)
    requires
        0 <= n <= s.len(),
        forall|i: int| n <= i < s.len() ==> #[trigger] s[i] != c,
        n > 0 ==> s[n - 1] == c,
    ensures
        behind_last(s, c) == n,
    decreases s.len(),
{
    if s.len() > 0 && s.last() != c {
        let t = s.drop_last();
        assert(s[s.len() - 1] != c);
        place_behind_last(t, c, n);
    }
}

/// The recording of a call is a `wav` file right in the directory of the policy, under
/// the name of the call as far as the last dot in it.
pub proof fn recording_is_in_the_directory(
    option: RecorderOption,
    policy: RecordingPolicy,
    names: RecordingNames,
    session_id: Seq<char>,
    defaults: RecorderDefaults,
)
    requires
        is_recorder(Some(option), policy, names, session_id, defaults),
        !recording_name(policy, names, session_id).contains('/'),
        !recording_name(policy, names, session_id).contains('.'),
        policy.root@.len() > 0 && policy.root@.last() != '/',
    ensures
        option.recorder_file@ == policy.root@ + "/"@ + recording_name(policy, names, session_id)
            + ".wav"@,
        policy.samplerate matches Some(rate) ==> option.samplerate == rate,
        policy.samplerate is None ==> option.samplerate == defaults.samplerate,
        policy.ptime matches Some(ptime) ==> option.ptime == ptime,
        policy.ptime is None ==> option.ptime == defaults.ptime,
{
    reveal_strlit("/");
    reveal_strlit(".");
    reveal_strlit("..");
    reveal_strlit(".wav");
    reveal_strlit("wav");
    let name = recording_name(policy, names, session_id);
    let path = policy.root@ + "/"@ + name;
    let n = path.len() as int;
    assert(name.len() > 0);
    assert(name.contains(name[0]));
    if has_prefix(name, "/"@) {
        assert(name.take(1)[0] == name[0]);
    }
    assert(joined_path(policy.root@, name) == path);
    assert(path[n - 1] == name.last());
    assert(name.contains(name.last()));
    assert(path_body(path) == path);
    let start = policy.root@.len() + 1;
    assert forall|i: int| start <= i < path.len() implies #[trigger] path[i] != '/' by {
        assert(path[i] == name[i - start]);
        assert(name.contains(name[i - start]));
    }
    place_behind_last(path, '/', start as int);
    let file = path.skip(start as int);
    assert(file =~= name);
    assert forall|i: int| 0 <= i < name.len() implies #[trigger] name[i] != '.' by {
        assert(name.contains(name[i]));
    }
    place_behind_last(name, '.', 0);
    assert(file != "."@);
    assert(file != ".."@);
    assert(path.take(start + stem_len(file)) =~= path);
    assert(path + "."@ + "wav"@ =~= path + ".wav"@);
}

/// The policy settles only what the plan of a call leaves open: a call that is recorded
/// into a file of its own keeps the file, and all of the plan but the recording stays.
/// The recording begins by itself unless the policy says otherwise.
pub proof fn policy_fills_what_is_open(
    before: Dialplan,
    after: Dialplan,
    policy: Option<RecordingPolicy>,
    names: RecordingNames,
    defaults: RecorderDefaults,
    recorder: Option<RecorderOption>,
    id: Seq<char>,
)
    requires
        policy_applied(before, after, policy, names, defaults, recorder, id),
    ensures
        after.flow == before.flow && after.caller == before.caller && after.direction
            == before.direction && after.session_id == before.session_id && after.allow_codecs
            == before.allow_codecs && after.media_proxy == before.media_proxy,
        policy is None || !policy->0.enabled ==> after == before,
        before.recording.enabled && before.recording.option is Some ==> after == before,
        !before.recording.enabled && policy is Some && !policy_covers(
            policy->0,
            before.direction,
            names.caller@,
            names.callee@,
        ) ==> after == before,
        before.recording.option matches Some(o) ==> o.recorder_file@.len() > 0 ==> (
        after.recording.option matches Some(x) && x.recorder_file@ == o.recorder_file@),
        policy matches Some(p) ==> p.enabled && !(before.recording.enabled
            && before.recording.option is Some) && after != before ==> {
            &&& after.recording.enabled
            &&& p.auto_start is None ==> after.recording.auto_start
            &&& p.auto_start matches Some(a) ==> after.recording.auto_start == a
            &&& after.recording.option matches Some(x) && (p.samplerate matches Some(rate) ==> x.samplerate
                == rate)
        },
{
}

/// A call is internal where both parties are of the own realm, the callee is known and
/// no trunk is involved; inbound where it comes in from elsewhere; outbound where a
/// caller of the own realm calls anyone else.
pub proof fn direction_is_where_a_call_goes(
    caller_is_local: bool,
    callee_is_local: bool,
    from_trunk: bool,
    callee_unknown: bool,
)
    ensures
        ({
            let d = direction_of_call(caller_is_local, callee_is_local, from_trunk, callee_unknown);
            &&& d == Some(DialDirection::Internal) <==> caller_is_local && callee_is_local
                && !from_trunk && !callee_unknown
            &&& d == Some(DialDirection::Inbound) <==> !caller_is_local && (callee_is_local
                || from_trunk)
            &&& d == Some(DialDirection::Outbound) <==> caller_is_local && (!callee_is_local
                || from_trunk || callee_unknown)
            &&& d is None <==> !caller_is_local && !callee_is_local && !from_trunk
        }),
{
}

proof fn named_codecs_facts(names: Seq<String>)
    ensures
        forall|c: CodecType|
            #![trigger codecs_named(names).contains(c)]
            codecs_named(names).contains(c) <==> exists|i: int|
                0 <= i < names.len() && codec_named((#[trigger] names[i])@) == Some(c),
        (forall|i: int| 0 <= i < names.len() ==> codec_named((#[trigger] names[i])@) is Some) ==> {
            &&& codecs_named(names).len() == names.len()
            &&& forall|i: int|
                0 <= i < names.len() ==> Some(codecs_named(names)[i]) == codec_named(
                    (#[trigger] names[i])@,
                )
        },
    decreases names.len(),
{
    let all = codecs_named(names);
    if names.len() > 0 {
        let head = names.drop_last();
        let n = names.len() - 1;
        named_codecs_facts(head);
        let before = codecs_named(head);
        assert forall|c: CodecType|
            #![trigger all.contains(c)]
            all.contains(c) <==> exists|i: int|
                0 <= i < names.len() && codec_named((#[trigger] names[i])@) == Some(c) by {
            if all.contains(c) {
                let k = choose|k: int| 0 <= k < all.len() && all[k] == c;
                if k < before.len() {
                    assert(before[k] == c);
                    assert(before.contains(c));
                    let i = choose|i: int|
                        0 <= i < head.len() && codec_named((#[trigger] head[i])@) == Some(c);
                    assert(names[i] == head[i]);
                } else {
                    assert(codec_named(names[n]@) == Some(c));
                }
            }
            if exists|i: int| 0 <= i < names.len() && codec_named((#[trigger] names[i])@) == Some(c) {
                let i = choose|i: int|
                    0 <= i < names.len() && codec_named((#[trigger] names[i])@) == Some(c);
                if i < n {
                    assert(head[i] == names[i]);
                    assert(before.contains(c));
                    let k = choose|k: int| 0 <= k < before.len() && before[k] == c;
                    assert(all[k] == c);
                } else {
                    assert(all[all.len() - 1] == c);
                }
            }
        }
        if forall|i: int| 0 <= i < names.len() ==> codec_named((#[trigger] names[i])@) is Some {
            assert forall|i: int| 0 <= i < head.len() implies codec_named((#[trigger] head[i])@) is Some by {
                assert(head[i] == names[i]);
            }
            assert(codec_named(names[n]@) is Some);
            assert forall|i: int| 0 <= i < names.len() implies Some(all[i]) == codec_named(
                (#[trigger] names[i])@,
            ) by {
                if i < n {
                    assert(head[i] == names[i]);
                }
            }
        }
    }
}

/// The codecs of a call are those that routing names, where it names any; else those
/// of the configuration. Names of which none is known leave the codecs as they were.
pub proof fn codecs_are_those_that_are_named(
    base: Seq<CodecType>,
    hints: Option<DialplanHints>,
    configured: Option<Vec<String>>,
    names: Seq<String>,
    c: CodecType,
)
    requires
        match hints {
            Some(h) => match h.allow_codecs {
                Some(n) => names == n@,
                None => configured is Some && names == configured->0@,
            },
            None => configured is Some && names == configured->0@,
        },
    ensures
        (exists|i: int| 0 <= i < names.len() && codec_named((#[trigger] names[i])@) is Some) ==> (
        call_codecs(base, hints, configured).contains(c) <==> exists|i: int|
            0 <= i < names.len() && codec_named((#[trigger] names[i])@) == Some(c)),
        (forall|i: int| 0 <= i < names.len() ==> codec_named((#[trigger] names[i])@) is None)
            ==> call_codecs(base, hints, configured) == base,
{
    named_codecs_facts(names);
    let all = codecs_named(names);
    if exists|i: int| 0 <= i < names.len() && codec_named((#[trigger] names[i])@) is Some {
        let i = choose|i: int| 0 <= i < names.len() && codec_named((#[trigger] names[i])@) is Some;
        assert(all.contains(codec_named(names[i]@)->0));
    } else {
        if all.len() > 0 {
            assert(all.contains(all[0]));
        }
    }
}

/// Where neither routing nor the configuration names codecs, they stay as they were.
pub proof fn codecs_stay_where_none_are_named(base: Seq<CodecType>, hints: Option<DialplanHints>)
    requires
        hints is None || hints->0.allow_codecs is None,
    ensures
        call_codecs(base, hints, None) == base,
{
}

/// The plan of a call goes where the preview of its routing says: to the queue and on
/// with the flow that was there before, to the application, or to the one target. What
/// routing says beside that holds, and what nothing is said of is as in the base.
pub proof fn plan_follows_the_preview(
    base: PlanBase,
    session_id: String,
    direction: DialDirection,
    caller: Uri,
    target: Location,
    preview: PreviewOutcome,
    contact: Option<Uri>,
    r: Result<Dialplan, PlanError>,
)
    requires
        is_plan_of(base, session_id, direction, caller, target, preview, contact, r),
    ensures
        preview is Abort <==> r is Err,
        preview matches PreviewOutcome::Abort(code, reason) ==> (r matches Err((text, c)) && c == Some(
            code,
        ) && (reason is Some ==> text@ == reason->0@)),
        r matches Ok(plan) ==> {
            &&& plan.session_id == Some(session_id)
            &&& plan.direction == direction
            &&& plan.caller == Some(caller)
            &&& plan.passthrough_failure == base.passthrough_failure
            &&& plan.max_ring_time == base.dialplan.max_ring_time
            &&& contact is Some ==> plan.caller_contact == contact
            &&& contact is None ==> plan.caller_contact == base.dialplan.caller_contact
            &&& preview matches PreviewOutcome::Queue { plan: q, hints } ==> (
            plan.flow matches DialplanFlow::Queue { plan: x, next } && x == q && *next
                == base.dialplan.flow)
            &&& preview matches PreviewOutcome::Application { app_name, app_params, auto_answer } ==> (
            plan.flow matches DialplanFlow::Application { app_name: n, app_params: p, auto_answer: a }
                && n == app_name && p == app_params && a == auto_answer)
            &&& preview is Forward || preview is NotHandled ==> (
            plan.flow matches DialplanFlow::Targets(DialStrategy::Sequential(t)) && t@.len() == 1
                && t@[0] == target)
        },
        r matches Ok(plan) ==> (preview matches PreviewOutcome::Forward(Some(h)) ==> {
            &&& h.enable_recording matches Some(e) ==> plan.recording.enabled == e
            &&& h.enable_recording is None ==> plan.recording == base.recording
            &&& h.bypass_media == Some(true) ==> plan.media_proxy is Disabled
            &&& h.bypass_media != Some(true) ==> plan.media_proxy == base.media_proxy
            &&& h.max_duration is Some ==> plan.max_call_duration == h.max_duration
            &&& h.max_duration is None ==> plan.max_call_duration == base.dialplan.max_call_duration
            &&& h.enable_sipflow matches Some(e) ==> plan.enable_sipflow == e
            &&& h.enable_sipflow is None ==> plan.enable_sipflow == base.dialplan.enable_sipflow
        }),
        r matches Ok(plan) ==> (preview matches PreviewOutcome::NotHandled(Some(h)) ==> {
            &&& h.enable_recording matches Some(e) ==> plan.recording.enabled == e
            &&& h.bypass_media == Some(true) ==> plan.media_proxy is Disabled
            &&& h.max_duration is Some ==> plan.max_call_duration == h.max_duration
            &&& h.enable_sipflow matches Some(e) ==> plan.enable_sipflow == e
        }),
        r matches Ok(plan) ==> (preview matches PreviewOutcome::Queue { plan: q, hints } ==> (
        hints matches Some(h) ==> {
            &&& h.enable_recording matches Some(e) ==> plan.recording.enabled == e
            &&& h.bypass_media == Some(true) ==> plan.media_proxy is Disabled
            &&& h.max_duration is Some ==> plan.max_call_duration == h.max_duration
            &&& h.enable_sipflow matches Some(e) ==> plan.enable_sipflow == e
        })),
        r matches Ok(plan) ==> preview is Application || preview == PreviewOutcome::Forward(None)
            || preview == PreviewOutcome::NotHandled(None) ==> plan.recording == base.recording
            && plan.media_proxy == base.media_proxy && plan.max_call_duration
            == base.dialplan.max_call_duration && plan.enable_sipflow == base.dialplan.enable_sipflow,
{
}

/// The trunk of a call is one that is configured. Only an inbound call has one; the
/// trunk that it was recognised by goes before that of its address.
pub proof fn source_trunk_is_configured(
    inbound: bool,
    hint: Option<String>,
    trunks: Seq<TrunkConfig>,
    by_address: Option<String>,
)
    ensures
        ({
            let t = source_trunk_of(inbound, hint, trunks, by_address);
            &&& t is Some ==> inbound && exists|i: int|
                0 <= i < trunks.len() && (#[trigger] trunks[i]).name@ == t->0
            &&& inbound && hint is Some && (exists|i: int|
                0 <= i < trunks.len() && (#[trigger] trunks[i]).name@ == hint->0@) ==> t == Some(hint->0@)
            &&& inbound && hint is None && by_address is Some && (exists|i: int|
                0 <= i < trunks.len() && (#[trigger] trunks[i]).name@ == by_address->0@) ==> t == Some(
                by_address->0@,
            )
        }),
{
    trunk_is_known_by_name(
        trunks,
        if hint is Some {
            hint->0@
        } else {
            Seq::empty()
        },
    );
    trunk_is_known_by_name(
        trunks,
        if by_address is Some {
            by_address->0@
        } else {
            Seq::empty()
        },
    );
}

/// Only an inbound call is refused for the party that it shows: with 403 where the
/// trunk does not let it pass, with 500 where the trunk's rule is not valid. Any other
/// call goes on to the rules, and without rules it goes out as it is.
pub proof fn only_inbound_parties_are_refused(
    before: DefaultRouteInvite,
    after: DefaultRouteInvite,
    option: InviteOption,
    input: MatchInput,
    direction: DialDirection,
    identity: Option<TrunkIdentity>,
    r: Result<RouteResult, RouteError>,
)
    requires
        before.is_routed(after, option, input, direction, identity, r),
    ensures
        after.routes == before.routes && after.trunks == before.trunks && after.default_route
            == before.default_route,
        direction is Inbound && identity == Some(TrunkIdentity::Rejected) ==> (r matches Ok(
            RouteResult::Abort(code, _),
        ) && code == 403),
        direction is Inbound && identity == Some(TrunkIdentity::InvalidRule) ==> (r matches Ok(
            RouteResult::Abort(code, _),
        ) && code == 500),
        before.routes@.len() == 0 && (!(direction is Inbound) || identity is None) ==> (r matches Ok(
            RouteResult::Forward(o),
        ) && o == option),
{
}

/// A request goes one hop on for each hop that its header allows, 70 where it says
/// nothing that can be read.
pub proof fn hops_are_those_of_the_header(n: u32, text: Seq<char>)
    ensures
        hops_left(Some(decimal(n as nat))) == n,
        hops_left(None) == 70,
        text.len() == 0 ==> hops_left(Some(text)) == 70,
        text.len() > 0 && !('0' <= text.last() && text.last() <= '9') ==> hops_left(Some(text)) == 70,
{
    written_number_is_read_back(n as nat, u32::MAX as nat);
    if parse_number(text, u32::MAX as nat) is Some {
        only_digits_are_read(text, u32::MAX as nat);
    }
}

/// A call may use the secure media of browsers where one of its locations does.
pub proof fn one_secure_location_is_enough(a: Seq<Location>, b: Seq<Location>, l: Location)
    ensures
        any_webrtc(a + b) <==> any_webrtc(a) || any_webrtc(b),
        any_webrtc(seq![l]) == l.supports_webrtc,
        !any_webrtc(Seq::<Location>::empty()),
{
    let s = a + b;
    if any_webrtc(s) {
        let i = choose|i: int| 0 <= i < s.len() && (#[trigger] s[i]).supports_webrtc;
        if i < a.len() {
            assert(a[i].supports_webrtc);
        } else {
            assert(b[i - a.len()].supports_webrtc);
        }
    }
    if any_webrtc(a) {
        let i = choose|i: int| 0 <= i < a.len() && (#[trigger] a[i]).supports_webrtc;
        assert(s[i].supports_webrtc);
    }
    if any_webrtc(b) {
        let i = choose|i: int| 0 <= i < b.len() && (#[trigger] b[i]).supports_webrtc;
        assert(s[a.len() + i].supports_webrtc);
    }
    if l.supports_webrtc {
        assert(seq![l][0].supports_webrtc);
    }
}

/// A party is refused exactly where the call comes in through a trunk that does not let
/// it pass or cannot say.
pub proof fn refused_party_ends_the_call(
    before: DefaultRouteInvite,
    after: DefaultRouteInvite,
    option: InviteOption,
    input: MatchInput,
    direction: DialDirection,
    identity: Option<TrunkIdentity>,
    r: Result<RouteResult, RouteError>,
)
    requires
        before.is_routed(after, option, input, direction, identity, r),
        DefaultRouteInvite::refuses_party(direction, identity),
    ensures
        direction is Inbound,
        r matches Ok(RouteResult::Abort(code, _)) && (code == 403 || code == 500),
        after == before,
{
}

/// Only an INVITE begins a call, and only outside a dialog; the requests of a dialog
/// belong to it, and all others are left to other modules.
pub proof fn only_an_invite_begins_a_call(method: Method, in_dialog: bool)
    ensures
        request_kind(method, in_dialog) is NewCall <==> method is Invite && !in_dialog,
        method is Bye || method is Ack || method is Cancel || method is Info || method is Update
            || method is Options ==> request_kind(method, in_dialog) is InDialog,
        method is Register || method is Subscribe || method is Notify || method is Message
            || method is Publish || method is Refer || method is PRack ==> request_kind(
            method,
            in_dialog,
        ) is NotHandled,
{
}

/// What a callee has set counts where the plan has not set it: forwarding of the plan
/// goes before the callee's, and voicemail is on unless the callee turned it off. A
/// wholesale call takes nothing of its callee.
pub proof fn callee_settings_fill_the_plan(dialplan: Dialplan, callee: CalleeSettings)
    ensures
        with_callee_settings(dialplan, Some(callee), true) == dialplan,
        with_callee_settings(dialplan, None, false) == dialplan,
        ({
            let r = with_callee_settings(dialplan, Some(callee), false);
            &&& dialplan.call_forwarding is Some ==> r.call_forwarding == dialplan.call_forwarding
            &&& dialplan.call_forwarding is None ==> r.call_forwarding == callee.forwarding
            &&& r.voicemail_enabled <==> !callee.voicemail_disabled
            &&& r.flow == dialplan.flow && r.caller == dialplan.caller && r.recording
                == dialplan.recording && r.allow_codecs == dialplan.allow_codecs
        }),
{
}

} // verus!
