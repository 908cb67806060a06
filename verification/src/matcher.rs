//! Routing of INVITEs: rules are tried in order, the first that matches rewrites
//! the request and decides whether it is refused or sent to a trunk.
use std::collections::hash_map::DefaultHasher;
use std::hash::Hasher;
use vstd::prelude::*;
use crate::sip::{
    AddrView, Credential, CredentialView, Header, HeaderView, InviteOption, InviteView, SipAddr,
    Transport, Uri, UriView, header_views, parse_uri, parsed_uri,
};
use crate::text::{
    after, before, chars_of, decimal, find_char, first_index, first_index_facts, has_prefix,
    is_digit, join2, join3, lower, occurs_at, opt_text, own, own_all, parse_number, parse_unsigned,
    same, split_first, starts_with, string_of, texts, written_number_is_read_back,
    written_number_lacks_others,
};
use vstd::std_specs::hash::DefaultHasherAdditionalSpecFns;
use vstd::string::StringSliceAdditionalSpecFns;

verus! {

/// The groups that the regular expression `pattern` captures in `text` at its
/// first match, the whole match first: `Some(None)` where the pattern does not
/// match, `None` where it is no valid pattern.
pub uninterp spec fn regex_groups(pattern: Seq<char>, text: Seq<char>) -> Option<
    Option<Seq<Option<Seq<char>>>>,
>;

/// Whether the regular expression `pattern` matches somewhere in `text`; `None`
/// where it is no valid pattern.
pub uninterp spec fn regex_match(pattern: Seq<char>, text: Seq<char>) -> Option<bool>;

/// The lower-case form of a text by the rules of Unicode.
pub uninterp spec fn unicode_lower(text: Seq<char>) -> Seq<char>;

/// The host and port that `rsip::HostWithPort::try_from` reads from a text.
pub uninterp spec fn parsed_host_port(text: Seq<char>) -> Option<(Seq<char>, Option<u16>)>;

/// `regex::Regex::new` and `regex::Regex::is_match`: whether the pattern matches
/// somewhere in the text; `None` where the pattern is not valid.
#[verifier::external_body]
fn regex_is_match(pattern: &str, text: &str) -> (r: Option<bool>)
    ensures
        r == regex_match(pattern@, text@),
{
    regex::Regex::new(pattern).ok().map(|re| re.is_match(text))
}

/// The contents of captured groups.
pub open spec fn groups_text(g: Seq<Option<String>>) -> Seq<Option<Seq<char>>> {
    g.map_values(|o: Option<String>| opt_text(o))
}

/// The contents of the groups of a match, where there is one.
pub open spec fn match_text(m: Option<Vec<Option<String>>>) -> Option<Seq<Option<Seq<char>>>> {
    match m {
        Some(g) => Some(groups_text(g@)),
        None => None,
    }
}

/// Whether a text is a stretch of another.
pub open spec fn is_stretch(part: Seq<char>, text: Seq<char>) -> bool {
    exists|i: int| #[trigger] occurs_at(text, part, i)
}

/// Whether a character is a decimal digit: one of ASCII, or another that the class
/// `\d` of regular expressions takes.
pub open spec fn is_decimal(c: char) -> bool {
    is_digit(c) || (c as u32 > 127 && regex_match("^\\d$"@, seq![c]) == Some(true))
}

/// Whether a text has decimal digits alone.
pub open spec fn all_decimal(text: Seq<char>) -> bool {
    forall|i: int| 0 <= i < text.len() ==> is_decimal(#[trigger] text[i])
}

/// The patterns whose groups take decimal digits alone: a Chinese mobile number, a US
/// number, any number, a number between other text.
pub open spec fn is_number_pattern(pattern: Seq<char>) -> bool {
    pattern == "^\\+86(1\\d{10})$"@ || pattern == "^\\+1(\\d{10})$"@ || pattern == "^(\\d+)$"@
        || pattern == "^[^\\d]*(\\d+)[^\\d]*$"@
}

/// `regex::Regex::new` and `regex::Regex::captures`: the groups of the first
/// match; `Some(None)` without a match, `None` where the pattern is not valid. A
/// group that took part in the match is a stretch of the text. In the patterns
/// for numbers the groups hold nothing but `\d` and the digit 1, so what they take
/// is decimal digits.
#[verifier::external_body]
fn regex_captures(pattern: &str, text: &str) -> (r: Option<Option<Vec<Option<String>>>>)
    ensures
        regex_groups(pattern@, text@) == (match r {
            Some(m) => Some(match_text(m)),
            None => None,
        }),
        r matches Some(Some(g)) ==> forall|k: int|
            0 <= k < g@.len() && (#[trigger] g@[k]) is Some ==> is_stretch(g@[k]->0@, text@),
        r matches Some(Some(g)) ==> is_number_pattern(pattern@) ==> forall|k: int|
            0 < k < g@.len() && (#[trigger] g@[k]) is Some ==> all_decimal(g@[k]->0@),
{
    let re = regex::Regex::new(pattern).ok()?;
    Some(re.captures(text).map(|c| {
        c.iter().map(|g| g.map(|m| m.as_str().to_string())).collect()
    }))
}

/// `str::to_lowercase`: a text of ASCII characters has its letters in lower case.
#[verifier::external_body]
pub(crate) fn to_lowercase(text: &str) -> (r: String)
    ensures
        r@ == unicode_lower(text@),
        (forall|i: int| 0 <= i < text@.len() ==> (#[trigger] text@[i]) as u32 <= 127) ==> r@ == lower(
            text@,
        ),
{
    text.to_lowercase()
}

/// `rsip::HostWithPort::try_from`: the text after the last colon is the port,
/// all of the text is the host without one; `None` where the port is no port.
#[verifier::external_body]
fn parse_host_port(text: &str) -> (r: Option<(String, Option<u16>)>)
    ensures
        parsed_host_port(text@) == (match r {
            Some(p) => Some((p.0@, p.1)),
            None => None,
        }),
{
    let parsed = rsip::HostWithPort::try_from(text).ok()?;
    Some((parsed.host.to_string(), parsed.port.map(|p| p.into())))
}

/// The host and port of a URI; `None` where the text is none.
pub open spec fn parsed_uri_host(text: Seq<char>) -> Option<(Seq<char>, Option<u16>)> {
    match parsed_uri(text) {
        Some(u) => Some((u.host, u.port)),
        None => None,
    }
}

fn parse_uri_host(text: &str) -> (r: Option<(String, Option<u16>)>)
    ensures
        parsed_uri_host(text@) == (match r {
            Some(p) => Some((p.0@, p.1)),
            None => None,
        }),
{
    match parse_uri(text) {
        Some(u) => Some((u.host, u.port)),
        None => None,
    }
}

/// Why a request could not be routed.
#[derive(Clone, Copy, Debug, PartialEq, Eq, Structural)]
pub enum RouteError {
    /// A pattern of a rule is no regular expression.
    InvalidPattern,
    /// A rewritten host is no host.
    InvalidHost,
    /// A rule names no trunk.
    NoTrunks,
    /// The destination of a trunk is no URI.
    InvalidDestination,
}

/// The conditions of a rule; each that is given must hold. A key of `headers` is
/// `header.` and the name of a header; other keys are passed over.
#[derive(Debug)]
pub struct MatchConditions {
    pub from_user: Option<String>,
    pub from_host: Option<String>,
    pub to_user: Option<String>,
    pub to_host: Option<String>,
    pub request_uri_user: Option<String>,
    pub request_uri_host: Option<String>,
    pub caller: Option<String>,
    pub callee: Option<String>,
    pub headers: Vec<(String, String)>,
}

/// The parts of a request that conditions speak of.
#[derive(Debug)]
pub struct MatchInput {
    pub caller_user: String,
    pub caller_host: String,
    pub callee_user: String,
    pub callee_host: String,
    pub request_user: String,
    pub request_host: String,
    pub headers: Vec<Header>,
}

/// Whether a character makes a pattern a regular expression.
pub open spec fn is_special(c: char) -> bool {
    c == '^' || c == '$' || c == '*' || c == '+' || c == '?' || c == '[' || c == '(' || c == '\\'
}

/// Whether a pattern is a regular expression and not a plain text.
pub open spec fn is_regex(pattern: Seq<char>) -> bool {
    exists|i: int| 0 <= i < pattern.len() && is_special(#[trigger] pattern[i])
}

/// Whether a value fulfils a pattern: a plain text must equal it, a regular
/// expression must match somewhere in it. `None` for an invalid expression.
pub open spec fn pattern_holds(pattern: Seq<char>, value: Seq<char>) -> Option<bool> {
    if is_regex(pattern) {
        regex_match(pattern, value)
    } else {
        Some(pattern == value)
    }
}

/// The outcome of a condition in terms of `Result`.
pub open spec fn held(o: Option<bool>) -> Result<bool, RouteError> {
    match o {
        Some(b) => Ok(b),
        None => Err(RouteError::InvalidPattern),
    }
}

fn has_special(pattern: &str) -> (r: bool)
    ensures
        r == is_regex(pattern@),
{
    let v = chars_of(pattern);
    let mut i: usize = 0;
    while i < v.len()
        invariant
            i <= v.len(),
            v@ == pattern@,
            forall|j: int| 0 <= j < i ==> !is_special(#[trigger] v@[j]),
        decreases v.len() - i,
    {
        let c = v[i];
        if c == '^' || c == '$' || c == '*' || c == '+' || c == '?' || c == '[' || c == '(' || c == '\\' {
            assert(is_special(pattern@[i as int]));
            return true;
        }
        i += 1;
    }
    false
}

/// See [`pattern_holds`].
pub fn matches_pattern(pattern: &str, value: &str) -> (r: Result<bool, RouteError>)
    ensures
        r == held(pattern_holds(pattern@, value@)),
{
    if !has_special(pattern) {
        return Ok(same(pattern, value));
    }
    match regex_is_match(pattern, value) {
        Some(b) => Ok(b),
        None => Err(RouteError::InvalidPattern),
    }
}

/// What a header gives for a name, whatever the case of the name's letters: its
/// value, and for `User-Agent` and `Contact` the line that it is written as.
pub open spec fn header_named(h: HeaderView, name: Seq<char>) -> Option<Seq<char>> {
    match h {
        HeaderView::Other(n, v) => if unicode_lower(n) == unicode_lower(name) {
            Some(v)
        } else {
            None
        },
        HeaderView::UserAgent(v) => if unicode_lower(name) == "user-agent"@ {
            Some("User-Agent: "@ + v)
        } else {
            None
        },
        HeaderView::Contact(v) => if unicode_lower(name) == "contact"@ {
            Some("Contact: "@ + v)
        } else {
            None
        },
        _ => None,
    }
}

/// What the first header with a name gives.
pub open spec fn header_value(h: Seq<HeaderView>, name: Seq<char>) -> Option<Seq<char>>
    decreases h.len(),
{
    if h.len() == 0 {
        None
    } else if header_named(h[0], name) is Some {
        header_named(h[0], name)
    } else {
        header_value(h.drop_first(), name)
    }
}

/// What the first header with a name gives, see [`header_named`].
pub fn get_header_value(headers: &Vec<Header>, header_name: &str) -> (r: Option<String>)
    ensures
        opt_text(r) == header_value(header_views(headers@), header_name@),
{
    let wanted = to_lowercase(header_name);
    let ghost all = header_views(headers@);
    let mut i: usize = 0;
    assert(all.skip(0) =~= all);
    while i < headers.len()
        invariant
            i <= headers.len(),
            all == header_views(headers@),
            wanted@ == unicode_lower(header_name@),
            header_value(all.skip(i as int), header_name@) == header_value(all, header_name@),
        decreases headers.len() - i,
    {
        assert(all.skip(i as int)[0] == headers@[i as int]@);
        assert(all.skip(i as int).drop_first() =~= all.skip(i + 1));
        match &headers[i] {
            Header::Other(name, value) => {
                if to_lowercase(name.as_str()) == wanted {
                    return Some(value.clone());
                }
            },
            Header::UserAgent(value) => {
                if same(wanted.as_str(), "user-agent") {
                    return Some(join2("User-Agent: ", value.as_str()));
                }
            },
            Header::Contact(value) => {
                if same(wanted.as_str(), "contact") {
                    return Some(join2("Contact: ", value.as_str()));
                }
            },
            _ => {},
        }
        i += 1;
    }
    assert(all.skip(i as int) =~= Seq::empty());
    None
}

/// Whether a value fulfils a pattern, where one is given.
pub open spec fn optional_holds(pattern: Option<String>, value: Seq<char>) -> Option<bool> {
    match pattern {
        Some(p) => pattern_holds(p@, value),
        None => Some(true),
    }
}

/// Whether a header condition holds: the header is there and its value fulfils
/// the pattern. A key of another form always holds.
pub open spec fn header_holds(cond: (String, String), headers: Seq<HeaderView>) -> Option<bool> {
    if has_prefix(cond.0@, "header."@) {
        match header_value(headers, cond.0@.skip(7)) {
            Some(v) => pattern_holds(cond.1@, v),
            None => Some(false),
        }
    } else {
        Some(true)
    }
}

/// The conditions of a rule in the order in which they are tried.
pub open spec fn condition_outcomes(c: MatchConditions, m: MatchInput) -> Seq<Option<bool>> {
    seq![
        optional_holds(c.from_user, m.caller_user@),
        optional_holds(c.from_host, m.caller_host@),
        optional_holds(c.to_user, m.callee_user@),
        optional_holds(c.to_host, m.callee_host@),
        optional_holds(c.request_uri_user, m.request_user@),
        optional_holds(c.request_uri_host, m.request_host@),
        optional_holds(c.caller, m.caller_user@ + "@"@ + m.caller_host@),
        optional_holds(c.callee, m.callee_user@ + "@"@ + m.callee_host@),
    ] + Seq::new(
        c.headers@.len(),
        |i: int| header_holds(c.headers@[i], header_views(m.headers@)),
    )
}

/// The outcome of conditions that are tried in order: the first that does not
/// hold decides, be it false or invalid.
pub open spec fn all_hold(outcomes: Seq<Option<bool>>) -> Option<bool>
    decreases outcomes.len(),
{
    if outcomes.len() == 0 {
        Some(true)
    } else if outcomes[0] == Some(true) {
        all_hold(outcomes.drop_first())
    } else {
        outcomes[0]
    }
}

/// Whether the conditions of a rule hold of a request.
pub open spec fn conditions_hold(c: MatchConditions, m: MatchInput) -> Option<bool> {
    all_hold(condition_outcomes(c, m))
}

fn check_optional(pattern: &Option<String>, value: &str) -> (r: Result<bool, RouteError>)
    ensures
        r == held(optional_holds(*pattern, value@)),
{
    match pattern {
        Some(p) => matches_pattern(p.as_str(), value),
        None => Ok(true),
    }
}

proof fn all_hold_stops(outcomes: Seq<Option<bool>>, k: int)
    requires
        0 <= k < outcomes.len(),
        forall|j: int| 0 <= j < k ==> outcomes[j] == Some(true),
        outcomes[k] != Some(true),
    ensures
        all_hold(outcomes) == outcomes[k],
    decreases k,
{
    if k > 0 {
        assert(outcomes[0] == Some(true));
        let rest = outcomes.drop_first();
        assert forall|j: int| 0 <= j < k - 1 implies rest[j] == Some(true) by {
            assert(outcomes[j + 1] == Some(true));
        }
        all_hold_stops(rest, k - 1);
    }
}

proof fn all_hold_passes(outcomes: Seq<Option<bool>>)
    requires
        forall|j: int| 0 <= j < outcomes.len() ==> outcomes[j] == Some(true),
    ensures
        all_hold(outcomes) == Some(true),
    decreases outcomes.len(),
{
    if outcomes.len() > 0 {
        let rest = outcomes.drop_first();
        assert forall|j: int| 0 <= j < rest.len() implies rest[j] == Some(true) by {
            assert(outcomes[j + 1] == Some(true));
        }
        all_hold_passes(rest);
    }
}

fn check_addresses(c: &MatchConditions, m: &MatchInput) -> (r: Result<bool, RouteError>)
    ensures
        ({
            let o = condition_outcomes(*c, *m);
            match r {
                Ok(true) => forall|j: int| 0 <= j < 8 ==> o[j] == Some(true),
                Ok(false) => all_hold(o) == Some(false),
                Err(e) => e is InvalidPattern && all_hold(o) is None,
            }
        }),
{
    let ghost o = condition_outcomes(*c, *m);
    let a = check_optional(&c.from_user, m.caller_user.as_str());
    if !matches!(a, Ok(true)) {
        proof {
            all_hold_stops(o, 0);
        }
        return a;
    }
    let a = check_optional(&c.from_host, m.caller_host.as_str());
    if !matches!(a, Ok(true)) {
        proof {
            all_hold_stops(o, 1);
        }
        return a;
    }
    let a = check_optional(&c.to_user, m.callee_user.as_str());
    if !matches!(a, Ok(true)) {
        proof {
            all_hold_stops(o, 2);
        }
        return a;
    }
    let a = check_optional(&c.to_host, m.callee_host.as_str());
    if !matches!(a, Ok(true)) {
        proof {
            all_hold_stops(o, 3);
        }
        return a;
    }
    let a = check_optional(&c.request_uri_user, m.request_user.as_str());
    if !matches!(a, Ok(true)) {
        proof {
            all_hold_stops(o, 4);
        }
        return a;
    }
    let a = check_optional(&c.request_uri_host, m.request_host.as_str());
    if !matches!(a, Ok(true)) {
        proof {
            all_hold_stops(o, 5);
        }
        return a;
    }
    let caller_full = join3(m.caller_user.as_str(), "@", m.caller_host.as_str());
    let a = check_optional(&c.caller, caller_full.as_str());
    if !matches!(a, Ok(true)) {
        proof {
            all_hold_stops(o, 6);
        }
        return a;
    }
    let callee_full = join3(m.callee_user.as_str(), "@", m.callee_host.as_str());
    let a = check_optional(&c.callee, callee_full.as_str());
    if !matches!(a, Ok(true)) {
        proof {
            all_hold_stops(o, 7);
        }
        return a;
    }
    Ok(true)
}

fn check_header(cond: &(String, String), headers: &Vec<Header>) -> (r: Result<bool, RouteError>)
    ensures
        r == held(header_holds(*cond, header_views(headers@))),
{
    if !starts_with(cond.0.as_str(), "header.") {
        return Ok(true);
    }
    let v = chars_of(cond.0.as_str());
    proof {
        reveal_strlit("header.");
    }
    let name = string_of(&v, 7, v.len());
    assert(name@ =~= cond.0@.skip(7));
    match get_header_value(headers, name.as_str()) {
        Some(value) => matches_pattern(cond.1.as_str(), value.as_str()),
        None => Ok(false),
    }
}

/// Whether the conditions of a rule hold of a request; an error where one of the
/// patterns that had to be tried is invalid.
pub fn matches_rule(c: &MatchConditions, m: &MatchInput) -> (r: Result<bool, RouteError>)
    ensures
        r == held(conditions_hold(*c, *m)),
{
    let ghost o = condition_outcomes(*c, *m);
    match check_addresses(c, m) {
        Ok(true) => {},
        Ok(false) => return Ok(false),
        Err(e) => return Err(e),
    }
    let mut i: usize = 0;
    while i < c.headers.len()
        invariant
            i <= c.headers.len(),
            o == condition_outcomes(*c, *m),
            forall|j: int| 0 <= j < 8 + i ==> o[j] == Some(true),
        decreases c.headers.len() - i,
    {
        let a = check_header(&c.headers[i], &m.headers);
        assert(o[8 + i] == header_holds(c.headers@[i as int], header_views(m.headers@)));
        if !matches!(a, Ok(true)) {
            proof {
                all_hold_stops(o, 8 + i);
            }
            return a;
        }
        i += 1;
    }
    proof {
        all_hold_passes(o);
    }
    Ok(true)
}

/// Whether the first opening brace of a pattern stands before the first closing
/// one, where it has both.
pub open spec fn braces_in_order(pattern: Seq<char>) -> bool {
    pattern.contains('{') && pattern.contains('}') ==> first_index(pattern, '{') < first_index(
        pattern,
        '}',
    )
}

/// What stands before the braces of a pattern.
pub open spec fn brace_prefix(pattern: Seq<char>) -> Seq<char> {
    pattern.take(first_index(pattern, '{'))
}

/// What stands between the braces of a pattern.
pub open spec fn brace_content(pattern: Seq<char>) -> Seq<char> {
    pattern.subrange(first_index(pattern, '{') + 1, first_index(pattern, '}'))
}

/// What stands behind the braces of a pattern.
pub open spec fn brace_suffix(pattern: Seq<char>) -> Seq<char> {
    pattern.skip(first_index(pattern, '}') + 1)
}

/// The digits at the beginning of a text.
pub open spec fn leading_digits(s: Seq<char>) -> Seq<char>
    decreases s.len(),
{
    if s.len() > 0 && is_digit(s[0]) {
        seq![s[0]] + leading_digits(s.drop_first())
    } else {
        Seq::empty()
    }
}

/// The digits of a text.
pub open spec fn digits_of(s: Seq<char>) -> Seq<char> {
    s.filter(|c: char| is_digit(c))
}

/// The text of a captured group. Where the first group was not captured, the
/// digits from the position at which it begins stand in for it.
pub open spec fn group_text(
    groups: Option<Seq<Option<Seq<char>>>>,
    position: Option<nat>,
    original: Seq<char>,
    group: nat,
) -> Option<Seq<char>> {
    match groups {
        None => None,
        Some(g) => if 0 < group < g.len() && g[group as int] is Some {
            g[group as int]
        } else if position is Some && group == 1 && original.len() > position->0 && leading_digits(
            original.skip(position->0 as int),
        ).len() > 0 {
            Some(leading_digits(original.skip(position->0 as int)))
        } else {
            None
        },
    }
}

/// The numbers that capture groups are read from: the pattern, and where its
/// group begins.
pub open spec fn number_pattern(i: int) -> (Seq<char>, Option<nat>) {
    if i == 0 {
        ("^\\+86(1\\d{10})$"@, Some(3nat))
    } else if i == 1 {
        ("^\\+1(\\d{10})$"@, Some(2nat))
    } else if i == 2 {
        ("^(\\d+)$"@, Some(0nat))
    } else {
        ("^[^\\d]*(\\d+)[^\\d]*$"@, None)
    }
}

/// The group that pattern `i` gives.
pub open spec fn number_group(i: int, original: Seq<char>, group: nat) -> Option<Seq<char>> {
    match regex_groups(number_pattern(i).0, original) {
        Some(g) => group_text(g, number_pattern(i).1, original, group),
        None => None,
    }
}

/// The group that the first of the patterns gives that gives one: a Chinese
/// mobile number, a US number, any number, a number between other text.
pub open spec fn captured_group(original: Seq<char>, group: nat) -> Option<Seq<char>> {
    if number_group(0, original, group) is Some {
        number_group(0, original, group)
    } else if number_group(1, original, group) is Some {
        number_group(1, original, group)
    } else if number_group(2, original, group) is Some {
        number_group(2, original, group)
    } else {
        number_group(3, original, group)
    }
}

/// What a rewrite pattern makes of a value. The number in its braces names a
/// captured group; the digits of the value stand in for one that is missing. A
/// pattern without such a number is the new value itself.
pub open spec fn rewritten(pattern: Seq<char>, original: Seq<char>) -> Seq<char> {
    if pattern.contains('{') && pattern.contains('}') {
        match parse_number(brace_content(pattern), usize::MAX as nat) {
            Some(n) => {
                let middle = match captured_group(original, n) {
                    Some(c) => c,
                    None => digits_of(original),
                };
                brace_prefix(pattern) + middle + brace_suffix(pattern)
            },
            None => pattern,
        }
    } else {
        pattern
    }
}

/// Whether `at` are positions of `part` in `text`, each behind the one before it.
pub open spec fn are_places(at: Seq<int>, part: Seq<char>, text: Seq<char>) -> bool {
    &&& at.len() == part.len()
    &&& forall|k: int| 0 <= k < at.len() ==> 0 <= (#[trigger] at[k]) < text.len() && text[at[k]] == part[k]
    &&& forall|j: int, k: int| 0 <= j < k < at.len() ==> #[trigger] at[j] < #[trigger] at[k]
}

/// Whether the characters of `part` stand in `text` in their order, be it with others
/// between them.
pub open spec fn is_drawn_from(part: Seq<char>, text: Seq<char>) -> bool {
    exists|at: Seq<int>| #[trigger] are_places(at, part, text)
}

/// Whether `part` is made of digits of `text`, in their order.
pub open spec fn is_number_of(part: Seq<char>, text: Seq<char>) -> bool {
    all_decimal(part) && is_drawn_from(part, text)
}

proof fn stretch_is_drawn(part: Seq<char>, text: Seq<char>, i: int)
    requires
        occurs_at(text, part, i),
    ensures
        is_drawn_from(part, text),
{
    let at = Seq::new(part.len(), |k: int| i + k);
    assert forall|k: int| 0 <= k < at.len() implies 0 <= (#[trigger] at[k]) < text.len()
        && text[at[k]] == part[k] by {
        assert(text.subrange(i, i + part.len())[k] == part[k]);
    }
    assert(are_places(at, part, text));
}

proof fn digits_are_drawn(text: Seq<char>)
    ensures
        is_number_of(digits_of(text), text),
    decreases text.len(),
{
    reveal(Seq::filter);
    if text.len() == 0 {
        assert(are_places(Seq::empty(), digits_of(text), text));
    } else {
        let rest = text.drop_last();
        digits_are_drawn(rest);
        let at = choose|at: Seq<int>| #[trigger] are_places(at, digits_of(rest), rest);
        if is_digit(text.last()) {
            assert(digits_of(text) == digits_of(rest).push(text.last()));
            assert(are_places(at.push(text.len() - 1), digits_of(text), text));
        } else {
            assert(are_places(at, digits_of(text), text));
        }
    }
}

proof fn leading_digits_lead(text: Seq<char>)
    ensures
        leading_digits(text).len() <= text.len(),
        leading_digits(text) == text.take(leading_digits(text).len() as int),
        all_decimal(leading_digits(text)),
    decreases text.len(),
{
    if text.len() > 0 && is_digit(text[0]) {
        let rest = text.drop_first();
        leading_digits_lead(rest);
        let d = leading_digits(text);
        assert(d =~= text.take(d.len() as int));
        assert forall|i: int| 0 <= i < d.len() implies is_decimal(#[trigger] d[i]) by {
            if i > 0 {
                assert(d[i] == leading_digits(rest)[i - 1]);
            }
        }
    } else {
        assert(text.take(0) =~= Seq::empty());
    }
}

proof fn digits_from_are_drawn(text: Seq<char>, from: int)
    requires
        0 <= from <= text.len(),
    ensures
        is_number_of(leading_digits(text.skip(from)), text),
{
    let d = leading_digits(text.skip(from));
    leading_digits_lead(text.skip(from));
    assert(text.subrange(from, from + d.len()) =~= d);
    stretch_is_drawn(d, text, from);
}

fn take_digits(v: &Vec<char>, from: usize) -> (r: String)
    requires
        from <= v.len(),
    ensures
        r@ == leading_digits(v@.skip(from as int)),
{
    let mut out = String::new();
    let mut i: usize = from;
    let ghost all = v@.skip(from as int);
    assert(out@ + leading_digits(v@.skip(i as int)) =~= leading_digits(all));
    while i < v.len() && '0' <= v[i] && v[i] <= '9'
        invariant
            from <= i <= v.len(),
            out@ + leading_digits(v@.skip(i as int)) == leading_digits(all),
        decreases v.len() - i,
    {
        let ghost rest = v@.skip(i as int);
        assert(rest.drop_first() =~= v@.skip(i + 1));
        let ghost before = out@;
        out.push(v[i]);
        assert(out@ + leading_digits(v@.skip(i + 1)) =~= before + (seq![rest[0]] + leading_digits(
            rest.drop_first(),
        )));
        i += 1;
    }
    assert(leading_digits(v@.skip(i as int)) =~= Seq::empty());
    assert(out@ =~= leading_digits(all));
    out
}

/// The text of a captured group, see [`group_text`].
pub fn text_of_group(
    groups: &Option<Vec<Option<String>>>,
    position: Option<usize>,
    original: &str,
    group_num: usize,
) -> (r: Option<String>)
    ensures
        opt_text(r) == group_text(
            match_text(*groups),
            match position {
                Some(p) => Some(p as nat),
                None => None,
            },
            original@,
            group_num as nat,
        ),
{
    match groups {
        None => None,
        Some(g) => {
            if group_num > 0 && group_num < g.len() {
                if let Some(c) = &g[group_num] {
                    return Some(c.clone());
                }
            }
            match position {
                Some(p) => {
                    let v = chars_of(original);
                    if group_num == 1 && v.len() > p {
                        let d = take_digits(&v, p);
                        if !d.as_str().is_empty() {
                            return Some(d);
                        }
                    }
                    None
                },
                None => None,
            }
        },
    }
}

fn group_by_pattern(pattern: &str, position: Option<usize>, original: &str, group_num: usize) -> (r:
    Option<String>)
    ensures
        opt_text(r) == (match regex_groups(pattern@, original@) {
            Some(g) => group_text(
                g,
                match position {
                    Some(p) => Some(p as nat),
                    None => None,
                },
                original@,
                group_num as nat,
            ),
            None => None,
        }),
        is_number_pattern(pattern@) && r is Some ==> is_number_of(r->0@, original@),
{
    match regex_captures(pattern, original) {
        Some(groups) => {
            let r = text_of_group(&groups, position, original, group_num);
            proof {
                if is_number_pattern(pattern@) && r is Some {
                    let g = groups->0@;
                    if 0 < group_num < g.len() && g[group_num as int] is Some {
                        let part = g[group_num as int]->0@;
                        let i = choose|i: int| #[trigger] occurs_at(original@, part, i);
                        stretch_is_drawn(part, original@, i);
                    } else {
                        digits_from_are_drawn(original@, position->0 as int);
                    }
                }
            }
            r
        },
        None => None,
    }
}

/// The group that the first of the number patterns gives, see
/// [`captured_group`].
pub fn extract_capture_group(original: &str, group_num: usize) -> (r: Option<String>)
    ensures
        opt_text(r) == captured_group(original@, group_num as nat),
        r matches Some(c) ==> is_number_of(c@, original@),
{
    let a = group_by_pattern("^\\+86(1\\d{10})$", Some(3), original, group_num);
    if a.is_some() {
        return a;
    }
    let b = group_by_pattern("^\\+1(\\d{10})$", Some(2), original, group_num);
    if b.is_some() {
        return b;
    }
    let c = group_by_pattern("^(\\d+)$", Some(0), original, group_num);
    if c.is_some() {
        return c;
    }
    group_by_pattern("^[^\\d]*(\\d+)[^\\d]*$", None, original, group_num)
}

fn only_digits(s: &str) -> (r: String)
    ensures
        r@ == digits_of(s@),
{
    let v = chars_of(s);
    let ghost f = |c: char| is_digit(c);
    let mut out = String::new();
    let mut i: usize = 0;
    proof {
        reveal(Seq::filter);
        assert(v@.take(0) =~= Seq::empty());
    }
    while i < v.len()
        invariant
            i <= v.len(),
            v@ == s@,
            f == (|c: char| is_digit(c)),
            out@ == v@.take(i as int).filter(f),
        decreases v.len() - i,
    {
        proof {
            reveal(Seq::filter);
            assert(v@.take(i + 1).drop_last() =~= v@.take(i as int));
        }
        if '0' <= v[i] && v[i] <= '9' {
            out.push(v[i]);
        }
        i += 1;
    }
    assert(v@.take(i as int) =~= v@);
    out
}

/// The parts of a pattern around its braces: what stands before, between and
/// behind them; `None` without braces.
pub fn split_braces(pattern: &str) -> (r: Option<(String, String, String)>)
    requires
        braces_in_order(pattern@),
    ensures
        r is Some <==> pattern@.contains('{') && pattern@.contains('}'),
        r matches Some(p) ==> p.0@ == brace_prefix(pattern@) && p.1@ == brace_content(pattern@)
            && p.2@ == brace_suffix(pattern@),
{
    let v = chars_of(pattern);
    let start = find_char(&v, '{');
    let end = find_char(&v, '}');
    proof {
        first_index_facts(pattern@, '{');
        first_index_facts(pattern@, '}');
    }
    if start == v.len() || end == v.len() {
        return None;
    }
    let prefix = string_of(&v, 0, start);
    let content = string_of(&v, start + 1, end);
    let suffix = string_of(&v, end + 1, v.len());
    assert(prefix@ =~= brace_prefix(pattern@));
    assert(suffix@ =~= brace_suffix(pattern@));
    Some((prefix, content, suffix))
}

/// The number in the braces of a pattern, where it has braces with a number.
pub open spec fn brace_number(pattern: Seq<char>) -> Option<nat> {
    if pattern.contains('{') && pattern.contains('}') {
        parse_number(brace_content(pattern), usize::MAX as nat)
    } else {
        None
    }
}

/// Whether `middle` is what stands between the parts around the braces of `pattern`.
pub open spec fn is_filled_with(r: Seq<char>, pattern: Seq<char>, middle: Seq<char>) -> bool {
    r == brace_prefix(pattern) + middle + brace_suffix(pattern)
}

/// What a rewrite pattern makes of a value, see [`rewritten`]. A pattern without a
/// number in braces is the new value, whatever the value was; else digits of the
/// value, in their order, take the place of the braces.
pub fn apply_rewrite_pattern_with_match(pattern: &str, original: &str) -> (r: String)
    requires
        braces_in_order(pattern@),
    ensures
        r@ == rewritten(pattern@, original@),
        brace_number(pattern@) is None ==> r@ == pattern@,
        brace_number(pattern@) is Some ==> exists|middle: Seq<char>| #[trigger]
            is_filled_with(r@, pattern@, middle) && is_number_of(middle, original@),
{
    match split_braces(pattern) {
        Some(p) => match parse_unsigned(p.1.as_str(), usize::MAX as u64) {
            Some(n) => {
                let middle = match extract_capture_group(original, n as usize) {
                    Some(c) => c,
                    None => {
                        proof {
                            digits_are_drawn(original@);
                        }
                        only_digits(original)
                    },
                };
                let r = join3(p.0.as_str(), middle.as_str(), p.2.as_str());
                assert(is_filled_with(r@, pattern@, middle@));
                r
            },
            None => own(pattern),
        },
        None => own(pattern),
    }
}

/// A header pattern with what it is applied to in place of its braces.
pub open spec fn substituted(pattern: Seq<char>, original: Seq<char>) -> Seq<char> {
    if pattern.contains('{') && pattern.contains('}') {
        brace_prefix(pattern) + original + brace_suffix(pattern)
    } else {
        pattern
    }
}

/// See [`substituted`].
pub fn apply_rewrite_pattern(pattern: &str, original: &str) -> (r: String)
    requires
        braces_in_order(pattern@),
    ensures
        r@ == substituted(pattern@, original@),
{
    match split_braces(pattern) {
        Some(p) => join3(p.0.as_str(), original, p.2.as_str()),
        None => own(pattern),
    }
}

/// How a matched request is rewritten. A key of `headers` is `header.` and the
/// name of the header to add; other keys are passed over.
#[derive(Debug)]
pub struct RewriteRules {
    pub from_user: Option<String>,
    pub from_host: Option<String>,
    pub to_user: Option<String>,
    pub to_host: Option<String>,
    pub caller: Option<String>,
    pub callee: Option<String>,
    pub headers: Vec<(String, String)>,
}

/// Whether an optional pattern has its braces in order.
pub open spec fn optional_in_order(pattern: Option<String>) -> bool {
    pattern matches Some(p) ==> braces_in_order(p@)
}

/// Whether the pattern of a header rule has its braces in order. A rule that is passed
/// over may have them as it likes.
pub open spec fn header_in_order(rule: (String, String)) -> bool {
    has_prefix(rule.0@, "header."@) ==> braces_in_order(rule.1@)
}

fn has_ordered_braces(pattern: &str) -> (r: bool)
    ensures
        r == braces_in_order(pattern@),
{
    let v = chars_of(pattern);
    let start: usize = find_char(&v, '{');
    let end: usize = find_char(&v, '}');
    proof {
        first_index_facts(pattern@, '{');
        first_index_facts(pattern@, '}');
    }
    start == v.len() || end == v.len() || start < end
}

fn is_ordered(pattern: &Option<String>) -> (r: bool)
    ensures
        r == optional_in_order(*pattern),
{
    match pattern {
        Some(p) => has_ordered_braces(p.as_str()),
        None => true,
    }
}

impl RewriteRules {
    /// Whether the braces of all patterns that are applied are in order.
    pub open spec fn well_formed(self) -> bool {
        &&& optional_in_order(self.from_user)
        &&& optional_in_order(self.from_host)
        &&& optional_in_order(self.to_user)
        &&& optional_in_order(self.to_host)
        &&& optional_in_order(self.caller)
        &&& optional_in_order(self.callee)
        &&& forall|i: int| 0 <= i < self.headers@.len() ==> header_in_order(#[trigger] self.headers@[i])
    }

    fn is_readable(&self) -> (r: bool)
        ensures
            r == self.well_formed(),
    {
        if !is_ordered(&self.from_user) || !is_ordered(&self.from_host) || !is_ordered(&self.to_user)
            || !is_ordered(&self.to_host) || !is_ordered(&self.caller) || !is_ordered(&self.callee) {
            return false;
        }
        let mut i: usize = 0;
        while i < self.headers.len()
            invariant
                i <= self.headers.len(),
                forall|k: int| 0 <= k < i ==> header_in_order(#[trigger] self.headers@[k]),
            decreases self.headers.len() - i,
        {
            let rule = &self.headers[i];
            if starts_with(rule.0.as_str(), "header.") && !has_ordered_braces(rule.1.as_str()) {
                assert(!header_in_order(self.headers@[i as int]));
                return false;
            }
            i += 1;
        }
        true
    }
}

/// A URI with another user.
pub open spec fn with_user(u: UriView, user: Seq<char>) -> UriView {
    UriView { user: Some(user), ..u }
}

/// A URI with another host and port; `None` where the text is no host.
pub open spec fn with_host(u: UriView, host: Seq<char>) -> Option<UriView> {
    match parsed_host_port(host) {
        Some(p) => Some(UriView { host: p.0, port: p.1, ..u }),
        None => None,
    }
}

/// A URI with its user rewritten.
pub open spec fn user_rewritten(pattern: Option<String>, u: UriView) -> UriView {
    match pattern {
        Some(p) => with_user(u, rewritten(p@, u.user_text())),
        None => u,
    }
}

/// A URI with its host rewritten.
pub open spec fn host_rewritten(pattern: Option<String>, u: UriView) -> Option<UriView> {
    match pattern {
        Some(p) => with_host(u, rewritten(p@, u.host)),
        None => Some(u),
    }
}

/// A URI with its user and host rewritten as one text; a result without an at
/// sign changes nothing.
pub open spec fn both_rewritten(pattern: Option<String>, u: UriView) -> Option<UriView> {
    match pattern {
        Some(p) => {
            let full = rewritten(p@, u.user_at_host());
            match after(full, '@') {
                Some(host) => with_host(with_user(u, before(full, '@')), host),
                None => Some(u),
            }
        },
        None => Some(u),
    }
}

/// A party of a request after its three rewrites.
pub open spec fn party_rewritten(
    user: Option<String>,
    host: Option<String>,
    both: Option<String>,
    u: UriView,
) -> Option<UriView> {
    match host_rewritten(host, user_rewritten(user, u)) {
        Some(v) => both_rewritten(both, v),
        None => None,
    }
}

/// The headers of a request after those of the rules have been added.
pub open spec fn headers_added(h: Option<Seq<HeaderView>>, rules: Seq<(String, String)>) -> Option<
    Seq<HeaderView>,
>
    decreases rules.len(),
{
    if rules.len() == 0 {
        h
    } else {
        let rest = headers_added(h, rules.drop_last());
        let (key, pattern) = rules.last();
        if has_prefix(key@, "header."@) {
            let list = match rest {
                Some(l) => l,
                None => Seq::empty(),
            };
            Some(list.push(HeaderView::Other(key@.skip(7), substituted(pattern@, Seq::empty()))))
        } else {
            rest
        }
    }
}

/// A request after it has been rewritten; `None` where a new host is no host.
pub open spec fn invite_rewritten(v: InviteView, w: RewriteRules) -> Option<InviteView> {
    match (
        party_rewritten(w.from_user, w.from_host, w.caller, v.caller),
        party_rewritten(w.to_user, w.to_host, w.callee, v.callee),
    ) {
        (Some(caller), Some(callee)) => Some(
            InviteView { caller, callee, headers: headers_added(v.headers, w.headers@), ..v },
        ),
        _ => None,
    }
}

/// The URI with another user.
pub fn update_uri_user(uri: &Uri, new_user: &str) -> (r: Uri)
    ensures
        r@ == with_user(uri@, new_user@),
{
    let mut out = uri.copy();
    out.user = Some(own(new_user));
    out
}

/// The URI with another host and port; an error where the text is no host.
pub fn update_uri_host(uri: &Uri, new_host: &str) -> (r: Result<Uri, RouteError>)
    ensures
        match r {
            Ok(u) => Some(u@) == with_host(uri@, new_host@),
            Err(e) => e is InvalidHost && with_host(uri@, new_host@) is None,
        },
{
    match parse_host_port(new_host) {
        Some(p) => {
            let mut out = uri.copy();
            out.host = p.0;
            out.port = p.1;
            Ok(out)
        },
        None => Err(RouteError::InvalidHost),
    }
}

fn rewrite_party(
    user: &Option<String>,
    host: &Option<String>,
    both: &Option<String>,
    uri: &Uri,
) -> (r: Result<Uri, RouteError>)
    requires
        optional_in_order(*user),
        optional_in_order(*host),
        optional_in_order(*both),
    ensures
        match r {
            Ok(u) => Some(u@) == party_rewritten(*user, *host, *both, uri@),
            Err(e) => e is InvalidHost && party_rewritten(*user, *host, *both, uri@) is None,
        },
{
    let mut out = match user {
        Some(p) => {
            let new_user = apply_rewrite_pattern_with_match(
                p.as_str(),
                uri.user_or_empty().as_str(),
            );
            update_uri_user(uri, new_user.as_str())
        },
        None => uri.copy(),
    };
    if let Some(p) = host {
        let new_host = apply_rewrite_pattern_with_match(p.as_str(), out.host.as_str());
        match update_uri_host(&out, new_host.as_str()) {
            Ok(u) => {
                out = u;
            },
            Err(e) => return Err(e),
        }
    }
    if let Some(p) = both {
        let full = apply_rewrite_pattern_with_match(p.as_str(), out.to_user_at_host().as_str());
        let parts = split_first(full.as_str(), '@');
        if let Some(new_host) = &parts.1 {
            let named = update_uri_user(&out, parts.0.as_str());
            return update_uri_host(&named, new_host.as_str());
        }
    }
    Ok(out)
}

/// Rewrites a request; an error, and no change, where a new host is no host.
pub fn apply_rewrite_rules(option: &mut InviteOption, rewrite: &RewriteRules) -> (r: Result<
    (),
    RouteError,
>)
    requires
        rewrite.well_formed(),
    ensures
        match r {
            Ok(_) => Some(final(option)@) == invite_rewritten(old(option)@, *rewrite),
            Err(e) => e is InvalidHost && invite_rewritten(old(option)@, *rewrite) is None
                && *final(option) == *old(option),
        },
{
    let caller = match rewrite_party(
        &rewrite.from_user,
        &rewrite.from_host,
        &rewrite.caller,
        &option.caller,
    ) {
        Ok(u) => u,
        Err(e) => return Err(e),
    };
    let callee = match rewrite_party(
        &rewrite.to_user,
        &rewrite.to_host,
        &rewrite.callee,
        &option.callee,
    ) {
        Ok(u) => u,
        Err(e) => return Err(e),
    };
    option.caller = caller;
    option.callee = callee;
    let ghost parties = option@;
    let mut i: usize = 0;
    assert(rewrite.headers@.take(0) =~= Seq::empty());
    while i < rewrite.headers.len()
        invariant
            i <= rewrite.headers.len(),
            rewrite.well_formed(),
            option@ == (InviteView {
                headers: headers_added(parties.headers, rewrite.headers@.take(i as int)),
                ..parties
            }),
        decreases rewrite.headers.len() - i,
    {
        let rule = &rewrite.headers[i];
        assert(rewrite.headers@.take(i + 1).drop_last() =~= rewrite.headers@.take(i as int));
        assert(rewrite.headers@.take(i + 1).last() == *rule);
        if starts_with(rule.0.as_str(), "header.") {
            let v = chars_of(rule.0.as_str());
            proof {
                reveal_strlit("header.");
                reveal_strlit("");
            }
            let name = string_of(&v, 7, v.len());
            assert(name@ =~= rule.0@.skip(7));
            let value = apply_rewrite_pattern(rule.1.as_str(), "");
            assert(""@ =~= Seq::<char>::empty());
            option.push_header(Header::Other(name, value));
        }
        i += 1;
    }
    assert(rewrite.headers@.take(i as int) =~= rewrite.headers@);
    Ok(())
}

/// The trunks that a rule sends to.
#[derive(Debug)]
pub enum DestConfig {
    Single(String),
    Multiple(Vec<String>),
}

impl DestConfig {
    /// The names of the trunks.
    pub open spec fn names(self) -> Seq<Seq<char>> {
        match self {
            DestConfig::Single(t) => seq![t@],
            DestConfig::Multiple(v) => texts(v@),
        }
    }
}

/// A trunk that requests are sent to.
#[derive(Debug)]
pub struct TrunkConfig {
    pub name: String,
    pub dest: String,
    pub transport: Option<String>,
    pub username: Option<String>,
    pub password: Option<String>,
}

/// The first trunk with a name.
pub open spec fn trunk_named(trunks: Seq<TrunkConfig>, name: Seq<char>) -> Option<TrunkConfig>
    decreases trunks.len(),
{
    if trunks.len() == 0 {
        None
    } else if trunks[0].name@ == name {
        Some(trunks[0])
    } else {
        trunk_named(trunks.drop_first(), name)
    }
}

/// The transport with a name, whatever the case of its letters.
pub open spec fn transport_named(name: Seq<char>) -> Option<Transport> {
    let n = unicode_lower(name);
    if n == "udp"@ {
        Some(Transport::Udp)
    } else if n == "tcp"@ {
        Some(Transport::Tcp)
    } else if n == "tls"@ {
        Some(Transport::Tls)
    } else if n == "ws"@ {
        Some(Transport::Ws)
    } else if n == "wss"@ {
        Some(Transport::Wss)
    } else {
        None
    }
}

/// A request as it is sent to a trunk: with the destination of the trunk, its
/// credentials where it has both, and the asserted identity of the caller where
/// it has a user. `None` where the destination is no URI.
pub open spec fn sent_to_trunk(v: InviteView, t: TrunkConfig) -> Option<InviteView> {
    match parsed_uri_host(t.dest@) {
        Some(p) => Some(
            InviteView {
                destination: Some(
                    AddrView {
                        transport: match t.transport {
                            Some(n) => transport_named(n@),
                            None => None,
                        },
                        host: p.0,
                        port: p.1,
                    },
                ),
                credential: match (t.username, t.password) {
                    (Some(u), Some(w)) => Some(
                        CredentialView { username: u@, password: w@, realm: Some(p.0) },
                    ),
                    _ => v.credential,
                },
                headers: if t.username is Some {
                    Some(
                        v.header_list().push(
                            HeaderView::Other(
                                "P-Asserted-Identity"@,
                                "<"@ + v.caller.text() + ">"@,
                            ),
                        ),
                    )
                } else {
                    Some(v.header_list())
                },
                ..v
            },
        ),
        None => None,
    }
}

fn parse_transport(name: &str) -> (r: Option<Transport>)
    ensures
        r == transport_named(name@),
{
    let n = to_lowercase(name);
    let s = n.as_str();
    if same(s, "udp") {
        Some(Transport::Udp)
    } else if same(s, "tcp") {
        Some(Transport::Tcp)
    } else if same(s, "tls") {
        Some(Transport::Tls)
    } else if same(s, "ws") {
        Some(Transport::Ws)
    } else if same(s, "wss") {
        Some(Transport::Wss)
    } else {
        None
    }
}

/// Directs a request to a trunk, see [`sent_to_trunk`].
pub fn apply_trunk_config(option: &mut InviteOption, trunk: &TrunkConfig) -> (r: Result<
    (),
    RouteError,
>)
    ensures
        match r {
            Ok(_) => Some(final(option)@) == sent_to_trunk(old(option)@, *trunk),
            Err(e) => e is InvalidDestination && sent_to_trunk(old(option)@, *trunk) is None
                && *final(option) == *old(option),
        },
{
    let (host, port) = match parse_uri_host(trunk.dest.as_str()) {
        Some(p) => p,
        None => return Err(RouteError::InvalidDestination),
    };
    let transport = match &trunk.transport {
        Some(n) => parse_transport(n.as_str()),
        None => None,
    };
    let realm = host.clone();
    option.destination = Some(SipAddr { transport, host, port });
    if let (Some(username), Some(password)) = (&trunk.username, &trunk.password) {
        option.credential = Some(
            Credential {
                username: username.clone(),
                password: password.clone(),
                realm: Some(realm),
            },
        );
    }
    if trunk.username.is_some() {
        let caller = option.caller.to_text();
        let value = join3("<", caller.as_str(), ">");
        option.push_header(Header::Other(own("P-Asserted-Identity"), value));
    } else if option.headers.is_none() {
        let none: Vec<Header> = Vec::new();
        assert(header_views(none@) =~= Seq::empty());
        option.headers = Some(none);
    }
    Ok(())
}

/// How often each list of trunks has been chosen from in turn.
#[derive(Debug)]
pub struct RoutingState {
    pub counters: Vec<(Vec<String>, u64)>,
}

/// The counts of lists of trunks; of two entries with one list the later counts.
pub open spec fn count_map(v: Seq<(Vec<String>, u64)>) -> Map<Seq<Seq<char>>, u64>
    decreases v.len(),
{
    if v.len() == 0 {
        Map::empty()
    } else {
        count_map(v.drop_last()).insert(texts(v.last().0@), v.last().1)
    }
}

/// The count of a list; zero for one that was never chosen from.
pub open spec fn count_of(m: Map<Seq<Seq<char>>, u64>, key: Seq<Seq<char>>) -> u64 {
    if m.dom().contains(key) {
        m[key]
    } else {
        0
    }
}

/// The counts after one more choice from a list.
pub open spec fn counted(m: Map<Seq<Seq<char>>, u64>, key: Seq<Seq<char>>) -> Map<
    Seq<Seq<char>>,
    u64,
> {
    let c = count_of(m, key);
    m.insert(
        key,
        if c == u64::MAX {
            0
        } else {
            (c + 1) as u64
        },
    )
}

proof fn count_map_absent(v: Seq<(Vec<String>, u64)>, key: Seq<Seq<char>>)
    requires
        forall|i: int| 0 <= i < v.len() ==> texts((#[trigger] v[i]).0@) != key,
    ensures
        !count_map(v).dom().contains(key),
    decreases v.len(),
{
    if v.len() > 0 {
        assert forall|i: int| 0 <= i < v.drop_last().len() implies texts(
            (#[trigger] v.drop_last()[i]).0@,
        ) != key by {
            assert(texts(v[i].0@) != key);
        }
        assert(texts(v[v.len() - 1].0@) != key);
        count_map_absent(v.drop_last(), key);
    }
}

proof fn count_map_at(v: Seq<(Vec<String>, u64)>, k: int, c: u64)
    requires
        0 <= k < v.len(),
        forall|i: int| k < i < v.len() ==> texts((#[trigger] v[i]).0@) != texts(v[k].0@),
    ensures
        count_map(v).dom().contains(texts(v[k].0@)),
        count_map(v)[texts(v[k].0@)] == v[k].1,
        count_map(v.update(k, (v[k].0, c))) == count_map(v).insert(texts(v[k].0@), c),
    decreases v.len(),
{
    let key = texts(v[k].0@);
    let w = v.update(k, (v[k].0, c));
    if k == v.len() - 1 {
        assert(w.drop_last() =~= v.drop_last());
        assert(count_map(w) =~= count_map(v).insert(key, c));
    } else {
        let rest = v.drop_last();
        assert forall|i: int| k < i < rest.len() implies texts((#[trigger] rest[i]).0@) != texts(
            rest[k].0@,
        ) by {
            assert(texts(v[i].0@) != texts(v[k].0@));
        }
        count_map_at(rest, k, c);
        assert(w.drop_last() =~= rest.update(k, (v[k].0, c)));
        assert(texts(v[v.len() - 1].0@) != key);
        assert(w.last() == v.last());
        assert(count_map(w) =~= count_map(v).insert(key, c));
    }
}

fn same_names(a: &Vec<String>, b: &Vec<String>) -> (r: bool)
    ensures
        r == (texts(a@) == texts(b@)),
{
    if a.len() != b.len() {
        assert(texts(a@).len() != texts(b@).len());
        return false;
    }
    let mut i: usize = 0;
    while i < a.len()
        invariant
            i <= a.len(),
            a.len() == b.len(),
            forall|j: int| 0 <= j < i ==> (#[trigger] a@[j])@ == b@[j]@,
        decreases a.len() - i,
    {
        if a[i] != b[i] {
            assert(texts(a@)[i as int] != texts(b@)[i as int]);
            return false;
        }
        i += 1;
    }
    assert(texts(a@) =~= texts(b@));
    true
}

impl RoutingState {
    /// The state before anything was routed.
    pub fn new() -> (r: RoutingState)
        ensures
            r.counts() == Map::<Seq<Seq<char>>, u64>::empty(),
    {
        let r = RoutingState { counters: Vec::new() };
        assert(r.counters@ =~= Seq::empty());
        r
    }

    /// How often each list of trunks has been chosen from.
    pub open spec fn counts(self) -> Map<Seq<Seq<char>>, u64> {
        count_map(self.counters@)
    }

    /// The index of the trunk whose turn it is; the next call gives the next.
    pub fn next_round_robin_index(&mut self, names: &Vec<String>) -> (r: usize)
        requires
            names.len() > 0,
        ensures
            r < names.len(),
            r as int == count_of(old(self).counts(), texts(names@)) as int % names.len() as int,
            final(self).counts() == counted(old(self).counts(), texts(names@)),
    {
        let ghost key = texts(names@);
        let mut k: usize = self.counters.len();
        while k > 0
            invariant
                k <= self.counters.len(),
                *self == *old(self),
                key == texts(names@),
                names.len() > 0,
                forall|i: int| k <= i < self.counters@.len() ==> texts((#[trigger] self.counters@[i]).0@)
                    != key,
            decreases k,
        {
            if same_names(&self.counters[k - 1].0, names) {
                let c: u64 = self.counters[k - 1].1;
                let next: u64 = if c == u64::MAX {
                    0
                } else {
                    c + 1
                };
                proof {
                    count_map_at(self.counters@, k - 1, next);
                }
                let list = own_all(&self.counters[k - 1].0);
                let ghost before = self.counters@;
                self.counters.set(k - 1, (list, next));
                proof {
                    count_map_same_keys(
                        before.update(k - 1, (before[k - 1].0, next)),
                        self.counters@,
                    );
                }
                return (c % names.len() as u64) as usize;
            }
            k -= 1;
        }
        proof {
            count_map_absent(self.counters@, key);
        }
        let ghost before = self.counters@;
        let list = own_all(names);
        self.counters.push((list, 1));
        assert(self.counters@.drop_last() =~= before);
        assert(0int % (names@.len() as int) == 0) by (nonlinear_arith)
            requires
                names@.len() > 0,
        ;
        0
    }
}

proof fn count_map_same_keys(a: Seq<(Vec<String>, u64)>, b: Seq<(Vec<String>, u64)>)
    requires
        a.len() == b.len(),
        forall|i: int| 0 <= i < a.len() ==> texts((#[trigger] a[i]).0@) == texts(b[i].0@) && a[i].1
            == b[i].1,
    ensures
        count_map(a) == count_map(b),
    decreases a.len(),
{
    if a.len() > 0 {
        assert forall|i: int| 0 <= i < a.drop_last().len() implies texts(
            (#[trigger] a.drop_last()[i]).0@,
        ) == texts(b.drop_last()[i].0@) && a.drop_last()[i].1 == b.drop_last()[i].1 by {
            assert(texts(a[i].0@) == texts(b[i].0@));
        }
        assert(texts(a[a.len() - 1].0@) == texts(b[a.len() - 1].0@));
        count_map_same_keys(a.drop_last(), b.drop_last());
    }
}

/// `rand::Rng::random_range` of the thread's generator: a number below `len`.
#[verifier::external_body]
fn random_index(len: usize) -> (r: usize)
    requires
        len > 0,
    ensures
        r < len,
{
    rand::Rng::random_range(&mut rand::rng(), 0..len)
}

/// The hash of a text, as a string is hashed: its bytes and then an end mark.
pub open spec fn text_hash(s: Seq<char>) -> u64 {
    DefaultHasher::spec_finish(seq![vstd::utf8::encode_utf8(s), seq![0xFFu8]])
}

fn hash_text(s: &str) -> (r: u64)
    ensures
        r == text_hash(s@),
{
    let mut h = DefaultHasher::new();
    h.write(s.as_bytes());
    let mut mark: Vec<u8> = Vec::new();
    mark.push(0xFF);
    h.write(mark.as_slice());
    assert(mark@ =~= seq![0xFFu8]);
    assert(h@ =~= seq![vstd::utf8::encode_utf8(s@), seq![0xFFu8]]);
    h.finish()
}

/// What the trunk of a request is chosen by: its caller, its callee, or a fixed
/// text; the caller's whole address where nothing is said.
pub open spec fn hashed_text(key: Option<String>, v: InviteView) -> Seq<char> {
    match key {
        Some(k) => if k@ == "from.user"@ {
            v.caller.user_text()
        } else if k@ == "to.user"@ {
            v.callee.user_text()
        } else if k@ == "call-id"@ {
            "default"@
        } else {
            k@
        },
        None => v.caller.text(),
    }
}

/// The trunk that is chosen from a list, and the counts after the choice. `pick`
/// is the chance of a choice at random.
pub open spec fn chosen_trunk(
    names: Seq<Seq<char>>,
    method: Seq<char>,
    hash_key: Option<String>,
    v: InviteView,
    counts: Map<Seq<Seq<char>>, u64>,
    pick: int,
) -> (Seq<char>, Map<Seq<Seq<char>>, u64>) {
    let n = names.len() as int;
    if n == 1 {
        (names[0], counts)
    } else if method == "random"@ {
        (names[pick % n], counts)
    } else if method == "hash"@ {
        (names[(text_hash(hashed_text(hash_key, v)) as usize) as int % n], counts)
    } else {
        (names[count_of(counts, names) as int % n], counted(counts, names))
    }
}

/// Chooses a trunk for a request: the only one, one at random, by a hash of the
/// request, or in turn. An error where there is none to choose.
pub fn select_trunk(
    dest_config: &DestConfig,
    select_method: &str,
    hash_key: &Option<String>,
    option: &InviteOption,
    routing_state: &mut RoutingState,
) -> (r: Result<String, RouteError>)
    ensures
        match r {
            Ok(name) => dest_config.names().len() > 0 && exists|pick: int|
                (name@, final(routing_state).counts()) == #[trigger] chosen_trunk(
                    dest_config.names(),
                    select_method@,
                    *hash_key,
                    option@,
                    old(routing_state).counts(),
                    pick,
                ),
            Err(e) => e is NoTrunks && dest_config.names().len() == 0 && *final(routing_state)
                == *old(routing_state),
        },
{
    let names = match dest_config {
        DestConfig::Single(t) => {
            let mut v: Vec<String> = Vec::new();
            v.push(t.clone());
            assert(texts(v@) =~= seq![t@]);
            v
        },
        DestConfig::Multiple(list) => own_all(list),
    };
    let ghost all = dest_config.names();
    let ghost counts = routing_state.counts();
    assert(texts(names@) =~= all);
    if names.len() == 0 {
        return Err(RouteError::NoTrunks);
    }
    let index: usize = if names.len() == 1 {
        assert(chosen_trunk(all, select_method@, *hash_key, option@, counts, 0) == (
            names@[0]@,
            counts,
        ));
        0
    } else if same(select_method, "random") {
        let i = random_index(names.len());
        assert(i as int % all.len() as int == i as int) by (nonlinear_arith)
            requires
                0 <= i < all.len(),
        ;
        assert(chosen_trunk(all, select_method@, *hash_key, option@, counts, i as int) == (
            names@[i as int]@,
            counts,
        ));
        i
    } else if same(select_method, "hash") {
        let text = match hash_key {
            Some(key) => if same(key.as_str(), "from.user") {
                option.caller.user_or_empty()
            } else if same(key.as_str(), "to.user") {
                option.callee.user_or_empty()
            } else if same(key.as_str(), "call-id") {
                own("default")
            } else {
                key.clone()
            },
            None => option.caller.to_text(),
        };
        let h: u64 = hash_text(text.as_str());
        let i: usize = (#[verifier::truncate]
        (h as usize)) % names.len();
        assert(chosen_trunk(all, select_method@, *hash_key, option@, counts, 0) == (
            names@[i as int]@,
            counts,
        ));
        i
    } else {
        let i = routing_state.next_round_robin_index(&names);
        assert(chosen_trunk(all, select_method@, *hash_key, option@, counts, 0) == (
            names@[i as int]@,
            routing_state.counts(),
        ));
        i
    };
    Ok(names[index].clone())
}

/// What a rule does with a request that it matches.
#[derive(Clone, Copy, Debug, PartialEq, Eq, Structural)]
pub enum ActionType {
    Forward,
    Reject,
    Busy,
}

/// How a request is refused.
#[derive(Debug)]
pub struct RejectConfig {
    pub code: u16,
    pub reason: Option<String>,
}

/// The action of a rule.
#[derive(Debug)]
pub struct RouteAction {
    pub action: ActionType,
    pub reject: Option<RejectConfig>,
    pub dest: Option<DestConfig>,
    pub select: String,
    pub hash_key: Option<String>,
}

/// A routing rule.
#[derive(Debug)]
pub struct RouteRule {
    pub name: String,
    pub disabled: Option<bool>,
    pub match_conditions: MatchConditions,
    pub rewrite: Option<RewriteRules>,
    pub action: RouteAction,
}

impl RouteRule {
    /// Whether the braces of the rewrite patterns are in order.
    pub open spec fn well_formed(self) -> bool {
        self.rewrite matches Some(w) ==> w.well_formed()
    }

    /// Whether no rule behind this one is tried, whichever trunk is chosen.
    pub open spec fn ends_routing(self, trunks: Seq<TrunkConfig>) -> bool {
        match self.action.action {
            ActionType::Forward => self.action.dest matches Some(d) && forall|k: int|
                0 <= k < d.names().len() ==> trunk_named(trunks, #[trigger] d.names()[k]) is Some,
            _ => true,
        }
    }
}

/// Whether the rewrite patterns of the rules that can apply to a request have their
/// braces in order. Rules that are disabled, that the request does not fulfil, or that
/// stand behind one that ends routing may have them as they like.
pub open spec fn braces_fit(rules: Seq<RouteRule>, trunks: Seq<TrunkConfig>, m: MatchInput) -> bool
    decreases rules.len(),
{
    if rules.len() == 0 {
        true
    } else {
        let rule = rules[0];
        let rest = braces_fit(rules.drop_first(), trunks, m);
        if rule.disabled == Some(true) {
            rest
        } else {
            match conditions_hold(rule.match_conditions, m) {
                None => true,
                Some(false) => rest,
                Some(true) => rule.well_formed() && (rule.ends_routing(trunks) || rest),
            }
        }
    }
}

fn knows_all(trunks: &Vec<TrunkConfig>, dest: &DestConfig) -> (r: bool)
    ensures
        r == forall|k: int|
            0 <= k < dest.names().len() ==> trunk_named(trunks@, #[trigger] dest.names()[k]) is Some,
{
    match dest {
        DestConfig::Single(name) => {
            assert(dest.names()[0] == name@);
            find_trunk(trunks, name.as_str()).is_some()
        },
        DestConfig::Multiple(names) => {
            let mut i: usize = 0;
            while i < names.len()
                invariant
                    i <= names.len(),
                    dest.names() == texts(names@),
                    forall|k: int|
                        0 <= k < i ==> trunk_named(trunks@, #[trigger] dest.names()[k]) is Some,
                decreases names.len() - i,
            {
                assert(dest.names()[i as int] == names@[i as int]@);
                if find_trunk(trunks, names[i].as_str()).is_none() {
                    return false;
                }
                i += 1;
            }
            true
        },
    }
}

/// Whether the rules can be tried on a request, see [`braces_fit`].
pub fn rules_are_readable(rules: &Vec<RouteRule>, trunks: &Vec<TrunkConfig>, input: &MatchInput) -> (r: bool)
    ensures
        r == braces_fit(rules@, trunks@, *input),
{
    let mut i: usize = 0;
    assert(rules@.skip(0) =~= rules@);
    while i < rules.len()
        invariant
            i <= rules.len(),
            braces_fit(rules@.skip(i as int), trunks@, *input) == braces_fit(
                rules@,
                trunks@,
                *input,
            ),
        decreases rules.len() - i,
    {
        let ghost here = rules@.skip(i as int);
        let rule = &rules[i];
        assert(here[0] == *rule);
        assert(here.drop_first() =~= rules@.skip(i + 1));
        if !matches!(rule.disabled, Some(true)) {
            match matches_rule(&rule.match_conditions, input) {
                Err(_) => return true,
                Ok(false) => {},
                Ok(true) => {
                    if let Some(w) = &rule.rewrite {
                        if !w.is_readable() {
                            return false;
                        }
                    }
                    let ends = match rule.action.action {
                        ActionType::Forward => match &rule.action.dest {
                            Some(d) => knows_all(trunks, d),
                            None => false,
                        },
                        _ => true,
                    };
                    if ends {
                        return true;
                    }
                },
            }
        }
        i += 1;
    }
    true
}

/// Where a request goes that no rule has decided on.
#[derive(Debug)]
pub struct DefaultRoute {
    pub dest: DestConfig,
    pub select: String,
}

/// What routing makes of a request.
#[derive(Debug)]
pub enum RouteResult {
    /// The request is sent on.
    Forward(InviteOption),
    /// The request is refused.
    Abort(u16, String),
}

/// The contents of a routing result.
pub enum Routed {
    Forward(InviteView),
    Abort(u16, Seq<char>),
    Failed(RouteError),
}

/// The contents of a routing result.
pub open spec fn routed(r: Result<RouteResult, RouteError>) -> Routed {
    match r {
        Ok(RouteResult::Forward(o)) => Routed::Forward(o@),
        Ok(RouteResult::Abort(c, t)) => Routed::Abort(c, t@),
        Err(e) => Routed::Failed(e),
    }
}

/// How a rule refuses: with its own code and reason, the customary reason of the
/// code where it has none, and 403 where it has no code.
pub open spec fn refusal(reject: Option<RejectConfig>) -> (u16, Seq<char>) {
    match reject {
        Some(c) => (
            c.code,
            match c.reason {
                Some(t) => t@,
                None => if c.code == 403 {
                    "Forbidden"@
                } else if c.code == 404 {
                    "Not Found"@
                } else if c.code == 486 {
                    "Busy Here"@
                } else {
                    "Rejected"@
                },
            },
        ),
        None => (403, "Forbidden"@),
    }
}

/// What becomes of a request that is sent to a named trunk; `None` where there
/// is no such trunk.
pub open spec fn forwarded(trunks: Seq<TrunkConfig>, name: Seq<char>, v: InviteView) -> Option<Routed> {
    match trunk_named(trunks, name) {
        Some(t) => Some(
            match sent_to_trunk(v, t) {
                Some(w) => Routed::Forward(w),
                None => Routed::Failed(RouteError::InvalidDestination),
            },
        ),
        None => None,
    }
}

/// What becomes of a request that no rule has decided on: it is sent to the
/// default trunk, or on as it is.
pub open spec fn default_routed(
    default: Option<&DefaultRoute>,
    trunks: Seq<TrunkConfig>,
    v: InviteView,
    counts: Map<Seq<Seq<char>>, u64>,
    picks: Seq<int>,
) -> (Routed, Map<Seq<Seq<char>>, u64>) {
    match default {
        None => (Routed::Forward(v), counts),
        Some(d) => if d.dest.names().len() == 0 {
            (Routed::Failed(RouteError::NoTrunks), counts)
        } else {
            let (name, after) = chosen_trunk(
                d.dest.names(),
                d.select@,
                None,
                v,
                counts,
                picks[0],
            );
            match forwarded(trunks, name, v) {
                Some(r) => (r, after),
                None => (Routed::Forward(v), after),
            }
        },
    }
}

/// What the rules make of a request, tried in order. A disabled rule, and one
/// whose conditions do not hold, is passed over; one that matches rewrites the
/// request and decides on it, unless it names no trunk that there is. `picks`
/// are the chances of the choices at random.
pub open spec fn rules_routed(
    rules: Seq<RouteRule>,
    default: Option<&DefaultRoute>,
    trunks: Seq<TrunkConfig>,
    m: MatchInput,
    v: InviteView,
    counts: Map<Seq<Seq<char>>, u64>,
    picks: Seq<int>,
) -> (Routed, Map<Seq<Seq<char>>, u64>)
    decreases rules.len(),
{
    if rules.len() == 0 {
        default_routed(default, trunks, v, counts, picks)
    } else {
        let rule = rules[0];
        let rest = rules.drop_first();
        if rule.disabled == Some(true) {
            rules_routed(rest, default, trunks, m, v, counts, picks)
        } else {
            match conditions_hold(rule.match_conditions, m) {
                None => (Routed::Failed(RouteError::InvalidPattern), counts),
                Some(false) => rules_routed(rest, default, trunks, m, v, counts, picks),
                Some(true) => {
                    let changed = match rule.rewrite {
                        Some(w) => invite_rewritten(v, w),
                        None => Some(v),
                    };
                    match changed {
                        None => (Routed::Failed(RouteError::InvalidHost), counts),
                        Some(w) => match rule.action.action {
                            ActionType::Reject => {
                                let (code, reason) = refusal(rule.action.reject);
                                (Routed::Abort(code, reason), counts)
                            },
                            ActionType::Busy => (Routed::Abort(486, "Busy Here"@), counts),
                            ActionType::Forward => match rule.action.dest {
                                None => rules_routed(rest, default, trunks, m, w, counts, picks),
                                Some(d) => if d.names().len() == 0 {
                                    (Routed::Failed(RouteError::NoTrunks), counts)
                                } else {
                                    let (name, after) = chosen_trunk(
                                        d.names(),
                                        rule.action.select@,
                                        rule.action.hash_key,
                                        w,
                                        counts,
                                        picks[0],
                                    );
                                    match forwarded(trunks, name, w) {
                                        Some(r) => (r, after),
                                        None => rules_routed(
                                            rest,
                                            default,
                                            trunks,
                                            m,
                                            w,
                                            after,
                                            picks.drop_first(),
                                        ),
                                    }
                                },
                            },
                        },
                    }
                },
            }
        }
    }
}

pub fn find_trunk<'a>(trunks: &'a Vec<TrunkConfig>, name: &str) -> (r: Option<&'a TrunkConfig>)
    ensures
        trunk_named(trunks@, name@) == (match r {
            Some(t) => Some(*t),
            None => None,
        }),
{
    let mut i: usize = 0;
    assert(trunks@.skip(0) =~= trunks@);
    while i < trunks.len()
        invariant
            i <= trunks.len(),
            trunk_named(trunks@.skip(i as int), name@) == trunk_named(trunks@, name@),
        decreases trunks.len() - i,
    {
        assert(trunks@.skip(i as int)[0] == trunks@[i as int]);
        assert(trunks@.skip(i as int).drop_first() =~= trunks@.skip(i + 1));
        if same(trunks[i].name.as_str(), name) {
            return Some(&trunks[i]);
        }
        i += 1;
    }
    assert(trunks@.skip(i as int) =~= Seq::empty());
    None
}

/// The refusal of a rule, see [`refusal`].
pub fn reject_response(reject: &Option<RejectConfig>) -> (r: (u16, String))
    ensures
        (r.0, r.1@) == refusal(*reject),
{
    match reject {
        Some(c) => {
            let reason = match &c.reason {
                Some(t) => t.clone(),
                None => match c.code {
                    403 => own("Forbidden"),
                    404 => own("Not Found"),
                    486 => own("Busy Here"),
                    _ => own("Rejected"),
                },
            };
            (c.code, reason)
        },
        None => (403, own("Forbidden")),
    }
}

fn forward_to(trunks: &Vec<TrunkConfig>, name: &str, option: InviteOption) -> (r: Result<
    Result<RouteResult, RouteError>,
    InviteOption,
>)
    ensures
        match r {
            Ok(x) => forwarded(trunks@, name@, option@) == Some(routed(x)),
            Err(o) => o == option && forwarded(trunks@, name@, option@) is None,
        },
{
    match find_trunk(trunks, name) {
        Some(t) => {
            let mut o = option;
            match apply_trunk_config(&mut o, t) {
                Ok(_) => Ok(Ok(RouteResult::Forward(o))),
                Err(e) => Ok(Err(e)),
            }
        },
        None => Err(option),
    }
}

fn route_default(
    default: Option<&DefaultRoute>,
    trunks: &Vec<TrunkConfig>,
    option: InviteOption,
    state: &mut RoutingState,
) -> (r: Result<RouteResult, RouteError>)
    ensures
        exists|picks: Seq<int>|
            (routed(r), final(state).counts()) == #[trigger] default_routed(
                default,
                trunks@,
                option@,
                old(state).counts(),
                picks,
            ),
{
    match default {
        None => {
            let r = Ok(RouteResult::Forward(option));
            assert((routed(r), state.counts()) == default_routed(
                default,
                trunks@,
                option@,
                state.counts(),
                Seq::empty(),
            ));
            r
        },
        Some(d) => {
            let ghost before = state.counts();
            match select_trunk(&d.dest, d.select.as_str(), &None, &option, state) {
                Ok(name) => {
                    let ghost pick = choose|pick: int|
                        (name@, state.counts()) == #[trigger] chosen_trunk(
                            d.dest.names(),
                            d.select@,
                            None,
                            option@,
                            before,
                            pick,
                        );
                    let ghost picks = seq![pick];
                    let ghost v = option@;
                    let r = match forward_to(trunks, name.as_str(), option) {
                        Ok(x) => x,
                        Err(o) => Ok(RouteResult::Forward(o)),
                    };
                    assert(picks[0] == pick);
                    assert((routed(r), state.counts()) == default_routed(
                        default,
                        trunks@,
                        v,
                        before,
                        picks,
                    ));
                    r
                },
                Err(e) => {
                    let r = Err(e);
                    assert((routed(r), state.counts()) == default_routed(
                        default,
                        trunks@,
                        option@,
                        before,
                        Seq::empty(),
                    ));
                    r
                },
            }
        },
    }
}

/// The outcomes that the rules can have for a request.
pub open spec fn can_route(
    rules: Seq<RouteRule>,
    default: Option<&DefaultRoute>,
    trunks: Seq<TrunkConfig>,
    m: MatchInput,
    v: InviteView,
    counts: Map<Seq<Seq<char>>, u64>,
    outcome: (Routed, Map<Seq<Seq<char>>, u64>),
) -> bool {
    exists|picks: Seq<int>|
        outcome == #[trigger] rules_routed(rules, default, trunks, m, v, counts, picks)
}

proof fn can_route_by(
    rules: Seq<RouteRule>,
    default: Option<&DefaultRoute>,
    trunks: Seq<TrunkConfig>,
    m: MatchInput,
    v: InviteView,
    counts: Map<Seq<Seq<char>>, u64>,
    outcome: (Routed, Map<Seq<Seq<char>>, u64>),
    picks: Seq<int>,
)
    requires
        outcome == rules_routed(rules, default, trunks, m, v, counts, picks),
    ensures
        can_route(rules, default, trunks, m, v, counts, outcome),
{
}

/// A rule that leaves a request as `w` to the rules behind it.
pub open spec fn passes_on(rule: RouteRule, m: MatchInput, v: InviteView, w: InviteView) -> bool {
    ||| w == v && (rule.disabled == Some(true) || conditions_hold(rule.match_conditions, m) == Some(false))
    ||| rule.disabled != Some(true) && conditions_hold(rule.match_conditions, m) == Some(true)
        && rule.action.action is Forward && rule.action.dest is None && (match rule.rewrite {
        Some(x) => invite_rewritten(v, x),
        None => Some(v),
    }) == Some(w)
}

proof fn can_route_past(
    rules: Seq<RouteRule>,
    default: Option<&DefaultRoute>,
    trunks: Seq<TrunkConfig>,
    m: MatchInput,
    v: InviteView,
    w: InviteView,
    counts: Map<Seq<Seq<char>>, u64>,
    outcome: (Routed, Map<Seq<Seq<char>>, u64>),
)
    requires
        rules.len() > 0,
        passes_on(rules[0], m, v, w),
        can_route(rules.drop_first(), default, trunks, m, w, counts, outcome),
    ensures
        can_route(rules, default, trunks, m, v, counts, outcome),
{
    let picks = choose|picks: Seq<int>|
        outcome == #[trigger] rules_routed(rules.drop_first(), default, trunks, m, w, counts, picks);
    can_route_by(rules, default, trunks, m, v, counts, outcome, picks);
}

fn route_rules(
    rules: &Vec<RouteRule>,
    i: usize,
    default: Option<&DefaultRoute>,
    trunks: &Vec<TrunkConfig>,
    m: &MatchInput,
    option: InviteOption,
    state: &mut RoutingState,
) -> (r: Result<RouteResult, RouteError>)
    requires
        i <= rules.len(),
        braces_fit(rules@.skip(i as int), trunks@, *m),
    ensures
        can_route(
            rules@.skip(i as int),
            default,
            trunks@,
            *m,
            option@,
            old(state).counts(),
            (routed(r), final(state).counts()),
        ),
    decreases rules.len() - i,
{
    let ghost here = rules@.skip(i as int);
    let ghost v = option@;
    let ghost counts = state.counts();
    if i == rules.len() {
        let r = route_default(default, trunks, option, state);
        proof {
            let picks = choose|picks: Seq<int>|
                (routed(r), state.counts()) == #[trigger] default_routed(
                    default,
                    trunks@,
                    v,
                    counts,
                    picks,
                );
            can_route_by(here, default, trunks@, *m, v, counts, (routed(r), state.counts()), picks);
        }
        return r;
    }
    let rule = &rules[i];
    assert(here[0] == *rule);
    assert(here.drop_first() =~= rules@.skip(i + 1));
    if matches!(rule.disabled, Some(true)) {
        let r = route_rules(rules, i + 1, default, trunks, m, option, state);
        proof {
            can_route_past(here, default, trunks@, *m, v, v, counts, (routed(r), state.counts()));
        }
        return r;
    }
    match matches_rule(&rule.match_conditions, m) {
        Ok(true) => {},
        Ok(false) => {
            let r = route_rules(rules, i + 1, default, trunks, m, option, state);
            proof {
                can_route_past(here, default, trunks@, *m, v, v, counts, (routed(r), state.counts()));
            }
            return r;
        },
        Err(e) => {
            proof {
                can_route_by(
                    here,
                    default,
                    trunks@,
                    *m,
                    v,
                    counts,
                    (Routed::Failed(e), counts),
                    Seq::empty(),
                );
            }
            return Err(e);
        },
    }
    let mut option = option;
    if let Some(w) = &rule.rewrite {
        if let Err(e) = apply_rewrite_rules(&mut option, w) {
            proof {
                can_route_by(
                    here,
                    default,
                    trunks@,
                    *m,
                    v,
                    counts,
                    (Routed::Failed(e), counts),
                    Seq::empty(),
                );
            }
            return Err(e);
        }
    }
    let ghost w = option@;
    match rule.action.action {
        ActionType::Reject => {
            let (code, reason) = reject_response(&rule.action.reject);
            proof {
                can_route_by(
                    here,
                    default,
                    trunks@,
                    *m,
                    v,
                    counts,
                    (Routed::Abort(code, reason@), counts),
                    Seq::empty(),
                );
            }
            Ok(RouteResult::Abort(code, reason))
        },
        ActionType::Busy => {
            let reason = own("Busy Here");
            proof {
                can_route_by(
                    here,
                    default,
                    trunks@,
                    *m,
                    v,
                    counts,
                    (Routed::Abort(486, reason@), counts),
                    Seq::empty(),
                );
            }
            Ok(RouteResult::Abort(486, reason))
        },
        ActionType::Forward => match &rule.action.dest {
            None => {
                let r = route_rules(rules, i + 1, default, trunks, m, option, state);
                proof {
                    can_route_past(
                        here,
                        default,
                        trunks@,
                        *m,
                        v,
                        w,
                        counts,
                        (routed(r), state.counts()),
                    );
                }
                r
            },
            Some(dest) => {
                match select_trunk(
                    dest,
                    rule.action.select.as_str(),
                    &rule.action.hash_key,
                    &option,
                    state,
                ) {
                    Err(e) => {
                        proof {
                            can_route_by(
                                here,
                                default,
                                trunks@,
                                *m,
                                v,
                                counts,
                                (Routed::Failed(e), counts),
                                Seq::empty(),
                            );
                        }
                        Err(e)
                    },
                    Ok(name) => {
                        let ghost after = state.counts();
                        let ghost pick = choose|pick: int|
                            (name@, after) == #[trigger] chosen_trunk(
                                dest.names(),
                                rule.action.select@,
                                rule.action.hash_key,
                                w,
                                counts,
                                pick,
                            );
                        match forward_to(trunks, name.as_str(), option) {
                            Ok(r) => {
                                proof {
                                    assert(seq![pick][0] == pick);
                                    can_route_by(
                                        here,
                                        default,
                                        trunks@,
                                        *m,
                                        v,
                                        counts,
                                        (routed(r), after),
                                        seq![pick],
                                    );
                                }
                                r
                            },
                            Err(o) => {
                                proof {
                                    chosen_trunk_is_named(
                                        dest.names(),
                                        rule.action.select@,
                                        rule.action.hash_key,
                                        w,
                                        counts,
                                        pick,
                                    );
                                    let k = dest.names().index_of(name@);
                                    assert(trunk_named(trunks@, dest.names()[k]) is None);
                                }
                                let r = route_rules(rules, i + 1, default, trunks, m, o, state);
                                proof {
                                    let out = (routed(r), state.counts());
                                    let rest = choose|picks: Seq<int>|
                                        out == #[trigger] rules_routed(
                                            here.drop_first(),
                                            default,
                                            trunks@,
                                            *m,
                                            w,
                                            after,
                                            picks,
                                        );
                                    let picks = seq![pick] + rest;
                                    assert(picks.drop_first() =~= rest);
                                    assert(picks[0] == pick);
                                    can_route_by(
                                        here,
                                        default,
                                        trunks@,
                                        *m,
                                        v,
                                        counts,
                                        out,
                                        picks,
                                    );
                                }
                                r
                            },
                        }
                    },
                }
            },
        },
    }
}

/// Routes an INVITE: the rules are tried in order, then the default route; what
/// none of them decides on is sent on as it is. Without rules the request is
/// sent on unchanged.
pub fn match_invite(
    trunks: &Vec<TrunkConfig>,
    routes: Option<&Vec<RouteRule>>,
    default: Option<&DefaultRoute>,
    option: InviteOption,
    input: &MatchInput,
    routing_state: &mut RoutingState,
) -> (r: Result<RouteResult, RouteError>)
    requires
        routes matches Some(v) ==> braces_fit(v@, trunks@, *input),
    ensures
        match routes {
            None => r == Ok::<RouteResult, RouteError>(RouteResult::Forward(option))
                && *final(routing_state) == *old(routing_state),
            Some(rules) => can_route(
                rules@,
                default,
                trunks@,
                *input,
                option@,
                old(routing_state).counts(),
                (routed(r), final(routing_state).counts()),
            ),
        },
{
    match routes {
        None => Ok(RouteResult::Forward(option)),
        Some(rules) => {
            assert(rules@.skip(0) =~= rules@);
            route_rules(rules, 0, default, trunks, input, option, routing_state)
        },
    }
}

/// Whether `m` is what the conditions of a rule are tried on: the parties as the
/// request has them before any rewrite, and the request URI and headers.
pub open spec fn is_input_of(
    m: MatchInput,
    option: InviteOption,
    request_uri: Uri,
    headers: Vec<Header>,
) -> bool {
    &&& m.caller_user@ == option.caller@.user_text()
    &&& m.caller_host@ == option.caller.host@
    &&& m.callee_user@ == option.callee@.user_text()
    &&& m.callee_host@ == option.callee.host@
    &&& m.request_user@ == request_uri@.user_text()
    &&& m.request_host@ == request_uri.host@
    &&& m.headers == headers
}

/// What the conditions of a rule are tried on, see [`is_input_of`].
pub fn match_input(option: &InviteOption, request_uri: &Uri, headers: Vec<Header>) -> (r: MatchInput)
    ensures
        is_input_of(r, *option, *request_uri, headers),
{
    MatchInput {
        caller_user: option.caller.user_or_empty(),
        caller_host: option.caller.host.clone(),
        callee_user: option.callee.user_or_empty(),
        callee_host: option.callee.host.clone(),
        request_user: request_uri.user_or_empty(),
        request_host: request_uri.host.clone(),
        headers,
    }
}

/// A trunk is chosen from those that the rule names.
pub proof fn chosen_trunk_is_named(
    names: Seq<Seq<char>>,
    method: Seq<char>,
    hash_key: Option<String>,
    v: InviteView,
    counts: Map<Seq<Seq<char>>, u64>,
    pick: int,
)
    requires
        names.len() > 0,
    ensures
        names.contains(chosen_trunk(names, method, hash_key, v, counts, pick).0),
{
    let n = names.len() as int;
    let h = (text_hash(hashed_text(hash_key, v)) as usize) as int;
    let c = count_of(counts, names) as int;
    assert(0 <= pick % n < n) by (nonlinear_arith)
        requires
            n > 0,
    ;
    assert(0 <= h % n < n) by (nonlinear_arith)
        requires
            n > 0,
    ;
    assert(0 <= c % n < n) by (nonlinear_arith)
        requires
            n > 0,
    ;
    assert(names.contains(names[0]));
    assert(names.contains(names[pick % n]));
    assert(names.contains(names[h % n]));
    assert(names.contains(names[c % n]));
}

/// Requests with the same hashed text go to the same trunk, whatever happens
/// between them.
pub proof fn hashed_choice_is_stable(
    names: Seq<Seq<char>>,
    hash_key: Option<String>,
    v: InviteView,
    w: InviteView,
    counts1: Map<Seq<Seq<char>>, u64>,
    counts2: Map<Seq<Seq<char>>, u64>,
    pick1: int,
    pick2: int,
)
    requires
        names.len() > 0,
        hashed_text(hash_key, v) == hashed_text(hash_key, w),
    ensures
        chosen_trunk(names, "hash"@, hash_key, v, counts1, pick1).0 == chosen_trunk(
            names,
            "hash"@,
            hash_key,
            w,
            counts2,
            pick2,
        ).0,
        chosen_trunk(names, "hash"@, hash_key, v, counts1, pick1).1 == counts1,
{
    reveal_strlit("hash");
    reveal_strlit("random");
    assert("hash"@.len() != "random"@.len());
}

/// Choices in turn go through the trunks one after the other.
pub proof fn turns_rotate(
    names: Seq<Seq<char>>,
    hash_key: Option<String>,
    v: InviteView,
    w: InviteView,
    counts: Map<Seq<Seq<char>>, u64>,
    pick: int,
)
    requires
        names.len() > 1,
        count_of(counts, names) < u64::MAX,
    ensures
        ({
            let (first, after) = chosen_trunk(names, "rr"@, hash_key, v, counts, pick);
            let (second, _) = chosen_trunk(names, "rr"@, hash_key, w, after, pick);
            let c = count_of(counts, names) as int;
            &&& first == names[c % names.len() as int]
            &&& second == names[(c + 1) % names.len() as int]
        }),
{
    reveal_strlit("rr");
    reveal_strlit("hash");
    reveal_strlit("random");
    assert("rr"@.len() == 2);
}

/// A disabled rule has no effect.
pub proof fn disabled_rule_has_no_effect(
    rules: Seq<RouteRule>,
    default: Option<&DefaultRoute>,
    trunks: Seq<TrunkConfig>,
    m: MatchInput,
    v: InviteView,
    counts: Map<Seq<Seq<char>>, u64>,
    picks: Seq<int>,
)
    requires
        rules.len() > 0,
        rules[0].disabled == Some(true),
    ensures
        rules_routed(rules, default, trunks, m, v, counts, picks) == rules_routed(
            rules.drop_first(),
            default,
            trunks,
            m,
            v,
            counts,
            picks,
        ),
{
}

/// A matching rule that refuses ends the routing: the rules behind it and the
/// default route are not tried.
pub proof fn refusal_ends_routing(
    rules: Seq<RouteRule>,
    default: Option<&DefaultRoute>,
    trunks: Seq<TrunkConfig>,
    m: MatchInput,
    v: InviteView,
    counts: Map<Seq<Seq<char>>, u64>,
    picks: Seq<int>,
)
    requires
        rules.len() > 0,
        rules[0].disabled != Some(true),
        conditions_hold(rules[0].match_conditions, m) == Some(true),
        rules[0].rewrite is None,
        rules[0].action.action is Reject || rules[0].action.action is Busy,
    ensures
        rules_routed(rules, default, trunks, m, v, counts, picks).0 is Abort,
        rules_routed(rules, default, trunks, m, v, counts, picks).1 == counts,
        rules[0].action.action is Busy ==> rules_routed(
            rules,
            default,
            trunks,
            m,
            v,
            counts,
            picks,
        ).0->Abort_0 == 486,
        rules[0].action.action is Reject ==> rules_routed(
            rules,
            default,
            trunks,
            m,
            v,
            counts,
            picks,
        ).0->Abort_0 == refusal(rules[0].action.reject).0,
{
}

/// Whether a pattern has none of the characters that make it a regular expression.
pub open spec fn is_plain(pattern: Seq<char>) -> bool {
    forall|i: int|
        0 <= i < pattern.len() ==> !seq!['^', '$', '*', '+', '?', '[', '(', '\\'].contains(
            #[trigger] pattern[i],
        )
}

/// Whether a value is what a pattern asks for: the same text for a plain pattern, one
/// that the expression matches for any other.
pub open spec fn is_asked_for(pattern: Seq<char>, value: Seq<char>) -> bool {
    if is_plain(pattern) {
        value == pattern
    } else {
        regex_match(pattern, value) == Some(true)
    }
}

proof fn plain_patterns_are_no_expressions(pattern: Seq<char>)
    ensures
        is_plain(pattern) <==> !is_regex(pattern),
{
    let chars = seq!['^', '$', '*', '+', '?', '[', '(', '\\'];
    assert forall|c: char| chars.contains(c) <==> is_special(c) by {
        assert(chars[0] == '^' && chars[1] == '$' && chars[2] == '*' && chars[3] == '+' && chars[4]
            == '?' && chars[5] == '[' && chars[6] == '(' && chars[7] == '\\');
    }
    if !is_plain(pattern) {
        let i = choose|i: int|
            0 <= i < pattern.len() && chars.contains(#[trigger] pattern[i]);
        assert(is_special(pattern[i]));
    }
    if is_regex(pattern) {
        let i = choose|i: int| 0 <= i < pattern.len() && is_special(#[trigger] pattern[i]);
        assert(chars.contains(pattern[i]));
    }
}

proof fn all_hold_means_all(outcomes: Seq<Option<bool>>)
    ensures
        all_hold(outcomes) == Some(true) <==> forall|j: int|
            0 <= j < outcomes.len() ==> #[trigger] outcomes[j] == Some(true),
    decreases outcomes.len(),
{
    if outcomes.len() > 0 && outcomes[0] == Some(true) {
        let rest = outcomes.drop_first();
        all_hold_means_all(rest);
        if all_hold(outcomes) == Some(true) {
            assert forall|j: int| 0 <= j < outcomes.len() implies #[trigger] outcomes[j] == Some(
                true,
            ) by {
                if j > 0 {
                    assert(rest[j - 1] == Some(true));
                }
            }
        } else {
            let k = choose|k: int| 0 <= k < rest.len() && #[trigger] rest[k] != Some(true);
            assert(outcomes[k + 1] == rest[k]);
        }
    }
}

/// Whether a request has a header that a condition asks for.
pub open spec fn header_is_asked_for(cond: (String, String), headers: Seq<Header>) -> bool {
    cond.0@.len() >= 7 && cond.0@.take(7) == "header."@ ==> exists|k: int|
        {
            &&& #[trigger] is_first_named(headers, cond.0@.skip(7), k)
            &&& is_asked_for(cond.1@, shown(headers[k]@))
        }
}

/// Whether a header goes by a name.
pub open spec fn goes_by(h: HeaderView, name: Seq<char>) -> bool {
    match h {
        HeaderView::Other(n, _) => unicode_lower(n) == unicode_lower(name),
        HeaderView::UserAgent(_) => unicode_lower(name) == "user-agent"@,
        HeaderView::Contact(_) => unicode_lower(name) == "contact"@,
        _ => false,
    }
}

/// What a header shows: its value, and for `User-Agent` and `Contact` the whole line.
pub open spec fn shown(h: HeaderView) -> Seq<char> {
    match h {
        HeaderView::Other(_, v) => v,
        HeaderView::UserAgent(v) => "User-Agent: "@ + v,
        HeaderView::Contact(v) => "Contact: "@ + v,
        _ => Seq::empty(),
    }
}

/// Whether the first header that goes by a name stands at `k`.
pub open spec fn is_first_named(headers: Seq<Header>, name: Seq<char>, k: int) -> bool {
    &&& 0 <= k < headers.len()
    &&& goes_by(headers[k]@, name)
    &&& forall|j: int| 0 <= j < k ==> !goes_by((#[trigger] headers[j])@, name)
}

proof fn header_value_facts(headers: Seq<Header>, name: Seq<char>)
    ensures
        header_value(header_views(headers), name) is Some <==> exists|k: int| #[trigger]
            is_first_named(headers, name, k),
        forall|k: int| #[trigger]
            is_first_named(headers, name, k) ==> header_value(header_views(headers), name) == Some(
                shown(headers[k]@),
            ),
    decreases headers.len(),
{
    let all = header_views(headers);
    if headers.len() > 0 {
        let rest = headers.drop_first();
        assert(header_views(rest) =~= all.drop_first());
        assert(all[0] == headers[0]@);
        header_value_facts(rest, name);
        if header_named(all[0], name) is Some {
            assert(is_first_named(headers, name, 0));
            assert forall|k: int| #[trigger] is_first_named(headers, name, k) implies header_value(
                all,
                name,
            ) == Some(shown(headers[k]@)) by {
                if k > 0 {
                    assert(goes_by(headers[0]@, name));
                }
            }
        } else {
            assert forall|k: int| #[trigger] is_first_named(headers, name, k) implies header_value(
                all,
                name,
            ) == Some(shown(headers[k]@)) && is_first_named(rest, name, k - 1) by {
                assert(k > 0);
                assert(rest[k - 1] == headers[k]);
                assert forall|j: int| 0 <= j < k - 1 implies !goes_by((#[trigger] rest[j])@, name) by {
                    assert(rest[j] == headers[j + 1]);
                }
                assert(is_first_named(rest, name, k - 1));
            }
            if header_value(all, name) is Some {
                let k = choose|k: int| #[trigger] is_first_named(rest, name, k);
                assert(rest[k] == headers[k + 1]);
                assert forall|j: int| 0 <= j < k + 1 implies !goes_by(
                    (#[trigger] headers[j])@,
                    name,
                ) by {
                    if j > 0 {
                        assert(rest[j - 1] == headers[j]);
                    }
                }
                assert(is_first_named(headers, name, k + 1));
            }
        }
    } else {
        assert(all =~= Seq::empty());
    }
}

proof fn header_condition_facts(cond: (String, String), headers: Seq<Header>)
    ensures
        header_holds(cond, header_views(headers)) == Some(true) <==> header_is_asked_for(
            cond,
            headers,
        ),
{
    reveal_strlit("header.");
    let name = cond.0@.skip(7);
    header_value_facts(headers, name);
    plain_patterns_are_no_expressions(cond.1@);
    if has_prefix(cond.0@, "header."@) {
        if exists|k: int| #[trigger] is_first_named(headers, name, k) {
            let k = choose|k: int| #[trigger] is_first_named(headers, name, k);
            assert(header_value(header_views(headers), name) == Some(shown(headers[k]@)));
            if header_is_asked_for(cond, headers) {
                let j = choose|j: int|
                    {
                        &&& #[trigger] is_first_named(headers, name, j)
                        &&& is_asked_for(cond.1@, shown(headers[j]@))
                    };
                assert(header_value(header_views(headers), name) == Some(shown(headers[j]@)));
            }
        }
    }
}

/// A rule matches a request exactly where each condition that it gives is fulfilled by
/// the part of the request that the condition is named after: the caller's user and
/// host, the callee's user and host, those of the request URI, the caller and the callee
/// as `user@host`, and the headers.
pub proof fn rule_matches_where_its_conditions_do(
    c: MatchConditions,
    m: MatchInput,
    option: InviteOption,
    request_uri: Uri,
    headers: Vec<Header>,
)
    requires
        is_input_of(m, option, request_uri, headers),
    ensures
        conditions_hold(c, m) == Some(true) <==> {
            &&& c.from_user matches Some(p) ==> is_asked_for(p@, option.caller@.user_text())
            &&& c.from_host matches Some(p) ==> is_asked_for(p@, option.caller.host@)
            &&& c.to_user matches Some(p) ==> is_asked_for(p@, option.callee@.user_text())
            &&& c.to_host matches Some(p) ==> is_asked_for(p@, option.callee.host@)
            &&& c.request_uri_user matches Some(p) ==> is_asked_for(p@, request_uri@.user_text())
            &&& c.request_uri_host matches Some(p) ==> is_asked_for(p@, request_uri.host@)
            &&& c.caller matches Some(p) ==> is_asked_for(
                p@,
                option.caller@.user_text() + seq!['@'] + option.caller.host@,
            )
            &&& c.callee matches Some(p) ==> is_asked_for(
                p@,
                option.callee@.user_text() + seq!['@'] + option.callee.host@,
            )
            &&& forall|i: int|
                0 <= i < c.headers@.len() ==> header_is_asked_for(
                    #[trigger] c.headers@[i],
                    headers@,
                )
        },
{
    let o = condition_outcomes(c, m);
    all_hold_means_all(o);
    reveal_strlit("@");
    assert("@"@ =~= seq!['@']);
    part_is_asked_for(c.from_user, m.caller_user@);
    part_is_asked_for(c.from_host, m.caller_host@);
    part_is_asked_for(c.to_user, m.callee_user@);
    part_is_asked_for(c.to_host, m.callee_host@);
    part_is_asked_for(c.request_uri_user, m.request_user@);
    part_is_asked_for(c.request_uri_host, m.request_host@);
    part_is_asked_for(c.caller, m.caller_user@ + "@"@ + m.caller_host@);
    part_is_asked_for(c.callee, m.callee_user@ + "@"@ + m.callee_host@);
    assert(o.len() == 8 + c.headers@.len());
    assert forall|i: int| 0 <= i < c.headers@.len() implies (o[8 + i] == Some(true)
        <==> header_is_asked_for(#[trigger] c.headers@[i], headers@)) by {
        header_condition_facts(c.headers@[i], headers@);
    }
    if conditions_hold(c, m) == Some(true) {
        assert(o[0] == Some(true) && o[1] == Some(true) && o[2] == Some(true) && o[3] == Some(true)
            && o[4] == Some(true) && o[5] == Some(true) && o[6] == Some(true) && o[7] == Some(true));
        assert forall|i: int| 0 <= i < c.headers@.len() implies header_is_asked_for(
            #[trigger] c.headers@[i],
            headers@,
        ) by {
            assert(o[8 + i] == Some(true));
        }
    } else {
        let j = choose|j: int| 0 <= j < o.len() && #[trigger] o[j] != Some(true);
        if j >= 8 {
            assert(!header_is_asked_for(c.headers@[j - 8], headers@));
        } else {
            assert(j == 0 || j == 1 || j == 2 || j == 3 || j == 4 || j == 5 || j == 6 || j == 7);
        }
    }
}

proof fn part_is_asked_for(pattern: Option<String>, value: Seq<char>)
    ensures
        optional_holds(pattern, value) == Some(true) <==> (pattern matches Some(p) ==> is_asked_for(
            p@,
            value,
        )),
{
    if let Some(p) = pattern {
        plain_patterns_are_no_expressions(p@);
    }
}

/// Whether a rule asks for nothing.
pub open spec fn asks_nothing(c: MatchConditions) -> bool {
    &&& c.from_user is None && c.from_host is None && c.to_user is None && c.to_host is None
    &&& c.request_uri_user is None && c.request_uri_host is None
    &&& c.caller is None && c.callee is None
    &&& c.headers@.len() == 0
}

/// A rule with one condition, a plain text, matches exactly the requests that have that
/// text in the part which the condition is named after, and no other part decides: a
/// rule on the callee's host, say, does not ask who calls.
pub proof fn each_condition_asks_for_its_own_part(
    c: MatchConditions,
    m: MatchInput,
    option: InviteOption,
    request_uri: Uri,
    headers: Vec<Header>,
    p: String,
)
    requires
        is_input_of(m, option, request_uri, headers),
        is_plain(p@),
    ensures
        asks_nothing(c) ==> conditions_hold(c, m) == Some(true),
        asks_nothing(MatchConditions { from_user: None, ..c }) && c.from_user == Some(p)
            ==> conditions_hold(c, m) == Some(option.caller@.user_text() == p@),
        asks_nothing(MatchConditions { from_host: None, ..c }) && c.from_host == Some(p)
            ==> conditions_hold(c, m) == Some(option.caller.host@ == p@),
        asks_nothing(MatchConditions { to_user: None, ..c }) && c.to_user == Some(p)
            ==> conditions_hold(c, m) == Some(option.callee@.user_text() == p@),
        asks_nothing(MatchConditions { to_host: None, ..c }) && c.to_host == Some(p)
            ==> conditions_hold(c, m) == Some(option.callee.host@ == p@),
        asks_nothing(MatchConditions { request_uri_user: None, ..c }) && c.request_uri_user == Some(p)
            ==> conditions_hold(c, m) == Some(request_uri@.user_text() == p@),
        asks_nothing(MatchConditions { request_uri_host: None, ..c }) && c.request_uri_host == Some(p)
            ==> conditions_hold(c, m) == Some(request_uri.host@ == p@),
        asks_nothing(MatchConditions { caller: None, ..c }) && c.caller == Some(p)
            ==> conditions_hold(c, m) == Some(
            option.caller@.user_text() + seq!['@'] + option.caller.host@ == p@,
        ),
        asks_nothing(MatchConditions { callee: None, ..c }) && c.callee == Some(p)
            ==> conditions_hold(c, m) == Some(
            option.callee@.user_text() + seq!['@'] + option.callee.host@ == p@,
        ),
{
    rule_matches_where_its_conditions_do(c, m, option, request_uri, headers);
    plain_patterns_are_no_expressions(p@);
    let o = condition_outcomes(c, m);
    all_hold_is_an_outcome(o);
    if c.headers@.len() == 0 {
        assert(o.len() == 8);
        reveal_strlit("@");
        assert("@"@ =~= seq!['@']);
    }
}

proof fn all_hold_is_an_outcome(outcomes: Seq<Option<bool>>)
    ensures
        all_hold(outcomes) == Some(true) || exists|k: int|
            0 <= k < outcomes.len() && #[trigger] outcomes[k] == all_hold(outcomes),
    decreases outcomes.len(),
{
    if outcomes.len() > 0 {
        let rest = outcomes.drop_first();
        all_hold_is_an_outcome(rest);
        if outcomes[0] == Some(true) && all_hold(rest) != Some(true) {
            let k = choose|k: int| 0 <= k < rest.len() && #[trigger] rest[k] == all_hold(rest);
            assert(outcomes[k + 1] == all_hold(outcomes));
        } else {
            assert(outcomes[0] == outcomes[0]);
        }
    }
}

/// Whether a rewrite changes nothing.
pub open spec fn rewrites_nothing(w: RewriteRules) -> bool {
    &&& w.from_user is None && w.from_host is None && w.to_user is None && w.to_host is None
    &&& w.caller is None && w.callee is None
    &&& w.headers@.len() == 0
}

/// A rewrite of the caller leaves the callee as it is and the other way round; what is
/// neither a party nor a header is never rewritten, and no header is lost.
pub proof fn rewrite_stays_with_its_party(v: InviteView, w: RewriteRules)
    ensures
        invite_rewritten(v, w) matches Some(r) ==> {
            &&& r == (InviteView { caller: r.caller, callee: r.callee, headers: r.headers, ..v })
            &&& w.from_user is None && w.from_host is None && w.caller is None ==> r.caller
                == v.caller
            &&& w.to_user is None && w.to_host is None && w.callee is None ==> r.callee == v.callee
            &&& r.caller == (UriView {
                user: r.caller.user,
                host: r.caller.host,
                port: r.caller.port,
                ..v.caller
            })
            &&& r.callee == (UriView {
                user: r.callee.user,
                host: r.callee.host,
                port: r.callee.port,
                ..v.callee
            })
            &&& w.headers@.len() == 0 ==> r.headers == v.headers
            &&& v.header_list().len() <= r.header_list().len()
            &&& r.header_list().take(v.header_list().len() as int) == v.header_list()
        },
        rewrites_nothing(w) ==> invite_rewritten(v, w) == Some(v),
{
    added_headers_come_last(v.headers, w.headers@);
}

proof fn added_headers_come_last(h: Option<Seq<HeaderView>>, rules: Seq<(String, String)>)
    ensures
        ({
            let old_list = match h {
                Some(l) => l,
                None => Seq::empty(),
            };
            let new_list = match headers_added(h, rules) {
                Some(l) => l,
                None => Seq::empty(),
            };
            &&& old_list.len() <= new_list.len()
            &&& new_list.take(old_list.len() as int) == old_list
        }),
    decreases rules.len(),
{
    let old_list = match h {
        Some(l) => l,
        None => Seq::empty(),
    };
    if rules.len() > 0 {
        added_headers_come_last(h, rules.drop_last());
        let mid = match headers_added(h, rules.drop_last()) {
            Some(l) => l,
            None => Seq::empty(),
        };
        let new_list = match headers_added(h, rules) {
            Some(l) => l,
            None => Seq::empty(),
        };
        assert(new_list.take(old_list.len() as int) =~= mid.take(old_list.len() as int));
    } else {
        assert(old_list.take(old_list.len() as int) =~= old_list);
    }
}

/// A rewrite with one pattern, a text without braces, puts that text in the place that
/// the pattern is named after.
pub proof fn plain_rewrite_sets_its_own_part(v: InviteView, w: RewriteRules, p: String)
    requires
        !p@.contains('{'),
    ensures
        rewrites_nothing(RewriteRules { from_user: None, ..w }) && w.from_user == Some(p)
            ==> invite_rewritten(v, w) == Some(
            InviteView { caller: UriView { user: Some(p@), ..v.caller }, ..v },
        ),
        rewrites_nothing(RewriteRules { to_user: None, ..w }) && w.to_user == Some(p)
            ==> invite_rewritten(v, w) == Some(
            InviteView { callee: UriView { user: Some(p@), ..v.callee }, ..v },
        ),
        rewrites_nothing(RewriteRules { from_host: None, ..w }) && w.from_host == Some(p)
            ==> invite_rewritten(v, w) == (match parsed_host_port(p@) {
            Some((host, port)) => Some(
                InviteView { caller: UriView { host, port, ..v.caller }, ..v },
            ),
            None => None,
        }),
        rewrites_nothing(RewriteRules { to_host: None, ..w }) && w.to_host == Some(p)
            ==> invite_rewritten(v, w) == (match parsed_host_port(p@) {
            Some((host, port)) => Some(
                InviteView { callee: UriView { host, port, ..v.callee }, ..v },
            ),
            None => None,
        }),
        rewrites_nothing(RewriteRules { caller: None, ..w }) && w.caller == Some(p) && !p@.contains('@')
            ==> invite_rewritten(v, w) == Some(v),
        rewrites_nothing(RewriteRules { callee: None, ..w }) && w.callee == Some(p) && !p@.contains('@')
            ==> invite_rewritten(v, w) == Some(v),
{
    first_index_facts(p@, '@');
}

/// A pattern `user@host` names both parts of a party.
pub proof fn full_rewrite_sets_user_and_host(
    v: InviteView,
    w: RewriteRules,
    p: String,
    user: Seq<char>,
    host: Seq<char>,
)
    requires
        !p@.contains('{'),
        p@ == user + seq!['@'] + host,
        !user.contains('@'),
    ensures
        rewrites_nothing(RewriteRules { caller: None, ..w }) && w.caller == Some(p)
            ==> invite_rewritten(v, w) == (match parsed_host_port(host) {
            Some((h, port)) => Some(
                InviteView {
                    caller: UriView { user: Some(user), host: h, port, ..v.caller },
                    ..v
                },
            ),
            None => None,
        }),
        rewrites_nothing(RewriteRules { callee: None, ..w }) && w.callee == Some(p)
            ==> invite_rewritten(v, w) == (match parsed_host_port(host) {
            Some((h, port)) => Some(
                InviteView {
                    callee: UriView { user: Some(user), host: h, port, ..v.callee },
                    ..v
                },
            ),
            None => None,
        }),
{
    first_index_facts(p@, '@');
    let k = first_index(p@, '@');
    assert(p@[user.len() as int] == '@');
    if k < user.len() {
        assert(p@[k] == user[k]);
        assert(user.contains(user[k]));
    }
    assert(k == user.len());
    assert(p@.take(k) =~= user);
    assert(p@.skip(k + 1) =~= host);
}

/// The header rules of a rewrite add one header each, in order, behind those of the
/// request: its name is what the key has behind `header.`, its value the pattern.
pub proof fn header_rule_adds_its_header(v: InviteView, w: RewriteRules, name: Seq<char>)
    requires
        w.headers@.len() == 1,
        w.from_user is None && w.from_host is None && w.to_user is None && w.to_host is None,
        w.caller is None && w.callee is None,
        w.headers@[0].0@ == "header."@ + name,
        !w.headers@[0].1@.contains('{'),
    ensures
        invite_rewritten(v, w) == Some(
            InviteView {
                headers: Some(
                    v.header_list().push(HeaderView::Other(name, w.headers@[0].1@)),
                ),
                ..v
            },
        ),
{
    reveal_strlit("header.");
    let key = w.headers@[0].0@;
    assert(key.take(7) =~= "header."@);
    assert(key.skip(7) =~= name);
    assert(w.headers@.drop_last() =~= Seq::empty());
    assert(headers_added(v.headers, w.headers@.drop_last()) == v.headers);
    assert(w.headers@.last() == w.headers@[0]);
}

/// A request that is sent to a trunk keeps its parties and goes to the trunk's
/// destination, over the transport that the trunk names. It carries the trunk's
/// credentials where the trunk has both a user and a password, and names the caller to
/// a trunk that has a user; else it keeps what it had.
pub proof fn request_goes_to_the_trunks_destination(v: InviteView, t: TrunkConfig)
    ensures
        sent_to_trunk(v, t) is Some <==> parsed_uri(t.dest@) is Some,
        sent_to_trunk(v, t) matches Some(r) ==> {
            let u = parsed_uri(t.dest@)->0;
            &&& r == (InviteView {
                destination: r.destination,
                credential: r.credential,
                headers: r.headers,
                ..v
            })
            &&& r.destination matches Some(d)
            &&& d.host == u.host
            &&& d.port == u.port
            &&& d.transport == (match t.transport {
                Some(n) => if unicode_lower(n@) == "udp"@ {
                    Some(Transport::Udp)
                } else if unicode_lower(n@) == "tcp"@ {
                    Some(Transport::Tcp)
                } else if unicode_lower(n@) == "tls"@ {
                    Some(Transport::Tls)
                } else if unicode_lower(n@) == "ws"@ {
                    Some(Transport::Ws)
                } else if unicode_lower(n@) == "wss"@ {
                    Some(Transport::Wss)
                } else {
                    None
                },
                None => None,
            })
            &&& t.username is Some && t.password is Some ==> r.credential == Some(
                CredentialView {
                    username: t.username->0@,
                    password: t.password->0@,
                    realm: Some(u.host),
                },
            )
            &&& t.username is None || t.password is None ==> r.credential == v.credential
            &&& t.username is None ==> r.headers == Some(v.header_list())
            &&& t.username is Some ==> r.headers == Some(
                v.header_list().push(
                    HeaderView::Other(
                        "P-Asserted-Identity"@,
                        seq!['<'] + v.caller.text() + seq!['>'],
                    ),
                ),
            )
        },
{
    reveal_strlit("<");
    reveal_strlit(">");
    assert("<"@ =~= seq!['<']);
    assert(">"@ =~= seq!['>']);
}

/// Whether a rule is passed over for a request: it is disabled, or its conditions do
/// not hold.
pub open spec fn is_passed_over(rule: RouteRule, m: MatchInput) -> bool {
    rule.disabled == Some(true) || conditions_hold(rule.match_conditions, m) == Some(false)
}

proof fn passed_over_rules_do_nothing(
    rules: Seq<RouteRule>,
    default: Option<&DefaultRoute>,
    trunks: Seq<TrunkConfig>,
    m: MatchInput,
    v: InviteView,
    counts: Map<Seq<Seq<char>>, u64>,
    picks: Seq<int>,
    k: int,
)
    requires
        0 <= k <= rules.len(),
        forall|j: int| 0 <= j < k ==> is_passed_over(#[trigger] rules[j], m),
    ensures
        rules_routed(rules, default, trunks, m, v, counts, picks) == rules_routed(
            rules.skip(k),
            default,
            trunks,
            m,
            v,
            counts,
            picks,
        ),
    decreases k,
{
    if k > 0 {
        assert(is_passed_over(rules[0], m));
        let rest = rules.drop_first();
        assert forall|j: int| 0 <= j < k - 1 implies is_passed_over(#[trigger] rest[j], m) by {
            assert(rest[j] == rules[j + 1]);
        }
        passed_over_rules_do_nothing(rest, default, trunks, m, v, counts, picks, k - 1);
        assert(rest.skip(k - 1) =~= rules.skip(k));
    } else {
        assert(rules.skip(0) =~= rules);
    }
}

proof fn trunk_is_found(trunks: Seq<TrunkConfig>, name: Seq<char>, i: int)
    requires
        0 <= i < trunks.len(),
        trunks[i].name@ == name,
        forall|j: int| 0 <= j < i ==> (#[trigger] trunks[j]).name@ != name,
    ensures
        trunk_named(trunks, name) == Some(trunks[i]),
    decreases i,
{
    if i > 0 {
        assert(trunks[0].name@ != name);
        let rest = trunks.drop_first();
        assert forall|j: int| 0 <= j < i - 1 implies (#[trigger] rest[j]).name@ != name by {
            assert(rest[j] == trunks[j + 1]);
        }
        trunk_is_found(rest, name, i - 1);
    }
}

/// The first rule that a request matches decides on it. One that forwards to a trunk
/// sends the request, rewritten as the rule says, to that trunk's destination and to no
/// other, with the parties that the rewrite leaves; no later rule and no default route
/// is tried, and nothing is counted.
pub proof fn first_matching_rule_forwards(
    rules: Seq<RouteRule>,
    default: Option<&DefaultRoute>,
    trunks: Seq<TrunkConfig>,
    m: MatchInput,
    v: InviteView,
    counts: Map<Seq<Seq<char>>, u64>,
    outcome: (Routed, Map<Seq<Seq<char>>, u64>),
    k: int,
    i: int,
    trunk: String,
)
    requires
        can_route(rules, default, trunks, m, v, counts, outcome),
        0 <= k < rules.len(),
        forall|j: int| 0 <= j < k ==> is_passed_over(#[trigger] rules[j], m),
        rules[k].disabled != Some(true),
        conditions_hold(rules[k].match_conditions, m) == Some(true),
        rules[k].action.action is Forward,
        rules[k].action.dest == Some(DestConfig::Single(trunk)),
        0 <= i < trunks.len(),
        trunks[i].name@ == trunk@,
        forall|j: int| 0 <= j < i ==> (#[trigger] trunks[j]).name@ != trunk@,
        parsed_uri(trunks[i].dest@) is Some,
        rules[k].rewrite matches Some(w) ==> invite_rewritten(v, w) is Some,
    ensures
        outcome.1 == counts,
        ({
            let u = parsed_uri(trunks[i].dest@)->0;
            let w = match rules[k].rewrite {
                Some(w) => invite_rewritten(v, w)->0,
                None => v,
            };
            &&& outcome.0 matches Routed::Forward(r)
            &&& r.destination matches Some(d)
            &&& d.host == u.host
            &&& d.port == u.port
            &&& r.caller == w.caller
            &&& r.callee == w.callee
        }),
{
    let picks = choose|picks: Seq<int>|
        outcome == #[trigger] rules_routed(rules, default, trunks, m, v, counts, picks);
    passed_over_rules_do_nothing(rules, default, trunks, m, v, counts, picks, k);
    assert(rules.skip(k)[0] == rules[k]);
    trunk_is_found(trunks, trunk@, i);
    let w = match rules[k].rewrite {
        Some(w) => invite_rewritten(v, w)->0,
        None => v,
    };
    request_goes_to_the_trunks_destination(w, trunks[i]);
}

/// The first rule that a request matches decides on it. One that refuses gives its own
/// code and reason, 403 where it has none; one that is busy gives 486. No later rule and
/// no default route is tried.
pub proof fn first_matching_rule_refuses(
    rules: Seq<RouteRule>,
    default: Option<&DefaultRoute>,
    trunks: Seq<TrunkConfig>,
    m: MatchInput,
    v: InviteView,
    counts: Map<Seq<Seq<char>>, u64>,
    outcome: (Routed, Map<Seq<Seq<char>>, u64>),
    k: int,
)
    requires
        can_route(rules, default, trunks, m, v, counts, outcome),
        0 <= k < rules.len(),
        forall|j: int| 0 <= j < k ==> is_passed_over(#[trigger] rules[j], m),
        rules[k].disabled != Some(true),
        conditions_hold(rules[k].match_conditions, m) == Some(true),
        rules[k].rewrite matches Some(w) ==> invite_rewritten(v, w) is Some,
    ensures
        rules[k].action.action is Busy ==> outcome == (Routed::Abort(486, "Busy Here"@), counts),
        rules[k].action.action is Reject ==> match rules[k].action.reject {
            None => outcome == (Routed::Abort(403, "Forbidden"@), counts),
            Some(c) => {
                &&& outcome.1 == counts
                &&& outcome.0 matches Routed::Abort(code, reason)
                &&& code == c.code
                &&& c.reason matches Some(t) ==> reason == t@
                &&& c.reason is None ==> {
                    &&& c.code == 403 ==> reason == "Forbidden"@
                    &&& c.code == 404 ==> reason == "Not Found"@
                    &&& c.code == 486 ==> reason == "Busy Here"@
                    &&& c.code != 403 && c.code != 404 && c.code != 486 ==> reason == "Rejected"@
                }
            },
        },
{
    let picks = choose|picks: Seq<int>|
        outcome == #[trigger] rules_routed(rules, default, trunks, m, v, counts, picks);
    passed_over_rules_do_nothing(rules, default, trunks, m, v, counts, picks, k);
    assert(rules.skip(k)[0] == rules[k]);
}

/// A request that no rule matches is sent to the default trunk, where there is one, and
/// else on as it is.
pub proof fn unmatched_request_takes_the_default_route(
    rules: Seq<RouteRule>,
    default: Option<&DefaultRoute>,
    trunks: Seq<TrunkConfig>,
    m: MatchInput,
    v: InviteView,
    counts: Map<Seq<Seq<char>>, u64>,
    outcome: (Routed, Map<Seq<Seq<char>>, u64>),
    i: int,
    trunk: String,
)
    requires
        can_route(rules, default, trunks, m, v, counts, outcome),
        forall|j: int| 0 <= j < rules.len() ==> is_passed_over(#[trigger] rules[j], m),
    ensures
        default is None ==> outcome == (Routed::Forward(v), counts),
        default matches Some(d) && d.dest == DestConfig::Single(trunk) ==> {
            &&& outcome.1 == counts
            &&& 0 <= i < trunks.len() && trunks[i].name@ == trunk@ && (forall|j: int|
                0 <= j < i ==> (#[trigger] trunks[j]).name@ != trunk@) && parsed_uri(
                trunks[i].dest@,
            ) is Some ==> {
                &&& outcome.0 matches Routed::Forward(r)
                &&& r.destination matches Some(a)
                &&& a.host == parsed_uri(trunks[i].dest@)->0.host
                &&& a.port == parsed_uri(trunks[i].dest@)->0.port
                &&& r.caller == v.caller
                &&& r.callee == v.callee
            }
            &&& (forall|j: int| 0 <= j < trunks.len() ==> (#[trigger] trunks[j]).name@ != trunk@)
                ==> outcome.0 == Routed::Forward(v)
        },
{
    let picks = choose|picks: Seq<int>|
        outcome == #[trigger] rules_routed(rules, default, trunks, m, v, counts, picks);
    let n = rules.len() as int;
    passed_over_rules_do_nothing(rules, default, trunks, m, v, counts, picks, n);
    assert(rules.skip(n) =~= Seq::empty());
    if 0 <= i < trunks.len() && trunks[i].name@ == trunk@ && (forall|j: int|
        0 <= j < i ==> (#[trigger] trunks[j]).name@ != trunk@) {
        trunk_is_found(trunks, trunk@, i);
        request_goes_to_the_trunks_destination(v, trunks[i]);
    }
    if forall|j: int| 0 <= j < trunks.len() ==> (#[trigger] trunks[j]).name@ != trunk@ {
        trunk_is_not_found(trunks, trunk@);
    }
}

proof fn trunk_is_not_found(trunks: Seq<TrunkConfig>, name: Seq<char>)
    requires
        forall|j: int| 0 <= j < trunks.len() ==> (#[trigger] trunks[j]).name@ != name,
    ensures
        trunk_named(trunks, name) is None,
    decreases trunks.len(),
{
    if trunks.len() > 0 {
        assert(trunks[0].name@ != name);
        let rest = trunks.drop_first();
        assert forall|j: int| 0 <= j < rest.len() implies (#[trigger] rest[j]).name@ != name by {
            assert(rest[j] == trunks[j + 1]);
        }
        trunk_is_not_found(rest, name);
    }
}

/// Calls with one caller go to one trunk where the trunk is chosen by the caller, calls
/// to one callee where it is chosen by the callee; the other party does not decide.
pub proof fn hashed_choice_follows_its_key(
    names: Seq<Seq<char>>,
    key: String,
    v: InviteView,
    w: InviteView,
    counts1: Map<Seq<Seq<char>>, u64>,
    counts2: Map<Seq<Seq<char>>, u64>,
    pick1: int,
    pick2: int,
)
    requires
        names.len() > 0,
    ensures
        key@ == "from.user"@ && v.caller.user == w.caller.user ==> chosen_trunk(
            names,
            "hash"@,
            Some(key),
            v,
            counts1,
            pick1,
        ).0 == chosen_trunk(names, "hash"@, Some(key), w, counts2, pick2).0,
        key@ == "to.user"@ && v.callee.user == w.callee.user ==> chosen_trunk(
            names,
            "hash"@,
            Some(key),
            v,
            counts1,
            pick1,
        ).0 == chosen_trunk(names, "hash"@, Some(key), w, counts2, pick2).0,
        v.caller == w.caller ==> chosen_trunk(names, "hash"@, None, v, counts1, pick1).0
            == chosen_trunk(names, "hash"@, None, w, counts2, pick2).0,
{
    reveal_strlit("from.user");
    reveal_strlit("to.user");
    assert("from.user"@.len() != "to.user"@.len());
    reveal_strlit("hash");
    reveal_strlit("random");
    assert("hash"@.len() != "random"@.len());
}

/// A list of trunks that was never chosen from begins with its first trunk, and choices
/// from one list do not change whose turn it is in another.
pub proof fn turns_begin_with_the_first_trunk(
    names: Seq<Seq<char>>,
    other: Seq<Seq<char>>,
    hash_key: Option<String>,
    v: InviteView,
    counts: Map<Seq<Seq<char>>, u64>,
    pick: int,
)
    requires
        names.len() > 0,
    ensures
        !counts.dom().contains(names) ==> chosen_trunk(names, "rr"@, hash_key, v, counts, pick).0
            == names[0],
        other != names ==> {
            let after = chosen_trunk(names, "rr"@, hash_key, v, counts, pick).1;
            &&& after.dom().contains(other) <==> counts.dom().contains(other)
            &&& counts.dom().contains(other) ==> after[other] == counts[other]
        },
{
    reveal_strlit("rr");
    reveal_strlit("hash");
    reveal_strlit("random");
    assert("rr"@.len() == 2);
    assert(0int % (names.len() as int) == 0) by (nonlinear_arith)
        requires
            names.len() > 0,
    ;
}

/// A trunk is found by its name where one has it.
pub proof fn trunk_is_known_by_name(trunks: Seq<TrunkConfig>, name: Seq<char>)
    ensures
        trunk_named(trunks, name) is Some <==> exists|i: int|
            0 <= i < trunks.len() && (#[trigger] trunks[i]).name@ == name,
        trunk_named(trunks, name) matches Some(t) ==> t.name@ == name && trunks.contains(t),
    decreases trunks.len(),
{
    if trunks.len() > 0 {
        let rest = trunks.drop_first();
        trunk_is_known_by_name(rest, name);
        if trunks[0].name@ != name {
            if trunk_named(rest, name) is Some {
                let i = choose|i: int| 0 <= i < rest.len() && (#[trigger] rest[i]).name@ == name;
                assert(trunks[i + 1].name@ == name);
                let t = trunk_named(rest, name)->0;
                let k = choose|k: int| 0 <= k < rest.len() && rest[k] == t;
                assert(trunks[k + 1] == t);
            }
            if exists|i: int| 0 <= i < trunks.len() && (#[trigger] trunks[i]).name@ == name {
                let i = choose|i: int| 0 <= i < trunks.len() && (#[trigger] trunks[i]).name@ == name;
                assert(rest[i - 1].name@ == name);
            }
        }
    }
}

proof fn braces_are_found(a: Seq<char>, c: Seq<char>, b: Seq<char>)
    requires
        !a.contains('{') && !a.contains('}'),
        !c.contains('}'),
    ensures
        ({
            let p = a + seq!['{'] + c + seq!['}'] + b;
            &&& p.contains('{') && p.contains('}')
            &&& brace_prefix(p) == a
            &&& brace_content(p) == c
            &&& brace_suffix(p) == b
        }),
{
    let p = a + seq!['{'] + c + seq!['}'] + b;
    let n = a.len() as int;
    let m = n + 1 + c.len();
    first_index_facts(p, '{');
    first_index_facts(p, '}');
    assert(p[n] == '{' && p[m] == '}');
    assert forall|k: int| 0 <= k < n implies p[k] != '{' && p[k] != '}' by {
        assert(p[k] == a[k]);
        assert(a.contains(a[k]));
    }
    assert forall|k: int| n < k < m implies p[k] != '}' by {
        assert(p[k] == c[k - n - 1]);
        assert(c.contains(c[k - n - 1]));
    }
    assert(first_index(p, '{') == n);
    assert(first_index(p, '}') == m);
    assert(brace_prefix(p) =~= a);
    assert(brace_content(p) =~= c);
    assert(brace_suffix(p) =~= b);
}

/// The patterns that a number is read with, the first of which decides: a Chinese mobile
/// number, a US number, any number, and a number between other text.
pub open spec fn number_patterns() -> Seq<Seq<char>> {
    seq![
        "^\\+86(1\\d{10})$"@,
        "^\\+1(\\d{10})$"@,
        "^(\\d+)$"@,
        "^[^\\d]*(\\d+)[^\\d]*$"@,
    ]
}

/// Whether pattern `k` is the first of the number patterns that a value matches, with
/// these groups.
pub open spec fn is_read_by(original: Seq<char>, k: int, groups: Seq<Option<Seq<char>>>) -> bool {
    &&& 0 <= k < 4
    &&& regex_groups(number_patterns()[k], original) == Some(Some(groups))
    &&& forall|j: int|
        0 <= j < k ==> regex_groups(#[trigger] number_patterns()[j], original)
            == Some(None::<Seq<Option<Seq<char>>>>)
}

/// The braces of a pattern stand for what the group with their number captured, by the
/// first number pattern that the value matches. Around them the pattern stays.
pub proof fn braces_stand_for_the_captured_group(
    a: Seq<char>,
    n: usize,
    b: Seq<char>,
    original: Seq<char>,
    k: int,
    groups: Seq<Option<Seq<char>>>,
    x: Seq<char>,
)
    requires
        !a.contains('{') && !a.contains('}'),
        is_read_by(original, k, groups),
        0 < n < groups.len(),
        groups[n as int] == Some(x),
    ensures
        rewritten(a + seq!['{'] + decimal(n as nat) + seq!['}'] + b, original) == a + x + b,
{
    written_number_lacks_others(n as nat, '}');
    written_number_is_read_back(n as nat, usize::MAX as nat);
    braces_are_found(a, decimal(n as nat), b);
    let p = number_patterns();
    assert(p[0] == number_pattern(0).0);
    assert(p[1] == number_pattern(1).0);
    assert(p[2] == number_pattern(2).0);
    assert(p[3] == number_pattern(3).0);
    assert(k > 0 ==> number_group(0, original, n as nat) is None);
    assert(k > 1 ==> number_group(1, original, n as nat) is None);
    assert(k > 2 ==> number_group(2, original, n as nat) is None);
    assert(number_group(k, original, n as nat) == Some(x));
}

/// Where a value is no number by any pattern, the braces stand for its digits.
pub proof fn braces_stand_for_the_digits(a: Seq<char>, n: usize, b: Seq<char>, original: Seq<char>)
    requires
        !a.contains('{') && !a.contains('}'),
        forall|j: int|
            0 <= j < 4 ==> regex_groups(#[trigger] number_patterns()[j], original)
                == Some(None::<Seq<Option<Seq<char>>>>),
    ensures
        rewritten(a + seq!['{'] + decimal(n as nat) + seq!['}'] + b, original) == a + original.filter(
            |c: char| '0' <= c && c <= '9',
        ) + b,
{
    written_number_lacks_others(n as nat, '}');
    written_number_is_read_back(n as nat, usize::MAX as nat);
    braces_are_found(a, decimal(n as nat), b);
    let p = number_patterns();
    assert(p[0] == number_pattern(0).0);
    assert(p[1] == number_pattern(1).0);
    assert(p[2] == number_pattern(2).0);
    assert(p[3] == number_pattern(3).0);
    digits_are_those_from_zero_to_nine(original);
}

proof fn digits_are_those_from_zero_to_nine(s: Seq<char>)
    ensures
        digits_of(s) == s.filter(|c: char| '0' <= c && c <= '9'),
    decreases s.len(),
{
    reveal(Seq::filter);
    if s.len() > 0 {
        digits_are_those_from_zero_to_nine(s.drop_last());
    }
}

/// A pattern without a number in braces is the new value itself, whatever the old one is.
pub proof fn pattern_without_a_number_is_the_value(pattern: Seq<char>, original: Seq<char>)
    requires
        !pattern.contains('{') || !pattern.contains('}'),
    ensures
        rewritten(pattern, original) == pattern,
        substituted(pattern, original) == pattern,
{
}

/// In a header the braces stand for the text that they are filled with.
pub proof fn header_braces_are_filled(a: Seq<char>, c: Seq<char>, b: Seq<char>, text: Seq<char>)
    requires
        !a.contains('{') && !a.contains('}'),
        !c.contains('}'),
    ensures
        substituted(a + seq!['{'] + c + seq!['}'] + b, text) == a + text + b,
{
    braces_are_found(a, c, b);
}

/// A refusal has the code and the reason of its rule; without a rule it is 403, and
/// without a reason it says what its code means.
pub proof fn refusal_has_its_code_and_reason(reject: Option<RejectConfig>)
    ensures
        reject is None ==> refusal(reject).0 == 403,
        reject matches Some(c) ==> refusal(reject).0 == c.code,
        reject matches Some(c) ==> (c.reason matches Some(t) ==> refusal(reject).1 == t@),
        reject matches Some(c) ==> c.reason is None ==> {
            &&& c.code == 403 ==> refusal(reject).1 == "Forbidden"@
            &&& c.code == 404 ==> refusal(reject).1 == "Not Found"@
            &&& c.code == 486 ==> refusal(reject).1 == "Busy Here"@
            &&& c.code != 403 && c.code != 404 && c.code != 486 ==> refusal(reject).1 == "Rejected"@
        },
{
}

/// A transport is known by its name in any case.
pub proof fn transports_are_known_by_their_names(name: Seq<char>)
    ensures
        transport_named(name) == Some(Transport::Udp) <==> unicode_lower(name) == "udp"@,
        transport_named(name) == Some(Transport::Tcp) <==> unicode_lower(name) == "tcp"@,
        transport_named(name) == Some(Transport::Tls) <==> unicode_lower(name) == "tls"@,
        transport_named(name) == Some(Transport::Ws) <==> unicode_lower(name) == "ws"@,
        transport_named(name) == Some(Transport::Wss) <==> unicode_lower(name) == "wss"@,
{
    reveal_strlit("udp");
    reveal_strlit("tcp");
    reveal_strlit("tls");
    reveal_strlit("ws");
    reveal_strlit("wss");
    assert("udp"@[0] == 'u' && "tcp"@[0] == 't' && "tls"@[0] == 't' && "tcp"@[1] == 'c' && "tls"@[1]
        == 'l');
    assert("ws"@.len() == 2 && "wss"@[0] == 'w' && "wss"@.len() == 3);
}

/// A rewrite reads the part that it writes: a rule for a user the user of its party, one
/// for a host the host, and one for a party its user and host together.
pub proof fn rewrite_reads_its_own_part(v: InviteView, w: RewriteRules, p: String)
    ensures
        rewrites_nothing(RewriteRules { from_user: None, ..w }) && w.from_user == Some(p) ==> (
        invite_rewritten(v, w) matches Some(r) && r.callee == v.callee && r.caller.user == Some(
            rewritten(p@, v.caller.user_text()),
        ) && r.caller.host == v.caller.host),
        rewrites_nothing(RewriteRules { to_user: None, ..w }) && w.to_user == Some(p) ==> (
        invite_rewritten(v, w) matches Some(r) && r.caller == v.caller && r.callee.user == Some(
            rewritten(p@, v.callee.user_text()),
        ) && r.callee.host == v.callee.host),
        rewrites_nothing(RewriteRules { from_host: None, ..w }) && w.from_host == Some(p) ==> (
        parsed_host_port(rewritten(p@, v.caller.host)) matches Some((host, port)) ==> (invite_rewritten(
            v,
            w,
        ) matches Some(r) && r.caller.host == host && r.caller.port == port && r.caller.user
            == v.caller.user)),
        rewrites_nothing(RewriteRules { to_host: None, ..w }) && w.to_host == Some(p) ==> (
        parsed_host_port(rewritten(p@, v.callee.host)) matches Some((host, port)) ==> (invite_rewritten(
            v,
            w,
        ) matches Some(r) && r.callee.host == host && r.callee.port == port && r.callee.user
            == v.callee.user)),
        rewrites_nothing(RewriteRules { callee: None, ..w }) && w.callee == Some(p) && after(
            rewritten(p@, v.callee.user_text() + seq!['@'] + v.callee.host),
            '@',
        ) is None ==> invite_rewritten(v, w) == Some(v),
        rewrites_nothing(RewriteRules { callee: None, ..w }) && w.callee == Some(p) && after(
            rewritten(p@, v.callee.user_text() + seq!['@'] + v.callee.host),
            '@',
        ) is Some ==> (invite_rewritten(v, w) matches Some(r) ==> r.callee.user == Some(
            before(rewritten(p@, v.callee.user_text() + seq!['@'] + v.callee.host), '@'),
        ) && r.caller == v.caller),
{
    assert(v.callee.user_at_host() =~= v.callee.user_text() + seq!['@'] + v.callee.host);
}

} // verus!
