//! Where registered users are reached: the bindings of addresses of record and
//! their lookup.
use std::cmp::Ordering;
use vstd::prelude::*;
use crate::host::{is_local_ip, local_ip};
use crate::model::Location;
use crate::sip::{SipAddr, Uri};
use crate::text::{
    after, before, chars_of, contains_char, decimal, ends_with, eq_ignoring_case, find_char,
    first_index, first_index_facts, has_suffix, is_white, join3, lower, lower_char, opt_text, own,
    same, same_ignoring_case, same_opt, split_first, string_of, text_is_parted_at_the_first,
    text_without_white_ends_is_trimmed, to_lower, trim, trimmed, trimmed_is_stable,
    written_number_has_digits_only, written_number_lacks_others,
};


verus! {

/// The host of `host:port`, `[host]:port` or a bare host.
pub open spec fn bare_host(s: Seq<char>) -> Seq<char> {
    let t = trimmed(s);
    if t.len() > 0 && t[0] == '[' && t.contains(']') {
        t.subrange(1, first_index(t, ']'))
    } else if after(t, ':') matches Some(rest) && rest.contains(':') {
        t
    } else {
        before(t, ':')
    }
}

/// The host of `host:port`, `[host]:port` or a bare host. A host with more than
/// one colon and without brackets is an IPv6 address and has no port.
pub fn host_without_port(value: &str) -> (r: String)
    ensures
        r@ == bare_host(value@),
{
    let t = trim(value);
    let v = chars_of(t.as_str());
    if v.len() > 0 && v[0] == '[' {
        let end = find_char(&v, ']');
        proof {
            first_index_facts(t@, ']');
        }
        if end < v.len() {
            assert(end != 0);
            return string_of(&v, 1, end);
        }
    }
    proof {
        first_index_facts(t@, ']');
    }
    let parts = split_first(t.as_str(), ':');
    if let Some(rest) = &parts.1 {
        if contains_char(rest.as_str(), ':') {
            return t;
        }
    }
    parts.0
}

/// The hosts that are local by name.
pub open spec fn local_name(host: Seq<char>) -> bool {
    ||| host == "localhost"@
    ||| host == "127.0.0.1"@
    ||| host == "0.0.0.0"@
    ||| host == "::1"@
}

/// Whether a realm is this host or one of a private network.
pub open spec fn local_realm(realm: Seq<char>) -> bool {
    trimmed(realm).len() > 0 && (local_name(lower(bare_host(realm))) || local_ip(bare_host(realm)))
}

/// Whether a realm is this host or one of a private network.
pub fn is_local_realm(realm: &str) -> (r: bool)
    ensures
        r == local_realm(realm@),
{
    if trim(realm).as_str().is_empty() {
        return false;
    }
    let host = host_without_port(realm);
    let name = to_lower(host.as_str());
    let n = name.as_str();
    if same(n, "localhost") || same(n, "127.0.0.1") || same(n, "0.0.0.0") || same(n, "::1") {
        return true;
    }
    is_local_ip(host.as_str())
}

/// What decides which realms a locator serves itself.
pub trait RealmChecker {
    spec fn serves(&self, realm: Seq<char>) -> bool;

    fn is_local_realm(&self, realm: &str) -> (r: bool)
        ensures
            r == self.serves(realm@),
    ;
}

/// The realms that a locator serves where no other rule is set.
pub struct LocalRealms;

impl RealmChecker for LocalRealms {
    open spec fn serves(&self, realm: Seq<char>) -> bool {
        local_realm(realm)
    }

    fn is_local_realm(&self, realm: &str) -> (r: bool) {
        is_local_realm(realm)
    }
}

/// The first answer that was given for a realm.
pub open spec fn answer_for(answers: Seq<(String, bool)>, realm: Seq<char>) -> Option<bool>
    decreases answers.len(),
{
    if answers.len() == 0 {
        None
    } else if answers[0].0@ == realm {
        Some(answers[0].1)
    } else {
        answer_for(answers.drop_first(), realm)
    }
}

/// The realms of a locator with a rule of its own: what the rule answered for the
/// realms that it was asked about; all others are as where no rule is set.
#[derive(Clone, Debug)]
pub struct AnsweredRealms {
    pub answers: Vec<(String, bool)>,
}

impl RealmChecker for AnsweredRealms {
    open spec fn serves(&self, realm: Seq<char>) -> bool {
        match answer_for(self.answers@, realm) {
            Some(b) => b,
            None => local_realm(realm),
        }
    }

    fn is_local_realm(&self, realm: &str) -> (r: bool) {
        let mut i: usize = 0;
        assert(self.answers@.skip(0) =~= self.answers@);
        while i < self.answers.len()
            invariant
                i <= self.answers.len(),
                answer_for(self.answers@.skip(i as int), realm@) == answer_for(
                    self.answers@,
                    realm@,
                ),
            decreases self.answers.len() - i,
        {
            assert(self.answers@.skip(i as int)[0] == self.answers@[i as int]);
            assert(self.answers@.skip(i as int).drop_first() =~= self.answers@.skip(i + 1));
            if same(self.answers[i].0.as_str(), realm) {
                return self.answers[i].1;
            }
            i += 1;
        }
        assert(self.answers@.skip(i as int) =~= Seq::empty());
        is_local_realm(realm)
    }
}

/// The text under which the bindings of a user are kept: empty without a user;
/// all local realms are one.
pub open spec fn identifier<R: RealmChecker>(user: Seq<char>, realm: Option<Seq<char>>, realms: &R) -> Seq<char> {
    let name = lower(trimmed(user));
    let known = match realm {
        Some(r) => if trimmed(r).len() > 0 {
            Some(
                if realms.serves(trimmed(r)) {
                    "localhost"@
                } else {
                    lower(trimmed(r))
                },
            )
        } else {
            None
        },
        None => None,
    };
    match known {
        _ if name.len() == 0 => Seq::empty(),
        Some(r) => name + "@"@ + r,
        None => name,
    }
}

/// The text under which the bindings of a user are kept, see [`identifier`].
pub fn get_identifier<R: RealmChecker>(user: &str, realm: Option<&str>, realms: &R) -> (r: String)
    ensures
        r@ == identifier(
            user@,
            match realm {
                Some(s) => Some(s@),
                None => None,
            },
            realms,
        ),
{
    let name = to_lower(trim(user).as_str());
    let known = match realm {
        Some(r) => {
            let t = trim(r);
            if t.as_str().is_empty() {
                None
            } else if realms.is_local_realm(t.as_str()) {
                Some(own("localhost"))
            } else {
                Some(to_lower(t.as_str()))
            }
        },
        None => None,
    };
    if name.as_str().is_empty() {
        return String::new();
    }
    match known {
        Some(r) => join3(name.as_str(), "@", r.as_str()),
        None => name,
    }
}

/// Whether `a` was modified more recently than `b`.
pub open spec fn more_recent(a: Location, b: Location) -> bool {
    match (a.last_modified, b.last_modified) {
        (Some(x), Some(y)) => x > y,
        (Some(_), None) => true,
        _ => false,
    }
}

/// Orders bindings by recency: the most recently modified first, those that
/// were never modified last.
pub fn compare_location_recency(a: &Location, b: &Location) -> (r: Ordering)
    ensures
        r is Less <==> more_recent(*a, *b),
        r is Greater <==> more_recent(*b, *a),
{
    match (a.last_modified, b.last_modified) {
        (Some(x), Some(y)) => if y < x {
            Ordering::Less
        } else if x < y {
            Ordering::Greater
        } else {
            Ordering::Equal
        },
        (Some(_), None) => Ordering::Less,
        (None, Some(_)) => Ordering::Greater,
        (None, None) => Ordering::Equal,
    }
}

fn is_more_recent(a: &Location, b: &Location) -> (r: bool)
    ensures
        r == more_recent(*a, *b),
{
    matches!(compare_location_recency(a, b), Ordering::Less)
}

/// An ordered list with one more binding, put behind all that are not older.
pub open spec fn placed(sorted: Seq<Location>, x: Location) -> Seq<Location>
    decreases sorted.len(),
{
    if sorted.len() > 0 && more_recent(x, sorted.last()) {
        placed(sorted.drop_last(), x).push(sorted.last())
    } else {
        sorted.push(x)
    }
}

/// The bindings by recency; those that are equally recent keep their order.
pub open spec fn by_recency(s: Seq<Location>) -> Seq<Location>
    decreases s.len(),
{
    if s.len() == 0 {
        Seq::empty()
    } else {
        placed(by_recency(s.drop_last()), s.last())
    }
}

/// Whether a list holds a binding with this key.
pub open spec fn has_binding(s: Seq<Location>, key: Seq<char>) -> bool {
    exists|i: int| 0 <= i < s.len() && (#[trigger] s[i]).binding@ == key
}

/// The list without the bindings whose key occurs before them.
pub open spec fn distinct(s: Seq<Location>) -> Seq<Location>
    decreases s.len(),
{
    if s.len() == 0 {
        Seq::empty()
    } else {
        let rest = distinct(s.drop_last());
        if has_binding(rest, s.last().binding@) {
            rest
        } else {
            rest.push(s.last())
        }
    }
}

fn place(sorted: &mut Vec<Location>, x: Location)
    ensures
        final(sorted)@ == placed(old(sorted)@, x),
{
    let ghost s = sorted@;
    let mut k: usize = sorted.len();
    assert(s.take(k as int) =~= s);
    assert(s.skip(k as int) =~= Seq::empty());
    assert(placed(s.take(k as int), x) + s.skip(k as int) =~= placed(s, x));
    while k > 0 && is_more_recent(&x, &sorted[k - 1])
        invariant
            k <= sorted.len(),
            sorted@ == s,
            placed(s.take(k as int), x) + s.skip(k as int) == placed(s, x),
        decreases k,
    {
        assert(s.take(k as int).drop_last() =~= s.take(k - 1));
        assert(s.take(k as int).last() == s[k - 1]);
        assert(placed(s.take(k as int), x) + s.skip(k as int) =~= placed(s.take(k - 1), x) + s.skip(
            k - 1,
        ));
        k -= 1;
    }
    assert(k > 0 ==> s.take(k as int).last() == s[k - 1]);
    assert(placed(s.take(k as int), x) =~= s.take(k as int).push(x));
    sorted.insert(k, x);
    assert(sorted@ =~= s.take(k as int).push(x) + s.skip(k as int));
}

fn contains_binding(s: &Vec<Location>, key: &str) -> (r: bool)
    ensures
        r == has_binding(s@, key@),
{
    let mut i: usize = 0;
    while i < s.len()
        invariant
            i <= s.len(),
            forall|j: int| 0 <= j < i ==> (#[trigger] s@[j]).binding@ != key@,
        decreases s.len() - i,
    {
        if same(s[i].binding.as_str(), key) {
            assert(s@[i as int].binding@ == key@);
            return true;
        }
        i += 1;
    }
    false
}

/// The bindings by recency, each key once, as its most recent binding.
pub fn sort_locations_by_recency(locations: Vec<Location>) -> (r: Vec<Location>)
    ensures
        r@ == distinct(by_recency(locations@)),
{
    let mut sorted: Vec<Location> = Vec::new();
    let mut i: usize = 0;
    assert(locations@.take(0) =~= Seq::empty());
    while i < locations.len()
        invariant
            i <= locations.len(),
            sorted@ == by_recency(locations@.take(i as int)),
        decreases locations.len() - i,
    {
        assert(locations@.take(i + 1).drop_last() =~= locations@.take(i as int));
        assert(locations@.take(i + 1).last() == locations@[i as int]);
        place(&mut sorted, locations[i].copy());
        i += 1;
    }
    assert(locations@.take(i as int) =~= locations@);
    let mut out: Vec<Location> = Vec::new();
    let mut j: usize = 0;
    assert(sorted@.take(0) =~= Seq::empty());
    while j < sorted.len()
        invariant
            j <= sorted.len(),
            out@ == distinct(sorted@.take(j as int)),
        decreases sorted.len() - j,
    {
        assert(sorted@.take(j + 1).drop_last() =~= sorted@.take(j as int));
        assert(sorted@.take(j + 1).last() == sorted@[j as int]);
        if !contains_binding(&out, sorted[j].binding.as_str()) {
            out.push(sorted[j].copy());
        }
        j += 1;
    }
    assert(sorted@.take(j as int) =~= sorted@);
    out
}

/// Whether a realm that was asked for is the realm of a candidate: any is where
/// none was asked for, all that are served here are one, and others are compared
/// by host.
pub open spec fn same_realm<R: RealmChecker>(requested: Seq<char>, candidate: Seq<char>, realms: &R) -> bool {
    let r = trimmed(requested);
    let c = trimmed(candidate);
    ||| r.len() == 0
    ||| realms.serves(r) && realms.serves(c)
    ||| lower(bare_host(r)) == lower(bare_host(c))
}

/// See [`same_realm`].
pub fn realm_matches<R: RealmChecker>(realms: &R, requested_realm: &str, candidate_realm: &str) -> (r: bool)
    ensures
        r == same_realm(requested_realm@, candidate_realm@, realms),
{
    let requested = trim(requested_realm);
    if requested.as_str().is_empty() {
        return true;
    }
    let candidate = trim(candidate_realm);
    if realms.is_local_realm(requested.as_str()) && realms.is_local_realm(candidate.as_str()) {
        return true;
    }
    let a = to_lower(host_without_port(requested.as_str()).as_str());
    let b = to_lower(host_without_port(candidate.as_str()).as_str());
    a == b
}

/// Whether two URIs mean the same: they are written alike up to case, or have
/// one user and hosts that are both local, or that are one host of a domain
/// without addresses.
pub open spec fn same_uri(a: Uri, b: Uri) -> bool {
    ||| opt_text(a.user) == opt_text(b.user) && (local_realm(a.host@) && local_realm(b.host@) || (
    has_suffix(a.host@, ".invalid"@) || has_suffix(b.host@, ".invalid"@)) && same_ignoring_case(
        a.host@,
        b.host@,
    ))
    ||| same_ignoring_case(a.text(), b.text())
}

/// See [`same_uri`].
pub fn uri_matches(a: &Uri, b: &Uri) -> (r: bool)
    ensures
        r == same_uri(*a, *b),
{
    if same_opt(&a.user, &b.user) {
        if is_local_realm(a.host.as_str()) && is_local_realm(b.host.as_str()) {
            return true;
        }
        if (ends_with(a.host.as_str(), ".invalid") || ends_with(b.host.as_str(), ".invalid"))
            && eq_ignoring_case(a.host.as_str(), b.host.as_str()) {
            return true;
        }
    }
    eq_ignoring_case(a.to_text().as_str(), b.to_text().as_str())
}

/// A URI matches itself, and what it matches matches it.
pub proof fn uri_matching_is_symmetric(a: Uri, b: Uri)
    ensures
        same_uri(a, a),
        same_uri(a, b) == same_uri(b, a),
{
}

/// A change of the bindings that observers are told of.
#[derive(Debug)]
pub enum LocatorEvent {
    Registered(Location),
    Unregistered(Location),
    Offline(Vec<Location>),
}

/// A binding with the identifier of its user.
#[derive(Debug)]
pub struct Binding {
    pub identifier: String,
    pub location: Location,
}

/// Whether a binding is the one of a user with a key.
pub open spec fn is_binding(b: Binding, id: Seq<char>, key: Seq<char>) -> bool {
    b.identifier@ == id && b.location.binding@ == key
}

/// The bindings without the one of a user with a key.
pub open spec fn without(s: Seq<Binding>, id: Seq<char>, key: Seq<char>) -> Seq<Binding> {
    s.filter(|b: Binding| !is_binding(b, id, key))
}

/// Whether a binding is one of a user.
pub open spec fn of_user(b: Binding, id: Seq<char>) -> bool {
    b.identifier@ == id
}

/// The bindings of all other users.
pub open spec fn without_user(s: Seq<Binding>, id: Seq<char>) -> Seq<Binding> {
    s.filter(|b: Binding| !of_user(b, id))
}

/// The locations of bindings.
pub open spec fn locations_of(s: Seq<Binding>) -> Seq<Location> {
    s.map_values(|b: Binding| b.location)
}

/// The bindings that have not lapsed.
pub open spec fn live(s: Seq<Binding>, now: u64) -> Seq<Binding> {
    s.filter(|b: Binding| !b.location.expired_at(now))
}

/// Whether a URI names a binding itself: by its contact, its registered address
/// or its GRUU.
pub open spec fn direct_hit(l: Location, uri: Uri) -> bool {
    ||| same_uri(l.aor, uri)
    ||| (l.registered_aor matches Some(r) && same_uri(r, uri))
    ||| (l.gruu matches Some(g) && same_ignoring_case(g@, uri.text()))
}

/// Whether an address has a user (in lower case) and a realm.
pub open spec fn user_and_realm<R: RealmChecker>(a: Uri, user: Seq<char>, realm: Seq<char>, realms: &R) -> bool {
    (a.user matches Some(u) && same_ignoring_case(trimmed(u@), user)) && same_realm(
        realm,
        trimmed(a.host@),
        realms,
    )
}

/// Whether a binding is of a user and realm by its registered address or its
/// contact.
pub open spec fn user_hit<R: RealmChecker>(l: Location, user: Seq<char>, realm: Seq<char>, realms: &R) -> bool {
    ||| (l.registered_aor matches Some(r) && user_and_realm(r, user, realm, realms))
    ||| user_and_realm(l.aor, user, realm, realms)
}

/// The locations of the bindings that fulfil a condition.
pub open spec fn hits(s: Seq<Binding>, f: spec_fn(Binding) -> bool) -> Seq<Location> {
    locations_of(s.filter(f))
}

/// The bindings of an identifier.
pub open spec fn of_identifier(s: Seq<Binding>, id: Seq<char>) -> Seq<Location> {
    hits(s, |b: Binding| of_user(b, id))
}

/// The bindings that a URI finds by its user: those kept under the user and
/// realm, else under the user and the local realm, else under the user alone,
/// else those whose addresses have the user and the realm.
pub open spec fn by_user<R: RealmChecker>(s: Seq<Binding>, uri: Uri, realms: &R) -> Seq<Location> {
    let user = trimmed(uri.user_text());
    let realm = trimmed(uri.host@);
    let first = of_identifier(s, identifier(user, Some(realm), realms));
    let second = of_identifier(s, identifier(user, Some("localhost"@), realms));
    let third = of_identifier(s, identifier(user, None, realms));
    if user.len() == 0 {
        Seq::empty()
    } else if realm.len() > 0 && first.len() > 0 {
        first
    } else if second.len() > 0 {
        second
    } else if third.len() > 0 {
        third
    } else {
        hits(s, |b: Binding| user_hit(b.location, lower(user), realm, realms))
    }
}

/// The bindings that a URI finds: those that it names itself, else those of its
/// user.
pub open spec fn found<R: RealmChecker>(s: Seq<Binding>, uri: Uri, realms: &R) -> Seq<Location> {
    let direct = hits(s, |b: Binding| direct_hit(b.location, uri));
    if direct.len() > 0 {
        direct
    } else {
        by_user(s, uri, realms)
    }
}

/// A binding as it is kept: one that does not say when it was modified was so `now`.
pub open spec fn kept(location: Location, now: u64) -> Location {
    Location {
        last_modified: if location.last_modified is None {
            Some(now)
        } else {
            location.last_modified
        },
        ..location
    }
}

/// Whether registering a binding of a user leads from one list of bindings to another:
/// it stands in place of the one with its key, unless it expires at once.
pub open spec fn registered<R: RealmChecker>(
    before: Seq<Binding>,
    after: Seq<Binding>,
    username: Seq<char>,
    realm: Option<Seq<char>>,
    location: Location,
    now: u64,
    realms: &R,
) -> bool {
    let id = identifier(username, realm, realms);
    let rest = without(before, id, location.binding@);
    if id.len() == 0 {
        after == before
    } else if location.expires == 0 {
        after == rest
    } else {
        &&& after.len() == rest.len() + 1
        &&& after.drop_last() == rest
        &&& after.last().identifier@ == id
        &&& after.last().location == kept(location, now)
    }
}

/// Whether taking out all bindings of a user leads from one list of bindings to another.
pub open spec fn unregistered<R: RealmChecker>(
    before: Seq<Binding>,
    after: Seq<Binding>,
    username: Seq<char>,
    realm: Option<Seq<char>>,
    realms: &R,
) -> bool {
    after == without_user(before, identifier(username, realm, realms))
}

/// The bindings of all users, kept in memory.
#[derive(Debug)]
pub struct MemoryLocator {
    pub bindings: Vec<Binding>,
}

fn matches_direct(l: &Location, uri: &Uri) -> (r: bool)
    ensures
        r == direct_hit(*l, *uri),
{
    if uri_matches(&l.aor, uri) {
        return true;
    }
    if let Some(registered) = &l.registered_aor {
        if uri_matches(registered, uri) {
            return true;
        }
    }
    match &l.gruu {
        Some(g) => eq_ignoring_case(g.as_str(), uri.to_text().as_str()),
        None => false,
    }
}

fn matches_user_and_realm<R: RealmChecker>(a: &Uri, user: &str, realm: &str, realms: &R) -> (r: bool)
    ensures
        r == user_and_realm(*a, user@, realm@, realms),
{
    let user_match = match &a.user {
        Some(u) => eq_ignoring_case(trim(u.as_str()).as_str(), user),
        None => false,
    };
    user_match && realm_matches(realms, realm, trim(a.host.as_str()).as_str())
}

fn matches_user<R: RealmChecker>(l: &Location, user: &str, realm: &str, realms: &R) -> (r: bool)
    ensures
        r == user_hit(*l, user@, realm@, realms),
{
    if let Some(registered) = &l.registered_aor {
        if matches_user_and_realm(registered, user, realm, realms) {
            return true;
        }
    }
    matches_user_and_realm(&l.aor, user, realm, realms)
}

proof fn filter_step(s: Seq<Binding>, f: spec_fn(Binding) -> bool, i: int)
    requires
        0 <= i < s.len(),
    ensures
        s.take(i + 1).filter(f) == (if f(s[i]) {
            s.take(i).filter(f).push(s[i])
        } else {
            s.take(i).filter(f)
        }),
        hits(s.take(i + 1), f) == (if f(s[i]) {
            hits(s.take(i), f).push(s[i].location)
        } else {
            hits(s.take(i), f)
        }),
{
    reveal(Seq::filter);
    assert(s.take(i + 1).drop_last() =~= s.take(i));
    assert(s.take(i + 1).last() == s[i]);
    if f(s[i]) {
        assert(locations_of(s.take(i).filter(f).push(s[i])) =~= locations_of(
            s.take(i).filter(f),
        ).push(s[i].location));
    }
}

proof fn filter_start(s: Seq<Binding>, f: spec_fn(Binding) -> bool)
    ensures
        s.take(0).filter(f) == Seq::<Binding>::empty(),
        hits(s.take(0), f) == Seq::<Location>::empty(),
        s.take(s.len() as int) == s,
{
    reveal(Seq::filter);
    assert(s.take(0) =~= Seq::empty());
    assert(s.take(s.len() as int) =~= s);
    assert(hits(s.take(0), f) =~= Seq::<Location>::empty());
}

impl Binding {
    fn copy(&self) -> (r: Binding)
        ensures
            r == *self,
    {
        Binding { identifier: self.identifier.clone(), location: self.location.copy() }
    }
}

impl MemoryLocator {
    /// A locator without bindings.
    pub fn new() -> (r: MemoryLocator)
        ensures
            r.bindings@ == Seq::<Binding>::empty(),
    {
        MemoryLocator { bindings: Vec::new() }
    }

    fn remove_binding(&mut self, id: &str, key: &str)
        ensures
            final(self).bindings@ == without(old(self).bindings@, id@, key@),
    {
        let ghost f = |b: Binding| !is_binding(b, id@, key@);
        let mut kept: Vec<Binding> = Vec::new();
        let mut i: usize = 0;
        proof {
            filter_start(self.bindings@, f);
        }
        while i < self.bindings.len()
            invariant
                i <= self.bindings.len(),
                *self == *old(self),
                f == (|b: Binding| !is_binding(b, id@, key@)),
                kept@ == self.bindings@.take(i as int).filter(f),
            decreases self.bindings.len() - i,
        {
            proof {
                filter_step(self.bindings@, f, i as int);
            }
            let b = &self.bindings[i];
            if !(same(b.identifier.as_str(), id) && same(b.location.binding.as_str(), key)) {
                kept.push(b.copy());
            }
            i += 1;
        }
        assert(self.bindings@.take(i as int) =~= self.bindings@);
        self.bindings = kept;
    }

    /// Enters a binding of a user in place of the one with its key; one that
    /// expires at once is taken out instead. Without a user nothing happens.
    pub fn register<R: RealmChecker>(
        &mut self,
        username: &str,
        realm: Option<&str>,
        location: Location,
        now: u64,
        realms: &R,
    )
        ensures
            registered(
                old(self).bindings@,
                final(self).bindings@,
                username@,
                match realm {
                    Some(s) => Some(s@),
                    None => None,
                },
                location,
                now,
                realms,
            ),
    {
        let id = get_identifier(username, realm, realms);
        if id.as_str().is_empty() {
            return;
        }
        self.remove_binding(id.as_str(), location.binding.as_str());
        if location.expires == 0 {
            return;
        }
        let mut location = location;
        if location.last_modified.is_none() {
            location.last_modified = Some(now);
        }
        let ghost rest = self.bindings@;
        self.bindings.push(Binding { identifier: id, location });
        assert(self.bindings@.drop_last() =~= rest);
    }

    fn remove_user(&mut self, id: &str)
        ensures
            final(self).bindings@ == without_user(old(self).bindings@, id@),
    {
        let ghost f = |b: Binding| !of_user(b, id@);
        let mut kept: Vec<Binding> = Vec::new();
        let mut i: usize = 0;
        proof {
            filter_start(self.bindings@, f);
        }
        while i < self.bindings.len()
            invariant
                i <= self.bindings.len(),
                *self == *old(self),
                f == (|b: Binding| !of_user(b, id@)),
                kept@ == self.bindings@.take(i as int).filter(f),
            decreases self.bindings.len() - i,
        {
            proof {
                filter_step(self.bindings@, f, i as int);
            }
            let b = &self.bindings[i];
            if !same(b.identifier.as_str(), id) {
                kept.push(b.copy());
            }
            i += 1;
        }
        assert(self.bindings@.take(i as int) =~= self.bindings@);
        self.bindings = kept;
    }

    /// Takes out all bindings of a user.
    pub fn unregister<R: RealmChecker>(&mut self, username: &str, realm: Option<&str>, realms: &R)
        ensures
            unregistered(
                old(self).bindings@,
                final(self).bindings@,
                username@,
                match realm {
                    Some(s) => Some(s@),
                    None => None,
                },
                realms,
            ),
    {
        let id = get_identifier(username, realm, realms);
        self.remove_user(id.as_str());
    }

    /// Takes out the bindings that are reached at an address, and hands them
    /// out; `None` where there were none.
    pub fn unregister_with_address(&mut self, addr: &SipAddr) -> (r: Option<Vec<Location>>)
        ensures
            final(self).bindings@ == old(self).bindings@.filter(
                |b: Binding| !reached_at(b.location, *addr),
            ),
            ({
                let gone = hits(old(self).bindings@, |b: Binding| reached_at(b.location, *addr));
                match r {
                    Some(v) => v@ == gone && gone.len() > 0,
                    None => gone.len() == 0,
                }
            }),
    {
        let ghost f = |b: Binding| !reached_at(b.location, *addr);
        let ghost g = |b: Binding| reached_at(b.location, *addr);
        let mut kept: Vec<Binding> = Vec::new();
        let mut removed: Vec<Location> = Vec::new();
        let mut i: usize = 0;
        proof {
            filter_start(self.bindings@, f);
            filter_start(self.bindings@, g);
        }
        while i < self.bindings.len()
            invariant
                i <= self.bindings.len(),
                *self == *old(self),
                f == (|b: Binding| !reached_at(b.location, *addr)),
                g == (|b: Binding| reached_at(b.location, *addr)),
                kept@ == self.bindings@.take(i as int).filter(f),
                removed@ == hits(self.bindings@.take(i as int), g),
            decreases self.bindings.len() - i,
        {
            proof {
                filter_step(self.bindings@, f, i as int);
                filter_step(self.bindings@, g, i as int);
            }
            let b = &self.bindings[i];
            let reached = match &b.location.destination {
                Some(d) => d.same(addr),
                None => false,
            };
            if reached {
                removed.push(b.location.copy());
            } else {
                kept.push(b.copy());
            }
            i += 1;
        }
        assert(self.bindings@.take(i as int) =~= self.bindings@);
        self.bindings = kept;
        if removed.len() == 0 {
            None
        } else {
            Some(removed)
        }
    }

    fn prune(&mut self, now: u64)
        ensures
            final(self).bindings@ == live(old(self).bindings@, now),
    {
        let ghost f = |b: Binding| !b.location.expired_at(now);
        let mut kept: Vec<Binding> = Vec::new();
        let mut i: usize = 0;
        proof {
            filter_start(self.bindings@, f);
        }
        while i < self.bindings.len()
            invariant
                i <= self.bindings.len(),
                *self == *old(self),
                f == (|b: Binding| !b.location.expired_at(now)),
                kept@ == self.bindings@.take(i as int).filter(f),
            decreases self.bindings.len() - i,
        {
            proof {
                filter_step(self.bindings@, f, i as int);
            }
            let b = &self.bindings[i];
            if !b.location.is_expired_at(now) {
                kept.push(b.copy());
            }
            i += 1;
        }
        assert(self.bindings@.take(i as int) =~= self.bindings@);
        self.bindings = kept;
    }

    fn direct_hits(&self, uri: &Uri) -> (r: Vec<Location>)
        ensures
            r@ == hits(self.bindings@, |b: Binding| direct_hit(b.location, *uri)),
    {
        let ghost f = |b: Binding| direct_hit(b.location, *uri);
        let mut out: Vec<Location> = Vec::new();
        let mut i: usize = 0;
        proof {
            filter_start(self.bindings@, f);
        }
        while i < self.bindings.len()
            invariant
                i <= self.bindings.len(),
                f == (|b: Binding| direct_hit(b.location, *uri)),
                out@ == hits(self.bindings@.take(i as int), f),
            decreases self.bindings.len() - i,
        {
            proof {
                filter_step(self.bindings@, f, i as int);
            }
            if matches_direct(&self.bindings[i].location, uri) {
                out.push(self.bindings[i].location.copy());
            }
            i += 1;
        }
        assert(self.bindings@.take(i as int) =~= self.bindings@);
        out
    }

    fn identifier_hits(&self, id: &str) -> (r: Vec<Location>)
        ensures
            r@ == of_identifier(self.bindings@, id@),
    {
        let ghost f = |b: Binding| of_user(b, id@);
        let mut out: Vec<Location> = Vec::new();
        let mut i: usize = 0;
        proof {
            filter_start(self.bindings@, f);
        }
        while i < self.bindings.len()
            invariant
                i <= self.bindings.len(),
                f == (|b: Binding| of_user(b, id@)),
                out@ == hits(self.bindings@.take(i as int), f),
            decreases self.bindings.len() - i,
        {
            proof {
                filter_step(self.bindings@, f, i as int);
            }
            if same(self.bindings[i].identifier.as_str(), id) {
                out.push(self.bindings[i].location.copy());
            }
            i += 1;
        }
        assert(self.bindings@.take(i as int) =~= self.bindings@);
        out
    }

    fn user_hits<R: RealmChecker>(&self, user: &str, realm: &str, realms: &R) -> (r: Vec<Location>)
        ensures
            r@ == hits(
                self.bindings@,
                |b: Binding| user_hit(b.location, user@, realm@, realms),
            ),
    {
        let ghost f = |b: Binding| user_hit(b.location, user@, realm@, realms);
        let mut out: Vec<Location> = Vec::new();
        let mut i: usize = 0;
        proof {
            filter_start(self.bindings@, f);
        }
        while i < self.bindings.len()
            invariant
                i <= self.bindings.len(),
                f == (|b: Binding| user_hit(b.location, user@, realm@, realms)),
                out@ == hits(self.bindings@.take(i as int), f),
            decreases self.bindings.len() - i,
        {
            proof {
                filter_step(self.bindings@, f, i as int);
            }
            if matches_user(&self.bindings[i].location, user, realm, realms) {
                out.push(self.bindings[i].location.copy());
            }
            i += 1;
        }
        assert(self.bindings@.take(i as int) =~= self.bindings@);
        out
    }

    fn find_by_user<R: RealmChecker>(&self, uri: &Uri, realms: &R) -> (r: Vec<Location>)
        ensures
            r@ == by_user(self.bindings@, *uri, realms),
    {
        let user = trim(uri.user_or_empty().as_str());
        let realm = trim(uri.host.as_str());
        if user.as_str().is_empty() {
            return Vec::new();
        }
        if !realm.as_str().is_empty() {
            let id = get_identifier(user.as_str(), Some(realm.as_str()), realms);
            let first = self.identifier_hits(id.as_str());
            if first.len() > 0 {
                return first;
            }
        }
        let local_id = get_identifier(user.as_str(), Some("localhost"), realms);
        let second = self.identifier_hits(local_id.as_str());
        if second.len() > 0 {
            return second;
        }
        let bare_id = get_identifier(user.as_str(), None, realms);
        let third = self.identifier_hits(bare_id.as_str());
        if third.len() > 0 {
            return third;
        }
        let name = to_lower(user.as_str());
        self.user_hits(name.as_str(), realm.as_str(), realms)
    }

    /// The bindings that a URI finds, by recency, each key once. What has lapsed
    /// is dropped.
    pub fn lookup<R: RealmChecker>(&mut self, uri: &Uri, now: u64, realms: &R) -> (r: Vec<Location>)
        ensures
            final(self).bindings@ == live(old(self).bindings@, now),
            r@ == distinct(by_recency(found(live(old(self).bindings@, now), *uri, realms))),
    {
        self.prune(now);
        let direct = self.direct_hits(uri);
        if direct.len() > 0 {
            return sort_locations_by_recency(direct);
        }
        let by = self.find_by_user(uri, realms);
        sort_locations_by_recency(by)
    }
}

/// Whether a binding is reached at an address.
pub open spec fn reached_at(l: Location, addr: SipAddr) -> bool {
    l.destination matches Some(d) && d.same_as(addr)
}

/// What observers are told when a connection is closed: the bindings that were
/// reached over it are offline, where there were any.
pub fn offline_event(removed: Option<Vec<Location>>) -> (r: Option<LocatorEvent>)
    ensures
        match removed {
            Some(v) => if v@.len() > 0 {
                r == Some(LocatorEvent::Offline(v))
            } else {
                r is None
            },
            None => r is None,
        },
{
    match removed {
        Some(v) => if v.len() > 0 {
            Some(LocatorEvent::Offline(v))
        } else {
            None
        },
        None => None,
    }
}

/// Where a dialog is sent: the destination of the first binding found, if it
/// has one.
pub fn located_destination(locations: &Vec<Location>) -> (r: Option<SipAddr>)
    ensures
        r == (if locations@.len() > 0 {
            locations@[0].destination
        } else {
            None
        }),
{
    if locations.len() == 0 {
        return None;
    }
    match &locations[0].destination {
        Some(d) => Some(d.copy()),
        None => None,
    }
}

/// Where the bindings are kept.
#[derive(Clone, Debug)]
pub enum LocatorConfig {
    Memory,
    Http { url: String },
    Database { url: String },
}

/// Whether the bindings are kept in memory: only a database keeps them itself.
pub fn keeps_in_memory(config: &LocatorConfig) -> (r: bool)
    ensures
        r == (*config !is Database),
{
    !matches!(config, LocatorConfig::Database { .. })
}

/// Whether no binding stands behind an older one.
pub open spec fn recency_ordered(s: Seq<Location>) -> bool {
    forall|i: int, j: int| 0 <= i < j < s.len() ==> !more_recent(#[trigger] s[j], #[trigger] s[i])
}

/// Whether no key occurs twice.
pub open spec fn distinct_bindings(s: Seq<Location>) -> bool {
    forall|i: int, j: int|
        0 <= i < j < s.len() ==> (#[trigger] s[i]).binding@ != (#[trigger] s[j]).binding@
}

proof fn placed_facts(sorted: Seq<Location>, x: Location)
    requires
        recency_ordered(sorted),
    ensures
        recency_ordered(placed(sorted, x)),
        placed(sorted, x).to_multiset() == sorted.to_multiset().insert(x),
    decreases sorted.len(),
{
    broadcast use vstd::seq_lib::group_to_multiset_ensures;

    if sorted.len() > 0 && more_recent(x, sorted.last()) {
        let rest = sorted.drop_last();
        assert forall|i: int, j: int| 0 <= i < j < rest.len() implies !more_recent(
            #[trigger] rest[j],
            #[trigger] rest[i],
        ) by {
            assert(!more_recent(sorted[j], sorted[i]));
        }
        placed_facts(rest, x);
        let p = placed(rest, x);
        let full = p.push(sorted.last());
        assert(rest.push(sorted.last()) =~= sorted);
        assert(full.to_multiset() =~= sorted.to_multiset().insert(x));
        assert forall|i: int, j: int| 0 <= i < j < full.len() implies !more_recent(
            #[trigger] full[j],
            #[trigger] full[i],
        ) by {
            if j == p.len() {
                assert(p.contains(p[i]));
                assert(p.to_multiset().count(p[i]) > 0);
                if p[i] != x {
                    assert(rest.to_multiset().count(p[i]) > 0);
                    assert(rest.contains(p[i]));
                    let k = choose|k: int| 0 <= k < rest.len() && rest[k] == p[i];
                    assert(!more_recent(sorted[sorted.len() - 1], sorted[k]));
                }
            } else {
                assert(!more_recent(p[j], p[i]));
            }
        }
    } else {
        let full = sorted.push(x);
        assert forall|i: int, j: int| 0 <= i < j < full.len() implies !more_recent(
            #[trigger] full[j],
            #[trigger] full[i],
        ) by {
            if j == sorted.len() {
                assert(!more_recent(sorted[sorted.len() - 1], sorted[i]) || i == sorted.len() - 1);
            } else {
                assert(!more_recent(sorted[j], sorted[i]));
            }
        }
    }
}

/// Ordering by recency loses and adds no binding, and puts none behind an older
/// one.
pub proof fn recency_order_is_a_permutation(s: Seq<Location>)
    ensures
        recency_ordered(by_recency(s)),
        by_recency(s).to_multiset() == s.to_multiset(),
    decreases s.len(),
{
    broadcast use vstd::seq_lib::group_to_multiset_ensures;

    if s.len() > 0 {
        recency_order_is_a_permutation(s.drop_last());
        placed_facts(by_recency(s.drop_last()), s.last());
        assert(s.drop_last().push(s.last()) =~= s);
    }
}

proof fn distinct_facts(s: Seq<Location>)
    requires
        recency_ordered(s),
    ensures
        distinct_bindings(distinct(s)),
        recency_ordered(distinct(s)),
        forall|i: int| 0 <= i < distinct(s).len() ==> s.contains(#[trigger] distinct(s)[i]),
        forall|i: int| 0 <= i < s.len() ==> has_binding(distinct(s), (#[trigger] s[i]).binding@),
    decreases s.len(),
{
    if s.len() > 0 {
        let t = s.drop_last();
        assert forall|i: int, j: int| 0 <= i < j < t.len() implies !more_recent(
            #[trigger] t[j],
            #[trigger] t[i],
        ) by {
            assert(!more_recent(s[j], s[i]));
        }
        distinct_facts(t);
        let rest = distinct(t);
        let full = distinct(s);
        assert forall|i: int| 0 <= i < full.len() implies s.contains(#[trigger] full[i]) by {
            if i < rest.len() {
                assert(t.contains(rest[i]));
                let k = choose|k: int| 0 <= k < t.len() && t[k] == rest[i];
                assert(s[k] == full[i]);
            } else {
                assert(s[s.len() - 1] == full[i]);
            }
        }
        assert forall|i: int| 0 <= i < s.len() implies has_binding(
            full,
            (#[trigger] s[i]).binding@,
        ) by {
            if i < t.len() {
                assert(has_binding(rest, t[i].binding@));
                let k = choose|k: int| 0 <= k < rest.len() && (#[trigger] rest[k]).binding@ == t[i].binding@;
                assert(full[k].binding@ == s[i].binding@);
            } else if has_binding(rest, s.last().binding@) {
                let k = choose|k: int|
                    0 <= k < rest.len() && (#[trigger] rest[k]).binding@ == s.last().binding@;
                assert(full[k].binding@ == s[i].binding@);
            } else {
                assert(full[full.len() - 1].binding@ == s[i].binding@);
            }
        }
        assert forall|i: int, j: int| 0 <= i < j < full.len() implies (
        #[trigger] full[i]).binding@ != (#[trigger] full[j]).binding@ && !more_recent(
            full[j],
            full[i],
        ) by {
            if j < rest.len() {
                assert(rest[i].binding@ != rest[j].binding@);
                assert(!more_recent(rest[j], rest[i]));
            } else {
                assert(rest[i].binding@ != s.last().binding@);
                assert(t.contains(rest[i]));
                let k = choose|k: int| 0 <= k < t.len() && t[k] == rest[i];
                assert(!more_recent(s[s.len() - 1], s[k]));
            }
        }
    }
}

/// A lookup gives each key once, the most recent first, and no key of what was
/// found is lost.
pub proof fn lookup_result_is_ordered(s: Seq<Location>)
    ensures
        distinct_bindings(distinct(by_recency(s))),
        recency_ordered(distinct(by_recency(s))),
        forall|i: int|
            0 <= i < distinct(by_recency(s)).len() ==> s.contains(
                #[trigger] distinct(by_recency(s))[i],
            ),
        forall|i: int|
            0 <= i < s.len() ==> has_binding(
                distinct(by_recency(s)),
                (#[trigger] s[i]).binding@,
            ),
{
    broadcast use vstd::seq_lib::group_to_multiset_ensures;

    recency_order_is_a_permutation(s);
    let o = by_recency(s);
    distinct_facts(o);
    assert forall|i: int| 0 <= i < distinct(o).len() implies s.contains(#[trigger] distinct(o)[i]) by {
        assert(o.contains(distinct(o)[i]));
        assert(o.to_multiset().count(distinct(o)[i]) > 0);
    }
    assert forall|i: int| 0 <= i < s.len() implies has_binding(
        distinct(o),
        (#[trigger] s[i]).binding@,
    ) by {
        assert(s.contains(s[i]));
        assert(s.to_multiset().count(s[i]) > 0);
        assert(o.contains(s[i]));
        let k = choose|k: int| 0 <= k < o.len() && o[k] == s[i];
        assert(has_binding(distinct(o), o[k].binding@));
    }
}

proof fn hits_contain(s: Seq<Binding>, f: spec_fn(Binding) -> bool, i: int)
    requires
        0 <= i < s.len(),
        f(s[i]),
    ensures
        hits(s, f).contains(s[i].location),
{
    s.lemma_filter_contains(f, i);
    let t = s.filter(f);
    let k = choose|k: int| 0 <= k < t.len() && t[k] == s[i];
    assert(hits(s, f)[k] == s[i].location);
}

/// A binding that has not lapsed is found by a lookup of its own contact.
pub proof fn registered_binding_is_found<R: RealmChecker>(
    s: Seq<Binding>,
    i: int,
    uri: Uri,
    now: u64,
    realms: &R,
)
    requires
        0 <= i < s.len(),
        !s[i].location.expired_at(now),
        direct_hit(s[i].location, uri),
    ensures
        has_binding(
            distinct(by_recency(found(live(s, now), uri, realms))),
            s[i].location.binding@,
        ),
{
    let alive = |b: Binding| !b.location.expired_at(now);
    s.lemma_filter_contains(alive, i);
    let l = live(s, now);
    let k = choose|k: int| 0 <= k < l.len() && l[k] == s[i];
    let f = |b: Binding| direct_hit(b.location, uri);
    hits_contain(l, f, k);
    let direct = hits(l, f);
    let m = choose|m: int| 0 <= m < direct.len() && direct[m] == s[i].location;
    lookup_result_is_ordered(direct);
    assert(has_binding(distinct(by_recency(direct)), direct[m].binding@));
}

/// A lookup gives no binding that has lapsed and none that was not registered.
pub proof fn lookup_gives_live_bindings<R: RealmChecker>(
    s: Seq<Binding>,
    uri: Uri,
    now: u64,
    realms: &R,
    i: int,
)
    requires
        0 <= i < distinct(by_recency(found(live(s, now), uri, realms))).len(),
    ensures
        exists|k: int|
            0 <= k < s.len() && (#[trigger] s[k]).location == distinct(
                by_recency(found(live(s, now), uri, realms)),
            )[i] && !s[k].location.expired_at(now),
{
    let l = live(s, now);
    let f = found(l, uri, realms);
    lookup_result_is_ordered(f);
    let x = distinct(by_recency(f))[i];
    assert(f.contains(x));
    found_is_registered(l, uri, realms, x);
    let k = choose|k: int| 0 <= k < l.len() && (#[trigger] l[k]).location == x;
    let alive = |b: Binding| !b.location.expired_at(now);
    assert(l.contains(l[k]));
    let n = choose|n: int| 0 <= n < s.filter(alive).len() && s.filter(alive)[n] == l[k];
    s.lemma_filter_pred(alive, n);
    s.lemma_filter_contains_rev(alive, l[k]);
    assert(alive(l[k]));
    let m = choose|m: int| 0 <= m < s.len() && s[m] == l[k];
    assert(s[m].location == x);
}

proof fn hits_are_registered(s: Seq<Binding>, f: spec_fn(Binding) -> bool, x: Location)
    requires
        hits(s, f).contains(x),
    ensures
        exists|k: int| 0 <= k < s.len() && (#[trigger] s[k]).location == x,
{
    let t = s.filter(f);
    let k = choose|k: int| 0 <= k < hits(s, f).len() && hits(s, f)[k] == x;
    assert(t[k].location == x);
    assert(t.contains(t[k]));
    s.lemma_filter_contains_rev(f, t[k]);
    let m = choose|m: int| 0 <= m < s.len() && s[m] == t[k];
    assert(s[m].location == x);
}

proof fn identifier_hits_are_registered(s: Seq<Binding>, id: Seq<char>, x: Location)
    requires
        of_identifier(s, id).contains(x),
    ensures
        exists|k: int| 0 <= k < s.len() && (#[trigger] s[k]).location == x,
{
    hits_are_registered(s, |b: Binding| of_user(b, id), x);
}

proof fn found_is_registered<R: RealmChecker>(s: Seq<Binding>, uri: Uri, realms: &R, x: Location)
    requires
        found(s, uri, realms).contains(x),
    ensures
        exists|k: int| 0 <= k < s.len() && (#[trigger] s[k]).location == x,
{
    let user = trimmed(uri.user_text());
    let realm = trimmed(uri.host@);
    let d = |b: Binding| direct_hit(b.location, uri);
    let id1 = identifier(user, Some(realm), realms);
    let id2 = identifier(user, Some("localhost"@), realms);
    let id3 = identifier(user, None, realms);
    let u = |b: Binding| user_hit(b.location, lower(user), realm, realms);
    if hits(s, d).contains(x) {
        hits_are_registered(s, d, x);
    } else if of_identifier(s, id1).contains(x) {
        identifier_hits_are_registered(s, id1, x);
    } else if of_identifier(s, id2).contains(x) {
        identifier_hits_are_registered(s, id2, x);
    } else if of_identifier(s, id3).contains(x) {
        identifier_hits_are_registered(s, id3, x);
    } else {
        hits_are_registered(s, u, x);
    }
}

/// A user's bindings are kept in one place whatever local realm they are
/// registered under.
pub proof fn local_realms_share_bindings<R: RealmChecker>(
    user: Seq<char>,
    a: Seq<char>,
    b: Seq<char>,
    realms: &R,
)
    requires
        trimmed(a).len() > 0,
        trimmed(b).len() > 0,
        realms.serves(trimmed(a)),
        realms.serves(trimmed(b)),
    ensures
        identifier(user, Some(a), realms) == identifier(user, Some(b), realms),
{
}

/// After a binding has been taken out none with its user and key is left; the
/// others are not touched.
pub proof fn removed_binding_is_gone(s: Seq<Binding>, id: Seq<char>, key: Seq<char>)
    ensures
        forall|i: int|
            0 <= i < without(s, id, key).len() ==> !is_binding(
                #[trigger] without(s, id, key)[i],
                id,
                key,
            ),
        forall|i: int|
            0 <= i < s.len() && !is_binding(#[trigger] s[i], id, key) ==> without(
                s,
                id,
                key,
            ).contains(s[i]),
{
    let f = |b: Binding| !is_binding(b, id, key);
    assert forall|i: int| 0 <= i < without(s, id, key).len() implies !is_binding(
        #[trigger] without(s, id, key)[i],
        id,
        key,
    ) by {
        s.lemma_filter_pred(f, i);
    }
    assert forall|i: int| 0 <= i < s.len() && !is_binding(#[trigger] s[i], id, key) implies without(
        s,
        id,
        key,
    ).contains(s[i]) by {
        s.lemma_filter_contains(f, i);
    }
}

/// Whether a realm and the host of a URI mean one place: both are served here, or both
/// are not and are written alike up to case.
pub open spec fn is_one_place<R: RealmChecker>(realm: Seq<char>, host: Seq<char>, realms: &R) -> bool {
    &&& trimmed(realm).len() > 0 && trimmed(host).len() > 0
    &&& realms.serves(trimmed(realm)) == realms.serves(trimmed(host))
    &&& realms.serves(trimmed(realm)) || lower(trimmed(realm)) == lower(trimmed(host))
}

/// Whether a URI names no binding that has not lapsed: none has its address for contact,
/// for registered address or for GRUU.
pub open spec fn names_no_binding(s: Seq<Binding>, uri: Uri, now: u64) -> bool {
    forall|k: int|
        0 <= k < s.len() && !(#[trigger] s[k]).location.expired_at(now) ==> !direct_hit(
            s[k].location,
            uri,
        )
}

/// Whether two user names are one, up to case and the white space around them.
pub open spec fn is_one_user(a: Seq<char>, b: Seq<char>) -> bool {
    lower(trimmed(a)) == lower(trimmed(b))
}

proof fn places_share_bindings<R: RealmChecker>(
    user: Seq<char>,
    realm: Seq<char>,
    uri: Uri,
    realms: &R,
)
    requires
        trimmed(user).len() > 0,
        is_one_user(uri.user_text(), user),
        is_one_place(realm, uri.host@, realms),
    ensures
        identifier(trimmed(uri.user_text()), Some(trimmed(uri.host@)), realms) == identifier(
            user,
            Some(realm),
            realms,
        ),
        identifier(user, Some(realm), realms).len() > 0,
        trimmed(uri.user_text()).len() > 0,
{
    trimmed_is_stable(uri.user_text());
    trimmed_is_stable(uri.host@);
    assert(lower(trimmed(user)).len() == trimmed(user).len());
    assert(lower(trimmed(uri.user_text())).len() == trimmed(uri.user_text()).len());
}

proof fn live_facts(s: Seq<Binding>, now: u64)
    ensures
        forall|k: int|
            0 <= k < s.len() && !(#[trigger] s[k]).location.expired_at(now) ==> live(
                s,
                now,
            ).contains(s[k]),
        forall|k: int|
            0 <= k < live(s, now).len() ==> s.contains(#[trigger] live(s, now)[k]) && !live(
                s,
                now,
            )[k].location.expired_at(now),
{
    let alive = |b: Binding| !b.location.expired_at(now);
    assert forall|k: int| 0 <= k < s.len() && !(#[trigger] s[k]).location.expired_at(
        now,
    ) implies live(s, now).contains(s[k]) by {
        s.lemma_filter_contains(alive, k);
    }
    assert forall|k: int| 0 <= k < live(s, now).len() implies s.contains(
        #[trigger] live(s, now)[k],
    ) && !live(s, now)[k].location.expired_at(now) by {
        s.lemma_filter_pred(alive, k);
        assert(s.filter(alive).contains(s.filter(alive)[k]));
        s.lemma_filter_contains_rev(alive, s.filter(alive)[k]);
    }
}

proof fn hits_come_from(s: Seq<Binding>, f: spec_fn(Binding) -> bool, x: Location)
    requires
        hits(s, f).contains(x),
    ensures
        exists|k: int| 0 <= k < s.len() && (#[trigger] s[k]).location == x && f(s[k]),
{
    let t = s.filter(f);
    let k = choose|k: int| 0 <= k < hits(s, f).len() && hits(s, f)[k] == x;
    assert(t[k].location == x);
    s.lemma_filter_pred(f, k);
    assert(t.contains(t[k]));
    s.lemma_filter_contains_rev(f, t[k]);
    let m = choose|m: int| 0 <= m < s.len() && s[m] == t[k];
    assert(s[m].location == x && f(s[m]));
}

proof fn no_hits(s: Seq<Binding>, f: spec_fn(Binding) -> bool)
    requires
        forall|k: int| 0 <= k < s.len() ==> !f(#[trigger] s[k]),
    ensures
        hits(s, f).len() == 0,
{
    if hits(s, f).len() > 0 {
        assert(hits(s, f).contains(hits(s, f)[0]));
        hits_come_from(s, f, hits(s, f)[0]);
        let k = choose|k: int| 0 <= k < s.len() && (#[trigger] s[k]).location == hits(s, f)[0] && f(
            s[k],
        );
        assert(!f(s[k]));
    }
}

proof fn unnamed_uri_goes_by_its_user<R: RealmChecker>(s: Seq<Binding>, uri: Uri, now: u64, realms: &R)
    requires
        names_no_binding(s, uri, now),
    ensures
        found(live(s, now), uri, realms) == by_user(live(s, now), uri, realms),
{
    let l = live(s, now);
    let d = |b: Binding| direct_hit(b.location, uri);
    live_facts(s, now);
    assert forall|k: int| 0 <= k < l.len() implies !d(#[trigger] l[k]) by {
        assert(s.contains(l[k]));
        let m = choose|m: int| 0 <= m < s.len() && s[m] == l[k];
        assert(!direct_hit(s[m].location, uri));
    }
    no_hits(l, d);
}

/// A user who has registered is found at the address of record: after a binding was
/// registered under a user and a realm, a lookup of any URI with that user and realm
/// that names no binding itself gives the binding, until it lapses, and gives bindings
/// of that user and realm alone.
pub proof fn registered_user_is_found<R: RealmChecker>(
    before: Seq<Binding>,
    after: Seq<Binding>,
    user: Seq<char>,
    realm: Seq<char>,
    location: Location,
    registered_at: u64,
    uri: Uri,
    now: u64,
    realms: &R,
)
    requires
        registered(before, after, user, Some(realm), location, registered_at, realms),
        trimmed(user).len() > 0,
        location.expires > 0,
        !kept(location, registered_at).expired_at(now),
        is_one_user(uri.user_text(), user),
        is_one_place(realm, uri.host@, realms),
        names_no_binding(after, uri, now),
    ensures
        ({
            let result = distinct(by_recency(found(live(after, now), uri, realms)));
            &&& has_binding(result, location.binding@)
            &&& forall|i: int|
                0 <= i < result.len() ==> exists|k: int|
                    0 <= k < after.len() && (#[trigger] after[k]).location == #[trigger] result[i]
                        && after[k].identifier@ == after.last().identifier@
                        && !after[k].location.expired_at(now)
        }),
{
    let id = identifier(user, Some(realm), realms);
    places_share_bindings(user, realm, uri, realms);
    unnamed_uri_goes_by_its_user(after, uri, now, realms);
    live_facts(after, now);
    let l = live(after, now);
    let f = |b: Binding| of_user(b, id);
    let last = after.len() - 1;
    assert(after[last].location == kept(location, registered_at));
    assert(l.contains(after[last]));
    let m = choose|m: int| 0 <= m < l.len() && l[m] == after[last];
    hits_contain(l, f, m);
    let first = of_identifier(l, id);
    assert(first == hits(l, f));
    assert(first.len() > 0);
    assert(found(l, uri, realms) == first);
    lookup_result_is_ordered(first);
    let j = choose|j: int| 0 <= j < first.len() && first[j] == after[last].location;
    assert(has_binding(distinct(by_recency(first)), first[j].binding@));
    let result = distinct(by_recency(first));
    assert forall|i: int| 0 <= i < result.len() implies exists|k: int|
        0 <= k < after.len() && (#[trigger] after[k]).location == #[trigger] result[i]
            && after[k].identifier@ == after.last().identifier@ && !after[k].location.expired_at(now) by {
        assert(first.contains(result[i]));
        hits_come_from(l, f, result[i]);
        let k = choose|k: int| 0 <= k < l.len() && (#[trigger] l[k]).location == result[i] && f(l[k]);
        assert(after.contains(l[k]));
        let n = choose|n: int| 0 <= n < after.len() && after[n] == l[k];
        assert(after[n].location == result[i]);
    }
}

/// A user who has registered without a realm, or in a realm that is served here, is
/// found under any realm in which the user has not registered.
pub proof fn user_is_found_under_other_realms<R: RealmChecker>(
    s: Seq<Binding>,
    k: int,
    user: Seq<char>,
    uri: Uri,
    now: u64,
    realms: &R,
)
    requires
        0 <= k < s.len(),
        !s[k].location.expired_at(now),
        trimmed(user).len() > 0,
        is_one_user(uri.user_text(), user),
        names_no_binding(s, uri, now),
        trimmed(uri.host@).len() > 0 ==> forall|j: int|
            0 <= j < s.len() && !(#[trigger] s[j]).location.expired_at(now) ==> s[j].identifier@
                != identifier(user, Some(uri.host@), realms),
        s[k].identifier@ == identifier(user, Some("localhost"@), realms) || (s[k].identifier@
            == identifier(user, None, realms) && forall|j: int|
            0 <= j < s.len() && !(#[trigger] s[j]).location.expired_at(now) ==> s[j].identifier@
                != identifier(user, Some("localhost"@), realms)),
    ensures
        has_binding(
            distinct(by_recency(found(live(s, now), uri, realms))),
            s[k].location.binding@,
        ),
{
    let l = live(s, now);
    let name = trimmed(uri.user_text());
    trimmed_is_stable(uri.user_text());
    trimmed_is_stable(uri.host@);
    assert(lower(trimmed(user)).len() == trimmed(user).len());
    assert(lower(name).len() == name.len());
    unnamed_uri_goes_by_its_user(s, uri, now, realms);
    live_facts(s, now);
    let id1 = identifier(name, Some(trimmed(uri.host@)), realms);
    let id2 = identifier(name, Some("localhost"@), realms);
    let id3 = identifier(name, None, realms);
    assert(id1 == identifier(user, Some(uri.host@), realms));
    assert(id2 == identifier(user, Some("localhost"@), realms));
    assert(id3 == identifier(user, None, realms));
    let f1 = |b: Binding| of_user(b, id1);
    let f2 = |b: Binding| of_user(b, id2);
    let f3 = |b: Binding| of_user(b, id3);
    assert(of_identifier(l, id1) == hits(l, f1));
    assert(of_identifier(l, id2) == hits(l, f2));
    assert(of_identifier(l, id3) == hits(l, f3));
    assert(l.contains(s[k]));
    let m = choose|m: int| 0 <= m < l.len() && l[m] == s[k];
    if trimmed(uri.host@).len() > 0 {
        assert forall|j: int| 0 <= j < l.len() implies !f1(#[trigger] l[j]) by {
            assert(s.contains(l[j]));
            let n = choose|n: int| 0 <= n < s.len() && s[n] == l[j];
            assert(s[n].identifier@ != id1);
        }
        no_hits(l, f1);
    }
    if s[k].identifier@ == id2 {
        hits_contain(l, f2, m);
        let h = hits(l, f2);
        assert(found(l, uri, realms) == h);
        lookup_result_is_ordered(h);
        let j = choose|j: int| 0 <= j < h.len() && h[j] == s[k].location;
        assert(has_binding(distinct(by_recency(h)), h[j].binding@));
    } else {
        assert forall|j: int| 0 <= j < l.len() implies !f2(#[trigger] l[j]) by {
            assert(s.contains(l[j]));
            let n = choose|n: int| 0 <= n < s.len() && s[n] == l[j];
            assert(s[n].identifier@ != id2);
        }
        no_hits(l, f2);
        hits_contain(l, f3, m);
        let h = hits(l, f3);
        assert(found(l, uri, realms) == h);
        lookup_result_is_ordered(h);
        let j = choose|j: int| 0 <= j < h.len() && h[j] == s[k].location;
        assert(has_binding(distinct(by_recency(h)), h[j].binding@));
    }
}

/// A binding whose registered address, or whose contact, has the user and the host of a
/// URI is found by it, where nothing is kept under the user's name.
pub proof fn binding_is_found_by_its_addresses<R: RealmChecker>(
    s: Seq<Binding>,
    k: int,
    uri: Uri,
    now: u64,
    realms: &R,
)
    requires
        0 <= k < s.len(),
        !s[k].location.expired_at(now),
        trimmed(uri.user_text()).len() > 0,
        names_no_binding(s, uri, now),
        forall|j: int|
            0 <= j < s.len() && !(#[trigger] s[j]).location.expired_at(now) ==> s[j].identifier@
                != identifier(uri.user_text(), Some(uri.host@), realms) && s[j].identifier@
                != identifier(uri.user_text(), Some("localhost"@), realms) && s[j].identifier@
                != identifier(uri.user_text(), None, realms),
        (s[k].location.registered_aor matches Some(a) && a.user is Some && is_one_user(
            a.user_text(),
            uri.user_text(),
        ) && a.host@ == uri.host@) || (s[k].location.aor.user is Some && is_one_user(
            s[k].location.aor.user_text(),
            uri.user_text(),
        ) && s[k].location.aor.host@ == uri.host@),
    ensures
        has_binding(
            distinct(by_recency(found(live(s, now), uri, realms))),
            s[k].location.binding@,
        ),
{
    let l = live(s, now);
    let name = trimmed(uri.user_text());
    let realm = trimmed(uri.host@);
    trimmed_is_stable(uri.user_text());
    trimmed_is_stable(uri.host@);
    unnamed_uri_goes_by_its_user(s, uri, now, realms);
    live_facts(s, now);
    let id1 = identifier(name, Some(realm), realms);
    let id2 = identifier(name, Some("localhost"@), realms);
    let id3 = identifier(name, None, realms);
    let f1 = |b: Binding| of_user(b, id1);
    let f2 = |b: Binding| of_user(b, id2);
    let f3 = |b: Binding| of_user(b, id3);
    let g = |b: Binding| user_hit(b.location, lower(name), realm, realms);
    assert forall|j: int| 0 <= j < l.len() implies !f1(#[trigger] l[j]) && !f2(l[j]) && !f3(l[j]) by {
        assert(s.contains(l[j]));
        let n = choose|n: int| 0 <= n < s.len() && s[n] == l[j];
        assert(!s[n].location.expired_at(now));
    }
    no_hits(l, f1);
    no_hits(l, f2);
    no_hits(l, f3);
    assert(of_identifier(l, id1) == hits(l, f1));
    assert(of_identifier(l, id2) == hits(l, f2));
    assert(of_identifier(l, id3) == hits(l, f3));
    assert(l.contains(s[k]));
    let m = choose|m: int| 0 <= m < l.len() && l[m] == s[k];
    lower_is_stable(name);
    assert(g(l[m]));
    hits_contain(l, g, m);
    let h = hits(l, g);
    assert(found(l, uri, realms) == h);
    lookup_result_is_ordered(h);
    let j = choose|j: int| 0 <= j < h.len() && h[j] == s[k].location;
    assert(has_binding(distinct(by_recency(h)), h[j].binding@));
}

proof fn lower_is_stable(s: Seq<char>)
    ensures
        lower(lower(s)) == lower(s),
{
    assert forall|i: int| 0 <= i < s.len() implies lower(lower(s))[i] == lower(s)[i] by {}
    assert(lower(lower(s)) =~= lower(s));
}

/// A lookup gives a binding only where the URI names it, or where it is one of the
/// URI's user: kept under the user's name, or with the user in one of its addresses. A
/// URI without a user gives only what it names.
pub proof fn lookup_gives_no_strangers<R: RealmChecker>(
    s: Seq<Binding>,
    uri: Uri,
    now: u64,
    realms: &R,
    i: int,
)
    requires
        0 <= i < distinct(by_recency(found(live(s, now), uri, realms))).len(),
    ensures
        exists|k: int|
            0 <= k < s.len() && {
                &&& (#[trigger] s[k]).location == distinct(
                    by_recency(found(live(s, now), uri, realms)),
                )[i]
                &&& !s[k].location.expired_at(now)
                &&& {
                    ||| direct_hit(s[k].location, uri)
                    ||| trimmed(uri.user_text()).len() > 0 && {
                        ||| s[k].identifier@ == identifier(
                            uri.user_text(),
                            Some(uri.host@),
                            realms,
                        )
                        ||| s[k].identifier@ == identifier(
                            uri.user_text(),
                            Some("localhost"@),
                            realms,
                        )
                        ||| s[k].identifier@ == identifier(uri.user_text(), None, realms)
                        ||| s[k].location.registered_aor matches Some(a) && is_one_user(
                            a.user_text(),
                            uri.user_text(),
                        )
                        ||| is_one_user(s[k].location.aor.user_text(), uri.user_text())
                    }
                }
            },
{
    let l = live(s, now);
    let found_here = found(l, uri, realms);
    let x = distinct(by_recency(found_here))[i];
    let name = trimmed(uri.user_text());
    let realm = trimmed(uri.host@);
    trimmed_is_stable(uri.user_text());
    trimmed_is_stable(uri.host@);
    lower_is_stable(name);
    lookup_result_is_ordered(found_here);
    live_facts(s, now);
    assert(found_here.contains(x));
    let id1 = identifier(name, Some(realm), realms);
    let id2 = identifier(name, Some("localhost"@), realms);
    let id3 = identifier(name, None, realms);
    let d = |b: Binding| direct_hit(b.location, uri);
    let f1 = |b: Binding| of_user(b, id1);
    let f2 = |b: Binding| of_user(b, id2);
    let f3 = |b: Binding| of_user(b, id3);
    let g = |b: Binding| user_hit(b.location, lower(name), realm, realms);
    let f = if hits(l, d).len() > 0 {
        d
    } else if realm.len() > 0 && of_identifier(l, id1).len() > 0 {
        f1
    } else if of_identifier(l, id2).len() > 0 {
        f2
    } else if of_identifier(l, id3).len() > 0 {
        f3
    } else {
        g
    };
    assert(of_identifier(l, id1) == hits(l, f1));
    assert(of_identifier(l, id2) == hits(l, f2));
    assert(of_identifier(l, id3) == hits(l, f3));
    assert(hits(l, f).contains(x));
    hits_come_from(l, f, x);
    let k = choose|k: int| 0 <= k < l.len() && (#[trigger] l[k]).location == x && f(l[k]);
    assert(s.contains(l[k]));
    let n = choose|n: int| 0 <= n < s.len() && s[n] == l[k];
    assert(s[n].location == x);
}

/// A lookup lists the bindings by recency: the most recently modified first, those that
/// were never modified last; no two have one key.
pub proof fn lookup_lists_the_newest_first<R: RealmChecker>(
    s: Seq<Binding>,
    uri: Uri,
    now: u64,
    realms: &R,
    i: int,
    j: int,
)
    requires
        0 <= i < j < distinct(by_recency(found(live(s, now), uri, realms))).len(),
    ensures
        ({
            let result = distinct(by_recency(found(live(s, now), uri, realms)));
            &&& result[i].binding@ != result[j].binding@
            &&& result[j].last_modified matches Some(b) ==> (result[i].last_modified matches Some(a)
                && a >= b)
        }),
{
    lookup_result_is_ordered(found(live(s, now), uri, realms));
    let result = distinct(by_recency(found(live(s, now), uri, realms)));
    assert(!more_recent(result[j], result[i]));
}

/// Of the bindings with one key a lookup keeps the most recent.
pub proof fn lookup_keeps_the_newest_of_a_key(s: Seq<Location>, k: int)
    requires
        0 <= k < s.len(),
    ensures
        exists|i: int|
            0 <= i < distinct(by_recency(s)).len() && {
                &&& (#[trigger] distinct(by_recency(s))[i]).binding@ == s[k].binding@
                &&& s[k].last_modified matches Some(b) ==> (distinct(
                    by_recency(s),
                )[i].last_modified matches Some(a) && a >= b)
            },
{
    broadcast use vstd::seq_lib::group_to_multiset_ensures;

    recency_order_is_a_permutation(s);
    let o = by_recency(s);
    assert(s.contains(s[k]));
    assert(s.to_multiset().count(s[k]) > 0);
    assert(o.contains(s[k]));
    let m = choose|m: int| 0 <= m < o.len() && o[m] == s[k];
    first_of_a_key_is_kept(o, m);
    let i = choose|i: int|
        0 <= i < distinct(o).len() && (#[trigger] distinct(o)[i]).binding@ == o[m].binding@
            && !more_recent(o[m], distinct(o)[i]);
    assert(distinct(o)[i].binding@ == s[k].binding@);
}

proof fn first_of_a_key_is_kept(o: Seq<Location>, m: int)
    requires
        recency_ordered(o),
        0 <= m < o.len(),
    ensures
        exists|i: int|
            0 <= i < distinct(o).len() && (#[trigger] distinct(o)[i]).binding@ == o[m].binding@
                && !more_recent(o[m], distinct(o)[i]),
    decreases o.len(),
{
    let t = o.drop_last();
    let rest = distinct(t);
    let full = distinct(o);
    assert forall|i: int, j: int| 0 <= i < j < t.len() implies !more_recent(
        #[trigger] t[j],
        #[trigger] t[i],
    ) by {
        assert(!more_recent(o[j], o[i]));
    }
    if m < t.len() {
        first_of_a_key_is_kept(t, m);
        let i = choose|i: int|
            0 <= i < rest.len() && (#[trigger] rest[i]).binding@ == t[m].binding@ && !more_recent(
                t[m],
                rest[i],
            );
        assert(full[i] == rest[i]);
    } else if has_binding(rest, o[m].binding@) {
        distinct_facts(t);
        let i = choose|i: int| 0 <= i < rest.len() && (#[trigger] rest[i]).binding@ == o[m].binding@;
        assert(t.contains(rest[i]));
        let n = choose|n: int| 0 <= n < t.len() && t[n] == rest[i];
        assert(!more_recent(o[m], o[n]));
        assert(full[i] == rest[i]);
    } else {
        assert(full[full.len() - 1] == o[m]);
    }
}

/// Registering a binding touches no other: those of other users, and those with other
/// keys, stay; of the user's bindings with this key only the new one is left, or none
/// where it expires at once. Without a user nothing changes.
pub proof fn registering_replaces_one_binding<R: RealmChecker>(
    before: Seq<Binding>,
    after: Seq<Binding>,
    user: Seq<char>,
    realm: Option<Seq<char>>,
    location: Location,
    now: u64,
    realms: &R,
)
    requires
        registered(before, after, user, realm, location, now, realms),
    ensures
        trimmed(user).len() == 0 ==> after == before,
        trimmed(user).len() > 0 ==> {
            let id = identifier(user, realm, realms);
            &&& forall|k: int|
                0 <= k < before.len() && !((#[trigger] before[k]).identifier@ == id
                    && before[k].location.binding@ == location.binding@) ==> after.contains(before[k])
            &&& forall|k: int|
                0 <= k < after.len() && (#[trigger] after[k]).identifier@ == id
                    && after[k].location.binding@ == location.binding@ ==> location.expires > 0 && k
                    == after.len() - 1 && after[k].location == kept(location, now)
            &&& location.expires > 0 ==> after.len() > 0 && after.last().identifier@ == id
                && after.last().location.binding@ == location.binding@ && after.last().location.aor
                == location.aor && after.last().location.destination == location.destination
        },
{
    assert(lower(trimmed(user)).len() == trimmed(user).len());
    let id = identifier(user, realm, realms);
    let rest = without(before, id, location.binding@);
    removed_binding_is_gone(before, id, location.binding@);
    if trimmed(user).len() > 0 {
        assert(id.len() > 0);
        if location.expires > 0 {
            assert forall|x: Binding| #[trigger] rest.contains(x) implies after.contains(x) by {
                let k = choose|k: int| 0 <= k < rest.len() && rest[k] == x;
                assert(after.drop_last()[k] == x);
                assert(after[k] == x);
            }
            assert forall|k: int| 0 <= k < after.len() - 1 implies after[k] == rest[k] by {
                assert(after.drop_last()[k] == after[k]);
            }
        }
        assert forall|k: int|
            0 <= k < before.len() && !((#[trigger] before[k]).identifier@ == id
                && before[k].location.binding@ == location.binding@) implies after.contains(before[k]) by {
            assert(!is_binding(before[k], id, location.binding@));
            assert(rest.contains(before[k]));
        }
        assert forall|k: int|
            0 <= k < after.len() && (#[trigger] after[k]).identifier@ == id
                && after[k].location.binding@ == location.binding@ implies location.expires > 0 && k
            == after.len() - 1 && after[k].location == kept(location, now) by {
            if location.expires == 0 || k < after.len() - 1 {
                assert(after[k] == rest[k]);
                assert(!is_binding(rest[k], id, location.binding@));
            }
        }
    }
}

/// After a user was taken out none of the user's bindings is left, and no other binding
/// is gone.
pub proof fn unregistering_takes_out_one_user<R: RealmChecker>(
    before: Seq<Binding>,
    after: Seq<Binding>,
    user: Seq<char>,
    realm: Option<Seq<char>>,
    realms: &R,
)
    requires
        unregistered(before, after, user, realm, realms),
    ensures
        forall|k: int|
            0 <= k < after.len() ==> before.contains(#[trigger] after[k]) && after[k].identifier@
                != identifier(user, realm, realms),
        forall|k: int|
            0 <= k < before.len() && (#[trigger] before[k]).identifier@ != identifier(
                user,
                realm,
                realms,
            ) ==> after.contains(before[k]),
{
    let id = identifier(user, realm, realms);
    let f = |b: Binding| !of_user(b, id);
    assert forall|k: int| 0 <= k < after.len() implies before.contains(#[trigger] after[k])
        && after[k].identifier@ != id by {
        before.lemma_filter_pred(f, k);
        assert(before.filter(f).contains(before.filter(f)[k]));
        before.lemma_filter_contains_rev(f, before.filter(f)[k]);
    }
    assert forall|k: int| 0 <= k < before.len() && (#[trigger] before[k]).identifier@
        != id implies after.contains(before[k]) by {
        before.lemma_filter_contains(f, k);
    }
}

/// A binding lapses when its lifetime, in seconds, has passed since it was modified, and
/// not before; a lookup drops exactly the bindings that have lapsed.
pub proof fn bindings_lapse_in_time(s: Seq<Binding>, now: u64, k: int)
    requires
        0 <= k < s.len(),
    ensures
        s[k].location.last_modified matches Some(t) ==> (s[k].location.expired_at(now) <==> (now
            - t) >= s[k].location.expires * 1000),
        s[k].location.last_modified is None ==> !s[k].location.expired_at(now),
        !s[k].location.expired_at(now) ==> live(s, now).contains(s[k]),
        s[k].location.expired_at(now) ==> !live(s, now).contains(s[k]),
{
    live_facts(s, now);
    if live(s, now).contains(s[k]) {
        let j = choose|j: int| 0 <= j < live(s, now).len() && live(s, now)[j] == s[k];
        assert(!live(s, now)[j].location.expired_at(now));
    }
}

/// Users are told apart, whatever the case of their names, and so are the realms that
/// are not served here; all that are served here are one.
pub proof fn users_and_realms_are_told_apart<R: RealmChecker>(
    a: Seq<char>,
    b: Seq<char>,
    x: Seq<char>,
    y: Seq<char>,
    realms: &R,
)
    requires
        trimmed(a).len() > 0,
        trimmed(b).len() > 0,
        !trimmed(a).contains('@') && !trimmed(b).contains('@'),
        trimmed(x).len() > 0,
        trimmed(y).len() > 0,
    ensures
        is_one_user(a, b) && is_one_place(x, y, realms) ==> identifier(a, Some(x), realms)
            == identifier(b, Some(y), realms),
        identifier(a, Some(x), realms) == identifier(b, Some(y), realms) ==> is_one_user(a, b),
        identifier(a, Some(x), realms) == identifier(b, Some(y), realms) && !realms.serves(
            trimmed(x),
        ) && !realms.serves(trimmed(y)) ==> lower(trimmed(x)) == lower(trimmed(y)),
        identifier(a, None, realms) == identifier(b, None, realms) <==> is_one_user(a, b),
        identifier(a, None, realms) != identifier(b, Some(x), realms),
{
    reveal_strlit("@");
    let m = lower(trimmed(a));
    let n = lower(trimmed(b));
    assert(m.len() == trimmed(a).len() && n.len() == trimmed(b).len());
    let p = identifier(a, Some(x), realms);
    let q = identifier(b, Some(y), realms);
    let q2 = identifier(b, Some(x), realms);
    no_at_sign(trimmed(a));
    no_at_sign(trimmed(b));
    assert(p[m.len() as int] == '@');
    assert(q[n.len() as int] == '@');
    assert(q2[n.len() as int] == '@');
    if p == q {
        if m.len() < n.len() {
            assert(q[m.len() as int] == n[m.len() as int]);
            assert(n.contains(n[m.len() as int]));
        }
        if n.len() < m.len() {
            assert(p[n.len() as int] == m[n.len() as int]);
            assert(m.contains(m[n.len() as int]));
        }
        assert(m =~= p.take(m.len() as int));
        assert(n =~= q.take(n.len() as int));
        assert(p.skip((m.len() + 1) as int) == q.skip((n.len() + 1) as int));
        if !realms.serves(trimmed(x)) {
            assert(p.skip((m.len() + 1) as int) =~= lower(trimmed(x)));
        }
        if !realms.serves(trimmed(y)) {
            assert(q.skip((n.len() + 1) as int) =~= lower(trimmed(y)));
        }
    }
    if identifier(a, None, realms) == q2 {
        assert(m[n.len() as int] == '@');
        assert(m.contains(m[n.len() as int]));
    }
}

proof fn no_at_sign(s: Seq<char>)
    requires
        !s.contains('@'),
    ensures
        !lower(s).contains('@'),
{
    if lower(s).contains('@') {
        let i = choose|i: int| 0 <= i < lower(s).len() && lower(s)[i] == '@';
        assert(lower_char(s[i]) == '@');
        assert(s[i] == '@');
    }
}

/// A URI names a binding by its contact, its registered address or its GRUU. Two URIs
/// that are written alike up to case mean the same; two that are not do so only where
/// they have one user.
pub proof fn uris_match_by_text_or_user(a: Uri, b: Uri)
    ensures
        lower(a.text()) == lower(b.text()) ==> same_uri(a, b),
        opt_text(a.user) != opt_text(b.user) && lower(a.text()) != lower(b.text()) ==> !same_uri(a, b),
        opt_text(a.user) == opt_text(b.user) && local_realm(a.host@) && local_realm(b.host@)
            ==> same_uri(a, b),
        lower(a.host@) != lower(b.host@) && !(local_realm(a.host@) && local_realm(b.host@)) && lower(
            a.text(),
        ) != lower(b.text()) ==> !same_uri(a, b),
{
}

/// A URI finds a binding by its contact, by its registered address and by its GRUU, and
/// by nothing else.
pub proof fn binding_is_named_by_its_addresses(l: Location, uri: Uri)
    ensures
        lower(l.aor.text()) == lower(uri.text()) ==> direct_hit(l, uri),
        l.registered_aor matches Some(a) && lower(a.text()) == lower(uri.text()) ==> direct_hit(
            l,
            uri,
        ),
        l.gruu matches Some(g) && lower(g@) == lower(uri.text()) ==> direct_hit(l, uri),
        direct_hit(l, uri) && !same_uri(l.aor, uri) && l.registered_aor is None ==> (
        l.gruu matches Some(g) && lower(g@) == lower(uri.text())),
        direct_hit(l, uri) && !same_uri(l.aor, uri) && l.gruu is None ==> (
        l.registered_aor matches Some(a) && same_uri(a, uri)),
{
}

/// When an address is gone, so are the bindings that are reached there, by the same
/// transport, host and port; all others stay.
pub proof fn bindings_go_with_their_address(s: Seq<Binding>, addr: SipAddr, k: int)
    requires
        0 <= k < s.len(),
    ensures
        s.filter(|b: Binding| !reached_at(b.location, addr)).contains(s[k]) <==> !(
        s[k].location.destination matches Some(d) && d.transport == addr.transport && d.host@
            == addr.host@ && d.port == addr.port),
{
    let f = |b: Binding| !reached_at(b.location, addr);
    if f(s[k]) {
        s.lemma_filter_contains(f, k);
    } else if s.filter(f).contains(s[k]) {
        let j = choose|j: int| 0 <= j < s.filter(f).len() && s.filter(f)[j] == s[k];
        s.lemma_filter_pred(f, j);
    }
}

/// The host of a realm is what stands before its port, or between its brackets.
pub proof fn host_stands_before_the_port(host: Seq<char>, port: u16)
    requires
        host.len() > 0,
        !host.contains(':') && !host.contains(']'),
        host[0] != '[',
        !is_white(host[0]) && !is_white(host.last()),
    ensures
        bare_host(host) == host,
        bare_host(host + seq![':'] + decimal(port as nat)) == host,
        bare_host(seq!['['] + host + seq![']']) == host,
{
    let d = decimal(port as nat);
    let whole = host + seq![':'] + d;
    written_number_has_digits_only(port as nat);
    written_number_lacks_others(port as nat, ':');
    written_number_lacks_others(port as nat, ']');
    text_without_white_ends_is_trimmed(host);
    assert(whole.last() == d[d.len() - 1]);
    assert('0' <= d[d.len() - 1] && d[d.len() - 1] <= '9');
    text_without_white_ends_is_trimmed(whole);
    text_is_parted_at_the_first(host, ':', d);
    let b = seq!['['] + host + seq![']'];
    text_without_white_ends_is_trimmed(b);
    assert(b[b.len() - 1] == ']');
    assert(b.contains(']'));
    first_index_facts(b, ']');
    assert forall|i: int| 0 <= i <= host.len() implies b[i] != ']' by {
        if i > 0 {
            assert(b[i] == host[i - 1]);
            assert(host.contains(host[i - 1]));
        }
    }
    assert(first_index(b, ']') == host.len() + 1);
    assert(b.subrange(1, (host.len() + 1) as int) =~= host);
}

/// This host is known by its names in any case, with a port or without, and by its
/// addresses; any other name is of another host.
pub proof fn this_host_has_its_names(host: Seq<char>, port: u16)
    requires
        host.len() > 0,
        !host.contains(':') && !host.contains(']'),
        host[0] != '[',
        !is_white(host[0]) && !is_white(host.last()),
    ensures
        local_realm(host) <==> lower(host) == "localhost"@ || lower(host) == "127.0.0.1"@ || lower(host)
            == "0.0.0.0"@ || local_ip(host),
        local_realm(host + seq![':'] + decimal(port as nat)) == local_realm(host),
{
    reveal_strlit("::1");
    host_stands_before_the_port(host, port);
    text_without_white_ends_is_trimmed(host);
    let d = decimal(port as nat);
    let whole = host + seq![':'] + d;
    written_number_has_digits_only(port as nat);
    assert(whole.last() == d[d.len() - 1]);
    assert('0' <= d[d.len() - 1] && d[d.len() - 1] <= '9');
    text_without_white_ends_is_trimmed(whole);
    if lower(host) == "::1"@ {
        assert(lower(host)[0] == ':');
        assert(lower_char(host[0]) == ':');
        assert(host.contains(host[0]));
    }
}

/// Of the answers for a realm the first counts.
pub proof fn first_answer_for_a_realm_counts(answers: Seq<(String, bool)>, realm: Seq<char>, k: int)
    requires
        0 <= k <= answers.len(),
        forall|j: int| 0 <= j < k ==> (#[trigger] answers[j]).0@ != realm,
        k < answers.len() ==> answers[k].0@ == realm,
    ensures
        k < answers.len() ==> answer_for(answers, realm) == Some(answers[k].1),
        k == answers.len() ==> answer_for(answers, realm) is None,
    decreases k,
{
    if k > 0 {
        let rest = answers.drop_first();
        assert(answers[0].0@ != realm);
        assert forall|j: int| 0 <= j < k - 1 implies (#[trigger] rest[j]).0@ != realm by {
            assert(rest[j] == answers[j + 1]);
        }
        if k < answers.len() {
            assert(rest[k - 1] == answers[k]);
        }
        first_answer_for_a_realm_counts(rest, realm, k - 1);
    }
}

/// Two URIs of hosts that are not this one mean the same only if they are written alike
/// up to case, but for hosts under `.invalid`, for which user and host are enough.
pub proof fn uris_of_other_hosts_are_compared_in_full(a: Uri, b: Uri)
    requires
        !(local_realm(a.host@) && local_realm(b.host@)),
    ensures
        !has_suffix(a.host@, ".invalid"@) && !has_suffix(b.host@, ".invalid"@) ==> (same_uri(a, b)
            <==> lower(a.text()) == lower(b.text())),
        has_suffix(a.host@, ".invalid"@) && opt_text(a.user) == opt_text(b.user) && lower(a.host@)
            == lower(b.host@) ==> same_uri(a, b),
{
}

/// A binding keeps the time at which it was modified; one that has none gets the time at
/// which it is registered. All else is kept as it is.
pub proof fn binding_keeps_its_time(l: Location, now: u64)
    ensures
        l.last_modified is Some ==> kept(l, now) == l,
        l.last_modified is None ==> kept(l, now).last_modified == Some(now),
        kept(l, now).aor == l.aor && kept(l, now).destination == l.destination && kept(l, now).expires
            == l.expires && kept(l, now).binding == l.binding,
{
}

/// A user is known by the name in lower case and, behind an at sign, by the realm: all
/// realms that are served here go by one name.
pub proof fn user_goes_by_name_and_realm<R: RealmChecker>(user: Seq<char>, realm: Seq<char>, realms: &R)
    requires
        trimmed(user).len() > 0,
    ensures
        identifier(user, None, realms) == lower(trimmed(user)),
        trimmed(realm).len() == 0 ==> identifier(user, Some(realm), realms) == lower(trimmed(user)),
        trimmed(realm).len() > 0 && realms.serves(trimmed(realm)) ==> identifier(
            user,
            Some(realm),
            realms,
        ) == lower(trimmed(user)) + "@localhost"@,
        trimmed(realm).len() > 0 && !realms.serves(trimmed(realm)) ==> identifier(
            user,
            Some(realm),
            realms,
        ) == lower(trimmed(user)) + seq!['@'] + lower(trimmed(realm)),
{
    reveal_strlit("@localhost");
    reveal_strlit("localhost");
    reveal_strlit("@");
    assert(lower(trimmed(user)).len() == trimmed(user).len());
    assert(lower(trimmed(user)) + "@"@ + "localhost"@ =~= lower(trimmed(user)) + "@localhost"@);
    assert(lower(trimmed(user)) + "@"@ + lower(trimmed(realm)) =~= lower(trimmed(user)) + seq!['@'] + lower(
        trimmed(realm),
    ));
}

/// Two realms are one where both are served here, where their hosts are written alike up
/// to case and port, and where none is asked for.
pub proof fn realms_are_compared_by_host<R: RealmChecker>(a: Seq<char>, b: Seq<char>, realms: &R)
    ensures
        trimmed(a).len() == 0 ==> same_realm(a, b, realms),
        realms.serves(trimmed(a)) && realms.serves(trimmed(b)) ==> same_realm(a, b, realms),
        a == b ==> same_realm(a, b, realms),
        trimmed(a).len() > 0 && !realms.serves(trimmed(a)) && lower(bare_host(trimmed(a))) != lower(
            bare_host(trimmed(b)),
        ) ==> !same_realm(a, b, realms),
{
}

} // verus!
