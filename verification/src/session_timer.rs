//! Session timers: how long a confirmed dialog lives without a refresh and which
//! side refreshes it. Moments are in milliseconds, intervals in seconds.
use vstd::prelude::*;
use crate::sip::{Header, HeaderView, header_views};
use crate::text::{
    before, chars_of, decimal, eq_ignoring_case, has_prefix, is_white, lower, opt_text, own,
    parse_number, parse_unsigned, same_ignoring_case, split, split_first, split_on, starts_with,
    string_of, text_is_split_at_each, text_without_white_ends_is_trimmed, texts, trim, trimmed,
    written_number_has_digits_only, written_number_is_read_back, written_number_lacks_others,
};

verus! {

/// The side that refreshes a session.
#[derive(Clone, Copy, Debug, PartialEq, Eq, Structural)]
pub enum SessionRefresher {
    Uac,
    Uas,
}

impl SessionRefresher {
    /// The name of the side in a header.
    pub open spec fn name_text(self) -> Seq<char> {
        match self {
            SessionRefresher::Uac => "uac"@,
            SessionRefresher::Uas => "uas"@,
        }
    }

    /// The name of the side in a header.
    pub fn name(&self) -> (r: String)
        ensures
            r@ == self.name_text(),
    {
        match self {
            SessionRefresher::Uac => own("uac"),
            SessionRefresher::Uas => own("uas"),
        }
    }
}

/// The state of a session timer.
#[derive(Clone, Copy, Debug)]
pub struct SessionTimerState {
    pub enabled: bool,
    pub active: bool,
    pub refreshing: bool,
    pub session_interval: u64,
    pub last_refresh: u64,
    pub refresher: SessionRefresher,
}

/// The milliseconds since `then`; none where `then` lies ahead.
pub open spec fn elapsed(now: u64, then: u64) -> int {
    if now >= then {
        now - then
    } else {
        0
    }
}

impl SessionTimerState {
    /// Whether the timer is not in use, with the interval that counts where none is
    /// agreed on.
    pub open spec fn is_idle_since(self, now: u64) -> bool {
        self == SessionTimerState {
            enabled: false,
            active: false,
            refreshing: false,
            session_interval: 1800,
            last_refresh: now,
            refresher: SessionRefresher::Uac,
        }
    }

    /// A timer that does not run.
    pub fn new(now: u64) -> (r: SessionTimerState)
        ensures
            r.is_idle_since(now),
    {
        SessionTimerState {
            enabled: false,
            active: false,
            refreshing: false,
            session_interval: 1800,
            last_refresh: now,
            refresher: SessionRefresher::Uac,
        }
    }

    /// Whether the session has gone without a refresh for the whole interval.
    pub open spec fn expired_at(self, now: u64) -> bool {
        self.active && elapsed(now, self.last_refresh) >= self.session_interval * 1000
    }

    /// Whether a refresh is due: half of the interval is over and none is under way.
    pub open spec fn due_at(self, now: u64) -> bool {
        self.active && !self.refreshing && elapsed(now, self.last_refresh) * 2
            >= self.session_interval * 1000
    }

    fn elapsed_since(&self, now: u64) -> (r: u64)
        ensures
            r == elapsed(now, self.last_refresh),
    {
        if now >= self.last_refresh {
            now - self.last_refresh
        } else {
            0
        }
    }

    /// Whether the session has gone without a refresh for the whole interval.
    pub fn is_expired(&self, now: u64) -> (r: bool)
        ensures
            r == self.expired_at(now),
    {
        self.active && self.elapsed_since(now) / 1000 >= self.session_interval
    }

    /// Whether a refresh is due.
    pub fn should_refresh(&self, now: u64) -> (r: bool)
        ensures
            r == self.due_at(now),
    {
        self.active && !self.refreshing && self.elapsed_since(now) / 500 >= self.session_interval
    }

    /// Notes a refresh.
    pub fn update_refresh(&mut self, now: u64)
        ensures
            *final(self) == (SessionTimerState { last_refresh: now, ..*old(self) }),
    {
        self.last_refresh = now;
    }
}

/// A running session becomes due for a refresh before it expires.
pub proof fn refresh_is_due_before_expiry(t: SessionTimerState, now: u64)
    requires
        t.expired_at(now),
        !t.refreshing,
    ensures
        t.due_at(now),
{
}

/// A refresh keeps a session with a positive interval alive.
pub proof fn refreshed_session_is_alive(t: SessionTimerState, now: u64)
    requires
        t.session_interval > 0,
    ensures
        !(SessionTimerState { last_refresh: now, ..t }).expired_at(now),
        !(SessionTimerState { last_refresh: now, ..t }).due_at(now),
{
}

/// The value of the first header without a type of its own that has a name,
/// whatever the case of its letters.
pub open spec fn other_header(h: Seq<HeaderView>, name: Seq<char>) -> Option<Seq<char>>
    decreases h.len(),
{
    if h.len() == 0 {
        None
    } else if h[0] is Other && same_ignoring_case(h[0]->Other_0, name) {
        Some(h[0]->Other_1)
    } else {
        other_header(h.drop_first(), name)
    }
}

/// See [`other_header`].
pub fn find_other_header(headers: &Vec<Header>, name: &str) -> (r: Option<String>)
    ensures
        opt_text(r) == other_header(header_views(headers@), name@),
{
    let ghost all = header_views(headers@);
    let mut i: usize = 0;
    assert(all.skip(0) =~= all);
    while i < headers.len()
        invariant
            i <= headers.len(),
            all == header_views(headers@),
            other_header(all.skip(i as int), name@) == other_header(all, name@),
        decreases headers.len() - i,
    {
        assert(all.skip(i as int)[0] == headers@[i as int]@);
        assert(all.skip(i as int).drop_first() =~= all.skip(i + 1));
        if let Header::Other(n, v) = &headers[i] {
            if eq_ignoring_case(n.as_str(), name) {
                return Some(v.clone());
            }
        }
        i += 1;
    }
    assert(all.skip(i as int) =~= Seq::empty());
    None
}

/// Whether one of the entries is `tag`, without the white space around it and
/// whatever the case of its letters.
pub open spec fn has_entry(entries: Seq<Seq<char>>, tag: Seq<char>) -> bool {
    exists|i: int|
        0 <= i < entries.len() && same_ignoring_case(trimmed(#[trigger] entries[i]), tag)
}

/// Whether the entries of `list`, which commas separate, hold `tag`.
pub fn lists_tag(list: &str, tag: &str) -> (r: bool)
    ensures
        r == has_entry(split_on(list@, ','), tag@),
{
    let parts = split(list, ',');
    let ghost entries = split_on(list@, ',');
    let mut i: usize = 0;
    while i < parts.len()
        invariant
            i <= parts.len(),
            texts(parts@) == entries,
            entries == split_on(list@, ','),
            forall|k: int|
                0 <= k < i ==> !same_ignoring_case(trimmed(#[trigger] entries[k]), tag@),
        decreases parts.len() - i,
    {
        let t = trim(parts[i].as_str());
        assert(entries[i as int] == parts@[i as int]@);
        if eq_ignoring_case(t.as_str(), tag) {
            assert(same_ignoring_case(trimmed(entries[i as int]), tag@));
            return true;
        }
        i += 1;
    }
    false
}

/// Whether a header names the timer extension as supported.
pub open spec fn names_timer(h: HeaderView) -> bool {
    match h {
        HeaderView::Supported(v) => has_entry(split_on(v, ','), "timer"@),
        HeaderView::Other(n, v) => same_ignoring_case(n, "Supported"@) && has_entry(
            split_on(v, ','),
            "timer"@,
        ),
        _ => false,
    }
}

/// Whether a header names the timer extension as supported.
fn is_timer_header(h: &Header) -> (r: bool)
    ensures
        r == names_timer(h@),
{
    match h {
        Header::Supported(v) => lists_tag(v.as_str(), "timer"),
        Header::Other(n, v) => eq_ignoring_case(n.as_str(), "Supported") && lists_tag(
            v.as_str(),
            "timer",
        ),
        _ => false,
    }
}

/// Whether the headers name the timer extension as supported.
pub fn has_timer_support(headers: &Vec<Header>) -> (r: bool)
    ensures
        r == exists|i: int| 0 <= i < headers.len() && names_timer((#[trigger] headers@[i])@),
{
    let mut i: usize = 0;
    while i < headers.len()
        invariant
            i <= headers.len(),
            forall|k: int| 0 <= k < i ==> !names_timer((#[trigger] headers@[k])@),
        decreases headers.len() - i,
    {
        if is_timer_header(&headers[i]) {
            return true;
        }
        i += 1;
    }
    false
}

/// The refresher that a parameter of a `Session-Expires` header names.
pub open spec fn refresher_param(p: Seq<char>) -> Option<SessionRefresher> {
    let t = trimmed(p);
    if !has_prefix(t, "refresher="@) {
        None
    } else if same_ignoring_case(t.skip(10), "uac"@) {
        Some(SessionRefresher::Uac)
    } else if same_ignoring_case(t.skip(10), "uas"@) {
        Some(SessionRefresher::Uas)
    } else {
        None
    }
}

/// The refresher that the parameters name; the last one counts.
pub open spec fn last_refresher(params: Seq<Seq<char>>) -> Option<SessionRefresher>
    decreases params.len(),
{
    if params.len() == 0 {
        None
    } else if refresher_param(params.last()) is Some {
        refresher_param(params.last())
    } else {
        last_refresher(params.drop_last())
    }
}

/// What a `Session-Expires` value says: the interval in seconds and the
/// refresher, where it names one.
pub open spec fn session_expires(value: Seq<char>) -> Option<(nat, Option<SessionRefresher>)> {
    let parts = split_on(value, ';');
    match parse_number(trimmed(parts[0]), u64::MAX as nat) {
        Some(n) => Some((n, last_refresher(parts.skip(1)))),
        None => None,
    }
}

fn parse_refresher(p: &str) -> (r: Option<SessionRefresher>)
    ensures
        r == refresher_param(p@),
{
    let t = trim(p);
    if !starts_with(t.as_str(), "refresher=") {
        return None;
    }
    proof {
        reveal_strlit("refresher=");
    }
    let v = chars_of(t.as_str());
    let name = string_of(&v, 10, v.len());
    assert(name@ =~= t@.skip(10));
    if eq_ignoring_case(name.as_str(), "uac") {
        Some(SessionRefresher::Uac)
    } else if eq_ignoring_case(name.as_str(), "uas") {
        Some(SessionRefresher::Uas)
    } else {
        None
    }
}

/// See [`session_expires`].
pub fn parse_session_expires(value: &str) -> (r: Option<(u64, Option<SessionRefresher>)>)
    ensures
        session_expires(value@) == (match r {
            Some((n, f)) => Some((n as nat, f)),
            None => None,
        }),
{
    let parts = split(value, ';');
    let ghost all = split_on(value@, ';');
    assert(all[0] == parts@[0]@);
    let first = trim(parts[0].as_str());
    let interval = match parse_unsigned(first.as_str(), u64::MAX) {
        Some(n) => n,
        None => return None,
    };
    let mut refresher: Option<SessionRefresher> = None;
    let mut i: usize = 1;
    assert(all.skip(1).take(0) =~= Seq::empty());
    while i < parts.len()
        invariant
            1 <= i <= parts.len(),
            texts(parts@) == all,
            refresher == last_refresher(all.skip(1).take(i - 1)),
        decreases parts.len() - i,
    {
        let p = parse_refresher(parts[i].as_str());
        proof {
            let now = all.skip(1).take(i as int);
            assert(now.drop_last() =~= all.skip(1).take(i - 1));
            assert(now.last() == all[i as int]);
            assert(all[i as int] == parts@[i as int]@);
        }
        if p.is_some() {
            refresher = p;
        }
        i += 1;
    }
    assert(all.skip(1).take(i - 1) =~= all.skip(1));
    Some((interval, refresher))
}

/// The seconds that a `Min-SE` value asks for: the number before its parameters.
pub fn parse_min_se(value: &str) -> (r: Option<u64>)
    ensures
        parse_number(trimmed(before(value@, ';')), u64::MAX as nat) == (match r {
            Some(n) => Some(n as nat),
            None => None,
        }),
{
    let parts = split_first(value, ';');
    let t = trim(parts.0.as_str());
    parse_unsigned(t.as_str(), u64::MAX)
}

/// A session that runs expires when its interval, in seconds, has passed since the last
/// refresh, and is due for a refresh when half of it has; one that does not run is
/// neither.
pub proof fn session_lasts_for_its_interval(t: SessionTimerState, now: u64)
    ensures
        !t.active ==> !t.expired_at(now) && !t.due_at(now),
        t.refreshing ==> !t.due_at(now),
        t.active && now >= t.last_refresh ==> (t.expired_at(now) <==> now - t.last_refresh
            >= t.session_interval * 1000),
        t.active && !t.refreshing && now >= t.last_refresh ==> (t.due_at(now) <==> now
            - t.last_refresh >= t.session_interval * 500),
        t.session_interval > 0 && now <= t.last_refresh ==> !t.expired_at(now) && !t.due_at(now),
{
}

/// The first header of a name is the one that counts, whatever the case of the name;
/// headers of other names do not.
pub proof fn first_header_of_a_name_counts(h: Seq<HeaderView>, name: Seq<char>, i: int)
    requires
        0 <= i <= h.len(),
        forall|k: int|
            0 <= k < i ==> !((#[trigger] h[k]) is Other && lower(h[k]->Other_0) == lower(name)),
    ensures
        i == h.len() ==> other_header(h, name) is None,
        i < h.len() ==> (h[i] matches HeaderView::Other(n, v) ==> lower(n) == lower(name)
            ==> other_header(h, name) == Some(v)),
    decreases i,
{
    if i > 0 {
        let rest = h.drop_first();
        assert(!(h[0] is Other && lower(h[0]->Other_0) == lower(name)));
        assert forall|k: int| 0 <= k < i - 1 implies !((#[trigger] rest[k]) is Other && lower(
            rest[k]->Other_0,
        ) == lower(name)) by {
            assert(rest[k] == h[k + 1]);
        }
        first_header_of_a_name_counts(rest, name, i - 1);
        if i < h.len() {
            assert(rest[i - 1] == h[i]);
        }
    }
}

/// A list of supported extensions has the timer among them where one of its parts has.
pub proof fn timer_is_named_anywhere_in_the_list(a: Seq<char>, b: Seq<char>)
    ensures
        names_timer(HeaderView::Supported("timer"@)),
        names_timer(HeaderView::Supported(a + seq![','] + b)) <==> names_timer(
            HeaderView::Supported(a),
        ) || names_timer(HeaderView::Supported(b)),
        names_timer(HeaderView::Other("Supported"@, a)) == names_timer(HeaderView::Supported(a)),
        !names_timer(HeaderView::UserAgent(a)) && !names_timer(HeaderView::Contact(a)),
{
    reveal_strlit("timer");
    let t = "timer"@;
    let none = Seq::<char>::empty();
    assert(!t.contains(',')) by {
        assert forall|i: int| 0 <= i < t.len() implies t[i] != ',' by {}
    }
    text_is_split_at_each(t, ',', none);
    text_without_white_ends_is_trimmed(t);
    assert(same_ignoring_case(trimmed(split_on(t, ',')[0]), t));
    text_is_split_at_each(a, ',', b);
    let p = split_on(a, ',');
    let q = split_on(b, ',');
    let r = split_on(a + seq![','] + b, ',');
    if has_entry(r, t) {
        let i = choose|i: int| 0 <= i < r.len() && same_ignoring_case(trimmed(#[trigger] r[i]), t);
        if i < p.len() {
            assert(p[i] == r[i]);
        } else {
            assert(q[i - p.len()] == r[i]);
        }
    }
    if has_entry(p, t) {
        let i = choose|i: int| 0 <= i < p.len() && same_ignoring_case(trimmed(#[trigger] p[i]), t);
        assert(r[i] == p[i]);
    }
    if has_entry(q, t) {
        let i = choose|i: int| 0 <= i < q.len() && same_ignoring_case(trimmed(#[trigger] q[i]), t);
        assert(r[p.len() + i] == q[i]);
    }
}

/// What a `Session-Expires` header says is read back: its interval, and the side that
/// is to refresh, where it names one.
pub proof fn session_interval_is_read_back(n: u64, side: SessionRefresher)
    ensures
        session_expires(decimal(n as nat)) == Some((n as nat, None::<SessionRefresher>)),
        session_expires(decimal(n as nat) + ";refresher="@ + side.name_text()) == Some(
            (n as nat, Some(side)),
        ),
        SessionRefresher::Uac.name_text() == "uac"@,
        SessionRefresher::Uas.name_text() == "uas"@,
{
    reveal_strlit(";refresher=");
    reveal_strlit("refresher=");
    reveal_strlit("uac");
    reveal_strlit("uas");
    let d = decimal(n as nat);
    let none = Seq::<char>::empty();
    written_number_lacks_others(n as nat, ';');
    written_number_has_digits_only(n as nat);
    written_number_is_read_back(n as nat, u64::MAX as nat);
    text_is_split_at_each(d, ';', none);
    assert(split_on(d, ';').skip(1) =~= Seq::empty());
    let p = "refresher="@ + side.name_text();
    let whole = d + ";refresher="@ + side.name_text();
    assert(whole =~= d + seq![';'] + p);
    text_is_split_at_each(d, ';', p);
    assert(!p.contains(';')) by {
        assert forall|i: int| 0 <= i < p.len() implies p[i] != ';' by {}
    }
    text_is_split_at_each(p, ';', none);
    let parts = split_on(whole, ';');
    assert(parts =~= seq![d] + seq![p]);
    assert(parts[0] == d);
    assert(parts.skip(1) =~= seq![p]);
    text_without_white_ends_is_trimmed(p);
    assert(p.take(10) =~= "refresher="@);
    assert(p.skip(10) =~= side.name_text());
    assert("uac"@[2] == 'c' && "uas"@[2] == 's');
    assert(lower("uac"@)[2] == 'c' && lower("uas"@)[2] == 's');
    assert(refresher_param(p) == Some(side));
    assert(parts.skip(1).last() == p);
}

/// Of several refreshers that a header names the last counts.
pub proof fn last_refresher_counts(params: Seq<Seq<char>>, k: int)
    requires
        -1 <= k < params.len(),
        forall|j: int| k < j < params.len() ==> refresher_param(#[trigger] params[j]) is None,
        k >= 0 ==> refresher_param(params[k]) is Some,
    ensures
        k >= 0 ==> last_refresher(params) == refresher_param(params[k]),
        k < 0 ==> last_refresher(params) is None,
    decreases params.len(),
{
    if params.len() > 0 && k < params.len() - 1 {
        let head = params.drop_last();
        let n = params.len() - 1;
        assert(refresher_param(params[n]) is None);
        assert forall|j: int| k < j < head.len() implies refresher_param(#[trigger] head[j]) is None by {
            assert(head[j] == params[j]);
        }
        if k >= 0 {
            assert(head[k] == params[k]);
        }
        last_refresher_counts(head, k);
    }
}

/// A parameter names the refresher in any case; any other parameter names none.
pub proof fn refresher_is_named_in_any_case(value: Seq<char>)
    requires
        value.len() > 0,
        !is_white(value.last()),
    ensures
        lower(value) == "uac"@ ==> refresher_param("refresher="@ + value) == Some(SessionRefresher::Uac),
        lower(value) == "uas"@ ==> refresher_param("refresher="@ + value) == Some(SessionRefresher::Uas),
        lower(value) != "uac"@ && lower(value) != "uas"@ ==> refresher_param("refresher="@ + value) is None,
{
    reveal_strlit("refresher=");
    reveal_strlit("uac");
    reveal_strlit("uas");
    let p = "refresher="@ + value;
    text_without_white_ends_is_trimmed(p);
    assert(p.take(10) =~= "refresher="@);
    assert(p.skip(10) =~= value);
    assert(lower("uac"@) =~= "uac"@);
    assert(lower("uas"@) =~= "uas"@);
    assert("uac"@[2] == 'c' && "uas"@[2] == 's');
}

} // verus!
