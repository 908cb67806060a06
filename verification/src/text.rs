//! Text helpers: the string operations that the other modules reason about,
//! each stated over the sequence of characters of its arguments.
use vstd::prelude::*;

verus! {

/// `String::push`: the character is appended to the end.
pub assume_specification[ String::push ](s: &mut String, c: char)
    ensures
        final(s)@ == old(s)@.push(c),
;

/// The contents of an optional string.
pub open spec fn opt_text(o: Option<String>) -> Option<Seq<char>> {
    match o {
        Some(s) => Some(s@),
        None => None,
    }
}

/// The contents of each string of a sequence.
pub open spec fn texts(v: Seq<String>) -> Seq<Seq<char>> {
    Seq::new(v.len(), |i: int| v[i]@)
}

/// The characters of a string, in order.
pub fn chars_of(s: &str) -> (r: Vec<char>)
    ensures
        r@ == s@,
{
    let mut out: Vec<char> = Vec::new();
    for c in it: s.chars()
        invariant
            it.seq() == s@,
            out@ == s@.take(it.index() as int),
    {
        out.push(c);
        assert(s@.take(it.index() as int + 1) == s@.take(it.index() as int).push(s@[it.index() as int]));
    }
    assert(s@.take(s@.len() as int) == s@);
    out
}

/// The string that holds the characters of `v[from..to]`.
pub fn string_of(v: &Vec<char>, from: usize, to: usize) -> (r: String)
    requires
        from <= to <= v.len(),
    ensures
        r@ == v@.subrange(from as int, to as int),
{
    let mut out = String::new();
    let mut i: usize = from;
    while i < to
        invariant
            from <= i <= to <= v.len(),
            out@ == v@.subrange(from as int, i as int),
        decreases to - i,
    {
        out.push(v[i]);
        i += 1;
        assert(v@.subrange(from as int, i as int) == v@.subrange(from as int, i - 1).push(v@[i - 1]));
    }
    out
}

/// A string that holds the same characters.
pub fn own(s: &str) -> (r: String)
    ensures
        r@ == s@,
{
    s.to_owned()
}

/// A copy of an optional string.
pub fn own_opt(o: &Option<String>) -> (r: Option<String>)
    ensures
        r == *o,
        opt_text(r) == opt_text(*o),
{
    match o {
        Some(s) => Some(s.clone()),
        None => None,
    }
}

/// Whether two strings hold the same characters.
pub fn same(a: &str, b: &str) -> (r: bool)
    ensures
        r == (a@ == b@),
{
    own(a) == own(b)
}


/// Whether two optional strings are equal.
pub fn same_opt(a: &Option<String>, b: &Option<String>) -> (r: bool)
    ensures
        r == (opt_text(*a) == opt_text(*b)),
{
    match (a, b) {
        (Some(x), Some(y)) => *x == *y,
        (None, None) => true,
        _ => false,
    }
}

/// The concatenation of two strings.
pub fn join2(a: &str, b: &str) -> (r: String)
    ensures
        r@ == a@ + b@,
{
    let mut out = own(a);
    out.append(b);
    out
}

/// The concatenation of three strings.
pub fn join3(a: &str, b: &str, c: &str) -> (r: String)
    ensures
        r@ == a@ + b@ + c@,
{
    let mut out = join2(a, b);
    out.append(c);
    out
}

/// A copy of a list of strings.
pub fn own_all(v: &Vec<String>) -> (r: Vec<String>)
    ensures
        r@ == v@,
{
    let mut out: Vec<String> = Vec::new();
    let mut i: usize = 0;
    while i < v.len()
        invariant
            i <= v.len(),
            out@ == v@.take(i as int),
        decreases v.len() - i,
    {
        out.push(v[i].clone());
        i += 1;
        assert(v@.take(i as int) =~= v@.take(i - 1).push(v@[i - 1]));
    }
    assert(v@.take(i as int) =~= v@);
    out
}

/// Whether a character has the Unicode property `White_Space`.
pub open spec fn is_white(c: char) -> bool {
    ||| 0x9 <= c as u32 <= 0xD
    ||| c as u32 == 0x20
    ||| c as u32 == 0x85
    ||| c as u32 == 0xA0
    ||| c as u32 == 0x1680
    ||| 0x2000 <= c as u32 <= 0x200A
    ||| c as u32 == 0x2028
    ||| c as u32 == 0x2029
    ||| c as u32 == 0x202F
    ||| c as u32 == 0x205F
    ||| c as u32 == 0x3000
}

pub fn is_white_char(c: char) -> (r: bool)
    ensures
        r == is_white(c),
{
    let u: u32 = c as u32;
    (0x9 <= u && u <= 0xD) || u == 0x20 || u == 0x85 || u == 0xA0 || u == 0x1680 || (0x2000 <= u && u
        <= 0x200A) || u == 0x2028 || u == 0x2029 || u == 0x202F || u == 0x205F || u == 0x3000
}

/// A text without its leading white space.
pub open spec fn trim_start(s: Seq<char>) -> Seq<char>
    decreases s.len(),
{
    if s.len() > 0 && is_white(s[0]) {
        trim_start(s.drop_first())
    } else {
        s
    }
}

/// A text without its trailing white space.
pub open spec fn trim_end(s: Seq<char>) -> Seq<char>
    decreases s.len(),
{
    if s.len() > 0 && is_white(s.last()) {
        trim_end(s.drop_last())
    } else {
        s
    }
}

/// A text without the white space at its two ends.
pub open spec fn trimmed(s: Seq<char>) -> Seq<char> {
    trim_end(trim_start(s))
}

/// The bounds of `v` without the white space at its two ends.
pub fn trim_bounds(v: &Vec<char>) -> (r: (usize, usize))
    ensures
        r.0 <= r.1 <= v.len(),
        v@.subrange(r.0 as int, r.1 as int) == trimmed(v@),
{
    let mut a: usize = 0;
    assert(v@.subrange(0, v@.len() as int) == v@);
    while a < v.len() && is_white_char(v[a])
        invariant
            a <= v.len(),
            trim_start(v@.subrange(a as int, v@.len() as int)) == trim_start(v@),
        decreases v.len() - a,
    {
        assert(v@.subrange(a as int, v@.len() as int).drop_first() == v@.subrange(a + 1, v@.len() as int));
        a += 1;
    }
    let mut b: usize = v.len();
    let ghost rest = trim_start(v@);
    assert(rest == v@.subrange(a as int, v@.len() as int));
    assert(rest.subrange(0, rest.len() as int) == rest);
    while a < b && is_white_char(v[b - 1])
        invariant
            a <= b <= v.len(),
            rest == v@.subrange(a as int, v@.len() as int),
            trim_end(rest.subrange(0, b - a)) == trim_end(rest),
        decreases b,
    {
        assert(rest.subrange(0, b - a).drop_last() == rest.subrange(0, b - a - 1));
        b -= 1;
    }
    assert(rest.subrange(0, b - a) == v@.subrange(a as int, b as int));
    (a, b)
}

/// `str::trim`.
pub fn trim(s: &str) -> (r: String)
    ensures
        r@ == trimmed(s@),
{
    let v = chars_of(s);
    let b = trim_bounds(&v);
    string_of(&v, b.0, b.1)
}

/// Trimming leaves nothing to trim.
pub proof fn trimmed_is_stable(s: Seq<char>)
    ensures
        trimmed(trimmed(s)) == trimmed(s),
{
    let a = trim_start(s);
    let b = trim_end(a);
    trim_start_head(s);
    trim_end_prefix(a);
    trim_end_last(a);
}

proof fn trim_start_head(s: Seq<char>)
    ensures
        trim_start(s).len() > 0 ==> !is_white(trim_start(s)[0]),
    decreases s.len(),
{
    if s.len() > 0 && is_white(s[0]) {
        trim_start_head(s.drop_first());
    }
}

proof fn trim_end_last(s: Seq<char>)
    ensures
        trim_end(s).len() > 0 ==> !is_white(trim_end(s).last()),
    decreases s.len(),
{
    if s.len() > 0 && is_white(s.last()) {
        trim_end_last(s.drop_last());
    }
}

proof fn trim_end_prefix(s: Seq<char>)
    ensures
        trim_end(s).len() <= s.len(),
        trim_end(s) == s.take(trim_end(s).len() as int),
    decreases s.len(),
{
    if s.len() > 0 && is_white(s.last()) {
        trim_end_prefix(s.drop_last());
        assert(s.drop_last().take(trim_end(s).len() as int) == s.take(trim_end(s).len() as int));
    } else {
        assert(s.take(s.len() as int) == s);
    }
}

/// The lower-case form of an ASCII letter; any other character itself.
pub open spec fn lower_char(c: char) -> char {
    if 'A' <= c && c <= 'Z' {
        (c as u8 + 32) as char
    } else {
        c
    }
}

/// A text with its ASCII letters in lower case.
pub open spec fn lower(s: Seq<char>) -> Seq<char> {
    s.map_values(|c: char| lower_char(c))
}

/// The upper-case form of an ASCII letter; any other character itself.
pub open spec fn upper_char(c: char) -> char {
    if 'a' <= c && c <= 'z' {
        (c as u8 - 32) as char
    } else {
        c
    }
}

/// A text with its ASCII letters in upper case.
pub open spec fn upper(s: Seq<char>) -> Seq<char> {
    s.map_values(|c: char| upper_char(c))
}

/// Equality of texts up to the case of ASCII letters.
pub open spec fn same_ignoring_case(a: Seq<char>, b: Seq<char>) -> bool {
    lower(a) == lower(b)
}

pub fn to_lower_char(c: char) -> (r: char)
    ensures
        r == lower_char(c),
{
    if 'A' <= c && c <= 'Z' {
        ((c as u8) + 32) as char
    } else {
        c
    }
}

/// `str::to_ascii_lowercase`.
pub fn to_lower(s: &str) -> (r: String)
    ensures
        r@ == lower(s@),
{
    let v = chars_of(s);
    let mut out = String::new();
    let mut i: usize = 0;
    while i < v.len()
        invariant
            i <= v.len(),
            v@ == s@,
            out@ == lower(s@).take(i as int),
        decreases v.len() - i,
    {
        out.push(to_lower_char(v[i]));
        i += 1;
        assert(lower(s@).take(i as int) == lower(s@).take(i - 1).push(lower(s@)[i - 1]));
    }
    assert(lower(s@).take(i as int) == lower(s@));
    out
}

/// `str::eq_ignore_ascii_case`.
pub fn eq_ignoring_case(a: &str, b: &str) -> (r: bool)
    ensures
        r == same_ignoring_case(a@, b@),
{
    to_lower(a) == to_lower(b)
}


/// The position of the first `c` in `s`, or the length of `s` without one.
pub open spec fn first_index(s: Seq<char>, c: char) -> int
    decreases s.len(),
{
    if s.len() == 0 {
        0
    } else if s[0] == c {
        0
    } else {
        1 + first_index(s.drop_first(), c)
    }
}

/// What `first_index` is: in bounds, at a `c` unless at the end, with none before it.
pub proof fn first_index_facts(s: Seq<char>, c: char)
    ensures
        0 <= first_index(s, c) <= s.len(),
        first_index(s, c) < s.len() ==> s[first_index(s, c)] == c,
        forall|k: int| 0 <= k < first_index(s, c) ==> s[k] != c,
        s.contains(c) <==> first_index(s, c) < s.len(),
    decreases s.len(),
{
    if s.len() > 0 && s[0] != c {
        let t = s.drop_first();
        first_index_facts(t, c);
        assert forall|k: int| 0 <= k < first_index(s, c) implies s[k] != c by {
            if k > 0 {
                assert(s[k] == t[k - 1]);
            }
        }
        if s.contains(c) {
            let k = choose|k: int| 0 <= k < s.len() && s[k] == c;
            assert(t[k - 1] == c);
        }
    }
}

proof fn first_index_unique(s: Seq<char>, c: char, k: int)
    requires
        0 <= k <= s.len(),
        forall|j: int| 0 <= j < k ==> s[j] != c,
        k < s.len() ==> s[k] == c,
    ensures
        first_index(s, c) == k,
{
    first_index_facts(s, c);
}

/// The position of the first `c` in `v`, or the length of `v`.
pub fn find_char(v: &Vec<char>, c: char) -> (r: usize)
    ensures
        r == first_index(v@, c),
        r <= v.len(),
{
    let mut i: usize = 0;
    while i < v.len() && v[i] != c
        invariant
            i <= v.len(),
            forall|j: int| 0 <= j < i ==> v@[j] != c,
        decreases v.len() - i,
    {
        i += 1;
    }
    proof {
        first_index_unique(v@, c, i as int);
    }
    i
}

/// `str::contains` of a character.
pub fn contains_char(s: &str, c: char) -> (r: bool)
    ensures
        r == s@.contains(c),
{
    let v = chars_of(s);
    let i = find_char(&v, c);
    proof {
        first_index_facts(s@, c);
    }
    i < v.len()
}

/// Whether `s` begins with `p`.
pub open spec fn has_prefix(s: Seq<char>, p: Seq<char>) -> bool {
    p.len() <= s.len() && s.take(p.len() as int) == p
}

/// Whether `s` ends with `p`.
pub open spec fn has_suffix(s: Seq<char>, p: Seq<char>) -> bool {
    p.len() <= s.len() && s.skip(s.len() - p.len()) == p
}

/// Whether `p` stands in `s` from position `i` on.
pub open spec fn occurs_at(s: Seq<char>, p: Seq<char>, i: int) -> bool {
    0 <= i && i + p.len() <= s.len() && s.subrange(i, i + p.len()) == p
}

/// Whether `p` stands somewhere in `s`.
pub open spec fn occurs(s: Seq<char>, p: Seq<char>) -> bool {
    exists|i: int| occurs_at(s, p, i)
}

/// Whether `p` stands in `v` from position `i` on.
pub fn matches_at(v: &Vec<char>, p: &Vec<char>, i: usize) -> (r: bool)
    ensures
        r == occurs_at(v@, p@, i as int),
{
    if i > v.len() || p.len() > v.len() - i {
        return false;
    }
    let mut k: usize = 0;
    while k < p.len()
        invariant
            k <= p.len(),
            i + p.len() <= v.len(),
            forall|j: int| 0 <= j < k ==> v@[i + j] == p@[j],
        decreases p.len() - k,
    {
        if v[i + k] != p[k] {
            assert(v@.subrange(i as int, i + p.len())[k as int] != p@[k as int]);
            return false;
        }
        k += 1;
    }
    assert(v@.subrange(i as int, i + p.len()) =~= p@);
    true
}

/// `str::starts_with`.
pub fn starts_with(s: &str, p: &str) -> (r: bool)
    ensures
        r == has_prefix(s@, p@),
{
    let v = chars_of(s);
    let q = chars_of(p);
    assert(s@.take(p@.len() as int) =~= s@.subrange(0, p@.len() as int));
    matches_at(&v, &q, 0)
}

/// `str::ends_with`.
pub fn ends_with(s: &str, p: &str) -> (r: bool)
    ensures
        r == has_suffix(s@, p@),
{
    let v = chars_of(s);
    let q = chars_of(p);
    if q.len() > v.len() {
        return false;
    }
    assert(s@.skip(s@.len() - p@.len()) =~= s@.subrange(s@.len() - p@.len(), s@.len() as int));
    matches_at(&v, &q, v.len() - q.len())
}

/// `str::contains` of a text.
pub fn contains(s: &str, p: &str) -> (r: bool)
    ensures
        r == occurs(s@, p@),
{
    let v = chars_of(s);
    let q = chars_of(p);
    let mut i: usize = 0;
    while i < v.len()
        invariant
            i <= v.len(),
            v@ == s@,
            q@ == p@,
            forall|k: int| 0 <= k < i ==> !occurs_at(s@, p@, k),
        decreases v.len() - i,
    {
        if matches_at(&v, &q, i) {
            assert(occurs_at(s@, p@, i as int));
            return true;
        }
        i += 1;
    }
    let last = matches_at(&v, &q, i);
    if last {
        assert(occurs_at(s@, p@, i as int));
    }
    last
}

/// The decimal digits of a number, without leading zeros.
pub open spec fn decimal(n: nat) -> Seq<char>
    decreases n,
{
    if n < 10 {
        seq![(48 + n) as char]
    } else {
        decimal(n / 10).push((48 + n % 10) as char)
    }
}

/// The decimal text of a number.
pub fn decimal_of(n: u64) -> (r: String)
    ensures
        r@ == decimal(n as nat),
    decreases n,
{
    if n < 10 {
        let mut out = String::new();
        out.push((48 + n as u8) as char);
        assert(out@ =~= decimal(n as nat));
        out
    } else {
        let mut out = decimal_of(n / 10);
        out.push((48 + (n % 10) as u8) as char);
        out
    }
}

/// Whether a character is an ASCII decimal digit.
pub open spec fn is_digit(c: char) -> bool {
    '0' <= c && c <= '9'
}

/// The value of a decimal digit.
pub open spec fn digit_value(c: char) -> nat {
    (c as u32 - 48) as nat
}

/// The number that a sequence of digits writes.
pub open spec fn digits_value(s: Seq<char>) -> nat
    decreases s.len(),
{
    if s.len() == 0 {
        0
    } else {
        digits_value(s.drop_last()) * 10 + digit_value(s.last())
    }
}

pub open spec fn all_digits(s: Seq<char>) -> bool {
    forall|i: int| 0 <= i < s.len() ==> is_digit(#[trigger] s[i])
}

/// What `str::parse` of an unsigned number up to `max` accepts: an optional
/// plus sign, then at least one digit and nothing else, with a value that fits.
pub open spec fn parse_number(s: Seq<char>, max: nat) -> Option<nat> {
    let d = if s.len() > 0 && s[0] == '+' {
        s.drop_first()
    } else {
        s
    };
    if d.len() > 0 && all_digits(d) && digits_value(d) <= max {
        Some(digits_value(d))
    } else {
        None
    }
}

proof fn digits_value_grows(s: Seq<char>, k: int)
    requires
        0 <= k <= s.len(),
        all_digits(s),
    ensures
        digits_value(s.take(k)) <= digits_value(s),
    decreases s.len() - k,
{
    if k < s.len() {
        digits_value_grows(s, k + 1);
        assert(s.take(k + 1).drop_last() =~= s.take(k));
    } else {
        assert(s.take(k) =~= s);
    }
}

proof fn digits_value_push(d: Seq<char>, k: int)
    requires
        0 <= k < d.len(),
    ensures
        digits_value(d.take(k + 1)) == digits_value(d.take(k)) * 10 + digit_value(d[k]),
{
    assert(d.take(k + 1).drop_last() =~= d.take(k));
}

/// The value of the digits `v[from..to]`, if they are digits and it is at most `max`.
fn parse_digits(v: &Vec<char>, from: usize, to: usize, max: u64) -> (r: Option<u64>)
    requires
        from < to <= v.len(),
    ensures
        ({
            let d = v@.subrange(from as int, to as int);
            match r {
                Some(n) => all_digits(d) && digits_value(d) == n && n <= max,
                None => !(all_digits(d) && digits_value(d) <= max),
            }
        }),
{
    let ghost d = v@.subrange(from as int, to as int);
    let mut value: u64 = 0;
    let mut i: usize = from;
    while i < to
        invariant
            from <= i <= to <= v.len(),
            d == v@.subrange(from as int, to as int),
            forall|k: int| 0 <= k < i - from ==> is_digit(#[trigger] d[k]),
            value == digits_value(d.take(i - from)),
            value <= max,
        decreases to - i,
    {
        let c = v[i];
        assert(d[i - from] == c);
        if c < '0' || c > '9' {
            assert(!is_digit(d[i - from]));
            return None;
        }
        let digit: u64 = (c as u32 - 48) as u64;
        proof {
            digits_value_push(d, i - from);
        }
        if value > max / 10 || digit > max - value * 10 {
            proof {
                if all_digits(d) {
                    digits_value_grows(d, i - from + 1);
                }
            }
            return None;
        }
        value = value * 10 + digit;
        i += 1;
    }
    assert(d.take(i - from) =~= d);
    Some(value)
}

/// Parses `v[from..to]` as an unsigned number of at most `max`.
pub fn parse_range(v: &Vec<char>, from: usize, to: usize, max: u64) -> (r: Option<u64>)
    requires
        from <= to <= v.len(),
    ensures
        parse_number(v@.subrange(from as int, to as int), max as nat) == (match r {
            Some(n) => Some(n as nat),
            None => None,
        }),
{
    let ghost s = v@.subrange(from as int, to as int);
    let start: usize = if from < to && v[from] == '+' {
        from + 1
    } else {
        from
    };
    assert(v@.subrange(start as int, to as int) =~= if s.len() > 0 && s[0] == '+' {
        s.drop_first()
    } else {
        s
    });
    if start == to {
        return None;
    }
    parse_digits(v, start, to, max)
}

/// What stands before the first `c`; all of `s` without one.
pub open spec fn before(s: Seq<char>, c: char) -> Seq<char> {
    s.take(first_index(s, c))
}

/// What stands after the first `c`, if there is one.
pub open spec fn after(s: Seq<char>, c: char) -> Option<Seq<char>> {
    if first_index(s, c) < s.len() {
        Some(s.skip(first_index(s, c) + 1))
    } else {
        None
    }
}

/// `str::split_once` on a character; without one the second part is `None`.
pub fn split_first(s: &str, c: char) -> (r: (String, Option<String>))
    ensures
        r.0@ == before(s@, c),
        opt_text(r.1) == after(s@, c),
{
    let v = chars_of(s);
    let i = find_char(&v, c);
    proof {
        first_index_facts(s@, c);
    }
    let a = string_of(&v, 0, i);
    assert(a@ =~= before(s@, c));
    if i < v.len() {
        let b = string_of(&v, i + 1, v.len());
        assert(b@ =~= s@.skip(i + 1));
        (a, Some(b))
    } else {
        (a, None)
    }
}

/// Parses a text as an unsigned number of at most `max`.
pub fn parse_unsigned(s: &str, max: u64) -> (r: Option<u64>)
    ensures
        parse_number(s@, max as nat) == (match r {
            Some(n) => Some(n as nat),
            None => None,
        }),
        r is Some ==> r->0 <= max,
{
    let v = chars_of(s);
    assert(v@.subrange(0, v@.len() as int) =~= s@);
    parse_range(&v, 0, v.len(), max)
}

/// The parts of a text between the occurrences of `c`.
pub open spec fn split_on(s: Seq<char>, c: char) -> Seq<Seq<char>>
    decreases s.len(),
    via split_on_decreases
{
    match after(s, c) {
        Some(rest) => seq![before(s, c)] + split_on(rest, c),
        None => seq![s],
    }
}

#[via_fn]
proof fn split_on_decreases(s: Seq<char>, c: char) {
    first_index_facts(s, c);
}

proof fn split_on_unfold(s: Seq<char>, c: char)
    ensures
        after(s, c) matches Some(rest) ==> split_on(s, c) == seq![before(s, c)] + split_on(rest, c),
        after(s, c) is None ==> split_on(s, c) == seq![s],
{
    reveal_with_fuel(split_on, 2);
}

/// `str::split` on a character.
pub fn split(s: &str, c: char) -> (r: Vec<String>)
    ensures
        texts(r@) == split_on(s@, c),
        r.len() >= 1,
{
    let mut out: Vec<String> = Vec::new();
    let mut rest = own(s);
    assert(texts(out@) + split_on(rest@, c) =~= split_on(s@, c));
    loop
        invariant
            texts(out@) + split_on(rest@, c) == split_on(s@, c),
        decreases rest@.len(),
    {
        let parts = split_first(rest.as_str(), c);
        proof {
            split_on_unfold(rest@, c);
            first_index_facts(rest@, c);
        }
        let ghost done = texts(out@);
        match parts.1 {
            Some(more) => {
                out.push(parts.0);
                assert(texts(out@) =~= done.push(before(rest@, c)));
                assert(done.push(before(rest@, c)) + split_on(more@, c) =~= done + (seq![
                    before(rest@, c),
                ] + split_on(more@, c)));
                rest = more;
            },
            None => {
                let ghost last = rest@;
                out.push(rest);
                assert(texts(out@) =~= done + seq![last]);
                return out;
            },
        }
    }
}

/// The first position from `i` on where `p` stands in `s`.
pub open spec fn occurrence_from(s: Seq<char>, p: Seq<char>, i: int) -> Option<int>
    decreases s.len() + 1 - i,
{
    if i < 0 || i + p.len() > s.len() {
        None
    } else if occurs_at(s, p, i) {
        Some(i)
    } else {
        occurrence_from(s, p, i + 1)
    }
}

/// The first position where `p` stands in `s`.
pub open spec fn first_occurrence(s: Seq<char>, p: Seq<char>) -> Option<int> {
    occurrence_from(s, p, 0)
}

/// The first position from `from` on where `p` stands in `v`.
pub fn find_from(v: &Vec<char>, p: &Vec<char>, from: usize) -> (r: Option<usize>)
    ensures
        occurrence_from(v@, p@, from as int) == (match r {
            Some(i) => Some(i as int),
            None => None,
        }),
        r matches Some(i) ==> from <= i && i + p.len() <= v.len() && occurs_at(v@, p@, i as int),
{
    let mut i: usize = from;
    while i <= v.len() && p.len() <= v.len() - i
        invariant
            from <= i,
            occurrence_from(v@, p@, i as int) == occurrence_from(v@, p@, from as int),
        decreases v.len() + 1 - i,
    {
        if matches_at(v, p, i) {
            return Some(i);
        }
        if i == v.len() {
            assert(occurrence_from(v@, p@, i + 1) is None);
            return None;
        }
        i += 1;
    }
    None
}

/// Whether a character is a hexadecimal digit.
pub open spec fn is_hex(c: char) -> bool {
    is_digit(c) || ('a' <= c && c <= 'f') || ('A' <= c && c <= 'F')
}

/// The value of a hexadecimal digit.
pub open spec fn hex_value(c: char) -> nat {
    if is_digit(c) {
        digit_value(c)
    } else if 'a' <= c {
        (c as u32 - 87) as nat
    } else {
        (c as u32 - 55) as nat
    }
}

/// The number that a sequence of hexadecimal digits writes.
pub open spec fn hex_number(s: Seq<char>) -> nat
    decreases s.len(),
{
    if s.len() == 0 {
        0
    } else {
        hex_number(s.drop_last()) * 16 + hex_value(s.last())
    }
}

pub open spec fn all_hex(s: Seq<char>) -> bool {
    forall|i: int| 0 <= i < s.len() ==> is_hex(#[trigger] s[i])
}

/// The value of up to four hexadecimal digits, if that is what `v` is.
pub fn parse_hex4(v: &Vec<char>) -> (r: Option<u32>)
    ensures
        match r {
            Some(n) => 1 <= v.len() <= 4 && all_hex(v@) && n == hex_number(v@) && n <= 0xFFFF,
            None => !(1 <= v.len() <= 4 && all_hex(v@)),
        },
{
    if v.len() == 0 || v.len() > 4 {
        return None;
    }
    let mut value: u32 = 0;
    let mut bound: u32 = 1;
    let mut i: usize = 0;
    assert(v@.take(0) =~= Seq::empty());
    while i < v.len()
        invariant
            i <= v.len() <= 4,
            forall|k: int| 0 <= k < i ==> is_hex(#[trigger] v@[k]),
            value == hex_number(v@.take(i as int)),
            value < bound,
            i == 0 ==> bound == 1,
            i == 1 ==> bound == 16,
            i == 2 ==> bound == 256,
            i == 3 ==> bound == 4096,
            i == 4 ==> bound == 65536,
        decreases v.len() - i,
    {
        let c = v[i];
        assert(v@.take(i + 1).drop_last() =~= v@.take(i as int));
        let d: u32 = if '0' <= c && c <= '9' {
            c as u32 - 48
        } else if 'a' <= c && c <= 'f' {
            c as u32 - 87
        } else if 'A' <= c && c <= 'F' {
            c as u32 - 55
        } else {
            assert(!is_hex(v@[i as int]));
            return None;
        };
        value = value * 16 + d;
        bound = bound * 16;
        i += 1;
    }
    assert(v@.take(i as int) =~= v@);
    Some(value)
}

#[via_fn]
proof fn split_text_decreases(s: Seq<char>, p: Seq<char>) {
    if p.len() > 0 && first_occurrence(s, p) is Some {
        occurrence_in_range(s, p, 0);
    }
}

proof fn occurrence_in_range(s: Seq<char>, p: Seq<char>, i: int)
    requires
        0 <= i,
        occurrence_from(s, p, i) is Some,
    ensures
        i <= occurrence_from(s, p, i)->0 <= s.len() - p.len(),
    decreases s.len() + 1 - i,
{
    if i + p.len() <= s.len() && !occurs_at(s, p, i) {
        occurrence_in_range(s, p, i + 1);
    }
}

/// The parts of `s` between the occurrences of `p`.
pub open spec fn split_text(s: Seq<char>, p: Seq<char>) -> Seq<Seq<char>>
    decreases s.len(),
    via split_text_decreases
{
    if p.len() == 0 {
        seq![s]
    } else {
        match first_occurrence(s, p) {
            Some(i) => seq![s.take(i)] + split_text(s.skip(i + p.len()), p),
            None => seq![s],
        }
    }
}

/// The parts of `s` between the occurrences of `p`.
pub fn split_at_text(s: &str, p: &str) -> (r: Vec<String>)
    requires
        p@.len() > 0,
    ensures
        texts(r@) == split_text(s@, p@),
{
    let pat = chars_of(p);
    let mut out: Vec<String> = Vec::new();
    let mut rest = own(s);
    assert(texts(out@) + split_text(rest@, p@) =~= split_text(s@, p@));
    loop
        invariant
            p@.len() > 0,
            pat@ == p@,
            texts(out@) + split_text(rest@, p@) == split_text(s@, p@),
        decreases rest@.len(),
    {
        let v = chars_of(rest.as_str());
        let ghost done = texts(out@);
        let ghost here = rest@;
        match find_from(&v, &pat, 0) {
            Some(i) => {
                proof {
                    occurrence_in_range(here, p@, 0);
                }
                let part = string_of(&v, 0, i);
                assert(part@ =~= here.take(i as int));
                out.push(part);
                let more = string_of(&v, i + pat.len(), v.len());
                assert(more@ =~= here.skip(i + p@.len()));
                assert(texts(out@) =~= done.push(here.take(i as int)));
                assert(done.push(here.take(i as int)) + split_text(more@, p@) =~= done + (seq![
                    here.take(i as int),
                ] + split_text(more@, p@)));
                rest = more;
            },
            None => {
                out.push(rest);
                assert(texts(out@) =~= done + seq![here]);
                return out;
            },
        }
    }
}

#[via_fn]
proof fn replaced_decreases(s: Seq<char>, p: Seq<char>, v: Seq<char>) {
    if p.len() > 0 && first_occurrence(s, p) is Some {
        occurrence_in_range(s, p, 0);
    }
}

/// The text with `v` in place of each occurrence of `p`, from left to right.
pub open spec fn replaced(s: Seq<char>, p: Seq<char>, v: Seq<char>) -> Seq<char>
    decreases s.len(),
    via replaced_decreases
{
    if p.len() == 0 {
        s
    } else {
        match first_occurrence(s, p) {
            Some(i) => s.take(i) + v + replaced(s.skip(i + p.len()), p, v),
            None => s,
        }
    }
}

/// The text with `v` in place of each occurrence of `p`, see [`replaced`].
pub fn replace_text(s: &str, p: &str, v: &str) -> (r: String)
    requires
        p@.len() > 0,
    ensures
        r@ == replaced(s@, p@, v@),
{
    let pat = chars_of(p);
    let mut out = String::new();
    let mut rest = own(s);
    assert(out@ + replaced(rest@, p@, v@) =~= replaced(s@, p@, v@));
    loop
        invariant
            p@.len() > 0,
            pat@ == p@,
            out@ + replaced(rest@, p@, v@) == replaced(s@, p@, v@),
        decreases rest@.len(),
    {
        let chars = chars_of(rest.as_str());
        let ghost done = out@;
        let ghost here = rest@;
        match find_from(&chars, &pat, 0) {
            Some(i) => {
                proof {
                    occurrence_in_range(here, p@, 0);
                }
                let part = string_of(&chars, 0, i);
                assert(part@ =~= here.take(i as int));
                let more = string_of(&chars, i + pat.len(), chars.len());
                assert(more@ =~= here.skip(i + p@.len()));
                out = join3(out.as_str(), part.as_str(), v);
                assert(out@ + replaced(more@, p@, v@) =~= done + (here.take(i as int) + v@ + replaced(
                    more@,
                    p@,
                    v@,
                )));
                rest = more;
            },
            None => {
                out = join2(out.as_str(), rest.as_str());
                assert(out@ =~= done + here);
                return out;
            },
        }
    }
}

/// Trimming takes away white space only, and all of it at the two ends: the trimmed
/// text stands in the text with white space around it, and neither begins nor ends
/// with any.
pub proof fn trimmed_text_stands_between_white_space(s: Seq<char>) -> (ends: (int, int))
    ensures
        0 <= ends.0 <= ends.1 <= s.len(),
        trimmed(s) == s.subrange(ends.0, ends.1),
        forall|k: int| 0 <= k < ends.0 || ends.1 <= k < s.len() ==> is_white(#[trigger] s[k]),
        ends.0 < ends.1 ==> !is_white(s[ends.0]) && !is_white(s[ends.1 - 1]),
{
    let from = trim_start_place(s);
    let a = trim_start(s);
    trim_start_head(s);
    trim_end_prefix(a);
    trim_end_last(a);
    trim_end_white(a);
    let to = from + trimmed(s).len();
    assert(trimmed(s) =~= s.subrange(from, to));
    assert forall|k: int| 0 <= k < from || to <= k < s.len() implies is_white(#[trigger] s[k]) by {
        if to <= k {
            assert(a[k - from] == s[k]);
        }
    }
    if from < to {
        assert(trimmed(s)[0] == a[0]);
        assert(trimmed(s).last() == s[to - 1]);
    }
    (from, to)
}

proof fn trim_start_place(s: Seq<char>) -> (from: int)
    ensures
        0 <= from <= s.len(),
        trim_start(s) == s.skip(from),
        forall|k: int| 0 <= k < from ==> is_white(#[trigger] s[k]),
    decreases s.len(),
{
    if s.len() > 0 && is_white(s[0]) {
        let t = s.drop_first();
        let n = trim_start_place(t);
        assert(t.skip(n) =~= s.skip(n + 1));
        assert forall|k: int| 0 <= k < n + 1 implies is_white(#[trigger] s[k]) by {
            if k > 0 {
                assert(t[k - 1] == s[k]);
            }
        }
        n + 1
    } else {
        assert(s.skip(0) =~= s);
        0
    }
}

proof fn trim_end_white(s: Seq<char>)
    ensures
        forall|k: int| trim_end(s).len() <= k < s.len() ==> is_white(#[trigger] s[k]),
    decreases s.len(),
{
    if s.len() > 0 && is_white(s.last()) {
        let t = s.drop_last();
        trim_end_white(t);
        assert forall|k: int| trim_end(s).len() <= k < s.len() implies is_white(#[trigger] s[k]) by {
            if k < t.len() {
                assert(t[k] == s[k]);
            }
        }
    }
}

/// Only the letters A to Z have another lower-case form, 32 places on, and only the
/// letters a to z another upper-case form, 32 places back; each undoes the other.
pub proof fn letters_have_two_cases(c: char)
    ensures
        0x41 <= c as u32 <= 0x5A <==> lower_char(c) != c,
        0x41 <= c as u32 <= 0x5A ==> lower_char(c) as u32 == c as u32 + 32,
        0x61 <= c as u32 <= 0x7A <==> upper_char(c) != c,
        0x61 <= c as u32 <= 0x7A ==> upper_char(c) as u32 == c as u32 - 32,
        lower_char(upper_char(c)) == lower_char(c),
        upper_char(lower_char(c)) == upper_char(c),
{
}

/// A number that is written in digits is read back, with or without a plus sign
/// before it, where it fits; where it does not, nothing is read.
pub proof fn written_number_is_read_back(n: nat, max: nat)
    ensures
        n <= max ==> parse_number(decimal(n), max) == Some(n),
        n <= max ==> parse_number(seq!['+'] + decimal(n), max) == Some(n),
        n > max ==> parse_number(decimal(n), max) is None,
{
    decimal_digits(n);
    let d = decimal(n);
    assert(is_digit(d[0]));
    assert((seq!['+'] + d).drop_first() =~= d);
}

proof fn decimal_digits(n: nat)
    ensures
        decimal(n).len() > 0,
        all_digits(decimal(n)),
        digits_value(decimal(n)) == n,
    decreases n,
{
    if n < 10 {
        let d = decimal(n);
        assert(d.drop_last() =~= Seq::empty());
        assert(digits_value(Seq::empty()) == 0);
    } else {
        decimal_digits(n / 10);
        let d = decimal(n);
        assert(d.drop_last() =~= decimal(n / 10));
        assert forall|i: int| 0 <= i < d.len() implies is_digit(#[trigger] d[i]) by {
            if i < d.len() - 1 {
                assert(d[i] == decimal(n / 10)[i]);
            }
        }
    }
}

/// Only digits, after a plus sign or without one, are read as a number.
pub proof fn only_digits_are_read(s: Seq<char>, max: nat)
    requires
        parse_number(s, max) is Some,
    ensures
        parse_number(s, max)->0 <= max,
        s.len() > 0,
        forall|i: int| 0 < i < s.len() ==> '0' <= #[trigger] s[i] && s[i] <= '9',
        s[0] == '+' && s.len() > 1 || ('0' <= s[0] && s[0] <= '9'),
{
    if s[0] == '+' {
        let d = s.drop_first();
        assert forall|i: int| 0 < i < s.len() implies '0' <= #[trigger] s[i] && s[i] <= '9' by {
            assert(is_digit(d[i - 1]));
        }
    } else {
        assert forall|i: int| 0 <= i < s.len() implies '0' <= #[trigger] s[i] && s[i] <= '9' by {
            assert(is_digit(s[i]));
        }
    }
}

/// Parts with a character between them.
pub open spec fn joined(parts: Seq<Seq<char>>, c: char) -> Seq<char>
    decreases parts.len(),
{
    if parts.len() == 0 {
        Seq::empty()
    } else if parts.len() == 1 {
        parts[0]
    } else {
        parts[0] + seq![c] + joined(parts.drop_first(), c)
    }
}

/// The parts of a text that is split, with the character between them, are the text;
/// none of them has the character.
pub proof fn split_text_is_joined_back(s: Seq<char>, c: char)
    ensures
        split_on(s, c).len() >= 1,
        joined(split_on(s, c), c) == s,
        forall|i: int| 0 <= i < split_on(s, c).len() ==> !(#[trigger] split_on(s, c)[i]).contains(c),
    decreases s.len(),
{
    first_index_facts(s, c);
    split_on_unfold(s, c);
    let parts = split_on(s, c);
    if first_index(s, c) < s.len() {
        let rest = s.skip(first_index(s, c) + 1);
        split_text_is_joined_back(rest, c);
        assert(parts.drop_first() =~= split_on(rest, c));
        assert(parts[0] == before(s, c));
        assert(joined(parts, c) =~= s);
        assert forall|i: int| 0 <= i < parts.len() implies !(#[trigger] parts[i]).contains(c) by {
            if i > 0 {
                assert(parts[i] == split_on(rest, c)[i - 1]);
            }
        }
    } else {
        assert(parts[0] == s);
    }
}

/// A text without any occurrence of another stays as it is, whatever stands in place
/// of that one; behind its first occurrence the same is done with the rest.
pub proof fn occurrences_are_replaced(a: Seq<char>, p: Seq<char>, b: Seq<char>, v: Seq<char>)
    requires
        p.len() > 0,
    ensures
        !occurs(a, p) ==> replaced(a, p, v) == a,
        (forall|k: int| 0 <= k < a.len() ==> !occurs_at(a + p + b, p, k)) ==> replaced(
            a + p + b,
            p,
            v,
        ) == a + v + replaced(b, p, v),
{
    occurrence_is_the_first(a, p, 0);
    reveal_with_fuel(replaced, 2);
    if !occurs(a, p) && first_occurrence(a, p) is Some {
        assert(occurs_at(a, p, first_occurrence(a, p)->0));
    }
    let s = a + p + b;
    if forall|k: int| 0 <= k < a.len() ==> !occurs_at(s, p, k) {
        occurrence_is_the_first(s, p, 0);
        assert(s.subrange(a.len() as int, (a.len() + p.len()) as int) =~= p);
        assert(occurs_at(s, p, a.len() as int));
        assert(first_occurrence(s, p) == Some(a.len() as int));
        assert(s.take(a.len() as int) =~= a);
        assert(s.skip((a.len() + p.len()) as int) =~= b);
    }
}

proof fn occurrence_is_the_first(s: Seq<char>, p: Seq<char>, i: int)
    requires
        0 <= i,
    ensures
        occurrence_from(s, p, i) matches Some(k) ==> occurs_at(s, p, k) && i <= k && forall|j: int|
            i <= j < k ==> !occurs_at(s, p, j),
        occurrence_from(s, p, i) is None ==> forall|j: int| i <= j ==> !occurs_at(s, p, j),
    decreases s.len() + 1 - i,
{
    if i + p.len() <= s.len() && !occurs_at(s, p, i) {
        occurrence_is_the_first(s, p, i + 1);
    }
}

/// A text that neither begins nor ends with white space is trimmed already.
pub proof fn text_without_white_ends_is_trimmed(s: Seq<char>)
    requires
        s.len() > 0 ==> !is_white(s[0]) && !is_white(s.last()),
    ensures
        trimmed(s) == s,
{
}

/// A text is split at each character `c` in it: before, behind and nowhere else.
pub proof fn text_is_split_at_each(a: Seq<char>, c: char, b: Seq<char>)
    ensures
        !a.contains(c) ==> split_on(a, c) == seq![a],
        split_on(a + seq![c] + b, c) == split_on(a, c) + split_on(b, c),
    decreases a.len(),
{
    let s = a + seq![c] + b;
    first_index_facts(a, c);
    first_index_facts(s, c);
    split_on_unfold(a, c);
    split_on_unfold(s, c);
    if !a.contains(c) {
        assert(s[a.len() as int] == c);
        assert forall|k: int| 0 <= k < a.len() implies s[k] != c by {
            assert(s[k] == a[k]);
            assert(a.contains(a[k]));
        }
        assert(first_index(s, c) == a.len());
        assert(before(s, c) =~= a);
        assert(s.skip((a.len() + 1) as int) =~= b);
    } else {
        let k = first_index(a, c);
        let rest = a.skip(k + 1);
        assert(s[k] == c);
        assert forall|j: int| 0 <= j < k implies s[j] != c by {
            assert(s[j] == a[j]);
        }
        assert(first_index(s, c) == k);
        text_is_split_at_each(rest, c, b);
        assert(s.skip(k + 1) =~= rest + seq![c] + b);
        assert(before(s, c) =~= before(a, c));
        assert(split_on(s, c) =~= split_on(a, c) + split_on(b, c));
    }
}

/// A number that is written in digits has no other character in it and no white space
/// around it.
pub proof fn written_number_has_digits_only(n: nat)
    ensures
        decimal(n).len() > 0,
        forall|i: int|
            0 <= i < decimal(n).len() ==> '0' <= #[trigger] decimal(n)[i] && decimal(n)[i] <= '9',
        trimmed(decimal(n)) == decimal(n),
{
    decimal_digits(n);
    let d = decimal(n);
    assert forall|i: int| 0 <= i < d.len() implies '0' <= #[trigger] d[i] && d[i] <= '9' by {
        assert(is_digit(d[i]));
    }
    assert('0' <= d[0] && d[0] <= '9');
    assert('0' <= d[d.len() - 1] && d[d.len() - 1] <= '9');
    text_without_white_ends_is_trimmed(d);
}

/// A text is parted at the first `c` in it: what stands before it, and what stands
/// behind it; a text without any `c` is not parted.
pub proof fn text_is_parted_at_the_first(a: Seq<char>, c: char, b: Seq<char>)
    requires
        !a.contains(c),
    ensures
        before(a + seq![c] + b, c) == a,
        after(a + seq![c] + b, c) == Some(b),
        before(a, c) == a,
        after(a, c) is None,
{
    let s = a + seq![c] + b;
    first_index_facts(a, c);
    assert(s[a.len() as int] == c);
    assert forall|k: int| 0 <= k < a.len() implies s[k] != c by {
        assert(s[k] == a[k]);
        assert(a.contains(a[k]));
    }
    first_index_unique(s, c, a.len() as int);
    assert(before(s, c) =~= a);
    assert(s.skip(a.len() as int + 1) =~= b);
    assert(before(a, c) =~= a);
}

/// A number that is written in digits has no character that is no digit.
pub proof fn written_number_lacks_others(n: nat, c: char)
    requires
        !('0' <= c && c <= '9'),
    ensures
        !decimal(n).contains(c),
{
    written_number_has_digits_only(n);
    if decimal(n).contains(c) {
        let i = choose|i: int| 0 <= i < decimal(n).len() && decimal(n)[i] == c;
        assert('0' <= decimal(n)[i] && decimal(n)[i] <= '9');
    }
}

} // verus!
