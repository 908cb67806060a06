//! The host part of addresses: IP literals, and which hosts are local.
use vstd::prelude::*;
use crate::text::{
    all_digits, all_hex, chars_of, decimal, digits_value, find_from, first_occurrence, hex_number,
    is_digit, parse_hex4, parse_unsigned, split, split_on, string_of, text_is_split_at_each, texts,
    written_number_has_digits_only, written_number_is_read_back, written_number_lacks_others,
};

verus! {

/// The value of a part of a dotted IPv4 address: one to three digits without a
/// leading zero, at most 255.
pub open spec fn octet(s: Seq<char>) -> Option<nat> {
    if 1 <= s.len() <= 3 && all_digits(s) && (s.len() == 1 || s[0] != '0') && digits_value(s) <= 255 {
        Some(digits_value(s))
    } else {
        None
    }
}

/// The four parts of a dotted IPv4 address.
pub open spec fn ipv4(s: Seq<char>) -> Option<(nat, nat, nat, nat)> {
    let parts = split_on(s, '.');
    if parts.len() == 4 {
        match (octet(parts[0]), octet(parts[1]), octet(parts[2]), octet(parts[3])) {
            (Some(a), Some(b), Some(c), Some(d)) => Some((a, b, c, d)),
            _ => None,
        }
    } else {
        None
    }
}

/// The value of a group of an IPv6 address: one to four hexadecimal digits.
pub open spec fn hex_group(s: Seq<char>) -> Option<nat> {
    if 1 <= s.len() <= 4 && all_hex(s) {
        Some(hex_number(s))
    } else {
        None
    }
}

/// The values of groups that are all hexadecimal.
pub open spec fn hex_groups(parts: Seq<Seq<char>>) -> Option<Seq<nat>>
    decreases parts.len(),
{
    if parts.len() == 0 {
        Some(Seq::empty())
    } else {
        match (hex_groups(parts.drop_last()), hex_group(parts.last())) {
            (Some(g), Some(n)) => Some(g.push(n)),
            _ => None,
        }
    }
}

/// The values of groups of which the last may be an IPv4 address, which counts
/// as two groups.
pub open spec fn tail_groups(parts: Seq<Seq<char>>) -> Option<Seq<nat>> {
    match hex_groups(parts) {
        Some(g) => Some(g),
        None => if parts.len() > 0 {
            match (hex_groups(parts.drop_last()), ipv4(parts.last())) {
                (Some(g), Some(q)) => Some(
                    g.push(q.0 * 256 + q.1).push(q.2 * 256 + q.3),
                ),
                _ => None,
            }
        } else {
            None
        },
    }
}

/// The parts between the colons of a text; none of an empty text.
pub open spec fn colon_parts(s: Seq<char>) -> Seq<Seq<char>> {
    if s.len() == 0 {
        Seq::empty()
    } else {
        split_on(s, ':')
    }
}

/// The eight groups of an IPv6 address. A double colon stands for as many zero
/// groups, at least one, as are missing.
pub open spec fn ipv6(s: Seq<char>) -> Option<Seq<nat>> {
    match first_occurrence(s, "::"@) {
        None => match tail_groups(split_on(s, ':')) {
            Some(g) => if g.len() == 8 {
                Some(g)
            } else {
                None
            },
            None => None,
        },
        Some(i) => match (
            hex_groups(colon_parts(s.take(i))),
            tail_groups(colon_parts(s.skip(i + 2))),
        ) {
            (Some(h), Some(t)) => if h.len() + t.len() <= 7 {
                Some(h + Seq::new((8 - h.len() - t.len()) as nat, |k: int| 0nat) + t)
            } else {
                None
            },
            _ => None,
        },
    }
}

/// Whether an IPv4 address is one of this host or of a private network.
pub open spec fn local_ipv4(q: (nat, nat, nat, nat)) -> bool {
    ||| q.0 == 127
    ||| q == (0nat, 0nat, 0nat, 0nat)
    ||| q.0 == 10
    ||| q.0 == 172 && 16 <= q.1 <= 31
    ||| q.0 == 192 && q.1 == 168
}

/// Whether an IPv6 address is the loopback or the unspecified address.
pub open spec fn local_ipv6(g: Seq<nat>) -> bool {
    g.len() == 8 && (forall|i: int| 0 <= i < 7 ==> g[i] == 0) && g[7] <= 1
}

/// Whether a host is an IP address of this host or of a private network.
pub open spec fn local_ip(s: Seq<char>) -> bool {
    ||| (ipv4(s) matches Some(q) && local_ipv4(q))
    ||| (ipv6(s) matches Some(g) && local_ipv6(g))
}

fn parse_octet(s: &str) -> (r: Option<u32>)
    ensures
        octet(s@) == (match r {
            Some(n) => Some(n as nat),
            None => None,
        }),
        r matches Some(n) ==> n <= 255,
{
    let v = chars_of(s);
    if v.len() == 0 || v.len() > 3 || (v.len() > 1 && v[0] == '0') || v[0] == '+' {
        assert(v.len() > 0 && v@[0] == '+' ==> !is_digit(s@[0]));
        return None;
    }
    match parse_unsigned(s, 255) {
        Some(n) => Some(n as u32),
        None => None,
    }
}

fn parse_ipv4(s: &str) -> (r: Option<(u32, u32, u32, u32)>)
    ensures
        ipv4(s@) == (match r {
            Some(q) => Some((q.0 as nat, q.1 as nat, q.2 as nat, q.3 as nat)),
            None => None,
        }),
        r matches Some(q) ==> q.0 <= 255 && q.1 <= 255 && q.2 <= 255 && q.3 <= 255,
{
    let parts = split(s, '.');
    let ghost t = split_on(s@, '.');
    assert(parts.len() == t.len());
    if parts.len() != 4 {
        return None;
    }
    assert(t[0] == parts@[0]@ && t[1] == parts@[1]@ && t[2] == parts@[2]@ && t[3] == parts@[3]@);
    match (
        parse_octet(parts[0].as_str()),
        parse_octet(parts[1].as_str()),
        parse_octet(parts[2].as_str()),
        parse_octet(parts[3].as_str()),
    ) {
        (Some(a), Some(b), Some(c), Some(d)) => Some((a, b, c, d)),
        _ => None,
    }
}

/// The values of a list of groups.
pub open spec fn group_values(v: Seq<u32>) -> Seq<nat> {
    v.map_values(|n: u32| n as nat)
}

proof fn group_values_push(v: Seq<u32>, n: u32)
    ensures
        group_values(v.push(n)) == group_values(v).push(n as nat),
{
    assert(group_values(v.push(n)) =~= group_values(v).push(n as nat));
}

proof fn hex_groups_stay_none(parts: Seq<Seq<char>>, k: int)
    requires
        0 <= k <= parts.len(),
        hex_groups(parts.take(k)) is None,
    ensures
        hex_groups(parts) is None,
    decreases parts.len() - k,
{
    if k == parts.len() {
        assert(parts.take(k) =~= parts);
    } else {
        assert(parts.take(k + 1).drop_last() =~= parts.take(k));
        hex_groups_stay_none(parts, k + 1);
    }
}

fn parse_hex_groups(parts: &Vec<String>, count: usize) -> (r: Option<Vec<u32>>)
    requires
        count <= parts.len(),
    ensures
        hex_groups(texts(parts@).take(count as int)) == (match r {
            Some(g) => Some(group_values(g@)),
            None => None,
        }),
{
    let ghost all = texts(parts@).take(count as int);
    let mut out: Vec<u32> = Vec::new();
    let mut i: usize = 0;
    assert(all.take(0) =~= Seq::empty());
    assert(group_values(out@) =~= Seq::empty());
    while i < count
        invariant
            i <= count <= parts.len(),
            all == texts(parts@).take(count as int),
            hex_groups(all.take(i as int)) == Some(group_values(out@)),
        decreases count - i,
    {
        let c = chars_of(parts[i].as_str());
        assert(all.take(i + 1).drop_last() =~= all.take(i as int));
        assert(all.take(i + 1).last() == parts@[i as int]@);
        match parse_hex4(&c) {
            Some(n) => {
                proof {
                    group_values_push(out@, n);
                }
                out.push(n);
            },
            None => {
                proof {
                    hex_groups_stay_none(all, i + 1);
                }
                return None;
            },
        }
        i += 1;
    }
    assert(all.take(i as int) =~= all);
    Some(out)
}

fn parse_tail_groups(parts: &Vec<String>) -> (r: Option<Vec<u32>>)
    ensures
        tail_groups(texts(parts@)) == (match r {
            Some(g) => Some(group_values(g@)),
            None => None,
        }),
{
    let ghost all = texts(parts@);
    assert(all.take(parts.len() as int) =~= all);
    if let Some(g) = parse_hex_groups(parts, parts.len()) {
        return Some(g);
    }
    if parts.len() == 0 {
        return None;
    }
    assert(all.take(parts.len() - 1) =~= all.drop_last());
    assert(all.last() == parts@[parts.len() - 1]@);
    match (parse_hex_groups(parts, parts.len() - 1), parse_ipv4(parts[parts.len() - 1].as_str())) {
        (Some(g), Some(q)) => {
            let mut g = g;
            proof {
                group_values_push(g@, (q.0 * 256 + q.1) as u32);
                group_values_push(
                    g@.push((q.0 * 256 + q.1) as u32),
                    (q.2 * 256 + q.3) as u32,
                );
            }
            g.push(q.0 * 256 + q.1);
            g.push(q.2 * 256 + q.3);
            Some(g)
        },
        _ => None,
    }
}

fn split_colons(v: &Vec<char>, from: usize, to: usize) -> (r: Vec<String>)
    requires
        from <= to <= v.len(),
    ensures
        texts(r@) == colon_parts(v@.subrange(from as int, to as int)),
{
    if from == to {
        let out: Vec<String> = Vec::new();
        assert(texts(out@) =~= colon_parts(v@.subrange(from as int, to as int)));
        return out;
    }
    let s = string_of(v, from, to);
    split(s.as_str(), ':')
}

fn all_zero(g: &Vec<u32>, count: usize) -> (r: bool)
    requires
        count <= g.len(),
    ensures
        r == (forall|i: int| 0 <= i < count ==> g@[i] == 0),
{
    let mut i: usize = 0;
    while i < count
        invariant
            i <= count <= g.len(),
            forall|k: int| 0 <= k < i ==> g@[k] == 0,
        decreases count - i,
    {
        if g[i] != 0 {
            return false;
        }
        i += 1;
    }
    true
}

fn is_local_ipv6(s: &str) -> (r: bool)
    ensures
        r == (ipv6(s@) matches Some(g) && local_ipv6(g)),
{
    let v = chars_of(s);
    let dc = chars_of("::");
    match find_from(&v, &dc, 0) {
        None => {
            let parts = split(s, ':');
            match parse_tail_groups(&parts) {
                Some(g) => {
                    let ghost w = group_values(g@);
                    if g.len() != 8 {
                        return false;
                    }
                    let r = all_zero(&g, 7) && g[7] <= 1;
                    assert(r == local_ipv6(w)) by {
                        assert forall|i: int| 0 <= i < 8 implies w[i] == g@[i] by {}
                        if r {
                            assert forall|i: int| 0 <= i < 7 implies w[i] == 0 by {
                                assert(g@[i] == 0);
                            }
                        }
                        if local_ipv6(w) {
                            assert forall|i: int| 0 <= i < 7 implies g@[i] == 0 by {
                                assert(w[i] == 0);
                            }
                        }
                    }
                    r
                },
                None => false,
            }
        },
        Some(i) => {
            proof {
                reveal_strlit("::");
            }
            let head = split_colons(&v, 0, i);
            let tail = split_colons(&v, i + 2, v.len());
            assert(s@.take(i as int) =~= v@.subrange(0, i as int));
            assert(s@.skip(i + 2) =~= v@.subrange(i + 2, v@.len() as int));
            assert(texts(head@).take(head.len() as int) =~= texts(head@));
            match (parse_hex_groups(&head, head.len()), parse_tail_groups(&tail)) {
                (Some(h), Some(t)) => {
                    if h.len() > 7 || t.len() > 7 - h.len() {
                        return false;
                    }
                    let ghost hv = group_values(h@);
                    let ghost tv = group_values(t@);
                    let ghost zeros = Seq::new((8 - hv.len() - tv.len()) as nat, |k: int| 0nat);
                    let ghost w = hv + zeros + tv;
                    assert(ipv6(s@) == Some(w));
                    let r = all_zero(&h, h.len()) && if t.len() == 0 {
                        true
                    } else {
                        all_zero(&t, t.len() - 1) && t[t.len() - 1] <= 1
                    };
                    assert(r == local_ipv6(w)) by {
                        let off = 8 - t.len();
                        assert forall|k: int| 0 <= k < h.len() implies w[k] == h@[k] by {}
                        assert forall|k: int| 0 <= k < t.len() implies w[off + k] == t@[k] by {}
                        if r {
                            assert forall|k: int| 0 <= k < 7 implies w[k] == 0 by {
                                if k < h.len() {
                                    assert(h@[k] == 0);
                                } else if k >= off {
                                    assert(t@[k - off] == 0);
                                }
                            }
                            if t.len() > 0 {
                                assert(w[7] == t@[t.len() - 1]);
                            }
                        }
                        if local_ipv6(w) {
                            assert forall|k: int| 0 <= k < h.len() implies h@[k] == 0 by {
                                assert(w[k] == 0);
                            }
                            assert forall|k: int| 0 <= k < t.len() - 1 implies t@[k] == 0 by {
                                assert(w[off + k] == 0);
                            }
                            if t.len() > 0 {
                                assert(w[7] == t@[t.len() - 1]);
                            }
                        }
                    }
                    r
                },
                _ => false,
            }
        },
    }
}

/// Whether a host is an IP address of this host or of a private network.
pub fn is_local_ip(s: &str) -> (r: bool)
    ensures
        r == local_ip(s@),
{
    if let Some(q) = parse_ipv4(s) {
        if q.0 == 127 || (q.0 == 0 && q.1 == 0 && q.2 == 0 && q.3 == 0) || q.0 == 10 || (q.0 == 172
            && 16 <= q.1 && q.1 <= 31) || (q.0 == 192 && q.1 == 168) {
            return true;
        }
    }
    is_local_ipv6(s)
}

/// Whether a text is an IP address.
pub open spec fn ip_address(s: Seq<char>) -> bool {
    ipv4(s) is Some || ipv6(s) is Some
}

fn is_ipv6(s: &str) -> (r: bool)
    ensures
        r == (ipv6(s@) is Some),
{
    let v = chars_of(s);
    let dc = chars_of("::");
    match find_from(&v, &dc, 0) {
        None => {
            let parts = split(s, ':');
            match parse_tail_groups(&parts) {
                Some(g) => g.len() == 8,
                None => false,
            }
        },
        Some(i) => {
            proof {
                reveal_strlit("::");
            }
            let head = split_colons(&v, 0, i);
            let tail = split_colons(&v, i + 2, v.len());
            assert(s@.take(i as int) =~= v@.subrange(0, i as int));
            assert(s@.skip(i + 2) =~= v@.subrange(i + 2, v@.len() as int));
            assert(texts(head@).take(head.len() as int) =~= texts(head@));
            match (parse_hex_groups(&head, head.len()), parse_tail_groups(&tail)) {
                (Some(h), Some(t)) => h.len() <= 7 && t.len() <= 7 - h.len(),
                _ => false,
            }
        },
    }
}

/// Whether a text is an IP address.
pub fn is_ip_address(s: &str) -> (r: bool)
    ensures
        r == ip_address(s@),
{
    parse_ipv4(s).is_some() || is_ipv6(s)
}

proof fn small_number_is_an_octet(n: nat)
    requires
        n <= 255,
    ensures
        octet(decimal(n)) == Some(n),
{
    reveal_with_fuel(decimal, 3);
    written_number_is_read_back(n, 255);
    written_number_has_digits_only(n);
    let d = decimal(n);
    assert(1 <= d.len() <= 3);
    assert(d.len() > 1 ==> d[0] != '0');
    assert(d[0] != '+');
    assert(all_digits(d));
}

/// A dotted address is read back: its four numbers, in their order.
pub proof fn dotted_address_is_read_back(a: u8, b: u8, c: u8, d: u8)
    ensures
        ipv4(
            decimal(a as nat) + seq!['.'] + (decimal(b as nat) + seq!['.'] + (decimal(c as nat) + seq![
                '.',
            ] + decimal(d as nat))),
        ) == Some((a as nat, b as nat, c as nat, d as nat)),
{
    let w = decimal(a as nat);
    let x = decimal(b as nat);
    let y = decimal(c as nat);
    let z = decimal(d as nat);
    let none = Seq::<char>::empty();
    small_number_is_an_octet(a as nat);
    small_number_is_an_octet(b as nat);
    small_number_is_an_octet(c as nat);
    small_number_is_an_octet(d as nat);
    written_number_lacks_others(a as nat, '.');
    written_number_lacks_others(b as nat, '.');
    written_number_lacks_others(c as nat, '.');
    written_number_lacks_others(d as nat, '.');
    text_is_split_at_each(z, '.', none);
    text_is_split_at_each(y, '.', z);
    text_is_split_at_each(x, '.', y + seq!['.'] + z);
    text_is_split_at_each(w, '.', x + seq!['.'] + (y + seq!['.'] + z));
    let whole = w + seq!['.'] + (x + seq!['.'] + (y + seq!['.'] + z));
    assert(split_on(whole, '.') =~= seq![w, x, y, z]);
}

/// The addresses of this host and of private networks, as numbers: the loopback block,
/// the unspecified address, and the three private blocks.
pub proof fn local_addresses_are_blocks(a: u8, b: u8, c: u8, d: u8)
    ensures
        ({
            let n = a as int * 16777216 + b as int * 65536 + c as int * 256 + d as int;
            local_ipv4((a as nat, b as nat, c as nat, d as nat)) <==> {
                ||| n == 0
                ||| 2130706432 <= n < 2147483648
                ||| 167772160 <= n < 184549376
                ||| 2886729728 <= n < 2887778304
                ||| 3232235520 <= n < 3232301056
            }
        }),
{
}

/// An address of eight groups is local if it is the unspecified or the loopback address.
pub proof fn local_groups_are_zero_or_one(g: Seq<nat>)
    requires
        g.len() == 8,
    ensures
        local_ipv6(g) <==> g =~= seq![0nat, 0, 0, 0, 0, 0, 0, 0] || g =~= seq![0nat, 0, 0, 0, 0, 0, 0, 1],
{
}

/// A part of an address with a zero before its number is not read, nor one that is empty
/// or above 255.
pub proof fn odd_parts_are_not_read(n: nat, s: Seq<char>)
    ensures
        octet(seq!['0'] + decimal(n)) is None,
        octet(Seq::empty()) is None,
        octet(s) matches Some(v) ==> v <= 255 && s.len() <= 3 && forall|i: int|
            0 <= i < s.len() ==> '0' <= #[trigger] s[i] && s[i] <= '9',
        hex_group(s) is Some ==> 1 <= s.len() <= 4,
{
    written_number_has_digits_only(n);
    let z = seq!['0'] + decimal(n);
    assert(z.len() > 1 && z[0] == '0');
    if octet(s) is Some {
        assert forall|i: int| 0 <= i < s.len() implies '0' <= #[trigger] s[i] && s[i] <= '9' by {
            assert(is_digit(s[i]));
        }
    }
}

/// An IPv6 address has eight groups, and a double colon in it stands for one group of
/// zeros at least.
pub proof fn ipv6_has_eight_groups(s: Seq<char>)
    ensures
        ipv6(s) matches Some(g) ==> g.len() == 8,
        ipv6(s) matches Some(g) ==> (first_occurrence(s, "::"@) matches Some(i) ==> exists|k: int|
            0 <= k < 8 && #[trigger] g[k] == 0),
{
    if let Some(g) = ipv6(s) {
        if let Some(i) = first_occurrence(s, "::"@) {
            let h = hex_groups(colon_parts(s.take(i)))->0;
            assert(g[h.len() as int] == 0);
        }
    }
}

} // verus!
