//! IP addresses and socket addresses: their textual forms, how they are read, and how
//! they are written.
//!
//! The accepted textual forms are the strict ones: an IPv4 address is four decimal
//! octets separated by dots, each without leading zeros; an IPv6 address is eight
//! hexadecimal groups of one to four digits separated by colons, where one run of
//! groups may be replaced by `::` and the last two groups may be written as an IPv4
//! address.
use crate::shared::text::{
    all_dec_digits, all_hex_digits, append_decimal, append_hex, chars_of, dec_text, digits_value,
    hex_digit_value, hex_text, is_dec_digit, is_hex_digit, push_char,
};
use vstd::prelude::*;

verus! {

/// An IPv4 address by its four octets, or an IPv6 address by its eight 16-bit groups.
#[derive(Clone, Copy, Debug, PartialEq, Eq)]
pub enum IpAddress {
    V4([u8; 4]),
    V6([u16; 8]),
}

/// An IP address together with a port number.
#[derive(Clone, Copy, Debug, PartialEq, Eq)]
pub struct SocketAddress {
    pub ip: IpAddress,
    pub port: u16,
}

// ---------------------------------------------------------------------------------------
// The textual forms, as spec functions.
// ---------------------------------------------------------------------------------------

/// The pieces of `s` between the occurrences of `sep`; there is always at least one piece.
pub open spec fn split(s: Seq<char>, sep: char) -> Seq<Seq<char>>
    decreases s.len(),
{
    if s.len() == 0 {
        seq![Seq::<char>::empty()]
    } else {
        let r = split(s.drop_last(), sep);
        if s.last() == sep {
            r.push(Seq::<char>::empty())
        } else {
            r.update(r.len() - 1, r.last().push(s.last()))
        }
    }
}

/// The character sequences of a sequence of character vectors.
pub open spec fn views(v: Seq<Vec<char>>) -> Seq<Seq<char>> {
    v.map_values(|x: Vec<char>| x@)
}

/// A decimal octet: one to three digits, no leading zero, at most 255.
pub open spec fn octet_field(t: Seq<char>) -> Option<u8> {
    if 1 <= t.len() <= 3 && all_dec_digits(t) && !(t.len() > 1 && t[0] == '0')
        && digits_value(t, 10) <= 255 {
        Some(digits_value(t, 10) as u8)
    } else {
        None
    }
}

/// A hexadecimal group: one to four hexadecimal digits in either case.
pub open spec fn hex_field(t: Seq<char>) -> Option<u16> {
    if 1 <= t.len() <= 4 && all_hex_digits(t) {
        Some(digits_value(t, 16) as u16)
    } else {
        None
    }
}

/// The octets of the IPv4 text `s`, if it is one.
pub open spec fn ipv4_octets(s: Seq<char>) -> Option<[u8; 4]> {
    let f = split(s, '.');
    if f.len() == 4 && octet_field(f[0]) is Some && octet_field(f[1]) is Some
        && octet_field(f[2]) is Some && octet_field(f[3]) is Some {
        Some(
            [
                octet_field(f[0])->0,
                octet_field(f[1])->0,
                octet_field(f[2])->0,
                octet_field(f[3])->0,
            ],
        )
    } else {
        None
    }
}

/// The two 16-bit groups that the four octets of an IPv4 address make up.
pub open spec fn octet_groups(o: [u8; 4]) -> Seq<u16> {
    seq![(o[0] * 256 + o[1]) as u16, (o[2] * 256 + o[3]) as u16]
}

/// The values of the first `n` fields of `f`, all of them hexadecimal groups.
pub open spec fn hex_values(f: Seq<Seq<char>>, n: int) -> Seq<u16> {
    Seq::new(n as nat, |k: int| hex_field(f[k])->0)
}

/// The first `n` fields of `f` are hexadecimal groups.
pub open spec fn all_hex_fields(f: Seq<Seq<char>>, n: int) -> bool {
    forall|k: int| 0 <= k < n ==> #[trigger] hex_field(f[k]) is Some
}

/// The groups that the colon-separated fields `f` stand for: each field is a
/// hexadecimal group, except that where `v4_tail` holds the last field may be an
/// IPv4 address, which stands for two groups.
pub open spec fn field_groups(f: Seq<Seq<char>>, v4_tail: bool) -> Option<Seq<u16>> {
    if all_hex_fields(f, f.len() as int) {
        Some(hex_values(f, f.len() as int))
    } else if v4_tail && f.len() >= 1 && all_hex_fields(f, f.len() - 1) && ipv4_octets(
        f.last(),
    ) is Some {
        Some(hex_values(f, f.len() - 1) + octet_groups(ipv4_octets(f.last())->0))
    } else {
        None
    }
}

/// The first position, from `i` on, where `::` starts in `s`.
pub open spec fn double_colon_from(s: Seq<char>, i: int) -> Option<int>
    decreases s.len() - i,
{
    if i < 0 || i + 1 >= s.len() {
        None
    } else if s[i] == ':' && s[i + 1] == ':' {
        Some(i)
    } else {
        double_colon_from(s, i + 1)
    }
}

/// Where `double_colon_from` finds `::`, both colons lie within `s`, at or after `i`.
proof fn lemma_double_colon_bounds(s: Seq<char>, i: int)
    ensures
        double_colon_from(s, i) is Some ==> {
            let p = double_colon_from(s, i)->0;
            i <= p && p + 1 < s.len() && s[p] == ':' && s[p + 1] == ':'
        },
    decreases s.len() - i,
{
    if !(i < 0 || i + 1 >= s.len()) && !(s[i] == ':' && s[i + 1] == ':') {
        lemma_double_colon_bounds(s, i + 1);
    }
}

/// The eight groups of a sequence of eight groups, as an array.
pub open spec fn group_array(g: Seq<u16>) -> [u16; 8] {
    [g[0], g[1], g[2], g[3], g[4], g[5], g[6], g[7]]
}

/// The groups written before `::` (none where nothing is written there).
pub open spec fn head_groups(head: Seq<char>) -> Option<Seq<u16>> {
    if head.len() == 0 {
        Some(Seq::<u16>::empty())
    } else {
        field_groups(split(head, ':'), false)
    }
}

/// The groups written after `::` (none where nothing is written there).
pub open spec fn tail_groups(tail: Seq<char>) -> Option<Seq<u16>> {
    if tail.len() == 0 {
        Some(Seq::<u16>::empty())
    } else {
        field_groups(split(tail, ':'), true)
    }
}

/// The groups of the IPv6 text `s`, if it is one. Without `::`, the text names all
/// eight groups; with it, the groups written before and after it are at most seven,
/// and `::` stands for the zero groups between them.
pub open spec fn ipv6_groups(s: Seq<char>) -> Option<[u16; 8]> {
    match double_colon_from(s, 0) {
        None => match field_groups(split(s, ':'), true) {
            Some(g) => if g.len() == 8 {
                Some(group_array(g))
            } else {
                None
            },
            None => None,
        },
        Some(p) => {
            let hg = head_groups(s.take(p));
            let tg = tail_groups(s.skip(p + 2));
            if hg is Some && tg is Some && hg->0.len() + tg->0.len() <= 7 {
                let zeros = Seq::new((8 - hg->0.len() - tg->0.len()) as nat, |i: int| 0u16);
                Some(group_array(hg->0 + zeros + tg->0))
            } else {
                None
            }
        },
    }
}

/// The IP address that the text `s` denotes, if any: an IPv4 address where `s` is
/// an IPv4 text, else an IPv6 address where `s` is an IPv6 text.
pub open spec fn spec_parse_ip(s: Seq<char>) -> Option<IpAddress> {
    match ipv4_octets(s) {
        Some(o) => Some(IpAddress::V4(o)),
        None => match ipv6_groups(s) {
            Some(g) => Some(IpAddress::V6(g)),
            None => None,
        },
    }
}

// ---------------------------------------------------------------------------------------
// Reading the textual forms.
// ---------------------------------------------------------------------------------------

/// The pieces of `s` between the occurrences of `sep`.
fn split_chars(s: &Vec<char>, sep: char) -> (res: Vec<Vec<char>>)
    ensures
        views(res@) == split(s@, sep),
{
    let mut fields: Vec<Vec<char>> = Vec::new();
    let mut cur: Vec<char> = Vec::new();
    let mut i: usize = 0;
    assert(s@.take(0) =~= Seq::<char>::empty());
    assert(views(fields@).push(cur@) =~= split(s@.take(0), sep));
    while i < s.len()
        invariant
            i <= s.len(),
            views(fields@).push(cur@) == split(s@.take(i as int), sep),
        decreases s.len() - i,
    {
        let c = s[i];
        let ghost t = s@.take(i + 1);
        let ghost before = views(fields@).push(cur@);
        assert(t.drop_last() =~= s@.take(i as int));
        assert(t.last() == c);
        if c == sep {
            let ghost old_fields = fields@;
            let ghost old_cur = cur@;
            fields.push(cur);
            cur = Vec::new();
            assert(views(fields@) =~= views(old_fields).push(old_cur));
            assert(views(fields@).push(cur@) =~= before.push(Seq::<char>::empty()));
        } else {
            let ghost old_cur = cur@;
            cur.push(c);
            assert(views(fields@).push(cur@) =~= before.update(
                before.len() - 1,
                old_cur.push(c),
            ));
        }
        i = i + 1;
    }
    let ghost old_fields = fields@;
    let ghost old_cur = cur@;
    fields.push(cur);
    assert(views(fields@) =~= views(old_fields).push(old_cur));
    assert(s@.take(s@.len() as int) =~= s@);
    fields
}

/// The value of a hexadecimal or decimal digit.
fn digit_value_of(c: char) -> (r: u32)
    requires
        is_hex_digit(c),
    ensures
        r == hex_digit_value(c),
        r < 16,
{
    if c >= '0' && c <= '9' {
        (c as u32) - 48
    } else if c >= 'a' && c <= 'f' {
        (c as u32) - 87
    } else {
        (c as u32) - 55
    }
}

/// The decimal octet that `t` spells, as `octet_field` states.
fn octet_of(t: &Vec<char>) -> (r: Option<u8>)
    ensures
        r == octet_field(t@),
{
    let n = t.len();
    if n < 1 || n > 3 {
        return None;
    }
    if n > 1 && t[0] == '0' {
        return None;
    }
    let mut v: u32 = 0;
    let mut i: usize = 0;
    assert(t@.take(0) =~= Seq::<char>::empty());
    while i < n
        invariant
            n == t@.len(),
            1 <= n <= 3,
            i <= n,
            all_dec_digits(t@.take(i as int)),
            v == digits_value(t@.take(i as int), 10),
            v < (if i == 0 {
                1int
            } else if i == 1 {
                10int
            } else if i == 2 {
                100int
            } else {
                1000int
            }),
        decreases n - i,
    {
        let c = t[i];
        if !(c >= '0' && c <= '9') {
            assert(!is_dec_digit(t@[i as int]));
            assert(!all_dec_digits(t@));
            return None;
        }
        let d = digit_value_of(c);
        assert(t@.take(i + 1).drop_last() =~= t@.take(i as int));
        v = v * 10 + d;
        i = i + 1;
        assert forall|k: int| 0 <= k < i implies #[trigger] is_dec_digit(t@.take(i as int)[k]) by {
            if k < i - 1 {
                assert(t@.take(i as int)[k] == t@.take(i - 1)[k]);
            }
        }
    }
    assert(t@.take(n as int) =~= t@);
    if v > 255 {
        None
    } else {
        Some(v as u8)
    }
}

/// The hexadecimal group that `t` spells, as `hex_field` states.
fn hex_of(t: &Vec<char>) -> (r: Option<u16>)
    ensures
        r == hex_field(t@),
{
    let n = t.len();
    if n < 1 || n > 4 {
        return None;
    }
    let mut v: u32 = 0;
    let mut i: usize = 0;
    assert(t@.take(0) =~= Seq::<char>::empty());
    while i < n
        invariant
            n == t@.len(),
            1 <= n <= 4,
            i <= n,
            all_hex_digits(t@.take(i as int)),
            v == digits_value(t@.take(i as int), 16),
            v < (if i == 0 {
                1int
            } else if i == 1 {
                16int
            } else if i == 2 {
                256int
            } else if i == 3 {
                4096int
            } else {
                65536int
            }),
        decreases n - i,
    {
        let c = t[i];
        if !((c >= '0' && c <= '9') || (c >= 'a' && c <= 'f') || (c >= 'A' && c <= 'F')) {
            assert(!is_hex_digit(t@[i as int]));
            assert(!all_hex_digits(t@));
            return None;
        }
        let d = digit_value_of(c);
        assert(t@.take(i + 1).drop_last() =~= t@.take(i as int));
        v = v * 16 + d;
        i = i + 1;
        assert forall|k: int| 0 <= k < i implies #[trigger] is_hex_digit(t@.take(i as int)[k]) by {
            if k < i - 1 {
                assert(t@.take(i as int)[k] == t@.take(i - 1)[k]);
            }
        }
    }
    assert(t@.take(n as int) =~= t@);
    Some(v as u16)
}

/// The octets of the IPv4 text `s`, as `ipv4_octets` states.
fn ipv4_of(s: &Vec<char>) -> (r: Option<[u8; 4]>)
    ensures
        r == ipv4_octets(s@),
{
    let f = split_chars(s, '.');
    let ghost fv = split(s@, '.');
    if f.len() != 4 {
        return None;
    }
    assert(f@[0]@ == fv[0] && f@[1]@ == fv[1] && f@[2]@ == fv[2] && f@[3]@ == fv[3]);
    match (octet_of(&f[0]), octet_of(&f[1]), octet_of(&f[2]), octet_of(&f[3])) {
        (Some(a), Some(b), Some(c), Some(d)) => Some([a, b, c, d]),
        _ => None,
    }
}

/// The groups that the fields `f` stand for, as `field_groups` states.
fn groups_of(f: &Vec<Vec<char>>, v4_tail: bool) -> (r: Option<Vec<u16>>)
    ensures
        match field_groups(views(f@), v4_tail) {
            Some(g) => r is Some && r->0@ == g,
            None => r is None,
        },
{
    let ghost fv = views(f@);
    let n = f.len();
    let mut res: Vec<u16> = Vec::new();
    let mut k: usize = 0;
    while k < n
        invariant
            n == f@.len(),
            fv == views(f@),
            k <= n,
            all_hex_fields(fv, k as int),
            res@ == hex_values(fv, k as int),
        decreases n - k,
    {
        assert(f@[k as int]@ == fv[k as int]);
        match hex_of(&f[k]) {
            Some(g) => {
                res.push(g);
                k = k + 1;
                assert(res@ =~= hex_values(fv, k as int));
            },
            None => {
                assert(!all_hex_fields(fv, fv.len() as int));
                if v4_tail && k + 1 == n {
                    let ghost last = fv.last();
                    let mut chars: Vec<char> = Vec::new();
                    let mut j: usize = 0;
                    while j < f[k].len()
                        invariant
                            k < n == f@.len(),
                            j <= f@[k as int]@.len(),
                            chars@ == f@[k as int]@.take(j as int),
                        decreases f@[k as int]@.len() - j,
                    {
                        chars.push(f[k][j]);
                        j = j + 1;
                        assert(chars@ =~= f@[k as int]@.take(j as int));
                    }
                    assert(chars@ =~= last);
                    match ipv4_of(&chars) {
                        Some(o) => {
                            res.push(((o[0] as u16) * 256 + (o[1] as u16)) as u16);
                            res.push(((o[2] as u16) * 256 + (o[3] as u16)) as u16);
                            assert(res@ =~= hex_values(fv, fv.len() - 1) + octet_groups(o));
                            return Some(res);
                        },
                        None => {
                            return None;
                        },
                    }
                } else {
                    assert(!all_hex_fields(fv, fv.len() - 1) || !v4_tail || fv.len() < 1);
                    return None;
                }
            },
        }
    }
    Some(res)
}

/// The first position where `::` starts in `s`, as `double_colon_from` states.
fn double_colon_of(s: &Vec<char>) -> (r: Option<usize>)
    ensures
        match double_colon_from(s@, 0) {
            Some(p) => r == Some(p as usize),
            None => r is None,
        },
{
    let n = s.len();
    let mut i: usize = 0;
    while n > 0 && i < n - 1
        invariant
            n == s@.len(),
            double_colon_from(s@, 0) == double_colon_from(s@, i as int),
        decreases n - i,
    {
        if s[i] == ':' && s[i + 1] == ':' {
            return Some(i);
        }
        i = i + 1;
    }
    None
}

/// The characters of `s` from position `lo` up to `hi`.
fn sub_chars(s: &Vec<char>, lo: usize, hi: usize) -> (r: Vec<char>)
    requires
        lo <= hi <= s@.len(),
    ensures
        r@ == s@.subrange(lo as int, hi as int),
{
    let mut r: Vec<char> = Vec::new();
    let mut i = lo;
    while i < hi
        invariant
            lo <= i <= hi <= s@.len(),
            r@ == s@.subrange(lo as int, i as int),
        decreases hi - i,
    {
        r.push(s[i]);
        i = i + 1;
        assert(r@ =~= s@.subrange(lo as int, i as int));
    }
    r
}

/// The groups written on one side of `::`, as `head_groups` and `tail_groups` state.
fn side_groups(s: &Vec<char>, v4_tail: bool) -> (r: Option<Vec<u16>>)
    ensures
        match (if v4_tail {
            tail_groups(s@)
        } else {
            head_groups(s@)
        }) {
            Some(g) => r is Some && r->0@ == g,
            None => r is None,
        },
{
    if s.len() == 0 {
        return Some(Vec::new());
    }
    let f = split_chars(s, ':');
    groups_of(&f, v4_tail)
}

/// The groups of the IPv6 text `s`, as `ipv6_groups` states.
fn ipv6_of(s: &Vec<char>) -> (r: Option<[u16; 8]>)
    ensures
        r == ipv6_groups(s@),
{
    let dc = double_colon_of(s);
    let n = s.len();
    proof {
        lemma_double_colon_bounds(s@, 0);
    }
    match dc {
        None => {
            assert(double_colon_from(s@, 0) is None);
            let f = split_chars(s, ':');
            match groups_of(&f, true) {
                Some(g) => {
                    if g.len() == 8 {
                        Some([g[0], g[1], g[2], g[3], g[4], g[5], g[6], g[7]])
                    } else {
                        None
                    }
                },
                None => None,
            }
        },
        Some(p) => {
            proof {
                let q = double_colon_from(s@, 0)->0;
                assert(double_colon_from(s@, 0) is Some);
                assert(0 <= q);
                assert(q + 1 < s@.len());
                assert(q < n);
                assert(dc == Some(q as usize));
                assert(q == p);
                assert(p + 2 <= s@.len());
            }
            let head = sub_chars(s, 0, p);
            let tail = sub_chars(s, p + 2, s.len());
            assert(head@ =~= s@.take(p as int));
            assert(tail@ =~= s@.skip(p + 2));
            let hg = side_groups(&head, false);
            let tg = side_groups(&tail, true);
            match (hg, tg) {
                (Some(h), Some(t)) => {
                    if h.len() > 7 || t.len() > 7 - h.len() {
                        return None;
                    }
                    let mut g: Vec<u16> = Vec::new();
                    let mut i: usize = 0;
                    while i < h.len()
                        invariant
                            i <= h@.len(),
                            g@ == h@.take(i as int),
                        decreases h@.len() - i,
                    {
                        g.push(h[i]);
                        i = i + 1;
                        assert(g@ =~= h@.take(i as int));
                    }
                    let zeros = 8 - h.len() - t.len();
                    let ghost zs = Seq::new(zeros as nat, |i: int| 0u16);
                    let mut z: usize = 0;
                    assert(h@.take(h@.len() as int) =~= h@);
                    while z < zeros
                        invariant
                            z <= zeros,
                            zs == Seq::new(zeros as nat, |i: int| 0u16),
                            g@ == h@ + zs.take(z as int),
                        decreases zeros - z,
                    {
                        g.push(0);
                        z = z + 1;
                        assert(g@ =~= h@ + zs.take(z as int));
                    }
                    assert(zs.take(zeros as int) =~= zs);
                    let mut j: usize = 0;
                    while j < t.len()
                        invariant
                            j <= t@.len(),
                            g@ == h@ + zs + t@.take(j as int),
                        decreases t@.len() - j,
                    {
                        g.push(t[j]);
                        j = j + 1;
                        assert(g@ =~= h@ + zs + t@.take(j as int));
                    }
                    assert(t@.take(t@.len() as int) =~= t@);
                    Some([g[0], g[1], g[2], g[3], g[4], g[5], g[6], g[7]])
                },
                _ => None,
            }
        },
    }
}

/// Reads an IP address from its textual form: an IPv4 address where the text is four
/// decimal octets, else an IPv6 address where it is an IPv6 text; `None` otherwise.
pub fn parse_ip_address(text: &str) -> (r: Option<IpAddress>)
    ensures
        r == spec_parse_ip(text@),
{
    let s = chars_of(text);
    match ipv4_of(&s) {
        Some(o) => Some(IpAddress::V4(o)),
        None => match ipv6_of(&s) {
            Some(g) => Some(IpAddress::V6(g)),
            None => None,
        },
    }
}

// ---------------------------------------------------------------------------------------
// Kinds of addresses.
// ---------------------------------------------------------------------------------------

impl IpAddress {
    /// A loopback address: 127.0.0.0/8 for IPv4, `::1` for IPv6.
    pub open spec fn spec_is_loopback(self) -> bool {
        match self {
            IpAddress::V4(o) => o[0] == 127,
            IpAddress::V6(g) => g == [0u16, 0, 0, 0, 0, 0, 0, 1],
        }
    }

    /// A multicast address: 224.0.0.0/4 for IPv4, ff00::/8 for IPv6.
    pub open spec fn spec_is_multicast(self) -> bool {
        match self {
            IpAddress::V4(o) => 224 <= o[0] <= 239,
            IpAddress::V6(g) => g[0] >= 0xff00,
        }
    }

    /// The kinds of address by their prefixes: an IPv4 address is multicast exactly in
    /// 224.0.0.0/4 (first four bits 1110) and loopback exactly in 127.0.0.0/8; an IPv6
    /// address is multicast exactly in ff00::/8 and loopback exactly at `::1`.
    pub proof fn lemma_address_kinds(self)
        ensures
            self matches IpAddress::V4(o) ==> (self.spec_is_multicast() <==> o[0] / 16 == 14)
                && (self.spec_is_loopback() <==> o[0] == 127),
            self matches IpAddress::V6(g) ==> (self.spec_is_multicast() <==> g[0] / 256 == 255)
                && (self.spec_is_loopback() <==> g@ == seq![0u16, 0, 0, 0, 0, 0, 0, 1]),
    {
        match self {
            IpAddress::V4(o) => {
                let x = o[0];
                assert((224 <= x <= 239) <==> (x / 16 == 14)) by (bit_vector);
            },
            IpAddress::V6(g) => {
                let x = g[0];
                assert((x >= 0xff00) <==> (x / 256 == 255)) by (bit_vector);
                assert((g == [0u16, 0, 0, 0, 0, 0, 0, 1]) <==> (g@ =~= seq![0u16, 0, 0, 0, 0, 0, 0, 1]))
                    by {
                    if g@ =~= seq![0u16, 0, 0, 0, 0, 0, 0, 1] {
                        assert(g =~= [0u16, 0, 0, 0, 0, 0, 0, 1]);
                    }
                }
            },
        }
    }

    /// Whether this is a loopback address.
    pub fn is_loopback(&self) -> (r: bool)
        ensures
            r == self.spec_is_loopback(),
    {
        match self {
            IpAddress::V4(o) => o[0] == 127,
            IpAddress::V6(g) => {
                let r = g[0] == 0 && g[1] == 0 && g[2] == 0 && g[3] == 0 && g[4] == 0 && g[5] == 0
                    && g[6] == 0 && g[7] == 1;
                assert(r == (*g =~= [0u16, 0, 0, 0, 0, 0, 0, 1]));
                r
            },
        }
    }

    /// Whether this is a multicast address.
    pub fn is_multicast(&self) -> (r: bool)
        ensures
            r == self.spec_is_multicast(),
    {
        match self {
            IpAddress::V4(o) => 224 <= o[0] && o[0] <= 239,
            IpAddress::V6(g) => g[0] >= 0xff00,
        }
    }

    /// Whether `self` and `other` are the same address.
    pub fn same_as(&self, other: &IpAddress) -> (r: bool)
        ensures
            r == (*self == *other),
    {
        match (self, other) {
            (IpAddress::V4(a), IpAddress::V4(b)) => {
                let r = a[0] == b[0] && a[1] == b[1] && a[2] == b[2] && a[3] == b[3];
                assert(r == (*a =~= *b));
                r
            },
            (IpAddress::V6(a), IpAddress::V6(b)) => {
                let r = a[0] == b[0] && a[1] == b[1] && a[2] == b[2] && a[3] == b[3] && a[4]
                    == b[4] && a[5] == b[5] && a[6] == b[6] && a[7] == b[7];
                assert(r == (*a =~= *b));
                r
            },
            _ => false,
        }
    }
}

impl SocketAddress {
    /// The IP address.
    pub fn ip(&self) -> (r: IpAddress)
        ensures
            r == self.ip,
    {
        self.ip
    }

    /// The port number.
    pub fn port(&self) -> (r: u16)
        ensures
            r == self.port,
    {
        self.port
    }
}

// ---------------------------------------------------------------------------------------
// Writing the textual forms.
// ---------------------------------------------------------------------------------------

/// The dotted-decimal text of an IPv4 address.
pub open spec fn ipv4_text(o: [u8; 4]) -> Seq<char> {
    dec_text(o[0] as nat) + seq!['.'] + dec_text(o[1] as nat) + seq!['.'] + dec_text(
        o[2] as nat,
    ) + seq!['.'] + dec_text(o[3] as nat)
}

/// The groups `g`, each in lower-case hexadecimal without leading zeros, separated by colons.
pub open spec fn join_hex(g: Seq<u16>) -> Seq<char>
    decreases g.len(),
{
    if g.len() == 0 {
        Seq::<char>::empty()
    } else if g.len() == 1 {
        hex_text(g[0] as nat)
    } else {
        join_hex(g.drop_last()) + seq![':'] + hex_text(g.last() as nat)
    }
}

/// The number of consecutive zero groups of `g` from position `i` on.
pub open spec fn zero_run(g: Seq<u16>, i: int) -> nat
    decreases g.len() - i,
{
    if i < 0 || i >= g.len() || g[i] != 0 {
        0
    } else {
        1 + zero_run(g, i + 1)
    }
}

/// The first position, from `i` on, where a longest run of zero groups starts.
pub open spec fn longest_run_start(g: Seq<u16>, i: int) -> int
    decreases g.len() - i,
{
    if i < 0 || i + 1 >= g.len() {
        i
    } else {
        let b = longest_run_start(g, i + 1);
        if zero_run(g, i) >= zero_run(g, b) {
            i
        } else {
            b
        }
    }
}

/// An IPv6 address that maps an IPv4 address (`::ffff:a.b.c.d`).
pub open spec fn is_ipv4_mapped(g: [u16; 8]) -> bool {
    g[0] == 0 && g[1] == 0 && g[2] == 0 && g[3] == 0 && g[4] == 0 && g[5] == 0xffff
}

/// The IPv4 address that the last two groups of `g` hold.
pub open spec fn mapped_octets(g: [u16; 8]) -> [u8; 4] {
    [(g[6] / 256) as u8, (g[6] % 256) as u8, (g[7] / 256) as u8, (g[7] % 256) as u8]
}

/// The canonical text of an IPv6 address: an IPv4-mapped address is written
/// `::ffff:` and its IPv4 text; otherwise the first longest run of two or more zero
/// groups is written `::` and the other groups in lower-case hexadecimal.
pub open spec fn ipv6_text(g: [u16; 8]) -> Seq<char> {
    if is_ipv4_mapped(g) {
        seq![':', ':', 'f', 'f', 'f', 'f', ':'] + ipv4_text(mapped_octets(g))
    } else {
        let st = longest_run_start(g@, 0);
        let ln = zero_run(g@, st);
        if ln > 1 {
            join_hex(g@.subrange(0, st)) + seq![':', ':'] + join_hex(g@.subrange(st + ln, 8))
        } else {
            join_hex(g@)
        }
    }
}

/// The text of an IP address.
pub open spec fn ip_text(ip: IpAddress) -> Seq<char> {
    match ip {
        IpAddress::V4(o) => ipv4_text(o),
        IpAddress::V6(g) => ipv6_text(g),
    }
}

/// The text of a socket address: `a.b.c.d:port` for IPv4, `[ipv6]:port` for IPv6.
pub open spec fn socket_text(sa: SocketAddress) -> Seq<char> {
    match sa.ip {
        IpAddress::V4(o) => ipv4_text(o) + seq![':'] + dec_text(sa.port as nat),
        IpAddress::V6(g) => seq!['['] + ipv6_text(g) + seq![']', ':'] + dec_text(
            sa.port as nat,
        ),
    }
}

/// Appends the dotted-decimal text of `o` to `s`.
fn append_ipv4_text(s: &mut String, o: [u8; 4])
    ensures
        final(s)@ == old(s)@ + ipv4_text(o),
{
    append_decimal(s, o[0] as u64);
    push_char(s, '.');
    append_decimal(s, o[1] as u64);
    push_char(s, '.');
    append_decimal(s, o[2] as u64);
    push_char(s, '.');
    append_decimal(s, o[3] as u64);
    assert(s@ =~= old(s)@ + ipv4_text(o));
}

/// Appends the groups `g[lo..hi]`, separated by colons, to `s`.
fn append_groups(s: &mut String, g: [u16; 8], lo: usize, hi: usize)
    requires
        lo <= hi <= 8,
    ensures
        final(s)@ == old(s)@ + join_hex(g@.subrange(lo as int, hi as int)),
{
    let ghost start = s@;
    let mut i = lo;
    assert(g@.subrange(lo as int, lo as int) =~= Seq::<u16>::empty());
    assert(s@ =~= start + join_hex(g@.subrange(lo as int, lo as int)));
    while i < hi
        invariant
            lo <= i <= hi <= 8,
            s@ == start + join_hex(g@.subrange(lo as int, i as int)),
        decreases hi - i,
    {
        let ghost prev = g@.subrange(lo as int, i as int);
        if i > lo {
            push_char(s, ':');
        }
        append_hex(s, g[i] as u64);
        i = i + 1;
        assert(g@.subrange(lo as int, i as int).drop_last() =~= prev);
        assert(s@ =~= start + join_hex(g@.subrange(lo as int, i as int)));
    }
}

/// Finds where the first longest run of zero groups starts, and its length.
fn longest_zero_run(g: [u16; 8]) -> (r: (usize, usize))
    ensures
        r.0 == longest_run_start(g@, 0),
        r.1 == zero_run(g@, r.0 as int),
        r.0 < 8,
        r.0 + r.1 <= 8,
{
    let mut i: usize = 7;
    let mut run: usize = if g[7] == 0 {
        1
    } else {
        0
    };
    let mut best: usize = 7;
    let mut best_run: usize = run;
    assert(zero_run(g@, 8) == 0);
    while i > 0
        invariant
            i <= 7,
            run == zero_run(g@, i as int),
            best == longest_run_start(g@, i as int),
            best_run == zero_run(g@, best as int),
            i <= best < 8,
            run + i <= 8,
            best_run + best <= 8,
        decreases i,
    {
        i = i - 1;
        run = if g[i] == 0 {
            run + 1
        } else {
            0
        };
        if run >= best_run {
            best = i;
            best_run = run;
        }
    }
    (best, best_run)
}

/// Appends the canonical text of the IPv6 address `g` to `s`.
fn append_ipv6_text(s: &mut String, g: [u16; 8])
    ensures
        final(s)@ == old(s)@ + ipv6_text(g),
{
    if g[0] == 0 && g[1] == 0 && g[2] == 0 && g[3] == 0 && g[4] == 0 && g[5] == 0xffff {
        push_char(s, ':');
        push_char(s, ':');
        push_char(s, 'f');
        push_char(s, 'f');
        push_char(s, 'f');
        push_char(s, 'f');
        push_char(s, ':');
        let o: [u8; 4] = [(g[6] / 256) as u8, (g[6] % 256) as u8, (g[7] / 256) as u8, (g[7] % 256) as u8];
        assert(o == mapped_octets(g));
        append_ipv4_text(s, o);
        assert(s@ =~= old(s)@ + ipv6_text(g));
    } else {
        let (st, ln) = longest_zero_run(g);
        if ln > 1 {
            append_groups(s, g, 0, st);
            push_char(s, ':');
            push_char(s, ':');
            append_groups(s, g, st + ln, 8);
            assert(s@ =~= old(s)@ + ipv6_text(g));
        } else {
            append_groups(s, g, 0, 8);
            assert(g@.subrange(0, 8) =~= g@);
        }
    }
}

impl IpAddress {
    /// The text of this address: dotted decimal for IPv4, the canonical form for IPv6.
    pub fn to_text(&self) -> (s: String)
        ensures
            s@ == ip_text(*self),
    {
        let mut s = String::new();
        match *self {
            IpAddress::V4(o) => append_ipv4_text(&mut s, o),
            IpAddress::V6(g) => append_ipv6_text(&mut s, g),
        }
        s
    }
}

impl SocketAddress {
    /// The text of this socket address: `a.b.c.d:port` or `[ipv6]:port`.
    pub fn to_text(&self) -> (s: String)
        ensures
            s@ == socket_text(*self),
    {
        let mut s = String::new();
        match self.ip {
            IpAddress::V4(o) => {
                append_ipv4_text(&mut s, o);
                push_char(&mut s, ':');
                append_decimal(&mut s, self.port as u64);
            },
            IpAddress::V6(g) => {
                push_char(&mut s, '[');
                append_ipv6_text(&mut s, g);
                push_char(&mut s, ']');
                push_char(&mut s, ':');
                append_decimal(&mut s, self.port as u64);
            },
        }
        assert(s@ =~= socket_text(*self));
        s
    }
}

} // verus!
