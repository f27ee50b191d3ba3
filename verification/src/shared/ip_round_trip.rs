//! Reading an address back from the text written for it gives the same address.
use crate::shared::ip_address::{
    all_hex_fields, double_colon_from, field_groups, group_array, head_groups, hex_field,
    hex_values, ip_text, ipv4_octets, ipv4_text, ipv6_groups, ipv6_text, is_ipv4_mapped,
    join_hex, longest_run_start, mapped_octets, octet_field, octet_groups, split, spec_parse_ip,
    tail_groups, zero_run, IpAddress,
};
use crate::shared::text::{
    all_hex_digits, is_hex_digit, all_dec_digits, dec_text, digit_char, digits_value, hex_digit_value, hex_text, is_dec_digit,
    lemma_radix_text, radix_text,
};
use vstd::prelude::*;

verus! {

/// There is always at least one piece.
pub proof fn lemma_split_nonempty(s: Seq<char>, sep: char)
    ensures
        split(s, sep).len() >= 1,
    decreases s.len(),
{
    if s.len() > 0 {
        lemma_split_nonempty(s.drop_last(), sep);
    }
}

/// A text without the separator is a single piece.
pub proof fn lemma_split_without_separator(s: Seq<char>, sep: char)
    requires
        forall|i: int| 0 <= i < s.len() ==> s[i] != sep,
    ensures
        split(s, sep) == seq![s],
    decreases s.len(),
{
    if s.len() > 0 {
        lemma_split_without_separator(s.drop_last(), sep);
        assert(s.drop_last().push(s.last()) =~= s);
        assert(s.last() != sep);
        assert(seq![s.drop_last()].update(0, s.drop_last().push(s.last())) =~= seq![s]);
    } else {
        assert(s =~= Seq::<char>::empty());
    }
}

/// Splitting two texts joined by the separator gives the pieces of the one, then the
/// pieces of the other.
pub proof fn lemma_split_join(x: Seq<char>, y: Seq<char>, sep: char)
    ensures
        split(x + seq![sep] + y, sep) == split(x, sep) + split(y, sep),
    decreases y.len(),
{
    let z = x + seq![sep] + y;
    if y.len() == 0 {
        assert(z.drop_last() =~= x);
        assert(split(y, sep) =~= seq![Seq::<char>::empty()]);
        assert(split(z, sep) =~= split(x, sep) + split(y, sep));
    } else {
        lemma_split_join(x, y.drop_last(), sep);
        lemma_split_nonempty(x, sep);
        lemma_split_nonempty(y.drop_last(), sep);
        assert(z.drop_last() =~= x + seq![sep] + y.drop_last());
        assert(z.last() == y.last());
        let a = split(x, sep);
        let b = split(y.drop_last(), sep);
        if y.last() == sep {
            assert(split(z, sep) =~= a + split(y, sep));
        } else {
            assert((a + b).last() == b.last());
            assert((a + b).update((a + b).len() - 1, b.last().push(y.last())) =~= a + b.update(
                b.len() - 1,
                b.last().push(y.last()),
            ));
        }
    }
}

/// The decimal spelling of an octet is a decimal octet field of that value, without
/// separators.
pub proof fn lemma_octet_text(v: u8)
    ensures
        octet_field(dec_text(v as nat)) == Some(v),
        forall|i: int|
            0 <= i < dec_text(v as nat).len() ==> #[trigger] dec_text(v as nat)[i] != ':'
                && dec_text(v as nat)[i] != '.',
{
    lemma_radix_text(v as nat, 10);
}

/// The text written for an IPv4 address reads back as that address.
pub proof fn lemma_ipv4_text_reads_back(o: [u8; 4])
    ensures
        ipv4_octets(ipv4_text(o)) == Some(o),
        forall|i: int| 0 <= i < ipv4_text(o).len() ==> #[trigger] ipv4_text(o)[i] != ':',
{
    let d0 = dec_text(o[0] as nat);
    let d1 = dec_text(o[1] as nat);
    let d2 = dec_text(o[2] as nat);
    let d3 = dec_text(o[3] as nat);
    lemma_octet_text(o[0]);
    lemma_octet_text(o[1]);
    lemma_octet_text(o[2]);
    lemma_octet_text(o[3]);
    lemma_split_without_separator(d0, '.');
    lemma_split_without_separator(d1, '.');
    lemma_split_without_separator(d2, '.');
    lemma_split_without_separator(d3, '.');
    let x1 = d0;
    let x2 = x1 + seq!['.'] + d1;
    let x3 = x2 + seq!['.'] + d2;
    let x4 = x3 + seq!['.'] + d3;
    assert(x4 =~= ipv4_text(o));
    lemma_split_join(x1, d1, '.');
    lemma_split_join(x2, d2, '.');
    lemma_split_join(x3, d3, '.');
    let f = split(x4, '.');
    assert(f =~= seq![d0, d1, d2, d3]);
    assert([o[0], o[1], o[2], o[3]] =~= o);
    assert forall|i: int| 0 <= i < x4.len() implies #[trigger] x4[i] != ':' by {
        if i < x3.len() {
            if i < x2.len() {
                if i < x1.len() {
                } else if i > x1.len() {
                    assert(x2[i] == d1[i - x1.len() - 1]);
                }
            } else if i > x2.len() {
                assert(x3[i] == d2[i - x2.len() - 1]);
            }
            assert(x4[i] == x3[i]);
        } else if i > x3.len() {
            assert(x4[i] == d3[i - x3.len() - 1]);
        }
    }
}

/// The hexadecimal spelling of a group is a hexadecimal field of that value, without
/// separators.
pub proof fn lemma_group_text(v: u16)
    ensures
        hex_field(hex_text(v as nat)) == Some(v),
        hex_text(v as nat).len() >= 1,
        forall|i: int|
            0 <= i < hex_text(v as nat).len() ==> #[trigger] hex_text(v as nat)[i] != ':'
                && hex_text(v as nat)[i] != '.',
{
    lemma_radix_text(v as nat, 16);
}

/// The fields that spell the groups `h`, one each.
pub open spec fn group_fields(h: Seq<u16>) -> Seq<Seq<char>> {
    Seq::new(h.len(), |k: int| hex_text(h[k] as nat))
}

/// Groups joined by colons: splitting at the colons gives back their spellings; there is
/// no dot, no `::`, and no colon at either end.
pub proof fn lemma_join_hex(h: Seq<u16>)
    requires
        h.len() >= 1,
    ensures
        split(join_hex(h), ':') == group_fields(h),
        join_hex(h).len() >= 1,
        join_hex(h)[0] != ':',
        join_hex(h).last() != ':',
        forall|i: int| 0 <= i < join_hex(h).len() ==> #[trigger] join_hex(h)[i] != '.',
        forall|i: int|
            0 <= i < join_hex(h).len() - 1 ==> !(#[trigger] join_hex(h)[i] == ':' && join_hex(
                h,
            )[i + 1] == ':'),
    decreases h.len(),
{
    let j = join_hex(h);
    let last = hex_text(h.last() as nat);
    lemma_group_text(h.last());
    lemma_split_without_separator(last, ':');
    if h.len() == 1 {
        assert(j == hex_text(h[0] as nat));
        assert(group_fields(h) =~= seq![last]);
    } else {
        let p = h.drop_last();
        let jp = join_hex(p);
        lemma_join_hex(p);
        assert(j == jp + seq![':'] + last);
        lemma_split_join(jp, last, ':');
        assert(group_fields(h) =~= group_fields(p) + seq![last]);
        assert(j[0] == jp[0]);
        assert(j.last() == last.last());
        assert forall|i: int| 0 <= i < j.len() implies #[trigger] j[i] != '.' by {
            if i < jp.len() {
                assert(j[i] == jp[i]);
            } else if i > jp.len() {
                assert(j[i] == last[i - jp.len() - 1]);
            }
        }
        assert forall|i: int| 0 <= i < j.len() - 1 implies !(#[trigger] j[i] == ':' && j[i + 1]
            == ':') by {
            if i < jp.len() - 1 {
                assert(j[i] == jp[i] && j[i + 1] == jp[i + 1]);
            } else if i == jp.len() - 1 {
                assert(j[i] == jp.last());
            } else if i == jp.len() {
                assert(j[i + 1] == last[0]);
            } else {
                assert(j[i] == last[i - jp.len() - 1]);
            }
        }
    }
}

/// The spellings of groups read back as those groups, on either side of `::`.
pub proof fn lemma_group_fields_read_back(h: Seq<u16>, v4_tail: bool)
    ensures
        field_groups(group_fields(h), v4_tail) == Some(h),
{
    let f = group_fields(h);
    assert forall|k: int| 0 <= k < f.len() implies #[trigger] hex_field(f[k]) is Some by {
        lemma_group_text(h[k]);
    }
    assert forall|k: int| 0 <= k < f.len() implies hex_values(f, f.len() as int)[k] == h[k] by {
        lemma_group_text(h[k]);
    }
    assert(hex_values(f, f.len() as int) =~= h);
}

/// Where `::` first stands at `p`, and nowhere from `i` on before it, that is where
/// `double_colon_from` finds it.
pub proof fn lemma_double_colon_first(s: Seq<char>, i: int, p: int)
    requires
        0 <= i <= p,
        p + 1 < s.len(),
        s[p] == ':' && s[p + 1] == ':',
        forall|j: int| i <= j < p ==> !(#[trigger] s[j] == ':' && s[j + 1] == ':'),
    ensures
        double_colon_from(s, i) == Some(p),
    decreases p - i,
{
    if i < p {
        lemma_double_colon_first(s, i + 1, p);
    }
}

/// Where `::` stands nowhere from `i` on, `double_colon_from` finds none.
pub proof fn lemma_no_double_colon(s: Seq<char>, i: int)
    requires
        0 <= i,
        forall|j: int| i <= j < s.len() - 1 ==> !(#[trigger] s[j] == ':' && s[j + 1] == ':'),
    ensures
        double_colon_from(s, i) is None,
    decreases s.len() - i,
{
    if i + 1 < s.len() {
        lemma_no_double_colon(s, i + 1);
    }
}

/// A run of zero groups from `i` on lies within the groups and is all zeros.
pub proof fn lemma_zero_run(g: Seq<u16>, i: int)
    requires
        0 <= i <= g.len(),
    ensures
        i + zero_run(g, i) <= g.len(),
        forall|j: int| i <= j < i + zero_run(g, i) ==> #[trigger] g[j] == 0,
    decreases g.len() - i,
{
    if i < g.len() && g[i] == 0 {
        lemma_zero_run(g, i + 1);
    }
}

/// Where a longest run starts lies within the groups.
pub proof fn lemma_longest_run_start(g: Seq<u16>, i: int)
    requires
        0 <= i < g.len(),
    ensures
        i <= longest_run_start(g, i) < g.len(),
    decreases g.len() - i,
{
    if i + 1 < g.len() {
        lemma_longest_run_start(g, i + 1);
    }
}

/// A text without dots is not an IPv4 text.
pub proof fn lemma_no_dot_not_ipv4(s: Seq<char>)
    requires
        forall|i: int| 0 <= i < s.len() ==> s[i] != '.',
    ensures
        ipv4_octets(s) is None,
{
    lemma_split_without_separator(s, '.');
}

/// The groups `h`, joined by colons, read back as `h` on either side of `::`.
pub proof fn lemma_side_reads_back(h: Seq<u16>)
    ensures
        head_groups(join_hex(h)) == Some(h),
        tail_groups(join_hex(h)) == Some(h),
{
    if h.len() == 0 {
        assert(join_hex(h).len() == 0);
        assert(h =~= Seq::<u16>::empty());
    } else {
        lemma_join_hex(h);
        lemma_group_fields_read_back(h, false);
        lemma_group_fields_read_back(h, true);
    }
}

/// The text written for an IPv6 address that is compressed at its first longest run of
/// zero groups reads back as that address.
#[verifier::spinoff_prover]
proof fn lemma_compressed_text_reads_back(g: [u16; 8], st: int, ln: int)
    requires
        0 <= st,
        st + ln <= 8,
        ln > 1,
        forall|j: int| st <= j < st + ln ==> #[trigger] g@[j] == 0,
    ensures
        ({
            let text = join_hex(g@.subrange(0, st)) + seq![':', ':'] + join_hex(
                g@.subrange(st + ln, 8),
            );
            ipv4_octets(text) is None && ipv6_groups(text) == Some(g)
        }),
{
    let h = g@.subrange(0, st);
    let t = g@.subrange(st + ln, 8);
    let jh = join_hex(h);
    let jt = join_hex(t);
    let text = jh + seq![':', ':'] + jt;
    if h.len() > 0 {
        lemma_join_hex(h);
    }
    if t.len() > 0 {
        lemma_join_hex(t);
    }
    assert forall|i: int| 0 <= i < text.len() implies text[i] != '.' by {
        if i < jh.len() {
            assert(text[i] == jh[i]);
        } else if i >= jh.len() + 2 {
            assert(text[i] == jt[i - jh.len() - 2]);
        }
    }
    lemma_no_dot_not_ipv4(text);
    let p = jh.len() as int;
    assert forall|j: int| 0 <= j < p implies !(#[trigger] text[j] == ':' && text[j + 1] == ':') by {
        assert(text[j] == jh[j]);
        if j < p - 1 {
            assert(text[j + 1] == jh[j + 1]);
        }
    }
    lemma_double_colon_first(text, 0, p);
    assert(text.take(p) =~= jh);
    assert(text.skip(p + 2) =~= jt);
    lemma_side_reads_back(h);
    lemma_side_reads_back(t);
    let zeros = Seq::new((8 - h.len() - t.len()) as nat, |i: int| 0u16);
    assert(h + zeros + t =~= g@);
    assert(group_array(g@) =~= g);
}

/// The text written for an IPv6 address without `::` reads back as that address.
proof fn lemma_full_text_reads_back(g: [u16; 8])
    ensures
        ipv4_octets(join_hex(g@)) is None,
        ipv6_groups(join_hex(g@)) == Some(g),
{
    let text = join_hex(g@);
    lemma_join_hex(g@);
    lemma_no_dot_not_ipv4(text);
    lemma_no_double_colon(text, 0);
    lemma_group_fields_read_back(g@, true);
    assert(group_array(g@) =~= g);
}

/// The text written for an IPv4-mapped IPv6 address reads back as that address.
#[verifier::spinoff_prover]
proof fn lemma_mapped_text_reads_back(g: [u16; 8])
    requires
        is_ipv4_mapped(g),
    ensures
        ipv4_octets(ipv6_text(g)) is None,
        ipv6_groups(ipv6_text(g)) == Some(g),
{
    let m = mapped_octets(g);
    let v4 = ipv4_text(m);
    let ffff = seq!['f', 'f', 'f', 'f'];
    let prefix = seq![':', ':'] + ffff + seq![':'];
    let text = ipv6_text(g);
    assert(text =~= prefix + v4);
    lemma_ipv4_text_reads_back(m);
    // Not an IPv4 text: its first dot-separated piece is too long for an octet.
    let d0 = dec_text(m[0] as nat);
    let rest = dec_text(m[1] as nat) + seq!['.'] + dec_text(m[2] as nat) + seq!['.'] + dec_text(
        m[3] as nat,
    );
    lemma_octet_text(m[0]);
    assert(text =~= (prefix + d0) + seq!['.'] + rest);
    assert forall|i: int| 0 <= i < (prefix + d0).len() implies (prefix + d0)[i] != '.' by {
        if i >= prefix.len() {
            assert((prefix + d0)[i] == d0[i - prefix.len()]);
        }
    }
    lemma_split_without_separator(prefix + d0, '.');
    lemma_split_join(prefix + d0, rest, '.');
    assert(split(text, '.')[0] == prefix + d0);
    // The `::` stands first.
    assert(text[0] == ':' && text[1] == ':');
    lemma_double_colon_first(text, 0, 0);
    assert(text.take(0) =~= Seq::<char>::empty());
    let tail = text.skip(2);
    assert(tail =~= ffff + seq![':'] + v4);
    lemma_split_without_separator(ffff, ':');
    lemma_split_without_separator(v4, ':');
    lemma_split_join(ffff, v4, ':');
    let f = split(tail, ':');
    assert(f =~= seq![ffff, v4]);
    assert(ffff.drop_last().drop_last().drop_last().drop_last() =~= Seq::<char>::empty());
    assert(hex_digit_value('f') == 15);
    reveal_with_fuel(digits_value, 5);
    assert(digits_value(ffff, 16) == 65535);
    assert(hex_field(ffff) == Some(0xffffu16));
    assert(v4.len() >= 7);
    assert(hex_field(v4) is None);
    assert(!all_hex_fields(f, 2));
    assert(all_hex_fields(f, 1));
    assert(hex_values(f, 1) =~= seq![0xffffu16]);
    assert(m[0] * 256 + m[1] == g[6]) by (nonlinear_arith)
        requires
            m[0] == g[6] / 256,
            m[1] == g[6] % 256,
    ;
    assert(m[2] * 256 + m[3] == g[7]) by (nonlinear_arith)
        requires
            m[2] == g[7] / 256,
            m[3] == g[7] % 256,
    ;
    let tg = seq![0xffffu16] + octet_groups(m);
    assert(field_groups(f, true) == Some(tg));
    let zeros = Seq::new(5, |i: int| 0u16);
    assert(Seq::<u16>::empty() + zeros + tg =~= g@);
    assert(group_array(g@) =~= g);
}

/// The text written for an IP address reads back as that address.
pub proof fn lemma_ip_text_reads_back(ip: IpAddress)
    ensures
        spec_parse_ip(ip_text(ip)) == Some(ip),
{
    match ip {
        IpAddress::V4(o) => {
            lemma_ipv4_text_reads_back(o);
        },
        IpAddress::V6(g) => {
            if is_ipv4_mapped(g) {
                lemma_mapped_text_reads_back(g);
            } else {
                let st = longest_run_start(g@, 0);
                lemma_longest_run_start(g@, 0);
                let ln = zero_run(g@, st);
                lemma_zero_run(g@, st);
                if ln > 1 {
                    lemma_compressed_text_reads_back(g, st, ln as int);
                } else {
                    lemma_full_text_reads_back(g);
                }
            }
        },
    }
}

/// The pieces `f`, joined by the separator `sep`.
pub open spec fn join_with(f: Seq<Seq<char>>, sep: char) -> Seq<char>
    decreases f.len(),
{
    if f.len() == 0 {
        Seq::<char>::empty()
    } else if f.len() == 1 {
        f[0]
    } else {
        join_with(f.drop_last(), sep) + seq![sep] + f.last()
    }
}

/// Joining the pieces of a text by the separator gives the text back.
pub proof fn lemma_split_rejoin(s: Seq<char>, sep: char)
    ensures
        join_with(split(s, sep), sep) == s,
    decreases s.len(),
{
    if s.len() == 0 {
        assert(split(s, sep) =~= seq![Seq::<char>::empty()]);
        assert(s =~= Seq::<char>::empty());
    } else {
        let p = s.drop_last();
        let c = s.last();
        lemma_split_rejoin(p, sep);
        lemma_split_nonempty(p, sep);
        let f = split(p, sep);
        if c == sep {
            let g = f.push(Seq::<char>::empty());
            assert(g.drop_last() =~= f);
            assert(join_with(g, sep) =~= s);
        } else {
            let g = f.update(f.len() - 1, f.last().push(c));
            if f.len() == 1 {
                assert(join_with(g, sep) == g[0]);
                assert(g[0] =~= s);
            } else {
                assert(g.drop_last() =~= f.drop_last());
                assert(g.last() == f.last().push(c));
                assert(join_with(f, sep) == join_with(f.drop_last(), sep) + seq![sep] + f.last());
                assert(join_with(g, sep) == join_with(f.drop_last(), sep) + seq![sep] + g.last());
                assert(s =~= p.push(c));
                assert(join_with(g, sep) =~= s);
            }
        }
    }
}

/// Decimal digits without a leading zero denote a positive number where the first digit
/// is not zero, and at least ten where there are two digits or more.
proof fn lemma_decimal_lower_bound(t: Seq<char>)
    requires
        t.len() >= 1,
        all_dec_digits(t),
        t[0] != '0',
    ensures
        digits_value(t, 10) >= 1,
        t.len() >= 2 ==> digits_value(t, 10) >= 10,
    decreases t.len(),
{
    if t.len() >= 2 {
        let p = t.drop_last();
        assert(p[0] == t[0]);
        assert forall|i: int| 0 <= i < p.len() implies #[trigger] is_dec_digit(p[i]) by {
            assert(p[i] == t[i]);
        }
        lemma_decimal_lower_bound(p);
    } else {
        assert(t.drop_last().len() == 0);
        assert(is_dec_digit(t[0]));
    }
}

/// Decimal digits without a leading zero are the decimal spelling of the number they
/// denote.
proof fn lemma_decimal_canonical(t: Seq<char>)
    requires
        t.len() >= 1,
        all_dec_digits(t),
        !(t.len() > 1 && t[0] == '0'),
    ensures
        t == radix_text(digits_value(t, 10), 10),
    decreases t.len(),
{
    let c = t.last();
    assert(is_dec_digit(c));
    let d = hex_digit_value(c);
    assert(d < 10);
    assert(digit_char(d) == c);
    if t.len() == 1 {
        assert(t.drop_last().len() == 0);
        assert(digits_value(t.drop_last(), 10) == 0);
        assert(digits_value(t, 10) == digits_value(t.drop_last(), 10) * 10 + d);
        assert(digits_value(t, 10) == d);
        assert(t =~= seq![c]);
    } else {
        let p = t.drop_last();
        assert(p[0] == t[0]);
        assert forall|i: int| 0 <= i < p.len() implies #[trigger] is_dec_digit(p[i]) by {
            assert(p[i] == t[i]);
        }
        lemma_decimal_canonical(p);
        lemma_decimal_lower_bound(p);
        let vp = digits_value(p, 10);
        let v = digits_value(t, 10);
        assert(v == vp * 10 + d);
        assert(v / 10 == vp && v % 10 == d) by (nonlinear_arith)
            requires
                v == vp * 10 + d,
                d < 10,
        ;
        assert(v >= 10);
        assert(t =~= p.push(c));
    }
}

/// An IPv4 address has exactly one text, the one written for it: whatever reads as
/// the address is that text.
pub proof fn lemma_ipv4_text_unique(s: Seq<char>, o: [u8; 4])
    ensures
        spec_parse_ip(s) == Some(IpAddress::V4(o)) ==> s == ipv4_text(o),
{
    if spec_parse_ip(s) == Some(IpAddress::V4(o)) {
        assert(ipv4_octets(s) == Some(o));
        let f = split(s, '.');
        assert forall|k: int| 0 <= k < 4 implies f[k] == dec_text(o[k] as nat) by {
            lemma_decimal_canonical(f[k]);
        }
        lemma_split_rejoin(s, '.');
        assert(f.drop_last().drop_last().drop_last().len() == 1);
        assert(join_with(f, '.') =~= ipv4_text(o)) by {
            reveal_with_fuel(join_with, 4);
            assert(f.drop_last()[0] == f[0] && f.drop_last()[1] == f[1] && f.drop_last()[2] == f[2]);
            assert(f.drop_last().drop_last()[0] == f[0] && f.drop_last().drop_last()[1] == f[1]);
            assert(f.drop_last().drop_last().drop_last()[0] == f[0]);
        }
    }
}

/// Sixteen to the power `k`.
pub open spec fn pow16(k: nat) -> nat
    decreases k,
{
    if k == 0 {
        1
    } else {
        16 * pow16((k - 1) as nat)
    }
}

/// The hexadecimal digit for `d` (below sixteen), in upper or lower case.
pub open spec fn cased_hex_digit(d: nat, upper: bool) -> char {
    if d < 10 {
        ('0' as int + d) as char
    } else if upper {
        ('A' as int + d - 10) as char
    } else {
        ('a' as int + d - 10) as char
    }
}

/// `v` spelled in exactly `k` hexadecimal digits, padded with leading zeros, in upper or
/// lower case.
pub open spec fn hex_spelling(v: nat, k: nat, upper: bool) -> Seq<char>
    decreases k,
{
    if k == 0 {
        Seq::<char>::empty()
    } else {
        hex_spelling(v / 16, (k - 1) as nat, upper).push(cased_hex_digit(v % 16, upper))
    }
}

/// A `k`-digit spelling is `k` hexadecimal digits, no separators among them, denoting `v`.
proof fn lemma_hex_spelling(v: nat, k: nat, upper: bool)
    requires
        v < pow16(k),
    ensures
        hex_spelling(v, k, upper).len() == k,
        all_hex_digits(hex_spelling(v, k, upper)),
        digits_value(hex_spelling(v, k, upper), 16) == v,
        forall|i: int|
            0 <= i < k ==> #[trigger] hex_spelling(v, k, upper)[i] != ':' && hex_spelling(
                v,
                k,
                upper,
            )[i] != '.',
    decreases k,
{
    let t = hex_spelling(v, k, upper);
    if k == 0 {
        assert(v == 0);
    } else {
        let q = v / 16;
        let d = v % 16;
        assert(q < pow16((k - 1) as nat) && d < 16 && v == q * 16 + d) by (nonlinear_arith)
            requires
                v < 16 * pow16((k - 1) as nat),
                q == v / 16,
                d == v % 16,
        ;
        lemma_hex_spelling(q, (k - 1) as nat, upper);
        let p = hex_spelling(q, (k - 1) as nat, upper);
        let c = cased_hex_digit(d, upper);
        assert(is_hex_digit(c) && hex_digit_value(c) == d && c != ':' && c != '.');
        assert(t == p.push(c));
        assert(t.drop_last() =~= p);
        assert forall|i: int| 0 <= i < t.len() implies #[trigger] is_hex_digit(t[i]) by {
            if i < p.len() {
                assert(t[i] == p[i]);
            }
        }
        assert forall|i: int| 0 <= i < k implies #[trigger] t[i] != ':' && t[i] != '.' by {
            if i < p.len() {
                assert(t[i] == p[i]);
            }
        }
    }
}

/// Every spelling of a group value in one to four hexadecimal digits, with any number of
/// leading zeros and in either case, is a hexadecimal field of that value.
pub proof fn lemma_hex_field_any_spelling(v: u16, k: nat, upper: bool)
    requires
        1 <= k <= 4,
        v < pow16(k),
    ensures
        hex_field(hex_spelling(v as nat, k, upper)) == Some(v),
{
    lemma_hex_spelling(v as nat, k, upper);
}

/// Pieces joined by a separator that none of them holds split back into those pieces.
pub proof fn lemma_split_join_with(f: Seq<Seq<char>>, sep: char)
    requires
        f.len() >= 1,
        forall|k: int, i: int| 0 <= k < f.len() && 0 <= i < f[k].len() ==> #[trigger] f[k][i] != sep,
    ensures
        split(join_with(f, sep), sep) == f,
    decreases f.len(),
{
    if f.len() == 1 {
        assert forall|i: int| 0 <= i < f[0].len() implies f[0][i] != sep by {
            assert(f[0][i] != sep);
        }
        lemma_split_without_separator(f[0], sep);
        assert(f =~= seq![f[0]]);
    } else {
        let p = f.drop_last();
        assert forall|k: int, i: int| 0 <= k < p.len() && 0 <= i < p[k].len() implies #[trigger] p[k][i]
            != sep by {
            assert(p[k] == f[k]);
        }
        lemma_split_join_with(p, sep);
        assert forall|i: int| 0 <= i < f.last().len() implies f.last()[i] != sep by {
            assert(f[f.len() - 1][i] != sep);
        }
        lemma_split_without_separator(f.last(), sep);
        lemma_split_join(join_with(p, sep), f.last(), sep);
        assert(f =~= p + seq![f.last()]);
    }
}

/// No character of `s` is `c`.
pub open spec fn avoids(s: Seq<char>, c: char) -> bool {
    forall|i: int| 0 <= i < s.len() ==> #[trigger] s[i] != c
}

/// `sep` never stands twice in a row in `s`, nor at either end.
pub open spec fn separated(s: Seq<char>, sep: char) -> bool {
    &&& s.len() >= 1
    &&& s[0] != sep
    &&& s.last() != sep
    &&& forall|i: int| 0 <= i < s.len() - 1 ==> !(#[trigger] s[i] == sep && s[i + 1] == sep)
}

/// Nonempty pieces without `c` and `sep`, joined by `sep`, hold no `c` and no `sep`
/// twice in a row.
#[verifier::spinoff_prover]
proof fn lemma_join_with_chars(f: Seq<Seq<char>>, sep: char, c: char)
    requires
        f.len() >= 1,
        c != sep,
        forall|k: int|
            0 <= k < f.len() ==> (#[trigger] f[k]).len() >= 1 && avoids(f[k], sep) && avoids(f[k], c),
    ensures
        avoids(join_with(f, sep), c),
        separated(join_with(f, sep), sep),
    decreases f.len(),
{
    let j = join_with(f, sep);
    let l = f.last();
    assert(l == f[f.len() - 1]);
    if f.len() == 1 {
        assert(j == l);
    } else {
        let p = f.drop_last();
        assert forall|k: int| 0 <= k < p.len() implies (#[trigger] p[k]).len() >= 1 && avoids(p[k], sep)
            && avoids(p[k], c) by {
            assert(p[k] == f[k]);
        }
        lemma_join_with_chars(p, sep, c);
        let jp = join_with(p, sep);
        assert(j == jp + seq![sep] + l);
        assert(j[0] == jp[0]);
        assert(j.last() == l.last());
        assert forall|i: int| 0 <= i < j.len() implies #[trigger] j[i] != c by {
            if i < jp.len() {
                assert(j[i] == jp[i]);
            } else if i > jp.len() {
                assert(j[i] == l[i - jp.len() - 1]);
            } else {
                assert(j[i] == sep);
            }
        }
        assert forall|i: int| 0 <= i < j.len() - 1 implies !(#[trigger] j[i] == sep && j[i + 1] == sep) by {
            if i < jp.len() - 1 {
                assert(j[i] == jp[i] && j[i + 1] == jp[i + 1]);
            } else if i == jp.len() - 1 {
                assert(j[i] == jp.last());
            } else if i == jp.len() {
                assert(j[i + 1] == l[0]);
            } else {
                assert(j[i] == l[i - jp.len() - 1]);
            }
        }
    }
}

/// The eight groups of `g`, each spelled in four hexadecimal digits with leading zeros.
pub open spec fn padded_groups(g: [u16; 8], upper: bool) -> Seq<Seq<char>> {
    Seq::new(8, |k: int| hex_spelling(g[k] as nat, 4, upper))
}

/// The full IPv6 form of `g` with every group written in four digits, leading zeros
/// included, in upper or lower case, reads as `g`: leading zeros and letter case do not
/// change what a group denotes.
pub proof fn lemma_zero_padded_ipv6_text_reads(g: [u16; 8], upper: bool)
    ensures
        spec_parse_ip(join_with(padded_groups(g, upper), ':')) == Some(IpAddress::V6(g)),
{
    let f = padded_groups(g, upper);
    let text = join_with(f, ':');
    assert(pow16(4) == 65536) by {
        reveal_with_fuel(pow16, 5);
    }
    assert forall|k: int| 0 <= k < 8 implies #[trigger] f[k].len() >= 1 && hex_field(f[k]) == Some(
        g[k],
    ) && (forall|i: int| 0 <= i < f[k].len() ==> f[k][i] != ':' && f[k][i] != '.') by {
        lemma_hex_spelling(g[k] as nat, 4, upper);
        lemma_hex_field_any_spelling(g[k], 4, upper);
    }
    assert forall|k: int| 0 <= k < f.len() implies (#[trigger] f[k]).len() >= 1 && avoids(f[k], ':')
        && avoids(f[k], '.') by {
        lemma_hex_spelling(g[k] as nat, 4, upper);
    }
    assert forall|k: int, i: int| 0 <= k < f.len() && 0 <= i < f[k].len() implies #[trigger] f[k][i]
        != ':' by {
        lemma_hex_spelling(g[k] as nat, 4, upper);
    }
    lemma_join_with_chars(f, ':', '.');
    lemma_split_join_with(f, ':');
    lemma_no_dot_not_ipv4(text);
    lemma_no_double_colon(text, 0);
    assert(all_hex_fields(f, 8));
    assert(hex_values(f, 8) =~= g@);
    assert(group_array(g@) =~= g);
}

/// Where `longest_run_start` puts the run: no run of zero groups from `i` on is longer,
/// and every earlier position from `i` on starts a shorter one; so the canonical IPv6 text
/// compresses the first of the longest runs.
pub proof fn lemma_longest_run_is_first_longest(g: Seq<u16>, i: int)
    requires
        0 <= i < g.len(),
    ensures
        forall|j: int|
            i <= j < g.len() ==> #[trigger] zero_run(g, j) <= zero_run(g, longest_run_start(g, i)),
        forall|j: int|
            i <= j < longest_run_start(g, i) ==> #[trigger] zero_run(g, j) < zero_run(
                g,
                longest_run_start(g, i),
            ),
    decreases g.len() - i,
{
    if i + 1 < g.len() {
        lemma_longest_run_is_first_longest(g, i + 1);
    }
}

/// The first six groups of `g`, each spelled in four hexadecimal digits.
pub open spec fn padded_head_groups(g: [u16; 8], upper: bool) -> Seq<Seq<char>> {
    Seq::new(6, |k: int| hex_spelling(g[k] as nat, 4, upper))
}

/// The full IPv6 form whose last two groups are written as an IPv4 address reads as the
/// six groups followed by the two groups that the four octets make up.
#[verifier::spinoff_prover]
pub proof fn lemma_ipv4_tail_text_reads(g: [u16; 8], o: [u8; 4], upper: bool)
    ensures
        spec_parse_ip(join_with(padded_head_groups(g, upper), ':') + seq![':'] + ipv4_text(o))
            == Some(IpAddress::V6(group_array(g@.take(6) + octet_groups(o)))),
{
    let f = padded_head_groups(g, upper);
    let jf = join_with(f, ':');
    let v4 = ipv4_text(o);
    let text = jf + seq![':'] + v4;
    assert(pow16(4) == 65536) by {
        reveal_with_fuel(pow16, 5);
    }
    assert forall|k: int| 0 <= k < f.len() implies (#[trigger] f[k]).len() >= 1 && avoids(f[k], ':')
        && avoids(f[k], '.') && hex_field(f[k]) == Some(g[k]) by {
        lemma_hex_spelling(g[k] as nat, 4, upper);
        lemma_hex_field_any_spelling(g[k], 4, upper);
    }
    assert forall|k: int, i: int| 0 <= k < f.len() && 0 <= i < f[k].len() implies #[trigger] f[k][i]
        != ':' by {
        lemma_hex_spelling(g[k] as nat, 4, upper);
    }
    lemma_join_with_chars(f, ':', '.');
    lemma_split_join_with(f, ':');
    lemma_ipv4_text_reads_back(o);
    let d0 = dec_text(o[0] as nat);
    lemma_octet_text(o[0]);
    // Not an IPv4 text: its first dot-separated piece holds a colon and is too long.
    let rest = dec_text(o[1] as nat) + seq!['.'] + dec_text(o[2] as nat) + seq!['.'] + dec_text(
        o[3] as nat,
    );
    let first = jf + seq![':'] + d0;
    assert(text =~= first + seq!['.'] + rest);
    assert forall|i: int| 0 <= i < first.len() implies first[i] != '.' by {
        if i < jf.len() {
            assert(first[i] == jf[i]);
        } else if i > jf.len() {
            assert(first[i] == d0[i - jf.len() - 1]);
        }
    }
    lemma_split_without_separator(first, '.');
    lemma_split_join(first, rest, '.');
    assert(split(text, '.')[0] == first);
    assert(first.len() > 3);
    // No `::` anywhere.
    assert(v4[0] == d0[0]);
    assert forall|j: int| 0 <= j < text.len() - 1 implies !(#[trigger] text[j] == ':' && text[j + 1]
        == ':') by {
        if j < jf.len() - 1 {
            assert(text[j] == jf[j] && text[j + 1] == jf[j + 1]);
        } else if j == jf.len() - 1 {
            assert(text[j] == jf.last());
        } else if j == jf.len() {
            assert(text[j + 1] == v4[0]);
        } else {
            assert(text[j] == v4[j - jf.len() - 1]);
        }
    }
    lemma_no_double_colon(text, 0);
    // The colon-separated pieces: six groups and the IPv4 text.
    lemma_split_without_separator(v4, ':');
    lemma_split_join(jf, v4, ':');
    let pieces = split(text, ':');
    assert(pieces =~= f + seq![v4]);
    assert(v4.len() >= 7);
    assert(hex_field(v4) is None);
    assert(pieces[6] == v4);
    assert(!all_hex_fields(pieces, 7));
    assert forall|k: int| 0 <= k < 6 implies #[trigger] hex_field(pieces[k]) is Some by {
        assert(pieces[k] == f[k]);
    }
    assert(all_hex_fields(pieces, 6));
    assert(hex_values(pieces, 6) =~= g@.take(6));
    assert(pieces.last() == v4);
}

} // verus!
