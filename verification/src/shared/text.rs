//! Character-level helpers shared by the address parsers and the textual renderings:
//! decimal and hexadecimal digits, their values, and their canonical spellings.
use vstd::prelude::*;

verus! {

/// `c` is one of the ASCII digits `0` to `9`.
pub open spec fn is_dec_digit(c: char) -> bool {
    '0' <= c && c <= '9'
}

/// `c` is a hexadecimal digit in either case.
pub open spec fn is_hex_digit(c: char) -> bool {
    ||| ('0' <= c && c <= '9')
    ||| ('a' <= c && c <= 'f')
    ||| ('A' <= c && c <= 'F')
}

/// The value of a hexadecimal (or decimal) digit.
pub open spec fn hex_digit_value(c: char) -> nat {
    if '0' <= c && c <= '9' {
        (c as int - '0' as int) as nat
    } else if 'a' <= c && c <= 'f' {
        (c as int - 'a' as int + 10) as nat
    } else {
        (c as int - 'A' as int + 10) as nat
    }
}

/// Every character of `s` is a decimal digit.
pub open spec fn all_dec_digits(s: Seq<char>) -> bool {
    forall|i: int| 0 <= i < s.len() ==> #[trigger] is_dec_digit(s[i])
}

/// Every character of `s` is a hexadecimal digit.
pub open spec fn all_hex_digits(s: Seq<char>) -> bool {
    forall|i: int| 0 <= i < s.len() ==> #[trigger] is_hex_digit(s[i])
}

/// The number that the digit string `s` denotes in base `radix`, most significant digit first.
pub open spec fn digits_value(s: Seq<char>, radix: nat) -> nat
    decreases s.len(),
{
    if s.len() == 0 {
        0
    } else {
        digits_value(s.drop_last(), radix) * radix + hex_digit_value(s.last())
    }
}

/// The lower-case character that spells the digit `d` (below sixteen).
pub open spec fn digit_char(d: nat) -> char {
    if d < 10 {
        ('0' as int + d) as char
    } else {
        ('a' as int + d - 10) as char
    }
}

/// The shortest spelling of `n` in base `radix` (ten or sixteen), lower-case, without
/// leading zeros; zero is spelled `0`.
pub open spec fn radix_text(n: nat, radix: nat) -> Seq<char>
    recommends
        radix == 10 || radix == 16,
    decreases n,
{
    if radix <= 1 || n < radix {
        seq![digit_char(n)]
    } else {
        proof {
            assert(n / radix < n) by (nonlinear_arith)
                requires
                    radix > 1,
                    n >= radix,
            ;
        }
        radix_text(n / radix, radix).push(digit_char(n % radix))
    }
}

/// The decimal spelling of `n`.
pub open spec fn dec_text(n: nat) -> Seq<char> {
    radix_text(n, 10)
}

/// The lower-case hexadecimal spelling of `n`.
pub open spec fn hex_text(n: nat) -> Seq<char> {
    radix_text(n, 16)
}

/// The character of a digit is a digit of its radix, and has that digit's value.
pub proof fn lemma_digit_char(d: nat, radix: nat)
    requires
        radix == 10 || radix == 16,
        d < radix,
    ensures
        is_hex_digit(digit_char(d)),
        radix == 10 ==> is_dec_digit(digit_char(d)),
        hex_digit_value(digit_char(d)) == d,
        d != 0 ==> digit_char(d) != '0',
        digit_char(d) != ':' && digit_char(d) != '.',
{
}

/// The spelling of `n` in base `radix`: at least one digit, all digits of that radix,
/// denoting `n`, without a leading zero, and no longer than the powers of the radix
/// allow.
pub proof fn lemma_radix_text(n: nat, radix: nat)
    requires
        radix == 10 || radix == 16,
    ensures
        radix_text(n, radix).len() >= 1,
        all_hex_digits(radix_text(n, radix)),
        radix == 10 ==> all_dec_digits(radix_text(n, radix)),
        digits_value(radix_text(n, radix), radix) == n,
        radix_text(n, radix).len() > 1 ==> radix_text(n, radix)[0] != '0',
        n < radix ==> radix_text(n, radix).len() == 1,
        n >= radix ==> radix_text(n, radix).len() >= 2,
        n < radix * radix ==> radix_text(n, radix).len() <= 2,
        n < radix * radix * radix ==> radix_text(n, radix).len() <= 3,
        n < radix * radix * radix * radix ==> radix_text(n, radix).len() <= 4,
        forall|i: int|
            0 <= i < radix_text(n, radix).len() ==> #[trigger] radix_text(n, radix)[i] != ':'
                && radix_text(n, radix)[i] != '.',
    decreases n,
{
    let t = radix_text(n, radix);
    if n < radix {
        lemma_digit_char(n, radix);
        assert(t =~= seq![digit_char(n)]);
        assert(t.drop_last() =~= Seq::<char>::empty());
        assert(digits_value(t, radix) == digits_value(t.drop_last(), radix) * radix
            + hex_digit_value(t.last()));
        assert(digits_value(Seq::<char>::empty(), radix) == 0);
        assert(0 * radix == 0);
    } else {
        assert(n / radix < n) by (nonlinear_arith)
            requires
                radix > 1,
                n >= radix,
        ;
        assert(n % radix < radix) by (nonlinear_arith)
            requires
                radix > 1,
        ;
        assert(n == (n / radix) * radix + n % radix) by (nonlinear_arith)
            requires
                radix > 1,
        ;
        assert(n < radix * radix * radix ==> n / radix < radix * radix) by (nonlinear_arith)
            requires
                radix > 1,
        ;
        assert(n < radix * radix * radix * radix ==> n / radix < radix * radix * radix)
            by (nonlinear_arith)
            requires
                radix > 1,
        ;
        assert(n < radix * radix ==> n / radix < radix) by (nonlinear_arith)
            requires
                radix > 1,
        ;
        assert(n / radix >= 1) by (nonlinear_arith)
            requires
                radix > 1,
                n >= radix,
        ;
        let p = radix_text(n / radix, radix);
        lemma_radix_text(n / radix, radix);
        lemma_digit_char(n % radix, radix);
        assert(t == p.push(digit_char(n % radix)));
        assert(t.drop_last() =~= p);
        assert forall|i: int| 0 <= i < t.len() implies #[trigger] is_hex_digit(t[i]) by {
            if i < p.len() {
                assert(t[i] == p[i]);
            }
        }
        if radix == 10 {
            assert forall|i: int| 0 <= i < t.len() implies #[trigger] is_dec_digit(t[i]) by {
                if i < p.len() {
                    assert(t[i] == p[i]);
                }
            }
        }
        assert forall|i: int| 0 <= i < t.len() implies #[trigger] t[i] != ':' && t[i] != '.' by {
            if i < p.len() {
                assert(t[i] == p[i]);
            }
        }
        assert(digits_value(t, radix) == digits_value(p, radix) * radix + hex_digit_value(
            digit_char(n % radix),
        ));
        if n / radix < radix {
            assert(p =~= seq![digit_char(n / radix)]);
            lemma_digit_char(n / radix, radix);
        }
        assert(t[0] == p[0]);
    }
}

/// The characters of the string slice `s`, one by one.
pub(crate) fn chars_of(s: &str) -> (res: Vec<char>)
    ensures
        res@ == s@,
{
    let n = s.unicode_len();
    let mut res: Vec<char> = Vec::new();
    let mut i: usize = 0;
    while i < n
        invariant
            n == s@.len(),
            i <= n,
            res@ == s@.take(i as int),
        decreases n - i,
    {
        let c = s.get_char(i);
        res.push(c);
        i = i + 1;
        assert(res@ =~= s@.take(i as int));
    }
    assert(res@ =~= s@);
    res
}

/// Appends the character `c` to `s`.
///
/// Calls `String::push`, which the standard library documents as appending the given
/// `char` to the end of the string; the contract states exactly that.
#[verifier::external_body]
pub(crate) fn push_char(s: &mut String, c: char)
    ensures
        final(s)@ == old(s)@.push(c),
{
    s.push(c)
}

/// The character of a digit below sixteen, as `digit_char` spells it.
pub(crate) fn digit_to_char(d: u8) -> (c: char)
    requires
        d < 16,
    ensures
        c == digit_char(d as nat),
{
    if d < 10 {
        (48u8 + d) as char
    } else {
        (87u8 + d) as char
    }
}

/// Appends the spelling of `n` in base `radix` (ten or sixteen) to `s`.
pub(crate) fn append_radix(s: &mut String, n: u64, radix: u64)
    requires
        radix == 10 || radix == 16,
    ensures
        final(s)@ == old(s)@ + radix_text(n as nat, radix as nat),
    decreases n,
{
    if n >= radix {
        append_radix(s, n / radix, radix);
    }
    let d = (n % radix) as u8;
    let c = digit_to_char(d);
    push_char(s, c);
    proof {
        if n < radix {
            assert(n % radix == n) by (nonlinear_arith)
                requires n < radix, radix > 0;
        }
        assert(radix_text(n as nat, radix as nat) =~= if n < radix {
            seq![digit_char(n as nat)]
        } else {
            radix_text((n / radix) as nat, radix as nat).push(digit_char((n % radix) as nat))
        });
    }
}

/// Appends the decimal spelling of `n` to `s`.
pub(crate) fn append_decimal(s: &mut String, n: u64)
    ensures
        final(s)@ == old(s)@ + dec_text(n as nat),
{
    append_radix(s, n, 10);
}

/// Appends the lower-case hexadecimal spelling of `n` to `s`.
pub(crate) fn append_hex(s: &mut String, n: u64)
    ensures
        final(s)@ == old(s)@ + hex_text(n as nat),
{
    append_radix(s, n, 16);
}

/// Appends the characters of `t` to `s`.
pub(crate) fn append_str(s: &mut String, t: &str)
    ensures
        final(s)@ == old(s)@ + t@,
{
    s.append(t);
}

} // verus!
