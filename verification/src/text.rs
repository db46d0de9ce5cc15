//! Numbers as text: upper-case hexadecimal and decimal rendering, and the
//! parsing of a hexadecimal address given on the command line.

use vstd::prelude::*;

verus! {

/// The character of digit `d` (0 to 15), upper case for 10 to 15.
pub open spec fn digit_char(d: nat) -> char {
    if d < 10 {
        (('0' as u32) + d) as char
    } else {
        (('A' as u32) + (d - 10)) as char
    }
}

/// The digits of `n` in base `base`, most significant first, without
/// leading zeros ("0" for zero).
pub open spec fn digits(n: nat, base: nat) -> Seq<char>
    recommends
        2 <= base <= 16,
    decreases n,
{
    if n < base || base < 2 {
        seq![digit_char(n)]
    } else {
        proof {
            assert(n / base < n) by (nonlinear_arith)
                requires
                    base >= 2,
                    n >= base,
            ;
        }
        digits(n / base, base).push(digit_char(n % base))
    }
}

/// Upper-case hexadecimal text of `n`.
pub open spec fn hex_string(n: nat) -> Seq<char> {
    digits(n, 16)
}

/// Decimal text of `n`.
pub open spec fn dec_string(n: nat) -> Seq<char> {
    digits(n, 10)
}

/// The one-character string of digit `d`.
fn digit_str(d: u64) -> (s: &'static str)
    requires
        d < 16,
    ensures
        s@ == seq![digit_char(d as nat)],
{
    proof {
        reveal_strlit("0");
        reveal_strlit("1");
        reveal_strlit("2");
        reveal_strlit("3");
        reveal_strlit("4");
        reveal_strlit("5");
        reveal_strlit("6");
        reveal_strlit("7");
        reveal_strlit("8");
        reveal_strlit("9");
        reveal_strlit("A");
        reveal_strlit("B");
        reveal_strlit("C");
        reveal_strlit("D");
        reveal_strlit("E");
        reveal_strlit("F");
    }
    let s = if d == 0 {
        "0"
    } else if d == 1 {
        "1"
    } else if d == 2 {
        "2"
    } else if d == 3 {
        "3"
    } else if d == 4 {
        "4"
    } else if d == 5 {
        "5"
    } else if d == 6 {
        "6"
    } else if d == 7 {
        "7"
    } else if d == 8 {
        "8"
    } else if d == 9 {
        "9"
    } else if d == 10 {
        "A"
    } else if d == 11 {
        "B"
    } else if d == 12 {
        "C"
    } else if d == 13 {
        "D"
    } else if d == 14 {
        "E"
    } else {
        "F"
    };
    assert(s@ =~= seq![digit_char(d as nat)]);
    s
}

/// Appends the digits of `v` in base `base` to `s`.
pub fn push_digits(s: &mut String, v: u64, base: u64)
    requires
        base == 10 || base == 16,
    ensures
        final(s)@ == old(s)@ + digits(v as nat, base as nat),
    decreases v,
{
    if v >= base {
        push_digits(s, v / base, base);
    }
    s.append(digit_str(v % base));
    if v < base {
        assert(v % base == v);
    }
    assert(s@ =~= old(s)@ + digits(v as nat, base as nat));
}

/// Upper-case hexadecimal text of `v`, as `{:X}` writes it.
pub fn hex_upper(v: u64) -> (s: String)
    ensures
        s@ == hex_string(v as nat),
{
    let mut s = String::new();
    push_digits(&mut s, v, 16);
    assert(s@ =~= hex_string(v as nat));
    s
}

/// Decimal text of `v`, as `{}` writes it.
pub fn decimal(v: u64) -> (s: String)
    ensures
        s@ == dec_string(v as nat),
{
    let mut s = String::new();
    push_digits(&mut s, v, 10);
    assert(s@ =~= dec_string(v as nat));
    s
}

/// The value of hexadecimal digit `c`, in either case.
pub open spec fn hex_digit_value(c: char) -> Option<nat> {
    if '0' <= c && c <= '9' {
        Some((c as u32 - '0' as u32) as nat)
    } else if 'a' <= c && c <= 'f' {
        Some((c as u32 - 'a' as u32 + 10) as nat)
    } else if 'A' <= c && c <= 'F' {
        Some((c as u32 - 'A' as u32 + 10) as nat)
    } else {
        None
    }
}

/// Whether every character of `cs` is a hexadecimal digit.
pub open spec fn all_hex_digits(cs: Seq<char>) -> bool {
    forall|i: int| 0 <= i < cs.len() ==> (#[trigger] hex_digit_value(cs[i])) is Some
}

/// The number that the hexadecimal digits `cs` spell, most significant first.
pub open spec fn hex_number(cs: Seq<char>) -> nat
    decreases cs.len(),
{
    if cs.len() == 0 {
        0
    } else {
        hex_number(cs.drop_last()) * 16 + hex_digit_value(cs.last()).unwrap_or(0)
    }
}

/// What a base-16 parse of `cs` into a `u64` gives: an optional `+`, then at
/// least one hexadecimal digit and nothing else, of a value that fits.
pub open spec fn parse_hex_u64(cs: Seq<char>) -> Option<u64> {
    let ds = if cs.len() > 0 && cs[0] == '+' {
        cs.drop_first()
    } else {
        cs
    };
    if ds.len() > 0 && all_hex_digits(ds) && hex_number(ds) <= u64::MAX {
        Some(hex_number(ds) as u64)
    } else {
        None
    }
}

/// The entry address that the text `cs` names: hexadecimal, with or without
/// a leading `0x`.
pub open spec fn parse_address(cs: Seq<char>) -> Option<u64> {
    if cs.len() >= 2 && cs[0] == '0' && cs[1] == 'x' {
        parse_hex_u64(cs.skip(2))
    } else {
        parse_hex_u64(cs)
    }
}

/// The value of the hexadecimal digit `c`, if it is one.
fn hex_digit(c: char) -> (r: Option<u64>)
    ensures
        match hex_digit_value(c) {
            Some(v) => r == Some(v as u64),
            None => r is None,
        },
{
    if '0' <= c && c <= '9' {
        Some((c as u32 - '0' as u32) as u64)
    } else if 'a' <= c && c <= 'f' {
        Some((c as u32 - 'a' as u32 + 10) as u64)
    } else if 'A' <= c && c <= 'F' {
        Some((c as u32 - 'A' as u32 + 10) as u64)
    } else {
        None
    }
}

/// Parses the characters `s[from..]` as an optional `+` followed by
/// hexadecimal digits into a `u64`.
fn parse_hex_from(s: &str, from: usize) -> (r: Option<u64>)
    requires
        from <= s@.len(),
    ensures
        r == parse_hex_u64(s@.skip(from as int)),
{
    let n: usize = s.unicode_len();
    let ghost cs = s@.skip(from as int);
    let mut start: usize = from;
    if start < n && s.get_char(start) == '+' {
        start = start + 1;
    }
    let ghost ds = if cs.len() > 0 && cs[0] == '+' {
        cs.drop_first()
    } else {
        cs
    };
    assert(ds =~= s@.skip(start as int));
    if start >= n {
        return None;
    }
    let mut value: u64 = 0;
    let mut i: usize = start;
    while i < n
        invariant
            n == s@.len(),
            start <= i <= n,
            ds == s@.skip(start as int),
            ds.len() > 0,
            cs == s@.skip(from as int),
            parse_hex_u64(cs) == (if all_hex_digits(ds) && hex_number(ds) <= u64::MAX {
                Some(hex_number(ds) as u64)
            } else {
                None::<u64>
            }),
            all_hex_digits(s@.subrange(start as int, i as int)),
            value == hex_number(s@.subrange(start as int, i as int)),
        decreases n - i,
    {
        let c = s.get_char(i);
        let ghost prefix = s@.subrange(start as int, i as int);
        let ghost next = s@.subrange(start as int, i + 1);
        assert(next.drop_last() =~= prefix);
        assert(next.last() == c);
        match hex_digit(c) {
            None => {
                assert(ds[i - start] == c);
                assert(hex_digit_value(ds[i - start]) is None);
                assert(!all_hex_digits(ds));
                return None;
            },
            Some(d) => {
                if value > (u64::MAX - d) / 16 {
                    proof {
                        assert(value * 16 + d > u64::MAX) by (nonlinear_arith)
                            requires
                                value > (u64::MAX - d) / 16,
                                d < 16,
                        ;
                        lemma_hex_number_grows(s@.subrange(start as int, n as int), (i + 1 - start) as nat);
                        assert(s@.subrange(start as int, n as int).take(i + 1 - start) =~= next);
                        assert(ds =~= s@.subrange(start as int, n as int));
                    }
                    return None;
                }
                value = value * 16 + d;
                assert(all_hex_digits(next)) by {
                    assert forall|j: int| 0 <= j < next.len() implies (#[trigger] hex_digit_value(next[j])) is Some by {
                        if j < prefix.len() {
                            assert(next[j] == prefix[j]);
                        }
                    }
                }
            },
        }
        i = i + 1;
    }
    assert(s@.subrange(start as int, n as int) =~= ds);
    Some(value)
}

/// A prefix of hexadecimal digits spells no more than the whole.
proof fn lemma_hex_number_grows(cs: Seq<char>, k: nat)
    requires
        k <= cs.len(),
    ensures
        hex_number(cs.take(k as int)) <= hex_number(cs),
    decreases cs.len(),
{
    if k < cs.len() {
        assert(cs.drop_last().take(k as int) =~= cs.take(k as int));
        lemma_hex_number_grows(cs.drop_last(), k);
    } else {
        assert(cs.take(k as int) =~= cs);
    }
}

/// A digit character reads back as the digit.
proof fn lemma_digit_char(d: nat)
    requires
        d < 16,
    ensures
        hex_digit_value(digit_char(d)) == Some(d),
        digit_char(d) != '+',
        digit_char(d) != 'x',
{
}

/// Hexadecimal text reads back as its number.
proof fn lemma_hex_digits_read_back(n: nat)
    ensures
        all_hex_digits(hex_string(n)),
        hex_number(hex_string(n)) == n,
        forall|i: int| 0 <= i < hex_string(n).len() ==> #[trigger] hex_string(n)[i] != '+' && hex_string(n)[i] != 'x',
        hex_string(n).len() > 0,
    decreases n,
{
    if n < 16 {
        lemma_digit_char(n);
        assert(hex_string(n).drop_last() =~= Seq::<char>::empty());
        assert(hex_string(n).last() == digit_char(n));
        assert(hex_number(hex_string(n)) == hex_number(Seq::<char>::empty()) * 16 + n);
    } else {
        lemma_hex_digits_read_back(n / 16);
        lemma_digit_char(n % 16);
        let prev = hex_string(n / 16);
        let cur = hex_string(n);
        assert(cur == prev.push(digit_char(n % 16)));
        assert(cur.drop_last() =~= prev);
        assert(n == (n / 16) * 16 + n % 16) by (nonlinear_arith);
        assert(cur.last() == digit_char(n % 16));
        assert(hex_number(cur) == hex_number(prev) * 16 + n % 16);
        assert forall|i: int| 0 <= i < cur.len() implies (#[trigger] hex_digit_value(cur[i])) is Some by {
            if i < prev.len() {
                assert(cur[i] == prev[i]);
            }
        }
        assert forall|i: int| 0 <= i < cur.len() implies #[trigger] cur[i] != '+' && cur[i] != 'x' by {
            if i < prev.len() {
                assert(cur[i] == prev[i]);
            }
        }
    }
}

/// Formatting and parsing agree: the upper-case hexadecimal text of a value,
/// with or without a leading `0x`, is parsed back into that value.
pub proof fn lemma_parse_formatted_address(v: u64)
    ensures
        parse_address(hex_string(v as nat)) == Some(v),
        parse_address(seq!['0', 'x'] + hex_string(v as nat)) == Some(v),
{
    let h = hex_string(v as nat);
    lemma_hex_digits_read_back(v as nat);
    assert(h[0] != '+');
    if h.len() >= 2 {
        assert(h[1] != 'x');
    }
    let p = seq!['0', 'x'] + h;
    assert(p.skip(2) =~= h);
}

/// The number that the decimal digits `cs` spell, most significant first.
pub open spec fn dec_number(cs: Seq<char>) -> nat
    decreases cs.len(),
{
    if cs.len() == 0 {
        0
    } else {
        dec_number(cs.drop_last()) * 10 + ((cs.last() as u32 - '0' as u32) as nat)
    }
}

/// Upper-case hexadecimal text, as `{:X}` writes it: every character is one
/// of `0`-`9` or `A`-`F`, the digits spell `n` in base 16 (with `A` to `F`
/// standing for 10 to 15), and there is no leading zero (the text of 0 is
/// `0`).
pub proof fn lemma_hex_text(n: nat)
    ensures
        forall|i: int|
            0 <= i < hex_string(n).len() ==> ('0' <= #[trigger] hex_string(n)[i] <= '9' || 'A'
                <= hex_string(n)[i] <= 'F'),
        hex_number(hex_string(n)) == n,
        hex_string(n).len() >= 1,
        n == 0 ==> hex_string(n) == seq!['0'],
        n > 0 ==> hex_string(n)[0] != '0',
    decreases n,
{
    lemma_hex_digits_read_back(n);
    if n < 16 {
        assert(hex_string(n) =~= seq![digit_char(n)]);
    } else {
        lemma_hex_text(n / 16);
        let prev = hex_string(n / 16);
        let cur = hex_string(n);
        assert(cur == prev.push(digit_char(n % 16)));
        assert(n / 16 > 0);
        assert(cur[0] == prev[0]);
        assert forall|i: int| 0 <= i < cur.len() implies ('0' <= #[trigger] cur[i] <= '9' || 'A'
            <= cur[i] <= 'F') by {
            if i < prev.len() {
                assert(cur[i] == prev[i]);
            }
        }
    }
}

/// Decimal text, as `{}` writes it: every character is one of `0`-`9`, the
/// digits spell `n` in base 10, and there is no leading zero (the text of 0
/// is `0`).
pub proof fn lemma_dec_text(n: nat)
    ensures
        forall|i: int| 0 <= i < dec_string(n).len() ==> '0' <= #[trigger] dec_string(n)[i] <= '9',
        dec_number(dec_string(n)) == n,
        dec_string(n).len() >= 1,
        n == 0 ==> dec_string(n) == seq!['0'],
        n > 0 ==> dec_string(n)[0] != '0',
    decreases n,
{
    if n < 10 {
        let cur = dec_string(n);
        assert(cur =~= seq![digit_char(n)]);
        assert(cur.drop_last() =~= Seq::<char>::empty());
        assert(dec_number(cur) == dec_number(Seq::<char>::empty()) * 10 + n);
    } else {
        lemma_dec_text(n / 10);
        let prev = dec_string(n / 10);
        let cur = dec_string(n);
        assert(cur == prev.push(digit_char(n % 10)));
        assert(cur.drop_last() =~= prev);
        assert(cur.last() == digit_char(n % 10));
        assert(n == (n / 10) * 10 + n % 10) by (nonlinear_arith);
        assert(dec_number(cur) == dec_number(prev) * 10 + n % 10);
        assert(n / 10 > 0);
        assert(cur[0] == prev[0]);
        assert forall|i: int| 0 <= i < cur.len() implies '0' <= #[trigger] cur[i] <= '9' by {
            if i < prev.len() {
                assert(cur[i] == prev[i]);
            }
        }
    }
}

/// Parses an entry address given as hexadecimal text, with or without a
/// leading `0x`.
pub fn parse_entry_address(s: &str) -> (r: Option<u64>)
    ensures
        r == parse_address(s@),
{
    let n: usize = s.unicode_len();
    if n >= 2 && s.get_char(0) == '0' && s.get_char(1) == 'x' {
        parse_hex_from(s, 2)
    } else {
        assert(s@.skip(0) =~= s@);
        parse_hex_from(s, 0)
    }
}

} // verus!
