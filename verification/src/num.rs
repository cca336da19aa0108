//! Numbers in text: parsing unsigned integers the way `u32::from_str_radix`
//! does, and writing them in decimal.
use vstd::prelude::*;
use crate::text::push_char;

verus! {

/// The value of digit `c` in base `radix` (10 or 16), if it is one.
pub open spec fn digit_value(c: char, radix: u32) -> Option<int> {
    let v = c as u32;
    if 0x30 <= v <= 0x39 && (v - 0x30) < radix {
        Some((v - 0x30) as int)
    } else if radix == 16 && 0x61 <= v <= 0x66 {
        Some((v - 0x61 + 10) as int)
    } else if radix == 16 && 0x41 <= v <= 0x46 {
        Some((v - 0x41 + 10) as int)
    } else {
        None
    }
}

/// Every character of `d` is a digit in base `radix`.
pub open spec fn all_digits(d: Seq<char>, radix: u32) -> bool {
    forall|i: int| 0 <= i < d.len() ==> (#[trigger] digit_value(d[i], radix)) is Some
}

/// The number that the digits `d` spell in base `radix`.
pub open spec fn digits_value(d: Seq<char>, radix: u32) -> int
    decreases d.len(),
{
    if d.len() == 0 {
        0
    } else {
        digits_value(d.drop_last(), radix) * radix + digit_value(d.last(), radix).unwrap()
    }
}

/// What `u32::from_str_radix(s, radix)` accepts and returns: an optional `+`,
/// then at least one digit, with a value that fits in a `u32`.
pub open spec fn parse_u32(s: Seq<char>, radix: u32) -> Option<u32> {
    let d = if s.len() > 0 && s[0] == '+' {
        s.drop_first()
    } else {
        s
    };
    if d.len() == 0 || !all_digits(d, radix) || digits_value(d, radix) > u32::MAX {
        None
    } else {
        Some(digits_value(d, radix) as u32)
    }
}

proof fn lemma_digits_value_nonneg(d: Seq<char>, radix: u32)
    requires
        2 <= radix,
        all_digits(d, radix),
    ensures
        digits_value(d, radix) >= 0,
    decreases d.len(),
{
    if d.len() > 0 {
        assert(all_digits(d.drop_last(), radix)) by {
            assert forall|i: int| 0 <= i < d.drop_last().len() implies (#[trigger] digit_value(
                d.drop_last()[i],
                radix,
            )) is Some by {
                assert(d.drop_last()[i] == d[i]);
            }
        }
        assert(digit_value(d[d.len() - 1], radix) is Some);
        lemma_digits_value_nonneg(d.drop_last(), radix);
        assert(digits_value(d.drop_last(), radix) * radix >= 0) by (nonlinear_arith)
            requires
                digits_value(d.drop_last(), radix) >= 0,
                radix >= 2,
        ;
    }
}

/// A longer prefix of valid digits never spells a smaller number.
proof fn lemma_digits_value_mono(d: Seq<char>, k: int, radix: u32)
    requires
        2 <= radix,
        0 <= k <= d.len(),
        all_digits(d, radix),
    ensures
        digits_value(d.take(k), radix) <= digits_value(d, radix),
    decreases d.len() - k,
{
    if k < d.len() {
        let p = d.take(k + 1);
        assert(p.drop_last() =~= d.take(k));
        assert(all_digits(p, radix)) by {
            assert forall|i: int| 0 <= i < p.len() implies (#[trigger] digit_value(p[i], radix))
                is Some by {
                assert(p[i] == d[i]);
            }
        }
        assert(all_digits(d.take(k), radix)) by {
            assert forall|i: int| 0 <= i < d.take(k).len() implies (#[trigger] digit_value(
                d.take(k)[i],
                radix,
            )) is Some by {
                assert(d.take(k)[i] == d[i]);
            }
        }
        lemma_digits_value_nonneg(d.take(k), radix);
        assert(digit_value(p[p.len() - 1], radix) is Some);
        let a = digits_value(d.take(k), radix);
        let b = digit_value(p.last(), radix).unwrap();
        assert(b >= 0);
        assert(a <= a * radix + b) by (nonlinear_arith)
            requires
                a >= 0,
                b >= 0,
                radix >= 2,
        ;
        lemma_digits_value_mono(d, k + 1, radix);
    } else {
        assert(d.take(k) =~= d);
    }
}

pub fn char_digit_value(c: char, radix: u32) -> (r: Option<u32>)
    requires
        radix == 10 || radix == 16,
    ensures
        r matches Some(v) ==> digit_value(c, radix) == Some(v as int),
        r is None ==> digit_value(c, radix) is None,
{
    let v = c as u32;
    if 0x30 <= v && v <= 0x39 && (v - 0x30) < radix {
        Some(v - 0x30)
    } else if radix == 16 && 0x61 <= v && v <= 0x66 {
        Some(v - 0x61 + 10)
    } else if radix == 16 && 0x41 <= v && v <= 0x46 {
        Some(v - 0x41 + 10)
    } else {
        None
    }
}

/// Parses `s[lo..hi]` as `u32::from_str_radix` does.
pub fn parse_u32_range(s: &Vec<char>, lo: usize, hi: usize, radix: u32) -> (r: Option<u32>)
    requires
        lo <= hi <= s@.len(),
        radix == 10 || radix == 16,
    ensures
        r == parse_u32(s@.subrange(lo as int, hi as int), radix),
{
    let ghost t = s@.subrange(lo as int, hi as int);
    let mut start = lo;
    if start < hi && s[start] == '+' {
        start = start + 1;
    }
    let ghost d = s@.subrange(start as int, hi as int);
    assert(d =~= (if t.len() > 0 && t[0] == '+' {
        t.drop_first()
    } else {
        t
    }));
    if start == hi {
        return None;
    }
    let mut acc: u64 = 0;
    let mut i = start;
    while i < hi
        invariant
            lo <= start <= i <= hi <= s@.len(),
            start < hi,
            radix == 10 || radix == 16,
            d == s@.subrange(start as int, hi as int),
            t == s@.subrange(lo as int, hi as int),
            d == (if t.len() > 0 && t[0] == '+' {
                t.drop_first()
            } else {
                t
            }),
            all_digits(d.take(i - start), radix),
            acc == digits_value(d.take(i - start), radix),
            acc <= u32::MAX,
        decreases hi - i,
    {
        let c = s[i];
        assert(c == d[i - start]);
        match char_digit_value(c, radix) {
            None => {
                proof {
                    assert(!all_digits(d, radix)) by {
                        assert(digit_value(d[i - start], radix) is None);
                    }
                }
                return None;
            },
            Some(dv) => {
                let ghost p = d.take(i - start + 1);
                proof {
                    assert(p.drop_last() =~= d.take(i - start));
                    assert(p.last() == c);
                    assert(all_digits(p, radix)) by {
                        assert forall|j: int| 0 <= j < p.len() implies (#[trigger] digit_value(
                            p[j],
                            radix,
                        )) is Some by {
                            if j < p.len() - 1 {
                                assert(p[j] == d.take(i - start)[j]);
                            }
                        }
                    }
                }
                assert(acc * (radix as u64) <= 0xFFFF_FFFF * 16) by (nonlinear_arith)
                    requires
                        acc <= 0xFFFF_FFFF,
                        radix <= 16,
                ;
                let next: u64 = acc * (radix as u64) + (dv as u64);
                if next > 0xFFFF_FFFF {
                    proof {
                        // the digits so far already exceed the range; so does the whole number,
                        // or some later character is not a digit
                        if all_digits(d, radix) {
                            lemma_digits_value_mono(d, i - start + 1, radix);
                        }
                    }
                    return None;
                }
                acc = next;
                i = i + 1;
            },
        }
    }
    assert(d.take(i - start) =~= d);
    Some(acc as u32)
}

/// What `str::parse::<u64>` accepts and returns: an optional `+`, then at
/// least one decimal digit, with a value that fits in a `u64`.
pub open spec fn parse_u64(s: Seq<char>) -> Option<u64> {
    let d = if s.len() > 0 && s[0] == '+' {
        s.drop_first()
    } else {
        s
    };
    if d.len() == 0 || !all_digits(d, 10) || digits_value(d, 10) > u64::MAX {
        None
    } else {
        Some(digits_value(d, 10) as u64)
    }
}

/// Parses a whole string as `str::parse::<u64>` does.
pub fn parse_u64_str(s: &str) -> (r: Option<u64>)
    ensures
        r == parse_u64(s@),
{
    let sv = crate::text::chars_of(s);
    let ghost t = sv@;
    let hi = sv.len();
    let mut start: usize = 0;
    if start < hi && sv[start] == '+' {
        start = start + 1;
    }
    let ghost d = sv@.subrange(start as int, hi as int);
    assert(d =~= (if t.len() > 0 && t[0] == '+' {
        t.drop_first()
    } else {
        t
    }));
    if start == hi {
        return None;
    }
    let mut acc: u128 = 0;
    let mut i = start;
    assert(d.take(0) =~= Seq::<char>::empty());
    while i < hi
        invariant
            start <= i <= hi == sv@.len(),
            start < hi,
            t == sv@,
            t == s@,
            d == sv@.subrange(start as int, hi as int),
            d == (if t.len() > 0 && t[0] == '+' {
                t.drop_first()
            } else {
                t
            }),
            all_digits(d.take(i - start), 10),
            acc == digits_value(d.take(i - start), 10),
            acc <= u64::MAX,
        decreases hi - i,
    {
        let c = sv[i];
        assert(c == d[i - start]);
        match char_digit_value(c, 10) {
            None => {
                proof {
                    assert(!all_digits(d, 10)) by {
                        assert(digit_value(d[i - start], 10) is None);
                    }
                }
                return None;
            },
            Some(dv) => {
                let ghost p = d.take(i - start + 1);
                proof {
                    assert(p.drop_last() =~= d.take(i - start));
                    assert(p.last() == c);
                    assert(all_digits(p, 10)) by {
                        assert forall|j: int| 0 <= j < p.len() implies (#[trigger] digit_value(
                            p[j],
                            10,
                        )) is Some by {
                            if j < p.len() - 1 {
                                assert(p[j] == d.take(i - start)[j]);
                            }
                        }
                    }
                }
                assert(acc * 10 <= 0xFFFF_FFFF_FFFF_FFFF * 10) by (nonlinear_arith)
                    requires
                        acc <= 0xFFFF_FFFF_FFFF_FFFF,
                ;
                let next: u128 = acc * 10 + (dv as u128);
                if next > 0xFFFF_FFFF_FFFF_FFFF {
                    proof {
                        if all_digits(d, 10) {
                            lemma_digits_value_mono(d, i - start + 1, 10);
                        }
                    }
                    return None;
                }
                acc = next;
                i = i + 1;
            },
        }
    }
    assert(d.take(i - start) =~= d);
    Some(acc as u64)
}

/// The decimal digit for `d < 10`.
pub open spec fn digit_char(d: int) -> char {
    (0x30 + d) as char
}

/// The decimal writing of `n`, without leading zeros.
pub open spec fn decimal(n: nat) -> Seq<char>
    decreases n,
{
    if n < 10 {
        seq![digit_char(n as int)]
    } else {
        decimal(n / 10) + seq![digit_char((n % 10) as int)]
    }
}

/// The decimal writing of `n`, left-padded with zeros to `width` characters.
pub open spec fn decimal_padded(n: nat, width: nat) -> Seq<char> {
    let d = decimal(n);
    if d.len() >= width {
        d
    } else {
        Seq::new((width - d.len()) as nat, |i: int| '0') + d
    }
}

fn digit_to_char(d: u64) -> (c: char)
    requires
        d < 10,
    ensures
        c == digit_char(d as int),
{
    let c = match d {
        0 => '0',
        1 => '1',
        2 => '2',
        3 => '3',
        4 => '4',
        5 => '5',
        6 => '6',
        7 => '7',
        8 => '8',
        _ => '9',
    };
    assert(c == digit_char(d as int));
    c
}

/// Appends the decimal writing of `n` to `out`.
pub fn push_decimal(out: &mut String, n: u64)
    ensures
        final(out)@ == old(out)@ + decimal(n as nat),
    decreases n,
{
    if n < 10 {
        push_char(out, digit_to_char(n));
        assert(old(out)@.push(digit_char(n as int)) =~= old(out)@ + seq![digit_char(n as int)]);
    } else {
        push_decimal(out, n / 10);
        push_char(out, digit_to_char(n % 10));
        assert(old(out)@ + decimal(n as nat) =~= old(out)@ + decimal((n / 10) as nat) + seq![
            digit_char((n % 10) as int),
        ]);
    }
}

/// The decimal writing of `n` (what `n.to_string()` gives).
pub fn decimal_string(n: u64) -> (r: String)
    ensures
        r@ == decimal(n as nat),
{
    let mut out = String::new();
    push_decimal(&mut out, n);
    assert(Seq::<char>::empty() + decimal(n as nat) =~= decimal(n as nat));
    out
}

/// Appends `n` in decimal, zero-padded to `width` characters (`{:0width$}`).
pub fn push_decimal_padded(out: &mut String, n: u64, width: usize)
    ensures
        final(out)@ == old(out)@ + decimal_padded(n as nat, width as nat),
{
    let d = decimal_string(n);
    let dv = crate::text::chars_of(d.as_str());
    let ghost start = out@;
    if dv.len() < width {
        let pad = width - dv.len();
        let mut k: usize = 0;
        while k < pad
            invariant
                k <= pad,
                out@ == start + Seq::new(k as nat, |i: int| '0'),
            decreases pad - k,
        {
            push_char(out, '0');
            k = k + 1;
            assert(out@ =~= start + Seq::new(k as nat, |i: int| '0'));
        }
    }
    crate::text::push_str(out, d.as_str());
    assert(out@ =~= start + decimal_padded(n as nat, width as nat));
}

/// The decimal writing of `n` is made of digits that spell `n`.
pub proof fn lemma_decimal_digits(n: nat)
    ensures
        all_digits(decimal(n), 10),
        digits_value(decimal(n), 10) == n,
        decimal(n).len() > 0,
        decimal(n)[0] != '+',
    decreases n,
{
    if n < 10 {
        let d = decimal(n);
        assert(digit_value(digit_char(n as int), 10) == Some(n as int));
        assert(d.drop_last() =~= Seq::<char>::empty());
        assert(digits_value(d, 10) == digits_value(d.drop_last(), 10) * 10 + n);
    } else {
        lemma_decimal_digits(n / 10);
        let d = decimal(n);
        let c = digit_char((n % 10) as int);
        assert(d.drop_last() =~= decimal(n / 10));
        assert(d.last() == c);
        assert(digit_value(c, 10) == Some((n % 10) as int));
        assert forall|i: int| 0 <= i < d.len() implies (#[trigger] digit_value(d[i], 10)) is Some by {
            if i < d.len() - 1 {
                assert(d[i] == decimal(n / 10)[i]);
            }
        }
        assert(d[0] == decimal(n / 10)[0]);
        assert(digits_value(d, 10) == digits_value(decimal(n / 10), 10) * 10 + (n % 10) as int);
        assert((n / 10) * 10 + n % 10 == n) by (nonlinear_arith);
    }
}

/// Reading back the decimal writing of a `u64` gives it back.
pub proof fn lemma_parse_decimal(n: u64)
    ensures
        parse_u64(decimal(n as nat)) == Some(n),
{
    lemma_decimal_digits(n as nat);
}

/// The decimal writing of an integer, with a `-` when it is negative.
pub open spec fn signed_decimal(n: int) -> Seq<char> {
    if n < 0 {
        seq!['-'] + decimal((-n) as nat)
    } else {
        decimal(n as nat)
    }
}

/// Appends the decimal writing of `n`, with a `-` when it is negative.
pub fn push_signed_decimal(out: &mut String, n: i64)
    ensures
        final(out)@ == old(out)@ + signed_decimal(n as int),
{
    if n < 0 {
        crate::text::push_char(out, '-');
        let m: u64 = if n == i64::MIN {
            9_223_372_036_854_775_808u64
        } else {
            (-n) as u64
        };
        push_decimal(out, m);
        assert(old(out)@.push('-') + decimal(m as nat) =~= old(out)@ + (seq!['-'] + decimal(m as nat)));
    } else {
        push_decimal(out, n as u64);
    }
}

} // verus!
