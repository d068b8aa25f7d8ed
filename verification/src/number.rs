use vstd::prelude::*;

verus! {

/// The value of `c` as a digit in base `radix` (10 or 16; letters of either
/// case count as hexadecimal digits), or `None` when it is no such digit.
pub open spec fn digit_value(c: char, radix: nat) -> Option<nat> {
    if '0' <= c && c <= '9' && (c as int) - ('0' as int) < radix {
        Some(((c as int) - ('0' as int)) as nat)
    } else if radix == 16 && 'a' <= c && c <= 'f' {
        Some(((c as int) - ('a' as int) + 10) as nat)
    } else if radix == 16 && 'A' <= c && c <= 'F' {
        Some(((c as int) - ('A' as int) + 10) as nat)
    } else {
        None
    }
}

/// The digits of base 16 are `0`-`9`, worth 0 to 9, and the letters `a`-`f`
/// and `A`-`F`, worth 10 to 15 in either case; those of base 10 are `0`-`9`.
/// No other character is a digit.
pub proof fn lemma_digits_of_bases(d: nat, c: char)
    ensures
        d < 10 ==> digit_value((('0' as int) + d) as char, 16) == Some(d),
        d < 10 ==> digit_value((('0' as int) + d) as char, 10) == Some(d),
        d < 6 ==> digit_value((('a' as int) + d) as char, 16) == Some(d + 10),
        d < 6 ==> digit_value((('A' as int) + d) as char, 16) == Some(d + 10),
        digit_value(c, 16) is Some <==> ('0' <= c <= '9' || 'a' <= c <= 'f' || 'A' <= c <= 'F'),
        digit_value(c, 10) is Some <==> '0' <= c <= '9',
{
}

/// Every character of `ds` is a digit in base `radix`.
pub open spec fn all_digits(ds: Seq<char>, radix: nat) -> bool {
    forall|i: int| 0 <= i < ds.len() ==> (#[trigger] digit_value(ds[i], radix)) is Some
}

/// The number that the digits `ds` spell in base `radix`, most significant first.
pub open spec fn digits_value(ds: Seq<char>, radix: nat) -> nat
    decreases ds.len(),
{
    if ds.len() == 0 {
        0
    } else {
        digits_value(ds.drop_last(), radix) * radix + digit_value(ds.last(), radix).unwrap()
    }
}

/// The digits of an unsigned number: the text without one leading `+`.
pub open spec fn unsigned_digits(s: Seq<char>) -> Seq<char> {
    if s.len() > 0 && s[0] == '+' {
        s.drop_first()
    } else {
        s
    }
}

/// What parsing `s` as an unsigned integer in base `radix` gives, where `max`
/// is the largest value of the target type: an optional leading `+`, then one
/// or more digits; anything else, or a value above `max`, is rejected.
pub open spec fn parse_unsigned(s: Seq<char>, radix: nat, max: nat) -> Option<nat> {
    let ds = unsigned_digits(s);
    if ds.len() > 0 && all_digits(ds, radix) && digits_value(ds, radix) <= max {
        Some(digits_value(ds, radix))
    } else {
        None
    }
}

/// Parsing digits with one more digit at the end gives the value of the
/// shorter digits times the base plus the new digit's worth, when that is at
/// most `max`, and nothing otherwise; a single digit gives its own worth.
pub proof fn lemma_parse_one_more_digit(ds: Seq<char>, c: char, radix: nat, max: nat)
    requires
        all_digits(ds, radix),
        digit_value(c, radix) is Some,
    ensures
        parse_unsigned(ds.push(c), radix, max) == (if digits_value(ds, radix) * radix + digit_value(
            c,
            radix,
        ).unwrap() <= max {
            Some(digits_value(ds, radix) * radix + digit_value(c, radix).unwrap())
        } else {
            None
        }),
{
    let t = ds.push(c);
    assert(t[0] != '+') by {
        if ds.len() > 0 {
            assert(t[0] == ds[0]);
            assert(digit_value(ds[0], radix) is Some);
        }
    }
    assert(unsigned_digits(t) == t);
    assert forall|i: int| 0 <= i < t.len() implies (#[trigger] digit_value(t[i], radix)) is Some by {
        if i < ds.len() {
            assert(t[i] == ds[i]);
        }
    }
    assert(t.drop_last() == ds);
}

/// The decimal digit character for `d < 10`.
pub open spec fn digit_char(d: nat) -> char {
    (('0' as int) + d) as char
}

/// The shortest decimal spelling of `n`.
pub open spec fn decimal(n: nat) -> Seq<char>
    decreases n,
{
    if n < 10 {
        seq![digit_char(n)]
    } else {
        decimal(n / 10).push(digit_char(n % 10))
    }
}

/// A prefix of a run of digits never spells a larger number than the whole run.
proof fn lemma_digits_value_prefix(ds: Seq<char>, radix: nat, j: int)
    requires
        0 <= j <= ds.len(),
        radix > 0,
        all_digits(ds, radix),
    ensures
        digits_value(ds.take(j), radix) <= digits_value(ds, radix),
    decreases ds.len(),
{
    if j < ds.len() {
        let p = ds.drop_last();
        assert(all_digits(p, radix)) by {
            assert forall|i: int| 0 <= i < p.len() implies (#[trigger] digit_value(p[i], radix)) is Some by {
                assert(p[i] == ds[i]);
            }
        }
        lemma_digits_value_prefix(p, radix, j);
        assert(p.take(j) == ds.take(j));
        let v = digits_value(p, radix);
        assert(v <= v * radix) by (nonlinear_arith)
            requires radix > 0;
    } else {
        assert(ds.take(j) == ds);
    }
}

/// A decimal digit character reads back as its digit.
proof fn lemma_digit_char(d: nat)
    requires
        d < 10,
    ensures
        digit_value(digit_char(d), 10) == Some(d),
        digit_value(digit_char(d), 16) == Some(d),
        digit_char(d) != '+',
{
    assert((('0' as int) + d) as char as int == ('0' as int) + d);
}

/// The decimal spelling of `n` is a run of digits that spells `n` back.
pub proof fn lemma_decimal_digits(n: nat)
    ensures
        decimal(n).len() > 0,
        all_digits(decimal(n), 10),
        digits_value(decimal(n), 10) == n,
        decimal(n)[0] != '+',
    decreases n,
{
    lemma_digit_char(n % 10);
    if n < 10 {
        let d = decimal(n);
        assert(d.drop_last() =~= Seq::<char>::empty());
        assert(digits_value(d.drop_last(), 10) == 0);
    } else {
        lemma_decimal_digits(n / 10);
        let d = decimal(n);
        assert(d.drop_last() == decimal(n / 10));
        assert(all_digits(d, 10)) by {
            assert forall|i: int| 0 <= i < d.len() implies (#[trigger] digit_value(d[i], 10)) is Some by {
                if i < d.len() - 1 {
                    assert(d[i] == decimal(n / 10)[i]);
                }
            }
        }
    }
}

/// Parsing the decimal spelling of a number gives the number back, when it fits.
pub proof fn lemma_parse_decimal(n: nat, max: nat)
    requires
        n <= max,
    ensures
        parse_unsigned(decimal(n), 10, max) == Some(n),
{
    lemma_decimal_digits(n);
}

/// Reads `s` as an unsigned number in base `radix`, as `parse_unsigned` says.
pub fn parse_unsigned_chars(s: &[char], radix: u64, max: u64) -> (r: Option<u64>)
    requires
        radix == 10 || radix == 16,
        max <= u32::MAX,
    ensures
        r matches Some(v) ==> parse_unsigned(s@, radix as nat, max as nat) == Some(v as nat),
        r is None ==> parse_unsigned(s@, radix as nat, max as nat) is None,
{
    let start: usize = if s.len() > 0 && s[0] == '+' { 1 } else { 0 };
    let ghost ds = unsigned_digits(s@);
    assert(ds == s@.skip(start as int));
    if start == s.len() {
        return None;
    }
    let mut v: u64 = 0;
    let mut i: usize = start;
    while i < s.len()
        invariant
            start <= i <= s.len(),
            ds == s@.skip(start as int),
            ds == unsigned_digits(s@),
            radix == 10 || radix == 16,
            max <= u32::MAX,
            v <= max,
            all_digits(ds.take(i - start), radix as nat),
            v == digits_value(ds.take(i - start), radix as nat),
        decreases s.len() - i,
    {
        let c = s[i];
        let d: u64 = if '0' <= c && c <= '9' && (c as u64) - ('0' as u64) < radix {
            (c as u64) - ('0' as u64)
        } else if radix == 16 && 'a' <= c && c <= 'f' {
            (c as u64) - ('a' as u64) + 10
        } else if radix == 16 && 'A' <= c && c <= 'F' {
            (c as u64) - ('A' as u64) + 10
        } else {
            assert(ds[i - start] == c);
            assert(digit_value(c, radix as nat) is None);
            return None;
        };
        assert(digit_value(c, radix as nat) == Some(d as nat));
        assert(v * radix <= max * radix) by (nonlinear_arith)
            requires v <= max;
        assert(max * radix <= u32::MAX * 16) by (nonlinear_arith)
            requires max <= u32::MAX, radix <= 16;
        let nv: u64 = v * radix + d;
        let ghost p = ds.take(i + 1 - start);
        assert(p.drop_last() == ds.take(i - start));
        assert(p.last() == c);
        assert(all_digits(p, radix as nat)) by {
            assert forall|j: int| 0 <= j < p.len() implies (#[trigger] digit_value(p[j], radix as nat)) is Some by {
                if j < p.len() - 1 {
                    assert(p[j] == ds.take(i - start)[j]);
                }
            }
        }
        if nv > max {
            proof {
                if all_digits(ds, radix as nat) {
                    lemma_digits_value_prefix(ds, radix as nat, i + 1 - start);
                }
            }
            return None;
        }
        v = nv;
        i = i + 1;
    }
    assert(ds.take(i - start) == ds);
    Some(v)
}

/// Reads a `u16` written in decimal, with Rust's rules for unsigned integers.
pub fn parse_u16(s: &[char]) -> (r: Option<u16>)
    ensures
        r matches Some(v) ==> parse_unsigned(s@, 10, u16::MAX as nat) == Some(v as nat),
        r is None ==> parse_unsigned(s@, 10, u16::MAX as nat) is None,
{
    match parse_unsigned_chars(s, 10, 0xffff) {
        Some(v) => Some(v as u16),
        None => None,
    }
}

/// Reads a `u32` written in hexadecimal, with Rust's rules for unsigned integers.
pub fn parse_hex_u32(s: &[char]) -> (r: Option<u32>)
    ensures
        r matches Some(v) ==> parse_unsigned(s@, 16, u32::MAX as nat) == Some(v as nat),
        r is None ==> parse_unsigned(s@, 16, u32::MAX as nat) is None,
{
    match parse_unsigned_chars(s, 16, 0xffff_ffff) {
        Some(v) => Some(v as u32),
        None => None,
    }
}

/// The decimal digit character for `d`.
fn digit_char_exec(d: u64) -> (c: char)
    requires
        d < 10,
    ensures
        c == digit_char(d as nat),
{
    let b: u8 = 48u8 + (d as u8);
    b as char
}

/// The shortest decimal spelling of `n`, as characters.
pub fn decimal_chars(n: u64) -> (r: Vec<char>)
    ensures
        r@ == decimal(n as nat),
{
    let mut rev: Vec<char> = Vec::new();
    let mut m: u64 = n;
    // rev holds the low digits of n, least significant first
    while m >= 10
        invariant
            m <= n,
            decimal(n as nat) == decimal(m as nat) + rev@.reverse(),
        decreases m,
    {
        let d: u64 = m % 10;
        let c = digit_char_exec(d);
        proof {
            assert(decimal(m as nat) == decimal((m / 10) as nat).push(c));
            assert(decimal((m / 10) as nat).push(c) + rev@.reverse() == decimal((m / 10) as nat)
                + rev@.push(c).reverse());
        }
        rev.push(c);
        m = m / 10;
    }
    let c = digit_char_exec(m);
    rev.push(c);
    assert(decimal(m as nat) == seq![c]);
    let mut out: Vec<char> = Vec::new();
    let mut k: usize = rev.len();
    while k > 0
        invariant
            k <= rev.len(),
            out@ == rev@.reverse().take((rev.len() - k) as int),
        decreases k,
    {
        k = k - 1;
        out.push(rev[k]);
        proof {
            assert(rev@.reverse().take((rev.len() - k) as int) == rev@.reverse().take(
                (rev.len() - k - 1) as int,
            ).push(rev@[k as int]));
        }
    }
    assert(rev@.reverse().take(rev.len() as int) == rev@.reverse());
    assert(decimal(n as nat) == rev@.reverse());
    out
}

} // verus!
