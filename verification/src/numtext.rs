//! Decimal and hexadecimal text of integers, and std's integer parsing
//! (`str::parse` / `from_str_radix`) stated and proved on characters.

use vstd::prelude::*;

verus! {

/// The character of the digit `d` (`0 <= d < 16`), lower case for `a..f`.
pub open spec fn digit_char(d: int) -> char {
    if d == 0 { '0' }
    else if d == 1 { '1' }
    else if d == 2 { '2' }
    else if d == 3 { '3' }
    else if d == 4 { '4' }
    else if d == 5 { '5' }
    else if d == 6 { '6' }
    else if d == 7 { '7' }
    else if d == 8 { '8' }
    else if d == 9 { '9' }
    else if d == 10 { 'a' }
    else if d == 11 { 'b' }
    else if d == 12 { 'c' }
    else if d == 13 { 'd' }
    else if d == 14 { 'e' }
    else { 'f' }
}

fn digit_char_exec(d: u64) -> (c: char)
    requires
        d < 16,
    ensures
        c == digit_char(d as int),
{
    if d == 0 { '0' }
    else if d == 1 { '1' }
    else if d == 2 { '2' }
    else if d == 3 { '3' }
    else if d == 4 { '4' }
    else if d == 5 { '5' }
    else if d == 6 { '6' }
    else if d == 7 { '7' }
    else if d == 8 { '8' }
    else if d == 9 { '9' }
    else if d == 10 { 'a' }
    else if d == 11 { 'b' }
    else if d == 12 { 'c' }
    else if d == 13 { 'd' }
    else if d == 14 { 'e' }
    else { 'f' }
}

/// The decimal text of `n`, as `format!("{}", n)` writes it.
pub open spec fn dec_text(n: nat) -> Seq<char>
    decreases n,
{
    if n < 10 {
        seq![digit_char(n as int)]
    } else {
        dec_text(n / 10).push(digit_char((n % 10) as int))
    }
}

/// The decimal text of `n` padded with zeros on the left to at least
/// `width` characters, as `format!("{:0width$}", n)` writes it.
pub open spec fn padded_dec_text(n: nat, width: nat) -> Seq<char> {
    let t = dec_text(n);
    if t.len() < width {
        Seq::new((width - t.len()) as nat, |i: int| '0') + t
    } else {
        t
    }
}

/// The decimal text of a signed integer, with a leading `-` when negative.
pub open spec fn signed_dec_text(v: int) -> Seq<char> {
    if v < 0 {
        seq!['-'] + dec_text((-v) as nat)
    } else {
        dec_text(v as nat)
    }
}

/// `format!("{}", n)` for an unsigned integer.
pub fn dec_chars(n: u64) -> (r: Vec<char>)
    ensures
        r@ == dec_text(n as nat),
    decreases n,
{
    if n < 10 {
        let mut v: Vec<char> = Vec::new();
        v.push(digit_char_exec(n));
        v
    } else {
        let mut v = dec_chars(n / 10);
        v.push(digit_char_exec(n % 10));
        v
    }
}

/// `format!("{:0width$}", n)`.
pub fn padded_dec_chars(n: u64, width: usize) -> (r: Vec<char>)
    ensures
        r@ == padded_dec_text(n as nat, width as nat),
{
    let t = dec_chars(n);
    if t.len() < width {
        let mut r: Vec<char> = Vec::new();
        let pad = width - t.len();
        let mut i: usize = 0;
        while i < pad
            invariant
                i <= pad,
                r@ == Seq::new(i as nat, |k: int| '0'),
            decreases pad - i,
        {
            r.push('0');
            i += 1;
            assert(r@ =~= Seq::new(i as nat, |k: int| '0'));
        }
        let mut k: usize = 0;
        let ghost r0 = r@;
        while k < t.len()
            invariant
                k <= t@.len(),
                r@ == r0 + t@.subrange(0, k as int),
            decreases t.len() - k,
        {
            r.push(t[k]);
            k += 1;
        }
        assert(t@.subrange(0, t@.len() as int) =~= t@);
        r
    } else {
        t
    }
}

/// `format!("{}", v)` for a signed integer.
pub fn signed_dec_chars(v: i64) -> (r: Vec<char>)
    ensures
        r@ == signed_dec_text(v as int),
{
    if v < 0 {
        let m: u64 = if v == i64::MIN {
            9223372036854775808u64
        } else {
            (-v) as u64
        };
        let t = dec_chars(m);
        let mut r: Vec<char> = Vec::new();
        r.push('-');
        let mut k: usize = 0;
        while k < t.len()
            invariant
                k <= t@.len(),
                r@ == seq!['-'] + t@.subrange(0, k as int),
            decreases t.len() - k,
        {
            r.push(t[k]);
            k += 1;
        }
        assert(t@.subrange(0, t@.len() as int) =~= t@);
        r
    } else {
        dec_chars(v as u64)
    }
}

/// Lower case hexadecimal text of bytes, two digits per byte (the `{:x}`
/// format of a digest).
pub open spec fn hex_text(bytes: Seq<u8>) -> Seq<char>
    decreases bytes.len(),
{
    if bytes.len() == 0 {
        Seq::empty()
    } else {
        hex_text(bytes.drop_last()) + seq![
            digit_char((bytes.last() / 16) as int),
            digit_char((bytes.last() % 16) as int),
        ]
    }
}

/// The bytes in lower case hexadecimal, two digits each (`format!("{:x}")` of a digest).
pub fn hex_chars(bytes: &[u8]) -> (r: Vec<char>)
    ensures
        r@ == hex_text(bytes@),
{
    let mut r: Vec<char> = Vec::new();
    let mut i: usize = 0;
    assert(bytes@.subrange(0, 0) =~= Seq::<u8>::empty());
    while i < bytes.len()
        invariant
            i <= bytes@.len(),
            r@ == hex_text(bytes@.subrange(0, i as int)),
        decreases bytes.len() - i,
    {
        let b = bytes[i];
        r.push(digit_char_exec((b / 16) as u64));
        r.push(digit_char_exec((b % 16) as u64));
        i += 1;
        assert(bytes@.subrange(0, i as int).drop_last() =~= bytes@.subrange(0, i - 1));
    }
    assert(bytes@.subrange(0, bytes@.len() as int) =~= bytes@);
    r
}

// ------------------------------------------------------------------
// Parsing
// ------------------------------------------------------------------

/// The value of `c` as a digit in `radix` (`2 <= radix <= 36`), or -1
/// when it is not one (std `char::to_digit`).
pub open spec fn digit_value(c: char, radix: int) -> int {
    let u = c as u32 as int;
    let d = if 48 <= u <= 57 {
        u - 48
    } else if 97 <= u <= 122 {
        u - 97 + 10
    } else if 65 <= u <= 90 {
        u - 65 + 10
    } else {
        99
    };
    if d < radix {
        d
    } else {
        -1
    }
}

/// Every character of `s` is a digit in `radix`.
pub open spec fn all_digits(s: Seq<char>, radix: int) -> bool {
    forall|i: int| 0 <= i < s.len() ==> digit_value(#[trigger] s[i], radix) >= 0
}

/// The value of the digits `s` in `radix`.
pub open spec fn digits_value(s: Seq<char>, radix: int) -> int
    decreases s.len(),
{
    if s.len() == 0 {
        0
    } else {
        digits_value(s.drop_last(), radix) * radix + digit_value(s.last(), radix)
    }
}

/// What std's `from_str_radix` gives for an unsigned type whose largest
/// value is `max`: an optional `+`, then at least one digit, and a value
/// that fits.
pub open spec fn parse_unsigned(s: Seq<char>, radix: int, max: int) -> Option<int> {
    let body = if s.len() > 0 && s[0] == '+' {
        s.drop_first()
    } else {
        s
    };
    if body.len() > 0 && all_digits(body, radix) && digits_value(body, radix) <= max {
        Some(digits_value(body, radix))
    } else {
        None
    }
}

/// What std's decimal `str::parse` gives for a signed type with range
/// `min..=max`: an optional sign, then at least one digit, and a value
/// that fits.
pub open spec fn parse_signed(s: Seq<char>, min: int, max: int) -> Option<int> {
    if s.len() > 0 && s[0] == '-' {
        let body = s.drop_first();
        if body.len() > 0 && all_digits(body, 10) && digits_value(body, 10) <= -min {
            Some(-digits_value(body, 10))
        } else {
            None
        }
    } else {
        parse_unsigned(s, 10, max)
    }
}

proof fn lemma_digits_value_nonneg(s: Seq<char>, radix: int)
    requires
        all_digits(s, radix),
        radix >= 2,
    ensures
        digits_value(s, radix) >= 0,
    decreases s.len(),
{
    if s.len() > 0 {
        assert(all_digits(s.drop_last(), radix)) by {
            assert forall|i: int| 0 <= i < s.drop_last().len() implies digit_value(
                #[trigger] s.drop_last()[i],
                radix,
            ) >= 0 by {
                assert(s.drop_last()[i] == s[i]);
            }
        }
        lemma_digits_value_nonneg(s.drop_last(), radix);
        assert(digit_value(s[s.len() - 1], radix) >= 0);
        let v = digits_value(s.drop_last(), radix);
        assert(v * radix >= 0) by (nonlinear_arith)
            requires
                v >= 0,
                radix >= 2,
        ;
    }
}

fn digit_value_exec(c: char, radix: u64) -> (r: Option<u64>)
    requires
        2 <= radix <= 36,
    ensures
        match r {
            Some(d) => d as int == digit_value(c, radix as int) && d < radix,
            None => digit_value(c, radix as int) < 0,
        },
{
    let u = c as u32;
    let d: u64 = if 48 <= u && u <= 57 {
        (u - 48) as u64
    } else if 97 <= u && u <= 122 {
        (u - 97 + 10) as u64
    } else if 65 <= u && u <= 90 {
        (u - 65 + 10) as u64
    } else {
        99
    };
    if d < radix {
        Some(d)
    } else {
        None
    }
}

/// The value of the digits `s[from..]`, when there is at least one, all are
/// digits in `radix`, and the value is at most `max`.
fn parse_digits(s: &[char], from: usize, radix: u64, max: u64) -> (r: Option<u64>)
    requires
        from <= s@.len(),
        2 <= radix <= 16,
        max < 0x1_0000_0000,
    ensures
        ({
            let body = s@.subrange(from as int, s@.len() as int);
            match r {
                Some(v) => body.len() > 0 && all_digits(body, radix as int) && v == digits_value(
                    body,
                    radix as int,
                ) && v <= max,
                None => !(body.len() > 0 && all_digits(body, radix as int) && digits_value(
                    body,
                    radix as int,
                ) <= max),
            }
        }),
{
    let n = s.len();
    if from == n {
        return None;
    }
    let mut acc: u64 = 0;
    let mut i = from;
    assert(s@.subrange(from as int, from as int) =~= Seq::<char>::empty());
    while i < n
        invariant
            from <= i <= n,
            n == s@.len(),
            2 <= radix <= 16,
            max < 0x1_0000_0000,
            all_digits(s@.subrange(from as int, i as int), radix as int),
            acc <= max + 1,
            acc <= max ==> acc == digits_value(s@.subrange(from as int, i as int), radix as int),
            acc == max + 1 ==> digits_value(s@.subrange(from as int, i as int), radix as int) > max,
        decreases n - i,
    {
        let ghost prev = s@.subrange(from as int, i as int);
        let ghost next = s@.subrange(from as int, i + 1);
        assert(next.drop_last() =~= prev);
        assert(next.last() == s@[i as int]);
        match digit_value_exec(s[i], radix) {
            None => {
                assert(s@.subrange(from as int, n as int)[i - from] == s@[i as int]);
                return None;
            },
            Some(d) => {
                proof {
                    assert(all_digits(next, radix as int)) by {
                        assert forall|k: int| 0 <= k < next.len() implies digit_value(
                            #[trigger] next[k],
                            radix as int,
                        ) >= 0 by {
                            if k < prev.len() {
                                assert(next[k] == prev[k]);
                            }
                        }
                    }
                    lemma_digits_value_nonneg(prev, radix as int);
                }
                let ghost pv = digits_value(prev, radix as int);
                assert(digits_value(next, radix as int) == pv * radix + d);
                if acc == max + 1 {
                    assert(pv * radix + d > max) by (nonlinear_arith)
                        requires
                            pv > max,
                            max >= 0,
                            radix >= 2,
                            d >= 0,
                    ;
                } else {
                    assert(acc * radix + d <= 0x1_0000_0000 * 16 + 16) by (nonlinear_arith)
                        requires
                            acc <= 0x1_0000_0000,
                            radix <= 16,
                            d < 16,
                    ;
                    let v = acc * radix + d;
                    if v > max {
                        acc = max + 1;
                    } else {
                        acc = v;
                    }
                }
                i += 1;
            },
        }
    }
    if acc > max {
        None
    } else {
        Some(acc)
    }
}

/// std `str::parse::<u64>`-style parsing of an unsigned integer in `radix`
/// whose largest value is `max` (`u8`, `u16`, `u32`).
pub fn parse_unsigned_chars(s: &[char], radix: u64, max: u64) -> (r: Option<u64>)
    requires
        2 <= radix <= 16,
        max < 0x1_0000_0000,
    ensures
        match r {
            Some(v) => parse_unsigned(s@, radix as int, max as int) == Some(v as int),
            None => parse_unsigned(s@, radix as int, max as int) is None,
        },
{
    let from: usize = if s.len() > 0 && s[0] == '+' {
        1
    } else {
        0
    };
    proof {
        if from == 1 {
            assert(s@.subrange(1, s@.len() as int) =~= s@.drop_first());
        } else {
            assert(s@.subrange(0, s@.len() as int) =~= s@);
        }
    }
    parse_digits(s, from, radix, max)
}

/// std `str::parse::<i16>`.
pub fn parse_i16(s: &[char]) -> (r: Option<i16>)
    ensures
        match r {
            Some(v) => parse_signed(s@, -32768, 32767) == Some(v as int),
            None => parse_signed(s@, -32768, 32767) is None,
        },
{
    if s.len() > 0 && s[0] == '-' {
        assert(s@.subrange(1, s@.len() as int) =~= s@.drop_first());
        match parse_digits(s, 1, 10, 32768) {
            Some(v) => Some((0 - (v as i32)) as i16),
            None => None,
        }
    } else {
        match parse_unsigned_chars(s, 10, 32767) {
            Some(v) => Some(v as i16),
            None => None,
        }
    }
}

/// std `str::parse::<u16>`.
pub fn parse_u16(s: &[char]) -> (r: Option<u16>)
    ensures
        match r {
            Some(v) => parse_unsigned(s@, 10, 65535) == Some(v as int),
            None => parse_unsigned(s@, 10, 65535) is None,
        },
{
    match parse_unsigned_chars(s, 10, 65535) {
        Some(v) => Some(v as u16),
        None => None,
    }
}

/// std `u16::from_str_radix(s, 16)`.
pub fn parse_hex_u16(s: &[char]) -> (r: Option<u16>)
    ensures
        match r {
            Some(v) => parse_unsigned(s@, 16, 65535) == Some(v as int),
            None => parse_unsigned(s@, 16, 65535) is None,
        },
{
    match parse_unsigned_chars(s, 16, 65535) {
        Some(v) => Some(v as u16),
        None => None,
    }
}

/// std `str::parse::<u8>`.
pub fn parse_u8(s: &[char]) -> (r: Option<u8>)
    ensures
        match r {
            Some(v) => parse_unsigned(s@, 10, 255) == Some(v as int),
            None => parse_unsigned(s@, 10, 255) is None,
        },
{
    match parse_unsigned_chars(s, 10, 255) {
        Some(v) => Some(v as u8),
        None => None,
    }
}

/// std `str::parse::<u32>`.
pub fn parse_u32(s: &[char]) -> (r: Option<u32>)
    ensures
        match r {
            Some(v) => parse_unsigned(s@, 10, 4294967295) == Some(v as int),
            None => parse_unsigned(s@, 10, 4294967295) is None,
        },
{
    match parse_unsigned_chars(s, 10, 4294967295) {
        Some(v) => Some(v as u32),
        None => None,
    }
}

} // verus!
