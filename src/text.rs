//! Numbers written as text: decimal and hexadecimal digits, signed hex
//! integers and hex-encoded byte strings.
use vstd::prelude::*;
use vstd::string::*;

verus! {

/// The value of a digit character in any radix up to 16; 16 for a character
/// that is no digit at all.
pub open spec fn digit_value(c: char) -> nat {
    if '0' <= c && c <= '9' {
        (c as u32 - '0' as u32) as nat
    } else if 'a' <= c && c <= 'f' {
        (c as u32 - 'a' as u32 + 10) as nat
    } else if 'A' <= c && c <= 'F' {
        (c as u32 - 'A' as u32 + 10) as nat
    } else {
        16
    }
}

pub open spec fn all_digits(s: Seq<char>, radix: nat) -> bool {
    forall|i: int| 0 <= i < s.len() ==> #[trigger] digit_value(s[i]) < radix
}

/// The number that the digits `s` spell in `radix`, most significant first.
pub open spec fn digits_value(s: Seq<char>, radix: nat) -> nat
    decreases s.len(),
{
    if s.len() == 0 {
        0
    } else {
        digits_value(s.drop_last(), radix) * radix + digit_value(s.last())
    }
}

/// The lower-case digit character for `d < 16`.
pub open spec fn digit_char(d: nat) -> char {
    if d < 10 {
        ((d + '0' as u32) as u32) as char
    } else {
        ((d - 10 + 'a' as u32) as u32) as char
    }
}

/// The shortest digit string of `n` in `radix`, lower case.
pub open spec fn text_of(n: nat, radix: nat) -> Seq<char>
    recommends
        2 <= radix <= 16,
    decreases n
    via text_of_decreases
{
    if n < radix || radix < 2 {
        seq![digit_char(n % 16)]
    } else {
        text_of(n / radix, radix).push(digit_char(n % radix))
    }
}

#[via_fn]
proof fn text_of_decreases(n: nat, radix: nat) {
    if !(n < radix || radix < 2) {
        assert(n / radix < n) by (nonlinear_arith)
            requires
                n >= radix,
                radix >= 2,
        ;
    }
}

/// What `u64::from_str` accepts: an optional `+`, then decimal digits.
pub open spec fn parse_u64(s: Seq<char>) -> Option<u64> {
    let d = if s.len() > 0 && s[0] == '+' {
        s.drop_first()
    } else {
        s
    };
    if d.len() > 0 && all_digits(d, 10) && digits_value(d, 10) <= u64::MAX {
        Some(digits_value(d, 10) as u64)
    } else {
        None
    }
}

/// What `i64::from_str_radix(s, 16)` accepts: an optional sign, then hex digits
/// of either case, whose value fits in an `i64`.
pub open spec fn parse_hex_i64(s: Seq<char>) -> Option<i64> {
    if s.len() > 0 && s[0] == '-' {
        let d = s.drop_first();
        if d.len() > 0 && all_digits(d, 16) && digits_value(d, 16) <= 0x8000_0000_0000_0000 {
            Some((0 - digits_value(d, 16)) as i64)
        } else {
            None
        }
    } else {
        let d = if s.len() > 0 && s[0] == '+' {
            s.drop_first()
        } else {
            s
        };
        if d.len() > 0 && all_digits(d, 16) && digits_value(d, 16) <= i64::MAX {
            Some(digits_value(d, 16) as i64)
        } else {
            None
        }
    }
}

/// Lower-case hex of a signed integer, with a leading `-` when negative.
pub open spec fn hex_i64_text(v: i64) -> Seq<char> {
    if v < 0 {
        seq!['-'] + text_of((0 - v) as nat, 16)
    } else {
        text_of(v as nat, 16)
    }
}

/// Two lower-case hex digits per byte.
pub open spec fn bytes_hex(b: Seq<u8>) -> Seq<char>
    decreases b.len(),
{
    if b.len() == 0 {
        Seq::empty()
    } else {
        bytes_hex(b.drop_last()) + seq![
            digit_char((b.last() / 16) as nat),
            digit_char((b.last() % 16) as nat),
        ]
    }
}

/// Hex text of even length read back as bytes, two digits to a byte.
pub open spec fn parse_hex_bytes(s: Seq<char>) -> Option<Seq<u8>> {
    if s.len() % 2 == 0 && all_digits(s, 16) {
        Some(
            Seq::new(
                s.len() / 2,
                |i: int| (digit_value(s[2 * i]) * 16 + digit_value(s[2 * i + 1])) as u8,
            ),
        )
    } else {
        None
    }
}

pub proof fn lemma_digit_char(d: nat)
    requires
        d < 16,
    ensures
        digit_value(digit_char(d)) == d,
        digit_char(d) != '-' && digit_char(d) != '+',
{
}

pub proof fn lemma_text_of(n: nat, radix: nat)
    requires
        2 <= radix <= 16,
    ensures
        text_of(n, radix).len() > 0,
        all_digits(text_of(n, radix), radix),
        digits_value(text_of(n, radix), radix) == n,
        text_of(n, radix)[0] != '-' && text_of(n, radix)[0] != '+',
    decreases n,
{
    if n < radix {
        lemma_digit_char(n % 16);
        assert(n % 16 == n);
        assert(text_of(n, radix).drop_last() =~= Seq::<char>::empty());
        assert(digits_value(Seq::<char>::empty(), radix) == 0);
        assert(0 * radix == 0);
    } else {
        assert(n / radix < n) by (nonlinear_arith)
            requires
                n >= radix,
                radix >= 2,
        ;
        assert(n % radix < radix) by (nonlinear_arith)
            requires
                radix >= 2,
        ;
        lemma_text_of(n / radix, radix);
        lemma_digit_char(n % radix);
        let t = text_of(n, radix);
        assert(t.drop_last() =~= text_of(n / radix, radix));
        assert forall|i: int| 0 <= i < t.len() implies #[trigger] digit_value(t[i]) < radix by {
            if i < t.len() - 1 {
                assert(t[i] == text_of(n / radix, radix)[i]);
            }
        }
        assert(n == (n / radix) * radix + n % radix) by (nonlinear_arith)
            requires
                radix > 0,
        ;
    }
}

/// Decimal text of an unsigned integer reads back as that integer.
pub proof fn lemma_u64_round_trip(n: u64)
    ensures
        parse_u64(text_of(n as nat, 10)) == Some(n),
{
    lemma_text_of(n as nat, 10);
}

/// Signed hex text reads back as the same integer.
pub proof fn lemma_hex_i64_round_trip(v: i64)
    ensures
        parse_hex_i64(hex_i64_text(v)) == Some(v),
{
    if v < 0 {
        lemma_text_of((0 - v) as nat, 16);
        assert((seq!['-'] + text_of((0 - v) as nat, 16)).drop_first() =~= text_of(
            (0 - v) as nat,
            16,
        ));
    } else {
        lemma_text_of(v as nat, 16);
    }
}

proof fn lemma_bytes_hex_shape(b: Seq<u8>)
    ensures
        bytes_hex(b).len() == 2 * b.len(),
        forall|i: int|
            0 <= i < b.len() ==> bytes_hex(b)[2 * i] == digit_char((b[i] / 16) as nat)
                && bytes_hex(b)[2 * i + 1] == digit_char((b[i] % 16) as nat),
    decreases b.len(),
{
    if b.len() > 0 {
        lemma_bytes_hex_shape(b.drop_last());
        let p = bytes_hex(b.drop_last());
        assert forall|i: int| 0 <= i < b.len() implies bytes_hex(b)[2 * i] == digit_char(
            (b[i] / 16) as nat,
        ) && bytes_hex(b)[2 * i + 1] == digit_char((b[i] % 16) as nat) by {
            if i < b.len() - 1 {
                assert(b[i] == b.drop_last()[i]);
            }
        }
    }
}

/// Hex text of bytes reads back as the same bytes.
pub proof fn lemma_bytes_round_trip(b: Seq<u8>)
    ensures
        parse_hex_bytes(bytes_hex(b)) == Some(b),
{
    lemma_bytes_hex_shape(b);
    let s = bytes_hex(b);
    assert forall|k: int| 0 <= k < s.len() implies #[trigger] digit_value(s[k]) < 16 by {
        let i = k / 2;
        lemma_digit_char((b[i] / 16) as nat);
        lemma_digit_char((b[i] % 16) as nat);
        if k % 2 == 0 {
            assert(k == 2 * i);
        } else {
            assert(k == 2 * i + 1);
        }
    }
    assert forall|i: int| 0 <= i < b.len() implies (digit_value(s[2 * i]) * 16 + digit_value(
        s[2 * i + 1],
    )) as u8 == b[i] by {
        lemma_digit_char((b[i] / 16) as nat);
        lemma_digit_char((b[i] % 16) as nat);
    }
    assert(parse_hex_bytes(s)->0 =~= b);
}

/// Appends one character.
/// Relies on `String::push`, which adds the character at the end.
#[verifier::external_body]
pub fn push_char(s: &mut String, c: char)
    ensures
        final(s)@ == old(s)@.push(c),
{
    s.push(c)
}

/// The lower-case digit character of `d`.
pub fn digit_to_char(d: u8) -> (c: char)
    requires
        d < 16,
    ensures
        c == digit_char(d as nat),
{
    if d < 10 {
        ((d as u32 + '0' as u32) as u8) as char
    } else {
        ((d as u32 - 10 + 'a' as u32) as u8) as char
    }
}

/// The digit value of `c`, or 16 where it is no hex digit.
pub fn char_digit(c: char) -> (d: u8)
    ensures
        d as nat == digit_value(c),
{
    if '0' <= c && c <= '9' {
        (c as u32 - '0' as u32) as u8
    } else if 'a' <= c && c <= 'f' {
        (c as u32 - 'a' as u32 + 10) as u8
    } else if 'A' <= c && c <= 'F' {
        (c as u32 - 'A' as u32 + 10) as u8
    } else {
        16
    }
}

/// Appends the digits of `n` in `radix`.
pub fn push_digits(s: &mut String, n: u64, radix: u64)
    requires
        2 <= radix <= 16,
    ensures
        final(s)@ == old(s)@ + text_of(n as nat, radix as nat),
    decreases n,
{
    if n >= radix {
        assert(n / radix < n) by (nonlinear_arith)
            requires
                n >= radix,
                radix >= 2,
        ;
        push_digits(s, n / radix, radix);
    }
    let ghost mid = s@;
    push_char(s, digit_to_char((n % radix) as u8));
    proof {
        if n < radix {
            assert(n % radix == n % 16) by (nonlinear_arith)
                requires
                    n < radix,
                    radix <= 16,
            ;
            assert(mid.push(digit_char((n % radix) as nat)) =~= old(s)@ + text_of(
                n as nat,
                radix as nat,
            ));
        } else {
            assert(mid.push(digit_char((n % radix) as nat)) =~= old(s)@ + text_of(
                n as nat,
                radix as nat,
            ));
        }
    }
}

/// Appends lower-case hex of `v`, signed.
pub fn push_hex_i64(s: &mut String, v: i64)
    ensures
        final(s)@ == old(s)@ + hex_i64_text(v),
{
    if v < 0 {
        push_char(s, '-');
        let m: u64 = (0 - (v as i128)) as u64;
        push_digits(s, m, 16);
        assert(old(s)@.push('-') + text_of(m as nat, 16) =~= old(s)@ + (seq!['-'] + text_of(
            m as nat,
            16,
        )));
    } else {
        push_digits(s, v as u64, 16);
    }
}

/// Appends two lower-case hex digits for each byte.
pub fn push_hex_bytes(s: &mut String, b: &Vec<u8>)
    ensures
        final(s)@ == old(s)@ + bytes_hex(b@),
{
    let ghost start = s@;
    let mut i: usize = 0;
    while i < b.len()
        invariant
            i <= b.len(),
            s@ == start + bytes_hex(b@.subrange(0, i as int)),
        decreases b.len() - i,
    {
        let byte = b[i];
        push_char(s, digit_to_char(byte / 16));
        push_char(s, digit_to_char(byte % 16));
        proof {
            let p = b@.subrange(0, i as int + 1);
            assert(p.drop_last() =~= b@.subrange(0, i as int));
        }
        i = i + 1;
    }
    assert(b@.subrange(0, b.len() as int) =~= b@);
}

proof fn lemma_prefix_value_grows(s: Seq<char>, k: int, radix: nat)
    requires
        0 <= k <= s.len(),
        radix >= 1,
    ensures
        digits_value(s.subrange(0, k), radix) <= digits_value(s, radix),
    decreases s.len() - k,
{
    if k < s.len() {
        lemma_prefix_value_grows(s, k + 1, radix);
        let p = s.subrange(0, k + 1);
        assert(p.drop_last() =~= s.subrange(0, k));
        let v = digits_value(s.subrange(0, k), radix);
        assert(v <= v * radix) by (nonlinear_arith)
            requires
                radix >= 1,
        ;
    } else {
        assert(s.subrange(0, k) =~= s);
    }
}

/// Reads the digits of `s` from `start` on in `radix`, as long as the value
/// stays within `bound`.
fn read_digits(s: &str, start: usize, radix: u64, bound: u64) -> (r: Option<u64>)
    requires
        start <= s@.len(),
        2 <= radix <= 16,
    ensures
        ({
            let d = s@.subrange(start as int, s@.len() as int);
            r == if d.len() > 0 && all_digits(d, radix as nat) && digits_value(d, radix as nat)
                <= bound {
                Some(digits_value(d, radix as nat) as u64)
            } else {
                None
            }
        }),
{
    let n = s.unicode_len();
    let ghost d = s@.subrange(start as int, s@.len() as int);
    if start == n {
        return None;
    }
    let mut acc: u64 = 0;
    let mut i: usize = start;
    while i < n
        invariant
            n == s@.len(),
            start <= i <= n,
            d == s@.subrange(start as int, n as int),
            2 <= radix <= 16,
            acc <= bound,
            all_digits(d.subrange(0, i - start), radix as nat),
            acc as nat == digits_value(d.subrange(0, i - start), radix as nat),
        decreases n - i,
    {
        let c = s.get_char(i);
        let v = char_digit(c);
        let ghost p = d.subrange(0, i - start + 1);
        proof {
            assert(p.drop_last() =~= d.subrange(0, i - start));
            assert(p.last() == c);
        }
        if v as u64 >= radix {
            proof {
                assert(d[i - start] == c);
            }
            return None;
        }
        assert(acc as u128 * radix as u128 <= 16 * 0xffff_ffff_ffff_ffffu128) by (nonlinear_arith)
            requires
                acc <= 0xffff_ffff_ffff_ffffu64,
                radix <= 16,
        ;
        let next: u128 = acc as u128 * radix as u128 + v as u128;
        if next > bound as u128 {
            proof {
                lemma_prefix_value_grows(d, i - start + 1, radix as nat);
            }
            return None;
        }
        acc = next as u64;
        i = i + 1;
        proof {
            assert forall|j: int| 0 <= j < p.len() implies #[trigger] digit_value(p[j])
                < radix as nat by {
                if j < p.len() - 1 {
                    assert(p[j] == d.subrange(0, i - 1 - start)[j]);
                }
            }
        }
    }
    assert(d.subrange(0, n - start) =~= d);
    Some(acc)
}

/// Reads an unsigned decimal integer as `u64::from_str` does.
pub fn read_u64(s: &str) -> (r: Option<u64>)
    ensures
        r == parse_u64(s@),
{
    let n = s.unicode_len();
    if n > 0 && s.get_char(0) == '+' {
        assert(s@.subrange(1, s@.len() as int) =~= s@.drop_first());
        read_digits(s, 1, 10, u64::MAX)
    } else {
        assert(s@.subrange(0, s@.len() as int) =~= s@);
        read_digits(s, 0, 10, u64::MAX)
    }
}

/// Reads a signed hex integer as `i64::from_str_radix(s, 16)` does.
pub fn read_hex_i64(s: &str) -> (r: Option<i64>)
    ensures
        r == parse_hex_i64(s@),
{
    let n = s.unicode_len();
    if n > 0 && s.get_char(0) == '-' {
        assert(s@.subrange(1, s@.len() as int) =~= s@.drop_first());
        match read_digits(s, 1, 16, 0x8000_0000_0000_0000) {
            Some(m) => Some((0 - (m as i128)) as i64),
            None => None,
        }
    } else {
        let start: usize = if n > 0 && s.get_char(0) == '+' {
            1
        } else {
            0
        };
        assert(s@.subrange(1, s@.len() as int) =~= s@.drop_first());
        assert(s@.subrange(0, s@.len() as int) =~= s@);
        match read_digits(s, start, 16, i64::MAX as u64) {
            Some(m) => Some(m as i64),
            None => None,
        }
    }
}

/// Reads hex text of even length as bytes, two digits to a byte.
pub fn read_hex_bytes(s: &str) -> (r: Option<Vec<u8>>)
    ensures
        match r {
            Some(v) => parse_hex_bytes(s@) == Some(v@),
            None => parse_hex_bytes(s@).is_none(),
        },
{
    let n = s.unicode_len();
    if n % 2 != 0 {
        return None;
    }
    let mut out: Vec<u8> = Vec::new();
    let mut i: usize = 0;
    while i < n / 2
        invariant
            n == s@.len(),
            n % 2 == 0,
            i <= n / 2,
            out@.len() == i,
            forall|k: int| 0 <= k < 2 * i ==> #[trigger] digit_value(s@[k]) < 16,
            forall|j: int|
                0 <= j < i ==> out@[j] == (digit_value(s@[2 * j]) * 16 + digit_value(
                    s@[2 * j + 1],
                )) as u8,
        decreases n / 2 - i,
    {
        let hi = char_digit(s.get_char(2 * i));
        let lo = char_digit(s.get_char(2 * i + 1));
        if hi >= 16 || lo >= 16 {
            return None;
        }
        out.push(hi * 16 + lo);
        i = i + 1;
        proof {
            assert forall|k: int| 0 <= k < 2 * i implies #[trigger] digit_value(s@[k]) < 16 by {
                if k >= 2 * i - 2 {
                    assert(k == 2 * i - 2 || k == 2 * i - 1);
                }
            }
        }
    }
    proof {
        let spec_bytes = parse_hex_bytes(s@)->0;
        assert(out@ =~= spec_bytes);
    }
    Some(out)
}

} // verus!
