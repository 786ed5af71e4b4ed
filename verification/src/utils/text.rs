use vstd::prelude::*;
use vstd::string::StringSliceAdditionalSpecFns;

verus! {

pub open spec fn is_digit(b: u8) -> bool {
    48 <= b <= 57
}

pub open spec fn all_digits(s: Seq<u8>) -> bool {
    forall|i: int| 0 <= i < s.len() ==> is_digit(#[trigger] s[i])
}

/// The number written by the decimal digits `s` (most significant first).
pub open spec fn digits_value(s: Seq<u8>) -> nat
    decreases s.len(),
{
    if s.len() == 0 {
        0
    } else {
        digits_value(s.drop_last()) * 10 + (s.last() - 48) as nat
    }
}

/// The digits of an unsigned number written with an optional leading `+`.
pub open spec fn unsigned_digits(s: Seq<u8>) -> Seq<u8> {
    if s.len() > 0 && s[0] == 43 {
        s.drop_first()
    } else {
        s
    }
}

/// The value of `s` read as an unsigned decimal number: an optional `+`
/// followed by at least one digit and nothing else, at most `max`.
pub open spec fn parse_unsigned(s: Seq<u8>, max: nat) -> Option<nat> {
    let d = unsigned_digits(s);
    if d.len() > 0 && all_digits(d) && digits_value(d) <= max {
        Some(digits_value(d))
    } else {
        None
    }
}

proof fn lemma_digits_value_prefix(s: Seq<u8>, k: int)
    requires
        0 <= k <= s.len(),
        all_digits(s),
    ensures
        digits_value(s.take(k)) <= digits_value(s),
    decreases s.len() - k,
{
    if k < s.len() {
        lemma_digits_value_prefix(s, k + 1);
        assert(s.take(k + 1).drop_last() =~= s.take(k));
    } else {
        assert(s.take(k) =~= s);
    }
}

/// Reads `bytes` as an unsigned decimal number that fits in a `u32`, the way
/// `str::parse::<u32>` does.
pub fn parse_u32(bytes: &[u8]) -> (r: Option<u32>)
    ensures
        match r {
            Some(v) => parse_unsigned(bytes@, u32::MAX as nat) == Some(v as nat),
            None => parse_unsigned(bytes@, u32::MAX as nat) is None,
        },
{
    let len = bytes.len();
    let start: usize = if len > 0 && bytes[0] == 43 {
        1
    } else {
        0
    };
    let ghost d = unsigned_digits(bytes@);
    assert(d =~= bytes@.skip(start as int));
    if start == len {
        return None;
    }
    let mut val: u64 = 0;
    let mut i: usize = start;
    while i < len
        invariant
            start <= i <= len,
            len == bytes.len(),
            d =~= bytes@.skip(start as int),
            d == unsigned_digits(bytes@),
            all_digits(d.take(i - start)),
            val == digits_value(d.take(i - start)),
            val <= u32::MAX,
        decreases len - i,
    {
        let c = bytes[i];
        if c < 48 || c > 57 {
            assert(d[i - start] == c);
            assert(!is_digit(d[i - start]));
            assert(!all_digits(d));
            return None;
        }
        proof {
            assert(d.take(i - start + 1).drop_last() =~= d.take(i - start));
            assert(d.take(i - start + 1).last() == c);
        }
        val = val * 10 + (c - 48) as u64;
        i = i + 1;
        if val > 4294967295 {
            proof {
                let k = i - start;
                assert(val == digits_value(d.take(k)));
                if all_digits(d) {
                    lemma_digits_value_prefix(d, k);
                    assert(digits_value(d) > u32::MAX);
                }
            }
            return None;
        }
    }
    assert(d.take(len - start) =~= d);
    Some(val as u32)
}

/// Decimal digits of `n`, without leading zeros.
pub open spec fn decimal(n: nat) -> Seq<u8>
    decreases n,
{
    if n < 10 {
        seq![(48 + n) as u8]
    } else {
        decimal(n / 10).push((48 + n % 10) as u8)
    }
}

/// Appends the decimal digits of `n` to `buf`.
pub fn push_decimal(buf: &mut Vec<u8>, n: u32)
    ensures
        final(buf)@ == old(buf)@ + decimal(n as nat),
    decreases n,
{
    if n >= 10 {
        push_decimal(buf, n / 10);
    }
    buf.push((48 + n % 10) as u8);
}

/// Appends `bytes` to `buf`.
pub fn push_bytes(buf: &mut Vec<u8>, bytes: &[u8])
    ensures
        final(buf)@ == old(buf)@ + bytes@,
{
    let mut i: usize = 0;
    while i < bytes.len()
        invariant
            i <= bytes.len(),
            buf@ == old(buf)@ + bytes@.take(i as int),
        decreases bytes.len() - i,
    {
        buf.push(bytes[i]);
        i = i + 1;
        assert(bytes@.take(i as int) =~= bytes@.take(i - 1).push(bytes@[i - 1]));
    }
    assert(bytes@.take(i as int) =~= bytes@);
}

/// The value of a hexadecimal digit, either case.
pub open spec fn hex_digit(b: u8) -> Option<u8> {
    if 48 <= b <= 57 {
        Some((b - 48) as u8)
    } else if 97 <= b <= 102 {
        Some((b - 87) as u8)
    } else if 65 <= b <= 70 {
        Some((b - 55) as u8)
    } else {
        None
    }
}

/// The byte that a two-character chunk encodes when read as a hexadecimal
/// `u8`: two hex digits, or `+` and one hex digit.
pub open spec fn hex_pair(l: u8, r: u8) -> Option<u8> {
    if l == 43 {
        hex_digit(r)
    } else {
        match (hex_digit(l), hex_digit(r)) {
            (Some(a), Some(b)) => Some((16 * a + b) as u8),
            _ => None,
        }
    }
}

/// The bytes encoded by the first `k` two-character chunks of `s`.
pub open spec fn hex_prefix(s: Seq<u8>, k: nat) -> Option<Seq<u8>>
    decreases k,
{
    if k == 0 {
        Some(Seq::empty())
    } else {
        match hex_prefix(s, (k - 1) as nat) {
            None => None,
            Some(acc) => match hex_pair(s[2 * k - 2], s[2 * k - 1]) {
                None => None,
                Some(v) => Some(acc.push(v)),
            },
        }
    }
}

/// The bytes encoded by the complete chunks of `s`; an odd last byte is
/// ignored.
pub open spec fn hex_bytes(s: Seq<u8>) -> Option<Seq<u8>> {
    hex_prefix(s, s.len() / 2)
}

fn hex_digit_exec(b: u8) -> (r: Option<u8>)
    ensures
        r == hex_digit(b),
{
    if 48 <= b && b <= 57 {
        Some(b - 48)
    } else if 97 <= b && b <= 102 {
        Some(b - 87)
    } else if 65 <= b && b <= 70 {
        Some(b - 55)
    } else {
        None
    }
}

/// Reads a two-character chunk as a hexadecimal `u8`.
pub fn parse_hex_pair(l: u8, r: u8) -> (v: Option<u8>)
    ensures
        v == hex_pair(l, r),
{
    if l == 43 {
        hex_digit_exec(r)
    } else {
        match (hex_digit_exec(l), hex_digit_exec(r)) {
            (Some(a), Some(b)) => Some(16 * a + b),
            _ => None,
        }
    }
}

/// Decodes the complete two-character hexadecimal chunks of `s`.
pub fn decode_hex(s: &[u8]) -> (r: Option<Vec<u8>>)
    ensures
        match r {
            Some(v) => hex_bytes(s@) == Some(v@),
            None => hex_bytes(s@) is None,
        },
{
    let n = s.len() / 2;
    let mut vec: Vec<u8> = Vec::new();
    let mut i: usize = 0;
    while i < n
        invariant
            i <= n,
            n == s.len() / 2,
            hex_prefix(s@, i as nat) == Some(vec@),
        decreases n - i,
    {
        match parse_hex_pair(s[2 * i], s[2 * i + 1]) {
            None => {
                proof {
                    lemma_hex_prefix_none(s@, (i + 1) as nat, n as nat);
                }
                return None;
            },
            Some(v) => {
                vec.push(v);
            },
        }
        i = i + 1;
    }
    Some(vec)
}

proof fn lemma_hex_prefix_none(s: Seq<u8>, k: nat, n: nat)
    requires
        k <= n,
        hex_prefix(s, k) is None,
    ensures
        hex_prefix(s, n) is None,
    decreases n - k,
{
    if k < n {
        lemma_hex_prefix_none(s, k + 1, n);
    }
}

/// Decimal digits of `n`, with a leading `-` when it is negative.
pub open spec fn signed_decimal(n: int) -> Seq<u8> {
    if n < 0 {
        seq![45u8] + decimal((-n) as nat)
    } else {
        decimal(n as nat)
    }
}

/// Appends the decimal digits of `n`, with its sign, to `buf`.
pub fn push_signed_decimal(buf: &mut Vec<u8>, n: i64)
    requires
        -0x1_0000_0000 < n < 0x1_0000_0000,
    ensures
        final(buf)@ == old(buf)@ + signed_decimal(n as int),
{
    if n < 0 {
        buf.push(45);
        let ghost mid = buf@;
        push_decimal(buf, (-n) as u32);
        assert(buf@ =~= old(buf)@ + signed_decimal(n as int));
    } else {
        push_decimal(buf, n as u32);
    }
}

/// Whether two byte strings are equal.
pub fn bytes_equal(a: &[u8], b: &[u8]) -> (r: bool)
    ensures
        r == (a@ == b@),
{
    if a.len() != b.len() {
        return false;
    }
    let mut i: usize = 0;
    while i < a.len()
        invariant
            i <= a.len(),
            a.len() == b.len(),
            forall|j: int| 0 <= j < i ==> a@[j] == b@[j],
        decreases a.len() - i,
    {
        if a[i] != b[i] {
            return false;
        }
        i = i + 1;
    }
    assert(a@ =~= b@);
    true
}

/// Whether two strings are equal.
pub fn str_equal(a: &str, b: &str) -> (r: bool)
    ensures
        r == (a@ == b@),
{
    let r = bytes_equal(a.as_bytes(), b.as_bytes());
    proof {
        vstd::utf8::encode_utf8_decode_utf8(a@);
        vstd::utf8::encode_utf8_decode_utf8(b@);
    }
    r
}

} // verus!
