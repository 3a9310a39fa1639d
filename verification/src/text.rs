//! Byte and character helpers used by the error classifier and the URL check.

use vstd::prelude::*;

verus! {

/// The ASCII lowercase mapping of one byte: `A..=Z` become `a..=z`, every
/// other byte is left as it is.
pub open spec fn ascii_lower(b: u8) -> u8 {
    if 65 <= b <= 90 {
        (b + 32) as u8
    } else {
        b
    }
}

/// A byte string with every ASCII uppercase letter lowered.
pub open spec fn to_ascii_lowercase(s: Seq<u8>) -> Seq<u8> {
    s.map_values(|b: u8| ascii_lower(b))
}

/// `needle` occurs as a contiguous run of `hay`.
pub open spec fn contains_bytes(hay: Seq<u8>, needle: Seq<u8>) -> bool {
    exists|i: int|
        0 <= i && i + needle.len() <= hay.len() && #[trigger] hay.subrange(i, i + needle.len())
            == needle
}

/// The UTF-8 bytes of a character sequence.
pub open spec fn utf8(s: Seq<char>) -> Seq<u8> {
    vstd::utf8::encode_utf8(s)
}

/// The scheme prefix that every WebTransport URL carries.
pub open spec fn https_scheme() -> Seq<char> {
    seq!['h', 't', 't', 'p', 's', ':', '/', '/']
}

/// `s` begins with `prefix`.
pub open spec fn starts_with(s: Seq<char>, prefix: Seq<char>) -> bool {
    prefix.len() <= s.len() && s.subrange(0, prefix.len() as int) == prefix
}

/// Whether the lowercased `hay` contains `needle`, the way
/// `hay.to_ascii_lowercase().contains(needle)` answers it.
pub fn contains_ignore_ascii_case(hay: &[u8], needle: &[u8]) -> (r: bool)
    ensures
        r == contains_bytes(to_ascii_lowercase(hay@), needle@),
{
    let ghost low = to_ascii_lowercase(hay@);
    if needle.len() > hay.len() {
        assert forall|i: int|
            0 <= i && i + needle@.len() <= low.len() implies #[trigger] low.subrange(
            i,
            i + needle@.len(),
        ) != needle@ by {}
        return false;
    }
    let last = hay.len() - needle.len();
    let mut i: usize = 0;
    while i <= last
        invariant
            last == hay.len() - needle.len(),
            needle.len() <= hay.len(),
            i <= last + 1,
            low == to_ascii_lowercase(hay@),
            forall|k: int| 0 <= k < i ==> #[trigger] low.subrange(k, k + needle@.len()) != needle@,
        decreases last + 1 - i,
    {
        let mut j: usize = 0;
        let mut same = true;
        while j < needle.len()
            invariant
                i <= last,
                last == hay.len() - needle.len(),
                j <= needle.len(),
                low == to_ascii_lowercase(hay@),
                same == (forall|m: int| 0 <= m < j ==> low[i + m] == needle@[m]),
            decreases needle.len() - j,
        {
            let b = hay[i + j];
            let lowered: u8 = if 65 <= b && b <= 90 {
                b + 32
            } else {
                b
            };
            if lowered != needle[j] {
                same = false;
            }
            j = j + 1;
        }
        if same {
            assert(low.subrange(i as int, i + needle@.len()) =~= needle@);
            return true;
        }
        let ghost witness = choose|m: int| 0 <= m < needle@.len() && low[i + m] != needle@[m];
        assert(low.subrange(i as int, i + needle@.len())[witness] != needle@[witness]);
        i = i + 1;
    }
    false
}

/// Whether `s` begins with `https://`.
pub fn has_https_scheme(s: &str) -> (r: bool)
    ensures
        r == starts_with(s@, https_scheme()),
{
    let n = s.unicode_len();
    if n < 8 {
        return false;
    }
    let expected: [char; 8] = ['h', 't', 't', 'p', 's', ':', '/', '/'];
    let mut i: usize = 0;
    while i < 8
        invariant
            n == s@.len(),
            8 <= n,
            i <= 8,
            expected@ == https_scheme(),
            forall|k: int| 0 <= k < i ==> s@[k] == https_scheme()[k],
        decreases 8 - i,
    {
        if s.get_char(i) != expected[i] {
            assert(s@.subrange(0, 8)[i as int] != https_scheme()[i as int]);
            return false;
        }
        i = i + 1;
    }
    assert(s@.subrange(0, 8) =~= https_scheme());
    true
}

/// Whether two strings hold the same characters.
pub fn same_text(a: &str, b: &str) -> (r: bool)
    ensures
        r == (a@ == b@),
{
    let n = a.unicode_len();
    let m = b.unicode_len();
    if n != m {
        return false;
    }
    let mut i: usize = 0;
    while i < n
        invariant
            n == a@.len(),
            m == b@.len(),
            n == m,
            i <= n,
            forall|k: int| 0 <= k < i ==> a@[k] == b@[k],
        decreases n - i,
    {
        if a.get_char(i) != b.get_char(i) {
            return false;
        }
        i = i + 1;
    }
    assert(a@ =~= b@);
    true
}

/// The value of a run of decimal digits.
pub open spec fn decimal_value(d: Seq<char>) -> int
    decreases d.len(),
{
    if d.len() == 0 {
        0
    } else {
        10 * decimal_value(d.drop_last()) + (d.last() as int - '0' as int)
    }
}

/// Every character is an ASCII digit.
pub open spec fn all_digits(d: Seq<char>) -> bool {
    forall|i: int| 0 <= i < d.len() ==> '0' <= #[trigger] d[i] <= '9'
}

/// What parsing `s` as an unsigned 64-bit decimal number gives: an
/// optional `+`, then at least one digit, and a value that fits.
pub open spec fn parse_u64_spec(s: Seq<char>) -> Option<u64> {
    let digits = if s.len() > 0 && s[0] == '+' {
        s.drop_first()
    } else {
        s
    };
    if digits.len() == 0 || !all_digits(digits) || decimal_value(digits) > u64::MAX {
        None
    } else {
        Some(decimal_value(digits) as u64)
    }
}

proof fn lemma_decimal_value_monotone(d: Seq<char>)
    requires
        all_digits(d),
        d.len() > 0,
    ensures
        decimal_value(d) >= decimal_value(d.drop_last()),
        decimal_value(d) >= 0,
    decreases d.len(),
{
    if d.len() > 1 {
        lemma_decimal_value_monotone(d.drop_last());
    }
}

proof fn lemma_decimal_prefix_bound(d: Seq<char>, i: int)
    requires
        all_digits(d),
        0 <= i <= d.len(),
    ensures
        0 <= decimal_value(d.take(i)) <= decimal_value(d),
    decreases d.len() - i,
{
    if i < d.len() {
        lemma_decimal_prefix_bound(d, i + 1);
        assert(d.take(i + 1).drop_last() =~= d.take(i));
        assert(all_digits(d.take(i + 1)));
        lemma_decimal_value_monotone(d.take(i + 1));
    } else {
        assert(d.take(i) =~= d);
        if d.len() > 0 {
            lemma_decimal_value_monotone(d);
        }
    }
}

/// Parses `s` as an unsigned 64-bit decimal number, the way `str::parse`
/// does for `u64`.
pub fn parse_u64(s: &str) -> (r: Option<u64>)
    ensures
        r == parse_u64_spec(s@),
{
    let n = s.unicode_len();
    let start: usize = if n > 0 && s.get_char(0) == '+' {
        1
    } else {
        0
    };
    let ghost digits = s@.skip(start as int);
    proof {
        if n > 0 && s@[0] == '+' {
            assert(digits =~= s@.drop_first());
        } else {
            assert(digits =~= s@);
        }
    }
    if start == n {
        return None;
    }
    let mut value: u64 = 0;
    let mut i: usize = start;
    while i < n
        invariant
            n == s@.len(),
            start <= i <= n,
            digits == s@.skip(start as int),
            digits == (if s@.len() > 0 && s@[0] == '+' {
                s@.drop_first()
            } else {
                s@
            }),
            all_digits(digits.take(i - start)),
            value == decimal_value(digits.take(i - start)),
        decreases n - i,
    {
        let c = s.get_char(i);
        let ghost prefix = digits.take(i - start);
        let ghost next = digits.take(i + 1 - start);
        assert(next.drop_last() =~= prefix);
        assert(next.last() == c);
        if !('0' <= c && c <= '9') {
            assert(!all_digits(digits)) by {
                assert(digits[i - start] == c);
            }
            return None;
        }
        let digit = (c as u32 - '0' as u32) as u64;
        if value > (u64::MAX - digit) / 10 {
            proof {
                assert(all_digits(next));
                assert(decimal_value(next) > u64::MAX) by (nonlinear_arith)
                    requires
                        decimal_value(next) == 10 * value + digit,
                        value > (u64::MAX - digit) / 10,
                        digit <= 9,
                ;
                if all_digits(digits) {
                    lemma_decimal_prefix_bound(digits, i + 1 - start);
                }
            }
            return None;
        }
        assert(10 * value + digit <= u64::MAX) by (nonlinear_arith)
            requires
                value <= (u64::MAX - digit) / 10,
                digit <= 9,
        ;
        value = 10 * value + digit;
        i = i + 1;
    }
    assert(digits.take(n - start) =~= digits);
    Some(value)
}

} // verus!
