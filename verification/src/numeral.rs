//! Decimal numerals, written and read as ASCII bytes.

use vstd::prelude::*;

use crate::text;

verus! {

broadcast use vstd::seq_lib::group_seq_properties;

/// The decimal digits of `n`, most significant first, without leading zeros.
pub open spec fn digits(n: nat) -> Seq<u8>
    decreases n,
{
    if n < 10 {
        seq![(48 + n) as u8]
    } else {
        digits(n / 10).push((48 + n % 10) as u8)
    }
}

/// The decimal digits of `n` as characters.
pub open spec fn decimal(n: nat) -> Seq<char>
    decreases n,
{
    if n < 10 {
        seq![(48 + n) as char]
    } else {
        decimal(n / 10).push((48 + n % 10) as char)
    }
}

pub open spec fn is_digit(b: u8) -> bool {
    48 <= b <= 57
}

pub open spec fn all_digits(s: Seq<u8>) -> bool {
    forall|i: int| 0 <= i < s.len() ==> is_digit(#[trigger] s[i])
}

/// The number that a run of digits denotes.
pub open spec fn value(s: Seq<u8>) -> nat
    decreases s.len(),
{
    if s.len() == 0 {
        0
    } else {
        10 * value(s.drop_last()) + (s.last() - 48) as nat
    }
}

/// The digits of a numeral behind an optional leading `+`.
pub open spec fn unsigned_part(s: Seq<u8>) -> Seq<u8> {
    if s.len() > 0 && s[0] == 43 {
        s.skip(1)
    } else {
        s
    }
}

/// The number that `s` denotes, if `s` is an unsigned numeral (one or more
/// digits, after an optional `+`) that is at most `max`.
pub open spec fn parsed(s: Seq<u8>, max: nat) -> Option<nat> {
    let body = unsigned_part(s);
    if body.len() > 0 && all_digits(body) && value(body) <= max {
        Some(value(body))
    } else {
        None
    }
}

/// Digits denote the number that they were written from.
pub proof fn lemma_digits(n: nat)
    ensures
        digits(n).len() > 0,
        all_digits(digits(n)),
        value(digits(n)) == n,
    decreases n,
{
    reveal_with_fuel(value, 2);
    if n < 10 {
        let s = digits(n);
        assert(s.drop_last() =~= Seq::<u8>::empty());
        assert(s.last() == (48 + n) as u8);
    } else {
        lemma_digits(n / 10);
        let s = digits(n);
        assert(s.drop_last() =~= digits(n / 10));
        assert(s.last() == (48 + n % 10) as u8);
        assert forall|i: int| 0 <= i < s.len() implies is_digit(#[trigger] s[i]) by {
            if i < s.len() - 1 {
                assert(s[i] == digits(n / 10)[i]);
            }
        }
    }
}

/// Reading back the digits of `n` gives `n`, wherever `n` is within bounds.
pub proof fn lemma_parsed_digits(n: nat, max: nat)
    requires
        n <= max,
    ensures
        parsed(digits(n), max) == Some(n),
{
    lemma_digits(n);
    assert(is_digit(digits(n)[0]));
}

/// Digits count in tens: one more digit makes a number ten times as large and
/// adds the digit, in what is written and in what is read.
pub proof fn law_decimal_places(n: nat, d: nat, s: Seq<u8>)
    requires
        d < 10,
    ensures
        digits(d) == seq![(48 + d) as u8],
        decimal(d) == seq![(48 + d) as char],
        n > 0 ==> digits(10 * n + d) == digits(n).push((48 + d) as u8),
        n > 0 ==> decimal(10 * n + d) == decimal(n).push((48 + d) as char),
        value(Seq::empty()) == 0,
        value(s.push((48 + d) as u8)) == 10 * value(s) + d,
{
    assert(s.push((48 + d) as u8).drop_last() =~= s);
    assert((10 * n + d) / 10 == n);
    assert((10 * n + d) % 10 == d);
}

/// A numeral is read exactly if it consists of digits, at least one, behind an
/// optional plus sign, and is within bounds; the sign makes no difference.
pub proof fn law_parsed(s: Seq<u8>, max: nat, n: nat)
    requires
        s.len() == 0 || s[0] != 43,
    ensures
        parsed(s, max) == Some(n) <==> {
            &&& s.len() > 0
            &&& forall|i: int| 0 <= i < s.len() ==> 48 <= #[trigger] s[i] <= 57
            &&& value(s) == n
            &&& n <= max
        },
        parsed(seq![43u8] + s, max) == parsed(s, max),
        parsed(digits(n), max) == if n <= max {
            Some(n)
        } else {
            None
        },
{
    assert((seq![43u8] + s).skip(1) =~= s);
    lemma_digits(n);
    assert(is_digit(digits(n)[0]));
    if s.len() > 0 && parsed(s, max) is Some {
        assert forall|i: int| 0 <= i < s.len() implies 48 <= #[trigger] s[i] <= 57 by {
            assert(is_digit(s[i]));
        }
    }
}

/// Digits and characters of a numeral agree.
pub proof fn lemma_decimal(n: nat)
    ensures
        text::utf8(decimal(n)) == digits(n),
        decimal(n).len() > 0,
        forall|i: int| 0 <= i < decimal(n).len() ==> '0' <= #[trigger] decimal(n)[i] <= '9',
{
    lemma_digits(n);
    lemma_decimal_digits(n);
    assert forall|i: int| 0 <= i < decimal(n).len() implies '0' <= #[trigger] decimal(n)[i]
        <= '9' by {
        assert(is_digit(digits(n)[i]));
    }
    lemma_ascii_utf8(decimal(n), digits(n));
}

proof fn lemma_decimal_digits(n: nat)
    ensures
        decimal(n).len() == digits(n).len(),
        forall|i: int|
            0 <= i < decimal(n).len() ==> (#[trigger] decimal(n)[i]) == digits(n)[i] as char
                && digits(n)[i] < 128,
    decreases n,
{
    if n >= 10 {
        lemma_decimal_digits(n / 10);
        assert forall|i: int| 0 <= i < decimal(n).len() implies (#[trigger] decimal(n)[i])
            == digits(n)[i] as char && digits(n)[i] < 128 by {
            if i < decimal(n / 10).len() {
                assert(decimal(n)[i] == decimal(n / 10)[i]);
                assert(digits(n)[i] == digits(n / 10)[i]);
            }
        }
    }
}

/// The UTF-8 bytes of ASCII characters are their codes.
pub proof fn lemma_ascii_utf8(chars: Seq<char>, bytes: Seq<u8>)
    requires
        chars.len() == bytes.len(),
        forall|i: int|
            0 <= i < chars.len() ==> (#[trigger] chars[i]) == bytes[i] as char && bytes[i] < 128,
    ensures
        text::utf8(chars) == bytes,
{
    assert(vstd::utf8::is_ascii_chars(chars)) by {
        assert forall|i: int| 0 <= i < chars.len() implies '\0' <= #[trigger] chars[i]
            <= '\u{7f}' by {}
    }
    vstd::utf8::is_ascii_chars_encode_utf8(chars);
    assert(text::utf8(chars) =~= bytes);
}

/// A run of digits never denotes less than its beginning does.
proof fn lemma_value_prefix(s: Seq<u8>, k: int)
    requires
        0 <= k <= s.len(),
    ensures
        value(s.take(k)) <= value(s),
    decreases s.len() - k,
{
    if k == s.len() {
        assert(s.take(k) =~= s);
    } else {
        lemma_value_prefix(s, k + 1);
        assert(s.take(k + 1).drop_last() =~= s.take(k));
    }
}

/// Appends the decimal digits of `n` to `buf`.
pub fn push_digits(buf: &mut Vec<u8>, n: u64)
    ensures
        final(buf)@ == old(buf)@ + digits(n as nat),
    decreases n,
{
    if n < 10 {
        buf.push(48 + n as u8);
        assert(buf@ =~= old(buf)@ + digits(n as nat));
    } else {
        push_digits(buf, n / 10);
        buf.push(48 + (n % 10) as u8);
        assert(buf@ =~= old(buf)@ + digits(n as nat));
    }
}

/// Appends the decimal digits of `n` to `s`.
pub fn push_decimal(s: &mut String, n: u64)
    ensures
        final(s)@ == old(s)@ + decimal(n as nat),
    decreases n,
{
    if n < 10 {
        s.push((48 + n as u8) as char);
        assert(s@ =~= old(s)@ + decimal(n as nat));
    } else {
        push_decimal(s, n / 10);
        s.push((48 + (n % 10) as u8) as char);
        assert(s@ =~= old(s)@ + decimal(n as nat));
    }
}

/// Writes `n` in decimal.
pub fn to_decimal(n: u64) -> (s: String)
    ensures
        s@ == decimal(n as nat),
{
    let mut s = String::new();
    push_decimal(&mut s, n);
    assert(s@ =~= decimal(n as nat));
    s
}

/// Reads an unsigned numeral that is at most `max`: digits, after an optional
/// `+`.
pub fn parse_unsigned(s: &[u8], max: u64) -> (n: Option<u64>)
    ensures
        match n {
            Some(v) => parsed(s@, max as nat) == Some(v as nat),
            None => parsed(s@, max as nat) is None,
        },
{
    let len: usize = s.len();
    let start: usize = if len > 0 && s[0] == 43 {
        1
    } else {
        0
    };
    let ghost body = unsigned_part(s@);
    assert(body =~= s@.skip(start as int));
    if start == len {
        return None;
    }
    let mut acc: u64 = 0;
    let mut i: usize = start;
    while i < len
        invariant
            start <= i <= len,
            len == s@.len(),
            start <= 1,
            body == s@.skip(start as int),
            body == unsigned_part(s@),
            acc == value(body.take(i - start)),
            acc <= max,
            forall|j: int| 0 <= j < i - start ==> is_digit(#[trigger] body[j]),
        decreases len - i,
    {
        let b: u8 = s[i];
        assert(b == body[i - start]);
        if b < 48 || b > 57 {
            assert(!is_digit(body[i - start]));
            return None;
        }
        let d: u64 = (b - 48) as u64;
        let ghost upto = body.take(i - start + 1);
        assert(upto.drop_last() =~= body.take(i - start));
        assert(value(upto) == 10 * acc + d);
        if acc > max / 10 || d > max - 10 * acc {
            proof {
                lemma_value_prefix(body, i - start + 1);
                assert(value(upto) > max);
            }
            return None;
        }
        acc = 10 * acc + d;
        i = i + 1;
    }
    assert(body.take(len - start) =~= body);
    Some(acc)
}

/// Reads an unsigned numeral out of a string.
pub fn parse_unsigned_str(s: &str, max: u64) -> (n: Option<u64>)
    ensures
        match n {
            Some(v) => parsed(text::utf8(s@), max as nat) == Some(v as nat),
            None => parsed(text::utf8(s@), max as nat) is None,
        },
{
    parse_unsigned(s.as_bytes(), max)
}

} // verus!
