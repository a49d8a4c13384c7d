//! Utilities shared across modules.

use vstd::prelude::*;

use crate::error::{Code, Error, Result, Status};
use crate::outside;
use crate::text;
use crate::time::Duration;

verus! {

pub const MAX_IDENTIFIER_LEN: usize = 76;

pub open spec fn is_alnum(b: u8) -> bool {
    (48 <= b <= 57) || (65 <= b <= 90) || (97 <= b <= 122)
}

/// `.`, `-` or `_`.
pub open spec fn is_separator(b: u8) -> bool {
    b == 46 || b == 45 || b == 95
}

/// Containerd's identifier rules: 1 to 76 bytes, alphanumeric at both ends,
/// and inside them alphanumerics and separators, no two separators in a row.
pub open spec fn valid_identifier(s: Seq<u8>) -> bool {
    &&& 1 <= s.len() <= MAX_IDENTIFIER_LEN
    &&& is_alnum(s[0])
    &&& is_alnum(s.last())
    &&& forall|i: int| 0 <= i < s.len() ==> is_alnum(#[trigger] s[i]) || is_separator(s[i])
    &&& forall|i: int|
        1 <= i < s.len() ==> !(is_separator(#[trigger] s[i]) && is_separator(s[i - 1]))
}

/// What is wrong with the inside of an identifier at byte `i`, if anything.
pub open spec fn fault_at(s: Seq<u8>, i: int) -> bool {
    ||| !is_alnum(s[i]) && !is_separator(s[i])
    ||| is_separator(s[i]) && is_separator(s[i - 1])
}

/// The first byte inside an identifier, at or behind `i`, that breaks the
/// rules.
pub open spec fn first_fault(s: Seq<u8>, i: int) -> Option<int>
    decreases s.len() - i,
{
    if i >= s.len() - 1 {
        None
    } else if fault_at(s, i) {
        Some(i)
    } else {
        first_fault(s, i + 1)
    }
}

/// The message of a rejected identifier.
pub open spec fn identifier_complaint(id: Seq<char>) -> Seq<char> {
    let s = text::utf8(id);
    let shown = outside::debug_text(id);
    if s.len() == 0 {
        "identifier must not be empty"@
    } else if s.len() > MAX_IDENTIFIER_LEN {
        "identifier exceeds 76 characters: "@ + shown
    } else if !is_alnum(s[0]) || !is_alnum(s.last()) {
        "identifier must start and end with an alphanumeric: "@ + shown
    } else {
        match first_fault(s, 1) {
            Some(i) => if is_separator(s[i]) {
                "identifier contains consecutive separators: "@ + shown
            } else {
                "identifier contains invalid character "@ + outside::debug_char_text(s[i] as char)
                    + ": "@ + shown
            },
            None => Seq::empty(),
        }
    }
}

proof fn lemma_first_fault(s: Seq<u8>, i: int)
    requires
        1 <= i,
    ensures
        match first_fault(s, i) {
            Some(k) => i <= k < s.len() - 1 && fault_at(s, k),
            None => forall|j: int| i <= j < s.len() - 1 ==> !#[trigger] fault_at(s, j),
        },
    decreases s.len() - i,
{
    if i < s.len() - 1 && !fault_at(s, i) {
        lemma_first_fault(s, i + 1);
    }
}

/// An identifier without a fault is valid, and one with a fault is not.
proof fn lemma_valid_iff_no_fault(s: Seq<u8>)
    requires
        1 <= s.len() <= MAX_IDENTIFIER_LEN,
        is_alnum(s[0]),
        is_alnum(s.last()),
    ensures
        valid_identifier(s) == (first_fault(s, 1) is None),
{
    lemma_first_fault(s, 1);
    match first_fault(s, 1) {
        Some(k) => {
            assert(fault_at(s, k));
            if is_separator(s[k]) {
                assert(is_separator(s[k]) && is_separator(s[k - 1]));
            }
            assert(!valid_identifier(s));
        },
        None => {
            assert forall|i: int| 0 <= i < s.len() implies is_alnum(#[trigger] s[i])
                || is_separator(s[i]) by {
                if 1 <= i < s.len() - 1 {
                    assert(!fault_at(s, i));
                }
            }
            assert forall|i: int| 1 <= i < s.len() implies !(is_separator(#[trigger] s[i])
                && is_separator(s[i - 1])) by {
                if i < s.len() - 1 {
                    assert(!fault_at(s, i));
                }
            }
        },
    }
}

fn ascii_alnum(b: u8) -> (yes: bool)
    ensures
        yes == is_alnum(b),
{
    (48 <= b && b <= 57) || (65 <= b && b <= 90) || (97 <= b && b <= 122)
}

fn ascii_separator(b: u8) -> (yes: bool)
    ensures
        yes == is_separator(b),
{
    b == 46 || b == 45 || b == 95
}

fn complaint(reason: &str, id: &str) -> (e: Error)
    ensures
        e@ == crate::error::ErrorSpec::InvalidArgument(reason@ + outside::debug_text(id@)),
{
    let mut message = String::from_str(reason);
    message.append(outside::debug_str(id).as_str());
    Error::InvalidArgument(message)
}

/// Validates a containerd identifier (1-76 chars, alnum at boundaries,
/// `.`/`_`/`-` as internal separators with no doubles). Matches containerd's
/// own rules.
pub fn validate_identifier(id: &str) -> (out: Result<()>)
    ensures
        match out {
            Ok(_) => valid_identifier(text::utf8(id@)),
            Err(e) => !valid_identifier(text::utf8(id@)) && e@
                == crate::error::ErrorSpec::InvalidArgument(identifier_complaint(id@)),
        },
{
    let bytes = id.as_bytes();
    let n: usize = bytes.len();
    let ghost s = text::utf8(id@);
    if n == 0 {
        return Err(Error::InvalidArgument(String::from_str("identifier must not be empty")));
    }
    if n > MAX_IDENTIFIER_LEN {
        return Err(complaint("identifier exceeds 76 characters: ", id));
    }
    if !ascii_alnum(bytes[0]) || !ascii_alnum(bytes[n - 1]) {
        return Err(complaint("identifier must start and end with an alphanumeric: ", id));
    }
    proof {
        lemma_valid_iff_no_fault(s);
    }
    let mut prev_sep = false;
    let mut i: usize = 1;
    while i < n - 1
        invariant
            n == s.len(),
            bytes@ == s,
            s == text::utf8(id@),
            1 <= i,
            n <= MAX_IDENTIFIER_LEN,
            n >= 1,
            i <= n,
            i <= n - 1 || n == 1,
            is_alnum(s[0]),
            is_alnum(s.last()),
            prev_sep == is_separator(s[i - 1]),
            first_fault(s, i as int) == first_fault(s, 1),
            valid_identifier(s) == (first_fault(s, 1) is None),
        decreases n - i,
    {
        let b: u8 = bytes[i];
        if ascii_alnum(b) {
            prev_sep = false;
        } else if ascii_separator(b) {
            if prev_sep {
                return Err(complaint("identifier contains consecutive separators: ", id));
            }
            prev_sep = true;
        } else {
            let mut message = String::from_str("identifier contains invalid character ");
            message.append(outside::debug_char(b as char).as_str());
            message.append(": ");
            message.append(outside::debug_str(id).as_str());
            return Err(Error::InvalidArgument(message));
        }
        i = i + 1;
    }
    Ok(())
}

/// A valid identifier holds nothing but letters, digits, `.`, `_` and `-`: no
/// path separator, no shell metacharacter, no `..`.
pub proof fn law_identifier_is_inert(s: Seq<u8>)
    requires
        valid_identifier(s),
    ensures
        forall|i: int| 0 <= i < s.len() ==> (#[trigger] s[i]) < 128 && s[i] != 47,
        forall|i: int|
            0 <= i < s.len() ==> !set![
                9u8,
                10u8,
                32u8,
                33u8,
                34u8,
                35u8,
                36u8,
                38u8,
                39u8,
                40u8,
                41u8,
                42u8,
                59u8,
                60u8,
                62u8,
                63u8,
                92u8,
                96u8,
                123u8,
                124u8,
                125u8,
                126u8,
            ].contains(#[trigger] s[i]),
        forall|i: int| 1 <= i < s.len() ==> !((#[trigger] s[i]) == 46 && s[i - 1] == 46),
{
    assert forall|i: int| 1 <= i < s.len() implies !((#[trigger] s[i]) == 46 && s[i - 1]
        == 46) by {
        assert(!(is_separator(s[i]) && is_separator(s[i - 1])));
    }
}

/// What makes an identifier: one letter or digit is one, two are one when put
/// together, directly or with a dot, a hyphen or an underscore between, as long
/// as that is no longer than 76 bytes.
pub proof fn law_identifiers_combine(a: Seq<u8>, b: Seq<u8>, c: u8)
    ensures
        valid_identifier(seq![c]) <==> (48 <= c <= 57) || (65 <= c <= 90) || (97 <= c <= 122),
        valid_identifier(a) && valid_identifier(b) && a.len() + b.len() <= 76
            ==> valid_identifier(a + b),
        valid_identifier(a) && valid_identifier(b) && a.len() + b.len() < 76 && (c == 46 || c == 45
            || c == 95) ==> valid_identifier(a.push(c) + b),
{
    if valid_identifier(a) && valid_identifier(b) {
        let n = a.len() as int;
        let ab = a + b;
        assert(ab[0] == a[0]);
        assert(ab.last() == b.last());
        assert forall|i: int| 0 <= i < ab.len() implies is_alnum(#[trigger] ab[i]) || is_separator(
            ab[i],
        ) by {
            assert(ab[i] == if i < n { a[i] } else { b[i - n] });
        }
        assert forall|i: int| 1 <= i < ab.len() implies !(is_separator(#[trigger] ab[i])
            && is_separator(ab[i - 1])) by {
            if i < n {
                assert(ab[i] == a[i] && ab[i - 1] == a[i - 1]);
            } else if i == n {
                assert(ab[i] == b[0]);
            } else {
                assert(ab[i] == b[i - n] && ab[i - 1] == b[i - n - 1]);
            }
        }
        if c == 46 || c == 45 || c == 95 {
            let acb = a.push(c) + b;
            assert(acb[0] == a[0]);
            assert(acb.last() == b.last());
            assert forall|i: int| 0 <= i < acb.len() implies is_alnum(#[trigger] acb[i])
                || is_separator(acb[i]) by {
                if i < n {
                    assert(acb[i] == a[i]);
                } else if i > n {
                    assert(acb[i] == b[i - n - 1]);
                }
            }
            assert forall|i: int| 1 <= i < acb.len() implies !(is_separator(#[trigger] acb[i])
                && is_separator(acb[i - 1])) by {
                if i < n {
                    assert(acb[i] == a[i] && acb[i - 1] == a[i - 1]);
                } else if i == n {
                    assert(acb[i - 1] == a.last());
                } else if i == n + 1 {
                    assert(acb[i] == b[0]);
                } else {
                    assert(acb[i] == b[i - n - 1] && acb[i - 1] == b[i - n - 2]);
                }
            }
        }
    }
}

/// What is no identifier: nothing at all, more than 76 bytes, a separator or
/// anything else but a letter or a digit at either end, two separators in a row
/// anywhere, or any other byte anywhere.
pub proof fn law_identifier_refusals(s: Seq<u8>, i: int)
    ensures
        s.len() == 0 || s.len() > 76 ==> !valid_identifier(s),
        0 <= i < s.len() && !((48 <= s[i] <= 57) || (65 <= s[i] <= 90) || (97 <= s[i] <= 122)) && (i
            == 0 || i == s.len() - 1) ==> !valid_identifier(s),
        0 <= i < s.len() && !((48 <= s[i] <= 57) || (65 <= s[i] <= 90) || (97 <= s[i] <= 122) || s[i]
            == 46 || s[i] == 45 || s[i] == 95) ==> !valid_identifier(s),
        1 <= i < s.len() && (s[i] == 46 || s[i] == 45 || s[i] == 95) && (s[i - 1] == 46 || s[i - 1]
            == 45 || s[i - 1] == 95) ==> !valid_identifier(s),
{
    if valid_identifier(s) {
        if 0 <= i < s.len() {
            assert(is_alnum(s[i]) || is_separator(s[i]));
        }
        if 1 <= i < s.len() {
            assert(!(is_separator(s[i]) && is_separator(s[i - 1])));
        }
    }
}

/// What is wrong with an identifier is told by the first rule that it breaks,
/// and every complaint but that about an empty one shows the identifier.
pub proof fn law_identifier_complaint(id: Seq<char>)
    ensures
        ({
            let s = text::utf8(id);
            let shown = outside::debug_text(id);
            let said = identifier_complaint(id);
            let ends = is_alnum(s[0]) && is_alnum(s.last());
            &&& s.len() == 0 ==> said == "identifier must not be empty"@
            &&& s.len() > 76 ==> said == "identifier exceeds 76 characters: "@ + shown
            &&& 1 <= s.len() <= 76 && !ends ==> said
                == "identifier must start and end with an alphanumeric: "@ + shown
            &&& 1 <= s.len() <= 76 && ends && !valid_identifier(s) ==> exists|k: int|
                1 <= k < s.len() - 1 && #[trigger] fault_at(s, k) && said == if is_separator(
                    s[k],
                ) {
                    "identifier contains consecutive separators: "@ + shown
                } else {
                    "identifier contains invalid character "@ + outside::debug_char_text(
                        s[k] as char,
                    ) + ": "@ + shown
                }
        }),
{
    let s = text::utf8(id);
    if 1 <= s.len() <= 76 && is_alnum(s[0]) && is_alnum(s.last()) {
        lemma_valid_iff_no_fault(s);
        lemma_first_fault(s, 1);
        if first_fault(s, 1) is Some {
            assert(fault_at(s, first_fault(s, 1)->0));
        }
    }
}

/// Maps a gRPC status to an error with an operation tag.
pub fn into_crate_error(status: Status, op: &'static str) -> (e: Error)
    ensures
        e@ == (crate::error::ErrorSpec::Containerd { op: op@, source: status@ }),
{
    Error::Containerd { op, source: status }
}

/// The error of a failed image-resolution call.
pub open spec fn image_error(
    op: Seq<char>,
    image: Seq<char>,
    status: crate::error::StatusSpec,
) -> crate::error::ErrorSpec {
    if status.code == Code::NotFound {
        crate::error::ErrorSpec::ImageNotFound(image)
    } else {
        crate::error::ErrorSpec::Containerd { op, source: status }
    }
}

/// An image is reported missing exactly if containerd did not find it; any other
/// refusal is passed on.
pub proof fn law_image_error(
    op: Seq<char>,
    image: Seq<char>,
    status: crate::error::StatusSpec,
)
    ensures
        image_error(op, image, status) is ImageNotFound <==> status.code == Code::NotFound,
        image_error(op, image, status) matches crate::error::ErrorSpec::ImageNotFound(missing)
            ==> missing == image,
        status.code != Code::NotFound ==> (image_error(
            op,
            image,
            status,
        ) matches crate::error::ErrorSpec::Containerd { op: failed, source } && failed == op
            && source == status),
{
}

/// Maps a gRPC status from an image-resolution call to an error, turning
/// `NotFound` into the typed [`Error::ImageNotFound`] and leaving other codes
/// generic.
pub fn map_image_status(op: &'static str, image: &str, status: Status) -> (e: Error)
    ensures
        e@ == image_error(op@, image@, status@),
{
    if status.code == Code::NotFound {
        Error::ImageNotFound(String::from_str(image))
    } else {
        into_crate_error(status, op)
    }
}

/// What a poll loop does next.
#[derive(Debug, Clone, Copy, PartialEq, Eq, Structural)]
pub enum PollVerdict {
    /// The deadline has passed.
    TimedOut,
    /// The condition holds.
    Ready,
    /// Sleep for the interval and ask again.
    Again,
}

/// Decides one round of polling, from the time since the start and, where the
/// deadline has not passed, from whether the condition holds.
pub fn poll_until(elapsed: Duration, timeout: Duration, holds: bool) -> (v: PollVerdict)
    ensures
        v == if elapsed.nanos() > timeout.nanos() {
            PollVerdict::TimedOut
        } else if holds {
            PollVerdict::Ready
        } else {
            PollVerdict::Again
        },
{
    if elapsed.exceeds(&timeout) {
        PollVerdict::TimedOut
    } else if holds {
        PollVerdict::Ready
    } else {
        PollVerdict::Again
    }
}

/// Tags the failure of a gRPC call with its operation.
pub fn rpc_result<T>(op: &'static str, reply: core::result::Result<T, Status>) -> (out: Result<T>)
    ensures
        match reply {
            Ok(v) => out == Ok::<T, Error>(v),
            Err(status) => out matches Err(e) && e@ == (crate::error::ErrorSpec::Containerd {
                op: op@,
                source: status@,
            }),
        },
{
    match reply {
        Ok(v) => Ok(v),
        Err(status) => Err(into_crate_error(status, op)),
    }
}

} // verus!
