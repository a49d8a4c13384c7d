//! The functions of other crates that the library calls, with what it relies
//! on of each.

use bytes::Bytes;
use sha2::Digest;
use vstd::prelude::*;

verus! {

/// `bytes::Bytes`: an immutable, reference-counted run of bytes.
#[verifier::external_type_specification]
#[verifier::external_body]
pub struct ExBytes(bytes::Bytes);

/// The bytes that a `bytes::Bytes` holds.
pub uninterp spec fn contents(b: Bytes) -> Seq<u8>;

/// `bytes::Bytes::from(Vec<u8>)` holds the bytes of the vector.
#[verifier::external_body]
pub(crate) fn bytes_from_vec(data: Vec<u8>) -> (b: Bytes)
    ensures
        contents(b) == data@,
{
    Bytes::from(data)
}

/// `bytes::Bytes::slice` shares the part of the buffer from `start` up to but
/// not including `end`. It panics unless `start <= end <= len`.
#[verifier::external_body]
pub(crate) fn bytes_slice(b: &Bytes, start: usize, end: usize) -> (part: Bytes)
    requires
        start <= end <= contents(*b).len(),
    ensures
        contents(part) == contents(*b).subrange(start as int, end as int),
{
    b.slice(start..end)
}

/// `<bytes::Bytes as AsRef<[u8]>>::as_ref` gives the bytes as a slice.
#[verifier::external_body]
pub(crate) fn bytes_as_slice(b: &Bytes) -> (data: &[u8])
    ensures
        data@ == contents(*b),
{
    b.as_ref()
}

/// `<bytes::Bytes as Clone>::clone` gives another handle on the same bytes.
pub assume_specification[ <bytes::Bytes as Clone>::clone ](b: &Bytes) -> (copy: Bytes)
    ensures
        contents(copy) == contents(*b),
;

/// `memchr::memchr_iter` walks the positions of `needle` in `haystack`: all of
/// them, each once, from front to back.
#[verifier::external_body]
pub(crate) fn positions_of(needle: u8, haystack: &[u8]) -> (at: Vec<usize>)
    ensures
        forall|j: int|
            0 <= j < at@.len() ==> (#[trigger] at@[j]) < haystack@.len() && haystack@[at@[j] as int]
                == needle,
        forall|j: int, k: int| 0 <= j < k < at@.len() ==> at@[j] < at@[k],
        forall|i: int|
            0 <= i < haystack@.len() && #[trigger] haystack@[i] == needle ==> at@.contains(
                i as usize,
            ),
{
    memchr::memchr_iter(needle, haystack).collect()
}

/// The SHA-256 digest of `data`.
pub uninterp spec fn sha256(data: Seq<u8>) -> Seq<u8>;

/// `<sha2::Sha256 as sha2::Digest>::digest` computes the SHA-256 digest of
/// `data`, which is 32 bytes long.
#[verifier::external_body]
pub(crate) fn sha256_digest(data: &[u8]) -> (digest: Vec<u8>)
    ensures
        digest@ == sha256(data@),
        digest@.len() == 32,
{
    sha2::Sha256::digest(data).to_vec()
}

/// The hexadecimal digit of a number below 16, in lower case.
pub open spec fn hex_digit(n: int) -> char {
    if n < 10 {
        (48 + n) as char
    } else {
        (87 + n) as char
    }
}

/// Two lower-case hexadecimal digits for each byte, the high half first.
pub open spec fn hex_text(data: Seq<u8>) -> Seq<char> {
    Seq::new(
        2 * data.len(),
        |i: int|
            if i % 2 == 0 {
                hex_digit(data[i / 2] as int / 16)
            } else {
                hex_digit(data[i / 2] as int % 16)
            },
    )
}

/// One more byte adds two digits at the end, that of its high half first.
pub proof fn law_hex_text(data: Seq<u8>, b: u8)
    ensures
        hex_text(Seq::empty()).len() == 0,
        hex_text(data.push(b)) == hex_text(data).push(hex_digit(b as int / 16)).push(
            hex_digit(b as int % 16),
        ),
{
    let more = hex_text(data.push(b));
    let want = hex_text(data).push(hex_digit(b as int / 16)).push(hex_digit(b as int % 16));
    assert forall|i: int| 0 <= i < want.len() implies more[i] == want[i] by {
        if i < 2 * data.len() {
            assert(data.push(b)[i / 2] == data[i / 2]);
        }
    }
    assert(more =~= want);
}

/// `hex::encode` writes each byte as two lower-case hexadecimal digits.
#[verifier::external_body]
pub(crate) fn hex_encode(data: &[u8]) -> (s: String)
    ensures
        s@ == hex_text(data@),
{
    hex::encode(data)
}

/// The text that Rust's `{:?}` format gives a string: quoted and escaped.
pub uninterp spec fn debug_text(s: Seq<char>) -> Seq<char>;

/// `<str as Debug>::fmt`, through `format!`.
#[verifier::external_body]
pub(crate) fn debug_str(s: &str) -> (out: String)
    ensures
        out@ == debug_text(s@),
{
    format!("{:?}", s)
}

/// The text that Rust's `{:?}` format gives a character.
pub uninterp spec fn debug_char_text(c: char) -> Seq<char>;

/// `<char as Debug>::fmt`, through `format!`.
#[verifier::external_body]
pub(crate) fn debug_char(c: char) -> (out: String)
    ensures
        out@ == debug_char_text(c),
{
    format!("{:?}", c)
}

/// The characters of UTF-8 bytes, with `U+FFFD` for what is not UTF-8.
pub uninterp spec fn lossy_text(data: Seq<u8>) -> Seq<char>;

/// `String::from_utf8_lossy` decodes valid UTF-8 as it stands and replaces
/// each invalid sequence by `U+FFFD`.
#[verifier::external_body]
pub(crate) fn utf8_lossy(data: &[u8]) -> (s: String)
    ensures
        s@ == lossy_text(data@),
        vstd::utf8::valid_utf8(data@) ==> s@ == vstd::utf8::decode_utf8(data@),
{
    String::from_utf8_lossy(data).into_owned()
}

/// The text that Rust's `{:?}` format gives a span of time.
pub uninterp spec fn duration_text(secs: u64, subsec_nanos: u32) -> Seq<char>;

/// `<std::time::Duration as Debug>::fmt`, through `format!`.
/// `std::time::Duration::new` carries nanoseconds beyond a second over into the
/// seconds, and panics if those overflow.
#[verifier::external_body]
pub(crate) fn debug_duration(secs: u64, subsec_nanos: u32) -> (out: String)
    requires
        subsec_nanos < 1_000_000_000,
    ensures
        out@ == duration_text(secs, subsec_nanos),
{
    format!("{:?}", std::time::Duration::new(secs, subsec_nanos))
}

} // verus!
