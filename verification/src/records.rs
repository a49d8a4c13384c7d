//! The record format of `events.log`.
//!
//! A record is `<unix_ms> <stream_char> <len> <data_bytes>\n`. The length
//! prefix round-trips data bytes exactly, including embedded `\n` and a
//! trailing `\n`, and lets a reader find the next record boundary without
//! escaping. `stream_char` is `o` (stdout) or `e` (stderr).

use bytes::Bytes;
use vstd::prelude::*;

use crate::numeral;
use crate::outside;
use crate::text;
use crate::time::SystemTime;

verus! {

/// Hard cap on a single decoded record's payload. Anything larger is treated
/// as a malformed length prefix (otherwise a corrupt 4 GiB length would stall
/// the follower forever waiting for bytes that never arrive).
pub const MAX_RECORD_BYTES: usize = 16_777_216;

#[derive(Debug, Clone, Copy, PartialEq, Eq, Structural)]
pub enum LogStream {
    Stdout,
    Stderr,
}

#[derive(Debug)]
pub struct LogEntry {
    pub stream: LogStream,
    pub timestamp: SystemTime,
    /// Raw bytes of the log line (including any trailing `\n`). `Bytes` is
    /// refcounted so handing one entry to multiple consumers is cheap.
    pub data: Bytes,
}

impl Clone for LogEntry {
    fn clone(&self) -> (copy: Self)
        ensures
            copy@ == self@,
    {
        LogEntry { stream: self.stream, timestamp: self.timestamp, data: self.data.clone() }
    }
}

#[verifier::ext_equal]
pub struct EntrySpec {
    pub stream: LogStream,
    pub timestamp: SystemTime,
    pub data: Seq<u8>,
}

impl View for LogEntry {
    type V = EntrySpec;

    open spec fn view(&self) -> EntrySpec {
        EntrySpec {
            stream: self.stream,
            timestamp: self.timestamp,
            data: outside::contents(self.data),
        }
    }
}

/// The entries of a list.
pub open spec fn entry_views(list: Seq<LogEntry>) -> Seq<EntrySpec> {
    list.map_values(|e: LogEntry| e@)
}

pub open spec fn stream_byte(stream: LogStream) -> u8 {
    match stream {
        LogStream::Stdout => 111,
        LogStream::Stderr => 101,
    }
}

/// A record with its fields as numbers and bytes.
pub open spec fn record(ms: nat, stream: LogStream, data: Seq<u8>) -> Seq<u8> {
    numeral::digits(ms) + seq![32u8, stream_byte(stream), 32u8] + numeral::digits(data.len())
        + seq![32u8] + data + seq![10u8]
}

/// A record is the timestamp, `o` or `e` for the stream, the length and the data,
/// with a space between each two and a newline at the end.
pub proof fn law_record_layout(ms: nat, data: Seq<u8>)
    ensures
        record(ms, LogStream::Stdout, data) == numeral::digits(ms) + seq![32u8, 111u8, 32u8]
            + numeral::digits(data.len()) + seq![32u8] + data + seq![10u8],
        record(ms, LogStream::Stderr, data) == numeral::digits(ms) + seq![32u8, 101u8, 32u8]
            + numeral::digits(data.len()) + seq![32u8] + data + seq![10u8],
{
}

/// The record of an entry.
pub open spec fn encoded(e: EntrySpec) -> Seq<u8> {
    record(e.timestamp.millis(), e.stream, e.data)
}

/// The records of a list of entries, one after the other.
pub open spec fn encoded_all(es: Seq<EntrySpec>) -> Seq<u8>
    decreases es.len(),
{
    if es.len() == 0 {
        Seq::empty()
    } else {
        encoded(es[0]) + encoded_all(es.drop_first())
    }
}

/// An entry as a record keeps it: the timestamp in whole milliseconds.
pub open spec fn stored(e: EntrySpec) -> EntrySpec {
    EntrySpec { timestamp: SystemTime::at_millis(e.timestamp.millis()), ..e }
}

#[verifier::ext_equal]
pub enum DecodedSpec {
    Record { entry: EntrySpec, consumed: int },
    NeedMore,
    Malformed,
}

/// What the bytes `s` hold at their beginning.
pub open spec fn decoded(s: Seq<u8>) -> DecodedSpec {
    match text::position(s, 32u8) {
        None => DecodedSpec::NeedMore,
        Some(space) => match numeral::parsed(s.take(space), u64::MAX as nat) {
            None => DecodedSpec::Malformed,
            Some(ms) => decoded_stream(ms, space, s.skip(space + 1)),
        },
    }
}

/// What is decoded from `s`, which follows a timestamp of `before` bytes and a
/// space.
pub open spec fn decoded_stream(ms: nat, before: int, s: Seq<u8>) -> DecodedSpec {
    if s.len() < 2 {
        DecodedSpec::NeedMore
    } else if s[1] != 32 {
        DecodedSpec::Malformed
    } else if s[0] == 111 {
        decoded_data(ms, LogStream::Stdout, before + 3, s.skip(2))
    } else if s[0] == 101 {
        decoded_data(ms, LogStream::Stderr, before + 3, s.skip(2))
    } else {
        DecodedSpec::Malformed
    }
}

/// What is decoded from `s`, which starts at the length field, `before` bytes
/// into the record.
pub open spec fn decoded_data(ms: nat, stream: LogStream, before: int, s: Seq<u8>) -> DecodedSpec {
    match text::position(s, 32u8) {
        None => DecodedSpec::NeedMore,
        Some(space) => match numeral::parsed(s.take(space), MAX_RECORD_BYTES as nat) {
            None => DecodedSpec::Malformed,
            Some(len) => {
                let data = s.skip(space + 1);
                if data.len() < len + 1 {
                    DecodedSpec::NeedMore
                } else if data[len as int] != 10 {
                    DecodedSpec::Malformed
                } else {
                    DecodedSpec::Record {
                        entry: EntrySpec {
                            stream,
                            timestamp: SystemTime::at_millis(ms),
                            data: data.take(len as int),
                        },
                        consumed: before + space + 1 + len + 1,
                    }
                }
            },
        },
    }
}

/// A decoded record lies within the bytes that it was decoded from.
pub proof fn lemma_decoded_bounds(s: Seq<u8>)
    ensures
        decoded(s) matches DecodedSpec::Record { consumed, .. } ==> 0 < consumed <= s.len(),
{
    text::lemma_position(s, 32u8);
    match text::position(s, 32u8) {
        Some(space) => {
            let after = s.skip(space + 1);
            text::lemma_position(after.skip(2), 32u8);
        },
        None => {},
    }
}

/// The entries that the bytes `s` hold, in order. A malformed record is
/// skipped up to and including the next `\n`; an incomplete one at the end is
/// left unread.
pub open spec fn entries(s: Seq<u8>) -> Seq<EntrySpec>
    decreases s.len(),
{
    if s.len() == 0 {
        Seq::empty()
    } else {
        proof {
            lemma_decoded_bounds(s);
            text::lemma_position(s, 10u8);
        }
        match decoded(s) {
            DecodedSpec::Record { entry, consumed } => seq![entry] + entries(s.skip(consumed)),
            DecodedSpec::NeedMore => Seq::empty(),
            DecodedSpec::Malformed => match text::position(s, 10u8) {
                Some(i) => entries(s.skip(i + 1)),
                None => Seq::empty(),
            },
        }
    }
}

/// The bytes at the end of `s` that `entries` leaves unread.
pub open spec fn unread(s: Seq<u8>) -> Seq<u8>
    decreases s.len(),
{
    if s.len() == 0 {
        s
    } else {
        proof {
            lemma_decoded_bounds(s);
            text::lemma_position(s, 10u8);
        }
        match decoded(s) {
            DecodedSpec::Record { consumed, .. } => unread(s.skip(consumed)),
            DecodedSpec::NeedMore => s,
            DecodedSpec::Malformed => match text::position(s, 10u8) {
                Some(i) => unread(s.skip(i + 1)),
                None => s,
            },
        }
    }
}

/// Outcome of attempting to decode one record from a buffer.
pub enum Decoded {
    /// Record decoded; a cursor should advance by `consumed` bytes.
    Record { entry: LogEntry, consumed: usize },
    /// Buffer ends mid-record; wait for more bytes.
    NeedMore,
    /// Header parse failed or the expected trailing newline is missing.
    /// Caller should resync by skipping past the next `\n`.
    Malformed,
}

impl View for Decoded {
    type V = DecodedSpec;

    open spec fn view(&self) -> DecodedSpec {
        match *self {
            Decoded::Record { entry, consumed } => DecodedSpec::Record {
                entry: entry@,
                consumed: consumed as int,
            },
            Decoded::NeedMore => DecodedSpec::NeedMore,
            Decoded::Malformed => DecodedSpec::Malformed,
        }
    }
}

/// Appends one encoded record to `buf`.
pub fn encode_record_into(
    buf: &mut Vec<u8>,
    timestamp: SystemTime,
    stream: LogStream,
    data: &[u8],
)
    ensures
        final(buf)@ == old(buf)@ + record(timestamp.millis(), stream, data@),
{
    let stream_char: u8 = match stream {
        LogStream::Stdout => 111,
        LogStream::Stderr => 101,
    };
    numeral::push_digits(buf, timestamp.unix_millis());
    buf.push(32);
    buf.push(stream_char);
    buf.push(32);
    numeral::push_digits(buf, data.len() as u64);
    buf.push(32);
    buf.extend_from_slice(data);
    buf.push(10);
    assert(buf@ =~= old(buf)@ + record(timestamp.millis(), stream, data@));
}

/// Encodes one entry.
pub fn encode_event(entry: &LogEntry) -> (buf: Vec<u8>)
    ensures
        buf@ == encoded(entry@),
{
    let mut buf: Vec<u8> = Vec::new();
    encode_record_into(
        &mut buf,
        entry.timestamp,
        entry.stream,
        outside::bytes_as_slice(&entry.data),
    );
    assert(buf@ =~= encoded(entry@));
    buf
}

/// Index of the first `b` in `s` at or behind `start`, counted from `start`.
fn find_byte(s: &[u8], start: usize, b: u8) -> (found: Option<usize>)
    requires
        start <= s@.len(),
    ensures
        s@.len() <= usize::MAX,
        match found {
            Some(i) => text::position(s@.skip(start as int), b) == Some(i as int) && i < s@.len()
                - start,
            None => text::position(s@.skip(start as int), b) is None,
        },
{
    let n: usize = s.len();
    let ghost tail = s@.skip(start as int);
    for i in start..n
        invariant
            n == s@.len(),
            start <= n,
            tail == s@.skip(start as int),
            forall|j: int| 0 <= j < i - start ==> tail[j] != b,
    {
        assert(tail[i - start] == s@[i as int]);
        if s[i] == b {
            proof {
                text::lemma_position_is(tail, b, i - start);
            }
            return Some(i - start);
        }
    }
    proof {
        text::lemma_position_none(tail, b);
    }
    None
}

/// Decodes the length field of a record, which starts at `start`, and the data
/// behind it.
fn decode_data(buf: &Bytes, ms: u64, stream: LogStream, start: usize) -> (d: Decoded)
    requires
        start <= outside::contents(*buf).len(),
    ensures
        d@ == decoded_data(
            ms as nat,
            stream,
            start as int,
            outside::contents(*buf).skip(start as int),
        ),
{
    let s = outside::bytes_as_slice(buf);
    let ghost rest = s@.skip(start as int);
    let space: usize = match find_byte(s, start, 32) {
        Some(i) => i,
        None => {
            return Decoded::NeedMore;
        },
    };
    let len_bytes = vstd::slice::slice_subrange(s, start, start + space);
    assert(len_bytes@ =~= rest.take(space as int));
    let len: usize = match numeral::parse_unsigned(len_bytes, MAX_RECORD_BYTES as u64) {
        Some(v) => v as usize,
        None => {
            return Decoded::Malformed;
        },
    };
    let data_start: usize = start + space + 1;
    let ghost data = rest.skip(space + 1);
    assert(data =~= s@.skip(data_start as int));
    if s.len() - data_start <= len {
        return Decoded::NeedMore;
    }
    let data_end: usize = data_start + len;
    assert(data[len as int] == s@[data_end as int]);
    if s[data_end] != 10 {
        return Decoded::Malformed;
    }
    let payload = outside::bytes_slice(buf, data_start, data_end);
    assert(outside::contents(payload) =~= data.take(len as int));
    Decoded::Record {
        entry: LogEntry { stream, timestamp: SystemTime::from_unix_millis(ms), data: payload },
        consumed: data_end + 1,
    }
}

/// Decodes one record starting at byte 0 of `buf`. Zero-copy: the entry's
/// `data` is a refcounted slice of `buf`, not a fresh allocation.
pub fn decode_event_with_len(buf: &Bytes) -> (d: Decoded)
    ensures
        d@ == decoded(outside::contents(*buf)),
{
    let s = outside::bytes_as_slice(buf);
    assert(s@.skip(0) =~= s@);
    let space: usize = match find_byte(s, 0, 32) {
        Some(i) => i,
        None => {
            return Decoded::NeedMore;
        },
    };
    let ms_bytes = vstd::slice::slice_subrange(s, 0, space);
    assert(ms_bytes@ =~= s@.take(space as int));
    let ms: u64 = match numeral::parse_unsigned(ms_bytes, u64::MAX) {
        Some(v) => v,
        None => {
            return Decoded::Malformed;
        },
    };
    let ghost after = s@.skip(space + 1);
    if s.len() - space < 3 {
        return Decoded::NeedMore;
    }
    assert(after[0] == s@[space + 1]);
    assert(after[1] == s@[space + 2]);
    if s[space + 2] != 32 {
        return Decoded::Malformed;
    }
    let stream_char: u8 = s[space + 1];
    let stream = if stream_char == 111 {
        LogStream::Stdout
    } else if stream_char == 101 {
        LogStream::Stderr
    } else {
        return Decoded::Malformed;
    };
    assert(after.skip(2) =~= s@.skip(space + 3));
    decode_data(buf, ms, stream, space + 3)
}

/// On a malformed record, advance past the next `\n` so the next decode
/// attempt aligns with a record boundary. Returns the number of bytes to skip,
/// or `None` if no terminator exists in the buffer (the caller should stop
/// there and wait for more bytes: the tail might just be a partial record).
pub fn resync_offset(buf: &[u8]) -> (skip: Option<usize>)
    ensures
        match skip {
            Some(n) => text::position(buf@, 10u8) == Some(n - 1) && 0 < n <= buf@.len(),
            None => text::position(buf@, 10u8) is None,
        },
{
    assert(buf@.skip(0) =~= buf@);
    match find_byte(buf, 0, 10) {
        Some(i) => Some(i + 1),
        None => None,
    }
}

/// Decodes the records of `bytes`; returns the entries and the offset at which
/// the unread rest begins.
pub fn scan_records(bytes: &Bytes) -> (found: (Vec<LogEntry>, usize))
    ensures
        entry_views(found.0@) == entries(outside::contents(*bytes)),
        found.1 <= outside::contents(*bytes).len(),
        outside::contents(*bytes).skip(found.1 as int) == unread(outside::contents(*bytes)),
{
    let all = outside::bytes_as_slice(bytes);
    let n: usize = all.len();
    let ghost s = all@;
    let mut out: Vec<LogEntry> = Vec::new();
    let mut cursor: usize = 0;
    assert(s.skip(0) =~= s);
    assert(entry_views(out@) + entries(s.skip(0)) =~= entries(s));
    while cursor < n
        invariant_except_break
            entry_views(out@) + entries(s.skip(cursor as int)) == entries(s),
            unread(s.skip(cursor as int)) == unread(s),
        invariant
            n == s.len(),
            all@ == s,
            s == outside::contents(*bytes),
            cursor <= n,
        ensures
            entry_views(out@) == entries(s),
            s.skip(cursor as int) == unread(s),
        decreases n - cursor,
    {
        let ghost here = s.skip(cursor as int);
        let view = outside::bytes_slice(bytes, cursor, n);
        assert(outside::contents(view) =~= here);
        proof {
            lemma_decoded_bounds(here);
        }
        match decode_event_with_len(&view) {
            Decoded::Record { entry, consumed } => {
                let ghost before = out@;
                out.push(entry);
                cursor = cursor + consumed;
                assert(here.skip(consumed as int) =~= s.skip(cursor as int));
                assert(entry_views(out@) =~= entry_views(before).push(entry@));
                assert(entry_views(out@) + entries(s.skip(cursor as int)) =~= entry_views(before)
                    + (seq![entry@] + entries(s.skip(cursor as int))));
            },
            Decoded::NeedMore => {
                assert(entry_views(out@) + Seq::<EntrySpec>::empty() =~= entry_views(out@));
                break;
            },
            Decoded::Malformed => {
                let rest = vstd::slice::slice_subrange(all, cursor, n);
                assert(rest@ =~= here);
                match resync_offset(rest) {
                    Some(skip) => {
                        cursor = cursor + skip;
                        assert(here.skip(skip as int) =~= s.skip(cursor as int));
                    },
                    None => {
                        assert(entry_views(out@) + Seq::<EntrySpec>::empty() =~= entry_views(out@));
                        break;
                    },
                }
            },
        }
    }
    (out, cursor)
}

/// Parses the contents of an events file into entries (oldest first). On a
/// malformed record, resyncs to the next `\n`.
pub fn parse_events_file(bytes: Bytes) -> (out: Vec<LogEntry>)
    ensures
        entry_views(out@) == entries(outside::contents(bytes)),
{
    scan_records(&bytes).0
}

/// Digits hold no space.
proof fn lemma_space_behind_digits(n: nat, t: Seq<u8>)
    requires
        t.len() > 0,
        t[0] == 32,
    ensures
        text::position(numeral::digits(n) + t, 32u8) == Some(numeral::digits(n).len() as int),
{
    let d = numeral::digits(n);
    numeral::lemma_digits(n);
    let s = d + t;
    assert forall|j: int| 0 <= j < d.len() implies s[j] != 32 by {
        assert(s[j] == d[j]);
        assert(numeral::is_digit(d[j]));
    }
    assert(s[d.len() as int] == t[0]);
    text::lemma_position_is(s, 32u8, d.len() as int);
}

proof fn lemma_decode_data(ms: nat, stream: LogStream, before: int, data: Seq<u8>, t: Seq<u8>)
    requires
        data.len() <= MAX_RECORD_BYTES,
    ensures
        decoded_data(
            ms,
            stream,
            before,
            numeral::digits(data.len()) + (seq![32u8] + data + seq![10u8] + t),
        ) == (DecodedSpec::Record {
            entry: EntrySpec { stream, timestamp: SystemTime::at_millis(ms), data },
            consumed: before + numeral::digits(data.len()).len() + 1 + data.len() + 1,
        }),
{
    let d = numeral::digits(data.len());
    let tail = seq![32u8] + data + seq![10u8] + t;
    let s = d + tail;
    lemma_space_behind_digits(data.len(), tail);
    assert(s.take(d.len() as int) =~= d);
    numeral::lemma_parsed_digits(data.len(), MAX_RECORD_BYTES as nat);
    let rest = s.skip(d.len() as int + 1);
    assert(rest =~= data + seq![10u8] + t);
    assert(rest[data.len() as int] == 10);
    assert(rest.take(data.len() as int) =~= data);
}

/// An encoded entry decodes to itself, with its timestamp cut to whole
/// milliseconds, whatever bytes follow it.
pub proof fn law_decode_of_encode(e: EntrySpec, t: Seq<u8>)
    requires
        e.data.len() <= MAX_RECORD_BYTES,
    ensures
        decoded(encoded(e) + t) == (DecodedSpec::Record {
            entry: stored(e),
            consumed: encoded(e).len() as int,
        }),
{
    let ms = e.timestamp.millis();
    let d1 = numeral::digits(ms);
    let c = stream_byte(e.stream);
    let s = encoded(e) + t;
    let field = numeral::digits(e.data.len()) + (seq![32u8] + e.data + seq![10u8] + t);
    let tail = seq![32u8, c, 32u8] + field;
    assert(s =~= d1 + tail);
    lemma_space_behind_digits(ms, tail);
    assert(s.take(d1.len() as int) =~= d1);
    numeral::lemma_parsed_digits(ms, u64::MAX as nat);
    let after = s.skip(d1.len() as int + 1);
    assert(after =~= seq![c, 32u8] + field);
    assert(after.skip(2) =~= field);
    lemma_decode_data(ms, e.stream, d1.len() as int + 3, e.data, t);
    assert(decoded(s) == decoded_stream(ms, d1.len() as int, after));
    assert(decoded_stream(ms, d1.len() as int, after) == decoded_data(
        ms,
        e.stream,
        d1.len() as int + 3,
        field,
    ));
}

/// What starts like a record but is none: one of an unknown stream, one that
/// claims more than sixteen mebibytes and one without its newline are
/// malformed, and one that is not there as a whole needs more bytes.
pub proof fn law_no_record(ms: nat, stream: LogStream, c: u8, n: nat, data: Seq<u8>)
    requires
        ms <= u64::MAX,
    ensures
        ({
            let letter = if stream == LogStream::Stdout {
                111u8
            } else {
                101u8
            };
            let head = numeral::digits(ms) + seq![32u8, letter, 32u8];
            let s = head + (numeral::digits(n) + (seq![32u8] + data));
            &&& n > 16_777_216 ==> decoded(s) == DecodedSpec::Malformed
            &&& n <= 16_777_216 && data.len() <= n ==> decoded(s) == DecodedSpec::NeedMore
            &&& n <= 16_777_216 && data.len() > n && data[n as int] != 10 ==> decoded(s)
                == DecodedSpec::Malformed
            &&& c != 111 && c != 101 ==> decoded(
                numeral::digits(ms) + seq![32u8, c, 32u8] + data,
            ) == DecodedSpec::Malformed
        }),
{
    let letter = if stream == LogStream::Stdout {
        111u8
    } else {
        101u8
    };
    let d1 = numeral::digits(ms);
    let dn = numeral::digits(n);
    let field = dn + (seq![32u8] + data);
    let s = d1 + seq![32u8, letter, 32u8] + field;
    numeral::lemma_parsed_digits(ms, u64::MAX as nat);
    assert(s =~= d1 + (seq![32u8, letter, 32u8] + field));
    lemma_space_behind_digits(ms, seq![32u8, letter, 32u8] + field);
    assert(s.take(d1.len() as int) =~= d1);
    let after = s.skip(d1.len() as int + 1);
    assert(after =~= seq![letter, 32u8] + field);
    assert(after.skip(2) =~= field);
    lemma_space_behind_digits(n, seq![32u8] + data);
    assert(field.take(dn.len() as int) =~= dn);
    assert(field.skip(dn.len() as int + 1) =~= data);
    numeral::law_parsed(Seq::empty(), MAX_RECORD_BYTES as nat, n);
    let t = d1 + seq![32u8, c, 32u8] + data;
    assert(t =~= d1 + (seq![32u8, c, 32u8] + data));
    lemma_space_behind_digits(ms, seq![32u8, c, 32u8] + data);
    assert(t.take(d1.len() as int) =~= d1);
    let behind = t.skip(d1.len() as int + 1);
    assert(behind =~= seq![c, 32u8] + data);
    assert(behind[0] == c && behind[1] == 32);
}

/// Reading goes on behind the next newline after something malformed, and waits
/// where a record is not there as a whole.
pub proof fn law_resync(junk: Seq<u8>, t: Seq<u8>, s: Seq<u8>)
    requires
        !junk.contains(10u8),
    ensures
        decoded(junk.push(10u8) + t) == DecodedSpec::Malformed ==> entries(junk.push(10u8) + t)
            == entries(t) && unread(junk.push(10u8) + t) == unread(t),
        decoded(s) == DecodedSpec::NeedMore ==> entries(s).len() == 0 && unread(s) == s,
        decoded(s) == DecodedSpec::Malformed && !s.contains(10u8) ==> entries(s).len() == 0
            && unread(s) == s,
        !s.contains(32u8) ==> decoded(s) == DecodedSpec::NeedMore,
{
    let whole = junk.push(10u8) + t;
    let n = junk.len() as int;
    assert(whole[n] == 10);
    assert forall|j: int| 0 <= j < n implies whole[j] != 10 by {
        assert(whole[j] == junk[j]);
        assert(junk.contains(junk[j]));
    }
    text::lemma_position_is(whole, 10u8, n);
    assert(whole.skip(n + 1) =~= t);
    text::lemma_position(s, 10u8);
    if text::position(s, 10u8) is Some {
        assert(s.contains(s[text::position(s, 10u8)->0]));
    }
    text::lemma_position(s, 32u8);
    if text::position(s, 32u8) is Some {
        assert(s.contains(s[text::position(s, 32u8)->0]));
    }
}

/// Encoding one more entry appends its record.
pub proof fn lemma_encoded_push(es: Seq<EntrySpec>, e: EntrySpec)
    ensures
        encoded_all(es.push(e)) == encoded_all(es) + encoded(e),
    decreases es.len(),
{
    let more = es.push(e);
    reveal_with_fuel(encoded_all, 2);
    if es.len() == 0 {
        assert(more.drop_first() =~= Seq::<EntrySpec>::empty());
        assert(encoded_all(more) =~= encoded_all(es) + encoded(e));
    } else {
        assert(more.drop_first() =~= es.drop_first().push(e));
        lemma_encoded_push(es.drop_first(), e);
        assert(encoded_all(more) =~= encoded_all(es) + encoded(e));
    }
}

/// Encoding two lists one after the other concatenates their records.
pub proof fn lemma_encoded_concat(a: Seq<EntrySpec>, b: Seq<EntrySpec>)
    ensures
        encoded_all(a + b) == encoded_all(a) + encoded_all(b),
    decreases a.len(),
{
    if a.len() == 0 {
        assert(a + b =~= b);
        assert(encoded_all(a) + encoded_all(b) =~= encoded_all(b));
    } else {
        assert((a + b).drop_first() =~= a.drop_first() + b);
        lemma_encoded_concat(a.drop_first(), b);
        assert(encoded_all(a + b) =~= encoded_all(a) + encoded_all(b));
    }
}

/// Each entry of a list, as its record keeps it.
pub open spec fn stored_all(es: Seq<EntrySpec>) -> Seq<EntrySpec> {
    es.map_values(|e: EntrySpec| stored(e))
}

/// A file of encoded entries, followed by any bytes, parses to those entries
/// in their order and then to what the bytes behind them hold.
pub proof fn law_parse_of_encoded(es: Seq<EntrySpec>, t: Seq<u8>)
    requires
        forall|i: int| 0 <= i < es.len() ==> (#[trigger] es[i]).data.len() <= MAX_RECORD_BYTES,
    ensures
        entries(encoded_all(es) + t) == stored_all(es) + entries(t),
        unread(encoded_all(es) + t) == unread(t),
    decreases es.len(),
{
    let s = encoded_all(es) + t;
    if es.len() == 0 {
        assert(s =~= t);
        assert(stored_all(es) + entries(t) =~= entries(t));
    } else {
        let rest = es.drop_first();
        assert(s =~= encoded(es[0]) + (encoded_all(rest) + t));
        law_decode_of_encode(es[0], encoded_all(rest) + t);
        let n = encoded(es[0]).len() as int;
        numeral::lemma_digits(es[0].timestamp.millis());
        assert(s.skip(n) =~= encoded_all(rest) + t);
        assert forall|i: int| 0 <= i < rest.len() implies (#[trigger] rest[i]).data.len()
            <= MAX_RECORD_BYTES by {
            assert(rest[i] == es[i + 1]);
        }
        law_parse_of_encoded(rest, t);
        assert(stored_all(es) =~= seq![stored(es[0])] + stored_all(rest));
        assert(stored_all(es) + entries(t) =~= seq![stored(es[0])] + (stored_all(rest) + entries(
            t,
        )));
    }
}

/// What has been decided about a beginning stays decided, whatever follows.
pub proof fn law_decode_is_stable(s: Seq<u8>, t: Seq<u8>)
    requires
        decoded(s) !is NeedMore,
    ensures
        decoded(s + t) == decoded(s),
{
    text::lemma_position(s, 32u8);
    text::lemma_position_extend(s, t, 32u8);
    let space = text::position(s, 32u8)->0;
    assert((s + t).take(space) =~= s.take(space));
    let after = s.skip(space + 1);
    assert((s + t).skip(space + 1) =~= after + t);
    if numeral::parsed(s.take(space), u64::MAX as nat) is Some {
        assert((after + t)[0] == after[0]);
        assert((after + t)[1] == after[1]);
        let rest = after.skip(2);
        assert((after + t).skip(2) =~= rest + t);
        if after[1] == 32 && (after[0] == 111 || after[0] == 101) {
            text::lemma_position(rest, 32u8);
            text::lemma_position_extend(rest, t, 32u8);
            let space2 = text::position(rest, 32u8)->0;
            assert((rest + t).take(space2) =~= rest.take(space2));
            let data = rest.skip(space2 + 1);
            assert((rest + t).skip(space2 + 1) =~= data + t);
            match numeral::parsed(rest.take(space2), MAX_RECORD_BYTES as nat) {
                Some(len) => {
                    assert((data + t)[len as int] == data[len as int]);
                    assert((data + t).take(len as int) =~= data.take(len as int));
                },
                None => {},
            }
        }
    }
}

/// Reading a file in two parts, with the unread rest of the first put in
/// front of the second, yields what reading it at once yields.
pub proof fn law_incremental_parse(a: Seq<u8>, b: Seq<u8>)
    ensures
        entries(a + b) == entries(a) + entries(unread(a) + b),
        unread(a + b) == unread(unread(a) + b),
    decreases a.len(),
{
    let s = a + b;
    if a.len() == 0 {
        assert(s =~= b);
        assert(unread(a) + b =~= b);
        assert(entries(a) + entries(b) =~= entries(b));
    } else {
        lemma_decoded_bounds(a);
        text::lemma_position(a, 10u8);
        match decoded(a) {
            DecodedSpec::Record { entry, consumed } => {
                law_decode_is_stable(a, b);
                assert(s.skip(consumed) =~= a.skip(consumed) + b);
                law_incremental_parse(a.skip(consumed), b);
                assert(entries(s) =~= entries(a) + entries(unread(a) + b));
            },
            DecodedSpec::NeedMore => {
                assert(entries(a) + entries(a + b) =~= entries(a + b));
            },
            DecodedSpec::Malformed => {
                match text::position(a, 10u8) {
                    Some(i) => {
                        law_decode_is_stable(a, b);
                        text::lemma_position_extend(a, b, 10u8);
                        assert(s.skip(i + 1) =~= a.skip(i + 1) + b);
                        law_incremental_parse(a.skip(i + 1), b);
                    },
                    None => {
                        assert(entries(a) + entries(a + b) =~= entries(a + b));
                    },
                }
            },
        }
    }
}

} // verus!
