//! Background tailer: drains the shim's stdout/stderr files into a single
//! timestamped + rotated `events.log` per container.

use vstd::prelude::*;

use crate::error::{Error, ErrorSpec, IoError, IoKind, Result};
use crate::logs::{EVENTS_ROTATE_BYTES, MAX_ROTATED_FILES};
use crate::outside;
use crate::paths;
use crate::records;
use crate::records::{LogStream, MAX_RECORD_BYTES};
use crate::text;
use crate::time::SystemTime;

verus! {

/// Milliseconds between two passes of the tailer.
pub const TAILER_INTERVAL_MS: u64 = 100;

/// Consecutive drain errors before the tailer gives up and exits. Without
/// this a disk-full / permissions failure would spin silently forever.
pub const MAX_CONSECUTIVE_ERRORS: u32 = 50;

/// Maximum bytes buffered while waiting for a newline. On overflow, the
/// buffer is flushed as a single record so progress isn't blocked by an absent
/// terminator.
pub const MAX_LEFTOVER_BYTES: usize = 1_048_576;

/// Maximum bytes read from a raw stdout/stderr file in a single drain pass.
pub const MAX_READ_CHUNK: u64 = 4_194_304;

/// The complete lines of `s`, each with its `\n`.
pub open spec fn lines(s: Seq<u8>) -> Seq<Seq<u8>>
    decreases s.len(),
{
    proof {
        text::lemma_position(s, 10u8);
    }
    match text::position(s, 10u8) {
        Some(i) => seq![s.take(i + 1)] + lines(s.skip(i + 1)),
        None => Seq::empty(),
    }
}

/// What follows the last `\n` of `s`.
pub open spec fn partial(s: Seq<u8>) -> Seq<u8>
    decreases s.len(),
{
    proof {
        text::lemma_position(s, 10u8);
    }
    match text::position(s, 10u8) {
        Some(i) => partial(s.skip(i + 1)),
        None => s,
    }
}

/// The chunks of `s` that become records: its lines, and the rest if that has
/// grown too long to wait for its end.
pub open spec fn chunks(s: Seq<u8>) -> Seq<Seq<u8>> {
    if partial(s).len() >= MAX_LEFTOVER_BYTES {
        lines(s).push(partial(s))
    } else {
        lines(s)
    }
}

/// What stays buffered of `s`.
pub open spec fn held_back(s: Seq<u8>) -> Seq<u8> {
    if partial(s).len() >= MAX_LEFTOVER_BYTES {
        Seq::empty()
    } else {
        partial(s)
    }
}

/// A text is taken apart at its newlines, each of which ends the line that it
/// belongs to; without one there is no line and nothing but a rest.
pub proof fn law_lines(line: Seq<u8>, rest: Seq<u8>)
    requires
        !line.contains(10u8),
    ensures
        lines(line).len() == 0,
        partial(line) == line,
        lines(line.push(10u8) + rest) == seq![line.push(10u8)] + lines(rest),
        partial(line.push(10u8) + rest) == partial(rest),
{
    assert forall|j: int| 0 <= j < line.len() implies line[j] != 10 by {
        assert(line.contains(line[j]));
    }
    text::lemma_position_none(line, 10u8);
    let s = line.push(10u8) + rest;
    let n = line.len() as int;
    assert(s[n] == 10);
    assert forall|j: int| 0 <= j < n implies s[j] != 10 by {
        assert(s[j] == line[j]);
    }
    text::lemma_position_is(s, 10u8, n);
    assert(s.take(n + 1) =~= line.push(10u8));
    assert(s.skip(n + 1) =~= rest);
}

/// What is held back is an unfinished line of less than a mebibyte; a longer one
/// becomes a record of its own, behind all the lines.
pub proof fn law_chunks(s: Seq<u8>)
    ensures
        partial(s).len() < 1_048_576 ==> chunks(s) == lines(s) && held_back(s) == partial(s),
        partial(s).len() >= 1_048_576 ==> chunks(s) == lines(s).push(partial(s)) && held_back(
            s,
        ).len() == 0,
        !held_back(s).contains(10u8),
{
    lemma_partial_is_unfinished(s);
}

proof fn lemma_partial_is_unfinished(s: Seq<u8>)
    ensures
        !partial(s).contains(10u8),
    decreases s.len(),
{
    text::lemma_position(s, 10u8);
    match text::position(s, 10u8) {
        Some(i) => {
            lemma_partial_is_unfinished(s.skip(i + 1));
        },
        None => {},
    }
}

/// One entry for each chunk, all with the same stream and timestamp.
pub open spec fn stamped(
    chunks: Seq<Seq<u8>>,
    stream: LogStream,
    timestamp: SystemTime,
) -> Seq<records::EntrySpec> {
    chunks.map_values(|data: Seq<u8>| records::EntrySpec { stream, timestamp, data })
}

/// Every chunk becomes an entry, in order, unchanged, of the stream that it was
/// read from and the time at which it was read.
pub proof fn law_stamped(
    list: Seq<Seq<u8>>,
    stream: LogStream,
    timestamp: SystemTime,
    i: int,
)
    ensures
        stamped(list, stream, timestamp).len() == list.len(),
        0 <= i < list.len() ==> stamped(list, stream, timestamp)[i].data == list[i]
            && stamped(list, stream, timestamp)[i].stream == stream
            && stamped(list, stream, timestamp)[i].timestamp == timestamp,
{
}

proof fn lemma_stamped_push(
    chunks: Seq<Seq<u8>>,
    chunk: Seq<u8>,
    stream: LogStream,
    timestamp: SystemTime,
)
    ensures
        records::encoded_all(stamped(chunks.push(chunk), stream, timestamp))
            == records::encoded_all(stamped(chunks, stream, timestamp)) + records::record(
            timestamp.millis(),
            stream,
            chunk,
        ),
{
    let e = records::EntrySpec { stream, timestamp, data: chunk };
    assert(stamped(chunks.push(chunk), stream, timestamp) =~= stamped(
        chunks,
        stream,
        timestamp,
    ).push(e));
    records::lemma_encoded_push(stamped(chunks, stream, timestamp), e);
}

/// Where the tailer stands in one raw file.
#[derive(Debug)]
pub struct TailState {
    pub pos: u64,
    pub leftover: Vec<u8>,
}

#[verifier::ext_equal]
pub struct TailSpec {
    pub pos: nat,
    pub leftover: Seq<u8>,
}

impl View for TailState {
    type V = TailSpec;

    open spec fn view(&self) -> TailSpec {
        TailSpec { pos: self.pos as nat, leftover: self.leftover@ }
    }
}

/// What a drain pass does once it knows the length of the raw file.
#[derive(Debug, Clone, Copy, PartialEq, Eq, Structural)]
pub enum DrainStep {
    /// The file was truncated: drop the handle, and reopen on the next pass.
    Reopen,
    /// Nothing new.
    Idle,
    /// Read up to `want` bytes from `from` on.
    Read { from: u64, want: u64 },
}

/// A raw file that cannot be opened is no error if it does not exist (yet).
pub fn raw_open_failed(source: IoError) -> (out: Result<()>)
    ensures
        match out {
            Ok(_) => source.kind == IoKind::NotFound,
            Err(e) => source.kind != IoKind::NotFound && e@ == (ErrorSpec::Io {
                context: "tailer: open raw"@,
                source: source@,
            }),
        },
{
    match source.kind {
        IoKind::NotFound => Ok(()),
        _ => Err(Error::Io { context: "tailer: open raw", source }),
    }
}

impl TailState {
    pub fn new() -> (s: Self)
        ensures
            s@ == (TailSpec { pos: 0, leftover: Seq::empty() }),
    {
        TailState { pos: 0, leftover: Vec::new() }
    }

    /// The raw file has length `len`.
    pub fn sized(&mut self, len: u64) -> (step: DrainStep)
        ensures
            len < old(self).pos ==> step == DrainStep::Reopen && final(self)@ == (TailSpec {
                pos: 0,
                leftover: Seq::empty(),
            }),
            len >= old(self).pos ==> final(self)@ == old(self)@,
            len == old(self).pos ==> step == DrainStep::Idle,
            len > old(self).pos ==> step == (DrainStep::Read {
                from: old(self).pos,
                want: if len - old(self).pos <= MAX_READ_CHUNK {
                    (len - old(self).pos) as u64
                } else {
                    MAX_READ_CHUNK
                },
            }),
    {
        if len < self.pos {
            self.pos = 0;
            self.leftover = Vec::new();
            return DrainStep::Reopen;
        }
        if len == self.pos {
            return DrainStep::Idle;
        }
        let grown: u64 = len - self.pos;
        DrainStep::Read {
            from: self.pos,
            want: if grown <= MAX_READ_CHUNK {
                grown
            } else {
                MAX_READ_CHUNK
            },
        }
    }

    /// `data` was read from the state's position on. Returns the records to
    /// append to `events.log`: one for each line that is complete now.
    pub fn read(&mut self, data: Vec<u8>, stream: LogStream, timestamp: SystemTime) -> (batch: Vec<
        u8,
    >)
        requires
            old(self).pos + data@.len() <= u64::MAX,
        ensures
            batch@ == records::encoded_all(
                stamped(chunks(old(self)@.leftover + data@), stream, timestamp),
            ),
            final(self)@ == (TailSpec {
                pos: old(self)@.pos + data@.len(),
                leftover: held_back(old(self)@.leftover + data@),
            }),
    {
        let mut combined: Vec<u8> = Vec::new();
        combined.append(&mut self.leftover);
        assert(combined@ =~= old(self).leftover@);
        self.pos = self.pos + data.len() as u64;
        let mut data = data;
        combined.append(&mut data);
        let ghost s = combined@;
        let total: usize = combined.len();
        let at = outside::positions_of(10, combined.as_slice());
        let mut batch: Vec<u8> = Vec::new();
        let ghost mut done: Seq<Seq<u8>> = Seq::empty();
        let mut start: usize = 0;
        let n: usize = at.len();
        assert(s.skip(0) =~= s);
        assert(done + lines(s) =~= lines(s));
        assert(batch@ =~= records::encoded_all(stamped(done, stream, timestamp)));
        for j in 0..n
            invariant
                n == at@.len(),
                s == combined@,
                s.len() == total,
                start <= s.len(),
                start == if j == 0 {
                    0
                } else {
                    at@[j - 1] + 1
                },
                forall|k: int|
                    0 <= k < at@.len() ==> (#[trigger] at@[k]) < s.len() && s[at@[k] as int] == 10,
                forall|k: int, l: int| 0 <= k < l < at@.len() ==> at@[k] < at@[l],
                forall|i: int|
                    0 <= i < s.len() && #[trigger] s[i] == 10 ==> at@.contains(i as usize),
                done + lines(s.skip(start as int)) == lines(s),
                partial(s.skip(start as int)) == partial(s),
                batch@ == records::encoded_all(stamped(done, stream, timestamp)),
        {
            let nl: usize = at[j];
            let ghost here = s.skip(start as int);
            assert(start <= nl) by {
                if j > 0 {
                    assert(at@[j - 1] < at@[j as int]);
                }
            }
            assert forall|i: int| 0 <= i < nl - start implies here[i] != 10 by {
                if here[i] == 10 {
                    assert(s[start + i] == 10);
                    let k = choose|k: int| 0 <= k < at@.len() && at@[k] == (start + i) as usize;
                    if k < j {
                        if k < j - 1 {
                            assert(at@[k] < at@[j - 1]);
                        }
                    } else if k > j {
                        assert(at@[j as int] < at@[k]);
                    }
                }
            }
            assert(here[nl - start] == 10);
            proof {
                text::lemma_position_is(here, 10u8, nl - start);
            }
            let line = vstd::slice::slice_subrange(combined.as_slice(), start, nl + 1);
            records::encode_record_into(&mut batch, timestamp, stream, line);
            proof {
                assert(line@ =~= here.take(nl - start + 1));
                lemma_stamped_push(done, line@, stream, timestamp);
                let before = done;
                done = done.push(line@);
                assert(here.skip(nl - start + 1) =~= s.skip(nl + 1));
                assert(done + lines(s.skip(nl + 1)) =~= before + (seq![line@] + lines(
                    s.skip(nl + 1),
                )));
            }
            start = nl + 1;
        }
        let ghost tail = s.skip(start as int);
        assert forall|i: int| 0 <= i < tail.len() implies tail[i] != 10 by {
            if tail[i] == 10 {
                assert(s[start + i] == 10);
                let k = choose|k: int| 0 <= k < at@.len() && at@[k] == (start + i) as usize;
                if k < n - 1 {
                    assert(at@[k] < at@[n - 1]);
                }
            }
        }
        proof {
            text::lemma_position_none(tail, 10u8);
            assert(done + lines(tail) =~= done);
        }
        let rest = combined.split_off(start);
        assert(rest@ =~= tail);
        if rest.len() >= MAX_LEFTOVER_BYTES {
            records::encode_record_into(&mut batch, timestamp, stream, rest.as_slice());
            proof {
                lemma_stamped_push(done, rest@, stream, timestamp);
            }
            self.leftover = Vec::new();
        } else {
            self.leftover = rest;
        }
        batch
    }
}

/// The bytes of all chunks, one after the other.
pub open spec fn flattened(chunks: Seq<Seq<u8>>) -> Seq<u8>
    decreases chunks.len(),
{
    if chunks.len() == 0 {
        Seq::empty()
    } else {
        chunks[0] + flattened(chunks.drop_first())
    }
}

proof fn lemma_lines_partial(s: Seq<u8>)
    ensures
        flattened(lines(s)) + partial(s) == s,
        partial(s).len() <= s.len(),
        forall|i: int| 0 <= i < lines(s).len() ==> (#[trigger] lines(s)[i]).len() <= s.len(),
    decreases s.len(),
{
    text::lemma_position(s, 10u8);
    match text::position(s, 10u8) {
        Some(k) => {
            let rest = s.skip(k + 1);
            lemma_lines_partial(rest);
            let all = lines(s);
            assert(all.drop_first() =~= lines(rest));
            assert(flattened(all) + partial(s) =~= s.take(k + 1) + (flattened(lines(rest))
                + partial(rest)));
            assert(s.take(k + 1) + rest =~= s);
            assert forall|i: int| 0 <= i < lines(s).len() implies (#[trigger] lines(s)[i]).len()
                <= s.len() by {
                if i > 0 {
                    assert(lines(s)[i] == lines(rest)[i - 1]);
                }
            }
        },
        None => {
            assert(flattened(lines(s)) + partial(s) =~= s);
        },
    }
}

proof fn lemma_flattened_push(chunks: Seq<Seq<u8>>, chunk: Seq<u8>)
    ensures
        flattened(chunks.push(chunk)) == flattened(chunks) + chunk,
    decreases chunks.len(),
{
    let more = chunks.push(chunk);
    reveal_with_fuel(flattened, 2);
    if chunks.len() == 0 {
        assert(more.drop_first() =~= Seq::<Seq<u8>>::empty());
        assert(flattened(more) =~= flattened(chunks) + chunk);
    } else {
        assert(more.drop_first() =~= chunks.drop_first().push(chunk));
        lemma_flattened_push(chunks.drop_first(), chunk);
        assert(flattened(more) =~= flattened(chunks) + chunk);
    }
}

/// No byte is lost, invented or moved: the chunks that become records, followed
/// by what is held back, are the bytes that came in.
pub proof fn law_tailer_keeps_every_byte(s: Seq<u8>)
    ensures
        flattened(chunks(s)) + held_back(s) == s,
{
    lemma_lines_partial(s);
    if partial(s).len() >= MAX_LEFTOVER_BYTES {
        lemma_flattened_push(lines(s), partial(s));
        assert(flattened(chunks(s)) + held_back(s) =~= s);
    }
}

/// The buffer never reaches its cap, and with it no record of a pass gets near
/// the largest that a reader accepts.
pub proof fn law_tailer_records_are_readable(
    leftover: Seq<u8>,
    data: Seq<u8>,
    stream: LogStream,
    timestamp: SystemTime,
)
    requires
        leftover.len() < MAX_LEFTOVER_BYTES,
        data.len() <= MAX_READ_CHUNK,
    ensures
        held_back(leftover + data).len() < MAX_LEFTOVER_BYTES,
        ({
            let es = stamped(chunks(leftover + data), stream, timestamp);
            records::entries(records::encoded_all(es)) == records::stored_all(es)
        }),
{
    let s = leftover + data;
    lemma_lines_partial(s);
    let es = stamped(chunks(s), stream, timestamp);
    assert forall|i: int| 0 <= i < es.len() implies (#[trigger] es[i]).data.len()
        <= MAX_RECORD_BYTES by {
        assert(es[i].data == chunks(s)[i]);
        if i < lines(s).len() {
            assert(chunks(s)[i] == lines(s)[i]);
        }
    }
    records::law_parse_of_encoded(es, Seq::empty());
    assert(records::encoded_all(es) + Seq::<u8>::empty() =~= records::encoded_all(es));
    assert(records::stored_all(es) + records::entries(Seq::empty()) =~= records::stored_all(es));
}

/// The entries that passes over one stream write, if `reads` are the bytes that
/// they read, `times` when, and `leftover` what was held back before them.
pub open spec fn written(
    leftover: Seq<u8>,
    reads: Seq<Seq<u8>>,
    times: Seq<SystemTime>,
    stream: LogStream,
) -> Seq<records::EntrySpec>
    decreases reads.len(),
{
    if reads.len() == 0 {
        Seq::empty()
    } else {
        let s = leftover + reads[0];
        stamped(chunks(s), stream, times[0]) + written(
            held_back(s),
            reads.drop_first(),
            times.drop_first(),
            stream,
        )
    }
}

/// The batches that those passes append to `events.log`, one after the other.
pub open spec fn appended(
    leftover: Seq<u8>,
    reads: Seq<Seq<u8>>,
    times: Seq<SystemTime>,
    stream: LogStream,
) -> Seq<u8>
    decreases reads.len(),
{
    if reads.len() == 0 {
        Seq::empty()
    } else {
        let s = leftover + reads[0];
        records::encoded_all(stamped(chunks(s), stream, times[0])) + appended(
            held_back(s),
            reads.drop_first(),
            times.drop_first(),
            stream,
        )
    }
}

/// What those passes hold back in the end.
pub open spec fn pending(leftover: Seq<u8>, reads: Seq<Seq<u8>>) -> Seq<u8>
    decreases reads.len(),
{
    if reads.len() == 0 {
        leftover
    } else {
        pending(held_back(leftover + reads[0]), reads.drop_first())
    }
}

/// The data of entries, one after the other.
pub open spec fn payload(es: Seq<records::EntrySpec>) -> Seq<u8> {
    flattened(es.map_values(|e: records::EntrySpec| e.data))
}

proof fn lemma_flattened_concat(a: Seq<Seq<u8>>, b: Seq<Seq<u8>>)
    ensures
        flattened(a + b) == flattened(a) + flattened(b),
    decreases a.len(),
{
    if a.len() == 0 {
        assert(a + b =~= b);
        assert(flattened(a) + flattened(b) =~= flattened(b));
    } else {
        assert((a + b).drop_first() =~= a.drop_first() + b);
        lemma_flattened_concat(a.drop_first(), b);
        assert(flattened(a + b) =~= flattened(a) + flattened(b));
    }
}

proof fn lemma_payload(chunks: Seq<Seq<u8>>, stream: LogStream, timestamp: SystemTime, rest: Seq<
    records::EntrySpec,
>)
    ensures
        payload(stamped(chunks, stream, timestamp) + rest) == flattened(chunks) + payload(rest),
{
    let data = |e: records::EntrySpec| e.data;
    let all = stamped(chunks, stream, timestamp) + rest;
    assert(all.map_values(data) =~= chunks + rest.map_values(data));
    lemma_flattened_concat(chunks, rest.map_values(data));
}

/// What was written and what is held back together are what was read.
proof fn lemma_written_payload(
    leftover: Seq<u8>,
    reads: Seq<Seq<u8>>,
    times: Seq<SystemTime>,
    stream: LogStream,
)
    requires
        times.len() == reads.len(),
    ensures
        payload(written(leftover, reads, times, stream)) + pending(leftover, reads) == leftover
            + flattened(reads),
    decreases reads.len(),
{
    if reads.len() == 0 {
        assert(payload(written(leftover, reads, times, stream)) + pending(leftover, reads)
            =~= leftover + flattened(reads));
    } else {
        let s = leftover + reads[0];
        let rest = reads.drop_first();
        let later = written(held_back(s), rest, times.drop_first(), stream);
        lemma_written_payload(held_back(s), rest, times.drop_first(), stream);
        law_tailer_keeps_every_byte(s);
        lemma_payload(chunks(s), stream, times[0], later);
        let front = flattened(chunks(s));
        let held = held_back(s);
        assert((front + payload(later)) + pending(held, rest) =~= front + (payload(later)
            + pending(held, rest)));
        assert(front + (held + flattened(rest)) =~= (front + held) + flattened(rest));
        assert(leftover + (reads[0] + flattened(rest)) =~= s + flattened(rest));
    }
}

/// What is held back stays below the limit, whatever is read.
proof fn lemma_pending_small(leftover: Seq<u8>, reads: Seq<Seq<u8>>)
    requires
        leftover.len() < MAX_LEFTOVER_BYTES,
    ensures
        pending(leftover, reads).len() < MAX_LEFTOVER_BYTES,
    decreases reads.len(),
{
    if reads.len() > 0 {
        lemma_pending_small(held_back(leftover + reads[0]), reads.drop_first());
    }
}

/// The batches are the records of what was written.
proof fn lemma_appended(
    leftover: Seq<u8>,
    reads: Seq<Seq<u8>>,
    times: Seq<SystemTime>,
    stream: LogStream,
)
    requires
        times.len() == reads.len(),
    ensures
        appended(leftover, reads, times, stream) == records::encoded_all(
            written(leftover, reads, times, stream),
        ),
    decreases reads.len(),
{
    if reads.len() > 0 {
        let s = leftover + reads[0];
        let rest = reads.drop_first();
        lemma_appended(held_back(s), rest, times.drop_first(), stream);
        records::lemma_encoded_concat(
            stamped(chunks(s), stream, times[0]),
            written(held_back(s), rest, times.drop_first(), stream),
        );
    }
}

/// However the bytes of a stream are cut into reads, the log holds all of them
/// in order, but for the incomplete line that is still held back; and a reader
/// of the log finds exactly the entries that were written.
pub proof fn law_log_holds_the_stream(
    leftover: Seq<u8>,
    reads: Seq<Seq<u8>>,
    times: Seq<SystemTime>,
    stream: LogStream,
)
    requires
        leftover.len() < MAX_LEFTOVER_BYTES,
        times.len() == reads.len(),
        forall|i: int| 0 <= i < reads.len() ==> (#[trigger] reads[i]).len() <= MAX_READ_CHUNK,
    ensures
        ({
            let es = written(leftover, reads, times, stream);
            let log = appended(leftover, reads, times, stream);
            &&& payload(es) + pending(leftover, reads) == leftover + flattened(reads)
            &&& pending(leftover, reads).len() < MAX_LEFTOVER_BYTES
            &&& log == records::encoded_all(es)
            &&& records::entries(log) == records::stored_all(es)
            &&& records::unread(log).len() == 0
        }),
{
    let es = written(leftover, reads, times, stream);
    lemma_written_payload(leftover, reads, times, stream);
    lemma_pending_small(leftover, reads);
    lemma_appended(leftover, reads, times, stream);
    lemma_written_small(leftover, reads, times, stream);
    records::law_parse_of_encoded(es, Seq::empty());
    assert(records::encoded_all(es) + Seq::<u8>::empty() =~= records::encoded_all(es));
    assert(records::stored_all(es) + records::entries(Seq::empty()) =~= records::stored_all(es));
}

proof fn lemma_written_small(
    leftover: Seq<u8>,
    reads: Seq<Seq<u8>>,
    times: Seq<SystemTime>,
    stream: LogStream,
)
    requires
        leftover.len() < MAX_LEFTOVER_BYTES,
        times.len() == reads.len(),
        forall|i: int| 0 <= i < reads.len() ==> (#[trigger] reads[i]).len() <= MAX_READ_CHUNK,
    ensures
        forall|i: int|
            0 <= i < written(leftover, reads, times, stream).len() ==> (#[trigger] written(
                leftover,
                reads,
                times,
                stream,
            )[i]).data.len() <= MAX_RECORD_BYTES,
    decreases reads.len(),
{
    if reads.len() > 0 {
        let s = leftover + reads[0];
        lemma_lines_partial(s);
        let rest = reads.drop_first();
        assert forall|i: int| 0 <= i < rest.len() implies (#[trigger] rest[i]).len()
            <= MAX_READ_CHUNK by {
            assert(rest[i] == reads[i + 1]);
        }
        lemma_written_small(held_back(s), rest, times.drop_first(), stream);
        let now = stamped(chunks(s), stream, times[0]);
        let later = written(held_back(s), rest, times.drop_first(), stream);
        assert forall|i: int|
            0 <= i < written(leftover, reads, times, stream).len() implies (#[trigger] written(
            leftover,
            reads,
            times,
            stream,
        )[i]).data.len() <= MAX_RECORD_BYTES by {
            if i < now.len() {
                assert(now[i].data == chunks(s)[i]);
                if i < lines(s).len() {
                    assert(chunks(s)[i] == lines(s)[i]);
                }
            } else {
                assert(later[i - now.len()].data.len() <= MAX_RECORD_BYTES);
            }
        }
    }
}

/// A file operation of a pass, behind opening the raw file.
#[derive(Debug, Clone, Copy, PartialEq, Eq, Structural)]
pub enum TailerIo {
    StatRaw,
    SeekRaw,
    ReadRaw,
    OpenEvents,
    WriteEvents,
    /// Create `events.log` anew after a rotation.
    CreateEvents,
}

/// What is said of a failed operation.
pub open spec fn tailer_context(io: TailerIo) -> Seq<char> {
    match io {
        TailerIo::StatRaw => "tailer: stat raw"@,
        TailerIo::SeekRaw => "tailer: seek raw"@,
        TailerIo::ReadRaw => "tailer: read raw"@,
        TailerIo::OpenEvents => "tailer: open events"@,
        TailerIo::WriteEvents => "tailer: write events"@,
        TailerIo::CreateEvents => "tailer: create new events after rotate"@,
    }
}

/// A failed pass says which operation failed, and on which file.
pub proof fn law_tailer_context()
    ensures
        tailer_context(TailerIo::StatRaw) == "tailer: stat raw"@,
        tailer_context(TailerIo::SeekRaw) == "tailer: seek raw"@,
        tailer_context(TailerIo::ReadRaw) == "tailer: read raw"@,
        tailer_context(TailerIo::OpenEvents) == "tailer: open events"@,
        tailer_context(TailerIo::WriteEvents) == "tailer: write events"@,
        tailer_context(TailerIo::CreateEvents) == "tailer: create new events after rotate"@,
{
}

/// The error of a pass in which a file operation failed.
pub fn tailer_failed(io: TailerIo, source: IoError) -> (e: Error)
    ensures
        e@ == (ErrorSpec::Io { context: tailer_context(io), source: source@ }),
{
    let context: &'static str = match io {
        TailerIo::StatRaw => "tailer: stat raw",
        TailerIo::SeekRaw => "tailer: seek raw",
        TailerIo::ReadRaw => "tailer: read raw",
        TailerIo::OpenEvents => "tailer: open events",
        TailerIo::WriteEvents => "tailer: write events",
        TailerIo::CreateEvents => "tailer: create new events after rotate",
    };
    Error::Io { context, source }
}

/// The length of `events.log`; a file that does not exist (yet) is empty.
pub fn events_len(stat: core::result::Result<u64, IoError>) -> (out: Result<u64>)
    ensures
        match stat {
            Ok(len) => out == Ok::<u64, Error>(len),
            Err(source) => if source.kind == IoKind::NotFound {
                out == Ok::<u64, Error>(0)
            } else {
                out matches Err(e) && e@ == (ErrorSpec::Io {
                    context: "tailer: stat events"@,
                    source: source@,
                })
            },
        },
{
    match stat {
        Ok(len) => Ok(len),
        Err(source) => match source.kind {
            IoKind::NotFound => Ok(0),
            _ => Err(Error::Io { context: "tailer: stat events", source }),
        },
    }
}

/// Whether appending `incoming` bytes would push `events.log` past the
/// rotation threshold.
pub fn needs_rotation(current_len: u64, incoming: u64) -> (rotate: bool)
    ensures
        rotate == (current_len + incoming > EVENTS_ROTATE_BYTES),
{
    current_len > EVENTS_ROTATE_BYTES || incoming > EVENTS_ROTATE_BYTES - current_len
}

/// One step of a rotation.
#[derive(Debug)]
pub enum RotationStep {
    /// Remove the file; a failure is ignored.
    Remove(String),
    /// Rename the file if it exists; a failure leaves a gap and is passed over.
    Rename(String, String),
    /// Create the file empty if it does not exist.
    Create(String),
}

#[verifier::ext_equal]
pub enum RotationStepSpec {
    Remove(Seq<char>),
    Rename(Seq<char>, Seq<char>),
    Create(Seq<char>),
}

impl View for RotationStep {
    type V = RotationStepSpec;

    open spec fn view(&self) -> RotationStepSpec {
        match *self {
            RotationStep::Remove(p) => RotationStepSpec::Remove(p@),
            RotationStep::Rename(a, b) => RotationStepSpec::Rename(a@, b@),
            RotationStep::Create(p) => RotationStepSpec::Create(p@),
        }
    }
}

/// The steps of a rotation: prune the oldest file, shift the others up by one,
/// and start a new `events.log`. It is recreated at once so that a concurrent
/// follower sees no gap.
pub open spec fn rotation(path: Seq<char>) -> Seq<RotationStepSpec> {
    seq![
        RotationStepSpec::Remove(paths::rotated(path, 5)),
        RotationStepSpec::Rename(paths::rotated(path, 4), paths::rotated(path, 5)),
        RotationStepSpec::Rename(paths::rotated(path, 3), paths::rotated(path, 4)),
        RotationStepSpec::Rename(paths::rotated(path, 2), paths::rotated(path, 3)),
        RotationStepSpec::Rename(paths::rotated(path, 1), paths::rotated(path, 2)),
        RotationStepSpec::Rename(path, paths::rotated(path, 1)),
        RotationStepSpec::Create(path),
    ]
}

pub open spec fn step_views(steps: Seq<RotationStep>) -> Seq<RotationStepSpec> {
    steps.map_values(|s: RotationStep| s@)
}

/// The steps of a rotation, in order.
pub fn rotation_plan(events_path: &str) -> (steps: Vec<RotationStep>)
    ensures
        step_views(steps@) == rotation(events_path@),
{
    let mut steps: Vec<RotationStep> = Vec::new();
    steps.push(RotationStep::Remove(paths::rotated_path(events_path, MAX_ROTATED_FILES)));
    let mut n: u64 = MAX_ROTATED_FILES - 1;
    while n >= 1
        invariant
            0 <= n <= 4,
            steps@.len() == 5 - n,
            forall|i: int|
                0 <= i < 5 - n ==> (#[trigger] steps@[i])@ == rotation(events_path@)[i],
        decreases n,
    {
        steps.push(
            RotationStep::Rename(
                paths::rotated_path(events_path, n),
                paths::rotated_path(events_path, n + 1),
            ),
        );
        n = n - 1;
    }
    steps.push(
        RotationStep::Rename(String::from_str(events_path), paths::rotated_path(events_path, 1)),
    );
    steps.push(RotationStep::Create(String::from_str(events_path)));
    assert(step_views(steps@) =~= rotation(events_path@));
    steps
}

/// Files by path, as rotation sees them.
pub open spec fn apply_step(fs: Map<Seq<char>, Seq<u8>>, step: RotationStepSpec) -> Map<
    Seq<char>,
    Seq<u8>,
> {
    match step {
        RotationStepSpec::Remove(p) => fs.remove(p),
        RotationStepSpec::Rename(a, b) => if fs.dom().contains(a) {
            fs.remove(a).insert(b, fs[a])
        } else {
            fs
        },
        RotationStepSpec::Create(p) => if fs.dom().contains(p) {
            fs
        } else {
            fs.insert(p, Seq::empty())
        },
    }
}

pub open spec fn apply_steps(
    fs: Map<Seq<char>, Seq<u8>>,
    steps: Seq<RotationStepSpec>,
) -> Map<Seq<char>, Seq<u8>>
    decreases steps.len(),
{
    if steps.len() == 0 {
        fs
    } else {
        apply_steps(apply_step(fs, steps[0]), steps.drop_first())
    }
}

/// Whether `path`'s file is `p` and its content `data`, or neither exists.
pub open spec fn same_file(
    fs: Map<Seq<char>, Seq<u8>>,
    p: Seq<char>,
    old_fs: Map<Seq<char>, Seq<u8>>,
    q: Seq<char>,
) -> bool {
    &&& fs.dom().contains(p) == old_fs.dom().contains(q)
    &&& fs.dom().contains(p) ==> fs[p] == old_fs[q]
}

/// A rotation whose steps all succeed, but for renames of files that do not
/// exist, moves every file up by one, drops the oldest, leaves `events.log`
/// empty and touches nothing else.
pub proof fn law_rotation_shifts(fs: Map<Seq<char>, Seq<u8>>, stem: Seq<char>)
    requires
        stem.len() > 0,
        stem.last() != '/',
    ensures
        ({
            let path = stem + ".log"@;
            let after = apply_steps(fs, rotation(path));
            &&& after.dom().contains(path) && after[path] == Seq::<u8>::empty()
            &&& same_file(after, paths::rotated(path, 1), fs, path)
            &&& same_file(after, paths::rotated(path, 2), fs, paths::rotated(path, 1))
            &&& same_file(after, paths::rotated(path, 3), fs, paths::rotated(path, 2))
            &&& same_file(after, paths::rotated(path, 4), fs, paths::rotated(path, 3))
            &&& same_file(after, paths::rotated(path, 5), fs, paths::rotated(path, 4))
            &&& forall|p: Seq<char>|
                p != path && (forall|n: nat| 1 <= n <= 5 ==> p != #[trigger] paths::rotated(path, n))
                    ==> #[trigger] same_file(after, p, fs, p)
        }),
{
    let path = stem + ".log"@;
    let steps = rotation(path);
    let r1 = paths::rotated(path, 1);
    let r2 = paths::rotated(path, 2);
    let r3 = paths::rotated(path, 3);
    let r4 = paths::rotated(path, 4);
    let r5 = paths::rotated(path, 5);
    lemma_rotated_distinct(stem);
    let f1 = apply_step(fs, steps[0]);
    let f2 = apply_step(f1, steps[1]);
    let f3 = apply_step(f2, steps[2]);
    let f4 = apply_step(f3, steps[3]);
    let f5 = apply_step(f4, steps[4]);
    let f6 = apply_step(f5, steps[5]);
    let f7 = apply_step(f6, steps[6]);
    assert(apply_steps(fs, steps) == f7) by {
        let s1 = steps.drop_first();
        let s2 = s1.drop_first();
        let s3 = s2.drop_first();
        let s4 = s3.drop_first();
        let s5 = s4.drop_first();
        let s6 = s5.drop_first();
        let s7 = s6.drop_first();
        assert(s1[0] == steps[1] && s2[0] == steps[2] && s3[0] == steps[3] && s4[0] == steps[4]
            && s5[0] == steps[5] && s6[0] == steps[6]);
        assert(s7.len() == 0);
        assert(apply_steps(f6, s6) == apply_steps(f7, s7));
        assert(apply_steps(f5, s5) == apply_steps(f6, s6));
        assert(apply_steps(f4, s4) == apply_steps(f5, s5));
        assert(apply_steps(f3, s3) == apply_steps(f4, s4));
        assert(apply_steps(f2, s2) == apply_steps(f3, s3));
        assert(apply_steps(f1, s1) == apply_steps(f2, s2));
    }
    assert forall|p: Seq<char>|
        p != path && (forall|n: nat| 1 <= n <= 5 ==> p != #[trigger] paths::rotated(path, n)) implies
        #[trigger] same_file(f7, p, fs, p) by {
        assert(p != r1 && p != r2 && p != r3 && p != r4 && p != r5);
    }
}

/// The paths of a rotation all differ.
proof fn lemma_rotated_distinct(stem: Seq<char>)
    requires
        stem.len() > 0,
        stem.last() != '/',
    ensures
        ({
            let path = stem + ".log"@;
            &&& forall|n: nat, m: nat|
                1 <= n < m <= 5 ==> #[trigger] paths::rotated(path, n) != #[trigger] paths::rotated(
                    path,
                    m,
                )
            &&& forall|n: nat| 1 <= n <= 5 ==> #[trigger] paths::rotated(path, n) != path
        }),
{
    let path = stem + ".log"@;
    reveal_strlit(".log");
    reveal_strlit(".log.");
    assert forall|n: nat| 1 <= n <= 5 implies {
        &&& (#[trigger] paths::rotated(path, n)).len() == path.len() + 2
        &&& paths::rotated(path, n).last() == (48 + n) as char
    } by {
        paths::lemma_rotated_log(stem, n);
        assert(crate::numeral::decimal(n) =~= seq![(48 + n) as char]);
    }
    assert forall|n: nat, m: nat| 1 <= n < m <= 5 implies #[trigger] paths::rotated(path, n)
        != #[trigger] paths::rotated(path, m) by {
        assert(paths::rotated(path, n).last() != paths::rotated(path, m).last());
    }
}

/// Where the loop of the tailer stands.
#[derive(Debug, Clone, Copy, PartialEq, Eq, Structural)]
pub enum TailerPhase {
    /// Drain both streams.
    Pass,
    /// Sleep until the next pass, or until the stop signal.
    Wait,
    /// Drain both streams once more, so that what was written between the stop
    /// signal and shutdown still lands in `events.log`.
    FinalPass,
    Done,
}

/// The phase after `phase`. `give_up` says whether a pass failed once too
/// often, `stopped` whether a sleep was cut short by the stop signal.
pub open spec fn tailer_next(phase: TailerPhase, give_up: bool, stopped: bool) -> TailerPhase {
    match phase {
        TailerPhase::Pass => if give_up {
            TailerPhase::Done
        } else {
            TailerPhase::Wait
        },
        TailerPhase::Wait => if stopped {
            TailerPhase::FinalPass
        } else {
            TailerPhase::Pass
        },
        _ => TailerPhase::Done,
    }
}

/// Decides how the tailer goes on.
pub fn tailer_step(phase: TailerPhase, give_up: bool, stopped: bool) -> (next: TailerPhase)
    ensures
        next == tailer_next(phase, give_up, stopped),
{
    match phase {
        TailerPhase::Pass => if give_up {
            TailerPhase::Done
        } else {
            TailerPhase::Wait
        },
        TailerPhase::Wait => if stopped {
            TailerPhase::FinalPass
        } else {
            TailerPhase::Pass
        },
        _ => TailerPhase::Done,
    }
}

/// A tailer that is stopped while it sleeps makes one more pass and then ends,
/// whatever that pass finds.
pub proof fn law_stopped_tailer_drains_once(give_up: bool, stopped: bool)
    ensures
        tailer_next(TailerPhase::Wait, give_up, true) == TailerPhase::FinalPass,
        tailer_next(TailerPhase::FinalPass, give_up, stopped) == TailerPhase::Done,
        tailer_next(TailerPhase::Done, give_up, stopped) == TailerPhase::Done,
{
}

/// A tailer sleeps after every pass and makes a pass after every sleep, until it
/// gives up or is stopped.
pub proof fn law_tailer_steps(give_up: bool, stopped: bool)
    ensures
        tailer_next(TailerPhase::Pass, false, stopped) == TailerPhase::Wait,
        tailer_next(TailerPhase::Pass, true, stopped) == TailerPhase::Done,
        tailer_next(TailerPhase::Wait, give_up, false) == TailerPhase::Pass,
{
}

/// Consecutive failed passes over each of the two streams.
#[derive(Debug, Clone, Copy, PartialEq, Eq, Structural)]
pub struct TailerErrors {
    pub stdout: u32,
    pub stderr: u32,
}

/// The failures in a row after one more pass.
pub open spec fn counted(errors: u32, ok: bool) -> u32 {
    if ok {
        0
    } else if errors < MAX_CONSECUTIVE_ERRORS {
        (errors + 1) as u32
    } else {
        errors
    }
}

/// A pass that goes well makes up for all that failed before; one that fails is
/// counted, up to the fiftieth in a row.
pub proof fn law_counted(errors: u32)
    ensures
        counted(errors, true) == 0,
        errors < 50 ==> counted(errors, false) == errors + 1,
        errors >= 50 ==> counted(errors, false) == errors,
{
}

impl TailerErrors {
    pub fn new() -> (e: Self)
        ensures
            e == (TailerErrors { stdout: 0, stderr: 0 }),
    {
        TailerErrors { stdout: 0, stderr: 0 }
    }

    /// Records how a pass over both streams went; returns whether the tailer
    /// gives up. Either stream failing too often in a row is enough.
    pub fn after_pass(&mut self, stdout_ok: bool, stderr_ok: bool) -> (give_up: bool)
        ensures
            final(self).stdout == counted(old(self).stdout, stdout_ok),
            final(self).stderr == counted(old(self).stderr, stderr_ok),
            give_up == (final(self).stdout >= MAX_CONSECUTIVE_ERRORS || final(self).stderr
                >= MAX_CONSECUTIVE_ERRORS),
    {
        if stdout_ok {
            self.stdout = 0;
        } else if self.stdout < MAX_CONSECUTIVE_ERRORS {
            self.stdout = self.stdout + 1;
        }
        if stderr_ok {
            self.stderr = 0;
        } else if self.stderr < MAX_CONSECUTIVE_ERRORS {
            self.stderr = self.stderr + 1;
        }
        self.stdout >= MAX_CONSECUTIVE_ERRORS || self.stderr >= MAX_CONSECUTIVE_ERRORS
    }
}

} // verus!
