//! Frames on the worker pipe.
//!
//! A frame is a four-byte big-endian length followed by that many bytes of JSON, so that the
//! receiver can refuse an oversized payload before it makes room for it.

use serde_json::Value;
use vstd::prelude::*;
use vstd::string::*;

use crate::errors::numbered;
use crate::json::encode_into;

verus! {

/// Largest encoded payload in one frame, in bytes.
pub const MAX_FRAME_BYTES: usize = 16777216;

/// What is said of a stream that ends inside a frame.
pub const TRUNCATED: &'static str = "failed to fill whole buffer";

/// Why a frame could not be written or read.
#[derive(Debug)]
pub enum FrameError {
    Io(String),
    Oversized { size: usize },
    InvalidJson(String),
}

impl FrameError {
    pub open spec fn text(self) -> Seq<char> {
        match self {
            FrameError::Io(error) => "worker pipe I/O error: "@ + error@,
            FrameError::Oversized { size } => "worker frame is "@ + crate::text::decimal(
                size as nat,
            ) + " bytes, over the 16777216-byte limit"@,
            FrameError::InvalidJson(error) => "worker frame is not valid JSON: "@ + error@,
        }
    }

    /// The error in words.
    pub fn message(&self) -> (message: String)
        ensures
            message@ == self.text(),
    {
        match self {
            FrameError::Io(error) => {
                "worker pipe I/O error: ".to_owned().concat(error.as_str())
            },
            FrameError::Oversized { size } => numbered(
                "worker frame is ",
                *size,
                " bytes, over the 16777216-byte limit",
            ),
            FrameError::InvalidJson(error) => {
                "worker frame is not valid JSON: ".to_owned().concat(error.as_str())
            },
        }
    }
}

/// The number that four big-endian bytes stand for.
pub open spec fn be_value(header: Seq<u8>) -> nat
    recommends
        header.len() == 4,
{
    (header[0] * 16777216 + header[1] * 65536 + header[2] * 256 + header[3]) as nat
}

/// A number below 2^32 in four big-endian bytes.
pub open spec fn be_bytes(n: nat) -> Seq<u8> {
    seq![
        (n / 16777216) as u8,
        (n / 65536 % 256) as u8,
        (n / 256 % 256) as u8,
        (n % 256) as u8,
    ]
}

proof fn lemma_be_round_trip(n: nat)
    requires
        n < 0x1_0000_0000,
    ensures
        be_value(be_bytes(n)) == n,
{
    assert(n / 16777216 < 256);
    assert(n / 256 / 256 == n / 65536);
    assert(n / 65536 / 256 == n / 16777216);
    assert(n == n / 256 * 256 + n % 256);
    assert(n / 256 == n / 256 / 256 * 256 + n / 256 % 256);
    assert(n / 65536 == n / 65536 / 256 * 256 + n / 65536 % 256);
}

/// A payload as a frame.
pub open spec fn framed(payload: Seq<u8>) -> Seq<u8> {
    be_bytes(payload.len()) + payload
}

/// Writes one frame. A payload over the limit is refused, and then nothing is written.
pub fn write_frame(out: &mut Vec<u8>, payload: &Vec<u8>) -> (written: Result<(), FrameError>)
    ensures
        payload@.len() <= MAX_FRAME_BYTES ==> written is Ok && final(out)@ == old(out)@ + framed(
            payload@,
        ),
        payload@.len() > MAX_FRAME_BYTES ==> written == Err::<(), FrameError>(
            FrameError::Oversized { size: (MAX_FRAME_BYTES + 1) as usize },
        ) && *final(out) == *old(out),
{
    let size: usize = payload.len();
    if size > MAX_FRAME_BYTES {
        return Err(FrameError::Oversized { size: MAX_FRAME_BYTES + 1 });
    }
    out.push((size / 16777216) as u8);
    out.push((size / 65536 % 256) as u8);
    out.push((size / 256 % 256) as u8);
    out.push((size % 256) as u8);
    proof {
        assert(out@ =~= old(out)@ + be_bytes(payload@.len()));
    }
    let mut at: usize = 0;
    while at < size
        invariant
            at <= size,
            size == payload@.len(),
            out@ == old(out)@ + be_bytes(payload@.len()) + payload@.take(at as int),
        decreases size - at,
    {
        out.push(payload[at]);
        at = at + 1;
        proof {
            assert(payload@.take(at as int) =~= payload@.take(at - 1).push(payload@[at - 1]));
        }
    }
    proof {
        assert(payload@.take(at as int) =~= payload@);
        assert(out@ =~= old(out)@ + framed(payload@));
    }
    Ok(())
}

/// What stands in a stream of bytes.
pub enum Standing {
    /// The stream ends here, between frames.
    End,
    /// The stream ends inside a frame.
    Cut,
    /// A header that gives no length that is accepted.
    Refused { size: nat },
    Payload(Seq<u8>),
}

/// What stands in `data` from `at` on.
pub open spec fn standing(data: Seq<u8>, at: int) -> Standing {
    if at >= data.len() {
        Standing::End
    } else if at + 4 > data.len() {
        Standing::Cut
    } else {
        let size = be_value(data.subrange(at, at + 4));
        if size == 0 || size > MAX_FRAME_BYTES {
            Standing::Refused { size }
        } else if at + 4 + size > data.len() {
            Standing::Cut
        } else {
            Standing::Payload(data.subrange(at + 4, at + 4 + size))
        }
    }
}

/// Where a reader stands within a frame.
pub enum FrameReader {
    /// Before a frame.
    Start,
    /// After the first byte of the length.
    Header { first: u8 },
    /// After the length.
    Body { size: usize },
}

/// What a reader has after a chunk.
pub enum Fed {
    /// The frame goes on.
    More,
    /// The stream ended between frames.
    Closed,
    /// A whole payload; the reader stands before the next frame.
    Payload(Vec<u8>),
    Failed(FrameError),
}

impl FrameReader {
    pub open spec fn wf(&self) -> bool {
        match self {
            FrameReader::Body { size } => 0 < *size <= MAX_FRAME_BYTES,
            _ => true,
        }
    }

    /// How many bytes the reader takes next.
    pub open spec fn next_len(&self) -> nat {
        match self {
            FrameReader::Start => 1,
            FrameReader::Header { .. } => 3,
            FrameReader::Body { size } => *size as nat,
        }
    }

    pub fn new() -> (reader: FrameReader)
        ensures
            reader.wf(),
            reader == FrameReader::Start,
    {
        FrameReader::Start
    }

    /// How many bytes the reader takes next.
    pub fn wants(&self) -> (count: usize)
        ensures
            count == self.next_len(),
    {
        match self {
            FrameReader::Start => 1,
            FrameReader::Header { .. } => 3,
            FrameReader::Body { size } => *size,
        }
    }

    /// Takes the next bytes of the stream: as many as it wants, or fewer at the stream's end.
    /// The length is judged as soon as it is there, before any byte of the body is asked for.
    pub fn feed(&mut self, chunk: Vec<u8>) -> (fed: Fed)
        requires
            old(self).wf(),
            chunk@.len() <= old(self).next_len(),
        ensures
            final(self).wf(),
            chunk@.len() < old(self).next_len() ==> *final(self) == *old(self) && if *old(self)
                is Start {
                fed is Closed
            } else {
                fed matches Fed::Failed(FrameError::Io(error)) && error@ == TRUNCATED@
            },
            chunk@.len() == old(self).next_len() ==> match *old(self) {
                FrameReader::Start => fed is More && *final(self) == (FrameReader::Header {
                    first: chunk@[0],
                }),
                FrameReader::Header { first } => {
                    let size = be_value(seq![first] + chunk@);
                    if size == 0 || size > MAX_FRAME_BYTES {
                        &&& fed == Fed::Failed(FrameError::Oversized { size: size as usize })
                        &&& *final(self) == *old(self)
                    } else {
                        fed is More && *final(self) == (FrameReader::Body { size: size as usize })
                    }
                },
                FrameReader::Body { size } => fed == Fed::Payload(chunk) && *final(self)
                    == FrameReader::Start,
            },
    {
        if chunk.len() < self.wants() {
            return match self {
                FrameReader::Start => Fed::Closed,
                _ => Fed::Failed(FrameError::Io(TRUNCATED.to_owned())),
            };
        }
        match self {
            FrameReader::Start => {
                *self = FrameReader::Header { first: chunk[0] };
                Fed::More
            },
            FrameReader::Header { first } => {
                let size: usize = (*first as usize) * 16777216 + (chunk[0] as usize) * 65536 + (
                chunk[1] as usize) * 256 + (chunk[2] as usize);
                if size == 0 || size > MAX_FRAME_BYTES {
                    return Fed::Failed(FrameError::Oversized { size });
                }
                *self = FrameReader::Body { size };
                Fed::More
            },
            FrameReader::Body { .. } => {
                *self = FrameReader::Start;
                Fed::Payload(chunk)
            },
        }
    }
}

/// Bytes in memory, read from the front.
pub struct ByteStream {
    pub bytes: Vec<u8>,
    pub position: usize,
}

impl ByteStream {
    pub open spec fn wf(&self) -> bool {
        self.position <= self.bytes@.len()
    }

    pub fn new(bytes: Vec<u8>) -> (stream: ByteStream)
        ensures
            stream.wf(),
            stream.bytes == bytes,
            stream.position == 0,
    {
        ByteStream { bytes, position: 0 }
    }

    /// The next `count` bytes, or as many as are left.
    fn take(&mut self, count: usize) -> (chunk: Vec<u8>)
        requires
            old(self).wf(),
        ensures
            final(self).wf(),
            final(self).bytes == old(self).bytes,
            final(self).position == (if old(self).position + count <= old(self).bytes@.len() {
                old(self).position + count
            } else {
                old(self).bytes@.len() as int
            }),
            chunk@ == old(self).bytes@.subrange(
                old(self).position as int,
                final(self).position as int,
            ),
    {
        let start: usize = self.position;
        let mut chunk: Vec<u8> = Vec::new();
        while chunk.len() < count && self.position < self.bytes.len()
            invariant
                self.bytes == old(self).bytes,
                start == old(self).position,
                start <= self.position <= self.bytes@.len(),
                chunk@.len() == self.position - start,
                chunk@.len() <= count,
                chunk@ == self.bytes@.subrange(start as int, self.position as int),
            decreases count - chunk.len(),
        {
            chunk.push(self.bytes[self.position]);
            self.position = self.position + 1;
        }
        chunk
    }
}

/// Reads one payload. The end of the stream before a frame is no error; inside one it is. A
/// length that is refused leaves the stream right behind the length.
pub fn read_frame(stream: &mut ByteStream) -> (read: Result<Option<Vec<u8>>, FrameError>)
    requires
        old(stream).wf(),
    ensures
        final(stream).wf(),
        final(stream).bytes == old(stream).bytes,
        match standing(old(stream).bytes@, old(stream).position as int) {
            Standing::End => read == Ok::<Option<Vec<u8>>, FrameError>(None)
                && final(stream).position == old(stream).position,
            Standing::Cut => (read matches Err(FrameError::Io(error)) && error@ == TRUNCATED@)
                && final(stream).position == old(stream).bytes@.len(),
            Standing::Refused { size } => read == Err::<Option<Vec<u8>>, FrameError>(
                FrameError::Oversized { size: size as usize },
            ) && final(stream).position == old(stream).position + 4,
            Standing::Payload(payload) => (read matches Ok(Some(bytes)) && bytes@ == payload)
                && final(stream).position == old(stream).position + 4 + payload.len(),
        },
{
    let ghost at = stream.position as int;
    let ghost data = stream.bytes@;
    let mut reader = FrameReader::new();
    let first = stream.take(1);
    match reader.feed(first) {
        Fed::More => {},
        Fed::Closed => return Ok(None),
        Fed::Failed(error) => return Err(error),
        Fed::Payload(payload) => return Ok(Some(payload)),
    }
    let rest = stream.take(3);
    proof {
        if at + 4 <= data.len() {
            assert(seq![data[at]] + data.subrange(at + 1, at + 4) =~= data.subrange(at, at + 4));
        }
    }
    match reader.feed(rest) {
        Fed::More => {},
        Fed::Closed => return Ok(None),
        Fed::Failed(error) => return Err(error),
        Fed::Payload(payload) => return Ok(Some(payload)),
    }
    let size: usize = reader.wants();
    let body = stream.take(size);
    match reader.feed(body) {
        Fed::Payload(payload) => Ok(Some(payload)),
        Fed::Failed(error) => Err(error),
        Fed::More => Ok(None),
        Fed::Closed => Ok(None),
    }
}

/// A frame reads back as the payload that was written, wherever it stands in the stream and
/// whatever follows it.
pub proof fn law_frame_reads_back(before: Seq<u8>, payload: Seq<u8>, rest: Seq<u8>)
    requires
        0 < payload.len() <= MAX_FRAME_BYTES,
    ensures
        standing(before + framed(payload) + rest, before.len() as int) == Standing::Payload(
            payload,
        ),
{
    let data = before + framed(payload) + rest;
    let at = before.len() as int;
    lemma_be_round_trip(payload.len());
    assert(data.subrange(at, at + 4) =~= be_bytes(payload.len()));
    assert(data.subrange(at + 4, at + 4 + payload.len()) =~= payload);
}

/// A frame that the stream breaks off is an error wherever it breaks off, except before its
/// first byte.
pub proof fn law_cut_frame_is_an_error(before: Seq<u8>, payload: Seq<u8>, kept: int)
    requires
        0 < payload.len() <= MAX_FRAME_BYTES,
        0 < kept < framed(payload).len(),
    ensures
        standing(before + framed(payload).take(kept), before.len() as int) == Standing::Cut,
        standing(before, before.len() as int) == Standing::End,
{
    let data = before + framed(payload).take(kept);
    let at = before.len() as int;
    lemma_be_round_trip(payload.len());
    if kept >= 4 {
        assert(data.subrange(at, at + 4) =~= be_bytes(payload.len()));
    }
}

/// A length over the limit, or of zero, is refused by its four bytes alone.
pub proof fn law_bad_length_needs_no_body(before: Seq<u8>, size: nat, body: Seq<u8>)
    requires
        size < 0x1_0000_0000,
        size == 0 || size > MAX_FRAME_BYTES,
    ensures
        standing(before + be_bytes(size) + body, before.len() as int) == (Standing::Refused {
            size,
        }),
{
    let data = before + be_bytes(size) + body;
    let at = before.len() as int;
    lemma_be_round_trip(size);
    assert(data.subrange(at, at + 4) =~= be_bytes(size));
}

/// Passes bytes on as long as they stay within a limit.
pub struct LimitedWriter<W> {
    pub inner: W,
    pub limit: usize,
    pub written: usize,
    pub exceeded: bool,
}

impl<W> LimitedWriter<W> {
    pub open spec fn wf(&self) -> bool {
        self.written <= self.limit
    }

    pub fn new(inner: W, limit: usize) -> (writer: Self)
        ensures
            writer.wf(),
            writer == (LimitedWriter { inner, limit, written: 0, exceeded: false }),
    {
        LimitedWriter { inner, limit, written: 0, exceeded: false }
    }

    /// Whether `len` more bytes fit. Where they do not, none of them may be passed on, and the
    /// writer remembers it.
    pub fn accepts(&mut self, len: usize) -> (fits: bool)
        requires
            old(self).wf(),
        ensures
            fits == (old(self).written + len <= old(self).limit),
            final(self).wf(),
            final(self).exceeded == (old(self).exceeded || !fits),
            final(self).inner == old(self).inner,
            final(self).limit == old(self).limit,
            final(self).written == old(self).written,
    {
        if len > self.limit.saturating_sub(self.written) {
            self.exceeded = true;
            return false;
        }
        true
    }

    /// `count` bytes were passed on.
    pub fn advance(&mut self, count: usize)
        requires
            old(self).wf(),
            old(self).written + count <= old(self).limit,
        ensures
            final(self).wf(),
            final(self).written == old(self).written + count,
            final(self).inner == old(self).inner,
            final(self).limit == old(self).limit,
            final(self).exceeded == old(self).exceeded,
    {
        self.written = self.written + count;
    }

    /// What to report where encoding a frame through this writer failed with `detail`.
    pub fn failure(&self, detail: String) -> (error: FrameError)
        ensures
            error == (if self.exceeded {
                FrameError::Oversized { size: (MAX_FRAME_BYTES + 1) as usize }
            } else {
                FrameError::InvalidJson(detail)
            }),
    {
        if self.exceeded {
            FrameError::Oversized { size: MAX_FRAME_BYTES + 1 }
        } else {
            FrameError::InvalidJson(detail)
        }
    }
}

/// How many bytes chunks of the given lengths hold.
pub open spec fn total(lens: Seq<nat>) -> nat
    decreases lens.len(),
{
    if lens.len() == 0 {
        0
    } else {
        total(lens.drop_last()) + lens.last()
    }
}

/// Whether every chunk in turn fits behind `written` bytes that are within the limit.
pub open spec fn all_fit(limit: nat, written: nat, lens: Seq<nat>) -> bool
    decreases lens.len(),
{
    lens.len() > 0 ==> {
        &&& all_fit(limit, written, lens.drop_last())
        &&& written + total(lens.drop_last()) + lens.last() <= limit
    }
}

/// Whether an encoding passes does not depend on the chunks in which the encoder hands it over:
/// it passes when its whole length is within the limit.
pub proof fn law_limit_ignores_chunks(limit: nat, written: nat, lens: Seq<nat>)
    requires
        written <= limit,
    ensures
        all_fit(limit, written, lens) <==> written + total(lens) <= limit,
    decreases lens.len(),
{
    if lens.len() > 0 {
        law_limit_ignores_chunks(limit, written, lens.drop_last());
    }
}

/// The encoded size of a value, where it can be encoded within the limit.
pub open spec fn size_within(value: Value, limit: nat) -> Option<nat> {
    match crate::json::json_text(value) {
        Some(text) => if crate::text::utf8_len(text) <= limit {
            Some(crate::text::utf8_len(text))
        } else {
            None
        },
        None => None,
    }
}

/// The first room that an encoding is given, in bytes.
pub const FIRST_ROOM: usize = 65536;

/// What an attempt to encode a value comes to.
#[derive(Debug, Clone, Copy, PartialEq, Eq, Structural)]
pub enum Attempt {
    /// The encoding has this many bytes.
    Size(usize),
    /// There is no encoding within the limit.
    NoSize,
    /// Another attempt, with this much room.
    Wider(usize),
}

/// What an attempt with `len` bytes of room comes to, given the bytes that stayed free, or whether
/// it failed in writing. The room doubles until the limit is reached.
pub fn judge_attempt(len: usize, limit: usize, free: Result<usize, bool>) -> (attempt: Attempt)
    requires
        len <= limit,
        free matches Ok(n) ==> n <= len,
    ensures
        attempt == (match free {
            Ok(n) => Attempt::Size((len - n) as usize),
            Err(full) => if !full || len == limit {
                Attempt::NoSize
            } else if 2 * len <= limit {
                Attempt::Wider((2 * len) as usize)
            } else {
                Attempt::Wider(limit)
            },
        }),
{
    match free {
        Ok(n) => Attempt::Size(len - n),
        Err(full) => if !full || len == limit {
            Attempt::NoSize
        } else if len <= limit / 2 {
            Attempt::Wider(len * 2)
        } else {
            Attempt::Wider(limit)
        },
    }
}

/// The encoded size of a value in bytes, where it can be encoded within `limit` bytes. The value
/// is encoded into room that grows up to the limit, so that counting takes no more space than
/// the limit, and little more than twice the encoding.
pub fn json_size(value: &Value, limit: usize) -> (size: Option<usize>)
    ensures
        (match size {
            Some(n) => Some(n as nat),
            None => None,
        }) == size_within(*value, limit as nat),
{
    let mut len: usize = if limit < FIRST_ROOM {
        limit
    } else {
        FIRST_ROOM
    };
    loop
        invariant
            len <= limit,
            len < limit ==> 0 < len,
        decreases limit - len,
    {
        let mut room: Vec<u8> = vec![0u8; len];
        match judge_attempt(len, limit, encode_into(value, &mut room)) {
            Attempt::Size(size) => return Some(size),
            Attempt::NoSize => return None,
            Attempt::Wider(next) => {
                len = next;
            },
        }
    }
}

/// A stream of frames, one for each payload.
pub open spec fn stream_of(payloads: Seq<Seq<u8>>) -> Seq<u8>
    decreases payloads.len(),
{
    if payloads.len() == 0 {
        Seq::empty()
    } else {
        stream_of(payloads.drop_last()) + framed(payloads.last())
    }
}

/// Frames that were written one after the other read back one after the other, each as its
/// payload; and behind the last one the stream ends.
#[verifier::spinoff_prover]
pub proof fn law_frames_read_back_in_order(payloads: Seq<Seq<u8>>, i: int)
    requires
        forall|k: int|
            0 <= k < payloads.len() ==> 0 < (#[trigger] payloads[k]).len() <= MAX_FRAME_BYTES,
        0 <= i <= payloads.len(),
    ensures
        ({
            let at = stream_of(payloads.take(i)).len() as int;
            if i < payloads.len() {
                &&& standing(stream_of(payloads), at) == Standing::Payload(payloads[i])
                &&& stream_of(payloads.take(i + 1)).len() == at + 4 + payloads[i].len()
            } else {
                standing(stream_of(payloads), at) == Standing::End
            }
        }),
    decreases payloads.len(),
{
    if i == payloads.len() {
        assert(payloads.take(i) =~= payloads);
    } else {
        let before = stream_of(payloads.take(i));
        assert(stream_of(payloads.take(i + 1)).len() == before.len() + 4 + payloads[i].len()) by {
            let taken = payloads.take(i + 1);
            assert(taken.drop_last() =~= payloads.take(i));
            assert(taken.last() == payloads[i]);
        }
        let rest = lemma_stream_splits(payloads, i);
        law_frame_reads_back(before, payloads[i], rest);
    }
}

/// A stream is what stands before a frame, the frame, and a rest.
proof fn lemma_stream_splits(payloads: Seq<Seq<u8>>, i: int) -> (rest: Seq<u8>)
    requires
        0 <= i < payloads.len(),
    ensures
        stream_of(payloads) == stream_of(payloads.take(i)) + framed(payloads[i]) + rest,
    decreases payloads.len(),
{
    let front = payloads.drop_last();
    if i == payloads.len() - 1 {
        assert(payloads.take(i) =~= front);
        let rest = Seq::<u8>::empty();
        assert(stream_of(payloads) =~= stream_of(payloads.take(i)) + framed(payloads[i]) + rest);
        rest
    } else {
        let inner = lemma_stream_splits(front, i);
        assert(front.take(i) =~= payloads.take(i));
        let rest = inner + framed(payloads.last());
        assert(stream_of(payloads) =~= stream_of(payloads.take(i)) + framed(payloads[i]) + rest);
        rest
    }
}

/// A frame is its payload behind four bytes that give the payload's length, the most significant
/// first.
pub proof fn law_frame_is_length_and_payload(payload: Seq<u8>)
    requires
        payload.len() <= 16777216,
    ensures
        framed(payload).len() == payload.len() + 4,
        framed(payload)[0] * 16777216 + framed(payload)[1] * 65536 + framed(payload)[2] * 256
            + framed(payload)[3] == payload.len(),
        framed(payload).skip(4) == payload,
{
    lemma_be_round_trip(payload.len());
    assert(framed(payload).skip(4) =~= payload);
}

/// What a reader makes of a stream: nothing at its end; a cut where four bytes of length, or as
/// many bytes as they give, are not there; a refusal of a length that is zero or over the limit;
/// and else the bytes behind the length, as many as it gives.
pub proof fn law_stream_is_read_by_its_lengths(data: Seq<u8>, at: int)
    requires
        0 <= at <= data.len(),
    ensures
        at == data.len() ==> standing(data, at) is End,
        at < data.len() < at + 4 ==> standing(data, at) is Cut,
        at + 4 <= data.len() ==> {
            let size = data[at] * 16777216 + data[at + 1] * 65536 + data[at + 2] * 256 + data[at
                + 3];
            if size == 0 || size > 16777216 {
                standing(data, at) == (Standing::Refused { size: size as nat })
            } else if data.len() < at + 4 + size {
                standing(data, at) is Cut
            } else {
                standing(data, at) matches Standing::Payload(payload) && payload.len() == size
                    && forall|i: int| 0 <= i < size ==> payload[i] == data[at + 4 + i]
            }
        },
{
}

/// A size is given exactly where there is an encoding within the limit, and it is the encoding's.
pub proof fn law_size_is_given_within_the_limit(value: Value, limit: nat, size: nat)
    ensures
        size_within(value, limit) == Some(size) <==> (crate::json::json_text(value) matches Some(
            text,
        ) && vstd::utf8::encode_utf8(text).len() == size && size <= limit),
{
}

/// A larger limit gives the same size to every value that has one.
pub proof fn law_limit_only_cuts_off(value: Value, limit: nat, larger: nat)
    requires
        limit <= larger,
    ensures
        size_within(value, limit) is Some ==> size_within(value, larger) == size_within(
            value,
            limit,
        ),
{
}

/// A reader takes one byte before a frame, three more for the length, and then the body as a
/// whole.
pub proof fn law_reader_takes_a_frame_in_three(size: usize, first: u8)
    ensures
        FrameReader::Start.next_len() == 1,
        (FrameReader::Header { first }).next_len() == 3,
        (FrameReader::Body { size }).next_len() == size,
{
}

/// What is said of a failed frame keeps its detail whole: the pipe's or the parser's own error, or
/// the size, in decimal.
pub proof fn law_frame_errors_keep_their_detail(error: String, size: usize)
    ensures
        FrameError::Io(error).text() == "worker pipe I/O error: "@ + error@,
        FrameError::InvalidJson(error).text() == "worker frame is not valid JSON: "@ + error@,
        exists|digits: Seq<char>|
            (#[trigger] crate::text::value_of(digits)) == size && (FrameError::Oversized { size }).text() == "worker frame is "@ + digits + " bytes, over the 16777216-byte limit"@,
{
    crate::text::law_decimal_reads_back(size as nat);
    let digits = crate::text::decimal(size as nat);
    assert(crate::text::value_of(digits) == size);
}

} // verus!
