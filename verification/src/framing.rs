//! The envelope: a four-byte big-endian length, then exactly that many bytes.

use vstd::arithmetic::div_mod::lemma_fundamental_div_mod_converse;
use vstd::prelude::*;
use vstd::slice::slice_subrange;
use vstd::slice::slice_to_vec;

verus! {

/// Number of bytes in the length prefix.
pub const HEADER_LEN: usize = 4;

/// Why a frame could not be produced or accepted.
#[derive(Clone, Copy, Debug, PartialEq, Eq, Structural)]
pub enum FramingError {
    /// The stream ended before the header or the announced payload was complete.
    Truncated,
    /// The length is more than the receiver accepts, or more than 32 bits can announce.
    TooLarge,
}

/// The number that four bytes spell, most significant byte first.
pub open spec fn be_value(b: Seq<u8>) -> int
    recommends
        b.len() == 4,
{
    b[0] as int * 0x100_0000 + b[1] as int * 0x1_0000 + b[2] as int * 0x100 + b[3] as int
}

/// The four bytes that spell `n`, most significant byte first.
pub open spec fn be_bytes(n: int) -> Seq<u8>
    recommends
        0 <= n <= u32::MAX,
{
    seq![
        (n / 0x100_0000) as u8,
        (n / 0x1_0000 % 0x100) as u8,
        (n / 0x100 % 0x100) as u8,
        (n % 0x100) as u8,
    ]
}

/// A payload in its envelope.
pub open spec fn frame_of(payload: Seq<u8>) -> Seq<u8>
    recommends
        payload.len() <= u32::MAX,
{
    be_bytes(payload.len() as int) + payload
}

/// What a receiver that accepts payloads of up to `limit` bytes makes of
/// everything a stream produced before it ended.
pub open spec fn frame_result(limit: u32, stream: Seq<u8>) -> Result<Seq<u8>, FramingError> {
    if stream.len() < 4 {
        Err(FramingError::Truncated)
    } else if be_value(stream.take(4)) > limit {
        Err(FramingError::TooLarge)
    } else if stream.len() < 4 + be_value(stream.take(4)) {
        Err(FramingError::Truncated)
    } else {
        Ok(stream.subrange(4, 4 + be_value(stream.take(4))))
    }
}

/// How many leading bytes of `stream` a receiver takes: never more than the
/// header and the payload it announces, and only the header when the
/// announced length is over `limit`.
pub open spec fn taken_len(limit: u32, stream: Seq<u8>) -> int {
    if stream.len() < 4 {
        stream.len() as int
    } else if be_value(stream.take(4)) > limit {
        4
    } else if stream.len() < 4 + be_value(stream.take(4)) {
        stream.len() as int
    } else {
        4 + be_value(stream.take(4))
    }
}

/// The leading bytes of `stream` that a receiver takes.
pub open spec fn taken(limit: u32, stream: Seq<u8>) -> Seq<u8> {
    stream.take(taken_len(limit, stream))
}

/// Where a receiver stands after the bytes it has taken.
#[derive(Clone, Copy, Debug, PartialEq, Eq, Structural)]
pub enum Progress {
    /// So many bytes are still missing from the header or from the payload.
    Need(usize),
    /// Header and payload are complete.
    Complete,
    /// The header announces more than the receiver accepts.
    Oversized,
}

/// The progress of a receiver that has taken `received`.
pub open spec fn progress_of(limit: u32, received: Seq<u8>) -> Progress {
    if received.len() < 4 {
        Progress::Need((4 - received.len()) as usize)
    } else if be_value(received.take(4)) > limit {
        Progress::Oversized
    } else if received.len() < 4 + be_value(received.take(4)) {
        Progress::Need((4 + be_value(received.take(4)) - received.len()) as usize)
    } else {
        Progress::Complete
    }
}

/// Four bytes spell a number that fits in 32 bits.
pub proof fn be_value_bounds(b: Seq<u8>)
    requires
        b.len() == 4,
    ensures
        0 <= be_value(b) <= u32::MAX,
{
}

/// Spelling a number and reading it back gives the number.
pub proof fn be_value_of_be_bytes(n: int)
    requires
        0 <= n <= u32::MAX,
    ensures
        be_bytes(n).len() == 4,
        be_value(be_bytes(n)) == n,
{
}

/// Reading four bytes and spelling the number gives the bytes.
pub proof fn be_bytes_of_be_value(b: Seq<u8>)
    requires
        b.len() == 4,
    ensures
        be_bytes(be_value(b)) == b,
{
    let low = b[1] as int * 0x1_0000 + b[2] as int * 0x100 + b[3] as int;
    let v = be_value(b);
    lemma_fundamental_div_mod_converse(v, 0x100_0000, b[0] as int, low);
    lemma_fundamental_div_mod_converse(
        v,
        0x1_0000,
        b[0] as int * 0x100 + b[1] as int,
        b[2] as int * 0x100 + b[3] as int,
    );
    lemma_fundamental_div_mod_converse(
        v,
        0x100,
        b[0] as int * 0x1_0000 + b[1] as int * 0x100 + b[2] as int,
        b[3] as int,
    );
    assert(be_bytes(v) =~= b);
}

/// A stream that produces exactly one envelope yields exactly its payload,
/// whenever the receiver accepts the payload's length.
pub proof fn frame_result_of_frame(limit: u32, payload: Seq<u8>)
    requires
        payload.len() <= limit,
    ensures
        frame_result(limit, frame_of(payload)) == Ok::<Seq<u8>, FramingError>(payload),
{
    let n = payload.len() as int;
    be_value_of_be_bytes(n);
    let stream = frame_of(payload);
    assert(stream.take(4) =~= be_bytes(n));
    assert(stream.subrange(4, 4 + n) =~= payload);
}

/// Bytes after the envelope do not change what is received.
pub proof fn frame_result_ignores_rest(limit: u32, payload: Seq<u8>, rest: Seq<u8>)
    requires
        payload.len() <= limit,
    ensures
        frame_result(limit, frame_of(payload) + rest) == Ok::<Seq<u8>, FramingError>(payload),
{
    let n = payload.len() as int;
    be_value_of_be_bytes(n);
    let stream = frame_of(payload) + rest;
    assert(stream.take(4) =~= be_bytes(n));
    assert(stream.subrange(4, 4 + n) =~= payload);
}

/// A stream that ends inside an envelope is truncated, wherever it ends.
pub proof fn frame_result_of_cut_frame(limit: u32, payload: Seq<u8>, cut: int)
    requires
        payload.len() <= limit,
        0 <= cut < 4 + payload.len(),
    ensures
        frame_result(limit, frame_of(payload).take(cut)) == Err::<Seq<u8>, FramingError>(
            FramingError::Truncated,
        ),
{
    let n = payload.len() as int;
    be_value_of_be_bytes(n);
    let stream = frame_of(payload).take(cut);
    if cut >= 4 {
        assert(stream.take(4) =~= be_bytes(n));
    }
}

/// What the receiver takes decides the result: the bytes it leaves play no part.
pub proof fn frame_result_of_taken(limit: u32, stream: Seq<u8>)
    ensures
        frame_result(limit, taken(limit, stream)) == frame_result(limit, stream),
        taken(limit, taken(limit, stream)) == taken(limit, stream),
{
    let t = taken(limit, stream);
    if stream.len() >= 4 {
        be_value_bounds(stream.take(4));
        assert(t.take(4) =~= stream.take(4));
        let n = be_value(stream.take(4));
        if n <= limit && stream.len() >= 4 + n {
            assert(t.subrange(4, 4 + n) =~= stream.subrange(4, 4 + n));
        }
    }
    assert(taken(limit, t) =~= t);
}

/// Taking a stream piece by piece takes what taking it at once does.
pub proof fn taken_in_pieces(limit: u32, first: Seq<u8>, second: Seq<u8>)
    ensures
        taken(limit, taken(limit, first) + second) == taken(limit, first + second),
{
    let t = taken(limit, first);
    let whole = first + second;
    let pieces = t + second;
    if first.len() >= 4 {
        be_value_bounds(first.take(4));
        assert(t.take(4) =~= first.take(4));
        assert(whole.take(4) =~= first.take(4));
        assert(pieces.take(4) =~= first.take(4));
    } else {
        assert(t =~= first);
        assert(pieces =~= whole);
    }
    if pieces.len() >= 4 {
        be_value_bounds(pieces.take(4));
    }
    assert(taken(limit, pieces) =~= taken(limit, whole));
}

/// Reads a header: the length it announces.
pub fn decode_header(header: &[u8; 4]) -> (len: u32)
    ensures
        len == be_value(header@),
{
    let b0: u32 = header[0] as u32;
    let b1: u32 = header[1] as u32;
    let b2: u32 = header[2] as u32;
    let b3: u32 = header[3] as u32;
    b0 * 0x100_0000 + b1 * 0x1_0000 + b2 * 0x100 + b3
}

/// Writes a header: the four bytes that announce `len`.
pub fn encode_header(len: u32) -> (header: [u8; 4])
    ensures
        header@ == be_bytes(len as int),
{
    let header: [u8; 4] = [
        (len / 0x100_0000) as u8,
        (len / 0x1_0000 % 0x100) as u8,
        (len / 0x100 % 0x100) as u8,
        (len % 0x100) as u8,
    ];
    assert(header@ =~= be_bytes(len as int));
    header
}

/// Puts a payload in its envelope. A payload that 32 bits cannot announce is
/// refused: the length in the header is always the exact size of what follows.
pub fn encode(payload: &[u8]) -> (frame: Result<Vec<u8>, FramingError>)
    ensures
        payload@.len() <= u32::MAX ==> frame is Ok && frame->Ok_0@ == frame_of(payload@),
        payload@.len() > u32::MAX ==> frame == Err::<Vec<u8>, FramingError>(FramingError::TooLarge),
{
    if payload.len() > 0xffff_ffff {
        return Err(FramingError::TooLarge);
    }
    let header: [u8; 4] = encode_header(payload.len() as u32);
    let mut frame: Vec<u8> = Vec::new();
    frame.push(header[0]);
    frame.push(header[1]);
    frame.push(header[2]);
    frame.push(header[3]);
    let mut body: Vec<u8> = slice_to_vec(payload);
    frame.append(&mut body);
    assert(frame@ =~= frame_of(payload@));
    Ok(frame)
}

/// Receives one envelope from a stream that arrives in pieces.
///
/// The reader is told each piece as it arrives and says how many bytes it
/// still wants; whoever owns the stream reads and reports. The reader never
/// holds more than the header and `limit` bytes of payload.
pub struct FrameReader {
    limit: u32,
    header: Vec<u8>,
    payload: Vec<u8>,
}

impl FrameReader {
    /// The largest payload this reader accepts.
    pub closed spec fn limit(&self) -> u32 {
        self.limit
    }

    /// Every byte taken so far, header first.
    pub closed spec fn received(&self) -> Seq<u8> {
        self.header@ + self.payload@
    }

    /// The reader holds a header of at most four bytes, payload only behind a
    /// complete header, and nothing that it would not itself have taken.
    pub closed spec fn wf(&self) -> bool {
        &&& self.header@.len() <= 4
        &&& self.header@.len() < 4 ==> self.payload@.len() == 0
        &&& taken(self.limit, self.received()) == self.received()
    }

    /// A reader that has taken nothing.
    pub fn new(limit: u32) -> (reader: FrameReader)
        ensures
            reader.wf(),
            reader.limit() == limit,
            reader.received() == Seq::<u8>::empty(),
    {
        let reader = FrameReader { limit, header: Vec::new(), payload: Vec::new() };
        assert(reader.received() =~= Seq::<u8>::empty());
        assert(taken(limit, reader.received()) =~= reader.received());
        reader
    }

    /// Where the reader stands.
    pub fn progress(&self) -> (progress: Progress)
        requires
            self.wf(),
        ensures
            progress == progress_of(self.limit(), self.received()),
    {
        let have: usize = self.header.len();
        if have < HEADER_LEN {
            assert(self.received() =~= self.header@);
            return Progress::Need(HEADER_LEN - have);
        }
        proof {
            assert(self.received().take(4) =~= self.header@);
            be_value_bounds(self.header@);
        }
        let announced: u32 = self.announced();
        if announced > self.limit {
            Progress::Oversized
        } else if self.payload.len() < announced as usize {
            Progress::Need(announced as usize - self.payload.len())
        } else {
            Progress::Complete
        }
    }

    fn announced(&self) -> (len: u32)
        requires
            self.header@.len() == 4,
        ensures
            len == be_value(self.header@),
    {
        let b0: u32 = self.header[0] as u32;
        let b1: u32 = self.header[1] as u32;
        let b2: u32 = self.header[2] as u32;
        let b3: u32 = self.header[3] as u32;
        b0 * 0x100_0000 + b1 * 0x1_0000 + b2 * 0x100 + b3
    }

    /// Takes from `chunk`, the bytes that the stream produced next, as many
    /// as the envelope still lacks, and says how many that was.
    pub fn accept(&mut self, chunk: &[u8]) -> (used: usize)
        requires
            old(self).wf(),
        ensures
            final(self).wf(),
            final(self).limit() == old(self).limit(),
            used <= chunk@.len(),
            final(self).received() == old(self).received() + chunk@.take(used as int),
            final(self).received() == taken(old(self).limit(), old(self).received() + chunk@),
    {
        let ghost before = self.received();
        let ghost whole = before + chunk@;
        let mut used: usize = 0;
        while self.header.len() < HEADER_LEN && used < chunk.len()
            invariant
                self.limit == old(self).limit,
                self.header@.len() <= 4,
                self.header@.len() < 4 ==> self.payload@.len() == 0,
                self.payload@ == old(self).payload@,
                used <= chunk@.len(),
                self.header@ == old(self).header@ + chunk@.take(used as int),
                used > 0 ==> old(self).header@.len() < 4,
            decreases chunk@.len() - used,
        {
            self.header.push(chunk[used]);
            used = used + 1;
            assert(chunk@.take(used as int) =~= chunk@.take(used - 1).push(chunk@[used - 1]));
            assert(self.header@ =~= old(self).header@ + chunk@.take(used as int));
        }
        if self.header.len() < HEADER_LEN {
            proof {
                assert(used == chunk@.len());
                assert(chunk@.take(used as int) =~= chunk@);
                assert(self.received() =~= whole);
                assert(taken(self.limit, whole) =~= whole);
            }
            return used;
        }
        proof {
            assert(whole.take(4) =~= self.header@);
            be_value_bounds(self.header@);
            if used > 0 {
                assert(old(self).payload@.len() == 0);
            } else {
                assert(chunk@.take(0) =~= Seq::<u8>::empty());
                assert(self.header@ =~= old(self).header@);
                assert(before.take(4) =~= self.header@);
            }
        }
        let announced: u32 = self.announced();
        if announced > self.limit {
            proof {
                assert(self.payload@.len() == 0);
                assert(self.received() =~= before + chunk@.take(used as int));
                assert(self.received() =~= whole.take(4));
                assert(self.received().take(4) =~= self.header@);
                assert(taken(self.limit, self.received()) =~= self.received());
            }
            return used;
        }
        let missing: usize = announced as usize - self.payload.len();
        let rest: usize = chunk.len() - used;
        let more: usize = if rest < missing {
            rest
        } else {
            missing
        };
        let mut body: Vec<u8> = slice_to_vec(slice_subrange(chunk, used, used + more));
        self.payload.append(&mut body);
        proof {
            assert(self.received() =~= before + chunk@.take(used + more));
            assert(self.received() =~= taken(self.limit, whole));
            frame_result_of_taken(self.limit, whole);
        }
        used + more
    }

    /// Gives up the payload of a complete envelope.
    pub fn into_payload(self) -> (payload: Vec<u8>)
        requires
            self.wf(),
            progress_of(self.limit(), self.received()) is Complete,
        ensures
            payload@ == self.received().skip(4),
            frame_result(self.limit(), self.received()) == Ok::<Seq<u8>, FramingError>(payload@),
    {
        proof {
            if self.header@.len() < 4 {
                assert(self.received() =~= self.header@);
            }
            assert(self.received().take(4) =~= self.header@);
            assert(self.received().skip(4) =~= self.payload@);
            assert(self.received().subrange(4, 4 + be_value(self.header@)) =~= self.payload@);
        }
        self.payload
    }

    /// Ends the reading, because the envelope is complete or because the
    /// stream has ended: the payload, or the reason why there is none.
    pub fn finish(self) -> (result: Result<Vec<u8>, FramingError>)
        requires
            self.wf(),
        ensures
            result is Ok ==> frame_result(self.limit(), self.received()) == Ok::<
                Seq<u8>,
                FramingError,
            >(result->Ok_0@),
            result is Err ==> frame_result(self.limit(), self.received()) == Err::<
                Seq<u8>,
                FramingError,
            >(result->Err_0),
    {
        match self.progress() {
            Progress::Need(_) => Err(FramingError::Truncated),
            Progress::Oversized => Err(FramingError::TooLarge),
            Progress::Complete => {
                proof {
                    assert(self.received().take(4) =~= self.header@);
                    let n = be_value(self.header@);
                    assert(self.received().subrange(4, 4 + n) =~= self.payload@);
                }
                Ok(self.payload)
            },
        }
    }
}

/// Receives one envelope from `stream`, which holds everything the peer sent
/// before the stream ended, accepting payloads of up to `limit` bytes.
///
/// Fewer bytes than the header or the announced payload needs is
/// `Truncated`; an announced length over `limit` is `TooLarge`, whatever
/// follows the header. Bytes after the payload are left unread.
pub fn read_frame(stream: &[u8], limit: u32) -> (result: Result<Vec<u8>, FramingError>)
    ensures
        result is Ok ==> frame_result(limit, stream@) == Ok::<Seq<u8>, FramingError>(
            result->Ok_0@,
        ),
        result is Err ==> frame_result(limit, stream@) == Err::<Seq<u8>, FramingError>(
            result->Err_0,
        ),
{
    let mut reader = FrameReader::new(limit);
    let used: usize = reader.accept(stream);
    proof {
        assert(Seq::<u8>::empty() + stream@ =~= stream@);
        frame_result_of_taken(limit, stream@);
    }
    reader.finish()
}

} // verus!
