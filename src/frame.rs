//! 64-byte frames: bit-packed headers, fragmentation and reassembly.
use crate::error::Error;
use vstd::prelude::*;

verus! {

/// Bytes in one frame on the wire.
pub const FRAME_SIZE: usize = 64;

/// Most payload bytes one frame can carry.
pub const MAX_CHUNK: usize = 63;

/// The two-bit type in a frame header.
#[derive(Clone, Copy, Debug, PartialEq, Eq, Structural)]
pub enum PacketType {
    /// A frame of a message with more frames to come.
    Inner,
    /// The last frame of a message.
    Final,
    /// Serial stdout of the device.
    StdOut,
    /// Serial stderr of the device.
    Stderr,
}

impl PacketType {
    pub open spec fn code_spec(self) -> u8 {
        match self {
            PacketType::Inner => 0,
            PacketType::Final => 1,
            PacketType::StdOut => 2,
            PacketType::Stderr => 3,
        }
    }

    pub open spec fn from_code_spec(v: u8) -> Option<PacketType> {
        if v == 0 {
            Some(PacketType::Inner)
        } else if v == 1 {
            Some(PacketType::Final)
        } else if v == 2 {
            Some(PacketType::StdOut)
        } else if v == 3 {
            Some(PacketType::Stderr)
        } else {
            None
        }
    }

    /// The wire code of this type.
    pub fn code(self) -> (r: u8)
        ensures
            r == self.code_spec(),
    {
        match self {
            PacketType::Inner => 0,
            PacketType::Final => 1,
            PacketType::StdOut => 2,
            PacketType::Stderr => 3,
        }
    }

    /// The type with wire code `v`; codes above 3 are refused.
    pub fn from_wire(v: u8) -> (r: Result<PacketType, Error>)
        ensures
            r == (match Self::from_code_spec(v) {
                Some(t) => Ok(t),
                None => Err(Error::Framing),
            }),
    {
        match v {
            0 => Ok(PacketType::Inner),
            1 => Ok(PacketType::Final),
            2 => Ok(PacketType::StdOut),
            3 => Ok(PacketType::Stderr),
            _ => Err(Error::Framing),
        }
    }
}

/// The header byte of a frame of type `t` carrying `len` payload bytes.
pub open spec fn header_spec(t: PacketType, len: u8) -> u8 {
    (t.code_spec() * 64 + len) as u8
}

/// The type that a header byte announces (its two high bits).
pub open spec fn header_type(h: u8) -> PacketType {
    let c = h / 64;
    if c == 0 {
        PacketType::Inner
    } else if c == 1 {
        PacketType::Final
    } else if c == 2 {
        PacketType::StdOut
    } else {
        PacketType::Stderr
    }
}

/// The payload length that a header byte announces (its six low bits).
pub open spec fn header_len(h: u8) -> u8 {
    h % 64
}

/// Packs a frame header: `(type << 6) | len`.
pub fn encode_header(t: PacketType, len: u8) -> (r: u8)
    requires
        len <= 63,
    ensures
        r == header_spec(t, len),
{
    let c = t.code();
    assert(c < 4 && len <= 63 ==> (c << 6u8) | len == c * 64 + len) by (bit_vector);
    (c << 6u8) | len
}

/// Unpacks a frame header into its type and payload length.
pub fn decode_header(h: u8) -> (r: (PacketType, u8))
    ensures
        r == (header_type(h), header_len(h)),
{
    assert(h >> 6u8 == h / 64 && h & 0x3f == h % 64) by (bit_vector);
    let c = h >> 6u8;
    let t = if c == 0 {
        PacketType::Inner
    } else if c == 1 {
        PacketType::Final
    } else if c == 2 {
        PacketType::StdOut
    } else {
        PacketType::Stderr
    };
    (t, h & 0x3f)
}

/// Decoding a packed header gives back the type and length it was packed
/// from, for every type and every length that fits in six bits.
pub proof fn lemma_header_round_trip(t: PacketType, len: u8)
    requires
        len <= 63,
    ensures
        header_type(header_spec(t, len)) == t,
        header_len(header_spec(t, len)) == len,
{
}

/// One frame: header, payload, and zero bytes up to the frame size.
pub open spec fn frame_spec(t: PacketType, chunk: Seq<u8>) -> Seq<u8> {
    seq![header_spec(t, chunk.len() as u8)] + chunk + Seq::new((63 - chunk.len()) as nat, |i| 0u8)
}

/// The frames that carry `bytes`: chunks of 63 bytes in `Inner` frames,
/// then the rest (possibly nothing) in one `Final` frame.
pub open spec fn fragment_spec(bytes: Seq<u8>) -> Seq<Seq<u8>>
    decreases bytes.len(),
{
    if bytes.len() <= 63 {
        seq![frame_spec(PacketType::Final, bytes)]
    } else {
        seq![frame_spec(PacketType::Inner, bytes.take(63))] + fragment_spec(bytes.skip(63))
    }
}

/// What one frame does to the bytes gathered so far: `Ok((bytes, done))`,
/// where `done` says the frame was the last of the message.
pub open spec fn absorb_spec(acc: Seq<u8>, limit: nat, frame: Seq<u8>) -> Result<(Seq<u8>, bool), Error> {
    if frame.len() == 0 {
        Err(Error::Framing)
    } else {
        let t = header_type(frame[0]);
        let n = header_len(frame[0]) as int;
        if frame.len() < 1 + n || t == PacketType::StdOut || t == PacketType::Stderr {
            Err(Error::Framing)
        } else if acc.len() + n > limit {
            Err(Error::Overflow)
        } else {
            Ok((acc + frame.subrange(1, 1 + n), t == PacketType::Final))
        }
    }
}

/// The message that `frames` carry after `acc`, read up to the first
/// `Final` frame; `Truncated` when no such frame comes.
pub open spec fn reassemble_from(acc: Seq<u8>, frames: Seq<Seq<u8>>, limit: nat) -> Result<Seq<u8>, Error>
    decreases frames.len(),
{
    if frames.len() == 0 {
        Err(Error::Truncated)
    } else {
        match absorb_spec(acc, limit, frames[0]) {
            Err(e) => Err(e),
            Ok((next, done)) => if done {
                Ok(next)
            } else {
                reassemble_from(next, frames.drop_first(), limit)
            },
        }
    }
}

/// The message that `frames` carry, at most `limit` bytes long.
pub open spec fn reassemble_spec(frames: Seq<Seq<u8>>, limit: nat) -> Result<Seq<u8>, Error> {
    reassemble_from(Seq::empty(), frames, limit)
}

proof fn lemma_frame_shape(t: PacketType, chunk: Seq<u8>)
    requires
        chunk.len() <= 63,
    ensures
        frame_spec(t, chunk).len() == 64,
        frame_spec(t, chunk)[0] == header_spec(t, chunk.len() as u8),
        header_type(frame_spec(t, chunk)[0]) == t,
        header_len(frame_spec(t, chunk)[0]) == chunk.len(),
        frame_spec(t, chunk).subrange(1, 1 + chunk.len() as int) == chunk,
{
    lemma_header_round_trip(t, chunk.len() as u8);
    assert(frame_spec(t, chunk).subrange(1, 1 + chunk.len() as int) =~= chunk);
}

proof fn lemma_round_trip_from(acc: Seq<u8>, p: Seq<u8>, limit: nat)
    requires
        acc.len() + p.len() <= limit,
    ensures
        reassemble_from(acc, fragment_spec(p), limit) == Ok::<Seq<u8>, Error>(acc + p),
    decreases p.len(),
{
    if p.len() <= 63 {
        lemma_frame_shape(PacketType::Final, p);
    } else {
        let head = p.take(63);
        let frames = fragment_spec(p);
        lemma_frame_shape(PacketType::Inner, head);
        assert(frames.drop_first() =~= fragment_spec(p.skip(63)));
        lemma_round_trip_from(acc + head, p.skip(63), limit);
        assert(acc + head + p.skip(63) =~= acc + p);
    }
}

/// A 64-byte frame whose bytes after the declared payload are all zero.
pub open spec fn frame_well_formed(f: Seq<u8>) -> bool {
    &&& f.len() == 64
    &&& forall|j: int| 1 + header_len(f[0]) <= j < 64 ==> f[j] == 0
}

/// The payload bytes of a sequence of frames, one after the other, each
/// as long as its header declares.
pub open spec fn payloads(frames: Seq<Seq<u8>>) -> Seq<u8>
    decreases frames.len(),
{
    if frames.len() == 0 {
        Seq::empty()
    } else {
        frames[0].subrange(1, 1 + header_len(frames[0][0]) as int) + payloads(frames.drop_first())
    }
}

/// How many frames carry a message of `n` bytes: one per 63 bytes, and
/// one for the empty message.
pub open spec fn frame_count(n: nat) -> nat {
    if n == 0 {
        1
    } else {
        (n + 62) / 63
    }
}

/// The layout of the frames that carry a message: their number, each one
/// 64 bytes and zero-padded, all `Inner` but the last, which is `Final`,
/// and their payloads, put together, the message itself.
pub proof fn lemma_fragment_layout(bytes: Seq<u8>)
    ensures
        fragment_spec(bytes).len() == frame_count(bytes.len()),
        forall|i: int|
            0 <= i < fragment_spec(bytes).len() ==> frame_well_formed(#[trigger] fragment_spec(bytes)[i])
                && header_type(fragment_spec(bytes)[i][0]) == (if i == fragment_spec(bytes).len() - 1 {
                PacketType::Final
            } else {
                PacketType::Inner
            }),
        payloads(fragment_spec(bytes)) == bytes,
    decreases bytes.len(),
{
    let fs = fragment_spec(bytes);
    if bytes.len() <= 63 {
        lemma_frame_shape(PacketType::Final, bytes);
        let f = frame_spec(PacketType::Final, bytes);
        assert(frame_well_formed(f)) by {
            assert forall|j: int| 1 + header_len(f[0]) <= j < 64 implies f[j] == 0 by {}
        }
        assert(fs.drop_first().len() == 0);
        assert(payloads(fs.drop_first()) == Seq::<u8>::empty());
        assert(fs[0].subrange(1, 1 + header_len(fs[0][0]) as int) == bytes);
        assert(payloads(fs) =~= bytes);
    } else {
        let head = bytes.take(63);
        let rest = bytes.skip(63);
        lemma_fragment_layout(rest);
        lemma_frame_shape(PacketType::Inner, head);
        let f = frame_spec(PacketType::Inner, head);
        assert(frame_well_formed(f)) by {
            assert forall|j: int| 1 + header_len(f[0]) <= j < 64 implies f[j] == 0 by {}
        }
        assert(fs.drop_first() =~= fragment_spec(rest));
        assert(fs.len() == 1 + fragment_spec(rest).len());
        assert(frame_count(bytes.len()) == 1 + frame_count(rest.len())) by {
            assert((bytes.len() + 62) / 63 == 1 + (rest.len() + 62) / 63);
        }
        assert forall|i: int| 0 <= i < fs.len() implies frame_well_formed(#[trigger] fs[i])
            && header_type(fs[i][0]) == (if i == fs.len() - 1 {
            PacketType::Final
        } else {
            PacketType::Inner
        }) by {
            if i > 0 {
                assert(fs[i] == fragment_spec(rest)[i - 1]);
            }
        }
        assert(payloads(fs) =~= head + rest);
        assert(head + rest =~= bytes);
    }
}

/// Reassembling the frames that `fragment` makes of a message gives back
/// the message, byte for byte, whatever its length up to the limit.
pub proof fn lemma_fragment_reassemble(p: Seq<u8>, limit: nat)
    requires
        p.len() <= limit,
    ensures
        reassemble_spec(fragment_spec(p), limit) == Ok::<Seq<u8>, Error>(p),
{
    lemma_round_trip_from(Seq::empty(), p, limit);
    assert(Seq::<u8>::empty() + p =~= p);
}

/// The byte contents of a sequence of frames.
pub open spec fn frames_view(v: Seq<Vec<u8>>) -> Seq<Seq<u8>> {
    v.map_values(|f: Vec<u8>| f@)
}

/// One frame of type `t` that carries `bytes[start..end]`.
fn make_frame(t: PacketType, bytes: &[u8], start: usize, end: usize) -> (r: Vec<u8>)
    requires
        start <= end <= bytes@.len(),
        end - start <= 63,
    ensures
        r@ == frame_spec(t, bytes@.subrange(start as int, end as int)),
{
    let ghost chunk = bytes@.subrange(start as int, end as int);
    let mut f: Vec<u8> = Vec::new();
    f.push(encode_header(t, (end - start) as u8));
    let mut i: usize = start;
    while i < end
        invariant
            start <= i <= end,
            end <= bytes@.len(),
            f@ == seq![header_spec(t, chunk.len() as u8)] + bytes@.subrange(start as int, i as int),
            chunk == bytes@.subrange(start as int, end as int),
        decreases end - i,
    {
        f.push(bytes[i]);
        i += 1;
        assert(bytes@.subrange(start as int, i as int) =~= bytes@.subrange(start as int, i - 1)
            + seq![bytes@[i - 1]]);
    }
    let ghost body = f@;
    while f.len() < FRAME_SIZE
        invariant
            body.len() == 1 + chunk.len(),
            body.len() <= f@.len() <= 64,
            f@ == body + Seq::new((f@.len() - body.len()) as nat, |k| 0u8),
        decreases 64 - f@.len(),
    {
        f.push(0u8);
        assert(f@ =~= body + Seq::new((f@.len() - body.len()) as nat, |k| 0u8));
    }
    assert(f@ =~= frame_spec(t, chunk));
    f
}

/// Splits a message into zero-padded 64-byte frames, as `fragment_spec`.
pub fn fragment(bytes: &[u8]) -> (r: Vec<Vec<u8>>)
    ensures
        frames_view(r@) == fragment_spec(bytes@),
{
    let mut frames: Vec<Vec<u8>> = Vec::new();
    let mut pos: usize = 0;
    assert(bytes@.skip(0) =~= bytes@);
    assert(frames_view(frames@) + fragment_spec(bytes@) =~= fragment_spec(bytes@));
    while bytes.len() - pos > MAX_CHUNK
        invariant
            pos <= bytes@.len(),
            frames_view(frames@) + fragment_spec(bytes@.skip(pos as int)) == fragment_spec(bytes@),
        decreases bytes@.len() - pos,
    {
        let ghost rest = bytes@.skip(pos as int);
        let f = make_frame(PacketType::Inner, bytes, pos, pos + MAX_CHUNK);
        assert(bytes@.subrange(pos as int, pos + 63) =~= rest.take(63));
        assert(rest.skip(63) =~= bytes@.skip(pos + 63));
        let ghost before = frames_view(frames@);
        frames.push(f);
        assert(frames_view(frames@) =~= before.push(f@));
        pos = pos + MAX_CHUNK;
        assert(before + fragment_spec(rest) =~= frames_view(frames@) + fragment_spec(bytes@.skip(pos as int)));
    }
    let ghost rest = bytes@.skip(pos as int);
    let f = make_frame(PacketType::Final, bytes, pos, bytes.len());
    assert(bytes@.subrange(pos as int, bytes@.len() as int) =~= rest);
    let ghost before = frames_view(frames@);
    frames.push(f);
    assert(frames_view(frames@) =~= before + fragment_spec(rest));
    frames
}

/// Gathers the payload of a response frame by frame, up to a size limit.
pub struct Reassembler {
    data: Vec<u8>,
    limit: usize,
    complete: bool,
}

impl Reassembler {
    /// The payload bytes gathered so far.
    pub closed spec fn data_spec(&self) -> Seq<u8> {
        self.data@
    }

    /// The largest message this reassembler accepts.
    pub closed spec fn limit_spec(&self) -> nat {
        self.limit as nat
    }

    /// Whether the `Final` frame has been seen.
    pub closed spec fn complete_spec(&self) -> bool {
        self.complete
    }

    pub closed spec fn wf(&self) -> bool {
        self.data@.len() <= self.limit
    }

    /// An empty reassembler for messages of at most `limit` bytes.
    pub fn new(limit: usize) -> (r: Reassembler)
        ensures
            r.wf(),
            r.data_spec().len() <= r.limit_spec(),
            r.data_spec() == Seq::<u8>::empty(),
            r.limit_spec() == limit,
            !r.complete_spec(),
    {
        Reassembler { data: Vec::new(), limit, complete: false }
    }

    /// Takes in one frame read from the device. `Ok(true)` once the frame
    /// was the `Final` one; on an error nothing changes.
    pub fn push(&mut self, frame: &[u8]) -> (r: Result<bool, Error>)
        requires
            old(self).wf(),
            !old(self).complete_spec(),
        ensures
            final(self).wf(),
            final(self).data_spec().len() <= final(self).limit_spec(),
            final(self).limit_spec() == old(self).limit_spec(),
            match absorb_spec(old(self).data_spec(), old(self).limit_spec(), frame@) {
                Err(e) => r == Err::<bool, Error>(e) && final(self).data_spec() == old(self).data_spec()
                    && !final(self).complete_spec(),
                Ok((next, done)) => r == Ok::<bool, Error>(done) && final(self).data_spec() == next
                    && final(self).complete_spec() == done,
            },
    {
        if frame.len() == 0 {
            return Err(Error::Framing);
        }
        let (t, n) = decode_header(frame[0]);
        let n = n as usize;
        if frame.len() < 1 + n || t == PacketType::StdOut || t == PacketType::Stderr {
            return Err(Error::Framing);
        }
        if n > self.limit - self.data.len() {
            return Err(Error::Overflow);
        }
        let ghost before = self.data@;
        let mut i: usize = 1;
        while i < 1 + n
            invariant
                n <= 63,
                1 <= i <= 1 + n <= frame@.len(),
                self.data@ == before + frame@.subrange(1, i as int),
                self.limit == old(self).limit,
                self.complete == old(self).complete,
            decreases 1 + n - i,
        {
            self.data.push(frame[i]);
            i += 1;
            assert(frame@.subrange(1, i as int) =~= frame@.subrange(1, i - 1) + seq![frame@[i - 1]]);
        }
        self.complete = t == PacketType::Final;
        Ok(self.complete)
    }

    /// Whether the `Final` frame has been seen.
    pub fn is_complete(&self) -> (r: bool)
        ensures
            r == self.complete_spec(),
    {
        self.complete
    }

    /// Hands over the gathered payload.
    pub fn into_bytes(self) -> (r: Vec<u8>)
        ensures
            r@ == self.data_spec(),
    {
        self.data
    }
}

/// Reassembles the message that a sequence of frames carries, as
/// `reassemble_spec`: frames after the `Final` one are not read.
pub fn reassemble(frames: &Vec<Vec<u8>>, limit: usize) -> (r: Result<Vec<u8>, Error>)
    ensures
        match reassemble_spec(frames_view(frames@), limit as nat) {
            Ok(m) => r matches Ok(v) && v@ == m,
            Err(e) => r == Err::<Vec<u8>, Error>(e),
        },
{
    let mut acc = Reassembler::new(limit);
    let mut i: usize = 0;
    assert(frames_view(frames@).skip(0) =~= frames_view(frames@));
    while i < frames.len()
        invariant
            i <= frames@.len(),
            acc.wf(),
            !acc.complete_spec(),
            acc.limit_spec() == limit,
            reassemble_from(acc.data_spec(), frames_view(frames@).skip(i as int), limit as nat)
                == reassemble_spec(frames_view(frames@), limit as nat),
        decreases frames@.len() - i,
    {
        let ghost rest = frames_view(frames@).skip(i as int);
        assert(rest[0] == frames@[i as int]@);
        assert(rest.drop_first() =~= frames_view(frames@).skip(i + 1));
        match acc.push(frames[i].as_slice()) {
            Err(e) => return Err(e),
            Ok(done) => {
                if done {
                    return Ok(acc.into_bytes());
                }
            },
        }
        i += 1;
    }
    Err(Error::Truncated)
}

} // verus!
