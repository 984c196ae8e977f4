use crate::header::{
    be_bytes, be_value, decode_spec, lemma_header_round_trip, lemma_be_round_trip, u32_from_be,
    u32_to_be, DecodeError, Header,
};
use crate::cache::{IndexEntry, PayloadHeader, PayloadKind};
use vstd::prelude::*;

verus! {

/// Size in bytes of the header in front of each payload
pub const FRAME_HEADER_LEN: usize = 26;

/// What a payload holds
#[derive(Debug, Clone, Copy, PartialEq, Eq, Structural)]
pub enum PayloadType {
    Meta,
    Content,
    Layout,
    Index,
    Attributes,
}

/// How a payload's body is stored
#[derive(Debug, Clone, Copy, PartialEq, Eq, Structural)]
pub enum Compression {
    Plain,
    Xz,
}

impl PayloadType {
    pub open spec fn spec_code(self) -> u8 {
        match self {
            PayloadType::Meta => 1,
            PayloadType::Content => 2,
            PayloadType::Layout => 3,
            PayloadType::Index => 4,
            PayloadType::Attributes => 5,
        }
    }

    pub open spec fn spec_from_code(c: u8) -> Option<PayloadType> {
        if c == 1 {
            Some(PayloadType::Meta)
        } else if c == 2 {
            Some(PayloadType::Content)
        } else if c == 3 {
            Some(PayloadType::Layout)
        } else if c == 4 {
            Some(PayloadType::Index)
        } else if c == 5 {
            Some(PayloadType::Attributes)
        } else {
            None
        }
    }

    pub fn code(self) -> (r: u8)
        ensures
            r == self.spec_code(),
    {
        match self {
            PayloadType::Meta => 1,
            PayloadType::Content => 2,
            PayloadType::Layout => 3,
            PayloadType::Index => 4,
            PayloadType::Attributes => 5,
        }
    }

    pub fn from_code(c: u8) -> (r: Option<PayloadType>)
        ensures
            r == PayloadType::spec_from_code(c),
    {
        if c == 1 {
            Some(PayloadType::Meta)
        } else if c == 2 {
            Some(PayloadType::Content)
        } else if c == 3 {
            Some(PayloadType::Layout)
        } else if c == 4 {
            Some(PayloadType::Index)
        } else if c == 5 {
            Some(PayloadType::Attributes)
        } else {
            None
        }
    }
}

impl Compression {
    pub open spec fn spec_code(self) -> u8 {
        match self {
            Compression::Plain => 1,
            Compression::Xz => 2,
        }
    }

    pub open spec fn spec_from_code(c: u8) -> Option<Compression> {
        if c == 1 {
            Some(Compression::Plain)
        } else if c == 2 {
            Some(Compression::Xz)
        } else {
            None
        }
    }

    pub fn code(self) -> (r: u8)
        ensures
            r == self.spec_code(),
    {
        match self {
            Compression::Plain => 1,
            Compression::Xz => 2,
        }
    }

    pub fn from_code(c: u8) -> (r: Option<Compression>)
        ensures
            r == Compression::spec_from_code(c),
    {
        if c == 1 {
            Some(Compression::Plain)
        } else if c == 2 {
            Some(Compression::Xz)
        } else {
            None
        }
    }
}

/// The header in front of each payload
#[derive(Debug, Clone, Copy, PartialEq, Eq, Structural)]
pub struct FrameHeader {
    pub kind: PayloadType,
    pub compression: Compression,
    pub plain_size: u64,
    pub stored_size: u64,
    pub checksum: u64,
}

/// A payload as stored: its header and its stored body
#[derive(Debug, Clone)]
pub struct Frame {
    pub header: FrameHeader,
    pub body: Vec<u8>,
}

/// The mathematical value of a frame
pub struct FrameView {
    pub header: FrameHeader,
    pub body: Seq<u8>,
}

impl Frame {
    pub open spec fn view(&self) -> FrameView {
        FrameView { header: self.header, body: self.body@ }
    }
}

/// The values of a sequence of frames
pub open spec fn frame_views(v: Seq<Frame>) -> Seq<FrameView> {
    v.map_values(|f: Frame| f.view())
}

/// A frame whose body has the stored size its header gives
pub open spec fn well_formed(f: FrameView) -> bool {
    f.body.len() == f.header.stored_size
}

/// Errors of reading the payload frames of a stone file
#[derive(Debug, Clone, Copy, PartialEq, Eq, Structural)]
pub enum FrameError {
    /// The input ends inside a frame
    Truncated,
    UnknownCompression(u8),
}

/// Big endian bytes of a 64-bit value
#[verifier::opaque]
pub open spec fn be64(x: u64) -> Seq<u8> {
    be_bytes((x / 0x1_0000_0000) as u32) + be_bytes((x % 0x1_0000_0000) as u32)
}

/// Big endian value of eight bytes
pub open spec fn be64_value(b: Seq<u8>) -> int {
    be_value(b.subrange(0, 4)) * 0x1_0000_0000 + be_value(b.subrange(4, 8))
}

/// Eight big endian bytes of a value read back as that value.
pub proof fn lemma_be64_round_trip(x: u64)
    ensures
        be64_value(be64(x)) == x,
{
    reveal(be64);
    let hi = (x / 0x1_0000_0000) as u32;
    let lo = (x % 0x1_0000_0000) as u32;
    lemma_be_round_trip(hi);
    lemma_be_round_trip(lo);
    assert(be64(x).subrange(0, 4) =~= be_bytes(hi));
    assert(be64(x).subrange(4, 8) =~= be_bytes(lo));
}

pub open spec fn header_bytes(h: FrameHeader) -> Seq<u8> {
    seq![h.kind.spec_code(), h.compression.spec_code()] + be64(h.plain_size) + be64(h.stored_size)
        + be64(h.checksum)
}

pub open spec fn frame_bytes(f: FrameView) -> Seq<u8> {
    header_bytes(f.header) + f.body
}

/// The frames written one after the other
pub open spec fn frames_bytes(fs: Seq<FrameView>) -> Seq<u8>
    decreases fs.len(),
{
    if fs.len() == 0 {
        Seq::empty()
    } else {
        frames_bytes(fs.drop_last()) + frame_bytes(fs.last())
    }
}

/// Reading frames from the start of the bytes: frames of an unknown kind
/// are skipped, an unknown compression or a frame cut short is an error.
#[verifier::opaque]
pub open spec fn decode_frames_spec(b: Seq<u8>) -> Result<Seq<FrameView>, FrameError>
    decreases b.len(),
{
    if b.len() == 0 {
        Ok(Seq::empty())
    } else if b.len() < 26 {
        Err(FrameError::Truncated)
    } else {
        let stored = be64_value(b.subrange(10, 18));
        if b.len() - 26 < stored {
            Err(FrameError::Truncated)
        } else {
            let rest = decode_frames_spec(b.subrange(26 + stored, b.len() as int));
            match PayloadType::spec_from_code(b[0]) {
                None => rest,
                Some(kind) => match Compression::spec_from_code(b[1]) {
                    None => Err(FrameError::UnknownCompression(b[1])),
                    Some(compression) => match rest {
                        Ok(fs) => Ok(
                            seq![
                                FrameView {
                                    header: FrameHeader {
                                        kind,
                                        compression,
                                        plain_size: be64_value(b.subrange(2, 10)) as u64,
                                        stored_size: stored as u64,
                                        checksum: be64_value(b.subrange(18, 26)) as u64,
                                    },
                                    body: b.subrange(26, 26 + stored),
                                },
                            ] + fs,
                        ),
                        Err(e) => Err(e),
                    },
                },
            }
        }
    }
}

proof fn lemma_frames_bytes_front(fs: Seq<FrameView>)
    requires
        fs.len() > 0,
    ensures
        frames_bytes(fs) == frame_bytes(fs[0]) + frames_bytes(fs.drop_first()),
    decreases fs.len(),
{
    if fs.len() == 1 {
        assert(fs.drop_first() =~= Seq::<FrameView>::empty());
        assert(fs.drop_last() =~= Seq::<FrameView>::empty());
        assert(frames_bytes(fs) =~= frame_bytes(fs[0]) + frames_bytes(fs.drop_first()));
    } else {
        lemma_frames_bytes_front(fs.drop_last());
        assert(fs.drop_last().drop_first() =~= fs.drop_first().drop_last());
        assert(fs.drop_first().last() == fs.last());
        assert(frames_bytes(fs) =~= frame_bytes(fs[0]) + frames_bytes(fs.drop_first()));
    }
}

proof fn lemma_frame_fields(f: FrameView, tail: Seq<u8>)
    requires
        well_formed(f),
    ensures
        ({
            let b = frame_bytes(f) + tail;
            let stored = f.header.stored_size as int;
            &&& b.len() == 26 + stored + tail.len()
            &&& b[0] == f.header.kind.spec_code()
            &&& b[1] == f.header.compression.spec_code()
            &&& b.subrange(2, 10) == be64(f.header.plain_size)
            &&& b.subrange(10, 18) == be64(f.header.stored_size)
            &&& b.subrange(18, 26) == be64(f.header.checksum)
            &&& b.subrange(26, 26 + stored) == f.body
            &&& b.subrange(26 + stored, b.len() as int) == tail
        }),
{
    let b = frame_bytes(f) + tail;
    let h = f.header;
    let stored = h.stored_size as int;
    assert(be64(h.plain_size).len() == 8) by {
        reveal(be64);
    }
    assert(be64(h.stored_size).len() == 8) by {
        reveal(be64);
    }
    assert(be64(h.checksum).len() == 8) by {
        reveal(be64);
    }
    assert(b.subrange(2, 10) =~= be64(h.plain_size));
    assert(b.subrange(10, 18) =~= be64(h.stored_size));
    assert(b.subrange(18, 26) =~= be64(h.checksum));
    assert(b.subrange(26, 26 + stored) =~= f.body);
    assert(b.subrange(26 + stored, b.len() as int) =~= tail);
}

/// Decoding the bytes of well formed frames gives back the same frames.
#[verifier::rlimit(40)]
pub proof fn lemma_frames_round_trip(fs: Seq<FrameView>)
    requires
        forall|i: int| 0 <= i < fs.len() ==> well_formed(#[trigger] fs[i]),
    ensures
        decode_frames_spec(frames_bytes(fs)) == Ok::<Seq<FrameView>, FrameError>(fs),
    decreases fs.len(),
{
    reveal(decode_frames_spec);
    if fs.len() == 0 {
        assert(frames_bytes(fs) =~= Seq::<u8>::empty());
        assert(fs =~= Seq::<FrameView>::empty());
    } else {
        lemma_frames_bytes_front(fs);
        let f = fs[0];
        let rest = fs.drop_first();
        assert forall|i: int| 0 <= i < rest.len() implies well_formed(#[trigger] rest[i]) by {
            assert(rest[i] == fs[i + 1]);
        }
        lemma_frames_round_trip(rest);
        let b = frames_bytes(fs);
        let h = f.header;
        assert(well_formed(fs[0]));
        lemma_frame_fields(f, frames_bytes(rest));
        lemma_be64_round_trip(h.plain_size);
        lemma_be64_round_trip(h.stored_size);
        lemma_be64_round_trip(h.checksum);
        assert(PayloadType::spec_from_code(h.kind.spec_code()) == Some(h.kind)) by {
            match h.kind {
                PayloadType::Meta => {},
                PayloadType::Content => {},
                PayloadType::Layout => {},
                PayloadType::Index => {},
                PayloadType::Attributes => {},
            }
        }
        assert(Compression::spec_from_code(h.compression.spec_code()) == Some(h.compression)) by {
            match h.compression {
                Compression::Plain => {},
                Compression::Xz => {},
            }
        }
        assert(seq![f] + rest =~= fs);
    }
}

fn push_u64_be(out: &mut Vec<u8>, x: u64)
    ensures
        final(out)@ == old(out)@ + be64(x),
{
    let hi = u32_to_be((x / 0x1_0000_0000) as u32);
    let lo = u32_to_be((x % 0x1_0000_0000) as u32);
    let mut i: usize = 0;
    while i < 4
        invariant
            0 <= i <= 4,
            out@ == old(out)@ + hi@.subrange(0, i as int),
        decreases 4 - i,
    {
        out.push(hi[i]);
        i = i + 1;
        assert(out@ =~= old(out)@ + hi@.subrange(0, i as int));
    }
    let mut i: usize = 0;
    while i < 4
        invariant
            0 <= i <= 4,
            out@ == old(out)@ + hi@ + lo@.subrange(0, i as int),
        decreases 4 - i,
    {
        out.push(lo[i]);
        i = i + 1;
        assert(out@ =~= old(out)@ + hi@ + lo@.subrange(0, i as int));
    }
    reveal(be64);
    assert(out@ =~= old(out)@ + be64(x));
}

fn read_u64_be(b: &[u8], at: usize) -> (r: u64)
    requires
        at + 8 <= b@.len(),
    ensures
        r == be64_value(b@.subrange(at as int, at + 8)),
{
    let hi = u32_from_be([b[at], b[at + 1], b[at + 2], b[at + 3]]);
    let lo = u32_from_be([b[at + 4], b[at + 5], b[at + 6], b[at + 7]]);
    proof {
        let s = b@.subrange(at as int, at + 8);
        assert(s.subrange(0, 4) =~= seq![b@[at as int], b@[at + 1], b@[at + 2], b@[at + 3]]);
        assert(s.subrange(4, 8) =~= seq![b@[at + 4], b@[at + 5], b@[at + 6], b@[at + 7]]);
        assert([b[at as int], b[at + 1], b[at + 2], b[at + 3]]@ =~= s.subrange(0, 4));
        assert([b[at + 4], b[at + 5], b[at + 6], b[at + 7]]@ =~= s.subrange(4, 8));
    }
    (hi as u64) * 0x1_0000_0000 + (lo as u64)
}

/// Writes frames one after the other, each header followed by its body
pub fn encode_frames(frames: &Vec<Frame>) -> (r: Vec<u8>)
    requires
        forall|i: int| 0 <= i < frames@.len() ==> well_formed(#[trigger] frames@[i].view()),
    ensures
        r@ == frames_bytes(frame_views(frames@)),
{
    let ghost fv = frame_views(frames@);
    let mut out: Vec<u8> = Vec::new();
    let mut i: usize = 0;
    assert(fv.subrange(0, 0) =~= Seq::<FrameView>::empty());
    while i < frames.len()
        invariant
            i <= frames@.len(),
            fv == frame_views(frames@),
            out@ == frames_bytes(fv.subrange(0, i as int)),
        decreases frames@.len() - i,
    {
        let f = &frames[i];
        let ghost before = out@;
        out.push(f.header.kind.code());
        out.push(f.header.compression.code());
        push_u64_be(&mut out, f.header.plain_size);
        push_u64_be(&mut out, f.header.stored_size);
        push_u64_be(&mut out, f.header.checksum);
        let mut k: usize = 0;
        while k < f.body.len()
            invariant
                k <= f.body@.len(),
                out@ == before + header_bytes(f.header) + f.body@.subrange(0, k as int),
            decreases f.body@.len() - k,
        {
            out.push(f.body[k]);
            k = k + 1;
            assert(out@ =~= before + header_bytes(f.header) + f.body@.subrange(0, k as int));
        }
        assert(f.body@.subrange(0, f.body@.len() as int) =~= f.body@);
        assert(fv.subrange(0, i + 1).drop_last() =~= fv.subrange(0, i as int));
        assert(fv[i as int] == f.view());
        assert(out@ =~= frames_bytes(fv.subrange(0, i + 1)));
        i = i + 1;
    }
    assert(fv.subrange(0, frames@.len() as int) =~= fv);
    out
}

/// The frames decoded so far, followed by what the rest of the input gives
pub open spec fn followed_by(
    done: Seq<FrameView>,
    rest: Result<Seq<FrameView>, FrameError>,
) -> Result<Seq<FrameView>, FrameError> {
    match rest {
        Ok(fs) => Ok(done + fs),
        Err(e) => Err(e),
    }
}

fn copy_range(bytes: &[u8], start: usize, end: usize) -> (r: Vec<u8>)
    requires
        start <= end <= bytes@.len(),
    ensures
        r@ == bytes@.subrange(start as int, end as int),
{
    let mut body: Vec<u8> = Vec::new();
    let mut k: usize = start;
    while k < end
        invariant
            start <= k <= end <= bytes@.len(),
            body@ == bytes@.subrange(start as int, k as int),
        decreases end - k,
    {
        body.push(bytes[k]);
        k = k + 1;
        assert(body@ =~= bytes@.subrange(start as int, k as int));
    }
    body
}

/// The header fields of the frame at the start of `b`
pub open spec fn frame_at(b: Seq<u8>, kind: PayloadType, compression: Compression) -> FrameView {
    let stored = be64_value(b.subrange(10, 18));
    FrameView {
        header: FrameHeader {
            kind,
            compression,
            plain_size: be64_value(b.subrange(2, 10)) as u64,
            stored_size: stored as u64,
            checksum: be64_value(b.subrange(18, 26)) as u64,
        },
        body: b.subrange(26, 26 + stored),
    }
}

proof fn lemma_decode_empty(b: Seq<u8>)
    requires
        b.len() == 0,
    ensures
        decode_frames_spec(b) == Ok::<Seq<FrameView>, FrameError>(Seq::empty()),
{
    reveal(decode_frames_spec);
}

proof fn lemma_decode_truncated(b: Seq<u8>)
    requires
        b.len() > 0,
        b.len() < 26 || b.len() - 26 < be64_value(b.subrange(10, 18)),
    ensures
        decode_frames_spec(b) == Err::<Seq<FrameView>, FrameError>(FrameError::Truncated),
{
    reveal(decode_frames_spec);
}

proof fn lemma_decode_frame(b: Seq<u8>, done: Seq<FrameView>)
    requires
        b.len() >= 26,
        be64_value(b.subrange(10, 18)) <= b.len() - 26,
    ensures
        ({
            let next = b.subrange(26 + be64_value(b.subrange(10, 18)), b.len() as int);
            let r = followed_by(done, decode_frames_spec(b));
            match PayloadType::spec_from_code(b[0]) {
                None => r == followed_by(done, decode_frames_spec(next)),
                Some(kind) => match Compression::spec_from_code(b[1]) {
                    None => r == Err::<Seq<FrameView>, FrameError>(
                        FrameError::UnknownCompression(b[1]),
                    ),
                    Some(c) => r == followed_by(
                        done.push(frame_at(b, kind, c)),
                        decode_frames_spec(next),
                    ),
                },
            }
        }),
{
    reveal(decode_frames_spec);
    let next = b.subrange(26 + be64_value(b.subrange(10, 18)), b.len() as int);
    match PayloadType::spec_from_code(b[0]) {
        None => {},
        Some(kind) => match Compression::spec_from_code(b[1]) {
            None => {},
            Some(c) => match decode_frames_spec(next) {
                Ok(fs) => {
                    assert(done + (seq![frame_at(b, kind, c)] + fs) =~= done.push(
                        frame_at(b, kind, c),
                    ) + fs);
                },
                Err(_) => {},
            },
        },
    }
}

/// Reads the payload frames that follow a stone header
pub fn decode_frames(bytes: &[u8]) -> (r: Result<Vec<Frame>, FrameError>)
    ensures
        match r {
            Ok(v) => decode_frames_spec(bytes@) == Ok::<Seq<FrameView>, FrameError>(
                frame_views(v@),
            ),
            Err(e) => decode_frames_spec(bytes@) == Err::<Seq<FrameView>, FrameError>(e),
        },
{
    let mut frames: Vec<Frame> = Vec::new();
    let mut pos: usize = 0;
    assert(bytes@.subrange(0, bytes@.len() as int) =~= bytes@);
    assert(frame_views(frames@) =~= Seq::<FrameView>::empty());
    assert(followed_by(Seq::empty(), decode_frames_spec(bytes@)) == decode_frames_spec(bytes@)) by {
        match decode_frames_spec(bytes@) {
            Ok(fs) => {
                assert(Seq::<FrameView>::empty() + fs =~= fs);
            },
            Err(_) => {},
        }
    }
    while pos < bytes.len()
        invariant
            pos <= bytes@.len(),
            decode_frames_spec(bytes@) == followed_by(
                frame_views(frames@),
                decode_frames_spec(bytes@.subrange(pos as int, bytes@.len() as int)),
            ),
        decreases bytes@.len() - pos,
    {
        let ghost b = bytes@.subrange(pos as int, bytes@.len() as int);
        let ghost done = frame_views(frames@);
        if bytes.len() - pos < FRAME_HEADER_LEN {
            proof {
                lemma_decode_truncated(b);
            }
            return Err(FrameError::Truncated);
        }
        let stored = read_u64_be(bytes, pos + 10);
        assert(b.subrange(10, 18) =~= bytes@.subrange(pos + 10, pos + 18));
        if ((bytes.len() - pos - FRAME_HEADER_LEN) as u64) < stored {
            proof {
                lemma_decode_truncated(b);
            }
            return Err(FrameError::Truncated);
        }
        let start = pos + FRAME_HEADER_LEN;
        let end = start + stored as usize;
        proof {
            lemma_decode_frame(b, done);
            assert(b.subrange(26 + stored, b.len() as int) =~= bytes@.subrange(
                end as int,
                bytes@.len() as int,
            ));
        }
        match PayloadType::from_code(bytes[pos]) {
            None => {},
            Some(kind) => match Compression::from_code(bytes[pos + 1]) {
                None => {
                    return Err(FrameError::UnknownCompression(bytes[pos + 1]));
                },
                Some(compression) => {
                    let plain_size = read_u64_be(bytes, pos + 2);
                    let checksum = read_u64_be(bytes, pos + 18);
                    let body = copy_range(bytes, start, end);
                    let frame = Frame {
                        header: FrameHeader {
                            kind,
                            compression,
                            plain_size,
                            stored_size: stored,
                            checksum,
                        },
                        body,
                    };
                    proof {
                        assert(b.subrange(2, 10) =~= bytes@.subrange(pos + 2, pos + 10));
                        assert(b.subrange(18, 26) =~= bytes@.subrange(pos + 18, pos + 26));
                        assert(b.subrange(26, 26 + stored) =~= frame.body@);
                        assert(frame.view() == frame_at(b, kind, compression));
                    }
                    frames.push(frame);
                    assert(frame_views(frames@) =~= done.push(frame.view()));
                },
            },
        }
        pos = end;
    }
    proof {
        lemma_decode_empty(bytes@.subrange(pos as int, bytes@.len() as int));
        assert(frame_views(frames@) + Seq::<FrameView>::empty() =~= frame_views(frames@));
    }
    Ok(frames)
}

/// Errors of reading a whole stone file
#[derive(Debug, Clone, Copy, PartialEq, Eq, Structural)]
pub enum StoneError {
    Header(DecodeError),
    Payload(FrameError),
}

/// What `decode_stone` yields for the given bytes: the header, then the
/// payload frames after its 32 bytes.
pub open spec fn decode_stone_spec(b: Seq<u8>) -> Result<(Header, Seq<FrameView>), StoneError> {
    match decode_spec(b) {
        Err(e) => Err(StoneError::Header(e)),
        Ok(h) => match decode_frames_spec(b.subrange(32, b.len() as int)) {
            Err(e) => Err(StoneError::Payload(e)),
            Ok(fs) => Ok((h, fs)),
        },
    }
}

/// Decodes a whole stone file held in memory
pub fn decode_stone(bytes: &[u8]) -> (r: Result<(Header, Vec<Frame>), StoneError>)
    ensures
        match r {
            Ok((h, v)) => decode_stone_spec(bytes@) == Ok::<
                (Header, Seq<FrameView>),
                StoneError,
            >((h, frame_views(v@))),
            Err(e) => decode_stone_spec(bytes@) == Err::<(Header, Seq<FrameView>), StoneError>(e),
        },
{
    let header = match Header::decode(bytes) {
        Ok(h) => h,
        Err(e) => return Err(StoneError::Header(e)),
    };
    let rest = copy_range(bytes, 32, bytes.len());
    match decode_frames(rest.as_slice()) {
        Ok(frames) => Ok((header, frames)),
        Err(e) => Err(StoneError::Payload(e)),
    }
}

/// Writes a stone file: the encoded header followed by the frames
pub fn encode_stone(header: &Header, frames: &Vec<Frame>) -> (r: Vec<u8>)
    requires
        forall|i: int| 0 <= i < frames@.len() ==> well_formed(#[trigger] frames@[i].view()),
    ensures
        r@ == header.spec_encoded_bytes() + frames_bytes(frame_views(frames@)),
{
    let mut out = header.encode().to_bytes();
    let body = encode_frames(frames);
    let ghost start = out@;
    let mut i: usize = 0;
    while i < body.len()
        invariant
            i <= body@.len(),
            out@ == start + body@.subrange(0, i as int),
        decreases body@.len() - i,
    {
        out.push(body[i]);
        i = i + 1;
        assert(out@ =~= start + body@.subrange(0, i as int));
    }
    assert(body@.subrange(0, body@.len() as int) =~= body@);
    out
}

/// A stone file written from a header and well formed payload frames reads
/// back as the same header and the same frames, in the same order.
pub proof fn lemma_stone_round_trip(h: Header, fs: Seq<FrameView>)
    requires
        forall|i: int| 0 <= i < fs.len() ==> well_formed(#[trigger] fs[i]),
    ensures
        decode_stone_spec(h.spec_encoded_bytes() + frames_bytes(fs)) == Ok::<
            (Header, Seq<FrameView>),
            StoneError,
        >((h, fs)),
{
    let b = h.spec_encoded_bytes() + frames_bytes(fs);
    assert(decode_spec(b) == Ok::<Header, DecodeError>(h)) by {
        lemma_header_round_trip(h, frames_bytes(fs));
    }
    assert(decode_frames_spec(b.subrange(32, b.len() as int)) == Ok::<
        Seq<FrameView>,
        FrameError,
    >(fs)) by {
        lemma_frames_round_trip(fs);
        assert(h.spec_encoded_bytes().len() == 32) by {
            match h {
                Header::V1(v) => {
                    assert(be_bytes(crate::header::STONE_MAGIC).len() == 4);
                    assert(be_bytes(1).len() == 4);
                },
            }
        }
        assert(b.subrange(32, b.len() as int) =~= frames_bytes(fs));
    }
}

/// Size in bytes of one index record: start, end and a 128-bit digest
pub const INDEX_RECORD_LEN: usize = 32;

/// Big endian value of sixteen bytes
pub open spec fn be128_value(b: Seq<u8>) -> int {
    be64_value(b.subrange(0, 8)) * 0x1_0000_0000_0000_0000 + be64_value(b.subrange(8, 16))
}

/// The index record at position `k` of an index body
pub open spec fn index_record(b: Seq<u8>, k: int) -> IndexEntry {
    IndexEntry {
        start: be64_value(b.subrange(32 * k, 32 * k + 8)) as u64,
        end: be64_value(b.subrange(32 * k + 8, 32 * k + 16)) as u64,
        digest: be128_value(b.subrange(32 * k + 16, 32 * k + 32)) as u128,
    }
}

/// The records of an index body; `None` when its length is not a whole
/// number of records
pub open spec fn index_records(b: Seq<u8>) -> Option<Seq<IndexEntry>> {
    if b.len() % 32 == 0 {
        Some(Seq::new((b.len() / 32) as nat, |k: int| index_record(b, k)))
    } else {
        None
    }
}

fn read_u128_be(b: &[u8], at: usize) -> (r: u128)
    requires
        at + 16 <= b@.len(),
    ensures
        r == be128_value(b@.subrange(at as int, at + 16)),
{
    assert(at + 16 <= b.len());
    let hi = read_u64_be(b, at);
    let lo = read_u64_be(b, at + 8);
    proof {
        let s = b@.subrange(at as int, at + 16);
        assert(s.subrange(0, 8) =~= b@.subrange(at as int, at + 8));
        assert(s.subrange(8, 16) =~= b@.subrange(at + 8, at + 16));
    }
    (hi as u128) * 0x1_0000_0000_0000_0000 + (lo as u128)
}

/// Decodes the records of an index payload's plain body
pub fn decode_index(body: &[u8]) -> (r: Option<Vec<IndexEntry>>)
    ensures
        match r {
            Some(v) => index_records(body@) == Some(v@),
            None => index_records(body@) is None,
        },
{
    if body.len() % INDEX_RECORD_LEN != 0 {
        return None;
    }
    let n = body.len() / INDEX_RECORD_LEN;
    let mut v: Vec<IndexEntry> = Vec::new();
    let mut k: usize = 0;
    while k < n
        invariant
            k <= n,
            n == body@.len() / 32,
            body@.len() % 32 == 0,
            v@.len() == k,
            forall|j: int| 0 <= j < k ==> v@[j] == index_record(body@, j),
        decreases n - k,
    {
        assert(32 * k + 32 <= body@.len()) by (nonlinear_arith)
            requires
                k < n,
                n == body@.len() / 32,
                body@.len() % 32 == 0,
        ;
        assert(32 * k + 32 <= body.len());
        let at = 32 * k;
        let start = read_u64_be(body, at);
        let end = read_u64_be(body, at + 8);
        let digest = read_u128_be(body, at + 16);
        v.push(IndexEntry { start, end, digest });
        k = k + 1;
    }
    assert(v@ =~= Seq::new((body@.len() / 32) as nat, |k: int| index_record(body@, k)));
    Some(v)
}

/// The typed payload of a frame, given its plain body
pub open spec fn payload_kind_spec(h: FrameHeader, body: Seq<u8>) -> Option<PayloadKind> {
    match h.kind {
        PayloadType::Meta => Some(PayloadKind::Meta),
        PayloadType::Layout => Some(PayloadKind::Layout),
        PayloadType::Attributes => Some(PayloadKind::Attributes),
        PayloadType::Content => Some(
            PayloadKind::Content(
                PayloadHeader { plain_size: h.plain_size, stored_size: h.stored_size },
            ),
        ),
        PayloadType::Index => None,
    }
}

/// Types a payload from its header and plain body: index bodies are decoded
/// into their records, and are `None` when malformed; the content payload
/// keeps only its sizes.
pub fn payload_kind(header: &FrameHeader, body: &[u8]) -> (r: Option<PayloadKind>)
    ensures
        header.kind != PayloadType::Index ==> r == payload_kind_spec(*header, body@),
        header.kind == PayloadType::Index ==> match index_records(body@) {
            None => r is None,
            Some(es) => r matches Some(PayloadKind::Index(v)) && v@ == es,
        },
{
    match header.kind {
        PayloadType::Meta => Some(PayloadKind::Meta),
        PayloadType::Layout => Some(PayloadKind::Layout),
        PayloadType::Attributes => Some(PayloadKind::Attributes),
        PayloadType::Content => Some(
            PayloadKind::Content(
                PayloadHeader { plain_size: header.plain_size, stored_size: header.stored_size },
            ),
        ),
        PayloadType::Index => match decode_index(body) {
            Some(v) => Some(PayloadKind::Index(v)),
            None => None,
        },
    }
}

} // verus!
