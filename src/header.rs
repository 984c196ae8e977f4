use crate::text::{push_decimal, string_of};
use vstd::prelude::*;

verus! {

/// Well defined magic field for a stone header
pub const STONE_MAGIC: u32 = 0x006d6f73;

/// Size in bytes of the version agnostic envelope
pub const HEADER_LEN: usize = 32;

/// The twenty-one bytes that sit between the payload count and the file type
/// of a V1 header, used to detect corruption.
pub open spec fn integrity_check() -> Seq<u8> {
    seq![0u8, 0, 1, 0, 0, 2, 0, 0, 3, 0, 0, 4, 0, 0, 5, 0, 0, 6, 0, 0, 7]
}

/// Big endian value of four bytes.
pub open spec fn be_value(b: Seq<u8>) -> int {
    b[0] * 0x1000000 + b[1] * 0x10000 + b[2] * 0x100 + b[3]
}

/// Big endian bytes of a 32-bit value.
pub open spec fn be_bytes(x: u32) -> Seq<u8> {
    seq![
        (x / 0x1000000) as u8,
        ((x / 0x10000) % 0x100) as u8,
        ((x / 0x100) % 0x100) as u8,
        (x % 0x100) as u8,
    ]
}

/// Four big endian bytes of a value read back as that value.
pub proof fn lemma_be_round_trip(x: u32)
    ensures
        be_value(be_bytes(x)) == x,
{
    let b = be_bytes(x);
    assert(b[0] == x / 0x1000000);
    assert(b[1] == (x / 0x10000) % 0x100);
    assert(b[2] == (x / 0x100) % 0x100);
    assert(b[3] == x % 0x100);
    assert((x / 0x1000000) * 0x1000000 + ((x / 0x10000) % 0x100) * 0x10000 + ((x / 0x100)
        % 0x100) * 0x100 + x % 0x100 == x) by (nonlinear_arith);
}

/// Encodes a 32-bit value as four big endian bytes.
pub fn u32_to_be(x: u32) -> (r: [u8; 4])
    ensures
        r@ == be_bytes(x),
{
    let r = [(x / 0x1000000) as u8, ((x / 0x10000) % 0x100) as u8, ((x / 0x100) % 0x100) as u8, (
    x % 0x100) as u8];
    assert(r@ =~= be_bytes(x));
    r
}

/// Reads a 32-bit value from four big endian bytes.
pub fn u32_from_be(b: [u8; 4]) -> (r: u32)
    ensures
        r == be_value(b@),
{
    (b[0] as u32) * 0x1000000 + (b[1] as u32) * 0x10000 + (b[2] as u32) * 0x100 + (b[3] as u32)
}

/// Format versions are defined as u32, to allow further mangling in future
#[derive(Debug, Clone, Copy, PartialEq, Eq, Structural)]
pub enum Version {
    V1,
}

impl Version {
    pub open spec fn spec_number(self) -> u32 {
        match self {
            Version::V1 => 1,
        }
    }

    /// The number that names this version on disk
    pub fn number(self) -> (r: u32)
        ensures
            r == self.spec_number(),
    {
        match self {
            Version::V1 => 1,
        }
    }
}

/// The kind of content held by a V1 stone file
#[derive(Debug, Clone, Copy, PartialEq, Eq, Structural)]
pub enum FileType {
    Unknown,
    Binary,
    Delta,
    Repository,
    BuildManifest,
}

impl FileType {
    pub open spec fn spec_code(self) -> u8 {
        match self {
            FileType::Unknown => 0,
            FileType::Binary => 1,
            FileType::Delta => 2,
            FileType::Repository => 3,
            FileType::BuildManifest => 4,
        }
    }

    pub open spec fn spec_from_code(c: u8) -> Option<FileType> {
        if c == 0 {
            Some(FileType::Unknown)
        } else if c == 1 {
            Some(FileType::Binary)
        } else if c == 2 {
            Some(FileType::Delta)
        } else if c == 3 {
            Some(FileType::Repository)
        } else if c == 4 {
            Some(FileType::BuildManifest)
        } else {
            None
        }
    }

    pub fn code(self) -> (r: u8)
        ensures
            r == self.spec_code(),
    {
        match self {
            FileType::Unknown => 0,
            FileType::Binary => 1,
            FileType::Delta => 2,
            FileType::Repository => 3,
            FileType::BuildManifest => 4,
        }
    }

    pub fn from_code(c: u8) -> (r: Option<FileType>)
        ensures
            r == FileType::spec_from_code(c),
    {
        if c == 0 {
            Some(FileType::Unknown)
        } else if c == 1 {
            Some(FileType::Binary)
        } else if c == 2 {
            Some(FileType::Delta)
        } else if c == 3 {
            Some(FileType::Repository)
        } else if c == 4 {
            Some(FileType::BuildManifest)
        } else {
            None
        }
    }
}

/// Errors of the V1 specific header data
#[derive(Debug, Clone, Copy, PartialEq, Eq, Structural)]
pub enum V1DecodeError {
    Corrupt,
    UnknownFileType(u8),
}

/// The V1 interpretation of the 24 version specific bytes
#[derive(Debug, Clone, Copy, PartialEq, Eq, Structural)]
pub struct V1Header {
    pub num_payloads: u16,
    pub file_type: FileType,
}

/// The 24 data bytes of a V1 header: payload count (big endian), integrity
/// check, file type.
pub open spec fn v1_bytes(h: V1Header) -> Seq<u8> {
    seq![(h.num_payloads / 0x100) as u8, (h.num_payloads % 0x100) as u8] + integrity_check()
        + seq![h.file_type.spec_code()]
}

pub open spec fn v1_decode_spec(d: Seq<u8>) -> Result<V1Header, V1DecodeError> {
    if d.subrange(2, 23) != integrity_check() {
        Err(V1DecodeError::Corrupt)
    } else {
        match FileType::spec_from_code(d[23]) {
            Some(t) => Ok(V1Header { num_payloads: (d[0] * 0x100 + d[1]) as u16, file_type: t }),
            None => Err(V1DecodeError::UnknownFileType(d[23])),
        }
    }
}

impl Default for V1Header {
    fn default() -> (r: V1Header)
        ensures
            r == (V1Header { num_payloads: 0, file_type: FileType::Unknown }),
    {
        V1Header { num_payloads: 0, file_type: FileType::Unknown }
    }
}

impl V1Header {
    pub fn encode(&self) -> (r: [u8; 24])
        ensures
            r@ == v1_bytes(*self),
    {
        let r = [
            (self.num_payloads / 0x100) as u8,
            (self.num_payloads % 0x100) as u8,
            0,
            0,
            1,
            0,
            0,
            2,
            0,
            0,
            3,
            0,
            0,
            4,
            0,
            0,
            5,
            0,
            0,
            6,
            0,
            0,
            7,
            self.file_type.code(),
        ];
        assert(r@ =~= v1_bytes(*self));
        r
    }

    pub fn decode(d: [u8; 24]) -> (r: Result<V1Header, V1DecodeError>)
        ensures
            r == v1_decode_spec(d@),
    {
        let check: [u8; 21] = [0, 0, 1, 0, 0, 2, 0, 0, 3, 0, 0, 4, 0, 0, 5, 0, 0, 6, 0, 0, 7];
        let mut i: usize = 0;
        while i < 21
            invariant
                0 <= i <= 21,
                check@ == integrity_check(),
                forall|j: int| 0 <= j < i ==> d@[j + 2] == check@[j],
            decreases 21 - i,
        {
            if d[i + 2] != check[i] {
                assert(d@.subrange(2, 23)[i as int] != integrity_check()[i as int]);
                return Err(V1DecodeError::Corrupt);
            }
            i = i + 1;
        }
        assert(d@.subrange(2, 23) =~= integrity_check());
        match FileType::from_code(d[23]) {
            Some(t) => Ok(
                V1Header {
                    num_payloads: (d[0] as u16) * 0x100 + (d[1] as u16),
                    file_type: t,
                },
            ),
            None => Err(V1DecodeError::UnknownFileType(d[23])),
        }
    }
}

/// The stone format uses an agnostic approach requiring a valid magic field
/// in the first 4 bytes, and a version specifier in the last 4 bytes, using
/// big endian order.
#[derive(Debug, Clone, Copy, PartialEq, Eq)]
pub struct AgnosticHeader {
    /// 4-bytes, BE (u32): Magic to quickly identify a stone file
    pub magic: [u8; 4],
    /// 24 bytes, version specific
    pub data: [u8; 24],
    /// 4-bytes, BE (u32): Format version used in the container
    pub version: [u8; 4],
}

impl AgnosticHeader {
    /// The 32 bytes of the envelope in on-disk order
    pub open spec fn spec_bytes(self) -> Seq<u8> {
        self.magic@ + self.data@ + self.version@
    }

    pub fn to_bytes(&self) -> (r: Vec<u8>)
        ensures
            r@ == self.spec_bytes(),
    {
        let mut r: Vec<u8> = Vec::new();
        let mut i: usize = 0;
        while i < 4
            invariant
                0 <= i <= 4,
                r@ == self.magic@.subrange(0, i as int),
            decreases 4 - i,
        {
            r.push(self.magic[i]);
            i = i + 1;
            assert(r@ =~= self.magic@.subrange(0, i as int));
        }
        let mut i: usize = 0;
        while i < 24
            invariant
                0 <= i <= 24,
                r@ == self.magic@ + self.data@.subrange(0, i as int),
            decreases 24 - i,
        {
            r.push(self.data[i]);
            i = i + 1;
            assert(r@ =~= self.magic@ + self.data@.subrange(0, i as int));
        }
        let mut i: usize = 0;
        while i < 4
            invariant
                0 <= i <= 4,
                r@ == self.magic@ + self.data@ + self.version@.subrange(0, i as int),
            decreases 4 - i,
        {
            r.push(self.version[i]);
            i = i + 1;
            assert(r@ =~= self.magic@ + self.data@ + self.version@.subrange(0, i as int));
        }
        assert(self.magic@.subrange(0, 4) =~= self.magic@);
        assert(self.data@.subrange(0, 24) =~= self.data@);
        assert(self.version@.subrange(0, 4) =~= self.version@);
        r
    }

    /// Splits the first 32 bytes into magic, data and version
    pub fn decode(bytes: &[u8]) -> (r: Result<AgnosticHeader, DecodeError>)
        ensures
            bytes@.len() < 32 ==> r == Err::<AgnosticHeader, DecodeError>(
                DecodeError::NotEnoughBytes,
            ),
            bytes@.len() >= 32 ==> (r matches Ok(h) && h.spec_bytes() == bytes@.subrange(0, 32)),
    {
        if bytes.len() < HEADER_LEN {
            return Err(DecodeError::NotEnoughBytes);
        }
        let magic = [bytes[0], bytes[1], bytes[2], bytes[3]];
        let mut data = [0u8; 24];
        let mut i: usize = 0;
        while i < 24
            invariant
                0 <= i <= 24,
                bytes@.len() >= 32,
                data@.len() == 24,
                forall|j: int| 0 <= j < i ==> data@[j] == bytes@[j + 4],
            decreases 24 - i,
        {
            data[i] = bytes[i + 4];
            i = i + 1;
        }
        let version = [bytes[28], bytes[29], bytes[30], bytes[31]];
        let h = AgnosticHeader { magic, data, version };
        assert(h.spec_bytes() =~= bytes@.subrange(0, 32));
        Ok(h)
    }
}

/// A decoded stone header, one variant per known format version
#[derive(Debug, Clone, Copy, PartialEq, Eq, Structural)]
pub enum Header {
    V1(V1Header),
}

/// Errors when decoding a stone header
#[derive(Debug, Clone, Copy, PartialEq, Eq, Structural)]
pub enum DecodeError {
    NotEnoughBytes,
    InvalidMagic,
    UnknownVersion(u32),
    V1(V1DecodeError),
}

impl DecodeError {
    /// A human readable description of the error
    pub fn message(&self) -> String {
        match self {
            DecodeError::NotEnoughBytes => "Header must be 32 bytes long".to_owned(),
            DecodeError::InvalidMagic => "Invalid magic".to_owned(),
            DecodeError::UnknownVersion(v) => {
                let mut digits: Vec<char> = Vec::new();
                push_decimal(&mut digits, *v as usize);
                let mut m = "Unknown version: ".to_owned();
                m.append(string_of(&digits).as_str());
                m
            },
            DecodeError::V1(V1DecodeError::Corrupt) => "v1 error: corrupt header".to_owned(),
            DecodeError::V1(V1DecodeError::UnknownFileType(_)) =>
                "v1 error: unknown file type".to_owned(),
        }
    }
}

impl Header {
    pub open spec fn spec_version(self) -> Version {
        match self {
            Header::V1(_) => Version::V1,
        }
    }

    /// The 32 bytes of the encoded envelope
    pub open spec fn spec_encoded_bytes(self) -> Seq<u8> {
        match self {
            Header::V1(h) => be_bytes(STONE_MAGIC) + v1_bytes(h) + be_bytes(1),
        }
    }

    pub fn version(&self) -> (r: Version)
        ensures
            r == self.spec_version(),
    {
        match self {
            Header::V1(_) => Version::V1,
        }
    }

    pub fn encode(&self) -> (r: AgnosticHeader)
        ensures
            r.spec_bytes() == self.spec_encoded_bytes(),
            be_value(r.magic@) == STONE_MAGIC,
            be_value(r.version@) == self.spec_version().spec_number(),
    {
        let magic = u32_to_be(STONE_MAGIC);
        let version = u32_to_be(self.version().number());
        let data = match self {
            Header::V1(v1) => v1.encode(),
        };
        proof {
            lemma_be_round_trip(STONE_MAGIC);
            lemma_be_round_trip(1);
        }
        AgnosticHeader { magic, data, version }
    }

    pub fn decode(bytes: &[u8]) -> (r: Result<Header, DecodeError>)
        ensures
            r == decode_spec(bytes@),
            r is Ok ==> bytes@.len() >= 32,
    {
        proof {
        reveal(decode_spec);
    }
    let header = match AgnosticHeader::decode(bytes) {
            Ok(h) => h,
            Err(e) => return Err(e),
        };
        proof {
            let all = header.spec_bytes();
            assert(header.magic@ =~= all.subrange(0, 4));
            assert(header.data@ =~= all.subrange(4, 28));
            assert(header.version@ =~= all.subrange(28, 32));
            assert(bytes@.subrange(0, 4) =~= all.subrange(0, 4));
            assert(bytes@.subrange(4, 28) =~= all.subrange(4, 28));
            assert(bytes@.subrange(28, 32) =~= all.subrange(28, 32));
        }
        if STONE_MAGIC != u32_from_be(header.magic) {
            return Err(DecodeError::InvalidMagic);
        }
        let v = u32_from_be(header.version);
        if v != 1 {
            return Err(DecodeError::UnknownVersion(v));
        }
        match V1Header::decode(header.data) {
            Ok(h) => Ok(Header::V1(h)),
            Err(e) => Err(DecodeError::V1(e)),
        }
    }
}

/// What `Header::decode` yields for the given input bytes
#[verifier::opaque]
pub open spec fn decode_spec(b: Seq<u8>) -> Result<Header, DecodeError> {
    if b.len() < 32 {
        Err(DecodeError::NotEnoughBytes)
    } else if be_value(b.subrange(0, 4)) != STONE_MAGIC {
        Err(DecodeError::InvalidMagic)
    } else if be_value(b.subrange(28, 32)) != 1 {
        Err(DecodeError::UnknownVersion(be_value(b.subrange(28, 32)) as u32))
    } else {
        match v1_decode_spec(b.subrange(4, 28)) {
            Ok(h) => Ok(Header::V1(h)),
            Err(e) => Err(DecodeError::V1(e)),
        }
    }
}

/// Decoding the bytes of an encoded header, followed by anything at all,
/// gives back the same header.
pub proof fn lemma_header_round_trip(h: Header, rest: Seq<u8>)
    ensures
        decode_spec(h.spec_encoded_bytes() + rest) == Ok::<Header, DecodeError>(h),
{
    reveal(decode_spec);
    let b = h.spec_encoded_bytes() + rest;
    lemma_be_round_trip(STONE_MAGIC);
    lemma_be_round_trip(1);
    match h {
        Header::V1(v) => {
            assert(b.subrange(0, 4) =~= be_bytes(STONE_MAGIC));
            assert(b.subrange(28, 32) =~= be_bytes(1));
            let d = b.subrange(4, 28);
            assert(d =~= v1_bytes(v));
            assert(d.subrange(2, 23) =~= integrity_check());
            assert((v.num_payloads / 0x100) * 0x100 + v.num_payloads % 0x100 == v.num_payloads);
            match v.file_type {
                FileType::Unknown => {},
                FileType::Binary => {},
                FileType::Delta => {},
                FileType::Repository => {},
                FileType::BuildManifest => {},
            }
        },
    }
}

} // verus!
