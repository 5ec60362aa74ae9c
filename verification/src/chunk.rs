//! A PNG-style chunk: a big-endian length, a four-byte type code, the
//! payload, and a CRC-32 checksum over the type code and payload.

use vstd::prelude::*;

use crate::chunk_type::ChunkType;
use crate::scan::{slice_to_vec, utf8_to_string};
use vstd::utf8::{decode_utf8, valid_utf8};

verus! {

/// The checksum the crc crate computes with the CRC-32/ISO-HDLC
/// algorithm over a byte string.
pub uninterp spec fn crc32_of(bytes: Seq<u8>) -> u32;

/// Why bytes do not parse as a chunk, or a payload is not text.
#[derive(Debug, PartialEq, Eq, Structural, Clone, Copy)]
pub enum ChunkError {
    /// Fewer than the twelve bytes of length, type and checksum.
    TooShort,
    /// The stored checksum does not match the computed one.
    BadCrc,
    /// The payload is not valid UTF-8.
    NotText,
}

/// The u32 read big-endian from four bytes.
pub open spec fn be32(b0: u8, b1: u8, b2: u8, b3: u8) -> u32 {
    (b0 as u32 * 0x1000000 + b1 as u32 * 0x10000 + b2 as u32 * 0x100 + b3 as u32) as u32
}

/// The four big-endian bytes of a u32.
pub open spec fn u32_be_bytes(x: u32) -> Seq<u8> {
    seq![
        (x / 0x1000000) as u8,
        ((x / 0x10000) % 0x100) as u8,
        ((x / 0x100) % 0x100) as u8,
        (x % 0x100) as u8,
    ]
}

/// Reads a u32 big-endian from four bytes.
pub fn read_be32(b0: u8, b1: u8, b2: u8, b3: u8) -> (r: u32)
    ensures
        r == be32(b0, b1, b2, b3),
{
    (b0 as u32) * 0x1000000 + (b1 as u32) * 0x10000 + (b2 as u32) * 0x100 + (b3 as u32)
}

/// Appends the four big-endian bytes of `x` to `out`.
pub fn push_be32(out: &mut Vec<u8>, x: u32)
    ensures
        final(out)@ == old(out)@ + u32_be_bytes(x),
{
    out.push((x / 0x1000000) as u8);
    out.push(((x / 0x10000) % 0x100) as u8);
    out.push(((x / 0x100) % 0x100) as u8);
    out.push((x % 0x100) as u8);
    proof {
        assert(out@ =~= old(out)@ + u32_be_bytes(x));
    }
}

/// Reading back the four big-endian bytes of `x` gives `x`.
pub proof fn lemma_be32_round_trip(x: u32)
    ensures
        be32(u32_be_bytes(x)[0], u32_be_bytes(x)[1], u32_be_bytes(x)[2], u32_be_bytes(x)[3]) == x,
{
    assert((x as int) / 0x1000000 * 0x1000000 + ((x as int) / 0x10000) % 0x100 * 0x10000 + ((
    x as int) / 0x100) % 0x100 * 0x100 + (x as int) % 0x100 == x as int) by (nonlinear_arith);
}

/// A chunk's wire form parses back to the same chunk: the bytes that
/// `as_bytes` lays out are long enough, carry the type code, payload,
/// length and checksum where `try_from` reads them, and pass its
/// checksum test whenever the stored checksum is the one computed over
/// type code and payload.
pub proof fn lemma_wire_round_trip(v: ChunkView)
    requires
        v.chunk_type.len() == 4,
        v.crc == crc32_of(v.chunk_type + v.data),
    ensures
        ({
            let w = u32_be_bytes(v.length) + v.chunk_type + v.data + u32_be_bytes(v.crc);
            let n = w.len() as int;
            &&& n >= 12
            &&& w.subrange(4, 8) == v.chunk_type
            &&& w.subrange(8, n - 4) == v.data
            &&& be32(w[0], w[1], w[2], w[3]) == v.length
            &&& be32(w[n - 4], w[n - 3], w[n - 2], w[n - 1]) == crc32_of(
                w.subrange(4, 8) + w.subrange(8, n - 4),
            )
        }),
{
    let w = u32_be_bytes(v.length) + v.chunk_type + v.data + u32_be_bytes(v.crc);
    let n = w.len() as int;
    assert(w.subrange(4, 8) =~= v.chunk_type);
    assert(w.subrange(8, n - 4) =~= v.data);
    lemma_be32_round_trip(v.length);
    lemma_be32_round_trip(v.crc);
    assert(w[0] == u32_be_bytes(v.length)[0]);
    assert(w[1] == u32_be_bytes(v.length)[1]);
    assert(w[2] == u32_be_bytes(v.length)[2]);
    assert(w[3] == u32_be_bytes(v.length)[3]);
    assert(w[n - 4] == u32_be_bytes(v.crc)[0]);
    assert(w[n - 3] == u32_be_bytes(v.crc)[1]);
    assert(w[n - 2] == u32_be_bytes(v.crc)[2]);
    assert(w[n - 1] == u32_be_bytes(v.crc)[3]);
}

/// One chunk.  Its view carries the stored length, the type code's
/// bytes, the payload, and the stored checksum.
#[derive(Debug)]
pub struct Chunk {
    length: u32,
    chunk_type: ChunkType,
    data: Vec<u8>,
    crc: u32,
}

/// The mathematical image of a `Chunk`.
#[verifier::ext_equal]
pub struct ChunkView {
    pub length: u32,
    pub chunk_type: Seq<u8>,
    pub data: Seq<u8>,
    pub crc: u32,
}

impl View for Chunk {
    type V = ChunkView;

    closed spec fn view(&self) -> ChunkView {
        ChunkView {
            length: self.length,
            chunk_type: self.chunk_type@,
            data: self.data@,
            crc: self.crc,
        }
    }
}

impl Chunk {
    /// Relies on crc::Crc with crc::CRC_32_ISO_HDLC: updating a digest
    /// with two slices in order and finalizing equals the checksum of
    /// their concatenation, a function of those bytes alone.
    #[verifier::external_body]
    pub fn calculate_crc(chunk_type: &[u8; 4], data: &Vec<u8>) -> (r: u32)
        ensures
            r == crc32_of(chunk_type@ + data@),
    {
        let c = crc::Crc::<u32>::new(&crc::CRC_32_ISO_HDLC);
        let mut digest = c.digest();
        digest.update(chunk_type);
        digest.update(data);
        digest.finalize()
    }

    /// A chunk over the given type code and payload, with the length
    /// and checksum both computed from them.
    pub fn new(chunk_type: ChunkType, data: Vec<u8>) -> (c: Chunk)
        requires
            data@.len() <= u32::MAX,
        ensures
            c@ == (ChunkView {
                length: data@.len() as u32,
                chunk_type: chunk_type@,
                data: data@,
                crc: crc32_of(chunk_type@ + data@),
            }),
    {
        let length: u32 = data.len() as u32;
        let type_bytes = chunk_type.bytes();
        let crc = Chunk::calculate_crc(&type_bytes, &data);
        let c = Chunk { length, chunk_type, data, crc };
        proof {
            assert(c@ =~= (ChunkView {
                length: c.data@.len() as u32,
                chunk_type: chunk_type@,
                data: c.data@,
                crc: crc32_of(chunk_type@ + c.data@),
            }));
        }
        c
    }

    /// Parses a chunk from its wire form: four length bytes, four type
    /// bytes, the payload, four checksum bytes.  Too few bytes or a
    /// checksum that does not match the one computed over type and
    /// payload is an error, stated exactly below.
    pub fn try_from(data: &[u8]) -> (r: Result<Chunk, ChunkError>)
        ensures
            data@.len() < 12 ==> r == Result::<Chunk, ChunkError>::Err(ChunkError::TooShort),
            data@.len() >= 12 ==> {
                let n = data@.len() as int;
                let typ = data@.subrange(4, 8);
                let payload = data@.subrange(8, n - 4);
                let stored = be32(data@[n - 4], data@[n - 3], data@[n - 2], data@[n - 1]);
                if stored == crc32_of(typ + payload) {
                    match r {
                        Ok(c) => c@ == (ChunkView {
                            length: be32(data@[0], data@[1], data@[2], data@[3]),
                            chunk_type: typ,
                            data: payload,
                            crc: stored,
                        }),
                        Err(_) => false,
                    }
                } else {
                    r == Result::<Chunk, ChunkError>::Err(ChunkError::BadCrc)
                }
            },
    {
        let n: usize = data.len();
        if n < 12 {
            return Err(ChunkError::TooShort);
        }
        let type_bytes: [u8; 4] = [data[4], data[5], data[6], data[7]];
        let payload = slice_to_vec(data, 8, n - 4);
        proof {
            assert(type_bytes@ =~= data@.subrange(4, 8));
        }
        let computed: u32 = Chunk::calculate_crc(&type_bytes, &payload);
        let stored: u32 = read_be32(data[n - 4], data[n - 3], data[n - 2], data[n - 1]);
        if stored != computed {
            return Err(ChunkError::BadCrc);
        }
        let chunk_type = match ChunkType::try_from(type_bytes) {
            Ok(t) => t,
            Err(_) => {
                return Err(ChunkError::TooShort);
            },
        };
        let length: u32 = read_be32(data[0], data[1], data[2], data[3]);
        let c = Chunk { length, chunk_type, data: payload, crc: stored };
        proof {
            assert(c@ =~= (ChunkView {
                length: be32(data@[0], data@[1], data@[2], data@[3]),
                chunk_type: data@.subrange(4, 8),
                data: data@.subrange(8, data@.len() as int - 4),
                crc: stored,
            }));
        }
        Ok(c)
    }

    /// The stored length field.
    pub fn length(&self) -> (r: u32)
        ensures
            r == self@.length,
    {
        self.length
    }

    /// The stored checksum.
    pub fn crc(&self) -> (r: u32)
        ensures
            r == self@.crc,
    {
        self.crc
    }

    /// The type code.
    pub fn chunk_type(&self) -> (r: &ChunkType)
        ensures
            r@ == self@.chunk_type,
    {
        &self.chunk_type
    }

    /// The payload as text, or an error when it is not valid UTF-8.
    pub fn data_as_string(&self) -> (r: Result<String, ChunkError>)
        ensures
            match r {
                Ok(s) => valid_utf8(self@.data) && s@ == decode_utf8(self@.data),
                Err(e) => !valid_utf8(self@.data) && e == ChunkError::NotText,
            },
    {
        match utf8_to_string(self.data.as_slice()) {
            Some(s) => Ok(s),
            None => Err(ChunkError::NotText),
        }
    }

    /// The chunk in its wire form: the length big-endian, the type
    /// bytes, the payload, the checksum big-endian.
    pub fn as_bytes(&self) -> (r: Vec<u8>)
        ensures
            r@ == u32_be_bytes(self@.length) + self@.chunk_type + self@.data + u32_be_bytes(
                self@.crc,
            ),
    {
        let mut bytes: Vec<u8> = Vec::new();
        push_be32(&mut bytes, self.length);
        let type_bytes = self.chunk_type.bytes();
        bytes.push(type_bytes[0]);
        bytes.push(type_bytes[1]);
        bytes.push(type_bytes[2]);
        bytes.push(type_bytes[3]);
        proof {
            assert(bytes@ =~= u32_be_bytes(self@.length) + self@.chunk_type + self@.data.take(0));
        }
        let m: usize = self.data.len();
        let mut i: usize = 0;
        while i < m
            invariant
                m == self.data@.len(),
                i <= m,
                bytes@ =~= u32_be_bytes(self@.length) + self@.chunk_type + self@.data.take(i as int),
            decreases m - i,
        {
            bytes.push(self.data[i]);
            proof {
                assert(bytes@ =~= u32_be_bytes(self@.length) + self@.chunk_type + self@.data.take(
                    i + 1,
                ));
            }
            i = i + 1;
        }
        proof {
            assert(self@.data.take(m as int) =~= self@.data);
        }
        push_be32(&mut bytes, self.crc);
        proof {
            assert(bytes@ =~= u32_be_bytes(self@.length) + self@.chunk_type + self@.data
                + u32_be_bytes(self@.crc));
        }
        bytes
    }
}

} // verus!
