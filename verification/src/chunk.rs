//! A single PNG chunk: 4-byte big-endian length, 4-byte type tag, payload
//! bytes, and a CRC-32 over type and payload. Serialization and parsing are
//! exact inverses, stated against one pair of specification functions.

use crate::PngError;
use crate::chunk_type::{ChunkType, is_tag};
use crate::crc::{crc32_pair, spec_crc32};
use vstd::prelude::*;

verus! {

/// Big-endian 4-byte encoding of a 32-bit value.
pub open spec fn be4(x: u32) -> Seq<u8> {
    seq![
        ((x >> 24) & 0xFF) as u8,
        ((x >> 16) & 0xFF) as u8,
        ((x >> 8) & 0xFF) as u8,
        (x & 0xFF) as u8,
    ]
}

/// The 32-bit value read big-endian from a 4-byte sequence.
pub open spec fn be_val(s: Seq<u8>) -> u32
    recommends
        s.len() == 4,
{
    ((s[0] as u32) << 24) | ((s[1] as u32) << 16) | ((s[2] as u32) << 8) | (s[3] as u32)
}

/// Reading back the 4 big-endian bytes of `x` gives `x`.
pub proof fn lemma_be4_roundtrip(x: u32)
    ensures
        be_val(be4(x)) == x,
{
    let b0 = ((x >> 24) & 0xFF) as u8;
    let b1 = ((x >> 16) & 0xFF) as u8;
    let b2 = ((x >> 8) & 0xFF) as u8;
    let b3 = (x & 0xFF) as u8;
    assert(((b0 as u32) << 24) | ((b1 as u32) << 16) | ((b2 as u32) << 8) | (b3 as u32) == x)
        by (bit_vector)
        requires
            b0 == ((x >> 24) & 0xFF) as u8,
            b1 == ((x >> 16) & 0xFF) as u8,
            b2 == ((x >> 8) & 0xFF) as u8,
            b3 == (x & 0xFF) as u8,
    ;
}

/// Appends the 4 big-endian bytes of `x`.
pub fn push_be(out: &mut Vec<u8>, x: u32)
    ensures
        final(out)@ == old(out)@ + be4(x),
{
    out.push(((x >> 24) & 0xFF) as u8);
    out.push(((x >> 16) & 0xFF) as u8);
    out.push(((x >> 8) & 0xFF) as u8);
    out.push((x & 0xFF) as u8);
    proof {
        assert(out@ =~= old(out)@ + be4(x));
    }
}

/// Reads a 32-bit value big-endian from 4 bytes.
pub fn be_to_u32(b0: u8, b1: u8, b2: u8, b3: u8) -> (r: u32)
    ensures
        r == be_val(seq![b0, b1, b2, b3]),
{
    ((b0 as u32) << 24) | ((b1 as u32) << 16) | ((b2 as u32) << 8) | (b3 as u32)
}

/// The mathematical content of a chunk: its tag bytes and its payload.
pub ghost struct ChunkModel {
    pub ty: Seq<u8>,
    pub data: Seq<u8>,
}

/// A well-formed chunk model: a 4-letter tag and a payload whose length fits
/// the 4-byte count field.
pub open spec fn wf_chunk_model(m: ChunkModel) -> bool {
    is_tag(m.ty) && m.data.len() <= 0xFFFFFFFF
}

/// The serialized bytes of a chunk: length, tag, payload, CRC-32 of
/// tag ++ payload.
pub open spec fn spec_chunk_bytes(t: Seq<u8>, d: Seq<u8>) -> Seq<u8> {
    be4(d.len() as u32) + t + d + be4(spec_crc32(t + d))
}

/// What parsing a byte sequence as one chunk yields: `None` on a short
/// buffer, a non-alphabetic tag, or a checksum mismatch; otherwise the tag
/// and payload. A successful parse consumes `12 + payload length` bytes;
/// trailing bytes are not examined.
pub open spec fn spec_parse_chunk(bytes: Seq<u8>) -> Option<ChunkModel> {
    if bytes.len() < 12 {
        None
    } else {
        let l = be_val(bytes.subrange(0, 4)) as int;
        if bytes.len() < 12 + l {
            None
        } else {
            let t = bytes.subrange(4, 8);
            let d = bytes.subrange(8, 8 + l);
            if !is_tag(t) {
                None
            } else if be_val(bytes.subrange(8 + l, 12 + l)) != spec_crc32(t + d) {
                None
            } else {
                Some(ChunkModel { ty: t, data: d })
            }
        }
    }
}

/// One length-prefixed, checksummed PNG chunk. The length and checksum are
/// derived from the tag and payload whenever the chunk is serialized, so the
/// checksum invariant holds by construction.
#[derive(Debug, Clone, PartialEq, Eq)]
pub struct Chunk {
    chunk_type: ChunkType,
    data: Vec<u8>,
}

impl View for Chunk {
    type V = ChunkModel;

    closed spec fn view(&self) -> ChunkModel {
        ChunkModel { ty: self.chunk_type@, data: self.data@ }
    }
}

impl Chunk {
    /// Well-formedness: construction and parsing establish it.
    pub open spec fn wf(self) -> bool {
        wf_chunk_model(self@)
    }

    /// Builds a chunk from a tag and payload; the checksum discipline is
    /// by construction. Always succeeds for payloads that fit the 4-byte
    /// length field.
    pub fn new(chunk_type: ChunkType, data: Vec<u8>) -> (r: Chunk)
        requires
            chunk_type.wf(),
            data@.len() <= 0xFFFFFFFF,
        ensures
            r@ == (ChunkModel { ty: chunk_type@, data: data@ }),
            r.wf(),
    {
        Chunk { chunk_type, data }
    }

    /// The chunk's type tag.
    pub fn chunk_type(&self) -> (r: &ChunkType)
        ensures
            r@ == self@.ty,
    {
        &self.chunk_type
    }

    /// The payload bytes.
    pub fn data(&self) -> (r: &Vec<u8>)
        ensures
            r@ == self@.data,
    {
        &self.data
    }

    /// The payload length, as the 4-byte count that serialization writes.
    pub fn length(&self) -> (r: u32)
        requires
            self.wf(),
        ensures
            r == self@.data.len(),
    {
        self.data.len() as u32
    }

    /// The CRC-32 over tag ++ payload, computed fresh.
    pub fn crc(&self) -> (r: u32)
        ensures
            r == spec_crc32(self@.ty + self@.data),
    {
        let tb = self.chunk_type.bytes();
        crc32_pair(tb.as_slice(), self.data.as_slice())
    }

    /// Emits length (big-endian), tag, payload, and checksum (big-endian).
    pub fn serialize(&self) -> (r: Vec<u8>)
        requires
            self.wf(),
        ensures
            r@ == spec_chunk_bytes(self@.ty, self@.data),
    {
        let mut out: Vec<u8> = Vec::new();
        push_be(&mut out, self.data.len() as u32);
        let tb = self.chunk_type.bytes();
        out.push(tb[0]);
        out.push(tb[1]);
        out.push(tb[2]);
        out.push(tb[3]);
        let mut i: usize = 0;
        while i < self.data.len()
            invariant
                i <= self@.data.len(),
                self.wf(),
                out@ == be4(self@.data.len() as u32) + self@.ty + self@.data.take(i as int),
            decreases self@.data.len() - i,
        {
            out.push(self.data[i]);
            proof {
                assert(self@.data.take(i as int).push(self@.data[i as int]) =~= self@.data.take(
                    i as int + 1,
                ));
                assert(out@ =~= be4(self@.data.len() as u32) + self@.ty + self@.data.take(
                    i as int + 1,
                ));
            }
            i += 1;
        }
        let crc = crc32_pair(tb.as_slice(), self.data.as_slice());
        push_be(&mut out, crc);
        proof {
            assert(self@.data.take(self@.data.len() as int) =~= self@.data);
            assert(out@ =~= spec_chunk_bytes(self@.ty, self@.data));
        }
        out
    }

    /// Parses the first chunk of `bytes`: a short buffer, a non-alphabetic
    /// tag, or a checksum mismatch is a format error.
    pub fn parse(bytes: &[u8]) -> (r: Result<Chunk, PngError>)
        ensures
            r is Ok <==> spec_parse_chunk(bytes@) is Some,
            r matches Ok(c) ==> spec_parse_chunk(bytes@) == Some(c@) && c.wf(),
            r is Err ==> r == Err::<Chunk, PngError>(PngError::Format),
    {
        if bytes.len() < 12 {
            return Err(PngError::Format);
        }
        let l32 = be_to_u32(bytes[0], bytes[1], bytes[2], bytes[3]);
        proof {
            assert(seq![bytes@[0], bytes@[1], bytes@[2], bytes@[3]] =~= bytes@.subrange(0, 4));
        }
        let l = l32 as usize;
        if bytes.len() - 12 < l {
            return Err(PngError::Format);
        }
        let tag = match ChunkType::parse([bytes[4], bytes[5], bytes[6], bytes[7]]) {
            Ok(t) => t,
            Err(_) => {
                proof {
                    assert(seq![bytes@[4], bytes@[5], bytes@[6], bytes@[7]] =~= bytes@.subrange(
                        4,
                        8,
                    ));
                }
                return Err(PngError::Format);
            },
        };
        proof {
            assert(seq![bytes@[4], bytes@[5], bytes@[6], bytes@[7]] =~= bytes@.subrange(4, 8));
        }
        let n: usize = bytes.len();
        let mut data: Vec<u8> = Vec::new();
        let mut i: usize = 0;
        while i < l
            invariant
                i <= l,
                l + 12 <= n,
                n == bytes@.len(),
                data@ == bytes@.subrange(8, 8 + i as int),
            decreases l - i,
        {
            data.push(bytes[8 + i]);
            proof {
                assert(data@ =~= bytes@.subrange(8, 8 + (i + 1) as int));
            }
            i += 1;
        }
        let stored = be_to_u32(bytes[8 + l], bytes[9 + l], bytes[10 + l], bytes[11 + l]);
        proof {
            assert(seq![bytes@[8 + l as int], bytes@[9 + l as int], bytes@[10 + l as int], bytes@[11
                + l as int]] =~= bytes@.subrange(8 + l as int, 12 + l as int));
        }
        let tb = tag.bytes();
        let computed = crc32_pair(tb.as_slice(), data.as_slice());
        if stored != computed {
            return Err(PngError::Format);
        }
        Ok(Chunk { chunk_type: tag, data })
    }
}

/// Relies on std's `String::from_utf8`: it succeeds exactly on input that is
/// valid UTF-8, and then returns the text those bytes encode.
#[verifier::external_body]
fn bytes_to_string(v: &Vec<u8>) -> (r: Option<String>)
    ensures
        match r {
            Some(s) => vstd::utf8::valid_utf8(v@) && s@ == vstd::utf8::decode_utf8(v@),
            None => !vstd::utf8::valid_utf8(v@),
        },
{
    String::from_utf8(v.clone()).ok()
}

impl Chunk {
    /// The payload interpreted as UTF-8 text; payloads that are not valid
    /// UTF-8 give a distinct encoding error rather than a panic.
    pub fn data_as_string(&self) -> (r: Result<String, PngError>)
        ensures
            vstd::utf8::valid_utf8(self@.data) ==> (r matches Ok(s) && s@
                == vstd::utf8::decode_utf8(self@.data)),
            !vstd::utf8::valid_utf8(self@.data) ==> r == Err::<String, PngError>(
                PngError::Encoding,
            ),
    {
        match bytes_to_string(&self.data) {
            Some(s) => Ok(s),
            None => Err(PngError::Encoding),
        }
    }
}

/// Bytes below 0x80 are valid UTF-8 and decode to themselves, character
/// for character.
pub proof fn lemma_ascii_decode(s: Seq<u8>)
    requires
        forall|k: int| 0 <= k < s.len() ==> #[trigger] s[k] < 0x80,
    ensures
        vstd::utf8::valid_utf8(s),
        vstd::utf8::decode_utf8(s) == s.map_values(|b: u8| b as char),
    decreases s.len(),
{
    if s.len() == 0 {
        assert(vstd::utf8::decode_utf8(s) =~= s.map_values(|b: u8| b as char));
    } else {
        let b0 = s[0];
        assert(b0 & 0x7F == b0) by (bit_vector)
            requires
                b0 < 0x80,
        ;
        assert(vstd::utf8::is_leading_byte_width_1(b0));
        assert(vstd::utf8::valid_first_scalar(s));
        assert(vstd::utf8::length_of_first_scalar(s) == 1);
        assert(vstd::utf8::pop_first_scalar(s) =~= s.drop_first());
        assert(forall|k: int|
            0 <= k < s.drop_first().len() ==> #[trigger] s.drop_first()[k] < 0x80);
        lemma_ascii_decode(s.drop_first());
        assert(vstd::utf8::valid_utf8(s));
        assert(vstd::utf8::decode_first_scalar(s) == b0 as u32);
        assert(vstd::utf8::decode_utf8(s) =~= s.map_values(|b: u8| b as char));
    }
}

impl ChunkType {
    /// Renders the 4 tag characters unchanged, case preserved.
    pub fn to_text(&self) -> (r: String)
        requires
            self.wf(),
        ensures
            r@ == self@.map_values(|b: u8| b as char),
    {
        let tb = self.bytes();
        let mut v: Vec<u8> = Vec::new();
        v.push(tb[0]);
        v.push(tb[1]);
        v.push(tb[2]);
        v.push(tb[3]);
        proof {
            assert(v@ =~= self@);
            lemma_ascii_decode(v@);
        }
        match bytes_to_string(&v) {
            Some(s) => s,
            None => {
                proof {
                    assert(false);
                }
                String::new()
            },
        }
    }
}

/// Parsing a serialized chunk with anything after it yields exactly the tag
/// and payload that were serialized, whatever follows.
pub proof fn lemma_chunk_parse_prefix(t: Seq<u8>, d: Seq<u8>, rest: Seq<u8>)
    requires
        is_tag(t),
        d.len() <= 0xFFFFFFFF,
    ensures
        spec_parse_chunk(spec_chunk_bytes(t, d) + rest) == Some(ChunkModel { ty: t, data: d }),
        spec_chunk_bytes(t, d).len() == 12 + d.len(),
{
    let s = spec_chunk_bytes(t, d) + rest;
    assert(s.subrange(0, 4) =~= be4(d.len() as u32));
    lemma_be4_roundtrip(d.len() as u32);
    let l = be_val(s.subrange(0, 4)) as int;
    assert(l == d.len());
    assert(s.len() >= 12 + l);
    assert(s.subrange(4, 8) =~= t);
    assert(s.subrange(8, 8 + l) =~= d);
    assert(s.subrange(8 + l, 12 + l) =~= be4(spec_crc32(t + d)));
    lemma_be4_roundtrip(spec_crc32(t + d));
}

/// Round-trip law: parsing the serialization of a chunk built from a valid
/// tag and a payload returns that same tag and payload.
pub proof fn lemma_chunk_round_trip(t: Seq<u8>, d: Seq<u8>)
    requires
        is_tag(t),
        d.len() <= 0xFFFFFFFF,
    ensures
        spec_parse_chunk(spec_chunk_bytes(t, d)) == Some(ChunkModel { ty: t, data: d }),
{
    lemma_chunk_parse_prefix(t, d, Seq::<u8>::empty());
    assert(spec_chunk_bytes(t, d) + Seq::<u8>::empty() =~= spec_chunk_bytes(t, d));
}

/// Checksum enforcement: flipping any single bit in the type or data
/// region of a serialized chunk makes the parse fail. Either the tag stops
/// being alphabetic, or the recomputed CRC-32 no longer matches the stored
/// one, since a one-position difference always changes the CRC.
pub proof fn lemma_bit_flip_detected(t: Seq<u8>, d: Seq<u8>, p: int, k: u32)
    requires
        is_tag(t),
        d.len() <= 0xFFFFFFFF,
        4 <= p < 8 + d.len(),
        k < 8,
    ensures
        spec_parse_chunk(
            spec_chunk_bytes(t, d).update(p, spec_chunk_bytes(t, d)[p] ^ (1u8 << k)),
        ) is None,
{
    let s = spec_chunk_bytes(t, d);
    let x = s[p];
    let flipped: u8 = x ^ (1u8 << k);
    let s2 = s.update(p, flipped);
    assert(flipped != x) by (bit_vector)
        requires
            flipped == x ^ (1u8 << k),
            k < 8,
    ;
    let l = d.len() as int;
    assert(s.len() == 12 + l);
    // The length and checksum fields lie outside the flipped region.
    assert(s2.subrange(0, 4) =~= be4(d.len() as u32));
    lemma_be4_roundtrip(d.len() as u32);
    assert(s2.subrange(8 + l, 12 + l) =~= be4(spec_crc32(t + d)));
    lemma_be4_roundtrip(spec_crc32(t + d));
    // The flipped body differs from the original in exactly one position.
    let u1 = s.subrange(4, 8 + l);
    let u2 = s2.subrange(4, 8 + l);
    assert(u1 =~= t + d);
    assert(u2 =~= u1.update(p - 4, flipped));
    let t2 = s2.subrange(4, 8);
    let d2 = s2.subrange(8, 8 + l);
    assert(t2 + d2 =~= u2);
    assert(forall|j: int| 0 <= j < u1.len() && j != p - 4 ==> u1[j] == #[trigger] u2[j]);
    assert(u1[p - 4] != u2[p - 4]);
    crate::crc::lemma_crc32_one_diff(u1, u2, p - 4);
    assert(spec_crc32(t2 + d2) != spec_crc32(t + d));
    // Whichever check the parse reaches first refuses the mutated bytes.
    assert(be_val(s2.subrange(0, 4)) as int == l);
    if is_tag(t2) {
        assert(be_val(s2.subrange(8 + l, 12 + l)) == spec_crc32(t + d));
        assert(spec_parse_chunk(s2) is None);
    } else {
        assert(spec_parse_chunk(s2) is None);
    }
}

/// Serialization never collides: two well-formed chunks with the same
/// bytes carry the same tag and payload.
pub proof fn lemma_chunk_bytes_injective(t1: Seq<u8>, d1: Seq<u8>, t2: Seq<u8>, d2: Seq<u8>)
    requires
        is_tag(t1),
        d1.len() <= 0xFFFFFFFF,
        is_tag(t2),
        d2.len() <= 0xFFFFFFFF,
        spec_chunk_bytes(t1, d1) == spec_chunk_bytes(t2, d2),
    ensures
        t1 == t2,
        d1 == d2,
{
    lemma_chunk_round_trip(t1, d1);
    lemma_chunk_round_trip(t2, d2);
}

} // verus!
