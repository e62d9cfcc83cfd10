//! The PNG container: the fixed 8-byte signature followed by an ordered
//! sequence of chunks. Parsing validates the signature and every chunk;
//! serialization is its exact inverse.

use crate::PngError;
use crate::chunk::{Chunk, ChunkModel, be_val, lemma_chunk_parse_prefix, spec_chunk_bytes,
    spec_parse_chunk, wf_chunk_model};
use vstd::prelude::*;

verus! {

/// The canonical PNG signature.
pub open spec fn spec_signature() -> Seq<u8> {
    seq![0x89u8, 0x50u8, 0x4Eu8, 0x47u8, 0x0Du8, 0x0Au8, 0x1Au8, 0x0Au8]
}

/// The serialized chunks, in order.
pub open spec fn spec_chunks_bytes(cs: Seq<ChunkModel>) -> Seq<u8>
    decreases cs.len(),
{
    if cs.len() == 0 {
        Seq::<u8>::empty()
    } else {
        spec_chunk_bytes(cs[0].ty, cs[0].data) + spec_chunks_bytes(cs.drop_first())
    }
}

/// The whole container's bytes: signature, then each chunk.
pub open spec fn spec_png_bytes(cs: Seq<ChunkModel>) -> Seq<u8> {
    spec_signature() + spec_chunks_bytes(cs)
}

/// A successful single-chunk parse consumes at least 12 bytes and at most
/// the buffer, and its payload fits the length field.
pub proof fn lemma_parse_chunk_bounds(bytes: Seq<u8>)
    ensures
        spec_parse_chunk(bytes) matches Some(m) ==> 12 + m.data.len() <= bytes.len()
            && m.data.len() <= 0xFFFFFFFF && wf_chunk_model(m),
{
    if spec_parse_chunk(bytes) is Some {
        let l = be_val(bytes.subrange(0, 4)) as int;
        assert(bytes.len() >= 12 + l);
    }
}

/// Parsing a byte sequence as consecutive chunks until it is exhausted.
/// Any chunk failure fails the whole sequence.
pub open spec fn spec_parse_chunks(bytes: Seq<u8>) -> Option<Seq<ChunkModel>>
    decreases bytes.len(),
    via spec_parse_chunks_decreases
{
    if bytes.len() == 0 {
        Some(Seq::<ChunkModel>::empty())
    } else {
        match spec_parse_chunk(bytes) {
            None => None,
            Some(m) => match spec_parse_chunks(bytes.skip(12 + m.data.len() as int)) {
                None => None,
                Some(rest) => Some(seq![m] + rest),
            },
        }
    }
}

#[via_fn]
proof fn spec_parse_chunks_decreases(bytes: Seq<u8>) {
    lemma_parse_chunk_bounds(bytes);
}

/// Parsing a whole container: the first 8 bytes must be the signature, and
/// the remainder must parse as chunks exactly.
pub open spec fn spec_parse_png(bytes: Seq<u8>) -> Option<Seq<ChunkModel>> {
    if bytes.len() < 8 || bytes.subrange(0, 8) != spec_signature() {
        None
    } else {
        spec_parse_chunks(bytes.skip(8))
    }
}

/// The index of the first chunk carrying tag `t`, if any.
pub open spec fn spec_find_idx(cs: Seq<ChunkModel>, t: Seq<u8>) -> Option<int>
    decreases cs.len(),
{
    if cs.len() == 0 {
        None
    } else if cs[0].ty == t {
        Some(0int)
    } else {
        match spec_find_idx(cs.drop_first(), t) {
            None => None,
            Some(i) => Some(i + 1),
        }
    }
}

/// What `spec_find_idx` means: a found index is in range, carries the tag,
/// and is the first to do so; `None` means no chunk carries the tag.
pub proof fn lemma_find_idx(cs: Seq<ChunkModel>, t: Seq<u8>)
    ensures
        spec_find_idx(cs, t) matches Some(i) ==> 0 <= i < cs.len() && cs[i].ty == t && (forall|
            j: int,
        | 0 <= j < i ==> (#[trigger] cs[j]).ty != t),
        spec_find_idx(cs, t) is None ==> forall|j: int|
            0 <= j < cs.len() ==> (#[trigger] cs[j]).ty != t,
    decreases cs.len(),
{
    if cs.len() != 0 && cs[0].ty != t {
        lemma_find_idx(cs.drop_first(), t);
        assert(forall|j: int| 1 <= j < cs.len() ==> (#[trigger] cs[j]) == cs.drop_first()[j - 1]);
    }
}

/// If `i` is a match and nothing before it matches, the find returns `i`.
pub proof fn lemma_find_first(cs: Seq<ChunkModel>, t: Seq<u8>, i: int)
    requires
        0 <= i < cs.len(),
        cs[i].ty == t,
        forall|j: int| 0 <= j < i ==> (#[trigger] cs[j]).ty != t,
    ensures
        spec_find_idx(cs, t) == Some(i),
    decreases i,
{
    if i != 0 {
        assert(cs[0].ty != t);
        assert(cs.drop_first()[i - 1] == cs[i]);
        assert(forall|j: int| 0 <= j < i - 1 ==> (#[trigger] cs.drop_first()[j]) == cs[j + 1]);
        lemma_find_first(cs.drop_first(), t, i - 1);
    }
}

/// If no chunk matches, the find returns nothing.
pub proof fn lemma_find_none(cs: Seq<ChunkModel>, t: Seq<u8>)
    requires
        forall|j: int| 0 <= j < cs.len() ==> (#[trigger] cs[j]).ty != t,
    ensures
        spec_find_idx(cs, t) is None,
    decreases cs.len(),
{
    if cs.len() != 0 {
        assert(forall|j: int| 0 <= j < cs.len() - 1 ==> (#[trigger] cs.drop_first()[j]) == cs[j
            + 1]);
        lemma_find_none(cs.drop_first(), t);
    }
}

/// Prefixing an already-parsed list of chunks onto a parse of the rest.
pub open spec fn prepend_models(pre: Seq<ChunkModel>, o: Option<Seq<ChunkModel>>) -> Option<
    Seq<ChunkModel>,
> {
    match o {
        None => None,
        Some(r) => Some(pre + r),
    }
}

/// An ordered sequence of chunks with header-magic validation.
#[derive(Debug, Clone, PartialEq, Eq)]
pub struct Png {
    chunks: Vec<Chunk>,
}

impl View for Png {
    type V = Seq<ChunkModel>;

    closed spec fn view(&self) -> Seq<ChunkModel> {
        self.chunks@.map_values(|c: Chunk| c@)
    }
}

impl Png {
    /// Every chunk is well formed.
    pub open spec fn wf(self) -> bool {
        forall|i: int| 0 <= i < self@.len() ==> wf_chunk_model(#[trigger] self@[i])
    }

    /// An empty container (signature only).
    pub fn new() -> (r: Png)
        ensures
            r@ == Seq::<ChunkModel>::empty(),
            r.wf(),
    {
        let r = Png { chunks: Vec::new() };
        proof {
            assert(r@ =~= Seq::<ChunkModel>::empty());
        }
        r
    }

    /// A container holding the given chunks in order.
    pub fn from_chunks(chunks: Vec<Chunk>) -> (r: Png)
        ensures
            r@ == chunks@.map_values(|c: Chunk| c@),
    {
        Png { chunks }
    }

    /// The chunks, in order.
    pub fn chunks(&self) -> (r: &Vec<Chunk>)
        ensures
            r@.map_values(|c: Chunk| c@) == self@,
    {
        &self.chunks
    }

    /// Inserts at the end of the sequence.
    pub fn append_chunk(&mut self, chunk: Chunk)
        ensures
            final(self)@ == old(self)@.push(chunk@),
            old(self).wf() && chunk.wf() ==> final(self).wf(),
    {
        self.chunks.push(chunk);
        proof {
            assert(self@ =~= old(self)@.push(chunk@));
            if old(self).wf() && chunk.wf() {
                assert(forall|i: int|
                    0 <= i < self@.len() ==> wf_chunk_model(#[trigger] self@[i]));
            }
        }
    }

    /// First chunk carrying the tag, in insertion order.
    pub fn chunk_by_type(&self, tag: &[u8]) -> (r: Option<&Chunk>)
        ensures
            match spec_find_idx(self@, tag@) {
                Some(i) => r matches Some(c) && c@ == self@[i],
                None => r is None,
            },
    {
        let mut i: usize = 0;
        while i < self.chunks.len()
            invariant
                i <= self@.len(),
                self@.len() == self.chunks@.len(),
                forall|j: int| 0 <= j < i ==> (#[trigger] self@[j]).ty != tag@,
            decreases self@.len() - i,
        {
            if tag_matches(&self.chunks[i], tag) {
                proof {
                    lemma_find_first(self@, tag@, i as int);
                }
                return Some(&self.chunks[i]);
            }
            i += 1;
        }
        proof {
            lemma_find_none(self@, tag@);
        }
        None
    }

    /// Removes and returns the first chunk carrying the tag, keeping the
    /// relative order of the rest; absent tags are a not-found error.
    pub fn remove_chunk(&mut self, tag: &[u8]) -> (r: Result<Chunk, PngError>)
        ensures
            match spec_find_idx(old(self)@, tag@) {
                Some(i) => r matches Ok(c) && c@ == old(self)@[i] && final(self)@ == old(
                    self,
                )@.remove(i),
                None => r == Err::<Chunk, PngError>(PngError::NotFound) && final(self)@ == old(
                    self,
                )@,
            },
            old(self).wf() ==> final(self).wf(),
    {
        let mut i: usize = 0;
        while i < self.chunks.len()
            invariant
                i <= self@.len(),
                self@.len() == self.chunks@.len(),
                self@ == old(self)@,
                self.chunks@ == old(self).chunks@,
                forall|j: int| 0 <= j < i ==> (#[trigger] self@[j]).ty != tag@,
            decreases self@.len() - i,
        {
            if tag_matches(&self.chunks[i], tag) {
                proof {
                    lemma_find_first(self@, tag@, i as int);
                }
                let c = self.chunks.remove(i);
                proof {
                    assert(self@ =~= old(self)@.remove(i as int));
                    if old(self).wf() {
                        assert(forall|k: int|
                            0 <= k < self@.len() ==> wf_chunk_model(#[trigger] self@[k]));
                    }
                }
                return Ok(c);
            }
            i += 1;
        }
        proof {
            lemma_find_none(self@, tag@);
        }
        Err(PngError::NotFound)
    }

    /// Signature, then each chunk's serialization, in order.
    pub fn serialize(&self) -> (r: Vec<u8>)
        requires
            self.wf(),
        ensures
            r@ == spec_png_bytes(self@),
    {
        let mut out: Vec<u8> = Vec::new();
        out.push(0x89u8);
        out.push(0x50u8);
        out.push(0x4Eu8);
        out.push(0x47u8);
        out.push(0x0Du8);
        out.push(0x0Au8);
        out.push(0x1Au8);
        out.push(0x0Au8);
        proof {
            assert(out@ =~= spec_signature());
            assert(self@.take(0) =~= Seq::<ChunkModel>::empty());
        }
        let mut i: usize = 0;
        while i < self.chunks.len()
            invariant
                i <= self@.len(),
                self@.len() == self.chunks@.len(),
                self.wf(),
                out@ == spec_signature() + spec_chunks_bytes(self@.take(i as int)),
            decreases self@.len() - i,
        {
            proof {
                assert(self.chunks@[i as int]@ == self@[i as int]);
            }
            let mut cb = self.chunks[i].serialize();
            out.append(&mut cb);
            proof {
                lemma_chunks_bytes_push(self@.take(i as int), self@[i as int]);
                assert(self@.take(i as int).push(self@[i as int]) =~= self@.take(i as int + 1));
            }
            i += 1;
        }
        proof {
            assert(self@.take(self@.len() as int) =~= self@);
        }
        out
    }

    /// Validates the signature, then parses chunks until the bytes are
    /// exhausted; any failure aborts the whole parse.
    pub fn parse(bytes: &[u8]) -> (r: Result<Png, PngError>)
        ensures
            r is Ok <==> spec_parse_png(bytes@) is Some,
            r matches Ok(p) ==> spec_parse_png(bytes@) == Some(p@) && p.wf(),
            r is Err ==> r == Err::<Png, PngError>(PngError::Format),
    {
        if bytes.len() < 8 {
            return Err(PngError::Format);
        }
        let sig_ok = bytes[0] == 0x89 && bytes[1] == 0x50 && bytes[2] == 0x4E && bytes[3] == 0x47
            && bytes[4] == 0x0D && bytes[5] == 0x0A && bytes[6] == 0x1A && bytes[7] == 0x0A;
        if !sig_ok {
            proof {
                assert(bytes@.subrange(0, 8) != spec_signature());
            }
            return Err(PngError::Format);
        }
        proof {
            assert(bytes@.subrange(0, 8) =~= spec_signature());
        }
        let n: usize = bytes.len();
        let mut chunks: Vec<Chunk> = Vec::new();
        let mut off: usize = 8;
        proof {
            assert(prepend_models(
                chunks@.map_values(|c: Chunk| c@),
                spec_parse_chunks(bytes@.skip(8)),
            ) == spec_parse_chunks(bytes@.skip(8))) by {
                if spec_parse_chunks(bytes@.skip(8)) is Some {
                    assert(chunks@.map_values(|c: Chunk| c@) + spec_parse_chunks(
                        bytes@.skip(8),
                    ).unwrap() =~= spec_parse_chunks(bytes@.skip(8)).unwrap());
                }
            }
        }
        while off < n
            invariant
                8 <= off <= n,
                n == bytes@.len(),
                forall|i: int| 0 <= i < chunks@.len() ==> wf_chunk_model(#[trigger] chunks@[i]@),
                spec_parse_chunks(bytes@.skip(8)) == prepend_models(
                    chunks@.map_values(|c: Chunk| c@),
                    spec_parse_chunks(bytes@.skip(off as int)),
                ),
            decreases n - off,
        {
            let sub = vstd::slice::slice_subrange(bytes, off, n);
            proof {
                assert(sub@ =~= bytes@.skip(off as int));
            }
            let c = match Chunk::parse(sub) {
                Ok(c) => c,
                Err(_) => {
                    proof {
                        assert(bytes@.skip(off as int).len() != 0);
                        assert(spec_parse_chunks(bytes@.skip(off as int)) is None);
                    }
                    return Err(PngError::Format);
                },
            };
            proof {
                lemma_parse_chunk_bounds(sub@);
            }
            let step: usize = 12 + c.data().len();
            proof {
                assert(bytes@.skip(off as int).skip(12 + c@.data.len() as int) =~= bytes@.skip(
                    off as int + step as int,
                ));
                let pre = chunks@.map_values(|cc: Chunk| cc@);
                let tail = spec_parse_chunks(bytes@.skip(off as int + step as int));
                assert(spec_parse_chunks(bytes@.skip(off as int)) == prepend_models(
                    seq![c@],
                    tail,
                ));
                if tail is Some {
                    assert(pre + (seq![c@] + tail.unwrap()) =~= pre.push(c@) + tail.unwrap());
                }
            }
            let ghost pre = chunks@.map_values(|cc: Chunk| cc@);
            chunks.push(c);
            proof {
                assert(chunks@.map_values(|cc: Chunk| cc@) =~= pre.push(c@));
            }
            off += step;
        }
        proof {
            assert(bytes@.skip(n as int) =~= Seq::<u8>::empty());
        }
        let p = Png { chunks };
        proof {
            if spec_parse_chunks(bytes@.skip(8)) is Some {
                assert(p@ + Seq::<ChunkModel>::empty() =~= p@);
            }
            assert(forall|i: int|
                0 <= i < p@.len() ==> wf_chunk_model(#[trigger] p@[i]));
        }
        Ok(p)
    }
}

/// Does this chunk carry exactly the given tag bytes?
fn tag_matches(c: &Chunk, tag: &[u8]) -> (r: bool)
    ensures
        r == (c@.ty == tag@),
{
    let tb = c.chunk_type().bytes();
    if tag.len() != 4 {
        proof {
            assert(c@.ty.len() == 4);
            assert(c@.ty != tag@);
        }
        return false;
    }
    let m = tb[0] == tag[0] && tb[1] == tag[1] && tb[2] == tag[2] && tb[3] == tag[3];
    proof {
        if m {
            assert(c@.ty =~= tag@);
        }
    }
    m
}

/// Serializing one more chunk appends its bytes.
pub proof fn lemma_chunks_bytes_push(cs: Seq<ChunkModel>, m: ChunkModel)
    ensures
        spec_chunks_bytes(cs.push(m)) == spec_chunks_bytes(cs) + spec_chunk_bytes(m.ty, m.data),
    decreases cs.len(),
{
    if cs.len() == 0 {
        assert(cs.push(m)[0] == m);
        assert(cs.push(m).drop_first() =~= Seq::<ChunkModel>::empty());
        assert(spec_chunks_bytes(Seq::<ChunkModel>::empty()) == Seq::<u8>::empty());
        assert(spec_chunks_bytes(cs) == Seq::<u8>::empty());
        assert(spec_chunks_bytes(cs.push(m)) == spec_chunk_bytes(m.ty, m.data) + Seq::<
            u8,
        >::empty());
        assert(spec_chunk_bytes(m.ty, m.data) + Seq::<u8>::empty() =~= Seq::<u8>::empty()
            + spec_chunk_bytes(m.ty, m.data));
    } else {
        assert(cs.push(m)[0] == cs[0]);
        assert(cs.push(m).drop_first() =~= cs.drop_first().push(m));
        lemma_chunks_bytes_push(cs.drop_first(), m);
        assert(spec_chunks_bytes(cs.push(m)) == spec_chunk_bytes(cs[0].ty, cs[0].data)
            + spec_chunks_bytes(cs.drop_first().push(m)));
        assert(spec_chunks_bytes(cs.push(m)) == spec_chunk_bytes(cs[0].ty, cs[0].data) + (
        spec_chunks_bytes(cs.drop_first()) + spec_chunk_bytes(m.ty, m.data)));
        assert(spec_chunks_bytes(cs) == spec_chunk_bytes(cs[0].ty, cs[0].data)
            + spec_chunks_bytes(cs.drop_first()));
        let a = spec_chunk_bytes(cs[0].ty, cs[0].data);
        let b = spec_chunks_bytes(cs.drop_first());
        let c2 = spec_chunk_bytes(m.ty, m.data);
        assert(a + (b + c2) =~= (a + b) + c2);
        assert(spec_chunks_bytes(cs.push(m)) == spec_chunks_bytes(cs) + spec_chunk_bytes(
            m.ty,
            m.data,
        ));
    }
}

/// Chunk-sequence round trip, by induction over the chunks.
#[verifier::rlimit(100)]
pub proof fn lemma_chunks_round_trip(cs: Seq<ChunkModel>)
    requires
        forall|i: int| 0 <= i < cs.len() ==> wf_chunk_model(#[trigger] cs[i]),
    ensures
        spec_parse_chunks(spec_chunks_bytes(cs)) == Some(cs),
    decreases cs.len(),
{
    if cs.len() != 0 {
        let m = cs[0];
        let rest = cs.drop_first();
        let first_bytes = spec_chunk_bytes(m.ty, m.data);
        let s = spec_chunks_bytes(cs);
        assert(s == first_bytes + spec_chunks_bytes(rest));
        lemma_chunk_parse_prefix(m.ty, m.data, spec_chunks_bytes(rest));
        assert(s.len() >= first_bytes.len());
        assert(s.len() != 0);
        assert(s.skip(12 + m.data.len() as int) =~= spec_chunks_bytes(rest));
        assert(forall|i: int| 0 <= i < rest.len() ==> (#[trigger] rest[i]) == cs[i + 1]);
        lemma_chunks_round_trip(rest);
        assert(seq![m] + rest =~= cs);
    }
}

/// Round-trip law for the container: parsing the serialization of any
/// sequence of well-formed chunks returns exactly that sequence.
pub proof fn lemma_png_round_trip(cs: Seq<ChunkModel>)
    requires
        forall|i: int| 0 <= i < cs.len() ==> wf_chunk_model(#[trigger] cs[i]),
    ensures
        spec_parse_png(spec_png_bytes(cs)) == Some(cs),
{
    assert(spec_png_bytes(cs).subrange(0, 8) =~= spec_signature());
    assert(spec_png_bytes(cs).skip(8) =~= spec_chunks_bytes(cs));
    lemma_chunks_round_trip(cs);
}

/// Container serialization never collides: equal bytes mean equal chunks.
pub proof fn lemma_png_bytes_injective(cs1: Seq<ChunkModel>, cs2: Seq<ChunkModel>)
    requires
        forall|i: int| 0 <= i < cs1.len() ==> wf_chunk_model(#[trigger] cs1[i]),
        forall|i: int| 0 <= i < cs2.len() ==> wf_chunk_model(#[trigger] cs2[i]),
        spec_png_bytes(cs1) == spec_png_bytes(cs2),
    ensures
        cs1 == cs2,
{
    lemma_png_round_trip(cs1);
    lemma_png_round_trip(cs2);
}

} // verus!
