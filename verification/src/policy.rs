//! The mutation policy: business rules gating which chunk types may carry a
//! payload, and the pure mutations (encode, decode, remove, list) that the
//! file transaction stages. Each works from the current container bytes to
//! new bytes or an error, touching no file itself.

use crate::PngError;
use crate::chunk::{Chunk, ChunkModel};
use crate::chunk_type::{ChunkType, is_tag};
use crate::png::{Png, spec_find_idx, spec_parse_png, spec_png_bytes};
use vstd::prelude::*;

verus! {

/// The `IEND` trailer tag.
pub open spec fn iend_tag() -> Seq<u8> {
    seq![0x49u8, 0x45u8, 0x4Eu8, 0x44u8]
}

/// One of the four critical chunk names `IHDR`, `PLTE`, `IDAT`, `IEND`,
/// which may never carry a payload.
pub open spec fn spec_critical(t: Seq<u8>) -> bool {
    t.len() == 4 && ((t[0] == 0x49 && t[1] == 0x48 && t[2] == 0x44 && t[3] == 0x52)  // IHDR
     || (t[0] == 0x50 && t[1] == 0x4C && t[2] == 0x54 && t[3] == 0x45)  // PLTE
     || (t[0] == 0x49 && t[1] == 0x44 && t[2] == 0x41 && t[3] == 0x54)  // IDAT
     || (t[0] == 0x49 && t[1] == 0x45 && t[2] == 0x4E && t[3] == 0x44))  // IEND
}

/// Is this one of the four critical chunk names?
pub fn is_critical_tag(tag: &[u8]) -> (r: bool)
    ensures
        r == spec_critical(tag@),
{
    if tag.len() != 4 {
        return false;
    }
    (tag[0] == 0x49 && tag[1] == 0x48 && tag[2] == 0x44 && tag[3] == 0x52) || (tag[0] == 0x50
        && tag[1] == 0x4C && tag[2] == 0x54 && tag[3] == 0x45) || (tag[0] == 0x49 && tag[1] == 0x44
        && tag[2] == 0x41 && tag[3] == 0x54) || (tag[0] == 0x49 && tag[1] == 0x45 && tag[2] == 0x4E
        && tag[3] == 0x44)
}

/// The pre-checks an encode request must pass before any file is touched:
/// a critical name is refused outright, and a 4-character tag whose third
/// character is not uppercase is refused as badly shaped.
pub fn validate_new_tag(tag: &[u8]) -> (r: Result<(), PngError>)
    ensures
        r is Ok <==> !spec_critical(tag@) && (tag@.len() == 4 ==> 0x41 <= tag@[2] <= 0x5A),
        r is Err ==> r == Err::<(), PngError>(PngError::Validation),
{
    if is_critical_tag(tag) {
        return Err(PngError::Validation);
    }
    if tag.len() == 4 && !(0x41 <= tag[2] && tag[2] <= 0x5A) {
        return Err(PngError::Validation);
    }
    Ok(())
}

/// The chunk sequence after an encode: the trailer at index `i` is taken
/// out, the payload chunk appended, and the trailer re-appended last.
pub open spec fn spec_encoded_chunks(
    cs: Seq<ChunkModel>,
    i: int,
    t: Seq<u8>,
    d: Seq<u8>,
) -> Seq<ChunkModel> {
    cs.remove(i).push(ChunkModel { ty: t, data: d }).push(cs[i])
}

/// The encode mutation, from current container bytes to new bytes: parse,
/// refuse a duplicate tag, take the trailer out, append the payload chunk,
/// put the trailer back, re-serialize. The trailer therefore stays last.
pub fn encode_mutation(content: &[u8], tag: &[u8], message: &[u8]) -> (r: Result<
    Vec<u8>,
    PngError,
>)
    requires
        message@.len() <= 0xFFFFFFFF,
    ensures
        spec_parse_png(content@) is None ==> r == Err::<Vec<u8>, PngError>(PngError::Format),
        spec_parse_png(content@) matches Some(cs) ==> {
            &&& spec_find_idx(cs, tag@) is Some ==> r == Err::<Vec<u8>, PngError>(
                PngError::Validation,
            )
            &&& spec_find_idx(cs, tag@) is None && spec_find_idx(cs, iend_tag()) is None ==> r
                == Err::<Vec<u8>, PngError>(PngError::NotFound)
            &&& spec_find_idx(cs, tag@) is None && spec_find_idx(cs, iend_tag()) is Some && !is_tag(
                tag@,
            ) ==> r == Err::<Vec<u8>, PngError>(PngError::Format)
            &&& spec_find_idx(cs, tag@) is None && spec_find_idx(cs, iend_tag()) is Some && is_tag(
                tag@,
            ) ==> (r matches Ok(out) && out@ == spec_png_bytes(
                spec_encoded_chunks(cs, spec_find_idx(cs, iend_tag()).unwrap(), tag@, message@),
            ))
        },
{
    let mut png = match Png::parse(content) {
        Ok(p) => p,
        Err(e) => {
            return Err(e);
        },
    };
    if png.chunk_by_type(tag).is_some() {
        return Err(PngError::Validation);
    }
    let ghost cs = png@;
    let iend: [u8; 4] = [0x49, 0x45, 0x4E, 0x44];
    proof {
        assert(iend@ =~= iend_tag());
        crate::png::lemma_find_idx(cs, iend_tag());
    }
    let end = match png.remove_chunk(iend.as_slice()) {
        Ok(c) => c,
        Err(e) => {
            return Err(e);
        },
    };
    if tag.len() != 4 {
        return Err(PngError::Format);
    }
    let ct = match ChunkType::parse([tag[0], tag[1], tag[2], tag[3]]) {
        Ok(t) => t,
        Err(_) => {
            proof {
                assert(seq![tag@[0], tag@[1], tag@[2], tag@[3]] =~= tag@);
            }
            return Err(PngError::Format);
        },
    };
    proof {
        assert(seq![tag@[0], tag@[1], tag@[2], tag@[3]] =~= tag@);
    }
    let payload = Chunk::new(ct, vstd::slice::slice_to_vec(message));
    proof {
        assert(crate::chunk::wf_chunk_model(end@));
    }
    png.append_chunk(payload);
    png.append_chunk(end);
    Ok(png.serialize())
}

/// The decode lookup, from container bytes to the hidden text: parse, find
/// the tag's first chunk, and interpret its payload as UTF-8.
pub fn decode_message(content: &[u8], tag: &[u8]) -> (r: Result<String, PngError>)
    ensures
        spec_parse_png(content@) is None ==> r == Err::<String, PngError>(PngError::Format),
        spec_parse_png(content@) matches Some(cs) ==> {
            &&& spec_find_idx(cs, tag@) is None ==> r == Err::<String, PngError>(PngError::NotFound)
            &&& spec_find_idx(cs, tag@) matches Some(i) ==> ((vstd::utf8::valid_utf8(cs[i].data)
                ==> (r matches Ok(s) && s@ == vstd::utf8::decode_utf8(cs[i].data)))
                && (!vstd::utf8::valid_utf8(cs[i].data) ==> r == Err::<String, PngError>(
                PngError::Encoding,
            )))
        },
{
    let png = match Png::parse(content) {
        Ok(p) => p,
        Err(e) => {
            return Err(e);
        },
    };
    match png.chunk_by_type(tag) {
        Some(c) => c.data_as_string(),
        None => Err(PngError::NotFound),
    }
}

/// The remove mutation, from container bytes to new bytes: parse, remove
/// the tag's first chunk keeping the order of the rest, re-serialize. An
/// absent tag is a not-found outcome, which the caller reports non-fatally.
pub fn remove_mutation(content: &[u8], tag: &[u8]) -> (r: Result<Vec<u8>, PngError>)
    ensures
        spec_parse_png(content@) is None ==> r == Err::<Vec<u8>, PngError>(PngError::Format),
        spec_parse_png(content@) matches Some(cs) ==> {
            &&& spec_find_idx(cs, tag@) is None ==> r == Err::<Vec<u8>, PngError>(
                PngError::NotFound,
            )
            &&& spec_find_idx(cs, tag@) matches Some(i) ==> (r matches Ok(out) && out@
                == spec_png_bytes(cs.remove(i)))
        },
{
    let mut png = match Png::parse(content) {
        Ok(p) => p,
        Err(e) => {
            return Err(e);
        },
    };
    match png.remove_chunk(tag) {
        Ok(_) => (),
        Err(e) => {
            return Err(e);
        },
    }
    Ok(png.serialize())
}

/// The tags present in the container, in insertion order, for listing.
pub fn list_chunk_types(content: &[u8]) -> (r: Result<Vec<ChunkType>, PngError>)
    ensures
        spec_parse_png(content@) is None ==> r == Err::<Vec<ChunkType>, PngError>(PngError::Format),
        spec_parse_png(content@) matches Some(cs) ==> (r matches Ok(v) && v@.len() == cs.len()
            && forall|i: int| 0 <= i < cs.len() ==> (#[trigger] v@[i])@ == cs[i].ty),
{
    let png = match Png::parse(content) {
        Ok(p) => p,
        Err(e) => {
            return Err(e);
        },
    };
    let chunks = png.chunks();
    let mut v: Vec<ChunkType> = Vec::new();
    let mut i: usize = 0;
    while i < chunks.len()
        invariant
            i <= chunks@.len(),
            chunks@.map_values(|c: Chunk| c@) == png@,
            v@.len() == i,
            forall|j: int| 0 <= j < i ==> (#[trigger] v@[j])@ == png@[j].ty,
        decreases chunks@.len() - i,
    {
        v.push(*chunks[i].chunk_type());
        i += 1;
    }
    Ok(v)
}

} // verus!
