//! The operations the command layer exposes, composed end to end over the
//! volume model: pre-checks, read, parse, mutation, and the transaction.
//! The application performs the same steps on the real files and does the
//! printing; everything decided here is verified.

use crate::PngError;
use crate::atomic_file::{AtomicFileHandler, TxFaults, Volume, restore_backup_to_target,
    spec_has_extension, vol_unchanged};
use crate::chunk_type::{ChunkType, is_tag};
use crate::png::{Png, spec_find_idx, spec_parse_png, spec_png_bytes};
use crate::policy::{decode_message, encode_mutation, iend_tag, is_critical_tag, remove_mutation,
    spec_critical, spec_encoded_chunks, validate_new_tag};
use vstd::prelude::*;
use vstd::string::StringSliceAdditionalSpecFns;

verus! {

/// The non-error outcomes of the remove command: removal, the deliberate
/// no-op on a critical name, and the non-fatal "not found" report.
#[derive(Debug, Clone, Copy, PartialEq, Eq, Structural)]
pub enum RemoveOutcome {
    Removed,
    CriticalNoOp,
    NotPresent,
}

/// The path names the backup copy itself (ends in `.backup`).
pub open spec fn spec_is_backup_path(b: Seq<u8>) -> bool {
    b.len() >= 7 && b.skip(b.len() - 7) == seq![
        0x2Eu8,
        0x62u8,
        0x61u8,
        0x63u8,
        0x6Bu8,
        0x75u8,
        0x70u8,
    ]
}

/// Does the path name a backup copy (`....backup`)?
pub fn is_backup_path(path: &str) -> (r: bool)
    ensures
        r == spec_is_backup_path(path.spec_bytes()),
{
    let bs = path.as_bytes();
    let n: usize = bs.len();
    if n < 7 {
        return false;
    }
    let m = bs[n - 7] == 0x2E && bs[n - 6] == 0x62 && bs[n - 5] == 0x61 && bs[n - 4] == 0x63
        && bs[n - 3] == 0x6B && bs[n - 2] == 0x75 && bs[n - 1] == 0x70;
    proof {
        if m {
            assert(bs@.skip(n - 7) =~= seq![
                0x2Eu8,
                0x62u8,
                0x61u8,
                0x63u8,
                0x6Bu8,
                0x75u8,
                0x70u8,
            ]);
        } else {
            assert(bs@.skip(n - 7) != seq![
                0x2Eu8,
                0x62u8,
                0x61u8,
                0x63u8,
                0x6Bu8,
                0x75u8,
                0x70u8,
            ]) by {
                if bs@.skip(n - 7) == seq![0x2Eu8, 0x62u8, 0x61u8, 0x63u8, 0x6Bu8, 0x75u8, 0x70u8] {
                    assert(bs@.skip(n - 7)[0] == 0x2Eu8 && bs@.skip(n - 7)[1] == 0x62u8 && bs@.skip(
                        n - 7,
                    )[2] == 0x61u8 && bs@.skip(n - 7)[3] == 0x63u8 && bs@.skip(n - 7)[4] == 0x6Bu8
                        && bs@.skip(n - 7)[5] == 0x75u8 && bs@.skip(n - 7)[6] == 0x70u8);
                }
            }
        }
    }
    m
}

/// The tag passes the encode pre-checks: not a critical name, and a
/// 4-character tag has an uppercase third character.
pub open spec fn spec_tag_shape_ok(t: Seq<u8>) -> bool {
    !spec_critical(t) && (t.len() == 4 ==> 0x41 <= t[2] <= 0x5A)
}

/// An encode of `t`/`msg` into container bytes `content` succeeds: the
/// bytes parse, the tag is not already present, a trailer exists, and the
/// tag is four letters.
pub open spec fn spec_encode_ok(content: Seq<u8>, t: Seq<u8>) -> bool {
    &&& spec_parse_png(content) is Some
    &&& spec_find_idx(spec_parse_png(content).unwrap(), t) is None
    &&& spec_find_idx(spec_parse_png(content).unwrap(), iend_tag()) is Some
    &&& is_tag(t)
}

/// The committed bytes of a successful encode: the trailer is taken out,
/// the payload chunk appended, the trailer re-appended last.
pub open spec fn spec_encode_result(content: Seq<u8>, t: Seq<u8>, msg: Seq<u8>) -> Seq<u8>
    recommends
        spec_encode_ok(content, t),
{
    let cs = spec_parse_png(content).unwrap();
    spec_png_bytes(spec_encoded_chunks(cs, spec_find_idx(cs, iend_tag()).unwrap(), t, msg))
}

/// The encode command: pre-check the tag, then run one transaction whose
/// mutation parses, refuses duplicates, and inserts the payload before the
/// trailer. A refused request never touches any file; a failed transaction
/// with sound rollback leaves the target byte-for-byte unchanged.
pub fn encode(path: &str, vol: &mut Volume, faults: &TxFaults, tag: &[u8], message: &[u8]) -> (r:
    Result<(), PngError>)
    requires
        message@.len() <= 0xFFFFFFFF,
    ensures
        !spec_tag_shape_ok(tag@) ==> r == Err::<(), PngError>(PngError::Validation)
            && vol_unchanged(*final(vol), *old(vol)),
        spec_tag_shape_ok(tag@) && !spec_has_extension(path.spec_bytes()) ==> r == Err::<
            (),
            PngError,
        >(PngError::Validation) && vol_unchanged(*final(vol), *old(vol)),
        r is Err && !faults.rollback_remove && !faults.rollback_restore ==> final(vol).tgt() == old(vol).tgt(),
        r is Ok ==> old(vol).tgt() is Some && final(vol).bak() == old(vol).tgt() && final(vol).tmp() is None && spec_encode_ok(old(vol).tgt().unwrap(), tag@) && final(vol).tgt()
            == Some(spec_encode_result(old(vol).tgt().unwrap(), tag@, message@)),
        old(vol).tgt() matches Some(b) ==> (faults.none_spec() && spec_tag_shape_ok(tag@)
            && spec_has_extension(path.spec_bytes()) ==> {
            &&& spec_encode_ok(b, tag@) ==> r is Ok
            &&& spec_parse_png(b) is None ==> r == Err::<(), PngError>(PngError::Format)
            &&& spec_parse_png(b) matches Some(cs) ==> {
                &&& spec_find_idx(cs, tag@) is Some ==> r == Err::<(), PngError>(
                    PngError::Validation,
                )
                &&& spec_find_idx(cs, tag@) is None && spec_find_idx(cs, iend_tag()) is None ==> r
                    == Err::<(), PngError>(PngError::NotFound)
                &&& spec_find_idx(cs, tag@) is None && spec_find_idx(cs, iend_tag()) is Some
                    && !is_tag(tag@) ==> r == Err::<(), PngError>(PngError::Format)
            }
        }),
{
    match validate_new_tag(tag) {
        Ok(_) => (),
        Err(e) => {
            return Err(e);
        },
    }
    let handler = match AtomicFileHandler::new(path) {
        Ok(h) => h,
        Err(e) => {
            return Err(e);
        },
    };
    let f = |content: Vec<u8>| -> (res: Result<Vec<u8>, PngError>)
        requires
            message@.len() <= 0xFFFFFFFF,
        ensures
            spec_parse_png(content@) is None ==> res == Err::<Vec<u8>, PngError>(PngError::Format),
            spec_parse_png(content@) matches Some(cs) ==> {
                &&& spec_find_idx(cs, tag@) is Some ==> res == Err::<Vec<u8>, PngError>(
                    PngError::Validation,
                )
                &&& spec_find_idx(cs, tag@) is None && spec_find_idx(cs, iend_tag()) is None
                    ==> res == Err::<Vec<u8>, PngError>(PngError::NotFound)
                &&& spec_find_idx(cs, tag@) is None && spec_find_idx(cs, iend_tag()) is Some
                    && !is_tag(tag@) ==> res == Err::<Vec<u8>, PngError>(PngError::Format)
                &&& spec_find_idx(cs, tag@) is None && spec_find_idx(cs, iend_tag()) is Some
                    && is_tag(tag@) ==> (res matches Ok(out) && out@ == spec_png_bytes(
                    spec_encoded_chunks(
                        cs,
                        spec_find_idx(cs, iend_tag()).unwrap(),
                        tag@,
                        message@,
                    ),
                ))
            },
        {
            encode_mutation(content.as_slice(), tag, message)
        };
    let r = handler.atomic_modify(vol, faults, f);
    proof {
        if r is Ok {
            let (c, m): (Vec<u8>, Vec<u8>) = choose|c: Vec<u8>, m: Vec<u8>|
                Some(c@) == old(vol).tgt() && Some(m@) == vol.tgt() && call_ensures(
                    f,
                    (c,),
                    Ok(m),
                );
            assert(spec_encode_ok(c@, tag@));
            assert(m@ == spec_encode_result(c@, tag@, message@));
        }
        if faults.none_spec() && old(vol).tgt() is Some && r is Err {
            let e = r->Err_0;
            let c: Vec<u8> = choose|c: Vec<u8>|
                Some(c@) == old(vol).tgt() && call_ensures(f, (c,), Err::<Vec<u8>, PngError>(e));
            assert(!spec_encode_ok(c@, tag@));
        }
    }
    r
}

/// The decode command: read the target, find the tag's chunk, interpret
/// its payload as text. Nothing is modified.
pub fn decode(path: &str, vol: &Volume, read_fault: bool, tag: &[u8]) -> (r: Result<
    String,
    PngError,
>)
    ensures
        !spec_has_extension(path.spec_bytes()) ==> r == Err::<String, PngError>(
            PngError::Validation,
        ),
        spec_has_extension(path.spec_bytes()) && (read_fault || vol.tgt() is None) ==> r == Err::<
            String,
            PngError,
        >(PngError::Io),
        vol.tgt() matches Some(b) ==> (spec_has_extension(path.spec_bytes()) && !read_fault ==> {
            &&& spec_parse_png(b) is None ==> r == Err::<String, PngError>(PngError::Format)
            &&& spec_parse_png(b) matches Some(cs) ==> {
                &&& spec_find_idx(cs, tag@) is None ==> r == Err::<String, PngError>(
                    PngError::NotFound,
                )
                &&& spec_find_idx(cs, tag@) matches Some(i) ==> ((vstd::utf8::valid_utf8(
                    cs[i].data,
                ) ==> (r matches Ok(s) && s@ == vstd::utf8::decode_utf8(cs[i].data)))
                    && (!vstd::utf8::valid_utf8(cs[i].data) ==> r == Err::<String, PngError>(
                    PngError::Encoding,
                )))
            }
        }),
{
    let handler = match AtomicFileHandler::new(path) {
        Ok(h) => h,
        Err(e) => {
            return Err(e);
        },
    };
    let content = match handler.read_file(vol, read_fault) {
        Ok(c) => c,
        Err(e) => {
            return Err(e);
        },
    };
    decode_message(content.as_slice(), tag)
}

/// The remove command. The asymmetry with encode is deliberate and kept: a
/// critical name is a reported no-op, not an error, as is an absent tag;
/// neither touches any file.
pub fn remove(path: &str, vol: &mut Volume, faults: &TxFaults, tag: &[u8]) -> (r: Result<
    RemoveOutcome,
    PngError,
>)
    ensures
        spec_critical(tag@) ==> r == Ok::<RemoveOutcome, PngError>(RemoveOutcome::CriticalNoOp)
            && vol_unchanged(*final(vol), *old(vol)),
        !spec_critical(tag@) && !spec_has_extension(path.spec_bytes()) ==> r == Err::<
            RemoveOutcome,
            PngError,
        >(PngError::Validation) && vol_unchanged(*final(vol), *old(vol)),
        !spec_critical(tag@) && spec_has_extension(path.spec_bytes()) && (faults.read || old(vol).tgt() is None) ==> r == Err::<RemoveOutcome, PngError>(PngError::Io) && vol_unchanged(
            *final(vol),
            *old(vol),
        ),
        old(vol).tgt() matches Some(b) ==> (!spec_critical(tag@) && spec_has_extension(
            path.spec_bytes(),
        ) && !faults.read ==> {
            &&& spec_parse_png(b) is None ==> r == Err::<RemoveOutcome, PngError>(PngError::Format)
                && vol_unchanged(*final(vol), *old(vol))
            &&& spec_parse_png(b) matches Some(cs) ==> {
                &&& spec_find_idx(cs, tag@) is None ==> r == Ok::<RemoveOutcome, PngError>(
                    RemoveOutcome::NotPresent,
                ) && vol_unchanged(*final(vol), *old(vol))
                &&& spec_find_idx(cs, tag@) matches Some(i) ==> (faults.none_spec() ==> r
                    == Ok::<RemoveOutcome, PngError>(RemoveOutcome::Removed) && final(vol).tgt()
                    == Some(spec_png_bytes(cs.remove(i))) && final(vol).bak() == old(vol).tgt()
                    && final(vol).tmp() is None)
            }
        }),
        r is Err && !faults.rollback_remove && !faults.rollback_restore ==> final(vol).tgt() == old(vol).tgt(),
{
    if is_critical_tag(tag) {
        return Ok(RemoveOutcome::CriticalNoOp);
    }
    let handler = match AtomicFileHandler::new(path) {
        Ok(h) => h,
        Err(e) => {
            return Err(e);
        },
    };
    let content = match handler.read_file(vol, faults.read) {
        Ok(c) => c,
        Err(e) => {
            return Err(e);
        },
    };
    let png = match Png::parse(content.as_slice()) {
        Ok(p) => p,
        Err(e) => {
            return Err(e);
        },
    };
    if png.chunk_by_type(tag).is_none() {
        return Ok(RemoveOutcome::NotPresent);
    }
    let f = |content2: Vec<u8>| -> (res: Result<Vec<u8>, PngError>)
        ensures
            spec_parse_png(content2@) is None ==> res == Err::<Vec<u8>, PngError>(PngError::Format),
            spec_parse_png(content2@) matches Some(cs) ==> {
                &&& spec_find_idx(cs, tag@) is None ==> res == Err::<Vec<u8>, PngError>(
                    PngError::NotFound,
                )
                &&& spec_find_idx(cs, tag@) matches Some(i) ==> (res matches Ok(out) && out@
                    == spec_png_bytes(cs.remove(i)))
            },
        {
            remove_mutation(content2.as_slice(), tag)
        };
    let r = handler.atomic_modify_silent(vol, faults, f);
    proof {
        if r is Ok {
            let (c, m): (Vec<u8>, Vec<u8>) = choose|c: Vec<u8>, m: Vec<u8>|
                Some(c@) == old(vol).tgt() && Some(m@) == vol.tgt() && call_ensures(
                    f,
                    (c,),
                    Ok(m),
                );
            assert(c@ == content@);
            assert(spec_parse_png(c@) is Some);
        }
    }
    match r {
        Ok(_) => Ok(RemoveOutcome::Removed),
        Err(e) => Err(e),
    }
}

/// The print command's computation: the tags present, in order.
pub fn print(path: &str, vol: &Volume, read_fault: bool) -> (r: Result<Vec<ChunkType>, PngError>)
    ensures
        !spec_has_extension(path.spec_bytes()) ==> r == Err::<Vec<ChunkType>, PngError>(
            PngError::Validation,
        ),
        spec_has_extension(path.spec_bytes()) && (read_fault || vol.tgt() is None) ==> r == Err::<
            Vec<ChunkType>,
            PngError,
        >(PngError::Io),
        vol.tgt() matches Some(b) ==> (spec_has_extension(path.spec_bytes()) && !read_fault ==> {
            &&& spec_parse_png(b) is None ==> r == Err::<Vec<ChunkType>, PngError>(PngError::Format)
            &&& spec_parse_png(b) matches Some(cs) ==> (r matches Ok(v) && v@.len() == cs.len()
                && forall|i: int| 0 <= i < cs.len() ==> (#[trigger] v@[i])@ == cs[i].ty)
        }),
{
    let handler = match AtomicFileHandler::new(path) {
        Ok(h) => h,
        Err(e) => {
            return Err(e);
        },
    };
    let content = match handler.read_file(vol, read_fault) {
        Ok(c) => c,
        Err(e) => {
            return Err(e);
        },
    };
    crate::policy::list_chunk_types(content.as_slice())
}

/// The restore command: from an explicit `....backup` path, or from the
/// backup belonging to the given target; without a backup it is a
/// not-found error, and the backup itself is never consumed.
pub fn restore_original(path: &str, vol: &mut Volume, fault: bool) -> (r: Result<(), PngError>)
    ensures
        !spec_is_backup_path(path.spec_bytes()) && !spec_has_extension(path.spec_bytes()) ==> r
            == Err::<(), PngError>(PngError::Validation) && vol_unchanged(*final(vol), *old(vol)),
        spec_is_backup_path(path.spec_bytes()) || spec_has_extension(path.spec_bytes()) ==> {
            &&& old(vol).bak() is None ==> r == Err::<(), PngError>(PngError::NotFound)
                && vol_unchanged(*final(vol), *old(vol))
            &&& old(vol).bak() is Some && fault ==> r == Err::<(), PngError>(PngError::Io)
                && vol_unchanged(*final(vol), *old(vol))
            &&& old(vol).bak() is Some && !fault ==> r is Ok && final(vol).tgt() == old(vol).bak()
                && final(vol).tmp() == old(vol).tmp() && final(vol).bak() == old(vol).bak()
        },
{
    if is_backup_path(path) {
        return restore_backup_to_target(vol, fault);
    }
    let handler = match AtomicFileHandler::new(path) {
        Ok(h) => h,
        Err(e) => {
            return Err(e);
        },
    };
    if !handler.has_backup(vol) {
        return Err(PngError::NotFound);
    }
    handler.restore_original(vol, fault)
}

/// The status command's computation: does the target exist, and does a
/// backup exist?
pub fn show_status(path: &str, vol: &Volume) -> (r: Result<(bool, bool), PngError>)
    ensures
        !spec_has_extension(path.spec_bytes()) ==> r == Err::<(bool, bool), PngError>(
            PngError::Validation,
        ),
        spec_has_extension(path.spec_bytes()) ==> r == Ok::<(bool, bool), PngError>(
            ((vol.tgt() is Some), (vol.bak() is Some)),
        ),
{
    let handler = match AtomicFileHandler::new(path) {
        Ok(h) => h,
        Err(e) => {
            return Err(e);
        },
    };
    let target_exists = match &vol.target {
        Some(_) => true,
        None => false,
    };
    let backup_exists = handler.has_backup(vol);
    Ok((target_exists, backup_exists))
}

} // verus!
