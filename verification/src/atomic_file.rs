//! The crash-safe file transaction. The handler derives the three path
//! identities (target, temp, backup) purely from the target path. The file
//! steps themselves are modelled over an explicit `Volume` value holding the
//! three files' contents, with a fault flag per step so that every failure
//! path is stated and proved; the surrounding application performs the same
//! steps, in the same order, on the real filesystem.

use crate::PngError;
use vstd::prelude::*;
use vstd::string::StringExecFns;
use vstd::string::StringSliceAdditionalSpecFns;

verus! {

/// The target file has an extension: its file name (after the last `/`)
/// contains a dot that is not the name's first character.
pub open spec fn spec_has_extension(b: Seq<u8>) -> bool {
    exists|i: int|
        0 < i < b.len() && #[trigger] b[i] == 0x2Eu8 && b[i - 1] != 0x2Fu8 && (forall|j: int|
            i < j < b.len() ==> #[trigger] b[j] != 0x2Fu8)
}

/// The three path identities of one transaction: for target `name.ext` the
/// stage copy is `name.ext.tmp` and the recoverable copy `name.ext.backup`.
pub struct AtomicFileHandler {
    target_path: String,
    temp_path: String,
    backup_path: String,
}

impl AtomicFileHandler {
    /// The target path.
    pub closed spec fn target(self) -> Seq<char> {
        self.target_path@
    }

    /// The temp (staging) path.
    pub closed spec fn temp(self) -> Seq<char> {
        self.temp_path@
    }

    /// The backup path.
    pub closed spec fn backup(self) -> Seq<char> {
        self.backup_path@
    }

    /// Derives the temp and backup paths from the target path; a target
    /// without an extension fails construction.
    pub fn new(file_path: &str) -> (r: Result<AtomicFileHandler, PngError>)
        ensures
            r is Ok <==> spec_has_extension(file_path.spec_bytes()),
            r matches Ok(h) ==> h.target() == file_path@ && h.temp() == file_path@ + ".tmp"@
                && h.backup() == file_path@ + ".backup"@,
            r is Err ==> r == Err::<AtomicFileHandler, PngError>(PngError::Validation),
    {
        let bs = file_path.as_bytes();
        let n: usize = bs.len();
        let mut seg_start: usize = 0;
        let mut found = false;
        let mut i: usize = 0;
        while i < n
            invariant
                i <= n,
                n == bs@.len(),
                bs@ == file_path.spec_bytes(),
                seg_start <= i,
                seg_start > 0 ==> bs@[seg_start - 1] == 0x2Fu8,
                forall|j: int| seg_start <= j < i ==> bs@[j] != 0x2Fu8,
                found <==> exists|i0: int|
                    0 < i0 < i && #[trigger] bs@[i0] == 0x2Eu8 && bs@[i0 - 1] != 0x2Fu8 && (forall|
                        j: int,
                    | i0 < j < i ==> #[trigger] bs@[j] != 0x2Fu8),
            decreases n - i,
        {
            let b = bs[i];
            if b == 0x2F {
                found = false;
                seg_start = i + 1;
            } else if b == 0x2E && i != seg_start {
                found = true;
                proof {
                    assert(0 < i && bs@[i as int] == 0x2Eu8 && bs@[i as int - 1] != 0x2Fu8 && (
                    forall|j: int| i < j < i + 1 ==> bs@[j] != 0x2Fu8));
                }
            }
            i += 1;
        }
        if !found {
            return Err(PngError::Validation);
        }
        let mut temp = String::from_str(file_path);
        temp.append(".tmp");
        let mut backup = String::from_str(file_path);
        backup.append(".backup");
        Ok(AtomicFileHandler { target_path: String::from_str(file_path), temp_path: temp, backup_path: backup })
    }

    /// The target path, for display and for the application's file calls.
    pub fn target_path(&self) -> (r: &String)
        ensures
            r@ == self.target(),
    {
        &self.target_path
    }

    /// The temp path.
    pub fn temp_path(&self) -> (r: &String)
        ensures
            r@ == self.temp(),
    {
        &self.temp_path
    }

    /// The backup path.
    pub fn backup_path(&self) -> (r: &String)
        ensures
            r@ == self.backup(),
    {
        &self.backup_path
    }
}

/// The contents of the three files a transaction touches: `None` is an
/// absent file. This is the model the transaction's steps are verified
/// over; the application mirrors each step on disk.
pub struct Volume {
    pub target: Option<Vec<u8>>,
    pub temp: Option<Vec<u8>>,
    pub backup: Option<Vec<u8>>,
}

/// A file's content as a byte sequence, or `None` when absent.
pub open spec fn file_model(o: Option<Vec<u8>>) -> Option<Seq<u8>> {
    match o {
        None => None,
        Some(v) => Some(v@),
    }
}

impl Volume {
    /// The target file's content.
    pub open spec fn tgt(self) -> Option<Seq<u8>> {
        file_model(self.target)
    }

    /// The temp file's content.
    pub open spec fn tmp(self) -> Option<Seq<u8>> {
        file_model(self.temp)
    }

    /// The backup file's content.
    pub open spec fn bak(self) -> Option<Seq<u8>> {
        file_model(self.backup)
    }
}

/// No file changed between the two volume states.
pub open spec fn vol_unchanged(v_new: Volume, v_old: Volume) -> bool {
    v_new.tgt() == v_old.tgt() && v_new.tmp() == v_old.tmp() && v_new.bak() == v_old.bak()
}

/// One injected fault per transaction step, for stating and exercising
/// every failure path.
#[derive(Clone, Copy)]
pub struct TxFaults {
    pub backup_copy: bool,
    pub read: bool,
    pub prime: bool,
    pub stage: bool,
    pub commit: bool,
    pub rollback_remove: bool,
    pub rollback_restore: bool,
}

impl TxFaults {
    /// No step fails.
    pub open spec fn none_spec(self) -> bool {
        !self.backup_copy && !self.read && !self.prime && !self.stage && !self.commit
            && !self.rollback_remove && !self.rollback_restore
    }

    /// The fault-free schedule.
    pub fn none() -> (r: TxFaults)
        ensures
            r.none_spec(),
    {
        TxFaults {
            backup_copy: false,
            read: false,
            prime: false,
            stage: false,
            commit: false,
            rollback_remove: false,
            rollback_restore: false,
        }
    }
}

/// What the cleanup step removed.
#[derive(Debug, Clone, Copy, PartialEq, Eq, Structural)]
pub struct CleanupReport {
    pub removed_temp: bool,
    pub removed_backup: bool,
}

impl AtomicFileHandler {
    /// Reads the target file without changing anything.
    pub fn read_file(&self, vol: &Volume, fault: bool) -> (r: Result<Vec<u8>, PngError>)
        ensures
            fault || vol.tgt() is None ==> r == Err::<Vec<u8>, PngError>(PngError::Io),
            !fault && vol.tgt() is Some ==> (r matches Ok(v) && Some(v@) == vol.tgt()),
    {
        if fault {
            return Err(PngError::Io);
        }
        match &vol.target {
            None => Err(PngError::Io),
            Some(v) => Ok(vstd::slice::slice_to_vec(v.as_slice())),
        }
    }

    /// Copies the target over the backup path. Fails without touching
    /// anything when the copy faults or the target is absent.
    pub fn create_backup(&self, vol: &mut Volume, fault: bool) -> (r: Result<(), PngError>)
        ensures
            fault || old(vol).tgt() is None ==> r == Err::<(), PngError>(PngError::Io)
                && vol_unchanged(*final(vol), *old(vol)),
            !fault && old(vol).tgt() is Some ==> r is Ok && final(vol).bak() == old(vol).tgt()
                && final(vol).tgt() == old(vol).tgt() && final(vol).tmp() == old(vol).tmp(),
    {
        if fault {
            return Err(PngError::Io);
        }
        let c = match &vol.target {
            None => {
                return Err(PngError::Io);
            },
            Some(v) => vstd::slice::slice_to_vec(v.as_slice()),
        };
        vol.backup = Some(c);
        Ok(())
    }

    /// Overwrites the temp file with the given bytes.
    pub fn write_temp(&self, vol: &mut Volume, data: &[u8], fault: bool) -> (r: Result<
        (),
        PngError,
    >)
        ensures
            fault ==> r == Err::<(), PngError>(PngError::Io) && vol_unchanged(
                *final(vol),
                *old(vol),
            ),
            !fault ==> r is Ok && final(vol).tmp() == Some(data@) && final(vol).tgt() == old(vol).tgt() && final(vol).bak() == old(vol).bak(),
    {
        if fault {
            return Err(PngError::Io);
        }
        vol.temp = Some(vstd::slice::slice_to_vec(data));
        Ok(())
    }

    /// Begins the transaction: backup copy, read, and a temp primed with
    /// the current content. A failure here aborts before any mutation; the
    /// target is never touched.
    pub fn begin_atomic_write(&self, vol: &mut Volume, faults: &TxFaults) -> (r: Result<
        Vec<u8>,
        PngError,
    >)
        ensures
            faults.backup_copy || old(vol).tgt() is None ==> r == Err::<Vec<u8>, PngError>(
                PngError::Io,
            ) && vol_unchanged(*final(vol), *old(vol)),
            !faults.backup_copy && old(vol).tgt() is Some && faults.read ==> r == Err::<
                Vec<u8>,
                PngError,
            >(PngError::Io) && final(vol).tgt() == old(vol).tgt() && final(vol).tmp() == old(vol).tmp() && final(vol).bak() == old(vol).tgt(),
            !faults.backup_copy && old(vol).tgt() is Some && !faults.read && faults.prime ==> r
                == Err::<Vec<u8>, PngError>(PngError::Io) && final(vol).tgt() == old(vol).tgt()
                && final(vol).tmp() == old(vol).tmp() && final(vol).bak() == old(vol).tgt(),
            !faults.backup_copy && old(vol).tgt() is Some && !faults.read && !faults.prime ==> (r
                matches Ok(c) && Some(c@) == old(vol).tgt() && final(vol).tgt() == old(vol).tgt()
                && final(vol).tmp() == old(vol).tgt() && final(vol).bak() == old(vol).tgt()),
    {
        match self.create_backup(vol, faults.backup_copy) {
            Ok(_) => (),
            Err(e) => {
                return Err(e);
            },
        }
        let content = match self.read_file(vol, faults.read) {
            Ok(c) => c,
            Err(e) => {
                return Err(e);
            },
        };
        match self.write_temp(vol, content.as_slice(), faults.prime) {
            Ok(_) => (),
            Err(e) => {
                return Err(e);
            },
        }
        Ok(content)
    }

    /// Commits: the temp file becomes the target in one atomic rename, the
    /// only step that ever changes the visible target. The backup is kept
    /// for a later explicit restore.
    pub fn commit_atomic_write(&self, vol: &mut Volume, fault: bool) -> (r: Result<(), PngError>)
        ensures
            fault || old(vol).tmp() is None ==> r == Err::<(), PngError>(PngError::Io)
                && vol_unchanged(*final(vol), *old(vol)),
            !fault && old(vol).tmp() is Some ==> r is Ok && final(vol).tgt() == old(vol).tmp()
                && final(vol).tmp() is None && final(vol).bak() == old(vol).bak(),
    {
        if fault {
            return Err(PngError::Io);
        }
        let c = match &vol.temp {
            None => {
                return Err(PngError::Io);
            },
            Some(v) => vstd::slice::slice_to_vec(v.as_slice()),
        };
        vol.temp = None;
        vol.target = Some(c);
        Ok(())
    }

    /// Rolls back: deletes the temp file if present, then restores the
    /// target from the backup if one exists. A failure inside rollback is
    /// propagated distinctly, since the target may then be inconsistent.
    pub fn rollback(&self, vol: &mut Volume, remove_fault: bool, restore_fault: bool) -> (r:
        Result<(), PngError>)
        ensures
            old(vol).tmp() is Some && remove_fault ==> r == Err::<(), PngError>(PngError::Io)
                && vol_unchanged(*final(vol), *old(vol)),
            !(old(vol).tmp() is Some && remove_fault) ==> final(vol).tmp() is None && final(vol).bak() == old(vol).bak() && {
                &&& old(vol).bak() is Some && restore_fault ==> r == Err::<(), PngError>(
                    PngError::Io,
                ) && final(vol).tgt() == old(vol).tgt()
                &&& old(vol).bak() is Some && !restore_fault ==> r is Ok && final(vol).tgt() == old(vol).bak()
                &&& old(vol).bak() is None ==> r is Ok && final(vol).tgt() == old(vol).tgt()
            },
    {
        let has_temp = match &vol.temp {
            Some(_) => true,
            None => false,
        };
        if has_temp {
            if remove_fault {
                return Err(PngError::Io);
            }
            vol.temp = None;
        }
        let c = match &vol.backup {
            None => {
                return Ok(());
            },
            Some(v) => {
                if restore_fault {
                    return Err(PngError::Io);
                }
                vstd::slice::slice_to_vec(v.as_slice())
            },
        };
        vol.target = Some(c);
        Ok(())
    }

    /// Restores the target from the backup on explicit user request; a
    /// missing backup is a not-found error.
    pub fn restore_original(&self, vol: &mut Volume, fault: bool) -> (r: Result<(), PngError>)
        ensures
            old(vol).bak() is None ==> r == Err::<(), PngError>(PngError::NotFound)
                && vol_unchanged(*final(vol), *old(vol)),
            old(vol).bak() is Some && fault ==> r == Err::<(), PngError>(PngError::Io)
                && vol_unchanged(*final(vol), *old(vol)),
            old(vol).bak() is Some && !fault ==> r is Ok && final(vol).tgt() == old(vol).bak()
                && final(vol).tmp() == old(vol).tmp() && final(vol).bak() == old(vol).bak(),
    {
        restore_backup_to_target(vol, fault)
    }

    /// Is a backup present?
    pub fn has_backup(&self, vol: &Volume) -> (r: bool)
        ensures
            r == (vol.bak() is Some),
    {
        match &vol.backup {
            Some(_) => true,
            None => false,
        }
    }

    /// Deletes temp and backup if present, reporting which were removed;
    /// never an error when neither exists.
    pub fn cleanup(&self, vol: &mut Volume, temp_fault: bool, backup_fault: bool) -> (r: Result<
        CleanupReport,
        PngError,
    >)
        ensures
            old(vol).tmp() is Some && temp_fault ==> r == Err::<CleanupReport, PngError>(
                PngError::Io,
            ) && vol_unchanged(*final(vol), *old(vol)),
            !(old(vol).tmp() is Some && temp_fault) && old(vol).bak() is Some && backup_fault ==> r
                == Err::<CleanupReport, PngError>(PngError::Io) && final(vol).tmp() is None
                && final(vol).bak() == old(vol).bak() && final(vol).tgt() == old(vol).tgt(),
            !(old(vol).tmp() is Some && temp_fault) && !(old(vol).bak() is Some && backup_fault)
                ==> (r matches Ok(rep) && rep.removed_temp == (old(vol).tmp() is Some)
                && rep.removed_backup == (old(vol).bak() is Some) && final(vol).tmp() is None
                && final(vol).bak() is None && final(vol).tgt() == old(vol).tgt()),
    {
        let had_temp = match &vol.temp {
            Some(_) => true,
            None => false,
        };
        if had_temp {
            if temp_fault {
                return Err(PngError::Io);
            }
            vol.temp = None;
        }
        let had_backup = match &vol.backup {
            Some(_) => true,
            None => false,
        };
        if had_backup {
            if backup_fault {
                return Err(PngError::Io);
            }
            vol.backup = None;
        }
        Ok(CleanupReport { removed_temp: had_temp, removed_backup: had_backup })
    }

    /// Runs one whole transaction: begin, apply the mutation, stage its
    /// result, commit by rename; on any failure after begin, roll back.
    /// The target either keeps its old bytes or holds exactly the mutated
    /// bytes; with the staging or commit step faulted and rollback sound,
    /// the target is byte-for-byte unchanged and no temp file remains.
    pub fn atomic_modify<F: FnOnce(Vec<u8>) -> Result<Vec<u8>, PngError>>(
        &self,
        vol: &mut Volume,
        faults: &TxFaults,
        modify_fn: F,
    ) -> (r: Result<(), PngError>)
        requires
            forall|c: Vec<u8>| old(vol).tgt() == Some(c@) ==> call_requires(modify_fn, (c,)),
        ensures
            r is Ok ==> old(vol).tgt() is Some && final(vol).bak() == old(vol).tgt() && final(vol).tmp() is None && final(vol).tgt() is Some && exists|c: Vec<u8>, m: Vec<u8>|
                Some(c@) == old(vol).tgt() && Some(m@) == final(vol).tgt() && call_ensures(
                    modify_fn,
                    (c,),
                    Ok(m),
                ),
            r is Err && !faults.rollback_remove && !faults.rollback_restore ==> final(vol).tgt()
                == old(vol).tgt() && (final(vol).tmp() is None || final(vol).tmp() == old(
                vol,
            ).tmp()),
            r is Err && !faults.rollback_remove && !faults.rollback_restore && old(
                vol,
            ).tmp() is None ==> final(vol).tmp() is None,
            faults.none_spec() && old(vol).tgt() is Some ==> (r matches Err(e) ==> exists|
                c: Vec<u8>,
            |
                Some(c@) == old(vol).tgt() && call_ensures(
                    modify_fn,
                    (c,),
                    Err::<Vec<u8>, PngError>(e),
                )),
    {
        let content = match self.begin_atomic_write(vol, faults) {
            Ok(c) => c,
            Err(e) => {
                return Err(e);
            },
        };
        let ghost content_snap: Vec<u8> = content;
        match modify_fn(content) {
            Ok(modified) => {
                match self.write_temp(vol, modified.as_slice(), faults.stage) {
                    Ok(_) => (),
                    Err(e) => {
                        return match self.rollback(
                            vol,
                            faults.rollback_remove,
                            faults.rollback_restore,
                        ) {
                            Ok(_) => Err(e),
                            Err(e2) => Err(e2),
                        };
                    },
                }
                match self.commit_atomic_write(vol, faults.commit) {
                    Ok(_) => {
                        proof {
                            assert(Some(content_snap@) == old(vol).tgt() && Some(modified@)
                                == vol.tgt() && call_ensures(
                                modify_fn,
                                (content_snap,),
                                Ok(modified),
                            ));
                        }
                        Ok(())
                    },
                    Err(e) => {
                        match self.rollback(vol, faults.rollback_remove, faults.rollback_restore) {
                            Ok(_) => Err(e),
                            Err(e2) => Err(e2),
                        }
                    },
                }
            },
            Err(e) => {
                proof {
                    if faults.none_spec() {
                        assert(Some(content_snap@) == old(vol).tgt() && call_ensures(
                            modify_fn,
                            (content_snap,),
                            Err::<Vec<u8>, PngError>(e),
                        ));
                    }
                }
                match self.rollback(vol, faults.rollback_remove, faults.rollback_restore) {
                    Ok(_) => Err(e),
                    Err(e2) => Err(e2),
                }
            },
        }
    }

    /// The silent flavor of `atomic_modify`: the steps and guarantees are
    /// identical; only the application's reporting around it differs.
    pub fn atomic_modify_silent<F: FnOnce(Vec<u8>) -> Result<Vec<u8>, PngError>>(
        &self,
        vol: &mut Volume,
        faults: &TxFaults,
        modify_fn: F,
    ) -> (r: Result<(), PngError>)
        requires
            forall|c: Vec<u8>| old(vol).tgt() == Some(c@) ==> call_requires(modify_fn, (c,)),
        ensures
            r is Ok ==> old(vol).tgt() is Some && final(vol).bak() == old(vol).tgt() && final(vol).tmp() is None && final(vol).tgt() is Some && exists|c: Vec<u8>, m: Vec<u8>|
                Some(c@) == old(vol).tgt() && Some(m@) == final(vol).tgt() && call_ensures(
                    modify_fn,
                    (c,),
                    Ok(m),
                ),
            r is Err && !faults.rollback_remove && !faults.rollback_restore ==> final(vol).tgt()
                == old(vol).tgt() && (final(vol).tmp() is None || final(vol).tmp() == old(
                vol,
            ).tmp()),
            r is Err && !faults.rollback_remove && !faults.rollback_restore && old(
                vol,
            ).tmp() is None ==> final(vol).tmp() is None,
            faults.none_spec() && old(vol).tgt() is Some ==> (r matches Err(e) ==> exists|
                c: Vec<u8>,
            |
                Some(c@) == old(vol).tgt() && call_ensures(
                    modify_fn,
                    (c,),
                    Err::<Vec<u8>, PngError>(e),
                )),
    {
        self.atomic_modify(vol, faults, modify_fn)
    }
}

/// Copies the backup over the target: the shared step behind both restore
/// entry points.
pub fn restore_backup_to_target(vol: &mut Volume, fault: bool) -> (r: Result<(), PngError>)
    ensures
        old(vol).bak() is None ==> r == Err::<(), PngError>(PngError::NotFound) && vol_unchanged(
            *final(vol),
            *old(vol),
        ),
        old(vol).bak() is Some && fault ==> r == Err::<(), PngError>(PngError::Io) && vol_unchanged(
            *final(vol),
            *old(vol),
        ),
        old(vol).bak() is Some && !fault ==> r is Ok && final(vol).tgt() == old(vol).bak() && final(vol).tmp() == old(vol).tmp() && final(vol).bak() == old(vol).bak(),
{
    let c = match &vol.backup {
        None => {
            return Err(PngError::NotFound);
        },
        Some(v) => {
            if fault {
                return Err(PngError::Io);
            }
            vstd::slice::slice_to_vec(v.as_slice())
        },
    };
    vol.target = Some(c);
    Ok(())
}

/// Restore after commit: a committed transaction keeps the pre-transaction
/// target bytes as the backup, so a later successful restore brings the
/// target back to exactly the bytes it held before the transaction.
pub proof fn lemma_restore_after_commit(v0: Volume, v1: Volume, v2: Volume)
    requires
        v1.bak() == v0.tgt(),
        v2.tgt() == v1.bak(),
    ensures
        v2.tgt() == v0.tgt(),
{
}

/// The cleanup command's work: derive the three paths, then remove temp
/// and backup if present.
pub fn cleanup_files(path: &str, vol: &mut Volume, temp_fault: bool, backup_fault: bool) -> (r:
    Result<CleanupReport, PngError>)
    ensures
        !spec_has_extension(path.spec_bytes()) ==> r == Err::<CleanupReport, PngError>(
            PngError::Validation,
        ) && vol_unchanged(*final(vol), *old(vol)),
        spec_has_extension(path.spec_bytes()) ==> {
            &&& old(vol).tmp() is Some && temp_fault ==> r == Err::<CleanupReport, PngError>(
                PngError::Io,
            ) && vol_unchanged(*final(vol), *old(vol))
            &&& !(old(vol).tmp() is Some && temp_fault) && old(vol).bak() is Some && backup_fault
                ==> r == Err::<CleanupReport, PngError>(PngError::Io) && final(vol).tmp() is None
                && final(vol).bak() == old(vol).bak() && final(vol).tgt() == old(vol).tgt()
            &&& !(old(vol).tmp() is Some && temp_fault) && !(old(vol).bak() is Some
                && backup_fault) ==> (r matches Ok(rep) && rep.removed_temp == (old(vol).tmp() is Some) && rep.removed_backup == (old(vol).bak() is Some) && final(vol).tmp() is None && final(vol).bak() is None && final(vol).tgt() == old(vol).tgt())
        },
{
    let handler = match AtomicFileHandler::new(path) {
        Ok(h) => h,
        Err(e) => {
            return Err(e);
        },
    };
    handler.cleanup(vol, temp_fault, backup_fault)
}

} // verus!
