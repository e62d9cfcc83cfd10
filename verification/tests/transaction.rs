use png_stego::atomic_file::{cleanup_files, AtomicFileHandler, TxFaults, Volume};
use png_stego::chunk::Chunk;
use png_stego::chunk_type::ChunkType;
use png_stego::commands::{
    decode, encode, is_backup_path, print, remove, restore_original, show_status, RemoveOutcome,
};
use png_stego::png::Png;
use png_stego::PngError;

fn chunk(t: &[u8; 4], data: &[u8]) -> Chunk {
    Chunk::new(ChunkType::parse(*t).unwrap(), data.to_vec())
}

fn minimal_png_bytes() -> Vec<u8> {
    let mut png = Png::new();
    png.append_chunk(chunk(b"IHDR", &[0, 0, 0, 1, 0, 0, 0, 1, 8, 6, 0, 0, 0]));
    png.append_chunk(chunk(b"IEND", &[]));
    png.serialize()
}

fn fresh_volume() -> Volume {
    Volume { target: Some(minimal_png_bytes()), temp: None, backup: None }
}

#[test]
fn handler_derives_temp_and_backup_paths() {
    let h = AtomicFileHandler::new("image.png").unwrap();
    assert_eq!(h.target_path().as_str(), "image.png");
    assert_eq!(h.temp_path().as_str(), "image.png.tmp");
    assert_eq!(h.backup_path().as_str(), "image.png.backup");
}

#[test]
fn handler_requires_an_extension() {
    assert_eq!(AtomicFileHandler::new("image").err(), Some(PngError::Validation));
    assert_eq!(AtomicFileHandler::new(".hidden").err(), Some(PngError::Validation));
    assert_eq!(AtomicFileHandler::new("dir.d/image").err(), Some(PngError::Validation));
    assert!(AtomicFileHandler::new("dir.d/image.png").is_ok());
    assert!(AtomicFileHandler::new("a.b.c").is_ok());
}

#[test]
fn encode_then_decode_end_to_end() {
    let mut vol = fresh_volume();
    let faults = TxFaults::none();
    encode("image.png", &mut vol, &faults, b"ruSt", b"hello").unwrap();
    assert_eq!(decode("image.png", &vol, false, b"ruSt").unwrap(), "hello");
    // The committed file still parses and keeps IEND last.
    let png = Png::parse(vol.target.as_ref().unwrap()).unwrap();
    assert_eq!(png.chunks().last().unwrap().chunk_type().bytes(), *b"IEND");
    // The staging copy is gone; the backup holds the pre-encode bytes.
    assert!(vol.temp.is_none());
    assert_eq!(vol.backup.as_ref().unwrap(), &minimal_png_bytes());
}

#[test]
fn encode_critical_tag_rejected_and_file_untouched() {
    let mut vol = fresh_volume();
    let before = vol.target.clone();
    let faults = TxFaults::none();
    assert_eq!(
        encode("image.png", &mut vol, &faults, b"IEND", b"x"),
        Err(PngError::Validation)
    );
    assert_eq!(vol.target, before);
    assert!(vol.temp.is_none());
    assert!(vol.backup.is_none());
}

#[test]
fn encode_duplicate_rejected() {
    let mut vol = fresh_volume();
    let faults = TxFaults::none();
    encode("image.png", &mut vol, &faults, b"ruSt", b"one").unwrap();
    let after_first = vol.target.clone();
    assert_eq!(
        encode("image.png", &mut vol, &faults, b"ruSt", b"two"),
        Err(PngError::Validation)
    );
    assert_eq!(vol.target, after_first);
    let tags = print("image.png", &vol, false).unwrap();
    assert_eq!(tags.iter().filter(|t| t.bytes() == *b"ruSt").count(), 1);
}

#[test]
fn remove_absent_tag_is_non_fatal_and_leaves_file_unchanged() {
    let mut vol = fresh_volume();
    let before = vol.target.clone();
    let faults = TxFaults::none();
    assert_eq!(
        remove("image.png", &mut vol, &faults, b"zzZz"),
        Ok(RemoveOutcome::NotPresent)
    );
    assert_eq!(vol.target, before);
    assert!(vol.backup.is_none());
}

#[test]
fn remove_critical_tag_is_a_reported_no_op() {
    let mut vol = fresh_volume();
    let before = vol.target.clone();
    let faults = TxFaults::none();
    assert_eq!(
        remove("image.png", &mut vol, &faults, b"IEND"),
        Ok(RemoveOutcome::CriticalNoOp)
    );
    assert_eq!(vol.target, before);
}

#[test]
fn remove_present_tag_removes_it() {
    let mut vol = fresh_volume();
    let faults = TxFaults::none();
    encode("image.png", &mut vol, &faults, b"ruSt", b"hello").unwrap();
    assert_eq!(
        remove("image.png", &mut vol, &faults, b"ruSt"),
        Ok(RemoveOutcome::Removed)
    );
    assert_eq!(
        decode("image.png", &vol, false, b"ruSt"),
        Err(PngError::NotFound)
    );
    assert_eq!(vol.target.as_ref().unwrap(), &minimal_png_bytes());
}

#[test]
fn rollback_on_injected_staging_failure() {
    let mut vol = fresh_volume();
    let before = vol.target.clone();
    let faults = TxFaults { stage: true, ..TxFaults::none() };
    let r = encode("image.png", &mut vol, &faults, b"ruSt", b"hello");
    assert_eq!(r, Err(PngError::Io));
    assert_eq!(vol.target, before);
    assert!(vol.temp.is_none());
}

#[test]
fn rollback_on_injected_commit_failure() {
    let mut vol = fresh_volume();
    let before = vol.target.clone();
    let faults = TxFaults { commit: true, ..TxFaults::none() };
    assert_eq!(
        encode("image.png", &mut vol, &faults, b"ruSt", b"hello"),
        Err(PngError::Io)
    );
    assert_eq!(vol.target, before);
    assert!(vol.temp.is_none());
}

#[test]
fn failed_rollback_error_is_propagated() {
    let mut vol = fresh_volume();
    let faults = TxFaults { stage: true, rollback_remove: true, ..TxFaults::none() };
    assert_eq!(
        encode("image.png", &mut vol, &faults, b"ruSt", b"hello"),
        Err(PngError::Io)
    );
}

#[test]
fn backup_copy_fault_leaves_everything_untouched() {
    let mut vol = fresh_volume();
    let before = vol.target.clone();
    let faults = TxFaults { backup_copy: true, ..TxFaults::none() };
    assert_eq!(
        encode("image.png", &mut vol, &faults, b"ruSt", b"hello"),
        Err(PngError::Io)
    );
    assert_eq!(vol.target, before);
    assert!(vol.temp.is_none());
    assert!(vol.backup.is_none());
}

#[test]
fn cleanup_removes_a_stale_temp_file() {
    let mut vol = Volume {
        target: Some(minimal_png_bytes()),
        temp: Some(vec![1, 2, 3]),
        backup: None,
    };
    let rep = cleanup_files("image.png", &mut vol, false, false).unwrap();
    assert!(rep.removed_temp);
    assert!(!rep.removed_backup);
    assert!(vol.temp.is_none());
}

#[test]
fn restore_after_commit_recovers_original_bytes() {
    let mut vol = fresh_volume();
    let before = vol.target.clone();
    let faults = TxFaults::none();
    encode("image.png", &mut vol, &faults, b"ruSt", b"hello").unwrap();
    assert_ne!(vol.target, before);
    restore_original("image.png", &mut vol, false).unwrap();
    assert_eq!(vol.target, before);
    // The backup is deliberately kept.
    assert_eq!(vol.backup, before);
}

#[test]
fn restore_without_backup_is_not_found() {
    let mut vol = fresh_volume();
    assert_eq!(
        restore_original("image.png", &mut vol, false),
        Err(PngError::NotFound)
    );
}

#[test]
fn restore_accepts_an_explicit_backup_path() {
    assert!(is_backup_path("image.png.backup"));
    assert!(!is_backup_path("image.png"));
    let mut vol = Volume {
        target: None,
        temp: None,
        backup: Some(minimal_png_bytes()),
    };
    restore_original("image.png.backup", &mut vol, false).unwrap();
    assert_eq!(vol.target.as_ref().unwrap(), &minimal_png_bytes());
}

#[test]
fn cleanup_reports_what_it_removed() {
    let mut vol = fresh_volume();
    let faults = TxFaults::none();
    encode("image.png", &mut vol, &faults, b"ruSt", b"hello").unwrap();
    let rep = cleanup_files("image.png", &mut vol, false, false).unwrap();
    assert!(!rep.removed_temp);
    assert!(rep.removed_backup);
    assert!(vol.backup.is_none());
    let rep2 = cleanup_files("image.png", &mut vol, false, false).unwrap();
    assert!(!rep2.removed_temp);
    assert!(!rep2.removed_backup);
}

#[test]
fn status_reports_target_and_backup() {
    let mut vol = fresh_volume();
    assert_eq!(show_status("image.png", &vol), Ok((true, false)));
    let faults = TxFaults::none();
    encode("image.png", &mut vol, &faults, b"ruSt", b"hello").unwrap();
    assert_eq!(show_status("image.png", &vol), Ok((true, true)));
    assert_eq!(show_status("image", &vol), Err(PngError::Validation));
}

#[test]
fn read_fault_is_an_io_error() {
    let mut vol = fresh_volume();
    let faults = TxFaults { read: true, ..TxFaults::none() };
    assert_eq!(
        encode("image.png", &mut vol, &faults, b"ruSt", b"hello"),
        Err(PngError::Io)
    );
    let missing = Volume { target: None, temp: None, backup: None };
    assert_eq!(decode("image.png", &missing, false, b"ruSt"), Err(PngError::Io));
}
