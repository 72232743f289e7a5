//! WAV header, repacking and storage sink behaviour.

use i2s_wav::sd::{
    create_wav_header, parse_wav_header, repack_buffer, storage_task_step, DummyTime, StorageAction,
    StorageSink, StorageTaskEvent, StorageTaskState,
};
use i2s_wav::StorageError;

#[test]
fn wav_header_known_bytes() {
    let h = create_wav_header(48000, 2, 16, 1920);
    let expected: [u8; 44] = [
        0x52, 0x49, 0x46, 0x46, // "RIFF"
        0xA4, 0x07, 0x00, 0x00, // chunk size 36 + 1920 = 1956
        0x57, 0x41, 0x56, 0x45, // "WAVE"
        0x66, 0x6D, 0x74, 0x20, // "fmt "
        0x10, 0x00, 0x00, 0x00, // subchunk size 16
        0x01, 0x00, // PCM
        0x02, 0x00, // 2 channels
        0x80, 0xBB, 0x00, 0x00, // 48000
        0x00, 0xEE, 0x02, 0x00, // byte rate 192000
        0x04, 0x00, // block align
        0x10, 0x00, // 16 bits per sample
        0x64, 0x61, 0x74, 0x61, // "data"
        0x80, 0x07, 0x00, 0x00, // data length 1920
    ];
    assert_eq!(h.len(), 44);
    assert_eq!(&h[..], &expected[..]);
}

#[test]
fn wav_header_round_trip() {
    let h = create_wav_header(48000, 2, 16, 1920);
    assert_eq!(parse_wav_header(&h), Some((48000u32, 2u16, 16u16, 1920u32)));
}

#[test]
fn wav_header_round_trip_mono_8bit() {
    let h = create_wav_header(8000, 1, 8, 12345);
    assert_eq!(parse_wav_header(&h), Some((8000u32, 1u16, 8u16, 12345u32)));
}

#[test]
fn parse_rejects_corrupt_headers() {
    let good = create_wav_header(48000, 2, 16, 1920);

    let mut bad_tag = good.clone();
    bad_tag[0] = 0x53;
    assert_eq!(parse_wav_header(&bad_tag), None);

    let mut bad_chunk = good.clone();
    bad_chunk[4] = 0xA5; // chunk size no longer 36 + data length
    assert_eq!(parse_wav_header(&bad_chunk), None);

    let mut bad_rate = good.clone();
    bad_rate[28] = 0x01; // byte rate inconsistent with the other fields
    assert_eq!(parse_wav_header(&bad_rate), None);

    let short = vec![0u8; 43];
    assert_eq!(parse_wav_header(&short), None);
}

#[test]
fn repack_truncates_to_16_bits() {
    let words: Vec<u32> = vec![0x00AB_CDEF, 0x0000_0100, 0xFF00_0000];
    // 24 significant bits per word; the top 16 of them survive, little-endian.
    assert_eq!(repack_buffer(&words), vec![0xCD, 0xAB, 0x01, 0x00, 0x00, 0x00]);
}

#[test]
fn capture_session_file_size() {
    // P-style end to end: N = 3 buffers of W = 4 words each at 16 bits
    // persisted depth gives a file of 44 + 3 * 4 * 2 = 68 bytes.
    let (mut sink, hdr) = StorageSink::open(0, 48000, 2, 16).unwrap();
    let mut file: Vec<u8> = Vec::new();
    file.extend_from_slice(&hdr);
    for n in 0..3u32 {
        let words: Vec<u32> = vec![n, n + 1, n + 2, n + 3];
        let bytes = repack_buffer(&words);
        assert_eq!(bytes.len(), 8);
        sink.append(&bytes).unwrap();
        file.extend_from_slice(&bytes);
    }
    let final_hdr = sink.finalize().unwrap();
    file[..44].copy_from_slice(&final_hdr);
    assert_eq!(file.len(), 68);
    assert_eq!(parse_wav_header(&final_hdr), Some((48000u32, 2u16, 16u16, 24u32)));
}

#[test]
fn sink_error_paths() {
    // Only volume 0 exists on the medium.
    assert!(matches!(
        StorageSink::open(1, 48000, 2, 16),
        Err(StorageError::MountFailed)
    ));
    assert!(matches!(
        StorageSink::open(0, 0xFFFF_FFFF, 0xFFFF, 0xFFFF),
        Err(StorageError::InvalidFormat)
    ));

    let (mut sink, _hdr) = StorageSink::open(0, 48000, 2, 16).unwrap();
    sink.finalize().unwrap();
    assert_eq!(sink.append(&vec![0u8; 4]), Err(StorageError::AlreadyFinalized));
    assert!(matches!(sink.finalize(), Err(StorageError::AlreadyFinalized)));
}

#[test]
fn mount_failure_halts_storage_task() {
    // A failed mount surfaces the error and the task terminates observably:
    // no event wakes a halted task again.
    assert_eq!(
        storage_task_step(StorageTaskState::AwaitingMount, StorageTaskEvent::MountFailed),
        (StorageTaskState::Halted, StorageAction::ReportError)
    );
    assert_eq!(
        storage_task_step(StorageTaskState::Halted, StorageTaskEvent::BufferReceived),
        (StorageTaskState::Halted, StorageAction::Nothing)
    );
    assert_eq!(
        storage_task_step(StorageTaskState::Halted, StorageTaskEvent::MountOk),
        (StorageTaskState::Halted, StorageAction::Nothing)
    );
}

#[test]
fn storage_task_normal_run() {
    let (s, a) = storage_task_step(StorageTaskState::AwaitingMount, StorageTaskEvent::MountOk);
    assert_eq!((s, a), (StorageTaskState::Recording, StorageAction::WriteHeader));
    let (s, a) = storage_task_step(s, StorageTaskEvent::BufferReceived);
    assert_eq!((s, a), (StorageTaskState::Recording, StorageAction::WriteBuffer));
    let (s, a) = storage_task_step(s, StorageTaskEvent::SessionEnd);
    assert_eq!((s, a), (StorageTaskState::Finished, StorageAction::Finalize));
    let (s, a) = storage_task_step(s, StorageTaskEvent::BufferReceived);
    assert_eq!((s, a), (StorageTaskState::Finished, StorageAction::Nothing));
}

#[test]
fn storage_task_write_failure_halts() {
    let (s, a) = storage_task_step(StorageTaskState::Recording, StorageTaskEvent::WriteFailed);
    assert_eq!((s, a), (StorageTaskState::Halted, StorageAction::ReportError));
}

#[test]
fn dummy_time_is_constant() {
    let t = DummyTime.get_timestamp();
    assert_eq!(t.year_since_1970, 55);
    assert_eq!(t.zero_indexed_month, 0);
    assert_eq!(t.zero_indexed_day, 0);
    assert_eq!(t.hours, 0);
    assert_eq!(t.minutes, 0);
    assert_eq!(t.seconds, 0);
}
