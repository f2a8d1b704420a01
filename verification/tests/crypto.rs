use offline_video::cipher::{decrypt_with_key, encrypt_with_key, NONCE_SIZE};
use offline_video::error::{CryptoError, CryptoErrorKind};
use offline_video::header::{Header, CHUNK_SIZE};
use offline_video::keychain::{
    created_kek, kept_kek, keyring_error, load_or_create_kek, KekStep, KeychainReply,
    KEYRING_SERVICE,
};
use offline_video::keys::{
    chunk_aad, unwrap_dek_with_key, wrap_aad, wrap_dek_with_key, wrap_dek_with_nonce, KEYRING_USER,
};
use offline_video::layout::RECORD_SIZE;
use offline_video::random::{drawn_bytes, random_bytes};
use offline_video::reader::{open_error, ChunkLocation, EncryptedFileReader};
use offline_video::secret::{SecretBytes, SecretKey};
use offline_video::writer::EncryptedFileWriter;

const SHORTAGE: &str = "failed to fill whole buffer";

fn fault(outcome: Option<CryptoError>) -> (CryptoErrorKind, String) {
    match outcome {
        Some(error) => (error.kind, error.message),
        None => panic!("an error was expected"),
    }
}

fn sample_header() -> Header {
    Header {
        asset_id: "video-1".to_string(),
        key_id: "device-kek-v1".to_string(),
        chunk_size: CHUNK_SIZE,
        original_size: 123,
        header_size: 0,
        wrap_nonce: [1_u8; NONCE_SIZE],
        wrapped_dek: vec![2_u8; 48],
    }
}

fn write_video(asset_id: &str, kek: &[u8; 32], data: &[u8], step: usize) -> Vec<u8> {
    let (mut writer, mut file) = EncryptedFileWriter::create_with_key(asset_id, kek).unwrap();
    for part in data.chunks(step) {
        writer.write_chunk(part, &mut file).unwrap();
    }
    let finished = writer.finish().unwrap();
    assert_eq!(finished.written, data.len() as u64);
    file.extend_from_slice(&finished.tail);
    file[13..21].copy_from_slice(&finished.size_field);
    file
}

fn sample_video(len: usize) -> Vec<u8> {
    (0..len).map(|index| (index % 251) as u8).collect()
}

#[test]
fn chunk_round_trip_rejects_wrong_aad() {
    let key = [7_u8; 32];
    let nonce = [9_u8; NONCE_SIZE];
    let plaintext = b"encrypted test payload";
    let ciphertext = encrypt_with_key(&key, &nonce, plaintext, b"asset:video:0").unwrap();

    let decoded = decrypt_with_key(&key, &nonce, &ciphertext, b"asset:video:0").unwrap();
    assert_eq!(decoded.as_slice(), plaintext);
    assert!(decrypt_with_key(&key, &nonce, &ciphertext, b"asset:video:1").is_err());
}

#[test]
fn header_round_trip_preserves_fields() {
    let header = sample_header();
    let encoded = header.encode().unwrap();
    let decoded = Header::read_from(&encoded, SHORTAGE, "video-1").unwrap();
    assert_eq!(decoded.asset_id, "video-1");
    assert_eq!(decoded.original_size, 123);
    assert_eq!(decoded.header_size, header.encode().unwrap().len() as u64);
}

#[test]
fn encrypted_file_supports_random_access_across_chunks() {
    let data = sample_video(CHUNK_SIZE as usize * 2 + 123);
    let kek = [3_u8; 32];
    let file = write_video("video-test", &kek, &data, 7_777);

    let reader = EncryptedFileReader::open_with_key(&file, SHORTAGE, "video-test", &kek).unwrap();
    assert_eq!(reader.original_size(), data.len() as u64);
    assert_eq!(reader.read_range(&file, SHORTAGE, 0, data.len() as u64).unwrap(), data);
    let start = CHUNK_SIZE - 10;
    let end = CHUNK_SIZE + 20;
    assert_eq!(
        reader.read_range(&file, SHORTAGE, start, end).unwrap(),
        data[start as usize..end as usize]
    );
    assert!(EncryptedFileReader::open_with_key(&file, SHORTAGE, "wrong-video", &kek).is_err());
}

#[test]
fn encryption_changes_the_message_and_adds_a_tag() {
    let key = [7_u8; 32];
    let nonce = [9_u8; NONCE_SIZE];
    let encrypted = encrypt_with_key(&key, &nonce, b"message", b"context").unwrap();
    assert_eq!(encrypted.len(), 7 + 16);
    assert_ne!(&encrypted[..7], b"message");
    assert_eq!(encrypt_with_key(&key, &nonce, b"message", b"context").unwrap(), encrypted);
    assert_ne!(encrypt_with_key(&[8_u8; 32], &nonce, b"message", b"context").unwrap(), encrypted);
    assert_ne!(
        encrypt_with_key(&key, &[8_u8; NONCE_SIZE], b"message", b"context").unwrap(),
        encrypted
    );
    assert_ne!(encrypt_with_key(&key, &nonce, b"message", b"other").unwrap(), encrypted);
}

#[test]
fn encryption_agrees_with_a_published_vector() {
    // AES-256-GCM with a key and a nonce of zeroes, on sixteen zeroes.
    let encrypted = encrypt_with_key(&[0_u8; 32], &[0_u8; NONCE_SIZE], &[0_u8; 16], b"").unwrap();
    let expected: [u8; 32] = [
        0xce, 0xa7, 0x40, 0x3d, 0x4d, 0x60, 0x6b, 0x6e, 0x07, 0x4e, 0xc5, 0xd3, 0xba, 0xf3, 0x9d,
        0x18, 0xd0, 0xd1, 0xc8, 0xa7, 0x99, 0x99, 0x6b, 0xf0, 0x26, 0x5b, 0x98, 0xb5, 0xd4, 0x8a,
        0xb9, 0x19,
    ];
    assert_eq!(encrypted, expected);
}

#[test]
fn corrupt_data_is_reported() {
    let key = [7_u8; 32];
    let nonce = [9_u8; NONCE_SIZE];
    let mut encrypted = encrypt_with_key(&key, &nonce, b"message", b"context").unwrap();
    encrypted[0] ^= 1;
    let (kind, message) = fault(decrypt_with_key(&key, &nonce, &encrypted, b"context").err());
    assert_eq!(kind, CryptoErrorKind::Corrupt);
    assert_eq!(message, "影片資料驗證失敗，檔案可能已損毀或被竄改");
    let (kind, _) = fault(decrypt_with_key(&key, &nonce, b"short", b"context").err());
    assert_eq!(kind, CryptoErrorKind::Corrupt);
}

#[test]
fn associated_data_names_the_video() {
    assert_eq!(wrap_aad("video-1", KEYRING_USER), b"my-tauri-app:wrap:v1:video-1:device-kek-v1");
    assert_eq!(chunk_aad("video-1", 0), b"my-tauri-app:chunk:v1:video-1:0");
    assert_eq!(
        chunk_aad("video-1", u64::MAX),
        b"my-tauri-app:chunk:v1:video-1:18446744073709551615"
    );
    assert_ne!(chunk_aad("a", 12), chunk_aad("a1", 2));
    assert_ne!(chunk_aad("a:1", 2), chunk_aad("a", 12));
    assert_ne!(wrap_aad("a", "b"), wrap_aad("ab", ""));
    assert_ne!(wrap_aad("v", "0"), chunk_aad("v", 0));
}

#[test]
fn a_wrapped_key_is_bound_to_its_video() {
    let kek = [3_u8; 32];
    let dek = [5_u8; 32];
    let (nonce, wrapped) = wrap_dek_with_key(&kek, &dek, "video-1", KEYRING_USER).unwrap();
    assert_eq!(wrapped.len(), 48);
    let unwrapped = unwrap_dek_with_key(&kek, &nonce, &wrapped, "video-1", KEYRING_USER).unwrap();
    assert_eq!(unwrapped.as_array(), &dek);
    assert!(unwrap_dek_with_key(&kek, &nonce, &wrapped, "video-2", KEYRING_USER).is_err());
    assert!(unwrap_dek_with_key(&kek, &nonce, &wrapped, "video-1", "other").is_err());
    assert!(unwrap_dek_with_key(&[4_u8; 32], &nonce, &wrapped, "video-1", KEYRING_USER).is_err());
}

#[test]
fn a_wrapped_key_of_the_wrong_length_is_refused() {
    let kek = [3_u8; 32];
    let nonce = [1_u8; NONCE_SIZE];
    let aad = wrap_aad("video-1", KEYRING_USER);
    let wrapped = encrypt_with_key(&kek, &nonce, &[5_u8; 31], &aad).unwrap();
    let (kind, message) =
        fault(unwrap_dek_with_key(&kek, &nonce, &wrapped, "video-1", KEYRING_USER).err());
    assert_eq!(kind, CryptoErrorKind::InvalidFormat);
    assert_eq!(message, "wrapped DEK 長度不正確");
}

#[test]
fn wrapping_with_a_nonce_is_repeatable() {
    let nonce = [1_u8; NONCE_SIZE];
    let wrapped = wrap_dek_with_nonce(&[3_u8; 32], &nonce, &[5_u8; 32], "v", "k").unwrap();
    assert_eq!(
        wrapped,
        encrypt_with_key(&[3_u8; 32], &nonce, &[5_u8; 32], b"my-tauri-app:wrap:v1:v:k").unwrap()
    );
}

#[test]
fn random_bytes_vary() {
    let first = random_bytes::<32>().unwrap();
    let second = random_bytes::<32>().unwrap();
    assert_ne!(first, second);
    assert_ne!(first, [0_u8; 32]);
}

#[test]
fn drawn_bytes_are_handed_on() {
    assert_eq!(drawn_bytes::<3>(Ok([1, 2, 3])).unwrap(), [1, 2, 3]);
    let (kind, message) = fault(drawn_bytes::<3>(Err("no entropy".to_string())).err());
    assert_eq!(kind, CryptoErrorKind::Internal);
    assert_eq!(message, "no entropy");
}

#[test]
fn secrets_hold_what_they_were_given() {
    let secret = SecretBytes::new(vec![1, 2, 3]);
    assert_eq!(secret.as_slice(), &[1, 2, 3]);
    assert_eq!(secret.len(), 3);
    let key = SecretKey::new([4_u8; 32]);
    assert_eq!(key.as_array(), &[4_u8; 32]);
    assert_eq!(key.clone().as_array(), &[4_u8; 32]);
}

#[test]
fn header_bytes_are_laid_out_as_documented() {
    let bytes = sample_header().encode().unwrap();
    assert_eq!(&bytes[0..8], b"MYENCMP4");
    assert_eq!(bytes[8], 1);
    assert_eq!(&bytes[9..13], &[0, 0, 16, 0]);
    assert_eq!(&bytes[13..21], &[123, 0, 0, 0, 0, 0, 0, 0]);
    assert_eq!(&bytes[21..23], &[7, 0]);
    assert_eq!(&bytes[23..25], &[13, 0]);
    assert_eq!(&bytes[25..37], &[1_u8; 12]);
    assert_eq!(&bytes[37..41], &[48, 0, 0, 0]);
    assert_eq!(&bytes[41..48], b"video-1");
    assert_eq!(&bytes[48..61], b"device-kek-v1");
    assert_eq!(&bytes[61..], &[2_u8; 48]);
}

#[test]
fn long_names_cannot_be_encoded() {
    let mut header = sample_header();
    header.asset_id = "a".repeat(65_536);
    let (kind, message) = fault(header.encode().err());
    assert_eq!(kind, CryptoErrorKind::Internal);
    assert_eq!(message, "asset_id 或 key_id 太長");
    header.asset_id = "a".repeat(65_535);
    assert!(header.encode().is_ok());
}

#[test]
fn damaged_headers_are_refused() {
    let good = sample_header().encode().unwrap();
    let refused = |bytes: &[u8], expected: &str| -> (CryptoErrorKind, String) {
        fault(Header::read_from(bytes, SHORTAGE, expected).err())
    };
    let invalid = CryptoErrorKind::InvalidFormat;

    assert_eq!(
        refused(&good[..40], "video-1"),
        (
            CryptoErrorKind::Internal,
            "加密檔案檔頭不完整：failed to fill whole buffer".to_string()
        )
    );
    assert_eq!(
        refused(&good[..100], "video-1"),
        (
            CryptoErrorKind::Internal,
            "加密影片檔頭不完整：failed to fill whole buffer".to_string()
        )
    );
    let mut bad = good.clone();
    bad[0] = b'X';
    assert_eq!(refused(&bad, "video-1"), (invalid, "不是支援的加密影片格式".to_string()));
    let mut bad = good.clone();
    bad[8] = 2;
    assert_eq!(refused(&bad, "video-1"), (invalid, "不支援的加密影片版本".to_string()));
    let mut bad = good.clone();
    bad[9] = 1;
    assert_eq!(refused(&bad, "video-1"), (invalid, "加密影片檔頭欄位不合法".to_string()));
    let mut bad = good.clone();
    bad[41] = 0xff;
    assert_eq!(
        refused(&bad, "video-1"),
        (invalid, "加密影片 asset_id 不是有效 UTF-8".to_string())
    );
    let mut bad = good.clone();
    bad[48] = 0xff;
    assert_eq!(refused(&bad, "video-1"), (invalid, "加密影片 key_id 不是有效 UTF-8".to_string()));
    assert_eq!(refused(&good, "video-2"), (invalid, "影片識別碼與加密檔案不一致".to_string()));
    let mut short = sample_header();
    short.wrapped_dek = vec![2_u8; 47];
    let bad = short.encode().unwrap();
    assert_eq!(refused(&bad, "video-1"), (invalid, "wrapped DEK 長度不正確".to_string()));
}

#[test]
fn names_that_are_too_long_to_read_are_refused() {
    let mut header = sample_header();
    header.asset_id = "a".repeat(1024);
    let bytes = header.encode().unwrap();
    assert!(Header::read_from(&bytes, SHORTAGE, &header.asset_id).is_ok());
    header.asset_id = "a".repeat(1025);
    let bytes = header.encode().unwrap();
    let (kind, message) = fault(Header::read_from(&bytes, SHORTAGE, &header.asset_id).err());
    assert_eq!(kind, CryptoErrorKind::InvalidFormat);
    assert_eq!(message, "加密影片檔頭欄位不合法");
}

#[test]
fn what_follows_a_header_does_not_matter() {
    let mut bytes = sample_header().encode().unwrap();
    let len = bytes.len() as u64;
    bytes.extend_from_slice(&[0xab; 10]);
    let header = Header::read_from(&bytes, SHORTAGE, "video-1").unwrap();
    assert_eq!(header.header_size, len);
    assert_eq!(header.encode().unwrap(), bytes[..len as usize]);
}

#[test]
fn an_empty_video_is_only_a_header() {
    let kek = [3_u8; 32];
    let file = write_video("video-test", &kek, &[], 10);
    let reader = EncryptedFileReader::open_with_key(&file, SHORTAGE, "video-test", &kek).unwrap();
    assert_eq!(reader.original_size(), 0);
    assert_eq!(file.len(), 41 + 10 + 13 + 48);
    let (kind, message) = fault(reader.read_chunk(&file, SHORTAGE, 0).err());
    assert_eq!(kind, CryptoErrorKind::Internal);
    assert_eq!(message, "要求的影片 chunk 不存在");
}

#[test]
fn a_video_of_whole_chunks_reads_back() {
    let kek = [3_u8; 32];
    let data = sample_video(CHUNK_SIZE as usize * 2);
    let file = write_video("video-test", &kek, &data, 3_000_000);
    assert_eq!(file.len() as u64, 41 + 10 + 13 + 48 + 2 * RECORD_SIZE);
    let reader = EncryptedFileReader::open_with_key(&file, SHORTAGE, "video-test", &kek).unwrap();
    let chunk = reader.read_chunk(&file, SHORTAGE, 1).unwrap();
    assert_eq!(chunk.as_slice(), &data[CHUNK_SIZE as usize..]);
    let end = data.len() as u64;
    assert_eq!(reader.read_range(&file, SHORTAGE, end - 1, end).unwrap(), data[data.len() - 1..]);
}

#[test]
fn chunks_stand_one_after_the_other() {
    let kek = [3_u8; 32];
    let data = sample_video(CHUNK_SIZE as usize + 5);
    let file = write_video("video-test", &kek, &data, 100_000);
    let reader = EncryptedFileReader::open_with_key(&file, SHORTAGE, "video-test", &kek).unwrap();
    assert_eq!(
        reader.locate_chunk(0).unwrap(),
        ChunkLocation { offset: 112, encrypted_len: CHUNK_SIZE + 16 }
    );
    assert_eq!(
        reader.locate_chunk(1).unwrap(),
        ChunkLocation { offset: 112 + RECORD_SIZE, encrypted_len: 21 }
    );
    assert!(reader.is_addressable(1));
    let (_, message) = fault(reader.locate_chunk(2).err());
    assert_eq!(message, "要求的影片 chunk 不存在");
    assert!(reader.is_addressable(u64::MAX));
    let (_, message) = fault(reader.locate_chunk(u64::MAX).err());
    assert_eq!(message, "影片 chunk 位置超出範圍");
}

#[test]
fn a_place_past_the_last_file_offset_is_not_addressable() {
    let kek = [3_u8; 32];
    let mut file = write_video("video-test", &kek, b"abc", 10);
    file[13..21].copy_from_slice(&[0xff; 8]);
    let reader = EncryptedFileReader::open_with_key(&file, SHORTAGE, "video-test", &kek).unwrap();
    assert!(reader.is_addressable(1));
    assert!(!reader.is_addressable(u64::MAX / CHUNK_SIZE));
}

#[test]
fn chunks_cannot_change_places() {
    let kek = [3_u8; 32];
    let data = sample_video(CHUNK_SIZE as usize * 2);
    let mut file = write_video("video-test", &kek, &data, 1_000_000);
    let reader = EncryptedFileReader::open_with_key(&file, SHORTAGE, "video-test", &kek).unwrap();
    let (first, rest) = file[112..].split_at(RECORD_SIZE as usize);
    let swapped = [rest, first].concat();
    file[112..].copy_from_slice(&swapped);
    let (kind, _) = fault(reader.read_chunk(&file, SHORTAGE, 0).err());
    assert_eq!(kind, CryptoErrorKind::Corrupt);
}

#[test]
fn a_truncated_chunk_is_reported() {
    let kek = [3_u8; 32];
    let file = write_video("video-test", &kek, b"abc", 10);
    let reader = EncryptedFileReader::open_with_key(&file, SHORTAGE, "video-test", &kek).unwrap();
    let (kind, message) = fault(reader.read_chunk(&file[..file.len() - 1], SHORTAGE, 0).err());
    assert_eq!(kind, CryptoErrorKind::Internal);
    assert_eq!(message, "加密影片 chunk 不完整：failed to fill whole buffer");
}

#[test]
fn ranges_outside_the_video_are_refused() {
    let kek = [3_u8; 32];
    let file = write_video("video-test", &kek, b"abc", 10);
    let reader = EncryptedFileReader::open_with_key(&file, SHORTAGE, "video-test", &kek).unwrap();
    for (start, end) in [(0, 4), (2, 2), (2, 1), (4, 5)] {
        let (kind, message) = fault(reader.read_range(&file, SHORTAGE, start, end).err());
        assert_eq!(kind, CryptoErrorKind::Internal);
        assert_eq!(message, "要求的影片範圍不合法");
    }
    assert_eq!(reader.read_range(&file, SHORTAGE, 1, 3).unwrap(), b"bc");
}

#[test]
fn the_key_of_a_video_opens_it_without_the_device_key() {
    let kek = [3_u8; 32];
    let file = write_video("video-test", &kek, b"abc", 10);
    let reader = EncryptedFileReader::open_with_key(&file, SHORTAGE, "video-test", &kek).unwrap();
    let dek = reader.clone_dek();
    let again =
        EncryptedFileReader::open_with_dek(&file, SHORTAGE, "video-test", dek.as_array()).unwrap();
    assert_eq!(again.read_range(&file, SHORTAGE, 0, 3).unwrap(), b"abc");
    let (kind, _) =
        fault(EncryptedFileReader::open_with_key(&file, SHORTAGE, "video-test", &[4; 32]).err());
    assert_eq!(kind, CryptoErrorKind::Corrupt);
}

#[test]
fn a_missing_file_is_told_from_an_unreadable_one() {
    let error = open_error(true, "No such file");
    assert_eq!(error.kind, CryptoErrorKind::NotFound);
    assert_eq!(error.to_text(), "無法開啟加密影片：No such file");
    let error = open_error(false, "denied");
    assert_eq!(error.kind, CryptoErrorKind::Internal);
    assert_eq!(error.to_text(), "無法開啟加密影片：denied");
}

#[test]
fn a_record_is_a_nonce_and_an_encrypted_chunk() {
    let dek = [5_u8; 32];
    let (writer, head) =
        EncryptedFileWriter::create_wrapped("v", dek, [1_u8; NONCE_SIZE], vec![2_u8; 48]).unwrap();
    assert_eq!(&head[0..8], b"MYENCMP4");
    let nonce = [6_u8; NONCE_SIZE];
    let record = writer.seal_chunk(b"abc", &nonce).unwrap();
    assert_eq!(&record[..12], &nonce);
    assert_eq!(
        &record[12..],
        encrypt_with_key(&dek, &nonce, b"abc", b"my-tauri-app:chunk:v1:v:0").unwrap().as_slice()
    );
}

#[test]
fn the_device_key_is_taken_from_the_key_store() {
    assert_eq!(KEYRING_SERVICE, "com.jim.mytauriapp.content-keys");
    let step = load_or_create_kek(KeychainReply::Secret(SecretBytes::new(vec![8_u8; 32])));
    match step {
        Ok(KekStep::Ready(kek)) => assert_eq!(kek.as_array(), &[8_u8; 32]),
        _ => panic!("the key is there"),
    }
    let (kind, message) =
        fault(load_or_create_kek(KeychainReply::Secret(SecretBytes::new(vec![8_u8; 31]))).err());
    assert_eq!(kind, CryptoErrorKind::Internal);
    assert_eq!(message, "作業系統金鑰儲存區中的 KEK 長度不正確");
    let (kind, message) = fault(kept_kek(KeychainReply::Failed("locked".to_string())).err());
    assert_eq!(kind, CryptoErrorKind::KeyUnavailable);
    assert_eq!(message, "無法讀取作業系統 KEK：locked");
    let error = keyring_error("no store");
    assert_eq!(error.kind, CryptoErrorKind::KeyUnavailable);
    assert_eq!(error.message, "無法初始化作業系統金鑰儲存區：no store");
}

#[test]
fn a_fresh_device_key_is_stored() {
    assert!(matches!(kept_kek(KeychainReply::NoEntry), Ok(None)));
    let kek = match load_or_create_kek(KeychainReply::NoEntry) {
        Ok(KekStep::Store(kek)) => kek,
        _ => panic!("a fresh key has to be stored"),
    };
    let bytes = *kek.as_array();
    assert_ne!(bytes, [0_u8; 32]);
    let (kind, message) = fault(created_kek(kek.clone(), Some("full".to_string())).err());
    assert_eq!(kind, CryptoErrorKind::KeyUnavailable);
    assert_eq!(message, "無法保存作業系統 KEK：full");
    assert_eq!(created_kek(kek, None).unwrap().as_array(), &bytes);
}

#[test]
fn the_pieces_of_a_video_do_not_matter() {
    let kek = [3_u8; 32];
    let data = sample_video(CHUNK_SIZE as usize + 77);
    let lengths: Vec<usize> = [1_000, 65_536, CHUNK_SIZE as usize, 2 * CHUNK_SIZE as usize]
        .iter()
        .map(|step| {
            let file = write_video("video-test", &kek, &data, *step);
            let reader =
                EncryptedFileReader::open_with_key(&file, SHORTAGE, "video-test", &kek).unwrap();
            let chunk = reader.read_chunk(&file, SHORTAGE, 1).unwrap();
            assert_eq!(chunk.as_slice(), &data[CHUNK_SIZE as usize..]);
            file.len()
        })
        .collect();
    assert!(lengths.iter().all(|len| *len == lengths[0]));
}

#[test]
fn a_writer_knows_what_it_can_take() {
    let (mut writer, mut file) =
        EncryptedFileWriter::create_with_key("video-test", &[3_u8; 32]).unwrap();
    assert!(writer.can_write(10));
    assert!(writer.can_finish());
    writer.write_chunk(b"", &mut file).unwrap();
    writer.write_chunk(b"0123456789", &mut file).unwrap();
    assert!(writer.can_write(usize::MAX - 10));
    assert!(!writer.can_write(usize::MAX - 9));
    assert!(writer.can_finish());
}

#[test]
fn every_file_has_its_own_key_and_nonces() {
    let kek = [3_u8; 32];
    let data = vec![0_u8; CHUNK_SIZE as usize * 2];
    let first = write_video("v", &kek, &data, 500_000);
    let second = write_video("v", &kek, &data, 500_000);
    assert_ne!(&first[25..37], &second[25..37]);
    let dek = |file: &[u8]| {
        let reader = EncryptedFileReader::open_with_key(file, SHORTAGE, "v", &kek).unwrap();
        *reader.clone_dek().as_array()
    };
    assert_ne!(dek(&first), dek(&second));
    let head = 41 + 1 + 13 + 48;
    let record = RECORD_SIZE as usize;
    assert_ne!(&first[head..head + 12], &first[head + record..head + record + 12]);
    let wrapped = wrap_dek_with_key(&kek, &[5_u8; 32], "v", KEYRING_USER).unwrap();
    let again = wrap_dek_with_key(&kek, &[5_u8; 32], "v", KEYRING_USER).unwrap();
    assert_ne!(wrapped.0, again.0);
}

#[test]
fn every_fresh_device_key_is_another() {
    let fresh = || match load_or_create_kek(KeychainReply::NoEntry) {
        Ok(KekStep::Store(kek)) => *kek.as_array(),
        _ => panic!("a fresh key has to be stored"),
    };
    assert_ne!(fresh(), fresh());
}
