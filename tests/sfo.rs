use rom_scraper::sfo::{parse_param_sfo_from_bytes, SfoError};

fn le16(v: u16) -> [u8; 2] {
    v.to_le_bytes()
}

fn le32(v: u32) -> [u8; 4] {
    v.to_le_bytes()
}

/// A blob with the given (key, data type, value) entries.
fn blob(entries: &[(&[u8], u16, &[u8])], count: u32) -> Vec<u8> {
    let index_len = 16 * entries.len();
    let key_table = 20 + index_len;
    let mut keys = Vec::new();
    let mut key_offsets = Vec::new();
    for (k, _, _) in entries {
        key_offsets.push(keys.len());
        keys.extend_from_slice(k);
        keys.push(0);
    }
    let data_table = key_table + keys.len();
    let mut data = Vec::new();
    let mut data_offsets = Vec::new();
    for (_, _, v) in entries {
        data_offsets.push(data.len());
        data.extend_from_slice(v);
        data.extend_from_slice(&[0, 0]);
    }
    let mut b = Vec::new();
    b.extend_from_slice(&le32(0x46535000));
    b.extend_from_slice(&le32(0x0101));
    b.extend_from_slice(&le32(key_table as u32));
    b.extend_from_slice(&le32(data_table as u32));
    b.extend_from_slice(&le32(count));
    for (i, (_, t, v)) in entries.iter().enumerate() {
        b.extend_from_slice(&le16(key_offsets[i] as u16));
        b.extend_from_slice(&le16(*t));
        b.extend_from_slice(&le32(v.len() as u32 + 1));
        b.extend_from_slice(&le32(v.len() as u32 + 2));
        b.extend_from_slice(&le32(data_offsets[i] as u32));
    }
    b.extend_from_slice(&keys);
    b.extend_from_slice(&data);
    b
}

#[test]
fn sfo_reads_known_keys() {
    let b = blob(
        &[(b"TITLE", 0x0204, b"Demon's Souls"), (b"TITLE_ID", 0x0204, b"BLUS30443"), (b"PARENTAL_LEVEL", 0x0404, b"\x05\x00\x00"), (b"CATEGORY", 0x0004, b"DG")],
        4,
    );
    let info = parse_param_sfo_from_bytes(&b).unwrap();
    assert_eq!(info.title, Some("Demon's Souls".to_string()));
    assert_eq!(info.title_id, Some("BLUS30443".to_string()));
    assert_eq!(info.category, Some("DG".to_string()));
    assert_eq!(info.version, None);
}

#[test]
fn sfo_errors() {
    assert_eq!(parse_param_sfo_from_bytes(&[0u8; 10]).unwrap_err(), SfoError::TooSmall);
    let mut bad = blob(&[(b"TITLE", 0x0204, b"X")], 1);
    bad[0] = 1;
    assert_eq!(parse_param_sfo_from_bytes(&bad).unwrap_err(), SfoError::BadMagic);
    let b = blob(&[(b"TITLE", 0x0204, b"X")], 50);
    assert_eq!(parse_param_sfo_from_bytes(&b).unwrap_err(), SfoError::IndexOutOfBounds);
    let b = blob(&[(b"TITLE", 0x9999, b"X")], 1);
    assert_eq!(parse_param_sfo_from_bytes(&b).unwrap_err(), SfoError::UnknownDataType(0x9999));
    let b = blob(&[(b"\xFF\xFE", 0x0204, b"X")], 1);
    assert_eq!(parse_param_sfo_from_bytes(&b).unwrap_err(), SfoError::InvalidUtf8);
    let mut b = blob(&[(b"TITLE", 0x0204, b"X")], 1);
    b[24..28].copy_from_slice(&le32(1000));
    assert_eq!(parse_param_sfo_from_bytes(&b).unwrap_err(), SfoError::DataOutOfBounds);
    let mut b = blob(&[(b"TITLE", 0x0204, b"X")], 1);
    b[8..12].copy_from_slice(&le32(4000));
    assert_eq!(parse_param_sfo_from_bytes(&b).unwrap_err(), SfoError::NotTerminated);
}
