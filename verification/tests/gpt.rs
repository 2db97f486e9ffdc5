use finit::gpt::{
    gpt_entries_offset, gpt_entry, gpt_entry_used, gpt_header, guid_is_nil, GPT_ENTRY_LEN,
    GPT_HEADER_LEN,
};

fn header_bytes() -> Vec<u8> {
    let mut b = Vec::new();
    b.extend_from_slice(b"EFI PART");
    b.extend_from_slice(&0x0001_0000u32.to_le_bytes());
    b.extend_from_slice(&92u32.to_le_bytes());
    b.extend_from_slice(&0xdead_beefu32.to_le_bytes());
    b.extend_from_slice(&[0, 0, 0, 0]);
    b.extend_from_slice(&1u64.to_le_bytes());
    b.extend_from_slice(&0x1234_5678_9abc_def0u64.to_le_bytes());
    b.extend_from_slice(&34u64.to_le_bytes());
    b.extend_from_slice(&u64::MAX.to_le_bytes());
    b.extend_from_slice(&[7u8; 16]);
    b.extend_from_slice(&2u64.to_le_bytes());
    b.extend_from_slice(&128u32.to_le_bytes());
    b.extend_from_slice(&128u32.to_le_bytes());
    b.extend_from_slice(&0x0102_0304u32.to_le_bytes());
    assert_eq!(b.len(), GPT_HEADER_LEN);
    b
}

#[test]
fn header_fields() {
    let h = gpt_header(&header_bytes()).unwrap();
    assert_eq!(h.signature, b"EFI PART".to_vec());
    assert_eq!(h.revision, 0x0001_0000);
    assert_eq!(h.header_size, 92);
    assert_eq!(h.header_crc32, 0xdead_beef);
    assert_eq!(h.reserved, vec![0, 0, 0, 0]);
    assert_eq!(h.current_lba, 1);
    assert_eq!(h.backup_lba, 0x1234_5678_9abc_def0);
    assert_eq!(h.first_usable_lba, 34);
    assert_eq!(h.last_usable_lba, u64::MAX);
    assert_eq!(h.disk_guid, vec![7u8; 16]);
    assert_eq!(h.part_start, 2);
    assert_eq!(h.num_parts, 128);
    assert_eq!(h.part_entry_size, 128);
    assert_eq!(h.part_crc32, 0x0102_0304);
}

#[test]
fn header_too_short() {
    let b = header_bytes();
    assert!(gpt_header(&b[..GPT_HEADER_LEN - 1]).is_none());
    assert!(gpt_header(&[]).is_none());
}

#[test]
fn entry_fields() {
    let mut b = Vec::new();
    // EFI system partition type C12A7328-F81F-11D2-BA4B-00A0C93EC93B
    b.extend_from_slice(&0xC12A_7328u32.to_le_bytes());
    b.extend_from_slice(&0xF81Fu16.to_le_bytes());
    b.extend_from_slice(&0x11D2u16.to_le_bytes());
    b.extend_from_slice(&[0xBA, 0x4B, 0x00, 0xA0, 0xC9, 0x3E, 0xC9, 0x3B]);
    b.extend_from_slice(&[1u8; 16]);
    b.extend_from_slice(&2048u64.to_le_bytes());
    b.extend_from_slice(&1_050_623u64.to_le_bytes());
    b.extend_from_slice(&(1u64 << 63).to_le_bytes());
    b.extend_from_slice(&[b'E'; 72]);
    assert_eq!(b.len(), GPT_ENTRY_LEN);
    let e = gpt_entry(&b).unwrap();
    assert_eq!(e.type_guid.d1, 0xC12A_7328);
    assert_eq!(e.type_guid.d2, 0xF81F);
    assert_eq!(e.type_guid.d3, 0x11D2);
    assert_eq!(e.type_guid.d4, vec![0xBA, 0x4B, 0x00, 0xA0, 0xC9, 0x3E, 0xC9, 0x3B]);
    assert_eq!(e.part_guid.d1, 0x0101_0101);
    assert_eq!(e.part_guid.d4, vec![1u8; 8]);
    assert_eq!(e.first_lba, 2048);
    assert_eq!(e.last_lba, 1_050_623);
    assert_eq!(e.attributes, 1u64 << 63);
    assert_eq!(e.name, vec![b'E'; 72]);
    assert!(gpt_entry_used(&e));
    assert!(!guid_is_nil(&e.type_guid));
}

#[test]
fn unused_entry() {
    let mut b = vec![0u8; GPT_ENTRY_LEN];
    let e = gpt_entry(&b).unwrap();
    assert!(!gpt_entry_used(&e));
    assert!(guid_is_nil(&e.type_guid));
    b[15] = 1;
    let e = gpt_entry(&b).unwrap();
    assert!(gpt_entry_used(&e));
    assert!(gpt_entry(&b[..GPT_ENTRY_LEN - 1]).is_none());
}

#[test]
fn entries_offset() {
    assert_eq!(gpt_entries_offset(2), Some(1024));
    assert_eq!(gpt_entries_offset(0), Some(0));
    assert_eq!(gpt_entries_offset(u64::MAX / 512), Some((u64::MAX / 512) * 512));
    assert_eq!(gpt_entries_offset(u64::MAX / 512 + 1), None);
}
