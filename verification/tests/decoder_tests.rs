use ntfs_sds_parser::ace::{decode_ace, AceData, AceType};
use ntfs_sds_parser::acl::decode_acl;
use ntfs_sds_parser::bytes::{read_be48, read_le16, read_le32, read_le64};
use ntfs_sds_parser::descriptor::{decode_descriptor, SecurityDescriptor};
use ntfs_sds_parser::errors::{DecodeError, SdDetail, SdField};
use ntfs_sds_parser::sid::decode_sid;
use ntfs_sds_parser::stream::{SdsParser, StreamRecord};

fn sid_bytes(rev: u8, auth: u64, subs: &[u32]) -> Vec<u8> {
    let mut v = vec![rev, subs.len() as u8];
    v.extend_from_slice(&auth.to_be_bytes()[2..8]);
    for s in subs {
        v.extend_from_slice(&s.to_le_bytes());
    }
    v
}

fn ace_bytes(tag: u8, flags: u8, body: &[u8]) -> Vec<u8> {
    let size = (4 + body.len()) as u16;
    let mut v = vec![tag, flags];
    v.extend_from_slice(&size.to_le_bytes());
    v.extend_from_slice(body);
    v
}

fn basic_ace_bytes(tag: u8, flags: u8, mask: u32, sid: &[u8]) -> Vec<u8> {
    let mut body = mask.to_le_bytes().to_vec();
    body.extend_from_slice(sid);
    ace_bytes(tag, flags, &body)
}

fn acl_bytes(rev: u8, count: u16, entries: &[Vec<u8>]) -> Vec<u8> {
    let mut body: Vec<u8> = vec![];
    for e in entries {
        body.extend_from_slice(e);
    }
    let size = (8 + body.len()) as u16;
    let mut v = vec![rev, 0];
    v.extend_from_slice(&size.to_le_bytes());
    v.extend_from_slice(&count.to_le_bytes());
    v.extend_from_slice(&[0, 0]);
    v.extend_from_slice(&body);
    v
}

/// Self-relative descriptor blob: header, then owner, group, dacl, sacl in
/// that order. `dacl_off_override` replaces the computed DACL offset.
fn sd_blob(
    owner: &[u8],
    group: &[u8],
    dacl: Option<&[u8]>,
    sacl: Option<&[u8]>,
    dacl_off_override: Option<u32>,
) -> Vec<u8> {
    let owner_off = 20u32;
    let group_off = owner_off + owner.len() as u32;
    let mut next = group_off + group.len() as u32;
    let dacl_off = match dacl {
        Some(d) => {
            let o = next;
            next += d.len() as u32;
            o
        }
        None => 0,
    };
    let sacl_off = match sacl {
        Some(_) => next,
        None => 0,
    };
    let dacl_off = dacl_off_override.unwrap_or(dacl_off);
    let mut v = vec![1u8, 0];
    v.extend_from_slice(&0x8004u16.to_le_bytes());
    v.extend_from_slice(&owner_off.to_le_bytes());
    v.extend_from_slice(&group_off.to_le_bytes());
    v.extend_from_slice(&sacl_off.to_le_bytes());
    v.extend_from_slice(&dacl_off.to_le_bytes());
    v.extend_from_slice(owner);
    v.extend_from_slice(group);
    if let Some(d) = dacl {
        v.extend_from_slice(d);
    }
    if let Some(s) = sacl {
        v.extend_from_slice(s);
    }
    v
}

fn record_bytes(hash: u32, security_id: u32, offset: u64, blob: &[u8]) -> Vec<u8> {
    let mut v = hash.to_le_bytes().to_vec();
    v.extend_from_slice(&security_id.to_le_bytes());
    v.extend_from_slice(&offset.to_le_bytes());
    v.extend_from_slice(&((blob.len() + 20) as u32).to_le_bytes());
    v.extend_from_slice(blob);
    v
}

fn pad16(v: &mut Vec<u8>) {
    while v.len() % 16 != 0 {
        v.push(0);
    }
}

#[test]
fn test_read_integers() {
    let d: Vec<u8> = vec![0x01, 0x02, 0x03, 0x04, 0x05, 0x06, 0x07, 0x08];
    assert_eq!(read_le16(&d, 0), 0x0201);
    assert_eq!(read_le32(&d, 0), 0x04030201);
    assert_eq!(read_le64(&d, 0), 0x0807060504030201);
    assert_eq!(read_be48(&d, 0), 0x010203040506);
    assert_eq!(read_be48(&[0, 0, 0, 0, 0, 5], 0), 5);
}

#[test]
fn test_sid_decode_local_system() {
    let buffer: Vec<u8> = vec![
        0x01, 0x01, 0x00, 0x00, 0x00, 0x00, 0x00, 0x05, 0x12, 0x00, 0x00, 0x00,
    ];
    let (sid, end) = decode_sid(&buffer, 0, buffer.len()).unwrap();
    assert_eq!(end, 12);
    assert_eq!(sid.revision, 1);
    assert_eq!(sid.identifier_authority, vec![0, 0, 0, 0, 0, 5]);
    assert_eq!(sid.sub_authorities, vec![18]);
    assert_eq!(sid.to_string(), "S-1-5-18");
}

#[test]
fn test_sid_decode_many_sub_authorities() {
    let buffer = sid_bytes(1, 5, &[21, 111, 222, 333, 1000]);
    assert_eq!(buffer.len(), 28);
    let (sid, end) = decode_sid(&buffer, 0, buffer.len()).unwrap();
    assert_eq!(end, 28);
    assert_eq!(sid.to_string(), "S-1-5-21-111-222-333-1000");
}

#[test]
fn test_sid_truncated_fails() {
    // Declared count of three sub-authorities, only one present.
    let mut buffer = sid_bytes(1, 5, &[18]);
    buffer[1] = 3;
    assert_eq!(
        decode_sid(&buffer, 0, buffer.len()),
        Err(DecodeError::MalformedSid)
    );
    // Fewer than the eight fixed bytes.
    let short: Vec<u8> = vec![1, 0, 0];
    assert_eq!(
        decode_sid(&short, 0, short.len()),
        Err(DecodeError::MalformedSid)
    );
}

#[test]
fn test_ace_access_allowed() {
    let sid = sid_bytes(1, 1, &[0]);
    let buffer = basic_ace_bytes(0x00, 0x02, 0x1F01FF, &sid);
    let (ace, end) = decode_ace(&buffer, 0, buffer.len()).unwrap();
    assert_eq!(end, buffer.len());
    assert_eq!(ace.ace_type, AceType::AccessAllowed);
    assert_eq!(ace.ace_flags, 0x02);
    match ace.data {
        AceData::Basic { access_mask, sid } => {
            assert_eq!(access_mask, 0x1F01FF);
            assert_eq!(sid.to_string(), "S-1-1-0");
        }
        _ => panic!("expected a basic body"),
    }
}

#[test]
fn test_ace_object_type() {
    let sid = sid_bytes(1, 5, &[32, 544]);
    let mut body = 0x20u32.to_le_bytes().to_vec();
    body.extend_from_slice(&0x3u32.to_le_bytes());
    body.extend_from_slice(&[0xAA; 16]);
    body.extend_from_slice(&[0xBB; 16]);
    body.extend_from_slice(&sid);
    let buffer = ace_bytes(0x05, 0x00, &body);
    let (ace, end) = decode_ace(&buffer, 0, buffer.len()).unwrap();
    assert_eq!(end, buffer.len());
    assert_eq!(ace.ace_type, AceType::AccessAllowedObject);
    match ace.data {
        AceData::Object {
            access_mask,
            object_flags,
            object_type,
            inherited_object_type,
            sid,
        } => {
            assert_eq!(access_mask, 0x20);
            assert_eq!(object_flags, 0x3);
            assert_eq!(object_type, vec![0xAA; 16]);
            assert_eq!(inherited_object_type, vec![0xBB; 16]);
            assert_eq!(sid.to_string(), "S-1-5-32-544");
        }
        _ => panic!("expected an object body"),
    }
}

#[test]
fn test_ace_unknown_type_advances_by_declared_size() {
    // An unrecognised tag: the payload stays opaque and the cursor advances
    // by exactly the declared size, so a following entry decodes correctly.
    let payload: Vec<u8> = vec![0xDE, 0xAD, 0xBE, 0xEF, 0x99];
    let unknown = ace_bytes(0x60, 0x01, &payload);
    let sid = sid_bytes(1, 1, &[0]);
    let allowed = basic_ace_bytes(0x00, 0x00, 0x1F01FF, &sid);
    let mut buffer = unknown.clone();
    buffer.extend_from_slice(&allowed);
    let (ace, end) = decode_ace(&buffer, 0, buffer.len()).unwrap();
    assert_eq!(end, unknown.len());
    assert_eq!(ace.ace_type, AceType::Unknown(0x60));
    match ace.data {
        AceData::Opaque { bytes } => assert_eq!(bytes, payload),
        _ => panic!("expected an opaque body"),
    }
    let (ace2, end2) = decode_ace(&buffer, end, buffer.len()).unwrap();
    assert_eq!(end2, buffer.len());
    assert_eq!(ace2.ace_type, AceType::AccessAllowed);
}

#[test]
fn test_ace_bad_sizes_fail() {
    // Declared size under the four header bytes.
    let buffer: Vec<u8> = vec![0x60, 0x00, 0x03, 0x00, 0x55];
    assert_eq!(
        decode_ace(&buffer, 0, buffer.len()),
        Err(DecodeError::MalformedAce)
    );
    // Declared size past the available bytes.
    let buffer2: Vec<u8> = vec![0x60, 0x00, 0x40, 0x00, 0x55];
    assert_eq!(
        decode_ace(&buffer2, 0, buffer2.len()),
        Err(DecodeError::MalformedAce)
    );
    // A basic type whose embedded identifier overruns the declared size.
    let sid = sid_bytes(1, 1, &[0]);
    let mut bad = basic_ace_bytes(0x00, 0x00, 0x1F01FF, &sid);
    bad[9] = 9; // sub-authority count far beyond the body
    assert_eq!(
        decode_ace(&bad, 0, bad.len()),
        Err(DecodeError::MalformedAce)
    );
}

#[test]
fn test_acl_two_entries_in_order() {
    let sid = sid_bytes(1, 1, &[0]);
    let allowed = basic_ace_bytes(0x00, 0x00, 0x1F01FF, &sid);
    let denied = basic_ace_bytes(0x01, 0x00, 0x120089, &sid);
    let buffer = acl_bytes(2, 2, &[allowed, denied]);
    let acl = decode_acl(&buffer, 0, buffer.len()).unwrap();
    assert_eq!(acl.revision, 2);
    assert_eq!(acl.count, 2);
    assert_eq!(acl.entries.len(), 2);
    assert_eq!(acl.entries[0].ace_type, AceType::AccessAllowed);
    assert_eq!(acl.entries[1].ace_type, AceType::AccessDenied);
    match &acl.entries[0].data {
        AceData::Basic { access_mask, sid } => {
            assert_eq!(*access_mask, 0x1F01FF);
            assert_eq!(sid.to_string(), "S-1-1-0");
        }
        _ => panic!("expected a basic body"),
    }
}

#[test]
fn test_acl_reports_failing_entry_index() {
    let sid = sid_bytes(1, 1, &[0]);
    let allowed = basic_ace_bytes(0x00, 0x00, 0x1F01FF, &sid);
    // Count of two, but the second entry is missing.
    let buffer = acl_bytes(2, 2, &[allowed]);
    assert_eq!(
        decode_acl(&buffer, 0, buffer.len()),
        Err(DecodeError::MalformedAcl { index: 1 })
    );
    // Header shorter than eight bytes.
    let short: Vec<u8> = vec![2, 0, 8, 0];
    assert_eq!(
        decode_acl(&short, 0, short.len()),
        Err(DecodeError::MalformedAcl { index: 0 })
    );
}

#[test]
fn test_descriptor_valid() {
    let owner = sid_bytes(1, 5, &[21, 111, 222, 333, 1000]);
    let group = sid_bytes(1, 5, &[32, 544]);
    let sid = sid_bytes(1, 1, &[0]);
    let allowed = basic_ace_bytes(0x00, 0x00, 0x1F01FF, &sid);
    let dacl = acl_bytes(2, 1, &[allowed]);
    let blob = sd_blob(&owner, &group, Some(&dacl), None, None);
    let sd = decode_descriptor(&blob).unwrap();
    assert_eq!(sd.revision, 1);
    assert_eq!(sd.control_flags, 0x8004);
    assert_eq!(sd.owner_sid.to_string(), "S-1-5-21-111-222-333-1000");
    assert_eq!(sd.group_sid.to_string(), "S-1-5-32-544");
    let dacl = sd.dacl.as_ref().unwrap();
    assert_eq!(dacl.count, 1);
    assert_eq!(dacl.entries.len(), 1);
    assert!(sd.sacl.is_none());
}

#[test]
fn test_descriptor_dacl_offset_out_of_bounds() {
    let owner = sid_bytes(1, 5, &[18]);
    let group = sid_bytes(1, 1, &[0]);
    let blob = sd_blob(&owner, &group, None, None, Some(4000));
    assert_eq!(
        decode_descriptor(&blob),
        Err(DecodeError::MalformedSecurityDescriptor {
            detail: SdDetail::OutOfBounds {
                field: SdField::Dacl
            }
        })
    );
}

#[test]
fn test_descriptor_truncated_header() {
    let blob: Vec<u8> = vec![1, 0, 4, 0, 20, 0];
    assert_eq!(
        decode_descriptor(&blob),
        Err(DecodeError::MalformedSecurityDescriptor {
            detail: SdDetail::TruncatedHeader
        })
    );
}

#[test]
fn test_descriptor_owner_offset_zero() {
    let group = sid_bytes(1, 1, &[0]);
    let mut blob = sd_blob(&group, &group, None, None, None);
    blob[4] = 0;
    blob[5] = 0;
    blob[6] = 0;
    blob[7] = 0;
    assert_eq!(
        decode_descriptor(&blob),
        Err(DecodeError::MalformedSecurityDescriptor {
            detail: SdDetail::OutOfBounds {
                field: SdField::Owner
            }
        })
    );
}

#[test]
fn test_descriptor_bad_owner_sid() {
    let owner = sid_bytes(1, 5, &[18]);
    let group = sid_bytes(1, 1, &[0]);
    let mut blob = sd_blob(&owner, &group, None, None, None);
    blob[21] = 200; // owner's sub-authority count overruns the blob
    assert_eq!(
        decode_descriptor(&blob),
        Err(DecodeError::MalformedSecurityDescriptor {
            detail: SdDetail::MalformedFieldSid {
                field: SdField::Owner
            }
        })
    );
}

#[test]
fn test_stream_truncated_header_ends_iteration() {
    // Fewer bytes than the fixed outer header: end of iteration, no error.
    let mut parser = SdsParser::from_bytes(vec![0x11; 15]);
    assert!(parser.next().is_none());
    // A zero record-length field likewise ends iteration.
    let mut zeroed = vec![0u8; 32];
    zeroed[0] = 0x55;
    let mut parser = SdsParser::from_bytes(zeroed);
    assert!(parser.next().is_none());
}

#[test]
fn test_stream_two_records() {
    // Record one: a valid descriptor, no lists. Record two: its list offset
    // points past the blob end; the slot fails but iteration continues.
    let owner = sid_bytes(1, 5, &[21, 111, 222, 333, 1000]);
    let group = sid_bytes(1, 5, &[32, 544]);
    let blob1 = sd_blob(&owner, &group, None, None, None);
    let blob2 = sd_blob(&owner, &group, None, None, Some(999));
    let mut data = record_bytes(0xAABBCCDD, 256, 0, &blob1);
    pad16(&mut data);
    let second_start = data.len() as u64;
    data.extend_from_slice(&record_bytes(0x11223344, 257, second_start, &blob2));
    let mut parser = SdsParser::from_bytes(data);

    let first = parser.next().unwrap().unwrap();
    assert_eq!(first.get_hash(), 0xAABBCCDD);
    assert_eq!(first.get_security_id(), 256);
    assert_eq!(first.stream_offset, 0);
    assert_eq!(first.get_owner_sid(), "S-1-5-21-111-222-333-1000");
    assert_eq!(first.get_group_sid(), "S-1-5-32-544");
    assert!(first.get_dacl().is_none());
    assert!(first.get_sacl().is_none());

    let second = parser.next().unwrap();
    assert_eq!(
        second,
        Err(DecodeError::MalformedSecurityDescriptor {
            detail: SdDetail::OutOfBounds {
                field: SdField::Dacl
            }
        })
    );
    assert!(parser.next().is_none());
}

#[test]
fn test_stream_alignment_padding() {
    // The first record's length is not a multiple of sixteen; the reader
    // realigns to the next sixteen-byte boundary before the second record.
    let owner = sid_bytes(1, 1, &[0]);
    let group = sid_bytes(1, 5, &[32, 544]);
    let blob = sd_blob(&owner, &group, None, None, None);
    let rec1 = record_bytes(1, 300, 0, &blob);
    assert!(rec1.len() % 16 != 0);
    let mut data = rec1;
    pad16(&mut data);
    data.extend_from_slice(&record_bytes(2, 301, data.len() as u64, &blob));
    let mut parser = SdsParser::from_bytes(data);
    let first = parser.next().unwrap().unwrap();
    assert_eq!(first.get_security_id(), 300);
    let second = parser.next().unwrap().unwrap();
    assert_eq!(second.get_security_id(), 301);
    assert!(parser.next().is_none());
}

#[test]
fn test_stream_decode_deterministic() {
    let owner = sid_bytes(1, 5, &[21, 111, 222, 333, 1000]);
    let group = sid_bytes(1, 5, &[32, 544]);
    let sid = sid_bytes(1, 1, &[0]);
    let allowed = basic_ace_bytes(0x00, 0x00, 0x1F01FF, &sid);
    let dacl = acl_bytes(2, 1, &[allowed]);
    let blob = sd_blob(&owner, &group, Some(&dacl), None, None);
    let data = record_bytes(7, 42, 0, &blob);
    let first = SdsParser::from_bytes(data.clone()).dump();
    let second = SdsParser::from_bytes(data).dump();
    assert_eq!(first, second);
}

#[test]
fn test_dump_collects_all_slots() {
    let owner = sid_bytes(1, 1, &[0]);
    let blob_ok = sd_blob(&owner, &owner, None, None, None);
    let blob_bad = sd_blob(&owner, &owner, None, None, Some(999));
    let mut data = record_bytes(1, 1, 0, &blob_ok);
    pad16(&mut data);
    let mid = data.len() as u64;
    data.extend_from_slice(&record_bytes(2, 2, mid, &blob_bad));
    let slots = SdsParser::from_bytes(data).dump();
    assert_eq!(slots.len(), 2);
    assert!(slots[0].is_ok());
    assert!(slots[1].is_err());
    assert_eq!(slots[0].as_ref().unwrap().get_security_id(), 1);
}

#[test]
fn test_record_equality_on_repeated_decode() {
    let owner = sid_bytes(1, 5, &[18]);
    let blob = sd_blob(&owner, &owner, None, None, None);
    let data = record_bytes(9, 10, 0, &blob);
    let a: Vec<Result<StreamRecord, DecodeError>> = SdsParser::from_bytes(data.clone()).dump();
    let mut parser = SdsParser::from_bytes(data);
    let b = parser.next().unwrap();
    assert_eq!(a[0], b);
    let sd: &SecurityDescriptor = &a[0].as_ref().unwrap().descriptor;
    assert!(sd.dacl.is_none() && sd.sacl.is_none());
}

#[test]
fn test_acl_empty() {
    let buffer = acl_bytes(2, 0, &[]);
    let acl = decode_acl(&buffer, 0, buffer.len()).unwrap();
    assert_eq!(acl.count, 0);
    assert!(acl.entries.is_empty());
}

#[test]
fn test_descriptor_sacl_present_and_dacl_entry_failure_detail() {
    let owner = sid_bytes(1, 5, &[18]);
    let group = sid_bytes(1, 1, &[0]);
    let sid = sid_bytes(1, 1, &[0]);
    let audit = basic_ace_bytes(0x02, 0x00, 0x20, &sid);
    let sacl = acl_bytes(2, 1, &[audit.clone()]);
    let blob = sd_blob(&owner, &group, None, Some(&sacl), None);
    let sd = decode_descriptor(&blob).unwrap();
    assert!(sd.dacl.is_none());
    let got = sd.sacl.as_ref().unwrap();
    assert_eq!(got.entries.len(), 1);
    assert_eq!(got.entries[0].ace_type, AceType::SystemAudit);

    // A list whose second entry is corrupt names the list and the index.
    let corrupt = vec![0x60u8, 0, 2, 0]; // declared entry size under four
    let dacl = {
        let mut body = audit.clone();
        body.extend_from_slice(&corrupt);
        let mut v = vec![2u8, 0];
        v.extend_from_slice(&((8 + body.len()) as u16).to_le_bytes());
        v.extend_from_slice(&2u16.to_le_bytes());
        v.extend_from_slice(&[0, 0]);
        v.extend_from_slice(&body);
        v
    };
    let blob2 = sd_blob(&owner, &group, Some(&dacl), None, None);
    assert_eq!(
        decode_descriptor(&blob2),
        Err(DecodeError::MalformedSecurityDescriptor {
            detail: SdDetail::MalformedFieldAcl {
                field: SdField::Dacl,
                index: 1
            }
        })
    );
}

#[test]
fn test_stream_record_length_overruns_source() {
    // The length field claims more bytes than remain: the final slot is a
    // partially allocated one, so iteration ends without an error.
    let owner = sid_bytes(1, 1, &[0]);
    let blob = sd_blob(&owner, &owner, None, None, None);
    let mut data = record_bytes(1, 1, 0, &blob);
    let keep = data.len() - 10;
    data.truncate(keep);
    let mut parser = SdsParser::from_bytes(data);
    assert!(parser.next().is_none());
}
