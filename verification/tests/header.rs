use ivf::header::{FOUR_CC, HEADER_LEN, SIGNATURE, VERSION};
use ivf::le::{read_u16, read_u32, read_u64};
use ivf::{ByteCursor, Ivf, IvfError, IvfHeader};

fn valid_header() -> Vec<u8> {
    vec![
        0x44, 0x4B, 0x49, 0x46, 0x00, 0x00, 0x20, 0x00, 0x56, 0x50, 0x39, 0x30, 0xB0, 0x00, 0x90,
        0x00, 0x30, 0x75, 0x00, 0x00, 0xE8, 0x03, 0x00, 0x00, 0x1D, 0x00, 0x00, 0x00, 0x00, 0x00,
        0x00, 0x00,
    ]
}

fn open(bytes: Vec<u8>) -> Result<Ivf, IvfError> {
    Ivf::new(ByteCursor::new(bytes))
}

fn invalid(reason: &str) -> IvfError {
    IvfError::InvalidHeader(reason.to_string())
}

#[test]
fn constants_spell_the_format() {
    assert_eq!(HEADER_LEN, 32);
    assert_eq!(&SIGNATURE, b"DKIF");
    assert_eq!(&FOUR_CC, b"VP90");
    assert_eq!(VERSION, 0);
}

#[test]
fn exact_header_opens() {
    let ivf = open(valid_header()).unwrap();
    assert_eq!(ivf.width(), 176);
    assert_eq!(ivf.height(), 144);
    assert_eq!(ivf.frame_rate_rate(), 30000);
    assert_eq!(ivf.frame_rate_scale(), 1000);
    assert_eq!(ivf.frame_count(), 29);
}

#[test]
fn fields_are_little_endian() {
    let mut bytes = valid_header();
    bytes[12..14].copy_from_slice(&[0x34, 0x12]);
    bytes[14..16].copy_from_slice(&[0xFF, 0xFF]);
    bytes[16..20].copy_from_slice(&[0x78, 0x56, 0x34, 0x12]);
    bytes[20..24].copy_from_slice(&[0xFF, 0xFF, 0xFF, 0xFF]);
    bytes[24..28].copy_from_slice(&[0x00, 0x00, 0x00, 0x80]);
    let ivf = open(bytes).unwrap();
    assert_eq!(ivf.width(), 0x1234);
    assert_eq!(ivf.height(), 0xFFFF);
    assert_eq!(ivf.frame_rate_rate(), 0x1234_5678);
    assert_eq!(ivf.frame_rate_scale(), 0xFFFF_FFFF);
    assert_eq!(ivf.frame_count(), 0x8000_0000);
}

#[test]
fn reserved_bytes_are_ignored() {
    let mut bytes = valid_header();
    bytes[28..32].copy_from_slice(&[0xDE, 0xAD, 0xBE, 0xEF]);
    let ivf = open(bytes).unwrap();
    assert_eq!(ivf.width(), 176);
    assert_eq!(ivf.frame_count(), 29);
}

#[test]
fn header_fields_are_decoded_in_place() {
    let mut reader = ByteCursor::new(valid_header());
    let header = IvfHeader::parse(&mut reader).unwrap();
    assert_eq!(header.signature, [0x44, 0x4B, 0x49, 0x46]);
    assert_eq!(header.version, 0);
    assert_eq!(header.length, 32);
    assert_eq!(header.four_cc, [0x56, 0x50, 0x39, 0x30]);
    assert_eq!(header.width, 176);
    assert_eq!(header.height, 144);
    assert_eq!(header.frame_rate_rate, 30000);
    assert_eq!(header.frame_rate_scale, 1000);
    assert_eq!(header.frame_count, 29);
    assert_eq!(header.reserved, [0, 0, 0, 0]);
    assert_eq!(reader.remaining(), 0);
}

#[test]
fn parse_consumes_exactly_the_header() {
    let mut bytes = valid_header();
    bytes.extend_from_slice(&[1, 2, 3, 4, 5]);
    let mut reader = ByteCursor::new(bytes);
    assert!(IvfHeader::parse(&mut reader).is_ok());
    assert_eq!(reader.remaining(), 5);
    assert_eq!(reader.read_exact(5), Some(&[1u8, 2, 3, 4, 5][..]));
}

#[test]
fn short_input_is_truncated() {
    assert_eq!(open(Vec::new()).err(), Some(IvfError::TruncatedInput));
    assert_eq!(open(vec![0x44]).err(), Some(IvfError::TruncatedInput));
    let mut bytes = valid_header();
    bytes.pop();
    assert_eq!(bytes.len(), 31);
    assert_eq!(open(bytes).err(), Some(IvfError::TruncatedInput));
}

#[test]
fn short_input_is_truncated_even_with_a_bad_signature() {
    let mut bytes = valid_header();
    bytes[0] = 0;
    bytes.truncate(20);
    assert_eq!(open(bytes).err(), Some(IvfError::TruncatedInput));
}

#[test]
fn wrong_signature_is_rejected() {
    for at in 0..4 {
        let mut bytes = valid_header();
        bytes[at] ^= 0x01;
        assert_eq!(open(bytes).err(), Some(invalid("invalid signature")));
    }
}

#[test]
fn wrong_version_is_rejected() {
    for at in 4..6 {
        let mut bytes = valid_header();
        bytes[at] = 1;
        assert_eq!(open(bytes).err(), Some(invalid("invalid version")));
    }
}

#[test]
fn wrong_length_is_rejected() {
    let mut bytes = valid_header();
    bytes[6] = 0x21;
    assert_eq!(open(bytes).err(), Some(invalid("invalid length")));
    let mut bytes = valid_header();
    bytes[7] = 0x01;
    assert_eq!(open(bytes).err(), Some(invalid("invalid length")));
    let mut bytes = valid_header();
    bytes[6] = 0x00;
    bytes[7] = 0x20;
    assert_eq!(open(bytes).err(), Some(invalid("invalid length")));
}

#[test]
fn wrong_codec_is_rejected() {
    for at in 8..12 {
        let mut bytes = valid_header();
        bytes[at] = b'8';
        if at == 10 {
            bytes[at] = b'0';
        }
        assert_eq!(open(bytes).err(), Some(invalid("invalid four_cc")));
    }
    let mut vp8 = valid_header();
    vp8[8..12].copy_from_slice(b"VP80");
    assert_eq!(open(vp8).err(), Some(invalid("invalid four_cc")));
}

#[test]
fn first_failing_check_is_reported() {
    let mut all = valid_header();
    all[0] = 0;
    all[4] = 9;
    all[6] = 0;
    all[8] = 0;
    assert_eq!(open(all).err(), Some(invalid("invalid signature")));

    let mut from_version = valid_header();
    from_version[4] = 9;
    from_version[6] = 0;
    from_version[8] = 0;
    assert_eq!(open(from_version).err(), Some(invalid("invalid version")));

    let mut from_length = valid_header();
    from_length[6] = 0;
    from_length[8] = 0;
    assert_eq!(open(from_length).err(), Some(invalid("invalid length")));
}

#[test]
fn validate_reports_each_field() {
    let good = IvfHeader {
        signature: SIGNATURE,
        version: VERSION,
        length: 32,
        four_cc: FOUR_CC,
        width: 1,
        height: 2,
        frame_rate_rate: 3,
        frame_rate_scale: 4,
        frame_count: 5,
        reserved: [9, 9, 9, 9],
    };
    assert_eq!(good.validate(), Ok(()));

    let mut bad = good;
    bad.signature = *b"RIFF";
    assert_eq!(bad.validate(), Err(invalid("invalid signature")));
    let mut bad = good;
    bad.version = 1;
    assert_eq!(bad.validate(), Err(invalid("invalid version")));
    let mut bad = good;
    bad.length = 31;
    assert_eq!(bad.validate(), Err(invalid("invalid length")));
    let mut bad = good;
    bad.four_cc = *b"AV01";
    assert_eq!(bad.validate(), Err(invalid("invalid four_cc")));
}

#[test]
fn header_is_read_from_the_cursors_position() {
    let mut bytes = vec![0xAA, 0xBB, 0xCC];
    bytes.extend_from_slice(&valid_header());
    let mut reader = ByteCursor::new(bytes);
    assert_eq!(reader.read_exact(3), Some(&[0xAAu8, 0xBB, 0xCC][..]));
    let ivf = Ivf::new(reader).unwrap();
    assert_eq!(ivf.width(), 176);
    assert_eq!(ivf.height(), 144);
}

#[test]
fn error_clone_keeps_the_reason() {
    let error = invalid("invalid length");
    assert_eq!(error.clone(), error);
    assert_eq!(IvfError::TruncatedInput.clone(), IvfError::TruncatedInput);
    assert_ne!(error, invalid("invalid version"));
}

#[test]
fn little_endian_reads() {
    let bytes = [0x01u8, 0x02, 0x03, 0x04, 0x05, 0x06, 0x07, 0x08, 0x09];
    assert_eq!(read_u16(&bytes, 0), 0x0201);
    assert_eq!(read_u16(&bytes, 7), 0x0908);
    assert_eq!(read_u32(&bytes, 0), 0x0403_0201);
    assert_eq!(read_u32(&bytes, 5), 0x0908_0706);
    assert_eq!(read_u64(&bytes, 0), 0x0807_0605_0403_0201);
    assert_eq!(read_u64(&bytes, 1), 0x0908_0706_0504_0302);
    assert_eq!(read_u16(&[0xFF, 0xFF], 0), u16::MAX);
    assert_eq!(read_u32(&[0xFF; 4], 0), u32::MAX);
    assert_eq!(read_u64(&[0xFF; 8], 0), u64::MAX);
    assert_eq!(read_u64(&[0, 0, 0, 0, 0, 0, 0, 0x80], 0), 1u64 << 63);
}
