use frame_relay::frame::Frame;
use frame_relay::frame_flags::Flag;

#[test]
fn test() {
    println!("hello");
}

#[test]
fn mod_test1() {
    let test_payload = "alsdjf;lskjdgljasg;lkjsalfkjaskldjflkasjdf;lkasjfdalksdjflkajsdf;lfasdgnslsnblna;sldjjfawlkejr;lwjenlksndlfjawl;ejr;lwjelkrjaldfjl;sdjf";

    let mut ff = Frame::default();
    ff.write_version(1);
    ff.write_flags(&[Flag::Control, Flag::CodecRaw]);
    ff.write_payload(test_payload.into());
    ff.write_crc();

    let bytes = ff.bytes();

    let res = Frame::default().read_frame(&bytes);
    if let Err(err) = res.verify_crc() {
        panic!("should not be error: {}", err.message())
    }
    assert_eq!(ff.version(), res.version());
    assert_eq!(ff.payload(), res.payload());
}

#[test]
fn test2() {
    let test_payload = "";

    let mut ff = Frame::default();
    ff.write_version(1);
    ff.write_flags(&[Flag::Control, Flag::CodecRaw]);
    ff.write_payload(test_payload.into());
    ff.write_crc();

    let bytes = ff.bytes();

    let res = Frame::default().read_frame(&bytes);
    if let Err(err) = res.verify_crc() {
        panic!("should not be error: {}", err.message())
    }
    assert_eq!(ff.version(), res.version());
    assert_eq!(ff.payload(), res.payload());
}

#[test]
fn test3() {
    let mut ff = Frame::default();
    ff.write_version(1);
    ff.write_flags(&[Flag::Control, Flag::CodecRaw]);

    let bytes = ff.bytes();

    let res = Frame::default().read_frame(&bytes);
    if let Ok(()) = res.verify_crc() {
        panic!("CRC verification was failed")
    }
    assert_eq!(ff.version(), res.version());
    assert_eq!(ff.payload(), res.payload());
}

#[test]
fn test4() {
    let mut ff = Frame::default();
    ff.write_version(1);
    ff.write_flags(&[Flag::Control, Flag::CodecRaw]);
    ff.write_payload(vec![b'h', b'e', b'l', b'l', b'o']);
    ff.write_options(&[1011, 1122, 1233, 1315, 1415, 1555, 1615, 1715, 1815]);
    ff.write_crc();

    let bytes = ff.bytes();
    let mut res = Frame::default().read_frame(&bytes);

    if res.verify_crc().is_err() {
        panic!("CRC verification was failed")
    }

    assert_eq!(
        res.read_options().unwrap(),
        vec![1011, 1122, 1233, 1315, 1415, 1555, 1615, 1715, 1815]
    );
    assert_eq!(ff.version(), res.version());
    assert_eq!(ff.payload(), res.payload());
}

#[test]
fn default_frame_layout() {
    let f = Frame::default();
    assert_eq!(f.header(), &vec![3u8, 0, 0, 0, 0, 0, 0, 0, 0, 0, 0, 0]);
    assert!(f.payload().is_empty());
    assert_eq!(f.read_hl(), 3);
    assert_eq!(f.version(), 0);
    assert_eq!(f.read_flags(), 0);
    assert_eq!(f.read_payload_len(), 0);
}

#[test]
fn header_fields_are_packed() {
    let mut f = Frame::default();
    f.write_version(0x0B);
    f.write_flags(&[Flag::Error, Flag::CodecProto]);
    f.write_payload(vec![7u8; 0x0102]);
    assert_eq!(f.header()[0], 0xB3);
    assert_eq!(f.header()[1], 0xC0);
    assert_eq!(&f.header()[2..6], &[0x02, 0x01, 0, 0]);
    assert_eq!(f.version(), 0x0B);
    assert_eq!(f.read_hl(), 3);
    assert_eq!(f.read_payload_len(), 0x0102);
}

#[test]
fn flags_bits_are_distinct() {
    let all = [
        Flag::Control,
        Flag::CodecRaw,
        Flag::CodecJSON,
        Flag::CodecMsgpack,
        Flag::CodecGob,
        Flag::Error,
        Flag::CodecProto,
    ];
    let bits: Vec<u8> = all.iter().map(|f| f.bits()).collect();
    assert_eq!(bits, vec![0x01, 0x04, 0x08, 0x10, 0x20, 0x40, 0x80]);
    let mut f = Frame::default();
    f.write_flags(&all);
    assert_eq!(f.read_flags(), 0xFD);
}

#[test]
fn write_flags_keeps_bits_already_set() {
    let mut f = Frame::default();
    f.write_flags(&[Flag::Control]);
    f.write_flags(&[Flag::CodecJSON]);
    f.write_flags(&[]);
    assert_eq!(f.read_flags(), 0x09);
}

#[test]
fn crc_is_little_endian_crc32_of_first_six_bytes() {
    let mut f = Frame::default();
    f.write_version(1);
    f.write_flags(&[Flag::Control, Flag::CodecRaw]);
    f.write_payload(b"hello".to_vec());
    f.write_crc();
    let h = f.header().clone();
    let expected = crc32fast::hash(&h[..6]).to_le_bytes();
    assert_eq!(&h[6..10], &expected);
    assert_eq!(f.check_crc(crc32fast::hash(&h[..6])).is_ok(), true);
    assert!(f.check_crc(crc32fast::hash(&h[..6]) ^ 1).is_err());
}

#[test]
fn write_crc_value_fills_the_checksum_field() {
    let mut f = Frame::default();
    f.write_crc_value(0x1234_5678);
    assert_eq!(&f.header()[6..10], &[0x78, 0x56, 0x34, 0x12]);
    assert!(f.check_crc(0x1234_5678).is_ok());
    assert!(f.check_crc(0x1234_5679).is_err());
}

#[test]
fn round_trip_keeps_version_flags_and_payload() {
    for version in 0u8..=15 {
        let mut f = Frame::default();
        f.write_version(version);
        f.write_flags(&[Flag::CodecMsgpack, Flag::Error]);
        f.write_payload(vec![version; version as usize * 3]);
        f.write_crc();
        let bytes = f.bytes();
        let g = Frame::default().read_frame(&bytes);
        assert!(g.verify_crc().is_ok());
        assert_eq!(g.version(), version);
        assert_eq!(g.read_flags(), 0x50);
        assert_eq!(g.payload(), &vec![version; version as usize * 3]);
        assert_eq!(g.read_payload_len() as usize, version as usize * 3);
        assert_eq!(g, f);
    }
}

#[test]
fn any_single_bit_flip_in_first_six_bytes_fails_the_check() {
    let mut f = Frame::default();
    f.write_version(1);
    f.write_flags(&[Flag::Control, Flag::CodecRaw]);
    f.write_payload(b"hello".to_vec());
    f.write_crc();
    assert!(f.verify_crc().is_ok());
    for byte in 0..6 {
        for bit in 0..8 {
            let mut g = f.clone();
            g.header_mut()[byte] ^= 1 << bit;
            assert!(g.verify_crc().is_err(), "byte {} bit {}", byte, bit);
        }
    }
}

#[test]
fn bit_flips_past_the_checksum_do_not_matter() {
    let mut f = Frame::default();
    f.write_version(2);
    f.write_payload(b"payload".to_vec());
    f.write_options(&[0xDEAD_BEEF, 7]);
    f.write_crc();
    let bytes = f.bytes();
    for byte in 10..bytes.len() {
        let mut flipped = bytes.clone();
        flipped[byte] ^= 0x10;
        let g = Frame::default().read_frame(&flipped);
        assert!(g.verify_crc().is_ok(), "byte {}", byte);
    }
}

#[test]
fn options_round_trip_for_every_count() {
    for n in 1u32..=10 {
        let opts: Vec<u32> = (0..n).map(|i| i.wrapping_mul(0x9E37_79B9) ^ 0xFFFF_0000).collect();
        let mut f = Frame::default();
        f.write_options(&opts);
        assert_eq!(f.read_hl() as u32, 3 + n);
        assert_eq!(f.header().len() as u32, 12 + 4 * n);
        assert_eq!(f.read_options(), Some(opts.clone()));
        f.write_crc();
        let bytes = f.bytes();
        let mut g = Frame::default().read_frame(&bytes);
        assert_eq!(g.read_options(), Some(opts));
    }
}

#[test]
fn options_are_little_endian_words_after_byte_twelve() {
    let mut f = Frame::default();
    f.write_options(&[0x0403_0201, 0xFFEE_DDCC]);
    assert_eq!(&f.header()[12..], &[1, 2, 3, 4, 0xCC, 0xDD, 0xEE, 0xFF]);
    assert_eq!(f.header()[0], 5);
}

#[test]
fn zero_option_read_gives_none() {
    let mut f = Frame::default();
    assert_eq!(f.read_options(), None);
    let mut g = Frame::default().read_frame(&[0x13, 0, 0, 0, 0, 0, 0, 0, 0, 0, 0, 0]);
    assert_eq!(g.read_options(), None);
}

#[test]
fn reserved_bytes_cleared_without_options() {
    for hl in 0u8..=3 {
        let data = [0x10 | hl, 1, 2, 3, 4, 5, 6, 7, 8, 9, 0xAB, 0xCD, 0x55];
        let f = Frame::default().read_frame(&data);
        assert_eq!(f.header().len(), 12);
        assert_eq!(&f.header()[..10], &data[..10]);
        assert_eq!(f.header()[10], 0);
        assert_eq!(f.header()[11], 0);
        assert_eq!(f.payload(), &vec![0x55]);
    }
}

#[test]
fn reserved_bytes_kept_with_options() {
    let data = [0x04, 0, 0, 0, 0, 0, 0, 0, 0, 0, 0xAB, 0xCD, 1, 0, 0, 0, 9, 9];
    let mut f = Frame::default().read_frame(&data);
    assert_eq!(f.header(), &data[..16].to_vec());
    assert_eq!(f.payload(), &vec![9, 9]);
    assert_eq!(f.read_options(), Some(vec![1]));
}

#[test]
fn empty_payload_has_length_zero() {
    let mut f = Frame::default();
    f.write_payload(Vec::new());
    f.write_crc();
    let bytes = f.bytes();
    assert_eq!(bytes.len(), 12);
    let g = Frame::default().read_frame(&bytes);
    assert_eq!(g.read_payload_len(), 0);
    assert!(g.payload().is_empty());
}

#[test]
fn write_payload_replaces_the_payload() {
    let mut f = Frame::default();
    f.write_payload(b"first".to_vec());
    f.write_payload(b"2nd".to_vec());
    assert_eq!(f.payload(), &b"2nd".to_vec());
    assert_eq!(f.read_payload_len(), 3);
}

#[test]
fn header_mut_and_init_payload_mut_edit_the_frame() {
    let mut f = Frame::default();
    f.header_mut()[1] = 0x08;
    f.extend_header(&[1, 2, 3, 4]);
    f.init_payload_mut(3)[2] = 9;
    assert_eq!(f.read_flags(), 0x08);
    assert_eq!(f.header().len(), 16);
    assert_eq!(&f.header()[12..], &[1, 2, 3, 4]);
    assert_eq!(f.payload(), &vec![0, 0, 9]);
}

#[test]
fn end_to_end_scenario() {
    let mut f = Frame::default();
    f.write_version(1);
    f.write_flags(&[Flag::Control, Flag::CodecRaw]);
    f.write_payload(b"hello".to_vec());
    f.write_crc();
    let bytes = f.bytes();
    let g = Frame::default().read_frame(&bytes);
    assert!(g.verify_crc().is_ok());
    assert_eq!(g.version(), 1);
    assert_eq!(g.payload(), &b"hello".to_vec());
}

#[test]
fn end_to_end_scenario_with_options() {
    let mut f = Frame::default();
    f.write_payload(b"hello".to_vec());
    f.write_options(&[1011, 1122, 1233]);
    f.write_crc();
    let bytes = f.bytes();
    let mut g = Frame::default().read_frame(&bytes);
    assert!(g.verify_crc().is_ok());
    assert_eq!(g.read_options(), Some(vec![1011, 1122, 1233]));
    assert_eq!(g.read_hl(), 6);
    assert_eq!(g.payload(), &b"hello".to_vec());
}

#[test]
fn write_version_sets_rather_than_combines() {
    let mut f = Frame::default();
    f.write_version(1);
    f.write_version(2);
    assert_eq!(f.version(), 2);
    assert_eq!(f.read_hl(), 3);
    f.write_options(&[9]);
    f.write_version(0x0F);
    f.write_version(0x04);
    assert_eq!(f.version(), 4);
    assert_eq!(f.read_hl(), 4);
    assert_eq!(f.header()[0], 0x44);
}
