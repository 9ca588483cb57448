use anni_store::flac::FlacError;
use anni_store::{decode_header, FlacHeader, MetadataBlockData};

fn stream_info_bytes() -> Vec<u8> {
    let mut si = vec![0x10, 0x00, 0x10, 0x00, 0x00, 0x00, 0x0e, 0x00, 0x38, 0x4a];
    // 44100 Hz, 2 channels, 16 bits, 0x1_2345_6789 samples
    si.extend([0x0a, 0xc4, 0x42, 0xf1, 0x23, 0x45, 0x67, 0x89]);
    si.extend(0..16u8);
    si
}

fn sample() -> Vec<u8> {
    let mut b = b"fLaC".to_vec();
    b.extend([0x00, 0x00, 0x00, 34]);
    b.extend(stream_info_bytes());
    b.extend([0x04, 0x00, 0x00, 0x03, b'a', b'b', b'c']);
    b.extend([0x01, 0x00, 0x00, 0x02, 0, 0]);
    b.extend([0x89, 0x00, 0x00, 0x01, 0x7f]);
    b.extend([0xff, 0xf8]);
    b
}

#[test]
fn header_blocks_are_read() {
    let h = FlacHeader::parse(&sample()).unwrap();
    assert_eq!(h.blocks.len(), 4);
    let si = h.stream_info();
    assert_eq!(si.min_block_size, 4096);
    assert_eq!(si.max_block_size, 4096);
    assert_eq!(si.min_frame_size, 14);
    assert_eq!(si.max_frame_size, 0x384a);
    assert_eq!(si.sample_rate, 44100);
    assert_eq!(si.channels, 2);
    assert_eq!(si.bits_per_sample, 16);
    assert_eq!(si.total_samples, 0x1_2345_6789);
    assert_eq!(si.md5_signature, (0..16u8).collect::<Vec<u8>>());
    assert_eq!(h.comments().unwrap(), &b"abc".to_vec());
    assert!(matches!(h.blocks[2].data, MetadataBlockData::Padding(2)));
    assert_eq!(h.blocks[3].data.type_code(), 9);
    assert_eq!(h.blocks[3].data.as_str(), "RESERVED");
    assert!(h.blocks[3].is_last);
    assert_eq!(h.blocks[1].data.as_str(), "VORBIS_COMMENT");
}

#[test]
fn header_errors() {
    assert_eq!(FlacHeader::parse(b"fLa").err(), Some(FlacError::UnexpectedEnd));
    assert_eq!(FlacHeader::parse(b"OggS").err(), Some(FlacError::InvalidMagicNumber));
    let mut cut = sample();
    cut.truncate(50);
    assert_eq!(FlacHeader::parse(&cut).err(), Some(FlacError::UnexpectedEnd));
    let no_info = b"fLaC\x81\x00\x00\x00".to_vec();
    assert_eq!(decode_header(&no_info, false).err(), Some(FlacError::FirstBlockNotStreamInfo));
    let h = FlacHeader::parse(&no_info).unwrap();
    assert!(h.comments().is_none());
}

#[test]
fn decode_without_marker() {
    let b = sample();
    let h = decode_header(&b[4..], true).unwrap();
    assert_eq!(h.blocks.len(), 4);
    assert_eq!(h.stream_info().sample_rate, 44100);
}
