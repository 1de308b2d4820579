use losselot::mp3::frame::{
    find_sync, scan_frames, sizes_cv_exceeds, syncsafe_size, ChannelMode, FrameHeader, FrameStats,
    Layer, MpegVersion, ScanError, MAX_FRAME_SIZE,
};

/// MPEG1 Layer III, 128 kbps, 44.1 kHz, stereo.
fn valid_mp3_header() -> [u8; 4] {
    [0xFF, 0xFB, 0x90, 0x00]
}

/// MPEG1 Layer III, 320 kbps, 44.1 kHz, stereo.
fn valid_mp3_header_320() -> [u8; 4] {
    [0xFF, 0xFB, 0xE0, 0x00]
}

fn frame_128() -> Vec<u8> {
    let mut data = vec![0xFF, 0xFB, 0x90, 0x00];
    data.extend(vec![0u8; 413]);
    data
}

#[test]
fn test_parse_valid_header_128kbps() {
    let header = valid_mp3_header();
    let parsed = FrameHeader::parse(header).expect("Should parse valid header");

    assert_eq!(parsed.version, MpegVersion::Mpeg1);
    assert_eq!(parsed.layer, Layer::Layer3);
    assert_eq!(parsed.bitrate, 128);
    assert_eq!(parsed.sample_rate, 44100);
    assert!(!parsed.padding);
    assert_eq!(parsed.channel_mode, ChannelMode::Stereo);
    assert_eq!(parsed.samples_per_frame, 1152);
}

#[test]
fn test_parse_valid_header_320kbps() {
    let header = valid_mp3_header_320();
    let parsed = FrameHeader::parse(header).expect("Should parse valid header");

    assert_eq!(parsed.version, MpegVersion::Mpeg1);
    assert_eq!(parsed.layer, Layer::Layer3);
    assert_eq!(parsed.bitrate, 320);
    assert_eq!(parsed.sample_rate, 44100);
}

#[test]
fn test_parse_invalid_sync() {
    let header = [0x00, 0x00, 0x00, 0x00];
    assert!(FrameHeader::parse(header).is_none());

    let header = [0xFF, 0x00, 0x00, 0x00];
    assert!(FrameHeader::parse(header).is_none());
}

#[test]
fn test_parse_reserved_version() {
    let header = [0xFF, 0xE8, 0x90, 0x00];
    assert!(FrameHeader::parse(header).is_none());
}

#[test]
fn test_parse_reserved_layer() {
    let header = [0xFF, 0xE0, 0x90, 0x00];
    assert!(FrameHeader::parse(header).is_none());
}

#[test]
fn test_parse_invalid_bitrate() {
    let header = [0xFF, 0xFB, 0xF0, 0x00];
    assert!(FrameHeader::parse(header).is_none());

    let header = [0xFF, 0xFB, 0x00, 0x00];
    assert!(FrameHeader::parse(header).is_none());
}

#[test]
fn test_parse_invalid_sample_rate() {
    let header = [0xFF, 0xFB, 0x9C, 0x00];
    assert!(FrameHeader::parse(header).is_none());
}

#[test]
fn test_parse_mono_channel() {
    let header = [0xFF, 0xFB, 0x90, 0xC0];
    let parsed = FrameHeader::parse(header).expect("Should parse");
    assert_eq!(parsed.channel_mode, ChannelMode::Mono);
}

#[test]
fn test_parse_joint_stereo() {
    let header = [0xFF, 0xFB, 0x90, 0x40];
    let parsed = FrameHeader::parse(header).expect("Should parse");
    assert_eq!(parsed.channel_mode, ChannelMode::JointStereo);
}

#[test]
fn test_parse_with_padding() {
    let header = [0xFF, 0xFB, 0x92, 0x00];
    let parsed = FrameHeader::parse(header).expect("Should parse");
    assert!(parsed.padding);
}

#[test]
fn test_parse_mpeg2() {
    let header = [0xFF, 0xF3, 0x90, 0x00];
    let parsed = FrameHeader::parse(header).expect("Should parse");
    assert_eq!(parsed.version, MpegVersion::Mpeg2);
    assert_eq!(parsed.sample_rate, 22050);
}

#[test]
fn test_parse_mpeg25() {
    let header = [0xFF, 0xE3, 0x90, 0x00];
    let parsed = FrameHeader::parse(header).expect("Should parse");
    assert_eq!(parsed.version, MpegVersion::Mpeg25);
    assert_eq!(parsed.sample_rate, 11025);
}

#[test]
fn test_frame_size_calculation() {
    let header = valid_mp3_header();
    let parsed = FrameHeader::parse(header).expect("Should parse");
    assert_eq!(parsed.frame_size, 417);
}

#[test]
fn test_frame_size_with_padding() {
    let header = [0xFF, 0xFB, 0x92, 0x00];
    let parsed = FrameHeader::parse(header).expect("Should parse");
    assert_eq!(parsed.frame_size, 418);
}

#[test]
fn test_frame_stats_cv_empty() {
    let stats = FrameStats::default();
    assert!(!stats.frame_size_cv_exceeds(0));
}

#[test]
fn test_frame_stats_cv_uniform() {
    let stats = FrameStats {
        frame_sizes: vec![417, 417, 417, 417],
        ..Default::default()
    };
    assert!(!stats.frame_size_cv_exceeds(0));
}

#[test]
fn test_frame_stats_cv_variable() {
    let stats = FrameStats {
        frame_sizes: vec![400, 500, 400, 500],
        ..Default::default()
    };
    assert!(stats.frame_size_cv_exceeds(0), "VBR should have positive CV");
    assert!(!stats.frame_size_cv_exceeds(20), "CV should be reasonable for this data");
}

#[test]
fn test_scan_frames_empty() {
    let data: Vec<u8> = vec![];
    let stats = scan_frames(&data, 100).expect("Should not error on empty");
    assert_eq!(stats.frame_count, 0);
}

#[test]
fn test_scan_frames_single_frame() {
    let data = frame_128();
    let stats = scan_frames(&data, 100).expect("Should parse");
    assert_eq!(stats.frame_count, 1);
    assert_eq!(stats.avg_bitrate, 128);
    assert!(!stats.is_vbr, "Single frame should not be VBR");
}

#[test]
fn test_scan_frames_with_id3v2() {
    let mut data = vec![
        b'I', b'D', b'3', // magic
        0x04, 0x00, // version 2.4.0
        0x00, // flags
        0x00, 0x00, 0x00, 0x00, // size 0
    ];
    data.extend([0xFF, 0xFB, 0x90, 0x00]);
    data.extend(vec![0u8; 413]);

    let stats = scan_frames(&data, 100).expect("Should parse");
    assert_eq!(stats.frame_count, 1, "Should find frame after ID3 tag");
}

#[test]
fn test_find_sync_at_start() {
    let data = frame_128();
    let pos = find_sync(&data).expect("Should not error");
    assert_eq!(pos, Some(0), "Sync should be at position 0");
}

#[test]
fn test_find_sync_with_garbage() {
    let mut data = vec![0x00, 0x01, 0x02, 0x03, 0x04];
    data.extend([0xFF, 0xFB, 0x90, 0x00]);
    data.extend(vec![0u8; 413]);

    let pos = find_sync(&data).expect("Should not error");
    assert_eq!(pos, Some(5), "Sync should be at position 5");
}

#[test]
fn test_find_sync_not_found() {
    let data = vec![0u8; 100];
    let pos = find_sync(&data).expect("Should not error");
    assert_eq!(pos, None, "Should not find sync in all-zero data");
}

#[test]
fn test_vbr_detection() {
    let mut data = Vec::new();
    data.extend([0xFF, 0xFB, 0x90, 0x00]);
    data.extend(vec![0u8; 413]);
    data.extend([0xFF, 0xFB, 0xA0, 0x00]);
    data.extend(vec![0u8; 518]);

    let stats = scan_frames(&data, 100).expect("Should parse");

    assert_eq!(stats.frame_count, 2);
    assert!(stats.is_vbr, "Multiple bitrates should indicate VBR");
    assert_eq!(stats.min_bitrate, 128);
    assert_eq!(stats.max_bitrate, 160);
    assert_eq!(stats.avg_bitrate, 144);
}

#[test]
fn test_bitrate_index_table_mpeg1_layer3() {
    let test_cases = [
        (0x10, 32),
        (0x20, 40),
        (0x30, 48),
        (0x40, 56),
        (0x50, 64),
        (0x60, 80),
        (0x70, 96),
        (0x80, 112),
        (0x90, 128),
        (0xA0, 160),
        (0xB0, 192),
        (0xC0, 224),
        (0xD0, 256),
        (0xE0, 320),
    ];

    for (byte2, expected_bitrate) in test_cases {
        let header = [0xFF, 0xFB, byte2, 0x00];
        let parsed = FrameHeader::parse(header)
            .expect(&format!("Should parse header with byte 0x{:02X}", byte2));
        assert_eq!(
            parsed.bitrate, expected_bitrate,
            "Byte 0x{:02X} should give {}kbps",
            byte2, expected_bitrate
        );
    }
}

#[test]
fn parse_decodes_every_field_of_a_standard_header() {
    let mut data = frame_128();
    let header = [data[0], data[1], data[2], data[3]];
    let parsed = FrameHeader::parse(header).expect("valid header");
    assert_eq!(parsed.version, MpegVersion::Mpeg1);
    assert_eq!(parsed.layer, Layer::Layer3);
    assert_eq!(parsed.bitrate, 128);
    assert_eq!(parsed.sample_rate, 44100);
    assert!(!parsed.padding);
    assert_eq!(parsed.channel_mode, ChannelMode::Stereo);
    assert_eq!(parsed.frame_size, 417);
    assert_eq!(parsed.samples_per_frame, 1152);
    data.truncate(417);
    assert_eq!(data.len() as u32, parsed.frame_size);
}

#[test]
fn parse_rejects_every_header_without_sync() {
    for b0 in 0u16..=255 {
        for b1 in 0u16..=255 {
            let (b0, b1) = (b0 as u8, b1 as u8);
            if b0 == 0xFF && b1 & 0xE0 == 0xE0 {
                continue;
            }
            assert!(FrameHeader::parse([b0, b1, 0x90, 0x00]).is_none());
        }
    }
}

#[test]
fn parse_rejects_each_reserved_field() {
    // reserved version
    assert!(FrameHeader::parse([0xFF, 0xEB, 0x90, 0x00]).is_none());
    // reserved layer
    assert!(FrameHeader::parse([0xFF, 0xF9, 0x90, 0x00]).is_none());
    // free-format and bad bitrate
    assert!(FrameHeader::parse([0xFF, 0xFB, 0x00, 0x00]).is_none());
    assert!(FrameHeader::parse([0xFF, 0xFB, 0xF0, 0x00]).is_none());
    // reserved sample rate
    assert!(FrameHeader::parse([0xFF, 0xFB, 0x9C, 0x00]).is_none());
    // the same header with none of them is accepted
    assert!(FrameHeader::parse([0xFF, 0xFB, 0x90, 0x00]).is_some());
}

#[test]
fn frame_size_follows_the_formula_for_every_accepted_header() {
    let mut accepted = 0;
    for b1 in 0xE0u16..=0xFF {
        for b2 in 0u16..=255 {
            let header = [0xFF, b1 as u8, b2 as u8, 0x00];
            if let Some(h) = FrameHeader::parse(header) {
                accepted += 1;
                let pad = if h.padding { 1 } else { 0 };
                let expected = match h.layer {
                    Layer::Layer1 => (12 * h.bitrate * 1000 / h.sample_rate + pad) * 4,
                    _ => 144 * h.bitrate * 1000 / h.sample_rate + pad,
                };
                assert_eq!(h.frame_size, expected);
                assert!(h.frame_size > 4);
            }
        }
    }
    // 3 versions, 3 layers, 2 protection bits, 14 bitrates, 3 sample rates, 4 low bits
    assert_eq!(accepted, 3 * 3 * 2 * 14 * 3 * 4);
}

#[test]
fn layer_one_counts_in_slots_of_four_bytes() {
    // MPEG1 Layer I, 384 kbps, 32 kHz: 12 * 384000 / 32000 = 144 slots
    let plain = FrameHeader::parse([0xFF, 0xFF, 0xC8, 0x00]).expect("valid header");
    assert_eq!(plain.layer, Layer::Layer1);
    assert_eq!(plain.bitrate, 384);
    assert_eq!(plain.sample_rate, 32000);
    assert_eq!(plain.samples_per_frame, 384);
    assert_eq!(plain.frame_size, 576);
    let padded = FrameHeader::parse([0xFF, 0xFF, 0xCA, 0x00]).expect("valid header");
    assert_eq!(padded.frame_size, 580);
}

#[test]
fn layer_two_and_mpeg2_tables() {
    // MPEG1 Layer II, index 14 is 384 kbps, 48 kHz
    let l2 = FrameHeader::parse([0xFF, 0xFD, 0xE4, 0x00]).expect("valid header");
    assert_eq!(l2.layer, Layer::Layer2);
    assert_eq!(l2.bitrate, 384);
    assert_eq!(l2.sample_rate, 48000);
    assert_eq!(l2.frame_size, 1152);
    assert_eq!(l2.samples_per_frame, 1152);
    // MPEG2 Layer III, index 14 is 160 kbps, 16 kHz
    let v2 = FrameHeader::parse([0xFF, 0xF3, 0xE8, 0x80]).expect("valid header");
    assert_eq!(v2.bitrate, 160);
    assert_eq!(v2.sample_rate, 16000);
    assert_eq!(v2.samples_per_frame, 576);
    assert_eq!(v2.frame_size, 1440);
    assert_eq!(v2.channel_mode, ChannelMode::DualChannel);
    // MPEG2.5 Layer I, index 14 is 256 kbps, 8 kHz
    let v25 = FrameHeader::parse([0xFF, 0xE7, 0xE8, 0x00]).expect("valid header");
    assert_eq!(v25.version, MpegVersion::Mpeg25);
    assert_eq!(v25.bitrate, 256);
    assert_eq!(v25.sample_rate, 8000);
    assert_eq!(v25.frame_size, 1536);
}

#[test]
fn syncsafe_size_uses_seven_bits_of_each_byte() {
    assert_eq!(syncsafe_size([0, 0, 0, 0]), 0);
    assert_eq!(syncsafe_size([0, 0, 0x02, 0x01]), 257);
    assert_eq!(syncsafe_size([0x7F, 0x7F, 0x7F, 0x7F]), 0x0FFF_FFFF);
    assert_eq!(syncsafe_size([0xFF, 0xFF, 0xFF, 0xFF]), 0x0FFF_FFFF);
    assert_eq!(syncsafe_size([0x80, 0x80, 0x80, 0x81]), 1);
    assert_eq!(syncsafe_size([0x01, 0, 0, 0]), 1 << 21);
}

#[test]
fn scan_finds_the_frame_behind_an_id3_tag_at_its_offset() {
    let mut data = vec![b'I', b'D', b'3', 0x04, 0x00, 0x00, 0x00, 0x00, 0x00, 0x00];
    data.extend(frame_128());
    let stats = scan_frames(&data, 200).expect("scan");
    assert_eq!(stats.frame_count, 1);
    assert_eq!(find_sync(&data), Ok(Some(10)));
}

#[test]
fn scan_skips_an_id3_tag_by_its_size() {
    // a tag of 300 bytes, in which a valid header lies that must not count
    let mut data = vec![b'I', b'D', b'3', 0x04, 0x00, 0x00, 0x00, 0x00, 0x02, 0x2C];
    let mut body = vec![0u8; 300];
    body[20..24].copy_from_slice(&[0xFF, 0xFB, 0xE0, 0x00]);
    data.extend(body);
    data.extend(frame_128());
    data.extend(frame_128());
    let with_tag = scan_frames(&data, 200).expect("scan");
    let mut plain = frame_128();
    plain.extend(frame_128());
    let without = scan_frames(&plain, 200).expect("scan");
    assert_eq!(with_tag.frame_count, 2);
    assert_eq!(with_tag.bitrates, without.bitrates);
    assert_eq!(with_tag.frame_sizes, without.frame_sizes);
    assert_eq!(with_tag.bitrates, vec![128, 128]);
    assert_eq!(find_sync(&data), Ok(Some(310)));
}

#[test]
fn scan_resynchronizes_behind_junk() {
    let mut plain = frame_128();
    plain.extend(frame_128());
    let without = scan_frames(&plain, 200).expect("scan");
    for k in 0..40usize {
        let mut data: Vec<u8> = (0..k).map(|i| (i % 7) as u8 + 1).collect();
        data.extend(plain.iter());
        let stats = scan_frames(&data, 200).expect("scan");
        assert_eq!(stats.frame_count, without.frame_count);
        assert_eq!(stats.frame_sizes, without.frame_sizes);
        assert_eq!(find_sync(&data), Ok(Some(k as u64)));
    }
}

#[test]
fn scan_stops_at_the_budget() {
    let mut data = Vec::new();
    for _ in 0..5 {
        data.extend(frame_128());
    }
    assert_eq!(scan_frames(&data, 3).expect("scan").frame_count, 3);
    assert_eq!(scan_frames(&data, 0).expect("scan").frame_count, 0);
    assert_eq!(scan_frames(&data, 200).expect("scan").frame_count, 5);
}

#[test]
fn scan_of_nothing_reports_zeros() {
    let stats = scan_frames(&[0u8; 64], 200).expect("scan");
    assert_eq!(stats.frame_count, 0);
    assert!(stats.bitrates.is_empty());
    assert!(stats.frame_sizes.is_empty());
    assert!(!stats.is_vbr);
    assert_eq!(stats.avg_bitrate, 0);
    assert_eq!(stats.min_bitrate, 0);
    assert_eq!(stats.max_bitrate, 0);
    let short = scan_frames(&[0xFF, 0xFB], 200).expect("scan");
    assert_eq!(short.frame_count, 0);
}

#[test]
fn equal_bitrates_are_not_variable() {
    let mut data = Vec::new();
    for _ in 0..3 {
        data.extend(frame_128());
    }
    let stats = scan_frames(&data, 200).expect("scan");
    assert_eq!(stats.frame_count, 3);
    assert!(!stats.is_vbr);
    assert_eq!(stats.min_bitrate, 128);
    assert_eq!(stats.max_bitrate, 128);
    assert_eq!(stats.avg_bitrate, 128);
}

#[test]
fn average_bitrate_truncates() {
    // 128, 128, 160: the mean is 138.67
    let mut data = frame_128();
    data.extend(frame_128());
    data.extend([0xFF, 0xFB, 0xA0, 0x00]);
    data.extend(vec![0u8; 518]);
    let stats = scan_frames(&data, 200).expect("scan");
    assert_eq!(stats.bitrates, vec![128, 128, 160]);
    assert_eq!(stats.frame_sizes, vec![417, 417, 522]);
    assert_eq!(stats.avg_bitrate, 138);
    assert!(stats.is_vbr);
}

#[test]
fn truncated_id3_header_holds_no_frames() {
    for data in [&b"ID3"[..], &b"ID3\x04\x00"[..], &b"ID3\x04\x00\x00\x00\x00\x00"[..]] {
        let stats = scan_frames(data, 100).expect("a scan never fails");
        assert_eq!(stats.frame_count, 0);
        assert!(stats.bitrates.is_empty());
        assert!(stats.frame_sizes.is_empty());
        assert!(!stats.is_vbr);
        assert_eq!(stats.avg_bitrate, 0);
        assert_eq!(stats.min_bitrate, 0);
        assert_eq!(stats.max_bitrate, 0);
        assert_eq!(find_sync(data), Ok(None));
    }
    // a header that ends inside the tag's header does not count
    let mut data = b"ID3\x04\x00".to_vec();
    data.extend([0xFF, 0xFB, 0x90, 0x00]);
    assert_eq!(scan_frames(&data, 100).expect("scan").frame_count, 0);
    assert_eq!(find_sync(&data), Ok(None));
}

#[test]
fn find_sync_needs_three_bytes() {
    assert_eq!(find_sync(&[]), Err(ScanError::UnexpectedEof));
    assert_eq!(find_sync(&[0xFF, 0xFB]), Err(ScanError::UnexpectedEof));
    assert_eq!(find_sync(&[0xFF, 0xFB, 0x90]), Ok(None));
    assert_eq!(find_sync(&[0xFF, 0xFB, 0x90, 0x00]), Ok(Some(0)));
}

#[test]
fn id3_size_beyond_the_end_finds_nothing() {
    let mut data = vec![b'I', b'D', b'3', 0x04, 0x00, 0x00, 0x00, 0x00, 0x7F, 0x7F];
    data.extend(frame_128());
    assert_eq!(scan_frames(&data, 200).expect("scan").frame_count, 0);
    assert_eq!(find_sync(&data), Ok(None));
}

#[test]
fn find_sync_gives_up_after_ten_thousand_offsets() {
    let mut data = vec![0u8; 10000];
    data.extend(frame_128());
    assert_eq!(find_sync(&data), Ok(Some(10000)));
    let mut data = vec![0u8; 10001];
    data.extend(frame_128());
    assert_eq!(find_sync(&data), Ok(None));
    assert_eq!(scan_frames(&data, 200).expect("scan").frame_count, 1);
}

#[test]
fn variation_is_compared_exactly() {
    // sizes 400 and 500: mean 450, deviation 50, variation 11.11 percent
    let sizes = [400, 500, 400, 500];
    assert!(sizes_cv_exceeds(&sizes, 11));
    assert!(!sizes_cv_exceeds(&sizes, 12));
    // sizes 100 and 300: mean 200, deviation 100, variation exactly 50 percent
    let sizes = [100, 300];
    assert!(sizes_cv_exceeds(&sizes, 49));
    assert!(!sizes_cv_exceeds(&sizes, 50));
    // a mean of zero counts as no variation
    assert!(!sizes_cv_exceeds(&[0, 0, 0], 0));
    assert!(!sizes_cv_exceeds(&[], 0));
    // the largest size and zero: variation exactly 100 percent
    assert!(sizes_cv_exceeds(&[0xFFFF, 0], 99));
    assert!(!sizes_cv_exceeds(&[0xFFFF, 0], 100));
    // one size among zeros: variation 200 percent
    assert!(sizes_cv_exceeds(&[0, 0, 0, 0, 7], 199));
    assert!(!sizes_cv_exceeds(&[0, 0, 0, 0, 7], 200));
}

#[test]
fn variation_agrees_with_the_plain_formula() {
    let mut seed: u64 = 0x9E37_79B9_7F4A_7C15;
    let mut next = move || {
        seed ^= seed << 13;
        seed ^= seed >> 7;
        seed ^= seed << 17;
        seed
    };
    for round in 0..400 {
        let len = (next() % 12) as usize + 1;
        let span = [3u64, 50, 3000, 0x1_0000][round % 4];
        let base = next() % (0x1_0000 - span + 1);
        let sizes: Vec<u32> = (0..len).map(|_| (base + next() % span) as u32).collect();
        let n = len as u128;
        let sum: u128 = sizes.iter().map(|&x| x as u128).sum();
        let squares: u128 = sizes.iter().map(|&x| (x as u128) * (x as u128)).sum();
        for pct in 0..=255u8 {
            let p = pct as u128;
            let expected = sum > 0 && 10000 * (n * squares - sum * sum) > p * p * sum * sum;
            assert_eq!(sizes_cv_exceeds(&sizes, pct), expected, "{:?} at {}", sizes, pct);
        }
    }
}

#[test]
fn variation_of_a_long_list() {
    // two million sizes, a tenth of them larger: mean 410, deviation 30
    let sizes: Vec<u32> = (0..2_000_000).map(|i| if i % 10 == 0 { 500 } else { 400 }).collect();
    assert!(sizes_cv_exceeds(&sizes, 7));
    assert!(!sizes_cv_exceeds(&sizes, 8));
    let even = vec![417u32; 3_000_000];
    assert!(!sizes_cv_exceeds(&even, 0));
}

#[test]
fn no_frame_is_longer_than_the_longest() {
    let mut longest = 0;
    for b1 in 0xE0u16..=0xFF {
        for b2 in 0u16..=255 {
            if let Some(h) = FrameHeader::parse([0xFF, b1 as u8, b2 as u8, 0x00]) {
                longest = longest.max(h.frame_size);
            }
        }
    }
    assert_eq!(longest, MAX_FRAME_SIZE);
}
