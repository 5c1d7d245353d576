use pgbr::compress::bz2;
use pgbr::compress::filter::{Call, Code, DecodeRun, EncodeRun, FrameCall, IoError, Tick};
use pgbr::compress::gz;
use pgbr::compress::helper::{type_enum, type_extension, type_from_name, CompressType};
use pgbr::compress::lz4;
use pgbr::compress::params::{compress_param_list_bytes, decompress_param_list_bytes};
use pgbr::compress::tick::{avail, StreamCounts};
use pgbr::compress::zst;
use pgbr::compress::{
    Bz2Compress, Bz2Decompress, GzCompress, GzDecompress, Lz4Compress, Lz4Decompress, ZstCompress, ZstDecompress,
};

fn message<T>(result: Result<T, IoError>) -> String {
    match result {
        Ok(_) => panic!("expected an error"),
        Err(IoError::Backend(text)) => text,
    }
}

fn tick(written: usize, consumed: usize, ended: bool) -> Result<Tick, Code> {
    Ok(Tick { written, consumed, ended })
}

// Return codes.

#[test]
fn non_negative_codes_do_not_throw() {
    for code in [0, 1, 2, 3, 4, 100, i32::MAX] {
        assert_eq!(bz2::classify(code), bz2::Classification::Accepted { code });
    }
}

#[test]
fn z_ok_and_stream_end_do_not_throw() {
    assert_eq!(gz::classify(gz::error::Z_OK), gz::Classification::Accepted { code: 0 });
    assert_eq!(gz::classify(gz::error::Z_STREAM_END), gz::Classification::Accepted { code: 1 });
}

#[test]
fn known_error_codes_map_to_legacy_messages() {
    let cases = [
        (-1, bz2::ErrorKind::Assert, "sequence error"),
        (-2, bz2::ErrorKind::Assert, "parameter error"),
        (-3, bz2::ErrorKind::Memory, "memory error"),
        (-4, bz2::ErrorKind::Format, "data error"),
        (-5, bz2::ErrorKind::Format, "data error magic"),
        (-6, bz2::ErrorKind::Assert, "io error"),
        (-7, bz2::ErrorKind::Assert, "unexpected eof"),
        (-8, bz2::ErrorKind::Assert, "outbuff full"),
        (-9, bz2::ErrorKind::Assert, "config error"),
    ];
    for (code, kind, message) in cases {
        assert_eq!(bz2::classify(code), bz2::Classification::Throw { code, kind, message });
    }
}

#[test]
fn error_known_error_codes_map_to_legacy_messages() {
    let cases = [
        (2, gz::ErrorKind::Assert, "need dictionary"),
        (-1, gz::ErrorKind::Assert, "file error"),
        (-2, gz::ErrorKind::Format, "stream error"),
        (-3, gz::ErrorKind::Format, "data error"),
        (-4, gz::ErrorKind::Memory, "insufficient memory"),
        (-5, gz::ErrorKind::Assert, "no space in buffer"),
        (-6, gz::ErrorKind::Format, "incompatible version"),
    ];
    for (code, kind, message) in cases {
        assert_eq!(gz::classify(code), gz::Classification::Throw { code, kind, message });
    }
}

#[test]
fn unknown_codes_become_assert_unknown() {
    for code in [-10, -100, -999, i32::MIN] {
        assert_eq!(
            bz2::classify(code),
            bz2::Classification::Throw { code, kind: bz2::ErrorKind::Assert, message: "unknown error" }
        );
    }
}

#[test]
fn error_unknown_codes_become_assert_unknown() {
    for code in [-7, -100, 99, i32::MAX, i32::MIN] {
        assert_eq!(
            gz::classify(code),
            gz::Classification::Throw { code, kind: gz::ErrorKind::Assert, message: "unknown error" }
        );
    }
}

#[test]
fn zero_is_ok() {
    assert_eq!(lz4::classify(0, None), lz4::Classification::Accepted { code: 0 });
}

#[test]
fn error_zero_is_ok() {
    assert_eq!(zst::classify(0, None), zst::Classification::Accepted { code: 0 });
}

#[test]
fn small_positive_is_ok() {
    for code in [1_usize, 2, 100, 1024, 1 << 20] {
        assert_eq!(lz4::classify(code, None), lz4::Classification::Accepted { code });
    }
}

#[test]
fn error_small_positive_is_ok() {
    for code in [1_usize, 100, 1024, 1 << 20] {
        assert_eq!(zst::classify(code, None), zst::Classification::Accepted { code });
    }
}

#[test]
fn known_error_codes_match_legacy_messages() {
    let neg2 = -2_isize as usize;
    match lz4::classify(neg2, Some(b"ERROR_maxBlockSize_invalid".to_vec())) {
        lz4::Classification::Throw { code, name } => {
            assert_eq!(code, neg2);
            assert_eq!(name, b"ERROR_maxBlockSize_invalid");
        }
        lz4::Classification::Accepted { code } => panic!("expected an error, got {code}"),
    }
}

#[test]
fn negative_one_is_generic_error_text() {
    let neg1 = -1_isize as usize;
    match lz4::classify(neg1, Some(b"ERROR_GENERIC".to_vec())) {
        lz4::Classification::Throw { code, name } => {
            assert_eq!(code, neg1);
            assert!(!name.is_empty());
        }
        lz4::Classification::Accepted { code } => panic!("expected an error, got {code}"),
    }
}

#[test]
fn known_error_codes_yield_named_errors() {
    let neg1 = -1_isize as usize;
    match zst::classify(neg1, Some(b"Error (generic)".to_vec())) {
        zst::Classification::Throw { code, name } => {
            assert_eq!(code, neg1);
            assert!(!name.is_empty());
        }
        zst::Classification::Accepted { code } => panic!("expected an error, got {code}"),
    }
}

#[test]
fn an_error_without_a_name_is_unknown() {
    let code = -1_isize as usize;
    let lz4_class = lz4::classify(code, None);
    assert!(lz4_class.is_err());
    assert_eq!(lz4_class, lz4::Classification::Throw { code, name: b"<unknown>".to_vec() });
    let zst_class = zst::classify(code, None);
    assert!(zst_class.is_err());
    assert_eq!(zst_class, zst::Classification::Throw { code, name: b"<unknown>".to_vec() });
}

#[test]
fn only_the_top_of_the_range_is_an_error() {
    let last_lz4 = -23_isize as usize;
    assert!(lz4::classify(last_lz4, None).is_err());
    assert!(!lz4::classify(last_lz4 - 1, None).is_err());
    let last_zst = -119_isize as usize;
    assert!(zst::classify(last_zst, None).is_err());
    assert!(!zst::classify(last_zst - 1, None).is_err());
}

// Types and names.

#[test]
fn type_enum_round_trip() {
    assert_eq!(type_enum(0x2b_9ee0), Some(CompressType::Uncompressed));
    assert_eq!(type_enum(0x7_3420), Some(CompressType::Bz2));
    assert_eq!(type_enum(0x3470), Some(CompressType::Gz));
    assert_eq!(type_enum(0x20_68c1), Some(CompressType::Lz4));
    assert_eq!(type_enum(0x5_27a0), Some(CompressType::Zst));
    assert_eq!(type_enum(0x3580), Some(CompressType::Xz));
}

#[test]
fn type_enum_unknown_returns_none() {
    assert_eq!(type_enum(0xDEAD_BEEF), None);
}

#[test]
fn type_from_name_picks_extension() {
    assert_eq!(type_from_name("file"), CompressType::Uncompressed);
    assert_eq!(type_from_name("file.gz"), CompressType::Gz);
    assert_eq!(type_from_name("file.bz2"), CompressType::Bz2);
    assert_eq!(type_from_name("file.lz4"), CompressType::Lz4);
    assert_eq!(type_from_name("file.zst"), CompressType::Zst);
    assert_eq!(type_from_name("file.xz"), CompressType::Xz);
}

#[test]
fn type_from_name_unrecognized_returns_none() {
    assert_eq!(type_from_name("file.txt"), CompressType::Uncompressed);
    assert_eq!(type_from_name("file.7z"), CompressType::Uncompressed);
}

#[test]
fn a_stored_name_gives_its_type_back() {
    for ty in [
        CompressType::Uncompressed,
        CompressType::Bz2,
        CompressType::Gz,
        CompressType::Lz4,
        CompressType::Zst,
        CompressType::Xz,
    ] {
        let name = format!("pg_data/base/1/1259{}", type_extension(ty));
        assert_eq!(type_from_name(&name), ty);
    }
}

// Packed parameter lists.

#[test]
fn compress_param_list_level_1_raw_false() {
    assert_eq!(compress_param_list_bytes(1, false), vec![0x38, 0x02, 0x00]);
}

#[test]
fn compress_param_list_level_1_raw_true() {
    assert_eq!(compress_param_list_bytes(1, true), vec![0x38, 0x02, 0x28, 0x00]);
}

#[test]
fn compress_param_list_level_0_raw_true() {
    assert_eq!(compress_param_list_bytes(0, true), vec![0x29, 0x00]);
}

#[test]
fn compress_param_list_level_9_raw_false() {
    assert_eq!(compress_param_list_bytes(9, false), vec![0x38, 0x12, 0x00]);
}

#[test]
fn compress_param_list_level_negative() {
    assert_eq!(compress_param_list_bytes(-1, false), vec![0x34, 0x00]);
}

#[test]
fn decompress_param_list_raw_false() {
    assert_eq!(decompress_param_list_bytes(false), vec![0x00]);
}

#[test]
fn decompress_param_list_raw_true() {
    assert_eq!(decompress_param_list_bytes(true), vec![0x28, 0x00]);
}

#[test]
fn param_lists_at_the_ends_of_the_range() {
    assert_eq!(compress_param_list_bytes(0, false), vec![0x00]);
    assert_eq!(compress_param_list_bytes(-5, false), vec![0x38, 0x09, 0x00]);
    assert_eq!(compress_param_list_bytes(64, true), vec![0x38, 0x80, 0x01, 0x28, 0x00]);
    assert_eq!(compress_param_list_bytes(i32::MAX, false), vec![0x38, 0xfe, 0xff, 0xff, 0xff, 0x0f, 0x00]);
    assert_eq!(compress_param_list_bytes(i32::MIN, false), vec![0x38, 0xff, 0xff, 0xff, 0xff, 0x0f, 0x00]);
}

// Setting up a codec.

#[test]
fn invalid_level_rejected() {
    match bz2::compress::Compress::new(0) {
        Ok(_) => panic!("level 0 should be rejected"),
        Err(code) => assert_eq!(code, -2, "BZ_PARAM_ERROR"),
    }
    match bz2::compress::Compress::new(10) {
        Ok(_) => panic!("level 10 should be rejected"),
        Err(code) => assert_eq!(code, -2, "BZ_PARAM_ERROR"),
    }
}

#[test]
fn deflate_init_rejects_invalid_level() {
    match gz::compress::Compress::new(99, false) {
        Ok(_) => panic!("expected error for invalid level"),
        Err(code) => assert_eq!(code, libz_sys::Z_STREAM_ERROR),
    }
}

#[test]
fn every_known_level_is_accepted() {
    for level in -1..=9 {
        assert!(gz::compress::Compress::new(level, true).is_ok());
    }
    for level in 1..=9 {
        assert!(bz2::compress::Compress::new(level).is_ok());
    }
    assert!(gz::compress::Compress::new(-2, false).is_err());
}

#[test]
fn mem_level_constant_matches_c_header() {
    assert_eq!(gz::compress::MEM_LEVEL, 9);
    assert_eq!(gz::compress::WINDOW_BITS, 15);
    assert_eq!(gz::compress::WANT_GZ, 16);
}

#[test]
fn window_constants_match_c_header() {
    assert_eq!(gz::compress::WINDOW_BITS, 15);
    assert_eq!(gz::compress::WANT_GZ, 16);
    assert_eq!(gz::compress::window_bits(true), 15);
    assert_eq!(gz::compress::window_bits(false), 31);
    assert_eq!(gz::decompress::Decompress::new(false).window_bits, 31);
}

#[test]
fn modes_and_codes_are_those_of_the_libraries() {
    let stream = gz::compress::Compress::new(6, false).unwrap();
    assert_eq!(stream.flush_mode(false), libz_sys::Z_NO_FLUSH);
    assert_eq!(stream.flush_mode(true), libz_sys::Z_FINISH);
    assert_eq!(gz::error::Z_OK, libz_sys::Z_OK);
    assert_eq!(gz::error::Z_STREAM_END, libz_sys::Z_STREAM_END);
    let stream = bz2::compress::Compress::new(6).unwrap();
    assert_eq!(stream.action(false), bzip2_sys::BZ_RUN);
    assert_eq!(stream.action(true), bzip2_sys::BZ_FINISH);
    assert_eq!(bz2::compress::BZ_STREAM_END, bzip2_sys::BZ_STREAM_END);
    assert_eq!(bz2::compress::BZ_RUN_OK, bzip2_sys::BZ_RUN_OK);
    assert_eq!(bz2::compress::BZ_FLUSH_OK, bzip2_sys::BZ_FLUSH_OK);
    assert_eq!(bz2::compress::BZ_FINISH_OK, bzip2_sys::BZ_FINISH_OK);
    assert_eq!(bz2::compress::BZ_PARAM_ERROR, bzip2_sys::BZ_PARAM_ERROR);
}

#[test]
fn level_getter() {
    let comp = lz4::compress::Compress::new(7, false).started(0).unwrap();
    assert_eq!(comp.level(), 7);
}

#[test]
fn a_negative_level_is_kept() {
    let comp = lz4::compress::Compress::new(-5, true);
    assert_eq!(comp.level(), -5);
    assert_eq!(comp.compression_level, 0xffff_fffb);
    assert!(!comp.content_checksum);
}

#[test]
fn a_codec_that_cannot_be_set_up_hands_its_code_on() {
    assert_eq!(gz::compress::Compress::new(6, false).unwrap().started(-4), Err(-4));
    assert_eq!(gz::decompress::Decompress::new(true).started(-6), Err(-6));
    assert_eq!(bz2::compress::Compress::new(9).unwrap().started(-3), Err(-3));
    assert_eq!(bz2::decompress::Decompress::new(-9), Err(-9));
    let code = -9_isize as usize;
    assert_eq!(lz4::compress::Compress::new(1, false).started(code), Err(code));
    assert_eq!(lz4::decompress::Decompress::new(code), Err(code));
    assert_eq!(zst::compress::Compress::new(3, true, code), Err(code));
    assert_eq!(zst::compress::Compress::new(3, false, 0), Err(usize::MAX));
    assert_eq!(zst::decompress::Decompress::new(false, 0), Err(usize::MAX));
    assert!(zst::decompress::Decompress::new(true, 0).is_ok());
}

// One call of a codec.

fn counts(in_before: u32, in_after: u32, out_before: u32, out_after: u32) -> StreamCounts {
    StreamCounts { in_before, in_after, out_before, out_after }
}

#[test]
fn a_call_is_read_off_its_counts_and_its_code() {
    let stream = gz::compress::Compress::new(6, false).unwrap();
    let done = stream.deflate_tick(&counts(10, 4, 100, 77), 0).unwrap();
    assert_eq!((done.written, done.consumed, done.stream_end), (23, 6, false));
    assert!(stream.deflate_tick(&counts(0, 0, 100, 92), 1).unwrap().stream_end);
    assert_eq!(stream.deflate_tick(&counts(0, 0, 100, 100), -5), Err(-5));

    let stream = gz::decompress::Decompress::new(false);
    assert!(stream.inflate_tick(&counts(5, 0, 9, 0), 1).unwrap().stream_end);
    assert_eq!(stream.inflate_tick(&counts(5, 5, 9, 9), -3), Err(-3));

    let stream = bz2::compress::Compress::new(9).unwrap();
    for code in [1, 2, 3] {
        assert!(!stream.compress_tick(&counts(5, 0, 9, 9), code).unwrap().stream_end);
    }
    assert!(stream.compress_tick(&counts(0, 0, 9, 0), 4).unwrap().stream_end);
    assert_eq!(stream.compress_tick(&counts(0, 0, 9, 9), 0), Err(0));

    let stream = bz2::decompress::Decompress::new(0).unwrap();
    assert!(!stream.decompress_tick(&counts(5, 0, 9, 9), 0).unwrap().stream_end);
    assert!(stream.decompress_tick(&counts(5, 0, 9, 1), 4).unwrap().stream_end);
    assert_eq!(stream.decompress_tick(&counts(5, 0, 9, 1), 3), Err(3));
}

#[test]
fn a_call_of_the_framed_codecs_is_read_off_its_code() {
    let error = -16_isize as usize;
    let stream = lz4::compress::Compress::new(1, false);
    assert_eq!(stream.compress_begin(15), Ok(15));
    assert_eq!(stream.compress_update(0), Ok(0));
    assert_eq!(stream.compress_end(error), Err(error));
    let stream = lz4::decompress::Decompress::new(0).unwrap();
    assert_eq!(stream.decompress_tick(7, 9, 0).unwrap().hint, 0);
    assert_eq!(stream.decompress_tick(7, 9, error), Err(error));
    let stream = zst::compress::Compress::new(3, true, 0).unwrap();
    assert_eq!(stream.compress_stream(7, 9, 131_072).unwrap().consumed, 9);
    assert_eq!(stream.end_stream(7, 12).unwrap().remaining, 12);
    assert_eq!(stream.end_stream(7, error), Err(error));
    let stream = zst::decompress::Decompress::new(true, 0).unwrap();
    assert_eq!(stream.decompress_stream(7, 9, 3).unwrap().hint, 3);
    assert_eq!(stream.decompress_stream(7, 9, error), Err(error));
}

#[test]
fn a_buffer_is_offered_in_32_bits() {
    assert_eq!(avail(0), 0);
    assert_eq!(avail(65_536), 65_536);
    assert_eq!(avail(usize::MAX), u32::MAX);
}

// Filters.

#[test]
fn gz_filter_names() {
    assert_eq!(GzCompress::new(1, false).name(), "gz-compress");
    assert_eq!(GzDecompress::new(false).name(), "gz-decompress");
}

#[test]
fn bz2_filter_names() {
    assert_eq!(Bz2Compress::new(1).name(), "bz2-compress");
    assert_eq!(Bz2Decompress::new().name(), "bz2-decompress");
}

#[test]
fn lz4_filter_names() {
    assert_eq!(Lz4Compress::new(1, false).name(), "lz4-compress");
    assert_eq!(Lz4Decompress::new().name(), "lz4-decompress");
}

#[test]
fn zst_filter_names() {
    assert_eq!(ZstCompress::new(1).name(), "zst-compress");
    assert_eq!(ZstDecompress::new().name(), "zst-decompress");
}

#[test]
fn a_filter_takes_its_whole_input_first() {
    let mut filter = GzCompress::new(6, false);
    let mut out = vec![9];
    filter.process(b"the quick ", &mut out).unwrap();
    filter.process(b"brown fox", &mut out).unwrap();
    assert_eq!(filter.pending, b"the quick brown fox");
    assert_eq!(out, vec![9]);
    let mut filter = ZstDecompress::default();
    filter.process(&[1, 2, 3], &mut out).unwrap();
    assert_eq!(filter.pending, vec![1, 2, 3]);
    assert!(Bz2Decompress::default().pending.is_empty());
    assert!(Lz4Decompress::default().pending.is_empty());
}

/// Drives a run whose codec copies at most `step` bytes a call and adds a mark at the
/// end.
fn copy_through(mut run: EncodeRun, input: &[u8], step: usize) -> Vec<u8> {
    let mut out = Vec::new();
    loop {
        match run.next() {
            Call::Feed { from } => {
                let end = (from + step).min(input.len());
                let buf = input[from..end].to_vec();
                run = run.fed(tick(buf.len(), end - from, false), &buf, &mut out).unwrap();
            }
            Call::Flush => {
                run = run.flushed(tick(1, 0, true), &vec![b'!', 0], &mut out).unwrap();
            }
            Call::Done => return out,
        }
    }
}

#[test]
fn a_compressing_run_feeds_everything_before_it_flushes() {
    let mut filter = GzCompress::new(6, false);
    filter.process(b"abcdefg", &mut Vec::new()).unwrap();
    let run = filter.finish(0).unwrap();
    assert_eq!(copy_through(run, &filter.pending, 3), b"abcdefg!");
    let empty = Bz2Compress::new(9);
    assert_eq!(copy_through(empty.finish(0).unwrap(), &[], 3), b"!");
    let zst = ZstCompress::new(3);
    assert_eq!(zst.finish(true, 0).unwrap().next(), Call::Flush);
}

#[test]
fn a_compressing_run_fails_as_its_codec_does() {
    let buf = vec![0; 8];
    let mut out = Vec::new();
    let mut filter = GzCompress::new(6, false);
    filter.process(b"abc", &mut out).unwrap();
    assert_eq!(message(filter.finish(-4)), "gz compress init failed: zlib code -4");
    assert_eq!(message(GzCompress::new(99, false).finish(0)), "gz compress init failed: zlib code -2");
    let run = || filter.finish(0).unwrap();
    assert_eq!(message(run().fed(Err(Code::Signed(-5)), &buf, &mut out)), "gz deflate failed: zlib code -5");
    assert_eq!(message(run().fed(tick(0, 0, false), &buf, &mut out)), "gz deflate made no progress");
    let fed = run().fed(tick(2, 3, false), &buf, &mut out).unwrap();
    assert_eq!(message(fed.flushed(Err(Code::Signed(-2)), &buf, &mut out)), "gz deflate flush failed: zlib code -2");
    assert_eq!(out, vec![0, 0]);

    let mut filter = Bz2Compress::new(9);
    filter.process(b"abc", &mut out).unwrap();
    assert_eq!(message(filter.finish(-3)), "bz2 compress init failed: libbz2 code -3");
    assert_eq!(message(Bz2Compress::new(0).finish(0)), "bz2 compress init failed: libbz2 code -2");
    let run = || filter.finish(0).unwrap();
    assert_eq!(message(run().fed(Err(Code::Signed(-1)), &buf, &mut out)), "bz2 compress failed: libbz2 code -1");
    assert_eq!(message(run().fed(tick(0, 0, false), &buf, &mut out)), "bz2 compress made no progress");
    let fed = run().fed(tick(0, 3, false), &buf, &mut out).unwrap();
    assert_eq!(message(fed.flushed(Err(Code::Signed(-1)), &buf, &mut out)), "bz2 compress flush failed: libbz2 code -1");

    let mut filter = ZstCompress::new(3);
    filter.process(b"abc", &mut out).unwrap();
    assert_eq!(
        message(filter.finish(false, 0)),
        format!("zst compress init failed: libzstd code {}", usize::MAX)
    );
    let run = || filter.finish(true, 0).unwrap();
    assert_eq!(
        message(run().fed(Err(Code::Unsigned(usize::MAX - 9)), &buf, &mut out)),
        format!("zst compress failed: libzstd code {}", usize::MAX - 9)
    );
    assert_eq!(message(run().fed(tick(0, 0, false), &buf, &mut out)), "zst compress made no progress");
    let fed = run().fed(tick(0, 3, false), &buf, &mut out).unwrap();
    assert_eq!(
        message(fed.flushed(Err(Code::Unsigned(usize::MAX)), &buf, &mut out)),
        format!("zst compress end failed: libzstd code {}", usize::MAX)
    );
}

fn truncated(run: DecodeRun) -> String {
    let mut out = Vec::new();
    assert_eq!(run.next(), Call::Feed { from: 0 });
    let run = run.fed(tick(2, 1, false), &vec![7, 8, 9], &mut out).unwrap();
    assert_eq!(run.next(), Call::Feed { from: 1 });
    assert_eq!(out, vec![7, 8]);
    message(run.fed(tick(0, 0, false), &vec![], &mut out))
}

#[test]
fn a_decompressing_run_fails_on_a_truncated_input() {
    let mut gz = GzDecompress::new(false);
    gz.process(b"x", &mut Vec::new()).unwrap();
    assert_eq!(truncated(gz.finish(0).unwrap()), "gz inflate truncated or made no progress");
    let mut bz2 = Bz2Decompress::new();
    bz2.process(b"x", &mut Vec::new()).unwrap();
    assert_eq!(truncated(bz2.finish(0).unwrap()), "bz2 decompress truncated or made no progress");
    let mut lz4 = Lz4Decompress::new();
    lz4.process(b"x", &mut Vec::new()).unwrap();
    assert_eq!(truncated(lz4.finish(0).unwrap()), "lz4 decompress truncated or made no progress");
    let mut zst = ZstDecompress::new();
    zst.process(b"x", &mut Vec::new()).unwrap();
    assert_eq!(truncated(zst.finish(true, 0).unwrap()), "zst decompress truncated or made no progress");
}

fn broken(run: DecodeRun, code: Code) -> String {
    message(run.fed(Err(code), &vec![], &mut Vec::new()))
}

#[test]
fn a_decompressing_run_fails_as_its_codec_does() {
    let gz = GzDecompress::new(true);
    assert_eq!(message(gz.finish(-2)), "gz decompress init failed: zlib code -2");
    assert_eq!(broken(gz.finish(0).unwrap(), Code::Signed(-3)), "gz inflate failed: zlib code -3");
    let bz2 = Bz2Decompress::new();
    assert_eq!(message(bz2.finish(-3)), "bz2 decompress init failed: libbz2 code -3");
    assert_eq!(broken(bz2.finish(0).unwrap(), Code::Signed(-5)), "bz2 decompress failed: libbz2 code -5");
    let code = usize::MAX - 8;
    let lz4 = Lz4Decompress::new();
    assert_eq!(message(lz4.finish(code)), format!("lz4 decompress init failed: liblz4 code {code}"));
    assert_eq!(
        broken(lz4.finish(0).unwrap(), Code::Unsigned(code)),
        format!("lz4 decompress failed: liblz4 code {code}")
    );
    let zst = ZstDecompress::new();
    assert_eq!(message(zst.finish(true, code)), format!("zst decompress init failed: libzstd code {code}"));
    assert_eq!(
        broken(zst.finish(true, 0).unwrap(), Code::Unsigned(code)),
        format!("zst decompress failed: libzstd code {code}")
    );
}

#[test]
fn a_decompressing_run_ends_where_the_stream_does() {
    let mut filter = Lz4Decompress::new();
    filter.process(b"framerest", &mut Vec::new()).unwrap();
    let run = filter.finish(0).unwrap();
    let mut out = Vec::new();
    let call = lz4::decompress::Decompress::new(0).unwrap().decompress_tick(0, 5, 0);
    let run = run.fed(Lz4Decompress::tick(call), &vec![], &mut out).unwrap();
    assert_eq!(run.next(), Call::Done);
}

#[test]
fn calls_of_each_codec_drive_a_run() {
    let error = usize::MAX - 3;
    let stream = gz::compress::Compress::new(6, false).unwrap();
    let call = stream.deflate_tick(&counts(10, 4, 100, 77), 1);
    assert_eq!(GzCompress::tick(call), tick(23, 6, true));
    assert_eq!(GzCompress::tick(Err(-5)), Err(Code::Signed(-5)));
    let call = gz::decompress::Decompress::new(true).inflate_tick(&counts(10, 4, 100, 77), 0);
    assert_eq!(GzDecompress::tick(call), tick(23, 6, false));
    let call = bz2::compress::Compress::new(9).unwrap().compress_tick(&counts(10, 4, 100, 77), 4);
    assert_eq!(Bz2Compress::tick(call), tick(23, 6, true));
    let call = bz2::decompress::Decompress::new(0).unwrap().decompress_tick(&counts(10, 4, 100, 77), 0);
    assert_eq!(Bz2Decompress::tick(call), tick(23, 6, false));
    let stream = zst::compress::Compress::new(3, true, 0).unwrap();
    assert_eq!(ZstCompress::tick(stream.compress_stream(7, 9, 5)), tick(7, 9, false));
    assert_eq!(ZstCompress::end_tick(stream.end_stream(7, 0)), tick(7, 0, true));
    assert_eq!(ZstCompress::end_tick(stream.end_stream(7, 2)), tick(7, 0, false));
    assert_eq!(ZstCompress::end_tick(Err(error)), Err(Code::Unsigned(error)));
    let stream = zst::decompress::Decompress::new(true, 0).unwrap();
    assert_eq!(ZstDecompress::tick(stream.decompress_stream(7, 9, 0)), tick(7, 9, true));
    assert_eq!(Lz4Decompress::tick(Err(error)), Err(Code::Unsigned(error)));
}

#[test]
fn a_frame_is_written_call_by_call() {
    let mut filter = Lz4Compress::new(1, false);
    filter.process(b"abc", &mut Vec::new()).unwrap();
    let mut run = filter.finish(0, 40).unwrap();
    assert_eq!(run.buffer_len(), 67);
    assert_eq!(run.next(), (FrameCall::Begin, 0));
    run.called(Ok(7)).unwrap();
    assert_eq!(run.next(), (FrameCall::Update, 7));
    run.called(Ok(0)).unwrap();
    assert_eq!(run.next(), (FrameCall::End, 7));
    run.called(Ok(2)).unwrap();
    assert_eq!(run.next(), (FrameCall::Done, 9));
    let mut frame = vec![0; 67];
    frame[..10].copy_from_slice(&[1, 2, 3, 4, 5, 6, 7, 8, 9, 10]);
    let mut out = vec![99];
    run.finish(&frame, &mut out);
    assert_eq!(out, vec![99, 1, 2, 3, 4, 5, 6, 7, 8, 9]);
}

#[test]
fn an_empty_frame_has_no_contents() {
    let mut run = Lz4Compress::new(1, true).finish(0, 8).unwrap();
    run.called(Ok(7)).unwrap();
    assert_eq!(run.next().0, FrameCall::End);
}

#[test]
fn a_frame_fails_as_its_codec_does() {
    let code = usize::MAX - 10;
    let mut filter = Lz4Compress::new(1, false);
    filter.process(b"abc", &mut Vec::new()).unwrap();
    assert_eq!(message(filter.finish(code, 8)), format!("lz4 compress init failed: liblz4 code {code}"));
    let mut run = filter.finish(0, 8).unwrap();
    assert_eq!(message(run.called(Err(code))), format!("lz4 compress begin failed: liblz4 code {code}"));
    run.called(Ok(7)).unwrap();
    assert_eq!(message(run.called(Err(code))), format!("lz4 compress update failed: liblz4 code {code}"));
    run.called(Ok(7)).unwrap();
    assert_eq!(message(run.called(Err(code))), format!("lz4 compress end failed: liblz4 code {code}"));
}
