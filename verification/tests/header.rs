use recallai::data::Dim;
use recallai::meta::{check_bounds, MetaHeader, MAX_SIDE, MIN_SIDE};
use recallai::rules::{RuleDataJson, RuleOpts};
use recallai::spec::{ByteCursor, VidFileHeader, BYTES_PER_PIXEL, HEADER_SIZE};
use recallai::{IoErrorKind, TranscodeError};

fn header(width: u32, height: u32, num_frames: u32) -> VidFileHeader {
    VidFileHeader { dim: Dim { width, height }, num_frames }
}

#[test]
fn header_size_is_twelve() {
    assert_eq!(VidFileHeader::get_header_size(), 12);
    assert_eq!(HEADER_SIZE, 12);
    assert_eq!(BYTES_PER_PIXEL, 3);
}

#[test]
fn header_encoding() {
    let h = header(3840, 2160, 1000);
    assert_eq!(
        h.create_header(),
        vec![0, 0, 0x0f, 0x00, 0, 0, 0x08, 0x70, 0, 0, 0x03, 0xe8]
    );
    let mut buf = [0xffu8; 12];
    h.fill_header(&mut buf);
    assert_eq!(buf.to_vec(), h.create_header());
}

#[test]
fn written_header_reads_back() {
    for h in [header(16, 16, 1), header(3840, 2160, 600), header(0, 7, u32::MAX)] {
        let bytes = h.create_header();
        let (back, tail) = VidFileHeader::open_from_buf(&bytes).unwrap();
        assert_eq!(back, h);
        assert_eq!(tail, &bytes[8..12]);
    }
}

#[test]
fn short_buffer_is_too_short() {
    let r = VidFileHeader::open_from_buf(&[0u8; 11]);
    assert!(matches!(r, Err(TranscodeError::FileTooShort)));
}

#[test]
fn header_from_longer_buffer_ignores_the_rest() {
    let mut bytes = header(20, 30, 4).create_header();
    bytes.extend_from_slice(&[1, 2, 3]);
    let (h, tail) = VidFileHeader::open_from_buf(&bytes).unwrap();
    assert_eq!(h, header(20, 30, 4));
    assert_eq!(tail, &[0, 0, 0, 4]);
}

#[test]
fn header_from_reader_advances() {
    let mut bytes = header(20, 30, 4).create_header();
    bytes.push(42);
    let mut cur = ByteCursor::new(bytes);
    let (h, n) = VidFileHeader::open_from_reader(&mut cur).unwrap();
    assert_eq!(h, header(20, 30, 4));
    assert_eq!(n, 12);
    assert_eq!(cur.pos(), 12);
    assert_eq!(cur.read_exact(1).unwrap(), vec![42]);
}

#[test]
fn reader_too_short_is_unexpected_eof() {
    let mut cur = ByteCursor::new(vec![0u8; 5]);
    let r = VidFileHeader::open_from_reader(&mut cur);
    assert!(matches!(r, Err(TranscodeError::IoErr(IoErrorKind::UnexpectedEof))));
}

#[test]
fn cursor_reads_exactly() {
    let mut cur = ByteCursor::new(vec![1, 2, 3, 4, 5]);
    assert_eq!(cur.read_exact(2).unwrap(), vec![1, 2]);
    assert_eq!(cur.read_exact(0).unwrap(), Vec::<u8>::new());
    assert_eq!(cur.pos(), 2);
    assert!(matches!(
        cur.read_exact(4),
        Err(TranscodeError::IoErr(IoErrorKind::UnexpectedEof))
    ));
    assert_eq!(cur.pos(), 5);
}

#[test]
fn header_written_check() {
    assert_eq!(VidFileHeader::check_header_written(12).unwrap(), 12);
    assert!(matches!(
        VidFileHeader::check_header_written(11),
        Err(TranscodeError::ProblemWritingToFile)
    ));
}

#[test]
fn bounds_are_checked() {
    let min = Dim { width: MIN_SIDE, height: MIN_SIDE };
    let max = Dim { width: MAX_SIDE, height: MAX_SIDE };
    assert!(check_bounds(&Dim { width: 16, height: 16384 }, (&min, &max)).is_ok());
    assert!(matches!(
        check_bounds(&Dim { width: 15, height: 20 }, (&min, &max)),
        Err(TranscodeError::UnsupportedFrameDimensionsTooSmall { width: 15, height: 20 })
    ));
    assert!(matches!(
        check_bounds(&Dim { width: 20, height: 16385 }, (&min, &max)),
        Err(TranscodeError::UnsupportedFrameDimensionsTooBig { width: 20, height: 16385 })
    ));
    // too small wins over too big
    assert!(matches!(
        check_bounds(&Dim { width: 1, height: 20000 }, (&min, &max)),
        Err(TranscodeError::UnsupportedFrameDimensionsTooSmall { .. })
    ));
}

#[test]
fn meta_header_from_valid_header() {
    let mh = MetaHeader::from_vid_header(header(3840, 2160, 3)).unwrap();
    assert_eq!(mh.dim(), Dim { width: 3840, height: 2160 });
    assert_eq!(mh.num_frames(), 3);
    assert_eq!(mh.frame_size(), 3840 * 2160 * 3);
}

#[test]
fn meta_header_refuses_unsupported_sizes() {
    assert!(matches!(
        MetaHeader::from_vid_header(header(8, 8, 1)),
        Err(TranscodeError::UnsupportedFrameDimensionsTooSmall { width: 8, height: 8 })
    ));
    assert!(matches!(
        MetaHeader::from_vid_header(header(16385, 16, 1)),
        Err(TranscodeError::UnsupportedFrameDimensionsTooBig { width: 16385, height: 16 })
    ));
}

#[test]
fn meta_header_from_reader() {
    let mut bytes = header(32, 16, 9).create_header();
    bytes.extend_from_slice(&[0u8; 10]);
    let mut cur = ByteCursor::new(bytes);
    let mh = MetaHeader::from_reader(&mut cur).unwrap();
    assert_eq!(mh.dim(), Dim { width: 32, height: 16 });
    assert_eq!(mh.num_frames(), 9);
    assert_eq!(mh.frame_size(), 32 * 16 * 3);
    assert_eq!(cur.pos(), 12);

    let mut bad = ByteCursor::new(header(4, 4, 1).create_header());
    assert!(matches!(
        MetaHeader::from_reader(&mut bad),
        Err(TranscodeError::UnsupportedFrameDimensionsTooSmall { width: 4, height: 4 })
    ));
    let mut short = ByteCursor::new(vec![0u8; 3]);
    assert!(matches!(
        MetaHeader::from_reader(&mut short),
        Err(TranscodeError::IoErr(IoErrorKind::UnexpectedEof))
    ));
}

#[test]
fn header_of_metadata() {
    let mh = MetaHeader::from_vid_header(header(640, 480, 25)).unwrap();
    assert_eq!(VidFileHeader::from(mh), header(640, 480, 25));
}

#[test]
fn read_header_reports_its_sizes() {
    let mut cur = ByteCursor::new(vec![0, 0, 0, 8, 0, 0, 0, 16, 0, 0, 0, 1]);
    assert!(matches!(
        MetaHeader::from_reader(&mut cur),
        Err(TranscodeError::UnsupportedFrameDimensionsTooSmall { width: 8, height: 16 })
    ));
    let mut cur = ByteCursor::new(header(20000, 16, 1).create_header());
    assert!(matches!(
        MetaHeader::from_reader(&mut cur),
        Err(TranscodeError::UnsupportedFrameDimensionsTooBig { width: 20000, height: 16 })
    ));
}

#[test]
fn read_header_with_rules_reports_its_sizes() {
    let rules = || RuleOpts::default().with_json(RuleDataJson { size: [8, 8], rects: vec![] }).unwrap();
    let mut cur = ByteCursor::new(header(8, 16, 1).create_header());
    assert!(matches!(
        MetaHeader::from_reader_and_partial_rules(&mut cur, rules()),
        Err(TranscodeError::UnsupportedFrameDimensionsTooSmall { width: 8, height: 16 })
    ));
    let mut cur = ByteCursor::new(header(32, 20000, 1).create_header());
    assert!(matches!(
        MetaHeader::from_reader_and_partial_rules(&mut cur, rules()),
        Err(TranscodeError::UnsupportedFrameDimensionsTooBig { width: 32, height: 20000 })
    ));
}
