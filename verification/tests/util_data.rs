use recallai::data::{is_dash, starts_with_http, Dim, InHandle, OutHandle};
use recallai::util::{decimal_text, emit_u32_be, munch_u32_be, zero_padded_text, U32_SIZE};
use recallai::{TranscodeError, MAX_CPU_WORKERS, MAX_IO_WORKERS};

#[test]
fn word_is_written_big_endian() {
    let mut buf = [0u8; 6];
    let tail = emit_u32_be(&mut buf, 0x0102_0304);
    assert_eq!(tail.len(), 2);
    tail[0] = 9;
    assert_eq!(buf, [1, 2, 3, 4, 9, 0]);
}

#[test]
fn word_is_read_big_endian() {
    let buf = [0xde, 0xad, 0xbe, 0xef, 7];
    let (w, rest) = munch_u32_be(&buf);
    assert_eq!(w, 0xdead_beef);
    assert_eq!(rest, &[7]);
    assert_eq!(U32_SIZE, 4);
}

#[test]
fn written_word_reads_back() {
    for w in [0u32, 1, 255, 256, 0x8000_0000, u32::MAX, 1920, 1080] {
        let mut buf = [0u8; 4];
        emit_u32_be(&mut buf, w);
        let (r, rest) = munch_u32_be(&buf);
        assert_eq!(r, w);
        assert!(rest.is_empty());
    }
}

#[test]
fn decimal_text_has_no_leading_zeros() {
    assert_eq!(decimal_text(0), "0");
    assert_eq!(decimal_text(7), "7");
    assert_eq!(decimal_text(10), "10");
    assert_eq!(decimal_text(3840), "3840");
    assert_eq!(decimal_text(u64::MAX), "18446744073709551615");
}

#[test]
fn zero_padding_fills_to_width() {
    assert_eq!(zero_padded_text(7, 4), "0007");
    assert_eq!(zero_padded_text(0, 4), "0000");
    assert_eq!(zero_padded_text(1234, 4), "1234");
    assert_eq!(zero_padded_text(12345, 4), "12345");
    assert_eq!(zero_padded_text(5, 0), "5");
}

#[test]
fn dim_sizes() {
    let d = Dim { width: 3840, height: 2160 };
    assert_eq!(d.calc_size(), 3840 * 2160 * 3);
    assert_eq!(d.calc_area(1), 3840 * 2160);
    assert_eq!(d.calc_area(4), 3840 * 2160 * 4);
    assert_eq!(d.calc_stride(3), 11520);
    let z = Dim { width: 0, height: 5 };
    assert_eq!(z.calc_size(), 0);
}

#[test]
fn dash_and_http_prefix() {
    assert!(is_dash("-"));
    assert!(!is_dash("--"));
    assert!(!is_dash(""));
    assert!(starts_with_http("http://example.com"));
    assert!(starts_with_http("https://example.com"));
    assert!(starts_with_http("http"));
    assert!(!starts_with_http("htt"));
    assert!(!starts_with_http("file.rvid"));
    assert!(!starts_with_http("HTTP://x"));
}

#[test]
fn out_handle_names() {
    assert_eq!(OutHandle::from_str(String::from("-")), OutHandle::Stdout);
    assert_eq!(
        OutHandle::from_str(String::from("http://h/up")),
        OutHandle::HTTP_PUT(String::from("http://h/up"))
    );
    assert_eq!(
        OutHandle::from_str(String::from("out.rvid")),
        OutHandle::File(String::from("out.rvid"))
    );
    assert_eq!(
        OutHandle::post(String::from("http://h/up")),
        OutHandle::HTTP_POST(String::from("http://h/up"))
    );
}

#[test]
fn in_handle_names() {
    assert_eq!(InHandle::from_str(String::from("-")), InHandle::Stdin);
    assert_eq!(
        InHandle::from_str(String::from("https://h/v.rvid")),
        InHandle::HTTP_GET(String::from("https://h/v.rvid"))
    );
    assert_eq!(
        InHandle::from_str(String::from("in.rvid")),
        InHandle::File(String::from("in.rvid"))
    );
}

#[test]
fn error_messages() {
    assert_eq!(TranscodeError::JobNotFound.message(), "Job ID Not Found");
    assert_eq!(TranscodeError::QueueFull.message(), "Queue Full");
    assert_eq!(TranscodeError::FileTooShort.message(), "File too short");
    assert_eq!(TranscodeError::TooManyThreads(600).message(), "Too Many Threads");
    assert_eq!(
        TranscodeError::UnsupportedFrameDimensionsTooBig { width: 20000, height: 16 }.message(),
        "Unsupported too big Frame Dimensions 20000 16"
    );
    assert_eq!(
        TranscodeError::UnsupportedFrameDimensionsTooSmall { width: 8, height: 0 }.message(),
        "Unsupported too small Frame Dimensions 8 0"
    );
    assert_eq!(MAX_CPU_WORKERS, 512);
    assert_eq!(MAX_IO_WORKERS, 1);
}
