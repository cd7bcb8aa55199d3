use vstd::prelude::*;

use crate::data::Dim;
use crate::meta::MetaHeader;
use crate::transcoder::seek_pos;
use crate::util::zero_padded_text;

verus! {

/// The error type of the image crate (`image::ImageError`), carried through as an opaque
/// value.
#[verifier::external_type_specification]
#[verifier::external_body]
pub struct ExImageError(image::ImageError);

/// The JPEG file that encoding `rgb`, a `width` by `height` image of 8-bit red, green, blue
/// samples, gives at `quality`.
pub uninterp spec fn jpeg_bytes(rgb: Seq<u8>, width: u32, height: u32, quality: u8) -> Seq<u8>;

/// Encodes an RGB image as a JPEG file in memory (`image::codecs::jpeg::JpegEncoder`,
/// `new_with_quality` then `encode` with `ExtendedColorType::Rgb8`). The encoder panics
/// unless the buffer holds exactly `width * height` pixels, and refuses a side of zero or
/// above 65535; writing into a `Vec` cannot fail, so within those limits it succeeds.
#[verifier::external_body]
fn encode_jpeg(rgb: &[u8], width: u32, height: u32, quality: u8) -> (r: Result<Vec<u8>, image::ImageError>)
    requires
        rgb@.len() == width * height * 3,
    ensures
        r is Ok <==> (1 <= width <= 65535 && 1 <= height <= 65535),
        r matches Ok(v) ==> v@ == jpeg_bytes(rgb@, width, height, quality),
{
    let mut out: Vec<u8> = Vec::new();
    let encoded = image::codecs::jpeg::JpegEncoder::new_with_quality(&mut out, quality).encode(
        rgb,
        width,
        height,
        image::ExtendedColorType::Rgb8,
    );
    match encoded {
        Ok(()) => Ok(out),
        Err(e) => Err(e),
    }
}

/// The red, green, blue samples of a stored frame, whose pixels are kept as (blue, red,
/// green).
pub open spec fn rgb_of_frame(frame: Seq<u8>) -> Seq<u8> {
    Seq::new(
        frame.len(),
        |i: int|
            {
                let p = i - i % 3;
                if i % 3 == 0 {
                    frame[p + 1]
                } else if i % 3 == 1 {
                    frame[p + 2]
                } else {
                    frame[p]
                }
            },
    )
}

/// Reorders the samples of a stored frame into red, green, blue.
pub fn frame_to_rgb(frame: &[u8]) -> (r: Vec<u8>)
    requires
        frame@.len() % 3 == 0,
    ensures
        r@ == rgb_of_frame(frame@),
{
    let n = frame.len();
    let mut out: Vec<u8> = Vec::new();
    let mut i: usize = 0;
    while i < n
        invariant
            n == frame@.len(),
            n % 3 == 0,
            i % 3 == 0,
            i <= n,
            out@.len() == i,
            forall|k: int| 0 <= k < i ==> out@[k] == #[trigger] rgb_of_frame(frame@)[k],
        decreases n - i,
    {
        out.push(frame[i + 1]);
        out.push(frame[i + 2]);
        out.push(frame[i]);
        proof {
            assert(rgb_of_frame(frame@)[i as int] == frame@[i + 1]);
            assert(rgb_of_frame(frame@)[i + 1] == frame@[i + 2]);
            assert(rgb_of_frame(frame@)[i + 2] == frame@[i as int]);
        }
        i = i + 3;
    }
    assert(out@ =~= rgb_of_frame(frame@));
    out
}

/// The JPEG file of one stored frame of size `dim`.
pub fn frame_jpeg(dim: Dim, frame: &[u8], quality: u8) -> (r: Vec<u8>)
    requires
        crate::meta::dims_supported(dim),
        frame@.len() == dim.width * dim.height * 3,
    ensures
        r@ == jpeg_bytes(rgb_of_frame(frame@), dim.width, dim.height, quality),
{
    proof {
        assert(frame@.len() % 3 == 0) by (nonlinear_arith)
            requires
                frame@.len() == dim.width * dim.height * 3,
        ;
    }
    let rgb = frame_to_rgb(frame);
    match encode_jpeg(rgb.as_slice(), dim.width, dim.height, quality) {
        Ok(v) => v,
        Err(_) => {
            assert(false);
            Vec::new()
        },
    }
}

/// The file that frame `fr` is written to in directory `out_path`: its number, zero-padded
/// to four digits, with the extension ".jpg".
pub open spec fn frame_file_path(out_path: Seq<char>, fr: nat) -> Seq<char> {
    out_path + "/"@ + crate::util::zero_padded(fr, 4) + ".jpg"@
}

/// The file that frame `fr` is written to in directory `out_path`.
pub fn frame_file_name(out_path: &str, fr: u64) -> (r: String)
    ensures
        r@ == frame_file_path(out_path@, fr as nat),
{
    proof {
        reveal_strlit("/");
        reveal_strlit(".jpg");
    }
    let num = zero_padded_text(fr, 4);
    String::from_str(out_path).concat("/").concat(num.as_str()).concat(".jpg")
}

/// Where frame `start` begins in a video with header `md`: after the header and the frames
/// before it.
pub fn frame_offset(md: &MetaHeader, start: u32) -> (r: u64)
    ensures
        r == 12 + md.spec_frame_size() * start,
{
    let fs = md.frame_size();
    proof {
        assert(fs <= 805306368) by (nonlinear_arith)
            requires
                fs == md.spec_dim().width * md.spec_dim().height * 3,
                md.spec_dim().width <= 16384,
                md.spec_dim().height <= 16384,
        ;
        assert(fs * start <= 805306368 * 4294967295) by (nonlinear_arith)
            requires
                fs <= 805306368,
                start <= 4294967295,
        ;
    }
    seek_pos(fs, start)
}

} // verus!
