use vstd::prelude::*;

use crate::data::Dim;
use crate::spec::{ByteCursor, VidFileHeader};
use crate::{IoErrorKind, TranscodeError};

verus! {

/// Smallest supported width and height.
pub const MIN_SIDE: u32 = 16;

/// Largest supported width and height (768MB per frame).
pub const MAX_SIDE: u32 = 16384;

/// Below this size a frame is not supported.
pub open spec fn min_dim() -> Dim {
    Dim { width: MIN_SIDE, height: MIN_SIDE }
}

/// Above this size a frame is not supported.
pub open spec fn max_dim() -> Dim {
    Dim { width: MAX_SIDE, height: MAX_SIDE }
}

/// What `check_bounds` answers for a target size and a pair of bounds.
pub open spec fn bounds_result(tgt: Dim, min: Dim, max: Dim) -> BoundsVerdict {
    if tgt.width < min.width || tgt.height < min.height {
        BoundsVerdict::TooSmall
    } else if tgt.width > max.width || tgt.height > max.height {
        BoundsVerdict::TooBig
    } else {
        BoundsVerdict::Within
    }
}

/// The outcome of a bounds check.
#[derive(PartialEq, Eq, Structural)]
pub enum BoundsVerdict {
    TooSmall,
    TooBig,
    Within,
}

/// Whether a frame size lies within the supported bounds.
pub open spec fn dims_supported(d: Dim) -> bool {
    bounds_result(d, min_dim(), max_dim()) == BoundsVerdict::Within
}

/// Checks that `tgt` lies within the bounds `(min, max)`.
pub fn check_bounds(tgt: &Dim, bounds: (&Dim, &Dim)) -> (r: Result<(), TranscodeError>)
    ensures
        bounds_result(*tgt, *bounds.0, *bounds.1) == BoundsVerdict::TooSmall <==> (r matches Err(
            TranscodeError::UnsupportedFrameDimensionsTooSmall { width, height },
        ) && width == tgt.width && height == tgt.height),
        bounds_result(*tgt, *bounds.0, *bounds.1) == BoundsVerdict::TooBig <==> (r matches Err(
            TranscodeError::UnsupportedFrameDimensionsTooBig { width, height },
        ) && width == tgt.width && height == tgt.height),
        bounds_result(*tgt, *bounds.0, *bounds.1) == BoundsVerdict::Within <==> r is Ok,
{
    let (min, max) = bounds;
    if tgt.width < min.width || tgt.height < min.height {
        Err(TranscodeError::UnsupportedFrameDimensionsTooSmall { width: tgt.width, height: tgt.height })
    } else if tgt.width > max.width || tgt.height > max.height {
        Err(TranscodeError::UnsupportedFrameDimensionsTooBig { width: tgt.width, height: tgt.height })
    } else {
        Ok(())
    }
}

/// The validated metadata of a video: its frame size, the number of frames, and the
/// number of bytes of one frame. Only the library builds one, from a validated header.
#[derive(Debug, Copy, Clone)]
pub struct MetaHeader {
    dim: Dim,
    num_frames: u32,
    frame_size: usize,
}

impl MetaHeader {
    #[verifier::type_invariant]
    spec fn inv(self) -> bool {
        &&& dims_supported(self.dim)
        &&& self.frame_size == self.dim.width * self.dim.height * 3
    }

    /// The frame size.
    pub closed spec fn spec_dim(&self) -> Dim {
        self.dim
    }

    /// The number of frames.
    pub closed spec fn spec_num_frames(&self) -> u32 {
        self.num_frames
    }

    /// The number of bytes of one frame.
    pub closed spec fn spec_frame_size(&self) -> usize {
        self.frame_size
    }

    /// The frame size, which lies within the supported bounds.
    pub fn dim(&self) -> (r: Dim)
        ensures
            r == self.spec_dim(),
            dims_supported(r),
            self.spec_frame_size() == r.width * r.height * 3,
    {
        proof {
            use_type_invariant(self);
        }
        self.dim
    }

    /// The number of frames.
    pub fn num_frames(&self) -> (r: u32)
        ensures
            r == self.spec_num_frames(),
    {
        self.num_frames
    }

    /// The number of bytes of one frame: width times height times three.
    pub fn frame_size(&self) -> (r: usize)
        ensures
            r == self.spec_frame_size(),
            dims_supported(self.spec_dim()),
            r == self.spec_dim().width * self.spec_dim().height * 3,
    {
        proof {
            use_type_invariant(self);
        }
        self.frame_size
    }

    /// Validates a decoded header.
    pub fn from_vid_header(vid_file_header: VidFileHeader) -> (r: Result<MetaHeader, TranscodeError>)
        ensures
            r is Ok <==> dims_supported(vid_file_header.dim),
            r matches Ok(mh) ==> mh.spec_dim() == vid_file_header.dim
                && mh.spec_num_frames() == vid_file_header.num_frames
                && mh.spec_frame_size() == vid_file_header.dim.width * vid_file_header.dim.height * 3,
            bounds_result(vid_file_header.dim, min_dim(), max_dim()) == BoundsVerdict::TooSmall ==> (r matches Err(
                TranscodeError::UnsupportedFrameDimensionsTooSmall { width, height },
            ) && width == vid_file_header.dim.width && height == vid_file_header.dim.height),
            bounds_result(vid_file_header.dim, min_dim(), max_dim()) == BoundsVerdict::TooBig ==> (r matches Err(
                TranscodeError::UnsupportedFrameDimensionsTooBig { width, height },
            ) && width == vid_file_header.dim.width && height == vid_file_header.dim.height),
    {
        let min = Dim { width: MIN_SIDE, height: MIN_SIDE };
        let max = Dim { width: MAX_SIDE, height: MAX_SIDE };
        match check_bounds(&vid_file_header.dim, (&min, &max)) {
            Ok(()) => {},
            Err(e) => {
                return Err(e);
            },
        }
        let d = vid_file_header.dim;
        proof {
            assert(d.width * d.height <= 16384 * 16384) by (nonlinear_arith)
                requires
                    d.width <= 16384,
                    d.height <= 16384,
            ;
            crate::data::lemma_product_fits(d.width as int, d.height as int, 3);
        }
        let frame_size = d.calc_size();
        Ok(MetaHeader { dim: d, num_frames: vid_file_header.num_frames, frame_size })
    }

    /// Reads and validates the metadata at the reader's position; the position then stands
    /// on the first byte after the header.
    pub fn from_reader(reader: &mut ByteCursor) -> (r: Result<MetaHeader, TranscodeError>)
        ensures
            final(reader).bytes() == old(reader).bytes(),
            old(reader).position() + 12 > old(reader).bytes().len() ==> (r matches Err(
                TranscodeError::IoErr(k),
            ) && k == IoErrorKind::UnexpectedEof),
            old(reader).position() + 12 <= old(reader).bytes().len() ==> {
                let h = crate::spec::parse_header(
                    old(reader).bytes().subrange(
                        old(reader).position() as int,
                        old(reader).bytes().len() as int,
                    ),
                );
                &&& final(reader).position() == old(reader).position() + 12
                &&& (r is Ok <==> dims_supported(h.dim))
                &&& r matches Ok(mh) ==> mh.spec_dim() == h.dim && mh.spec_num_frames()
                    == h.num_frames
                &&& bounds_result(h.dim, min_dim(), max_dim()) == BoundsVerdict::TooSmall ==> (r matches Err(
                    TranscodeError::UnsupportedFrameDimensionsTooSmall { width, height },
                ) && width == h.dim.width && height == h.dim.height)
                &&& bounds_result(h.dim, min_dim(), max_dim()) == BoundsVerdict::TooBig ==> (r matches Err(
                    TranscodeError::UnsupportedFrameDimensionsTooBig { width, height },
                ) && width == h.dim.width && height == h.dim.height)
            },
    {
        let (file_header, _) = match VidFileHeader::open_from_reader(reader) {
            Ok(v) => v,
            Err(e) => {
                return Err(e);
            },
        };
        MetaHeader::from_vid_header(file_header)
    }
}

/// The header that describes validated metadata.
impl From<MetaHeader> for VidFileHeader {
    fn from(peer: MetaHeader) -> (r: Self) {
        VidFileHeader { dim: peer.dim, num_frames: peer.num_frames }
    }
}

impl vstd::std_specs::convert::FromSpecImpl<MetaHeader> for VidFileHeader {
    open spec fn obeys_from_spec() -> bool {
        true
    }

    open spec fn from_spec(v: MetaHeader) -> VidFileHeader {
        VidFileHeader { dim: v.spec_dim(), num_frames: v.spec_num_frames() }
    }
}

} // verus!

verus! {

impl MetaHeader {
    /// Reads and validates the metadata at the reader's position, then binds the rules to it.
    pub fn from_reader_and_partial_rules(reader: &mut ByteCursor, partial_rules: crate::rules::PartialRules) -> (r: Result<
        (MetaHeader, crate::rules::Rules),
        TranscodeError,
    >)
        requires
            partial_rules.buildable(),
        ensures
            final(reader).bytes() == old(reader).bytes(),
            old(reader).position() + 12 > old(reader).bytes().len() ==> (r matches Err(
                TranscodeError::IoErr(k),
            ) && k == IoErrorKind::UnexpectedEof),
            old(reader).position() + 12 <= old(reader).bytes().len() ==> {
                let h = crate::spec::parse_header(
                    old(reader).bytes().subrange(
                        old(reader).position() as int,
                        old(reader).bytes().len() as int,
                    ),
                );
                &&& bounds_result(h.dim, min_dim(), max_dim()) == BoundsVerdict::TooSmall ==> (r matches Err(
                    TranscodeError::UnsupportedFrameDimensionsTooSmall { width, height },
                ) && width == h.dim.width && height == h.dim.height)
                &&& bounds_result(h.dim, min_dim(), max_dim()) == BoundsVerdict::TooBig ==> (r matches Err(
                    TranscodeError::UnsupportedFrameDimensionsTooBig { width, height },
                ) && width == h.dim.width && height == h.dim.height)
                &&& dims_supported(h.dim) ==> match partial_rules.build_error() {
                    Some(e) => r == Err::<(MetaHeader, crate::rules::Rules), TranscodeError>(e),
                    None => r is Ok,
                }
            },
            r matches Ok((mh, rules)) ==> {
                let h = crate::spec::parse_header(
                    old(reader).bytes().subrange(
                        old(reader).position() as int,
                        old(reader).bytes().len() as int,
                    ),
                );
                &&& mh.spec_dim() == h.dim
                &&& mh.spec_num_frames() == h.num_frames
                &&& rules.spec_size() == partial_rules.spec_size()
                &&& rules.spec_rects() == crate::rules::prepared_rects(
                    partial_rules.spec_rects(),
                    partial_rules.spec_size().width as int,
                    partial_rules.spec_occlude(),
                )
            },
    {
        let mh = match Self::from_reader(reader) {
            Ok(mh) => mh,
            Err(e) => {
                return Err(e);
            },
        };
        match partial_rules.build(mh) {
            Ok(rules) => Ok((mh, rules)),
            Err(e) => Err(e),
        }
    }
}


/// The supported frame sizes are exactly those with each side from 16 to 16384 pixels:
/// narrower or lower is too small, wider or higher (and not too small) is too big.
pub proof fn lemma_supported_sizes(d: Dim)
    ensures
        dims_supported(d) <==> (16 <= d.width <= 16384 && 16 <= d.height <= 16384),
        bounds_result(d, min_dim(), max_dim()) == BoundsVerdict::TooSmall <==> (d.width < 16 || d.height < 16),
        bounds_result(d, min_dim(), max_dim()) == BoundsVerdict::TooBig <==> (16 <= d.width && 16 <= d.height
            && (d.width > 16384 || d.height > 16384)),
{
}

} // verus!
