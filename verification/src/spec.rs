use vstd::prelude::*;

use crate::data::Dim;
use crate::util::{emit_u32_be, munch_u32_be};
use crate::{IoErrorKind, TranscodeError};

verus! {

/// Three channels, one byte per channel.
pub const BYTES_PER_PIXEL: u32 = 3;

/// Bytes in the fixed-length file header.
pub const HEADER_SIZE: usize = 12;

/// The file header, all big-endian:
/// `[width: 4 bytes] [height: 4 bytes] [total number of frames: 4 bytes]`.
#[derive(Debug, Copy, Clone, PartialEq, Eq, Structural)]
pub struct VidFileHeader {
    pub dim: Dim,
    pub num_frames: u32,
}

/// The encoding of a header.
pub open spec fn header_bytes(h: VidFileHeader) -> Seq<u8> {
    crate::util::be_bytes(h.dim.width) + crate::util::be_bytes(h.dim.height) + crate::util::be_bytes(h.num_frames)
}

/// The header that the first twelve bytes of `b` encode.
pub open spec fn parse_header(b: Seq<u8>) -> VidFileHeader
    recommends
        b.len() >= 12,
{
    VidFileHeader {
        dim: Dim {
            width: crate::util::be_value(b.subrange(0, 4)) as u32,
            height: crate::util::be_value(b.subrange(4, 8)) as u32,
        },
        num_frames: crate::util::be_value(b.subrange(8, 12)) as u32,
    }
}

/// A byte source held in memory, read front to back.
pub struct ByteCursor {
    data: Vec<u8>,
    pos: usize,
}

impl ByteCursor {
    #[verifier::type_invariant]
    spec fn inv(self) -> bool {
        self.pos <= self.data@.len()
    }

    /// All bytes of the source.
    pub closed spec fn bytes(&self) -> Seq<u8> {
        self.data@
    }

    /// How many bytes have been consumed.
    pub closed spec fn position(&self) -> nat {
        self.pos as nat
    }

    /// A cursor at the start of `data`.
    pub fn new(data: Vec<u8>) -> (r: Self)
        ensures
            r.bytes() == data@,
            r.position() == 0,
    {
        ByteCursor { data, pos: 0 }
    }

    /// How many bytes have been consumed.
    pub fn pos(&self) -> (r: usize)
        ensures
            r == self.position(),
            r <= self.bytes().len(),
    {
        proof {
            use_type_invariant(self);
        }
        self.pos
    }

    /// Reads exactly `n` bytes. Where fewer remain, fails with `UnexpectedEof` and
    /// consumes the rest.
    pub fn read_exact(&mut self, n: usize) -> (r: Result<Vec<u8>, TranscodeError>)
        ensures
            final(self).bytes() == old(self).bytes(),
            old(self).position() + n <= old(self).bytes().len() ==> {
                &&& r matches Ok(v)
                &&& v@ == old(self).bytes().subrange(
                    old(self).position() as int,
                    old(self).position() + n,
                )
                &&& final(self).position() == old(self).position() + n
            },
            old(self).position() + n > old(self).bytes().len() ==> {
                &&& r matches Err(TranscodeError::IoErr(k))
                &&& k == IoErrorKind::UnexpectedEof
                &&& final(self).position() == old(self).bytes().len()
            },
    {
        proof {
            use_type_invariant(&*self);
        }
        let len = self.data.len();
        if n > len - self.pos {
            self.pos = len;
            return Err(TranscodeError::IoErr(IoErrorKind::UnexpectedEof));
        }
        let mut out: Vec<u8> = Vec::with_capacity(n);
        let start = self.pos;
        let mut i: usize = 0;
        while i < n
            invariant
                len == self.data@.len(),
                start + n <= len,
                i <= n,
                out@ == self.data@.subrange(start as int, start + i),
            decreases n - i,
        {
            out.push(self.data[start + i]);
            i = i + 1;
            assert(out@ =~= self.data@.subrange(start as int, start + i));
        }
        self.pos = start + n;
        Ok(out)
    }
}

impl VidFileHeader {
    /// The header is a fixed-length structure of three 4-byte words.
    pub fn get_header_size() -> (r: usize)
        ensures
            r == 12,
    {
        HEADER_SIZE
    }

    /// Decodes the header at the front of `buf`. Beside the header it hands back the last
    /// word of the header, the encoded frame count.
    pub fn open_from_buf(buf: &[u8]) -> (r: Result<(Self, &[u8]), TranscodeError>)
        ensures
            buf@.len() < 12 <==> r matches Err(TranscodeError::FileTooShort),
            buf@.len() >= 12 ==> {
                &&& r matches Ok((h, tail))
                &&& h == parse_header(buf@)
                &&& tail@ == buf@.subrange(8, 12)
            },
    {
        if buf.len() < HEADER_SIZE {
            return Err(TranscodeError::FileTooShort);
        }
        let (hdr_buf, _tail) = buf.split_at(HEADER_SIZE);
        let (width, tail) = munch_u32_be(hdr_buf);
        let (height, tail) = munch_u32_be(tail);
        let (num_frames, _rest) = munch_u32_be(tail);
        proof {
            assert(hdr_buf@.subrange(0, 4) =~= buf@.subrange(0, 4));
            assert(hdr_buf@.subrange(4, 12).subrange(0, 4) =~= buf@.subrange(4, 8));
            assert(hdr_buf@.subrange(4, 12).subrange(4, 8).subrange(0, 4) =~= buf@.subrange(8, 12));
        }
        let dim = Dim { width, height };
        let file_header = VidFileHeader { dim, num_frames };
        Ok((file_header, tail))
    }

    /// Reads and decodes the header at the reader's position; the position then stands on the
    /// first byte after the header.
    pub fn open_from_reader(reader: &mut ByteCursor) -> (r: Result<(Self, usize), TranscodeError>)
        ensures
            final(reader).bytes() == old(reader).bytes(),
            old(reader).position() + 12 <= old(reader).bytes().len() ==> {
                &&& r matches Ok((h, n))
                &&& n == 12
                &&& h == parse_header(old(reader).bytes().subrange(old(reader).position() as int, old(reader).bytes().len() as int))
                &&& final(reader).position() == old(reader).position() + 12
            },
            old(reader).position() + 12 > old(reader).bytes().len() ==> {
                &&& r matches Err(TranscodeError::IoErr(k))
                &&& k == IoErrorKind::UnexpectedEof
            },
    {
        let buf = reader.read_exact(HEADER_SIZE);
        match buf {
            Ok(buf) => {
                let r = Self::open_from_buf(buf.as_slice());
                match r {
                    Ok((header, _tail)) => {
                        proof {
                            let rest = old(reader).bytes().subrange(old(reader).position() as int, old(reader).bytes().len() as int);
                            assert(buf@.subrange(0, 4) =~= rest.subrange(0, 4));
                            assert(buf@.subrange(4, 8) =~= rest.subrange(4, 8));
                            assert(buf@.subrange(8, 12) =~= rest.subrange(8, 12));
                        }
                        Ok((header, HEADER_SIZE))
                    },
                    Err(e) => Err(e),
                }
            },
            Err(e) => Err(e),
        }
    }

    /// Writes the encoding of the header into the first twelve bytes of `buf`.
    pub fn fill_header(&self, buf: &mut [u8])
        requires
            old(buf)@.len() >= 12,
        ensures
            final(buf)@ == header_bytes(*self) + old(buf)@.subrange(12, old(buf)@.len() as int),
    {
        let tail = emit_u32_be(buf, self.dim.width);
        let tail = emit_u32_be(tail, self.dim.height);
        let _tail = emit_u32_be(tail, self.num_frames);
    }

    /// The encoding of the header as a new buffer.
    pub fn create_header(&self) -> (r: Vec<u8>)
        ensures
            r@ == header_bytes(*self),
    {
        let mut buf: Vec<u8> = vec![0u8; HEADER_SIZE];
        self.fill_header(buf.as_mut_slice());
        assert(buf@ =~= header_bytes(*self));
        buf
    }

    /// Judges a write of the encoded header that reported `written` bytes: a complete
    /// write gives the header size, a short one is a failure.
    pub fn check_header_written(written: usize) -> (r: Result<usize, TranscodeError>)
        ensures
            written == 12 ==> (r matches Ok(n) && n == 12),
            written != 12 ==> r matches Err(TranscodeError::ProblemWritingToFile),
    {
        if written == HEADER_SIZE {
            Ok(HEADER_SIZE)
        } else {
            Err(TranscodeError::ProblemWritingToFile)
        }
    }
}

/// Decoding the encoding of a header gives the header back.
pub proof fn lemma_header_roundtrip(h: VidFileHeader)
    ensures
        header_bytes(h).len() == 12,
        parse_header(header_bytes(h)) == h,
{
    let b = header_bytes(h);
    assert(b.subrange(0, 4) =~= crate::util::be_bytes(h.dim.width));
    assert(b.subrange(4, 8) =~= crate::util::be_bytes(h.dim.height));
    assert(b.subrange(8, 12) =~= crate::util::be_bytes(h.num_frames));
    crate::util::lemma_be_roundtrip(h.dim.width);
    crate::util::lemma_be_roundtrip(h.dim.height);
    crate::util::lemma_be_roundtrip(h.num_frames);
}

} // verus!
