use vstd::prelude::*;

use crate::meta::MetaHeader;
use crate::spec::VidFileHeader;
use crate::TranscodeError;

verus! {

/// A frame buffer being filled from a stream of chunks.
pub struct FrameFill {
    frame: Vec<u8>,
    filled: usize,
}

impl FrameFill {
    /// The filled part lies within the buffer.
    pub closed spec fn wf(&self) -> bool {
        self.filled <= self.frame@.len()
    }

    /// The buffer.
    pub closed spec fn buffer(&self) -> Seq<u8> {
        self.frame@
    }

    /// How many bytes at the front of the buffer have been filled.
    pub closed spec fn filled_len(&self) -> nat {
        self.filled as nat
    }

    /// Starts filling `frame` from its first byte.
    pub fn new(frame: Vec<u8>) -> (r: Self)
        ensures
            r.wf(),
            r.buffer() == frame@,
            r.filled_len() == 0,
    {
        FrameFill { frame, filled: 0 }
    }

    /// How many bytes are still missing.
    pub fn missing(&self) -> (r: usize)
        requires
            self.wf(),
        ensures
            r == self.buffer().len() - self.filled_len(),
    {
        self.frame.len() - self.filled
    }

    /// Copies as much of `chunk` as still fits into the buffer and returns the rest.
    pub fn offer(&mut self, chunk: Vec<u8>) -> (leftover: Vec<u8>)
        requires
            old(self).wf(),
        ensures
            final(self).wf(),
            ({
                let room = old(self).buffer().len() - old(self).filled_len();
                let k = if chunk@.len() <= room { chunk@.len() as int } else { room };
                &&& final(self).buffer().len() == old(self).buffer().len()
                &&& final(self).filled_len() == old(self).filled_len() + k
                &&& final(self).buffer().subrange(0, final(self).filled_len() as int)
                    == old(self).buffer().subrange(0, old(self).filled_len() as int) + chunk@.subrange(0, k)
                &&& leftover@ == chunk@.subrange(k, chunk@.len() as int)
            }),
    {
        let ghost f0 = self.frame@;
        let ghost start = self.filled as int;
        let len = self.frame.len();
        let start_pos = self.filled;
        let room = len - start_pos;
        let k = if chunk.len() <= room { chunk.len() } else { room };
        let mut i: usize = 0;
        while i < k
            invariant
                len == f0.len(),
                start_pos == start,
                0 <= i <= k,
                k <= chunk@.len(),
                start == self.filled,
                start + k <= f0.len(),
                self.frame@.len() == f0.len(),
                self.frame@.subrange(0, start + i) == f0.subrange(0, start) + chunk@.subrange(0, i as int),
            decreases k - i,
        {
            let b = chunk[i];
            let pos = start_pos + i;
            let ghost pre = self.frame@;
            self.frame.set(pos, b);
            proof {
                let target = f0.subrange(0, start) + chunk@.subrange(0, i + 1);
                assert forall|q: int| 0 <= q < start + i + 1 implies self.frame@[q] == target[q] by {
                    if q < start + i {
                        assert(pre.subrange(0, start + i)[q] == pre[q]);
                        assert((f0.subrange(0, start) + chunk@.subrange(0, i as int))[q] == target[q]);
                    }
                }
                assert(self.frame@.subrange(0, start + i + 1) =~= target);
            }
            i = i + 1;
        }
        self.filled = self.filled + k;
        let mut rest: Vec<u8> = Vec::new();
        let mut j: usize = k;
        while j < chunk.len()
            invariant
                k <= j <= chunk@.len(),
                rest@ == chunk@.subrange(k as int, j as int),
            decreases chunk@.len() - j,
        {
            rest.push(chunk[j]);
            j = j + 1;
            assert(rest@ =~= chunk@.subrange(k as int, j as int));
        }
        rest
    }

    /// Whether every byte has been filled.
    pub fn is_full(&self) -> (r: bool)
        ensures
            r == (self.filled_len() == self.buffer().len()),
    {
        self.filled == self.frame.len()
    }

    /// The buffer.
    pub fn into_frame(self) -> (r: Vec<u8>)
        ensures
            r@ == self.buffer(),
    {
        self.frame
    }
}

/// Splits the first chunk of a download into the validated metadata of its header and the
/// frame bytes after it.
pub fn split_header_chunk(chunk: &[u8]) -> (r: Result<(MetaHeader, Vec<u8>), TranscodeError>)
    requires
        chunk@.len() >= 12,
    ensures
        r is Ok <==> crate::meta::dims_supported(crate::spec::parse_header(chunk@).dim),
        r matches Ok((mh, rest)) ==> mh.spec_dim() == crate::spec::parse_header(chunk@).dim
            && mh.spec_num_frames() == crate::spec::parse_header(chunk@).num_frames
            && rest@ == chunk@.subrange(12, chunk@.len() as int),
{
    let (hdr, rest) = chunk.split_at(12);
    let (vid_header, _tail) = match VidFileHeader::open_from_buf(hdr) {
        Ok(v) => v,
        Err(e) => {
            return Err(e);
        },
    };
    proof {
        assert(hdr@.subrange(0, 4) =~= chunk@.subrange(0, 4));
        assert(hdr@.subrange(4, 8) =~= chunk@.subrange(4, 8));
        assert(hdr@.subrange(8, 12) =~= chunk@.subrange(8, 12));
    }
    let metadata_header = match MetaHeader::from_vid_header(vid_header) {
        Ok(m) => m,
        Err(e) => {
            return Err(e);
        },
    };
    let mut frame_bytes: Vec<u8> = Vec::new();
    let mut j: usize = 0;
    while j < rest.len()
        invariant
            0 <= j <= rest@.len(),
            frame_bytes@ == rest@.subrange(0, j as int),
        decreases rest@.len() - j,
    {
        frame_bytes.push(rest[j]);
        j = j + 1;
        assert(frame_bytes@ =~= rest@.subrange(0, j as int));
    }
    assert(frame_bytes@ =~= rest@);
    Ok((metadata_header, frame_bytes))
}

} // verus!
