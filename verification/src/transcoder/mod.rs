use vstd::prelude::*;

pub mod bufstack;
pub mod chunks;
pub mod reorder;
pub mod writer;

use crate::data::{InHandle, OutHandle};
use crate::ids::new_ulid;
use crate::rules::PartialRules;
use crate::strategy::IoStrategy;
use crate::TranscodeError;

verus! {

/// The reference transcoder: read a frame, transcode it, write it, one after the other.
/// It works with plain streams that cannot seek.
#[derive(Debug)]
pub struct SpStScTranscoder {
    pub rules: Option<PartialRules>,
}

/// One reader, `num_cpu_workers` transcoders and one writer.
#[derive(Debug)]
pub struct SpMtScTranscoder {
    pub rules: Option<PartialRules>,
    pub num_cpu_workers: u16,
}

/// Workers that each read, transcode and write whole frames of seekable files.
#[derive(Debug)]
pub struct MpMtMcTranscoder {
    pub rules: Option<PartialRules>,
    pub num_cpu_workers: u16,
}

/// Thread-per-core direct I/O between seekable files, with `num_workers` workers.
#[derive(Debug)]
pub struct GlommioTranscoder {
    pub num_workers: u16,
    pub rules: Option<PartialRules>,
}

/// Asynchronous reading and writing (files, standard streams or web locations) with a pool
/// of blocking transcoders; it carries the identifier of its job.
#[derive(Debug)]
pub struct TokioTranscoder {
    pub num_workers: u16,
    pub rules: Option<PartialRules>,
    pub debug: bool,
    pub collect_stats: bool,
    pub jobid: u128,
}

/// A transcoder of any of the strategies.
#[derive(Debug)]
pub enum TranscoderProxy {
    SpStSc(SpStScTranscoder),
    SpMtSc(SpMtScTranscoder),
    MpMtMc(MpMtMcTranscoder),
    Glommio(GlommioTranscoder),
    Tokio(TokioTranscoder),
}

/// The source and sink a transcoder works between.
#[derive(Debug, PartialEq, Eq)]
pub enum Route {
    FileToFile { input: String, output: String },
    StdinToFile { output: String },
    FileToStdout { input: String },
    StdinToStdout,
    /// Download from `input`, upload to `output` by POST (`post`) or PUT.
    HttpToHttp { input: String, output: String, post: bool },
}

/// The route between an input and an output handle that the standard-stream capable
/// transcoders support: files and standard streams in any combination.
pub open spec fn stream_route(i: InHandle, o: OutHandle) -> Option<Route> {
    match (i, o) {
        (InHandle::File(a), OutHandle::File(b)) => Some(Route::FileToFile { input: a, output: b }),
        (InHandle::Stdin, OutHandle::File(b)) => Some(Route::StdinToFile { output: b }),
        (InHandle::File(a), OutHandle::Stdout) => Some(Route::FileToStdout { input: a }),
        (InHandle::Stdin, OutHandle::Stdout) => Some(Route::StdinToStdout),
        _ => None,
    }
}

/// The route a transcoder of the given strategy takes between two handles, if it supports
/// them: every transcoder works between files; all but the many-worker and thread-per-core
/// ones also with the standard streams; the asynchronous one also from a download to an
/// upload.
pub open spec fn route_for(p: TranscoderProxy, i: InHandle, o: OutHandle) -> Option<Route> {
    match p {
        TranscoderProxy::MpMtMc(_) | TranscoderProxy::Glommio(_) => match (i, o) {
            (InHandle::File(a), OutHandle::File(b)) => Some(Route::FileToFile { input: a, output: b }),
            _ => None,
        },
        TranscoderProxy::Tokio(_) => match (i, o) {
            (InHandle::HTTP_GET(a), OutHandle::HTTP_POST(b)) => Some(Route::HttpToHttp { input: a, output: b, post: true }),
            (InHandle::HTTP_GET(a), OutHandle::HTTP_PUT(b)) => Some(Route::HttpToHttp { input: a, output: b, post: false }),
            _ => stream_route(i, o),
        },
        _ => stream_route(i, o),
    }
}

fn stream_route_exec(file_name_in: InHandle, file_name_out: OutHandle) -> (r: Result<Route, TranscodeError>)
    ensures
        stream_route(file_name_in, file_name_out) matches Some(rt) ==> r == Ok::<Route, TranscodeError>(rt),
        stream_route(file_name_in, file_name_out) is None ==> r matches Err(TranscodeError::Unsupported),
{
    match (file_name_in, file_name_out) {
        (InHandle::File(a), OutHandle::File(b)) => Ok(Route::FileToFile { input: a, output: b }),
        (InHandle::Stdin, OutHandle::File(b)) => Ok(Route::StdinToFile { output: b }),
        (InHandle::File(a), OutHandle::Stdout) => Ok(Route::FileToStdout { input: a }),
        (InHandle::Stdin, OutHandle::Stdout) => Ok(Route::StdinToStdout),
        _ => Err(TranscodeError::Unsupported),
    }
}

impl TranscoderProxy {
    /// Decides how this transcoder works between the two handles: the route, or
    /// `Unsupported` for a pair it cannot serve. The caller then performs the route.
    pub fn transcode_handles(&mut self, file_name_in: InHandle, file_name_out: OutHandle) -> (r: Result<Route, TranscodeError>)
        ensures
            *final(self) == *old(self),
            route_for(*old(self), file_name_in, file_name_out) matches Some(rt) ==> r == Ok::<Route, TranscodeError>(rt),
            route_for(*old(self), file_name_in, file_name_out) is None ==> r matches Err(TranscodeError::Unsupported),
    {
        match self {
            TranscoderProxy::MpMtMc(_) | TranscoderProxy::Glommio(_) => match (file_name_in, file_name_out) {
                (InHandle::File(a), OutHandle::File(b)) => Ok(Route::FileToFile { input: a, output: b }),
                _ => Err(TranscodeError::Unsupported),
            },
            TranscoderProxy::Tokio(_) => match (file_name_in, file_name_out) {
                (InHandle::HTTP_GET(a), OutHandle::HTTP_POST(b)) => Ok(Route::HttpToHttp { input: a, output: b, post: true }),
                (InHandle::HTTP_GET(a), OutHandle::HTTP_PUT(b)) => Ok(Route::HttpToHttp { input: a, output: b, post: false }),
                (i, o) => stream_route_exec(i, o),
            },
            _ => stream_route_exec(file_name_in, file_name_out),
        }
    }

    /// Hands out the rules of the transcoder, once: a second request is `Unsupported`.
    pub fn take_rules(&mut self) -> (r: Result<PartialRules, TranscodeError>)
        ensures
            old(self).spec_rules() matches Some(p) ==> r == Ok::<PartialRules, TranscodeError>(p),
            old(self).spec_rules() is None ==> r matches Err(TranscodeError::Unsupported),
            final(self).spec_rules() is None,
            final(self).spec_workers() == old(self).spec_workers(),
    {
        let slot = match self {
            TranscoderProxy::SpStSc(t) => &mut t.rules,
            TranscoderProxy::SpMtSc(t) => &mut t.rules,
            TranscoderProxy::MpMtMc(t) => &mut t.rules,
            TranscoderProxy::Glommio(t) => &mut t.rules,
            TranscoderProxy::Tokio(t) => &mut t.rules,
        };
        match slot.take() {
            Some(p) => Ok(p),
            None => Err(TranscodeError::Unsupported),
        }
    }

    /// The rules a transcoder still holds.
    pub open spec fn spec_rules(&self) -> Option<PartialRules> {
        match self {
            TranscoderProxy::SpStSc(t) => t.rules,
            TranscoderProxy::SpMtSc(t) => t.rules,
            TranscoderProxy::MpMtMc(t) => t.rules,
            TranscoderProxy::Glommio(t) => t.rules,
            TranscoderProxy::Tokio(t) => t.rules,
        }
    }

    /// The number of transcoding workers (one for the reference transcoder).
    pub open spec fn spec_workers(&self) -> u16 {
        match self {
            TranscoderProxy::SpStSc(_) => 1,
            TranscoderProxy::SpMtSc(t) => t.num_cpu_workers,
            TranscoderProxy::MpMtMc(t) => t.num_cpu_workers,
            TranscoderProxy::Glommio(t) => t.num_workers,
            TranscoderProxy::Tokio(t) => t.num_workers,
        }
    }
}

/// Builds the transcoder that a strategy names, holding the rules; an asynchronous
/// transcoder gets a new job identifier.
pub fn load_transcoder(strategy: IoStrategy, rules: PartialRules) -> (r: Result<TranscoderProxy, TranscodeError>)
    ensures
        (r matches Ok(p) && p.spec_rules() == Some(rules) && match strategy {
            IoStrategy::SequentialSt => p is SpStSc,
            IoStrategy::SequentialIoMt { num_cpu_workers } => p is SpMtSc && p.spec_workers() == num_cpu_workers,
            IoStrategy::ParallelIoMt { num_cpu_workers } => p is MpMtMc && p.spec_workers() == num_cpu_workers,
            IoStrategy::Tokio { num_cpu_workers } => p is Tokio && p.spec_workers() == num_cpu_workers
                && !p->Tokio_0.debug && !p->Tokio_0.collect_stats,
            IoStrategy::Glommio { num_cpu_workers } => p is Glommio && p.spec_workers() == num_cpu_workers,
        }),
{
    let res = match strategy {
        IoStrategy::SequentialSt => TranscoderProxy::SpStSc(SpStScTranscoder { rules: Some(rules) }),
        IoStrategy::SequentialIoMt { num_cpu_workers } => TranscoderProxy::SpMtSc(
            SpMtScTranscoder { rules: Some(rules), num_cpu_workers },
        ),
        IoStrategy::ParallelIoMt { num_cpu_workers } => TranscoderProxy::MpMtMc(
            MpMtMcTranscoder { rules: Some(rules), num_cpu_workers },
        ),
        IoStrategy::Glommio { num_cpu_workers } => TranscoderProxy::Glommio(
            GlommioTranscoder { num_workers: num_cpu_workers, rules: Some(rules) },
        ),
        IoStrategy::Tokio { num_cpu_workers } => TranscoderProxy::Tokio(
            TokioTranscoder {
                num_workers: num_cpu_workers,
                jobid: new_ulid(),
                rules: Some(rules),
                debug: false,
                collect_stats: false,
            },
        ),
    };
    Ok(res)
}

/// The error that the outcomes of a set of workers add up to: the last failure in the list
/// (a worker that did not finish counts as `ThreadErr`), or none.
pub open spec fn last_failure<T>(s: Seq<Result<Result<(), TranscodeError>, T>>) -> Option<TranscodeError>
    decreases s.len(),
{
    if s.len() == 0 {
        None
    } else {
        match s.last() {
            Err(_) => Some(TranscodeError::ThreadErr),
            Ok(Err(e)) => Some(e),
            Ok(Ok(())) => last_failure(s.drop_last()),
        }
    }
}

/// Combines the outcomes of a set of workers: the last failure wins.
pub fn collect_errors<T>(responses: Vec<Result<Result<(), TranscodeError>, T>>) -> (r: Result<(), TranscodeError>)
    ensures
        last_failure(responses@) matches Some(e) ==> r == Err::<(), TranscodeError>(e),
        last_failure(responses@) is None ==> r is Ok,
{
    let mut rest = responses;
    loop
        invariant
            last_failure(responses@) == last_failure(rest@),
        decreases rest@.len(),
    {
        let ghost before = rest@;
        match rest.pop() {
            None => {
                return Ok(());
            },
            Some(Err(_)) => {
                assert(before.last() matches Err(_));
                return Err(TranscodeError::ThreadErr);
            },
            Some(Ok(Err(e))) => {
                return Err(e);
            },
            Some(Ok(Ok(()))) => {
                assert(rest@ =~= before.drop_last());
            },
        }
    }
}

/// File offset of frame `frame` of a video whose frames are `frame_size` bytes.
pub fn seek_pos(frame_size: usize, frame: u32) -> (r: u64)
    requires
        12 + frame_size * frame <= u64::MAX,
    ensures
        r == 12 + frame_size * frame,
{
    proof {
        assert(0 <= frame_size * frame) by (nonlinear_arith)
            requires
                0 <= frame_size,
                0 <= frame,
        ;
    }
    12u64 + (frame_size as u64) * (frame as u64)
}

/// Judges a run of the asynchronous transcoder that wrote `num_written` of `num_frames`
/// frames: fewer than all is a truncated output.
pub fn check_frames_written(num_written: u32, num_frames: u32) -> (r: Result<(u32, u32), TranscodeError>)
    ensures
        num_written == num_frames ==> r == Ok::<(u32, u32), TranscodeError>((num_written, num_frames)),
        num_written != num_frames ==> r matches Err(TranscodeError::OutputTruncated),
{
    if num_written != num_frames {
        Err(TranscodeError::OutputTruncated)
    } else {
        Ok((num_written, num_frames))
    }
}

/// The transcoder run by the convenience entry point of the `glommio` feature; this build
/// has no such feature, and the call does nothing.
pub fn run_glommio() {
}


/// The reference transcoder, the single-producer one and the asynchronous one each work
/// between any file or standard stream on the input side and any file or standard stream
/// on the output side, with the route that names them.
pub proof fn lemma_stream_transcoders_routes(p: TranscoderProxy, a: String, b: String)
    requires
        p is SpStSc || p is SpMtSc || p is Tokio,
    ensures
        route_for(p, InHandle::File(a), OutHandle::File(b)) == Some(Route::FileToFile { input: a, output: b }),
        route_for(p, InHandle::Stdin, OutHandle::File(b)) == Some(Route::StdinToFile { output: b }),
        route_for(p, InHandle::File(a), OutHandle::Stdout) == Some(Route::FileToStdout { input: a }),
        route_for(p, InHandle::Stdin, OutHandle::Stdout) == Some(Route::StdinToStdout),
{
}

/// The reference and the single-producer transcoders serve no web location and no absent
/// handle.
pub proof fn lemma_stream_transcoders_refuse(p: TranscoderProxy, i: InHandle, o: OutHandle)
    requires
        p is SpStSc || p is SpMtSc,
        !(i is File || i is Stdin) || !(o is File || o is Stdout),
    ensures
        route_for(p, i, o) is None,
{
}

/// The many-worker and thread-per-core transcoders work between two files, and only there.
pub proof fn lemma_file_only_transcoders_routes(p: TranscoderProxy, i: InHandle, o: OutHandle)
    requires
        p is MpMtMc || p is Glommio,
    ensures
        i matches InHandle::File(a) ==> (o matches OutHandle::File(b) ==> route_for(p, i, o) == Some(
            Route::FileToFile { input: a, output: b },
        )),
        !(i is File && o is File) ==> route_for(p, i, o) is None,
{
}

} // verus!
