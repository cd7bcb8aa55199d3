use vstd::prelude::*;

use crate::data::{is_dash, starts_with_http, InHandle, OutHandle};
use crate::strategy::IoStrategy;
use crate::{TranscodeError, MAX_CPU_WORKERS};

verus! {

/// The options of the transcoding command.
#[derive(Debug, Clone)]
pub struct CliOptions {
    /// the video to read; standard input when absent
    pub src: Option<String>,
    /// the rules to apply
    pub rules: String,
    /// where to write the video; standard output when absent
    pub tgt: Option<String>,
    /// transcode on one thread
    pub disable_parallel: bool,
    /// let every worker read, transcode and write
    pub mp_mc: bool,
    /// thread-per-core asynchronous I/O
    pub glommio: bool,
    /// asynchronous I/O
    pub tokio: bool,
    /// print diagnostics
    pub debug: bool,
    /// print timings
    pub timing: bool,
    /// transcoding workers; 0 asks for one per CPU
    pub num_threads: u32,
    /// drop layers hidden under opaque ones
    pub occlude_opaque_layers: bool,
}

/// The number of CPUs available to the process (`num_cpus::get`), which its documentation
/// promises is at least one; it depends on the machine, so nothing more is stated.
#[verifier::external_body]
pub fn cpu_count() -> (r: usize)
    ensures
        r >= 1,
{
    num_cpus::get()
}

/// The input that a name on the command line designates: nothing when absent, otherwise as
/// `InHandle::from_str` reads it.
pub fn get_video_in_handle(name: &Option<String>) -> (r: Result<InHandle, TranscodeError>)
    ensures
        name is None ==> r == Ok::<InHandle, TranscodeError>(InHandle::Null),
        name matches Some(s) ==> (r matches Ok(h) && h.kind() == crate::data::in_handle_for(s@)
            && (h.kind() != crate::data::InHandleKind::Stdin ==> h.location() == s@)),
{
    match name {
        None => Ok(InHandle::Null),
        Some(s) => Ok(InHandle::from_str(s.clone())),
    }
}

/// The output that a name on the command line designates: nothing when absent, standard
/// output for "-", an upload by POST for a text starting with "http", a file otherwise.
pub fn get_video_out_handle(name: &Option<String>) -> (r: Result<OutHandle, TranscodeError>)
    ensures
        name is None ==> r == Ok::<OutHandle, TranscodeError>(OutHandle::Null),
        name matches Some(s) ==> (r matches Ok(h) && if s@ == crate::data::dash_text() {
            h == OutHandle::Stdout
        } else if crate::data::has_prefix(s@, crate::data::http_text()) {
            h matches OutHandle::HTTP_POST(u) && u@ == s@
        } else {
            h matches OutHandle::File(u) && u@ == s@
        }),
{
    match name {
        None => Ok(OutHandle::Null),
        Some(s) => {
            if is_dash(s.as_str()) {
                Ok(OutHandle::Stdout)
            } else if starts_with_http(s.as_str()) {
                Ok(OutHandle::HTTP_POST(s.clone()))
            } else {
                Ok(OutHandle::File(s.clone()))
            }
        },
    }
}

/// Adjusts the options for parallel work: the multi-producer strategy needs named input and
/// output files and falls back to one thread without them (the answer is then `true`, for
/// the caller to say so); the single-producer strategy reads and writes standard streams
/// where no file is named.
pub fn reset_parallelism(opt: &mut CliOptions) -> (refused: bool)
    ensures
        refused == (!old(opt).disable_parallel && old(opt).mp_mc && (old(opt).src is None
            || old(opt).tgt is None)),
        final(opt).disable_parallel == (old(opt).disable_parallel || refused),
        final(opt).rules == old(opt).rules,
        final(opt).mp_mc == old(opt).mp_mc,
        final(opt).glommio == old(opt).glommio,
        final(opt).tokio == old(opt).tokio,
        final(opt).debug == old(opt).debug,
        final(opt).timing == old(opt).timing,
        final(opt).num_threads == old(opt).num_threads,
        final(opt).occlude_opaque_layers == old(opt).occlude_opaque_layers,
        !old(opt).disable_parallel && !old(opt).mp_mc ==> {
            &&& (old(opt).src is None ==> (final(opt).src matches Some(s) && s@ == crate::data::dash_text()))
            &&& (old(opt).src is Some ==> final(opt).src == old(opt).src)
            &&& (old(opt).tgt is None ==> (final(opt).tgt matches Some(t) && t@ == crate::data::dash_text()))
            &&& (old(opt).tgt is Some ==> final(opt).tgt == old(opt).tgt)
        },
        old(opt).disable_parallel || old(opt).mp_mc ==> final(opt).src == old(opt).src && final(opt).tgt
            == old(opt).tgt,
{
    let mut refused = false;
    if !opt.disable_parallel && opt.mp_mc {
        if opt.src.is_none() || opt.tgt.is_none() {
            refused = true;
            opt.disable_parallel = true;
        }
    }
    if !opt.disable_parallel && !opt.mp_mc {
        proof {
            reveal_strlit("-");
        }
        if opt.src.is_none() {
            opt.src = Some(String::from_str("-"));
        }
        if opt.tgt.is_none() {
            opt.tgt = Some(String::from_str("-"));
        }
    }
    refused
}

/// The strategy the options ask for with `workers` transcoding workers: one thread when
/// parallel work is off, then the first of thread-per-core, asynchronous, multi-producer
/// that is asked for, else the single-producer one; the last two refuse more than
/// `MAX_CPU_WORKERS` workers.
pub open spec fn strategy_result(opt: CliOptions, workers: usize) -> Result<IoStrategy, TranscodeError> {
    if opt.disable_parallel {
        Ok(IoStrategy::SequentialSt)
    } else if opt.glommio {
        Ok(IoStrategy::Glommio { num_cpu_workers: workers as u16 })
    } else if opt.tokio {
        Ok(IoStrategy::Tokio { num_cpu_workers: workers as u16 })
    } else if workers > MAX_CPU_WORKERS {
        Err(TranscodeError::TooManyThreads(workers))
    } else if opt.mp_mc {
        Ok(IoStrategy::ParallelIoMt { num_cpu_workers: workers as u16 })
    } else {
        Ok(IoStrategy::SequentialIoMt { num_cpu_workers: workers as u16 })
    }
}

/// The strategy the options ask for, given the number of CPUs of the machine, used when
/// the options leave the worker count to it.
pub fn strategy_for(opt: &CliOptions, cpus: usize) -> (r: Result<IoStrategy, TranscodeError>)
    ensures
        r == strategy_result(*opt, if opt.num_threads == 0 { cpus } else { opt.num_threads as usize }),
{
    if opt.disable_parallel {
        return Ok(IoStrategy::SequentialSt);
    }
    let num_cpu_workers: usize = if opt.num_threads == 0 {
        cpus
    } else {
        opt.num_threads as usize
    };
    if opt.glommio {
        return IoStrategy::new_glommio(num_cpu_workers);
    }
    if opt.tokio {
        return IoStrategy::new_tokio(num_cpu_workers);
    }
    if opt.mp_mc {
        IoStrategy::new_mp_mc(num_cpu_workers)
    } else {
        IoStrategy::new_seq_mt(num_cpu_workers)
    }
}

/// The strategy the options ask for; with a worker count of 0, one worker per CPU.
pub fn get_transcoder_strategy(opt: &CliOptions) -> (r: Result<IoStrategy, TranscodeError>)
    ensures
        opt.num_threads != 0 ==> r == strategy_result(*opt, opt.num_threads as usize),
        opt.num_threads == 0 ==> exists|cpus: usize| cpus >= 1 && #[trigger] strategy_result(*opt, cpus) == r,
        opt.num_threads == 0 && !opt.disable_parallel ==> exists|cpus: usize|
            call_ensures(cpu_count, (), cpus) && #[trigger] strategy_result(*opt, cpus) == r,
{
    let cpus: usize = if opt.num_threads == 0 && !opt.disable_parallel {
        cpu_count()
    } else {
        1
    };
    let r = strategy_for(opt, cpus);
    proof {
        if opt.num_threads == 0 {
            assert(strategy_result(*opt, cpus) == r);
        }
    }
    r
}

} // verus!
