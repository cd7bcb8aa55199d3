use vstd::prelude::*;

use crate::{TranscodeError, MAX_CPU_WORKERS, MAX_IO_WORKERS};

verus! {

/// How frames are read, transcoded and written.
#[derive(Debug, Copy, Clone, PartialEq, Eq, Structural)]
pub enum IoStrategy {
    /// Read, transcode and write one frame after the other on one thread.
    SequentialSt,
    /// One reader, several transcoders, one writer.
    SequentialIoMt { num_cpu_workers: u16 },
    /// Workers that each read, transcode and write whole frames.
    ParallelIoMt { num_cpu_workers: u16 },
    /// Thread-per-core asynchronous I/O; this build has no runtime for it.
    Glommio { num_cpu_workers: u16 },
    /// Asynchronous I/O with a pool of blocking transcoders.
    Tokio { num_cpu_workers: u16 },
}

impl IoStrategy {
    /// A strategy with one reader and `num_cpu_workers` transcoders.
    pub fn new_io_mt(num_io_workers: usize, num_cpu_workers: usize) -> (r: Result<Self, TranscodeError>)
        ensures
            num_cpu_workers > MAX_CPU_WORKERS ==> (r matches Err(TranscodeError::TooManyThreads(n))
                && n == num_cpu_workers),
            num_cpu_workers <= MAX_CPU_WORKERS && num_io_workers > MAX_IO_WORKERS ==> (r matches Err(
                TranscodeError::TooManyThreads(n),
            ) && n == num_io_workers),
            num_cpu_workers <= MAX_CPU_WORKERS && num_io_workers <= MAX_IO_WORKERS ==> r == Ok::<
                IoStrategy,
                TranscodeError,
            >(IoStrategy::SequentialIoMt { num_cpu_workers: num_cpu_workers as u16 }),
    {
        if num_cpu_workers > MAX_CPU_WORKERS {
            Err(TranscodeError::TooManyThreads(num_cpu_workers))
        } else if num_io_workers > MAX_IO_WORKERS {
            Err(TranscodeError::TooManyThreads(num_io_workers))
        } else {
            Ok(IoStrategy::SequentialIoMt { num_cpu_workers: num_cpu_workers as u16 })
        }
    }

    /// The thread-per-core strategy; the worker count is kept modulo 2^16.
    pub fn new_glommio(num_cpu_workers: usize) -> (r: Result<Self, TranscodeError>)
        ensures
            r == Ok::<IoStrategy, TranscodeError>(
                IoStrategy::Glommio { num_cpu_workers: num_cpu_workers as u16 },
            ),
    {
        Ok(IoStrategy::Glommio { num_cpu_workers: num_cpu_workers as u16 })
    }

    /// The asynchronous strategy; the worker count is kept modulo 2^16.
    pub fn new_tokio(num_cpu_workers: usize) -> (r: Result<Self, TranscodeError>)
        ensures
            r == Ok::<IoStrategy, TranscodeError>(
                IoStrategy::Tokio { num_cpu_workers: num_cpu_workers as u16 },
            ),
    {
        Ok(IoStrategy::Tokio { num_cpu_workers: num_cpu_workers as u16 })
    }

    /// The strategy where every worker reads, transcodes and writes.
    pub fn new_mp_mc(num_cpu_workers: usize) -> (r: Result<Self, TranscodeError>)
        ensures
            num_cpu_workers > MAX_CPU_WORKERS ==> (r matches Err(TranscodeError::TooManyThreads(n))
                && n == num_cpu_workers),
            num_cpu_workers <= MAX_CPU_WORKERS ==> r == Ok::<IoStrategy, TranscodeError>(
                IoStrategy::ParallelIoMt { num_cpu_workers: num_cpu_workers as u16 },
            ),
    {
        if num_cpu_workers > MAX_CPU_WORKERS {
            Err(TranscodeError::TooManyThreads(num_cpu_workers))
        } else {
            Ok(IoStrategy::ParallelIoMt { num_cpu_workers: num_cpu_workers as u16 })
        }
    }

    /// The strategy with one reader, several transcoders and one writer.
    pub fn new_seq_mt(num_cpu_workers: usize) -> (r: Result<Self, TranscodeError>)
        ensures
            num_cpu_workers > MAX_CPU_WORKERS ==> (r matches Err(TranscodeError::TooManyThreads(n))
                && n == num_cpu_workers),
            num_cpu_workers <= MAX_CPU_WORKERS ==> r == Ok::<IoStrategy, TranscodeError>(
                IoStrategy::SequentialIoMt { num_cpu_workers: num_cpu_workers as u16 },
            ),
    {
        if num_cpu_workers > MAX_CPU_WORKERS {
            Err(TranscodeError::TooManyThreads(num_cpu_workers))
        } else {
            Ok(IoStrategy::SequentialIoMt { num_cpu_workers: num_cpu_workers as u16 })
        }
    }
}

} // verus!
