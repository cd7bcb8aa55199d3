use vstd::prelude::*;

use crate::controller::{Job, LocationType};
use crate::data::{InHandle, OutHandle};
use crate::TranscodeError;

verus! {

/// The input handle a job location reads from: a download or a file.
pub fn convert_in_handle(lt: LocationType) -> (r: Result<InHandle, TranscodeError>)
    ensures
        match lt {
            LocationType::HTTP_GET(u) => r == Ok::<InHandle, TranscodeError>(InHandle::HTTP_GET(u)),
            LocationType::File(u) => r == Ok::<InHandle, TranscodeError>(InHandle::File(u)),
            _ => r matches Err(TranscodeError::Unsupported),
        },
{
    match lt {
        LocationType::HTTP_GET(u) => Ok(InHandle::HTTP_GET(u)),
        LocationType::File(u) => Ok(InHandle::File(u)),
        _ => Err(TranscodeError::Unsupported),
    }
}

/// The output handle a job location writes to: an upload by POST or PUT, or a file.
pub fn convert_out_handle(lt: LocationType) -> (r: Result<OutHandle, TranscodeError>)
    ensures
        match lt {
            LocationType::HTTP_POST(u) => r == Ok::<OutHandle, TranscodeError>(OutHandle::HTTP_POST(u)),
            LocationType::HTTP_PUT(u) => r == Ok::<OutHandle, TranscodeError>(OutHandle::HTTP_PUT(u)),
            LocationType::File(u) => r == Ok::<OutHandle, TranscodeError>(OutHandle::File(u)),
            _ => r matches Err(TranscodeError::Unsupported),
        },
{
    match lt {
        LocationType::HTTP_POST(u) => Ok(OutHandle::HTTP_POST(u)),
        LocationType::HTTP_PUT(u) => Ok(OutHandle::HTTP_PUT(u)),
        LocationType::File(u) => Ok(OutHandle::File(u)),
        _ => Err(TranscodeError::Unsupported),
    }
}

/// Where a job's rules document is fetched from.
#[derive(Debug, PartialEq, Eq)]
pub enum RulesSource {
    File(String),
    Http(String),
}

/// The source of a job's rules: a file or a download; other locations are invalid.
pub fn rules_source(lt: &LocationType) -> (r: Result<RulesSource, TranscodeError>)
    ensures
        match *lt {
            LocationType::File(u) => r == Ok::<RulesSource, TranscodeError>(RulesSource::File(u)),
            LocationType::HTTP_GET(u) => r == Ok::<RulesSource, TranscodeError>(RulesSource::Http(u)),
            _ => r matches Err(TranscodeError::InvalidRules),
        },
{
    match lt {
        LocationType::File(name) => Ok(RulesSource::File(name.clone())),
        LocationType::HTTP_GET(url) => Ok(RulesSource::Http(url.clone())),
        _ => Err(TranscodeError::InvalidRules),
    }
}

/// What the job worker does with a message from the service.
#[derive(Debug)]
pub enum WorkerStep {
    /// Shut down.
    Stop,
    /// The job was cancelled before it started; skip it.
    Skip,
    /// Run the job.
    Run(Job),
    /// A wake-up without a job.
    Idle,
}

/// The worker's decision on a message: stop once shut down; skip a job no longer marked
/// to run; run any other job.
pub fn next_step(shutdown: bool, msg: Option<Job>) -> (r: WorkerStep)
    ensures
        shutdown ==> r is Stop,
        !shutdown ==> match msg {
            Some(job) => if job.running { r == WorkerStep::Run(job) } else { r is Skip },
            None => r is Idle,
        },
{
    if shutdown {
        return WorkerStep::Stop;
    }
    match msg {
        Some(job) => if !job.running {
            WorkerStep::Skip
        } else {
            WorkerStep::Run(job)
        },
        None => WorkerStep::Idle,
    }
}

/// The frame counts a job reports when it ends: those of the run, or none on failure.
pub fn job_outcome(r: Result<(u32, u32), TranscodeError>) -> (counts: (u32, u32))
    ensures
        match r {
            Ok(c) => counts == c,
            Err(_) => counts == (0u32, 0u32),
        },
{
    match r {
        Ok((num_frames, max_frames)) => (num_frames, max_frames),
        Err(_) => (0, 0),
    }
}

} // verus!
