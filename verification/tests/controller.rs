use recallai::controller::dispatcher::{
    convert_in_handle, convert_out_handle, job_outcome, next_step, rules_source, RulesSource, WorkerStep,
};
use recallai::controller::{ControllerStatus, Job, LocationType, Status};
use recallai::data::{InHandle, OutHandle};
use recallai::TranscodeError;

fn job() -> Job {
    Job::new(
        LocationType::File("in.rvid".into()),
        LocationType::File("out.rvid".into()),
        LocationType::File("rules.json".into()),
    )
}

#[test]
fn new_job_is_queued_and_idle() {
    let j = job();
    assert_eq!(j.id, 0);
    assert_eq!(j.status, Status::QUEUED);
    assert!(!j.running);
    assert_eq!(j.num_frames, None);
    assert_eq!(j.cur_frame, 0);
    assert_eq!(j.took_nanos, 0);
    assert_eq!(j.copy(), j);
}

#[test]
fn status_names() {
    assert_eq!(Status::QUEUED.to_text(), "QUEUED");
    assert_eq!(Status::RUNNING.to_text(), "RUNNING");
    assert_eq!(Status::COMPLETED.to_text(), "COMPLETED");
    assert_eq!(Status::DELETED.to_text(), "DELETED");
    assert_eq!(Status::default(), Status::QUEUED);
    assert_eq!(LocationType::default(), LocationType::Unset);
}

#[test]
fn first_job_starts_at_once() {
    let mut c = ControllerStatus::new(4);
    let sent = c.create_job_with_id(job(), 7).unwrap().unwrap();
    assert_eq!(sent.id, 7);
    assert_eq!(sent.status, Status::RUNNING);
    assert!(sent.running);
    assert!(c.create_job_with_id(job(), 8).unwrap().is_none());
    assert_eq!(c.get_job_status(7).unwrap().status, Status::RUNNING);
    assert_eq!(c.get_job_status(8).unwrap().status, Status::QUEUED);
    assert!(matches!(c.get_job_status(9), Err(TranscodeError::JobNotFound)));
}

#[test]
fn queue_holds_one_hundred_waiting_jobs() {
    let mut c = ControllerStatus::new(1);
    for id in 0..101u128 {
        assert!(c.create_job_with_id(job(), id).is_ok());
    }
    assert!(matches!(c.create_job_with_id(job(), 500), Err(TranscodeError::QueueFull)));
    assert!(matches!(c.get_job_status(500), Err(TranscodeError::JobNotFound)));
}

#[test]
fn finishing_starts_the_next_job() {
    let mut c = ControllerStatus::new(2);
    c.create_job_with_id(job(), 1).unwrap();
    c.create_job_with_id(job(), 2).unwrap();
    let next = c.complete_job_async(1, 5_000_000, 30, 30).unwrap();
    assert_eq!(next.id, 2);
    assert_eq!(next.status, Status::RUNNING);
    let done = c.get_job_status(1).unwrap();
    assert_eq!(done.status, Status::COMPLETED);
    assert_eq!(done.took_nanos, 5_000_000);
    assert_eq!(done.cur_frame, 30);
    assert_eq!(done.num_frames, Some(30));
    assert!(c.complete_job_async(2, 1, 0, 0).is_none());
    assert_eq!(c.get_job_status(2).unwrap().status, Status::COMPLETED);
}

#[test]
fn finishing_another_job_drops_the_running_one() {
    let mut c = ControllerStatus::new(2);
    c.create_job_with_id(job(), 1).unwrap();
    assert!(c.complete_job_async(99, 1, 1, 1).is_none());
    assert!(matches!(c.get_job_status(1), Err(TranscodeError::JobNotFound)));
    assert!(matches!(c.get_job_status(99), Err(TranscodeError::JobNotFound)));
}

#[test]
fn cancel_asks_the_running_job_to_stop() {
    let mut c = ControllerStatus::new(2);
    c.create_job_with_id(job(), 1).unwrap();
    c.create_job_with_id(job(), 2).unwrap();
    assert_eq!(c.cancel_job(2).unwrap(), Some(1));
    assert!(!c.get_job_status(1).unwrap().running);
    assert_eq!(c.get_job_status(2).unwrap().status, Status::QUEUED);
}

#[test]
fn cancel_without_jobs_finds_nothing() {
    let mut c = ControllerStatus::new(2);
    assert!(matches!(c.cancel_job(3), Err(TranscodeError::JobNotFound)));
}

#[test]
fn job_lists() {
    let mut c = ControllerStatus::new(2);
    assert!(c.get_job_list(true).unwrap().is_empty());
    c.create_job_with_id(job(), 1).unwrap();
    c.create_job_with_id(job(), 2).unwrap();
    c.create_job_with_id(job(), 3).unwrap();
    let ids: Vec<u128> = c.get_job_list(false).unwrap().iter().map(|j| j.id).collect();
    assert_eq!(ids, vec![1, 2, 3]);
    c.complete_job_async(1, 0, 0, 0);
    let ids: Vec<u128> = c.get_job_list(false).unwrap().iter().map(|j| j.id).collect();
    assert_eq!(ids, vec![2, 3]);
    let ids: Vec<u128> = c.get_job_list(true).unwrap().iter().map(|j| j.id).collect();
    assert_eq!(ids, vec![2, 3, 1]);
}

#[test]
fn created_jobs_get_distinct_identifiers() {
    let mut c = ControllerStatus::new(2);
    let (a, sent) = c.create_job_async(job()).unwrap();
    assert_eq!(sent.unwrap().id, a);
    let (b, sent) = c.create_job_async(job()).unwrap();
    assert!(sent.is_none());
    assert_ne!(a, b);
    assert_eq!(c.get_job_status(b).unwrap().id, b);
}

#[test]
fn job_locations_become_handles() {
    assert_eq!(
        convert_in_handle(LocationType::HTTP_GET("http://a".into())).unwrap(),
        InHandle::HTTP_GET("http://a".into())
    );
    assert_eq!(convert_in_handle(LocationType::File("f".into())).unwrap(), InHandle::File("f".into()));
    assert!(matches!(convert_in_handle(LocationType::Unset), Err(TranscodeError::Unsupported)));
    assert!(matches!(
        convert_in_handle(LocationType::HTTP_POST("http://a".into())),
        Err(TranscodeError::Unsupported)
    ));
    assert_eq!(
        convert_out_handle(LocationType::HTTP_POST("http://b".into())).unwrap(),
        OutHandle::HTTP_POST("http://b".into())
    );
    assert_eq!(
        convert_out_handle(LocationType::HTTP_PUT("http://b".into())).unwrap(),
        OutHandle::HTTP_PUT("http://b".into())
    );
    assert_eq!(convert_out_handle(LocationType::File("g".into())).unwrap(), OutHandle::File("g".into()));
    assert!(matches!(
        convert_out_handle(LocationType::HTTP_GET("http://b".into())),
        Err(TranscodeError::Unsupported)
    ));
}

#[test]
fn rules_locations() {
    assert_eq!(rules_source(&LocationType::File("r.json".into())).unwrap(), RulesSource::File("r.json".into()));
    assert_eq!(
        rules_source(&LocationType::HTTP_GET("http://r".into())).unwrap(),
        RulesSource::Http("http://r".into())
    );
    assert!(matches!(rules_source(&LocationType::Unset), Err(TranscodeError::InvalidRules)));
}

#[test]
fn worker_decisions() {
    assert!(matches!(next_step(true, Some(job())), WorkerStep::Stop));
    assert!(matches!(next_step(false, None), WorkerStep::Idle));
    assert!(matches!(next_step(false, Some(job())), WorkerStep::Skip));
    let mut j = job();
    j.running = true;
    assert!(matches!(next_step(false, Some(j)), WorkerStep::Run(r) if r.running));
    assert_eq!(job_outcome(Ok((3, 4))), (3, 4));
    assert_eq!(job_outcome(Err(TranscodeError::InvalidRules)), (0, 0));
}

#[test]
fn status_carries_the_asked_identifier() {
    let mut c = ControllerStatus::new(2);
    c.create_job_with_id(job(), 1).unwrap();
    c.create_job_with_id(job(), 2).unwrap();
    c.create_job_with_id(job(), 3).unwrap();
    c.complete_job_async(1, 0, 0, 0);
    for id in [1u128, 2, 3] {
        assert_eq!(c.get_job_status(id).unwrap().id, id);
    }
}

#[test]
fn finished_jobs_are_listed_once() {
    let mut c = ControllerStatus::new(2);
    for id in 1u128..=4 {
        c.create_job_with_id(job(), id).unwrap();
    }
    c.complete_job_async(1, 0, 0, 0);
    c.complete_job_async(2, 0, 0, 0);
    c.complete_job_async(3, 0, 0, 0);
    let listed = c.get_job_list(true).unwrap();
    assert_eq!(listed[0].id, 4);
    let mut finished: Vec<u128> = listed[1..].iter().map(|j| j.id).collect();
    finished.sort();
    assert_eq!(finished, vec![1, 2, 3]);
    assert!(listed[1..].iter().all(|j| j.status == Status::COMPLETED));
}
