use recallai::data::{InHandle, OutHandle};
use recallai::rules::{PartialRules, RuleDataJson, RuleOpts};
use recallai::strategy::IoStrategy;
use recallai::transcoder::{
    check_frames_written, collect_errors, load_transcoder, seek_pos, Route, TranscoderProxy,
};
use recallai::TranscodeError;

fn rules() -> PartialRules {
    RuleOpts::default().with_json(RuleDataJson { size: [8, 8], rects: vec![] }).unwrap()
}

#[test]
fn io_mt_strategy() {
    assert_eq!(
        IoStrategy::new_io_mt(1, 4).unwrap(),
        IoStrategy::SequentialIoMt { num_cpu_workers: 4 }
    );
    assert!(matches!(IoStrategy::new_io_mt(2, 4), Err(TranscodeError::TooManyThreads(2))));
    assert!(matches!(IoStrategy::new_io_mt(2, 513), Err(TranscodeError::TooManyThreads(513))));
    assert_eq!(
        IoStrategy::new_io_mt(0, 512).unwrap(),
        IoStrategy::SequentialIoMt { num_cpu_workers: 512 }
    );
}

#[test]
fn worker_bounded_strategies() {
    assert_eq!(
        IoStrategy::new_mp_mc(3).unwrap(),
        IoStrategy::ParallelIoMt { num_cpu_workers: 3 }
    );
    assert!(matches!(IoStrategy::new_mp_mc(600), Err(TranscodeError::TooManyThreads(600))));
    assert_eq!(
        IoStrategy::new_seq_mt(8).unwrap(),
        IoStrategy::SequentialIoMt { num_cpu_workers: 8 }
    );
    assert!(matches!(IoStrategy::new_seq_mt(513), Err(TranscodeError::TooManyThreads(513))));
}

#[test]
fn async_strategies_keep_the_low_bits() {
    assert_eq!(IoStrategy::new_tokio(4).unwrap(), IoStrategy::Tokio { num_cpu_workers: 4 });
    assert_eq!(
        IoStrategy::new_tokio(70000).unwrap(),
        IoStrategy::Tokio { num_cpu_workers: (70000 % 65536) as u16 }
    );
    assert_eq!(IoStrategy::new_glommio(2).unwrap(), IoStrategy::Glommio { num_cpu_workers: 2 });
}

#[test]
fn transcoder_per_strategy() {
    let t = load_transcoder(IoStrategy::SequentialSt, rules()).unwrap();
    assert!(matches!(t, TranscoderProxy::SpStSc(_)));
    let t = load_transcoder(IoStrategy::SequentialIoMt { num_cpu_workers: 3 }, rules()).unwrap();
    assert!(matches!(t, TranscoderProxy::SpMtSc(ref s) if s.num_cpu_workers == 3));
    let t = load_transcoder(IoStrategy::ParallelIoMt { num_cpu_workers: 5 }, rules()).unwrap();
    assert!(matches!(t, TranscoderProxy::MpMtMc(ref s) if s.num_cpu_workers == 5));
    let t = load_transcoder(IoStrategy::Tokio { num_cpu_workers: 2 }, rules()).unwrap();
    assert!(matches!(t, TranscoderProxy::Tokio(ref s) if s.num_workers == 2 && !s.debug && !s.collect_stats));
    let t = load_transcoder(IoStrategy::Glommio { num_cpu_workers: 2 }, rules()).unwrap();
    assert!(matches!(t, TranscoderProxy::Glommio(ref g) if g.num_workers == 2 && g.rules.is_some()));
}

#[test]
fn rules_are_handed_out_once() {
    let mut t = load_transcoder(IoStrategy::SequentialSt, rules()).unwrap();
    assert!(t.take_rules().is_ok());
    assert!(matches!(t.take_rules(), Err(TranscodeError::Unsupported)));
}

#[test]
fn routes_of_the_reference_transcoder() {
    let mut t = load_transcoder(IoStrategy::SequentialSt, rules()).unwrap();
    assert_eq!(
        t.transcode_handles(InHandle::File("a".into()), OutHandle::File("b".into())).unwrap(),
        Route::FileToFile { input: "a".into(), output: "b".into() }
    );
    assert_eq!(
        t.transcode_handles(InHandle::Stdin, OutHandle::File("b".into())).unwrap(),
        Route::StdinToFile { output: "b".into() }
    );
    assert_eq!(
        t.transcode_handles(InHandle::File("a".into()), OutHandle::Stdout).unwrap(),
        Route::FileToStdout { input: "a".into() }
    );
    assert_eq!(t.transcode_handles(InHandle::Stdin, OutHandle::Stdout).unwrap(), Route::StdinToStdout);
    assert!(matches!(
        t.transcode_handles(InHandle::HTTP_GET("http://a".into()), OutHandle::Stdout),
        Err(TranscodeError::Unsupported)
    ));
    assert!(matches!(
        t.transcode_handles(InHandle::Null, OutHandle::Null),
        Err(TranscodeError::Unsupported)
    ));
}

#[test]
fn many_worker_transcoder_needs_files() {
    let mut t = load_transcoder(IoStrategy::ParallelIoMt { num_cpu_workers: 2 }, rules()).unwrap();
    assert!(t.transcode_handles(InHandle::File("a".into()), OutHandle::File("b".into())).is_ok());
    assert!(matches!(
        t.transcode_handles(InHandle::Stdin, OutHandle::File("b".into())),
        Err(TranscodeError::Unsupported)
    ));
}

#[test]
fn thread_per_core_transcoder_needs_files() {
    let mut t = load_transcoder(IoStrategy::Glommio { num_cpu_workers: 2 }, rules()).unwrap();
    assert_eq!(
        t.transcode_handles(InHandle::File("a".into()), OutHandle::File("b".into())).unwrap(),
        Route::FileToFile { input: "a".into(), output: "b".into() }
    );
    assert!(matches!(
        t.transcode_handles(InHandle::File("a".into()), OutHandle::Stdout),
        Err(TranscodeError::Unsupported)
    ));
    assert!(t.take_rules().is_ok());
    assert!(matches!(t.take_rules(), Err(TranscodeError::Unsupported)));
}

#[test]
fn async_transcoder_also_serves_downloads() {
    let mut t = load_transcoder(IoStrategy::Tokio { num_cpu_workers: 2 }, rules()).unwrap();
    assert_eq!(
        t.transcode_handles(InHandle::HTTP_GET("http://i".into()), OutHandle::HTTP_POST("http://o".into()))
            .unwrap(),
        Route::HttpToHttp { input: "http://i".into(), output: "http://o".into(), post: true }
    );
    assert_eq!(
        t.transcode_handles(InHandle::HTTP_GET("http://i".into()), OutHandle::HTTP_PUT("http://o".into()))
            .unwrap(),
        Route::HttpToHttp { input: "http://i".into(), output: "http://o".into(), post: false }
    );
    assert_eq!(t.transcode_handles(InHandle::Stdin, OutHandle::Stdout).unwrap(), Route::StdinToStdout);
    assert!(matches!(
        t.transcode_handles(InHandle::HTTP_GET("http://i".into()), OutHandle::File("o".into())),
        Err(TranscodeError::Unsupported)
    ));
}

#[test]
fn last_failure_wins() {
    let v: Vec<Result<Result<(), TranscodeError>, ()>> =
        vec![Ok(Err(TranscodeError::InvalidRules)), Ok(Ok(())), Err(()), Ok(Err(TranscodeError::QueueFull)), Ok(Ok(()))];
    assert!(matches!(collect_errors(v), Err(TranscodeError::QueueFull)));
    let v: Vec<Result<Result<(), TranscodeError>, ()>> = vec![Ok(Err(TranscodeError::InvalidRules)), Err(())];
    assert!(matches!(collect_errors(v), Err(TranscodeError::ThreadErr)));
    let v: Vec<Result<Result<(), TranscodeError>, ()>> = vec![Ok(Ok(())), Ok(Ok(()))];
    assert!(collect_errors(v).is_ok());
    assert!(collect_errors(Vec::<Result<Result<(), TranscodeError>, ()>>::new()).is_ok());
}

#[test]
fn frame_positions() {
    assert_eq!(seek_pos(100, 0), 12);
    assert_eq!(seek_pos(3840 * 2160 * 3, 999), 12 + 3840 * 2160 * 3 * 999);
}

#[test]
fn frames_written_check() {
    assert_eq!(check_frames_written(10, 10).unwrap(), (10, 10));
    assert!(matches!(check_frames_written(9, 10), Err(TranscodeError::OutputTruncated)));
}
