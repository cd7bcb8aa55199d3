use recallai::spec::VidFileHeader;
use recallai::data::Dim;
use recallai::transcoder::bufstack::BufStack;
use recallai::transcoder::chunks::{split_header_chunk, FrameFill};
use recallai::transcoder::reorder::ReorderBuffer;
use recallai::transcoder::writer::{FeedStep, FrameFeeder, OrderedWriter};
use recallai::TranscodeError;

#[test]
fn empty_pool_makes_zeroed_buffers() {
    let mut pool = BufStack::new(5);
    assert_eq!(pool.pop(), vec![0u8; 5]);
    assert_eq!(pool.pop(), vec![0u8; 5]);
}

#[test]
fn pool_hands_back_last_returned_first() {
    let mut pool = BufStack::new(2);
    pool.push(vec![1, 1]);
    pool.push(vec![2, 2]);
    assert_eq!(pool.pop(), vec![2, 2]);
    assert_eq!(pool.pop(), vec![1, 1]);
    assert_eq!(pool.pop(), vec![0, 0]);
}

#[test]
fn frames_are_released_in_order() {
    let mut rb: ReorderBuffer<&str> = ReorderBuffer::new();
    assert_eq!(rb.next(), 0);
    assert!(rb.accept(2, "c").is_empty());
    assert!(rb.accept(1, "b").is_empty());
    assert_eq!(rb.num_held(), 2);
    assert_eq!(rb.accept(0, "a"), vec![(0, "a"), (1, "b"), (2, "c")]);
    assert_eq!(rb.next(), 3);
    assert_eq!(rb.num_held(), 0);
    assert!(rb.accept(5, "f").is_empty());
    assert_eq!(rb.accept(3, "d"), vec![(3, "d")]);
    assert_eq!(rb.accept(4, "e"), vec![(4, "e"), (5, "f")]);
    assert_eq!(rb.next(), 6);
}

#[test]
fn nothing_is_lost_in_reordering() {
    let order = [7u32, 3, 0, 5, 1, 2, 6, 4, 9, 8];
    let mut rb: ReorderBuffer<u32> = ReorderBuffer::new();
    let mut out = Vec::new();
    for fr in order {
        out.extend(rb.accept(fr, fr * 10));
    }
    let expect: Vec<(u32, u32)> = (0..10).map(|f| (f, f * 10)).collect();
    assert_eq!(out, expect);
    assert_eq!(rb.num_held(), 0);
}

#[test]
fn frame_fills_from_chunks() {
    let mut f = FrameFill::new(vec![0u8; 5]);
    assert_eq!(f.missing(), 5);
    assert!(f.offer(vec![1, 2]).is_empty());
    assert_eq!(f.missing(), 3);
    assert!(!f.is_full());
    let rest = f.offer(vec![3, 4, 5, 6, 7]);
    assert_eq!(rest, vec![6, 7]);
    assert!(f.is_full());
    assert!(f.offer(vec![8]).len() == 1);
    assert_eq!(f.into_frame(), vec![1, 2, 3, 4, 5]);
}

#[test]
fn first_chunk_splits_into_header_and_frames() {
    let mut chunk = VidFileHeader { dim: Dim { width: 16, height: 32 }, num_frames: 2 }.create_header();
    chunk.extend_from_slice(&[9, 8, 7]);
    let (mh, rest) = split_header_chunk(&chunk).unwrap();
    assert_eq!(mh.dim(), Dim { width: 16, height: 32 });
    assert_eq!(mh.num_frames(), 2);
    assert_eq!(rest, vec![9, 8, 7]);

    let bad = VidFileHeader { dim: Dim { width: 2, height: 32 }, num_frames: 2 }.create_header();
    assert!(matches!(
        split_header_chunk(&bad),
        Err(TranscodeError::UnsupportedFrameDimensionsTooSmall { .. })
    ));
}

#[test]
fn writer_writes_in_order_and_ends() {
    let mut w: OrderedWriter<char> = OrderedWriter::new(3, 2);
    let (ready, done) = w.on_frame(1, 'b');
    assert!(ready.is_empty());
    assert!(!done);
    let (ready, done) = w.on_frame(0, 'a');
    assert_eq!(ready, vec![(0, 'a'), (1, 'b')]);
    assert!(!done);
    assert_eq!(w.num_written(), 2);
    let (ready, done) = w.on_frame(2, 'c');
    assert_eq!(ready, vec![(2, 'c')]);
    assert!(done);
}

#[test]
fn writer_releases_waiting_frames_once_due() {
    let mut w: OrderedWriter<char> = OrderedWriter::new(5, 3);
    assert!(w.on_frame(3, 'd').0.is_empty());
    assert!(w.on_frame(1, 'b').0.is_empty());
    let (ready, done) = w.on_frame(0, 'a');
    assert_eq!(ready, vec![(0, 'a'), (1, 'b')]);
    assert!(!done);
    let (ready, done) = w.on_frame(2, 'c');
    assert_eq!(ready, vec![(2, 'c'), (3, 'd')]);
    assert!(!done);
    let (ready, done) = w.on_frame(4, 'e');
    assert_eq!(ready, vec![(4, 'e')]);
    assert!(done);
}

#[test]
fn writer_ends_when_workers_stop() {
    let mut w: OrderedWriter<u8> = OrderedWriter::new(10, 2);
    assert!(!w.on_worker_stopped());
    assert!(w.on_worker_stopped());
    assert_eq!(w.num_written(), 0);
}

#[test]
fn empty_video_is_done_at_once() {
    let mut w: OrderedWriter<u8> = OrderedWriter::new(0, 1);
    assert!(w.on_worker_stopped());
}

#[test]
fn reader_reuses_buffers_past_the_limit() {
    let mut f = FrameFeeder::new(4, 2);
    assert_eq!(f.step(), FeedStep::Fresh(0));
    assert_eq!(f.step(), FeedStep::Fresh(1));
    assert_eq!(f.step(), FeedStep::Recycle(2));
    assert_eq!(f.step(), FeedStep::Recycle(3));
    assert_eq!(f.step(), FeedStep::Done);
    assert_eq!(f.step(), FeedStep::Done);
}
