use wayper::jobs::{JobBook, JobPoll, JobTime, RenderJobRequest};

fn job(path: &str) -> RenderJobRequest {
    RenderJobRequest::Image { width: 1920, height: 1080, image: path.to_string() }
}

#[test]
fn same_job_decoded_once() {
    let mut book: JobBook<Vec<u8>> = JobBook::new(5);
    let mut decodes = 0;
    for _ in 0..4 {
        if book.accept(&job("/w/a.png")) {
            decodes += 1;
        }
    }
    assert_eq!(decodes, 1);
    assert!(!book.accept(&RenderJobRequest::Die));
    book.complete(job("/w/a.png"), vec![1, 2, 3]);
    // every waiting caller gets the one stored result
    for _ in 0..3 {
        match book.poll(&job("/w/a.png"), true) {
            JobPoll::Ready(i) => assert_eq!(book.result(i), &vec![1, 2, 3]),
            other => panic!("unexpected {other:?}"),
        }
    }
}

#[test]
fn caller_submits_once_then_waits() {
    let mut book: JobBook<u8> = JobBook::new(5);
    assert_eq!(book.poll(&job("/w/b.png"), false), JobPoll::Submit);
    assert_eq!(book.poll(&job("/w/b.png"), true), JobPoll::Wait);
    assert!(book.accept(&job("/w/b.png")));
    assert_eq!(book.poll(&job("/w/b.png"), false), JobPoll::Wait);
    book.complete(job("/w/b.png"), 9);
    assert_eq!(book.poll(&job("/w/b.png"), false), JobPoll::Ready(0));
}

#[test]
fn oldest_result_is_evicted_past_capacity() {
    let mut book: JobBook<u32> = JobBook::new(2);
    for (i, p) in ["/a", "/b", "/c"].iter().enumerate() {
        assert!(book.accept(&job(p)));
        book.complete(job(p), i as u32);
    }
    assert_eq!(book.done.len(), 2);
    assert_eq!(book.poll(&job("/a"), false), JobPoll::Submit);
    assert_eq!(book.poll(&job("/b"), false), JobPoll::Ready(0));
    assert_eq!(book.poll(&job("/c"), false), JobPoll::Ready(1));
    // evicted jobs may be decoded again
    assert!(book.accept(&job("/a")));
}

#[test]
fn job_time_elapsed() {
    let t = JobTime::new(100);
    assert_eq!(t.elapsed(350), 250);
    assert_eq!(t.elapsed(50), 0);
}

#[test]
fn failed_decode_can_be_requested_again() {
    let mut book: JobBook<u8> = JobBook::new(5);
    assert!(book.accept(&job("/w/bad.png")));
    assert_eq!(book.poll(&job("/w/bad.png"), false), JobPoll::Wait);
    book.release(&job("/w/bad.png"));
    assert_eq!(book.poll(&job("/w/bad.png"), false), JobPoll::Submit);
    assert!(book.accept(&job("/w/bad.png")));
}
