use brink::collect::{judge_read, Collector, Ending, Stream, StreamRead, EAGAIN, EIO};
use brink::error::IoFailure;

fn data(s: &str) -> StreamRead {
    StreamRead::Data(s.as_bytes().to_vec())
}

#[test]
fn both_streams_are_collected_apart() {
    let mut c = Collector::new();
    c.on_read(Stream::Stdout, data("out1 "));
    c.on_read(Stream::Stderr, data("err1 "));
    c.on_read(Stream::Stdout, StreamRead::WouldBlock);
    c.on_read(Stream::Stdout, data("out2"));
    c.on_read(Stream::Stderr, data("err2"));
    assert!(c.wants(Stream::Stdout) && c.wants(Stream::Stderr));
    c.on_read(Stream::Stdout, StreamRead::End);
    assert!(!c.wants(Stream::Stdout) && c.wants(Stream::Stderr));
    assert!(c.over.is_none());
    c.on_read(Stream::Stderr, StreamRead::End);
    assert!(matches!(c.over, Some(Ending::Complete)));
    assert!(!c.wants(Stream::Stdout) && !c.wants(Stream::Stderr));
    assert_eq!(c.stdout, b"out1 out2".to_vec());
    assert_eq!(c.stderr, b"err1 err2".to_vec());
}

fn failure() -> IoFailure {
    IoFailure { text: "broken".to_string() }
}

fn failed(c: &Collector) -> bool {
    matches!(&c.over, Some(Ending::Failed(f)) if f.text == "broken")
}

#[test]
fn deadline_ends_the_collection() {
    let mut c = Collector::new();
    c.on_read(Stream::Stderr, data("e"));
    c.on_deadline();
    assert!(matches!(c.over, Some(Ending::TimeUp)));
    assert_eq!(c.stderr, b"e".to_vec());
    assert!(!c.wants(Stream::Stdout));
}

#[test]
fn failure_is_no_complete_collection() {
    let mut c = Collector::new();
    c.on_read(Stream::Stderr, StreamRead::End);
    c.on_read(Stream::Stdout, data("o"));
    c.on_read(Stream::Stdout, StreamRead::Failed(failure()));
    assert!(failed(&c));
    assert_eq!(c.stdout, b"o".to_vec());
    let mut c = Collector::new();
    c.on_wait_failed(failure());
    assert!(failed(&c));
}

#[test]
fn reads_are_judged() {
    let buf = b"hello";
    let judge = |stream, errno| judge_read(stream, Err((errno, failure())), buf);
    match judge_read(Stream::Stdout, Ok(3), buf) {
        StreamRead::Data(d) => assert_eq!(d, b"hel".to_vec()),
        _ => panic!("no data"),
    }
    assert!(matches!(judge_read(Stream::Stdout, Ok(0), buf), StreamRead::End));
    assert!(matches!(judge_read(Stream::Stderr, Ok(0), buf), StreamRead::End));
    // A terminal whose other end is closed reports an error instead of an end.
    assert!(matches!(judge(Stream::Stdout, EIO), StreamRead::End));
    assert!(matches!(judge(Stream::Stderr, EIO), StreamRead::Failed(_)));
    assert!(matches!(judge(Stream::Stdout, EAGAIN), StreamRead::WouldBlock));
    assert!(matches!(judge(Stream::Stderr, EAGAIN), StreamRead::WouldBlock));
    assert!(
        matches!(judge(Stream::Stdout, libc::EBADF), StreamRead::Failed(f) if f.text == "broken")
    );
    assert_eq!(EIO, libc::EIO);
    assert_eq!(EAGAIN, libc::EAGAIN);
    assert_eq!(EAGAIN, libc::EWOULDBLOCK);
}
