//! The engine invariants: consume-iff-match, peek idempotence, the expect
//! loop steps, and raw buffer access.

use expectrl::needle::Needle;
use expectrl::stream::{deadline_expired, deadline_from, ExpectStep, Stream};

#[test]
fn consume_iff_match_consumes_exactly_the_first_range_end() {
    let mut stream: Stream<()> = Stream::new(());
    stream.feed(b"xxHello World\r\n");
    let m = stream
        .check(&Needle::Bytes(b"Hello".to_vec()))
        .unwrap();
    assert!(!m.is_empty());
    // The first range is [2, 7): exactly 7 bytes are consumed.
    assert_eq!(m.before(), &b"xx"[..]);
    assert_eq!(stream.peek(), &b" World\r\n"[..]);
}

#[test]
fn consume_iff_match_consumes_nothing_on_a_miss() {
    let mut stream: Stream<()> = Stream::new(());
    stream.feed(b"Hello World\r\n");
    let m = stream
        .check(&Needle::Bytes(b"absent".to_vec()))
        .unwrap();
    assert!(m.is_empty());
    assert_eq!(stream.peek(), &b"Hello World\r\n"[..]);
}

#[test]
fn peek_idempotence_two_calls_agree_and_leave_the_buffer() {
    let mut stream: Stream<()> = Stream::new(());
    stream.feed(b"Hello World\r\n");
    let needle = Needle::Bytes(b"World".to_vec());
    let first_answer = stream.is_matched(&needle).unwrap();
    let second_answer = stream.is_matched(&needle).unwrap();
    assert_eq!(first_answer, second_answer);
    assert!(first_answer);
    assert_eq!(stream.peek(), &b"Hello World\r\n"[..]);

    let missing = Needle::Bytes(b"absent".to_vec());
    assert_eq!(
        stream.is_matched(&missing).unwrap(),
        stream.is_matched(&missing).unwrap()
    );
    assert_eq!(stream.peek(), &b"Hello World\r\n"[..]);
}

#[test]
fn expect_step_pulls_until_the_needle_arrives() {
    let mut stream: Stream<()> = Stream::new(());
    let needle = Needle::Bytes(b"World".to_vec());
    match stream.expect_step(&needle).unwrap() {
        ExpectStep::Pull => {}
        ExpectStep::Matched(_) => panic!("nothing was fed yet"),
    }
    stream.feed(b"Hello ");
    match stream.expect_step(&needle).unwrap() {
        ExpectStep::Pull => {}
        ExpectStep::Matched(_) => panic!("the needle is not complete yet"),
    }
    stream.feed(b"World\r\n");
    match stream.expect_step(&needle).unwrap() {
        ExpectStep::Matched(m) => {
            assert_eq!(m.first(), &b"World"[..]);
            assert_eq!(m.before(), &b"Hello "[..]);
        }
        ExpectStep::Pull => panic!("the needle arrived"),
    }
    assert_eq!(stream.peek(), &b"\r\n"[..]);
}

#[test]
fn expect_step_surfaces_eof_when_no_match_can_come() {
    let mut stream: Stream<()> = Stream::new(());
    stream.feed(b"Hello");
    stream.feed_eof();
    match stream.expect_step(&Needle::Bytes(b"World".to_vec())) {
        Err(expectrl::error::Error::Eof) => {}
        other => panic!("expected the end-of-file error: {:?}", other.is_ok()),
    }
    // The buffer is untouched by the failure.
    assert_eq!(stream.peek(), &b"Hello"[..]);
}

#[test]
fn partial_matches_across_pull_boundaries() {
    let mut stream: Stream<()> = Stream::new(());
    stream.feed(b"Hel");
    stream.feed(b"lo Wor");
    stream.feed(b"ld\r\n");
    let m = stream
        .check(&Needle::Bytes(b"Hello World".to_vec()))
        .unwrap();
    assert_eq!(m.first(), &b"Hello World"[..]);
}

#[test]
fn read_available_takes_at_most_what_is_buffered() {
    let mut stream: Stream<()> = Stream::new(());
    stream.feed(b"abcdef");
    assert_eq!(stream.read_available(4), b"abcd".to_vec());
    assert_eq!(stream.read_available(100), b"ef".to_vec());
    assert_eq!(stream.read_available(1), Vec::<u8>::new());
    assert!(stream.is_empty());
}

#[test]
fn consume_drops_exactly_the_front() {
    let mut stream: Stream<()> = Stream::new(());
    stream.feed(b"abcdef");
    stream.consume(2);
    assert_eq!(stream.peek(), &b"cdef"[..]);
    stream.consume(0);
    assert_eq!(stream.peek(), &b"cdef"[..]);
}

#[test]
fn default_timeout_is_thirty_seconds_and_can_be_replaced() {
    let mut stream: Stream<()> = Stream::new(());
    assert_eq!(stream.expect_timeout(), Some(30000));
    stream.set_expect_timeout(Some(500));
    assert_eq!(stream.expect_timeout(), Some(500));
    stream.set_expect_timeout(None);
    assert_eq!(stream.expect_timeout(), None);
}

#[test]
fn deadlines_are_absolute_and_saturate() {
    assert_eq!(deadline_from(1000, Some(500)), Some(1500));
    assert_eq!(deadline_from(u64::MAX - 3, Some(10)), Some(u64::MAX));
    assert_eq!(deadline_from(1000, None), None);
    assert!(!deadline_expired(1499, Some(1500)));
    assert!(deadline_expired(1500, Some(1500)));
    assert!(deadline_expired(2000, Some(1500)));
    assert!(!deadline_expired(u64::MAX, None));
}
