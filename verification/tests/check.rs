//! The single-shot check operation, driven with the bytes a pty would
//! deliver: a spawned `cat` echoes a sent line back with `\r\n`, and a
//! spawned `echo` prints its argument and closes the stream.

use expectrl::captures::Captures;
use expectrl::error::Error;
use expectrl::needle::Needle;
use expectrl::stream::Stream;

fn found(result: Result<Captures, Error>) -> Captures {
    match result {
        Ok(captures) => captures,
        Err(e) => panic!("check failed: {:?}", e),
    }
}

#[test]
fn check_str() {
    // spawn("cat"); send_line("Hello World"); the pty echoes it back.
    let mut stream: Stream<()> = Stream::new(());
    stream.feed(b"Hello World\r\n");
    let m = found(stream.check(&Needle::Bytes(b"Hello World".to_vec())));
    assert!(!m.is_empty());
    assert_eq!(m.first(), &b"Hello World"[..]);
    assert_eq!(m.before(), &b""[..]);
}

#[test]
fn check_regex() {
    // spawn("cat"); send_line("Hello World"); match a regular expression.
    let mut stream: Stream<()> = Stream::new(());
    stream.feed(b"Hello World\r\n");
    let m = found(stream.check(&Needle::Regex("lo.*".to_string())));
    assert_eq!(m.before(), &b"Hel"[..]);
    assert_eq!(m.first(), &b"lo World\r"[..]);
}

#[test]
fn check_n_bytes() {
    // spawn("cat"); send_line("Hello World"); take the first three bytes.
    let mut stream: Stream<()> = Stream::new(());
    stream.feed(b"Hello World\r\n");
    let m = found(stream.check(&Needle::NBytes(3)));
    assert_eq!(m.first(), &b"Hel"[..]);
    assert_eq!(m.before(), &b""[..]);
}

#[test]
fn check_eof() {
    // spawn("echo 'Hello World'"); the child prints and exits.
    let mut stream: Stream<()> = Stream::new(());
    stream.feed(b"'Hello World'\r\n");
    stream.feed_eof();
    let m = found(stream.check(&Needle::Eof));
    assert_eq!(m.first(), &b"'Hello World'\r\n"[..]);
    assert_eq!(m.before(), &b""[..]);
}

#[test]
fn read_after_check_str() {
    // spawn("cat"); send_line("Hello World"); check("Hello") and then read
    // the rest of the line raw.
    let mut stream: Stream<()> = Stream::new(());
    stream.feed(b"Hello World\r\n");
    let m = found(stream.check(&Needle::Bytes(b"Hello".to_vec())));
    assert_eq!(m.first(), &b"Hello"[..]);
    let rest = stream.read_available(6);
    assert_eq!(rest, b" World".to_vec());
}

#[test]
fn check_eof_timeout() {
    // spawn("sleep 3"): no output and no end-of-file yet, so a check for
    // end-of-file yields an empty result and consumes nothing, while the
    // expect loop is told to keep pulling until its deadline.
    let mut stream: Stream<()> = Stream::new(());
    let m = found(stream.check(&Needle::Eof));
    assert!(m.is_empty());
    match stream.expect_step(&Needle::Eof) {
        Ok(expectrl::stream::ExpectStep::Pull) => {}
        other => panic!(
            "should keep pulling while the child runs: {:?}",
            other.is_ok()
        ),
    }
}

#[test]
fn check_macro_doest_consume_missmatch() {
    // A missed check leaves the buffer untouched; the content can still be
    // matched afterwards.
    let mut stream: Stream<()> = Stream::new(());
    stream.feed(b"Hello World\r\n");
    let m = found(stream.check(&Needle::Bytes(b"Something which is not inside".to_vec())));
    assert!(m.is_empty());
    assert_eq!(stream.peek(), &b"Hello World\r\n"[..]);
    stream.feed(b"345\r\n");
    stream.feed_eof();
    let m = found(stream.check(&Needle::Eof));
    assert_eq!(m.first(), &b"Hello World\r\n345\r\n"[..]);
}

#[test]
fn check_macro_with_different_needles() {
    // After cat received "Hello World" and then "345", an alternative of
    // "123" and "345" matches the 345 line.
    let mut stream: Stream<()> = Stream::new(());
    stream.feed(b"Hello World\r\n345\r\n");
    let needle = Needle::Any(vec![
        Needle::Bytes(b"123".to_vec()),
        Needle::Bytes(b"345".to_vec()),
    ]);
    let m = found(stream.check(&needle));
    assert_eq!(m.first(), &b"345"[..]);
    assert_eq!(m.before(), &b"Hello World\r\n"[..]);

    // A separate newline needle on the same echoed line.
    let mut stream: Stream<()> = Stream::new(());
    stream.feed(b"Hello World\r\n345\r\n");
    let m = found(stream.check(&Needle::Bytes(b"\n".to_vec())));
    assert_eq!(m.before(), &b"Hello World\r"[..]);
}

#[test]
fn check_macro() {
    // The straight form: a literal needle on the echoed line.
    let mut stream: Stream<()> = Stream::new(());
    stream.feed(b"Hello World\r\n");
    let m = found(stream.check(&Needle::Bytes(b"Hello World".to_vec())));
    assert!(!m.is_empty());
    assert_eq!(m.first(), &b"Hello World"[..]);
}

#[test]
fn check_macro_eof() {
    // The end-of-file arm: everything the child printed is the match.
    let mut stream: Stream<()> = Stream::new(());
    stream.feed(b"'Hello World'\r\n");
    stream.feed_eof();
    let m = found(stream.check(&Needle::Eof));
    assert_eq!(m.first(), &b"'Hello World'\r\n"[..]);
}

#[test]
fn check_miss_at_eof_is_eof_error() {
    let mut stream: Stream<()> = Stream::new(());
    stream.feed(b"abc");
    stream.feed_eof();
    match stream.check(&Needle::Bytes(b"zzz".to_vec())) {
        Err(Error::Eof) => {}
        other => panic!("expected the end-of-file error: {:?}", other.is_ok()),
    }
}

#[test]
fn check_bad_regex_is_compile_error() {
    let mut stream: Stream<()> = Stream::new(());
    stream.feed(b"abc");
    match stream.check(&Needle::Regex("(".to_string())) {
        Err(Error::RegexCompile) => {}
        other => panic!("expected the compile error: {:?}", other.is_ok()),
    }
}

#[test]
fn regex_empty_match_consumes_nothing() {
    let mut stream: Stream<()> = Stream::new(());
    stream.feed(b"bab");
    let m = found(stream.check(&Needle::Regex("a*".to_string())));
    assert!(!m.is_empty());
    assert_eq!(m.first(), &b""[..]);
    // The first range ends at offset zero, so nothing is consumed.
    assert_eq!(stream.peek(), &b"bab"[..]);
}

#[test]
fn any_with_eof_takes_the_whole_buffer_at_eof() {
    let mut stream: Stream<()> = Stream::new(());
    stream.feed(b"leftover");
    stream.feed_eof();
    let needle = Needle::Any(vec![Needle::Bytes(b"zzz".to_vec()), Needle::Eof]);
    let m = found(stream.check(&needle));
    assert_eq!(m.first(), &b"leftover"[..]);
    assert_eq!(stream.peek(), &b""[..]);
}
