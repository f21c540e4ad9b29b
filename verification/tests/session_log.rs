//! The session wrapper, the log tee accounting, and the interactive
//! bridge's escape splitting.

use expectrl::interact::{split_at_escape, DEFAULT_ESCAPE_CODE};
use expectrl::log::LogBuffer;
use expectrl::needle::Needle;
use expectrl::session::{line_message, PtySession, Session};

#[test]
fn session_owns_process_and_stream() {
    let mut session: Session<u32, ()> = Session::new(7, ());
    assert_eq!(*session.get_process(), 7);
    *session.get_process_mut() = 8;
    assert_eq!(*session.get_process(), 8);
    assert_eq!(session.expect_timeout(), Some(30000));
    session.set_expect_timeout(Some(100));
    assert_eq!(session.expect_timeout(), Some(100));
    assert!(session.is_empty());
    let (process, _stream) = session.into_parts();
    assert_eq!(process, 8);
}

#[test]
fn session_check_delegates_to_the_engine() {
    let mut session: Session<u32, ()> = Session::new(1, ());
    session.engine_mut().feed(b"Hello World\r\n");
    assert!(session
        .is_matched(&Needle::Bytes(b"World".to_vec()))
        .unwrap());
    let m = session.check(&Needle::Bytes(b"Hello".to_vec())).unwrap();
    assert_eq!(m.first(), &b"Hello"[..]);
    assert_eq!(session.engine_ref().peek(), &b" World\r\n"[..]);
}

#[test]
fn pty_session_dispatches_get_process() {
    let plain: PtySession<u32, (), ()> = PtySession::Default(Session::new(5, ()));
    assert_eq!(*plain.get_process(), 5);
    let logged: PtySession<u32, (), ()> = PtySession::Logger(Session::new(6, ()));
    assert_eq!(*logged.get_process(), 6);
}

#[test]
fn line_message_appends_a_line_feed() {
    assert_eq!(line_message("Hello World"), b"Hello World\n".to_vec());
    assert_eq!(line_message(""), b"\n".to_vec());
}

#[test]
fn log_sees_exactly_the_transferred_bytes_in_order() {
    let mut log = LogBuffer::new();
    log.record(b"Hello");
    log.record(b" ");
    assert_eq!(log.take_pending(), b"Hello ".to_vec());
    log.record(b"World");
    assert_eq!(log.take_pending(), b"World".to_vec());
    assert_eq!(log.take_pending(), Vec::<u8>::new());
}

#[test]
fn escape_splitting_forwards_only_what_precedes_the_escape() {
    let (fore, seen) = split_at_escape(b"abc\x1ddef", DEFAULT_ESCAPE_CODE);
    assert!(seen);
    assert_eq!(fore, b"abc".to_vec());

    let (fore, seen) = split_at_escape(b"abcdef", DEFAULT_ESCAPE_CODE);
    assert!(!seen);
    assert_eq!(fore, b"abcdef".to_vec());

    let (fore, seen) = split_at_escape(b"\x1d", DEFAULT_ESCAPE_CODE);
    assert!(seen);
    assert_eq!(fore, Vec::<u8>::new());

    let (fore, seen) = split_at_escape(b"", DEFAULT_ESCAPE_CODE);
    assert!(!seen);
    assert_eq!(fore, Vec::<u8>::new());
}

#[test]
fn captures_accessors_on_a_multi_match() {
    let mut stream: expectrl::stream::Stream<()> = expectrl::stream::Stream::new(());
    stream.feed(b"abxabab");
    let m = stream.check(&Needle::Bytes(b"ab".to_vec())).unwrap();
    assert_eq!(m.matches_count(), 3);
    assert_eq!(m.get(0).unwrap(), &b"ab"[..]);
    assert_eq!(m.get(1).unwrap(), &b"ab"[..]);
    assert_eq!(m.get(2).unwrap(), &b"ab"[..]);
    assert!(m.get(3).is_none());
    assert_eq!(m.as_bytes(), &b"abxabab"[..]);
}
