use bytes::Bytes;
use witchcraft_server::logging::logger::byte_buffer::{BufBytesSink, WriteAction};

#[test]
fn simple_writes() {
    let mut sink = BufBytesSink::with_capacity(5, Vec::<Bytes>::new());

    sink.feed(Bytes::from(&b"aaaa"[..]));
    sink.feed(Bytes::from(&b"b"[..]));
    sink.feed(Bytes::from(&b"ccc"[..]));
    sink.feed(Bytes::from(&b"d"[..]));

    assert_eq!(*sink.inner(), vec![Bytes::from(&b"aaaab"[..])]);

    sink.poll_flush();

    assert_eq!(
        *sink.inner(),
        vec![Bytes::from(&b"aaaab"[..]), Bytes::from(&b"cccd"[..])],
    );
}

#[test]
fn oversized_writes() {
    let mut sink = BufBytesSink::with_capacity(5, Vec::<Bytes>::new());

    sink.feed(Bytes::from(&b"aaaa"[..]));
    sink.feed(Bytes::from(&b"bbbbbb"[..]));
    sink.feed(Bytes::from(&b"c"[..]));
    sink.poll_flush();

    assert_eq!(
        *sink.inner(),
        vec![
            Bytes::from(&b"aaaa"[..]),
            Bytes::from(&b"bbbbbb"[..]),
            Bytes::from(&b"c"[..])
        ],
    );
}

#[test]
fn nothing_is_sent_before_the_buffer_fills() {
    let mut sink = BufBytesSink::new(Vec::<Bytes>::new());
    sink.feed(Bytes::from(&b"abc"[..]));
    sink.feed(Bytes::from(&b"def"[..]));
    assert!(sink.inner().is_empty());
    sink.poll_close();
    assert_eq!(*sink.inner(), vec![Bytes::from(&b"abcdef"[..])]);
    assert!(!sink.has_buffered());
}

#[test]
fn exact_fit_stays_buffered() {
    let mut sink = BufBytesSink::with_capacity(4, Vec::<Bytes>::new());
    sink.feed(Bytes::from(&b"ab"[..]));
    sink.feed(Bytes::from(&b"cd"[..]));
    sink.poll_ready();
    assert!(sink.inner().is_empty());
    sink.feed(Bytes::from(&b"e"[..]));
    sink.poll_flush();
    assert_eq!(*sink.inner(), vec![Bytes::from(&b"abcd"[..]), Bytes::from(&b"e"[..])]);
}

#[test]
fn writing_pending_step_by_step() {

    let mut sink = BufBytesSink::with_capacity(5, Vec::<Bytes>::new());
    sink.start_send(Bytes::from(&b"aaaa"[..]));
    assert!(matches!(sink.poll_write_pending(None), WriteAction::Ready));
    sink.start_send(Bytes::from(&b"bbbbbb"[..]));
    assert!(matches!(sink.poll_write_pending(None), WriteAction::PollInner));
    assert!(matches!(sink.poll_write_pending(Some(false)), WriteAction::Pending));
    match sink.poll_write_pending(Some(true)) {
        WriteAction::Send(c) => assert_eq!(c, Bytes::from(&b"aaaa"[..])),
        other => panic!("expected the buffer, got {:?}", other),
    }
    assert!(matches!(sink.poll_write_pending(None), WriteAction::PollInner));
    match sink.poll_write_pending(Some(true)) {
        WriteAction::Send(c) => assert_eq!(c, Bytes::from(&b"bbbbbb"[..])),
        other => panic!("expected the chunk, got {:?}", other),
    }
    assert!(matches!(sink.poll_write_pending(None), WriteAction::Ready));
    assert!(!sink.has_buffered());
}
