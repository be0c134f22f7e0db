use mqtt_client::transport::{recv, IoOutcome, IoStep, SendRun, StdError};

#[test]
fn attempts_to_receive() {
    assert_eq!(recv(IoOutcome::Moved(3)).unwrap(), IoStep::Moved(3));
    assert_eq!(recv(IoOutcome::WouldBlock).unwrap(), IoStep::Yield);
    assert_eq!(recv(IoOutcome::Interrupted).unwrap(), IoStep::Again);
    assert!(matches!(recv(IoOutcome::Moved(0)), Err(StdError::ConnectionClosed)));
    assert!(matches!(recv(IoOutcome::Failed("x".into())), Err(StdError::Io(m)) if m == "x"));
}

#[test]
fn a_buffer_goes_out_in_pieces() {
    let data = b"hello";
    let mut out: Vec<u8> = Vec::new();
    let mut run = SendRun::new(data.len());
    let mut sizes = vec![2usize, 1, 2].into_iter();
    while let Some(from) = run.rest() {
        assert_eq!(run.send(IoOutcome::WouldBlock).unwrap(), IoStep::Yield);
        assert_eq!(run.rest(), Some(from));
        let n = sizes.next().unwrap();
        out.extend_from_slice(&data[from..from + n]);
        assert_eq!(run.send(IoOutcome::Moved(n)).unwrap(), IoStep::Moved(n));
    }
    assert_eq!(out, data);
    assert_eq!(SendRun::new(0).rest(), None);
}

#[test]
fn a_closed_stream_ends_a_send() {
    let mut run = SendRun::new(5);
    assert!(matches!(run.send(IoOutcome::Moved(0)), Err(StdError::ConnectionClosed)));
    assert_eq!(run.rest(), Some(0));
    assert!(matches!(run.send(IoOutcome::Failed("reset".into())), Err(StdError::Io(_))));
}

#[test]
fn stream_errors_have_messages() {
    assert_eq!(StdError::Io("x".into()).message(), "io: x");
    assert_eq!(StdError::NotConnected.message(), "not connected");
    assert_eq!(StdError::ConnectionClosed.message(), "connection closed");
    assert_eq!(StdError::ConnectTimeout.message(), "connect timeout");
    assert_eq!(StdError::InvalidAddr.message(), "invalid address");
}
