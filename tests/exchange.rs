use ka3005p::{Exchange, Progress, PsuError, ReadOutcome};

fn pending(p: Progress) -> Exchange {
    match p {
        Progress::Pending(e) => e,
        _ => panic!("exchange should still be reading"),
    }
}

#[test]
fn exchange_request_is_the_command_bytes() {
    let ex = Exchange::new("VSET1:12.00");
    assert_eq!(ex.request(), b"VSET1:12.00");
    assert!(ex.received().is_empty());
}

#[test]
fn exchange_concatenates_two_reads_before_timeout() {
    let ex = Exchange::new("VOUT1?");
    let ex = pending(ex.on_written(6));
    let ex = pending(ex.on_read(ReadOutcome::Data(b"12.".to_vec())));
    assert_eq!(ex.received(), b"12.");
    let ex = pending(ex.on_read(ReadOutcome::Data(b"00".to_vec())));
    match ex.on_read(ReadOutcome::TimedOut) {
        Progress::Complete(reply) => assert_eq!(reply, b"12.00".to_vec()),
        _ => panic!("a timeout completes the reply"),
    }
}

#[test]
fn exchange_timeout_without_data_gives_empty_reply() {
    let ex = pending(Exchange::new("OUT1").on_written(4));
    match ex.on_read(ReadOutcome::TimedOut) {
        Progress::Complete(reply) => assert!(reply.is_empty()),
        _ => panic!("a timeout completes the reply"),
    }
}

#[test]
fn exchange_short_write_fails() {
    match Exchange::new("OUT1").on_written(3) {
        Progress::Failed(e) => assert_eq!(e, PsuError::ShortWrite),
        _ => panic!("a short write fails"),
    }
    match Exchange::new("OUT1").on_written(0) {
        Progress::Failed(e) => assert_eq!(e, PsuError::ShortWrite),
        _ => panic!("a short write fails"),
    }
}

#[test]
fn exchange_read_failure_aborts() {
    let ex = pending(Exchange::new("STATUS?").on_written(7));
    let ex = pending(ex.on_read(ReadOutcome::Data(vec![0x51])));
    match ex.on_read(ReadOutcome::Failed) {
        Progress::Failed(e) => assert_eq!(e, PsuError::Read),
        _ => panic!("a failed read ends the exchange"),
    }
}

#[test]
fn exchange_keeps_empty_reads() {
    let ex = pending(Exchange::new("IOUT1?").on_written(6));
    let ex = pending(ex.on_read(ReadOutcome::Data(Vec::new())));
    let ex = pending(ex.on_read(ReadOutcome::Data(b"0.305".to_vec())));
    match ex.on_read(ReadOutcome::TimedOut) {
        Progress::Complete(reply) => assert_eq!(reply, b"0.305".to_vec()),
        _ => panic!("a timeout completes the reply"),
    }
}
