use samsynk::helpers::group_consecutive;
use samsynk::modbus::{assemble_read, Query, Response, Serializer, TransportError};
use samsynk::sensor::SensorError;

#[test]
fn concurrent_reads_get_their_own_replies() {
    // N read submissions, the transport replying with value i for request
    // i: every submitter receives its own value back, in arrival order,
    // with no cross-talk.
    let n: u16 = 5;
    let mut serializer = Serializer::new();
    let mut tickets = Vec::new();
    for i in 0..n {
        let ticket = serializer.submit(Query::Read(vec![100 + i])).unwrap();
        tickets.push(ticket);
    }
    // Tickets are pairwise distinct.
    for i in 0..tickets.len() {
        for j in 0..i {
            assert_ne!(tickets[i], tickets[j]);
        }
    }
    // The worker executes strictly in arrival order; reply i reaches
    // exactly the caller that submitted request i.
    for i in 0..n {
        let (ticket, outcome) = serializer
            .complete(Ok(Response::Read(vec![i])))
            .unwrap();
        assert_eq!(ticket, tickets[i as usize]);
        match outcome {
            Ok(Response::Read(words)) => assert_eq!(words, vec![i]),
            _ => panic!("expected the read response"),
        }
    }
    assert_eq!(serializer.pending(), 0);
}

#[test]
fn transport_failure_does_not_block_next_request() {
    let mut serializer = Serializer::new();
    let first = serializer.submit(Query::Read(vec![1])).unwrap();
    let second = serializer.submit(Query::Read(vec![2])).unwrap();

    // The first request fails on the bus; only its caller sees the error.
    let (ticket, outcome) = serializer.complete(Err(TransportError::Io)).unwrap();
    assert_eq!(ticket, first);
    assert_eq!(outcome, Err(TransportError::Io));

    // The bus stays usable: the next queued request executes successfully.
    let (ticket, outcome) = serializer
        .complete(Ok(Response::Read(vec![7])))
        .unwrap();
    assert_eq!(ticket, second);
    assert_eq!(outcome, Ok(Response::Read(vec![7])));
}

#[test]
fn closed_serializer_rejects_submissions() {
    let mut serializer = Serializer::new();
    let queued = serializer.submit(Query::Read(vec![1])).unwrap();
    serializer.close();
    // Submissions after shutdown fail immediately ...
    assert_eq!(
        serializer.submit(Query::Read(vec![2])),
        Err(SensorError::SerializerUnavailable)
    );
    // ... but what was already queued is still completed.
    let (ticket, _) = serializer.complete(Ok(Response::Read(vec![3]))).unwrap();
    assert_eq!(ticket, queued);
    assert!(serializer.complete(Ok(Response::Write(()))).is_none());
}

#[test]
fn head_is_first_in_first_out() {
    let mut serializer = Serializer::new();
    assert!(serializer.head().is_none());
    serializer.submit(Query::Write((220, 45))).unwrap();
    serializer.submit(Query::Read(vec![183])).unwrap();
    let head = serializer.head().unwrap();
    assert_eq!(head.query, Query::Write((220, 45)));
    serializer.complete(Ok(Response::Write(()))).unwrap();
    let head = serializer.head().unwrap();
    assert_eq!(head.query, Query::Read(vec![183]));
}

#[test]
fn assemble_read_concatenates_in_run_order() {
    let runs = group_consecutive(vec![1, 2, 3, 5, 6, 9]);
    assert_eq!(runs, vec![(1, 3), (5, 2), (9, 1)]);
    let results = vec![vec![10, 20, 30], vec![50, 60], vec![90]];
    let words = assemble_read(&runs, results).unwrap();
    assert_eq!(words, vec![10, 20, 30, 50, 60, 90]);
}

#[test]
fn assemble_read_rejects_short_response() {
    let runs = vec![(1, 3), (5, 2)];
    // The second run's response has one word too few.
    let results = vec![vec![10, 20, 30], vec![50]];
    assert_eq!(
        assemble_read(&runs, results),
        Err(TransportError::ResponseLength)
    );
    // A missing response is a malformed reply too.
    assert_eq!(
        assemble_read(&runs, vec![vec![10, 20, 30]]),
        Err(TransportError::ResponseLength)
    );
}
