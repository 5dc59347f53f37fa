use chunkfetch::Action;
use chunkfetch::FetchError;
use chunkfetch::Phase;
use chunkfetch::Session;
use sha2::Digest;

fn reference_digest(bytes: &[u8]) -> String {
    chunkfetch::hex_string(&sha2::Sha256::digest(bytes).to_vec())
}

#[test]
fn single_chunk_scenario() {
    let mut s = Session::new();
    assert!(matches!(s.next_action(), Action::Discover));
    s.on_discovery(Ok(10));
    assert_eq!(s.total_size, 10);
    let mut iterations = 0;
    loop {
        match s.next_action() {
            Action::Fetch { offset } => {
                assert_eq!(offset, 0);
                iterations += 1;
                s.on_chunk(b"0123456789".to_vec());
            }
            Action::Report => break,
            other => panic!("unexpected action {:?}", other),
        }
    }
    assert_eq!(iterations, 1);
    assert_eq!(s.data, b"0123456789".to_vec());
    s.begin_report();
    assert!(!s.size_mismatch());
    let digest = s.finish();
    assert_eq!(digest, reference_digest(b"0123456789"));
    assert!(matches!(s.next_action(), Action::Stop));
}

#[test]
fn zero_length_resource_fetches_nothing() {
    let mut s = Session::new();
    s.on_discovery(Ok(0));
    assert!(matches!(s.next_action(), Action::Report));
    s.begin_report();
    assert!(!s.size_mismatch());
    assert_eq!(s.data, Vec::<u8>::new());
    let digest = s.finish();
    assert_eq!(digest, "e3b0c44298fc1c149afbf4c8996fb92427ae41e4649b934ca495991b7852b855");
}

#[test]
fn empty_bodies_are_retried_at_the_same_offset() {
    let empty_before_data = 3;
    let mut s = Session::new();
    s.on_discovery(Ok(4));
    let mut calls_at_zero = 0;
    loop {
        match s.next_action() {
            Action::Fetch { offset } => {
                assert_eq!(offset, 0);
                let body = if calls_at_zero < empty_before_data {
                    Vec::new()
                } else {
                    b"DATA".to_vec()
                };
                calls_at_zero += 1;
                s.on_chunk(body);
            }
            Action::Report => break,
            other => panic!("unexpected action {:?}", other),
        }
    }
    assert_eq!(calls_at_zero, empty_before_data + 1);
    assert_eq!(s.data, b"DATA".to_vec());
}

#[test]
fn missing_length_fails_before_any_fetch() {
    let headers = b"HTTP/1.1 200 OK\r\nServer: x\r\n\r\n".to_vec();
    let discovered = chunkfetch::discover_size(&headers);
    assert_eq!(discovered, Err(FetchError::MissingLength));
    let mut s = Session::new();
    s.on_discovery(discovered);
    assert_eq!(s.phase, Phase::Failed);
    assert!(matches!(s.next_action(), Action::Stop));
    assert_eq!(s.data, Vec::<u8>::new());
}

#[test]
fn connection_failure_aborts() {
    let mut s = Session::new();
    s.on_discovery(Err(FetchError::Connection));
    assert_eq!(s.phase, Phase::Failed);
    assert!(matches!(s.next_action(), Action::Stop));
}

#[test]
fn truncated_run_reports_mismatch_and_digest_over_collected_bytes() {
    let mut s = Session::new();
    s.on_discovery(Ok(100));
    let body = vec![7u8; 90];
    s.on_chunk(body.clone());
    assert!(matches!(s.next_action(), Action::Fetch { offset: 90 }));
    s.begin_report();
    assert!(s.size_mismatch());
    let digest = s.finish();
    assert_eq!(digest, reference_digest(&body));
}

#[test]
fn overshooting_final_chunk_is_tolerated() {
    let mut s = Session::new();
    s.on_discovery(Ok(4));
    s.on_chunk(b"0123456789".to_vec());
    assert!(matches!(s.next_action(), Action::Report));
    s.begin_report();
    assert!(s.size_mismatch());
    let digest = s.finish();
    assert_eq!(digest, reference_digest(b"0123456789"));
}

#[test]
fn chunks_concatenate_in_acceptance_order() {
    let mut s = Session::new();
    s.on_discovery(Ok(5));
    s.on_chunk(b"abc".to_vec());
    assert_eq!(s.position, 3);
    s.on_chunk(Vec::new());
    assert_eq!(s.position, 3);
    s.on_chunk(b"de".to_vec());
    assert_eq!(s.position, 5);
    assert_eq!(s.data, b"abcde".to_vec());
    s.begin_report();
    assert!(!s.size_mismatch());
    assert_eq!(s.finish(), reference_digest(b"abcde"));
}

#[test]
fn discovery_parses_declared_length() {
    let headers = b"HTTP/1.1 200 OK\r\nContent-Length: 64\r\n\r\nignored body".to_vec();
    assert_eq!(chunkfetch::discover_size(&headers), Ok(64));
}
