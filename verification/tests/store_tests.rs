use payload_store::store::BodyBuilder;
use payload_store::store::DataRing;
use payload_store::store::StoreError;

#[test]
fn wrap_around_three_payloads() {
    let mut ring = DataRing::from_lines(String::from("a\nb\nc"));
    let mut seen: Vec<usize> = Vec::new();
    for _ in 0..6 {
        let (idx, _) = ring.next_item();
        seen.push(idx);
    }
    assert_eq!(seen, vec![0, 1, 2, 0, 1, 2]);
}

#[test]
fn round_robin_fairness_window() {
    let mut ring = DataRing::from_lines(String::from("x\ny\nz"));
    let k = 4;
    let mut counts = [0usize; 3];
    for _ in 0..(k * 3) {
        let (idx, _) = ring.next_item();
        counts[idx] += 1;
    }
    assert_eq!(counts, [k, k, k]);
}

#[test]
fn next_item_returns_selected_payload() {
    let mut ring = DataRing::from_lines(String::from("one\ntwo"));
    let (idx0, bytes0) = ring.next_item();
    let (idx1, bytes1) = ring.next_item();
    assert_eq!(idx0, 0);
    assert_eq!(bytes0, b"one".to_vec());
    assert_eq!(idx1, 1);
    assert_eq!(bytes1, b"two".to_vec());
}

#[test]
fn get_is_idempotent_and_leaves_cursor_alone() {
    let mut ring = DataRing::from_lines(String::from("a\nb\nc"));
    let first = ring.get(1);
    let second = ring.get(1);
    let third = ring.get(1);
    assert_eq!(first, Some(b"b".to_vec()));
    assert_eq!(second, Some(b"b".to_vec()));
    assert_eq!(third, Some(b"b".to_vec()));
    let (idx, bytes) = ring.next_item();
    assert_eq!(idx, 0);
    assert_eq!(bytes, b"a".to_vec());
}

#[test]
fn get_out_of_range_is_none() {
    let ring = DataRing::from_vec(vec![1, 2, 3]);
    assert_eq!(ring.get(0), Some(vec![1, 2, 3]));
    assert_eq!(ring.get(1), None);
    assert_eq!(ring.get(usize::MAX), None);
}

#[test]
fn from_vec_single_payload() {
    let mut ring = DataRing::from_vec(vec![9, 8, 7]);
    for _ in 0..5 {
        let (idx, bytes) = ring.next_item();
        assert_eq!(idx, 0);
        assert_eq!(bytes, vec![9, 8, 7]);
    }
}

#[test]
fn from_string_keeps_utf8_bytes() {
    let text = String::from("h\u{e9}llo");
    let expected = text.as_bytes().to_vec();
    let mut ring = DataRing::from_string(text);
    let (idx, bytes) = ring.next_item();
    assert_eq!(idx, 0);
    assert_eq!(bytes, expected);
}

#[test]
fn lines_keep_empty_lines() {
    let mut ring = DataRing::from_lines(String::from("a\n\nb"));
    assert_eq!(ring.get(0), Some(b"a".to_vec()));
    assert_eq!(ring.get(1), Some(Vec::new()));
    assert_eq!(ring.get(2), Some(b"b".to_vec()));
    assert_eq!(ring.get(3), None);
    let (idx, _) = ring.next_item();
    assert_eq!(idx, 0);
}

#[test]
fn lines_strip_carriage_return_before_line_feed() {
    let ring = DataRing::from_lines(String::from("a\r\nb\r\n"));
    assert_eq!(ring.get(0), Some(b"a".to_vec()));
    assert_eq!(ring.get(1), Some(b"b".to_vec()));
    assert_eq!(ring.get(2), None);
}

#[test]
fn lines_keep_lone_carriage_return() {
    let ring = DataRing::from_lines(String::from("a\rb\nc\r"));
    assert_eq!(ring.get(0), Some(b"a\rb".to_vec()));
    assert_eq!(ring.get(1), Some(b"c\r".to_vec()));
    assert_eq!(ring.get(2), None);
}

#[test]
fn trailing_line_feed_adds_no_empty_payload() {
    let ring = DataRing::from_lines(String::from("a\nb\n"));
    assert_eq!(ring.get(0), Some(b"a".to_vec()));
    assert_eq!(ring.get(1), Some(b"b".to_vec()));
    assert_eq!(ring.get(2), None);
}

#[test]
fn single_installation_wins() {
    let mut builder = BodyBuilder::new();
    assert_eq!(builder.from_lines(String::from("a\nb\nc")), Ok(()));
    assert_eq!(
        builder.from_lines(String::from("x\ny")),
        Err(StoreError::AlreadyInitialized)
    );
    assert_eq!(
        builder.from_string(String::from("whole")),
        Err(StoreError::AlreadyInitialized)
    );
    assert_eq!(
        builder.from_vec(vec![1, 2]),
        Err(StoreError::AlreadyInitialized)
    );
    for (want, id_value) in [(b"a", 0i64), (b"b", 1), (b"c", 2), (b"a", 0)] {
        let (id, body) = builder.next_body();
        assert_eq!(id.to_sql_value(), id_value);
        assert_eq!(body.chunk(), want.as_slice());
    }
}

#[test]
fn reads_before_installation_are_empty() {
    let mut builder = BodyBuilder::new();
    let (id, body) = builder.next_body();
    assert_eq!(body.remaining(), 0);
    assert_eq!(id, Default::default());
    assert_eq!(id.to_sql_value(), 0);
    let replay = builder.body_by_index(id);
    assert_eq!(replay.remaining(), 0);
    assert_eq!(replay.chunk(), b"".as_slice());
}

#[test]
fn serving_rotates_and_replay_is_stable() {
    let mut builder = BodyBuilder::new();
    assert_eq!(builder.from_lines(String::from("alpha\nbeta\ngamma")), Ok(()));
    let (id0, body0) = builder.next_body();
    let (id1, body1) = builder.next_body();
    let (id2, body2) = builder.next_body();
    let (id3, body3) = builder.next_body();
    assert_eq!(body0.chunk(), b"alpha".as_slice());
    assert_eq!(body1.chunk(), b"beta".as_slice());
    assert_eq!(body2.chunk(), b"gamma".as_slice());
    assert_eq!(body3.chunk(), b"alpha".as_slice());
    assert_eq!(id0.to_sql_value(), 0);
    assert_eq!(id1.to_sql_value(), 1);
    assert_eq!(id2.to_sql_value(), 2);
    assert_eq!(id3.to_sql_value(), 0);
    assert_eq!(id0, id3);
    assert_ne!(id0, id1);
    let replay = builder.body_by_index(id1);
    assert_eq!(replay.chunk(), b"beta".as_slice());
}

#[test]
fn raw_buffer_streams_incrementally() {
    let payload: Vec<u8> = vec![0, 1, 2, 3, 4, 5, 6, 7, 8, 9];
    let mut builder = BodyBuilder::new();
    assert_eq!(builder.from_vec(payload.clone()), Ok(()));
    for _ in 0..3 {
        let (id, body) = builder.next_body();
        assert_eq!(id.to_sql_value(), 0);
        assert_eq!(body.remaining(), 10);
        assert_eq!(body.chunk(), payload.as_slice());
    }
    let (_, mut body) = builder.next_body();
    assert_eq!(body.chunk(), payload.as_slice());
    body.advance(4);
    assert_eq!(body.remaining(), 6);
    assert_eq!(body.chunk(), &payload[4..]);
    body.advance(6);
    assert_eq!(body.remaining(), 0);
    assert_eq!(body.chunk(), b"".as_slice());
}

#[test]
fn stale_identifier_yields_empty_body() {
    let mut builder = BodyBuilder::new();
    assert_eq!(builder.from_lines(String::from("only")), Ok(()));
    let (id, _) = builder.next_body();
    let good = builder.body_by_index(id);
    assert_eq!(good.chunk(), b"only".as_slice());
    let mut other = BodyBuilder::new();
    assert_eq!(other.from_lines(String::from("a\nb")), Ok(()));
    let (_, _) = other.next_body();
    let (stale, _) = other.next_body();
    assert_eq!(stale.to_sql_value(), 1);
    let missing = builder.body_by_index(stale);
    assert_eq!(missing.remaining(), 0);
}

#[test]
fn init_installs_a_prebuilt_ring() {
    let mut builder = BodyBuilder::new();
    let ring = DataRing::from_string(String::from("payload"));
    assert_eq!(builder.init(ring), Ok(()));
    let spare = DataRing::from_string(String::from("other"));
    assert_eq!(builder.init(spare), Err(StoreError::AlreadyInitialized));
    let (_, body) = builder.next_body();
    assert_eq!(body.chunk(), b"payload".as_slice());
}
