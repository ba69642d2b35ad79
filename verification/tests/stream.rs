use tauri_plugin_axum::stream::{
    encode_data_frame, encode_end_frame, DrainInput, DrainPhase, StreamReader, DATA_MARKER,
    END_MARKER,
};

fn run(inputs: Vec<DrainInput>) -> (Vec<Vec<u8>>, DrainPhase) {
    let mut reader = StreamReader::new();
    let frames = reader.feed_all(inputs);
    (frames, reader.current_phase())
}

#[test]
fn feeding_all_at_once_is_feeding_one_by_one() {
    let inputs = vec![
        DrainInput::Data(vec![1]),
        DrainInput::Trailers,
        DrainInput::Data(Vec::new()),
        DrainInput::Data(vec![2, 3]),
        DrainInput::Malformed,
        DrainInput::Data(vec![4]),
    ];
    let mut one_by_one = StreamReader::new();
    let mut expected = Vec::new();
    for input in inputs.clone() {
        expected.extend(one_by_one.feed(input));
    }
    let mut at_once = StreamReader::new();
    assert_eq!(at_once.feed_all(inputs), expected);
    assert_eq!(expected, vec![vec![1, 0], vec![0], vec![2, 3, 0], vec![1]]);
    assert_eq!(at_once.current_phase(), one_by_one.current_phase());
    assert!(StreamReader::new().feed_all(Vec::new()).is_empty());
}

#[test]
fn data_frame_is_chunk_and_marker() {
    assert_eq!(encode_data_frame(vec![104, 105]), vec![104, 105, 0]);
    assert_eq!(encode_data_frame(Vec::new()), vec![DATA_MARKER]);
}

#[test]
fn end_frame_is_one_byte() {
    assert_eq!(encode_end_frame(), vec![1]);
    assert_eq!(encode_end_frame(), vec![END_MARKER]);
}

#[test]
fn end_frame_differs_from_every_data_frame() {
    assert_ne!(encode_data_frame(Vec::new()), encode_end_frame());
    assert_ne!(encode_data_frame(vec![1]), encode_end_frame());
    for b in 0..=255u8 {
        assert_ne!(encode_data_frame(vec![b]), encode_end_frame());
    }
}

#[test]
fn chunks_come_in_order_and_the_end_frame_is_last() {
    let (frames, phase) = run(vec![
        DrainInput::Data(b"Hello, ".to_vec()),
        DrainInput::Trailers,
        DrainInput::Data(b"World!".to_vec()),
        DrainInput::End,
    ]);
    assert_eq!(frames, vec![b"Hello, \0".to_vec(), b"World!\0".to_vec(), vec![1]]);
    assert_eq!(phase, DrainPhase::Finished);
}

#[test]
fn malformed_frame_ends_the_stream() {
    let (frames, phase) = run(vec![
        DrainInput::Data(vec![9]),
        DrainInput::Malformed,
        DrainInput::Data(vec![8]),
    ]);
    assert_eq!(frames, vec![vec![9, 0], vec![1]]);
    assert_eq!(phase, DrainPhase::Finished);
}

#[test]
fn failed_push_stops_the_drain() {
    let (frames, phase) = run(vec![
        DrainInput::Data(vec![1, 2, 3]),
        DrainInput::PushFailed,
        DrainInput::Data(vec![4]),
        DrainInput::End,
    ]);
    assert_eq!(frames, vec![vec![1, 2, 3, 0], vec![1]]);
    assert_eq!(phase, DrainPhase::Finished);
}

#[test]
fn canceled_drain_pushes_no_end_frame() {
    let (frames, phase) = run(vec![
        DrainInput::Data(vec![5]),
        DrainInput::Cancel,
        DrainInput::Data(vec![6]),
        DrainInput::End,
    ]);
    assert_eq!(frames, vec![vec![5, 0]]);
    assert!(!frames.contains(&encode_end_frame()));
    assert_eq!(phase, DrainPhase::Canceled);
}

#[test]
fn reader_wants_more_only_while_reading() {
    let mut reader = StreamReader::new();
    assert!(reader.wants_more());
    assert!(reader.feed(DrainInput::Trailers).is_none());
    assert!(reader.wants_more());
    assert_eq!(reader.feed(DrainInput::End), Some(vec![1]));
    assert!(!reader.wants_more());
    assert!(reader.feed(DrainInput::End).is_none());
}
