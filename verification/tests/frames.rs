use serde_json::Value;
use toolport_codemode::frame::{
    json_size, read_frame, write_frame, ByteStream, Fed, FrameError, FrameReader, LimitedWriter,
    MAX_FRAME_BYTES,
};
use toolport_codemode::model::{ScriptInput, MAX_SCRIPT_BYTES, MAX_VALUE_BYTES};
use toolport_codemode::script::{check_input, wrap_script};

fn object(members: Vec<(&str, Value)>) -> Value {
    Value::Object(
        members
            .into_iter()
            .map(|(key, value)| (key.to_string(), value))
            .collect(),
    )
}

#[test]
fn frame_round_trip() {
    let frame = object(vec![
        ("type", Value::from("call")),
        ("id", Value::from(7)),
        ("index", Value::from(0)),
        ("name", Value::from("server__tool")),
        ("args", object(vec![("value", Value::from(1))])),
    ]);
    let mut bytes = Vec::new();
    write_frame(&mut bytes, &serde_json::to_vec(&frame).unwrap()).expect("write frame");
    let decoded = read_frame(&mut ByteStream::new(bytes))
        .expect("read frame")
        .expect("frame");
    let decoded: Value = serde_json::from_slice(&decoded).unwrap();
    assert_eq!(decoded["type"], "call");
    assert_eq!(decoded["id"], 7);
    assert_eq!(decoded["name"], "server__tool");
}

#[test]
fn oversized_prefix_is_rejected_before_body_read() {
    let size = (MAX_FRAME_BYTES as u32).saturating_add(1);
    let mut reader = ByteStream::new(size.to_be_bytes().to_vec());
    let error = read_frame(&mut reader).expect_err("oversized frame must fail");
    assert!(matches!(error, FrameError::Oversized { .. }));
    assert_eq!(reader.position, 4, "body must not be read or allocated");
}

#[test]
fn truncated_body_is_an_error() {
    let mut bytes = Vec::new();
    bytes.extend_from_slice(&5u32.to_be_bytes());
    bytes.extend_from_slice(b"{}");
    let error = read_frame(&mut ByteStream::new(bytes)).expect_err("truncated frame");
    assert!(matches!(error, FrameError::Io(_)));
}

#[test]
fn oversized_write_leaves_the_pipe_untouched() {
    let frame = object(vec![
        ("type", Value::from("call_result")),
        ("id", Value::from(1)),
        ("result", Value::String("x".repeat(MAX_FRAME_BYTES))),
    ]);
    let mut bytes = Vec::new();
    assert!(matches!(
        write_frame(&mut bytes, &serde_json::to_vec(&frame).unwrap()),
        Err(FrameError::Oversized { .. })
    ));
    assert!(
        bytes.is_empty(),
        "a rejected payload must not leave a partial frame"
    );
}

#[test]
fn json_size_counts_encoded_bytes_and_stops_at_the_limit() {
    let value = object(vec![("text", Value::from("\"\\\n"))]);
    let size = serde_json::to_vec(&value).unwrap().len();
    assert_eq!(json_size(&value, size), Some(size));
    assert_eq!(json_size(&value, size - 1), None);
}

#[test]
fn json_size_counts_bytes_rather_than_characters() {
    assert_eq!(json_size(&Value::from("é"), 100), Some(4));
    assert_eq!(json_size(&Value::Null, 4), Some(4));
    assert_eq!(json_size(&Value::Null, 3), None);
    assert_eq!(json_size(&Value::Null, 0), None);
}

#[test]
fn json_size_counts_past_its_first_room() {
    let value = Value::String("x".repeat(300_000));
    assert_eq!(json_size(&value, usize::MAX), Some(300_002));
    assert_eq!(json_size(&value, 300_002), Some(300_002));
    assert_eq!(json_size(&value, 300_001), None);
}

#[test]
fn a_frame_is_a_big_endian_length_and_its_payload() {
    let mut bytes = vec![9];
    write_frame(&mut bytes, &vec![b'x'; 258]).unwrap();
    assert_eq!(&bytes[..5], &[9, 0, 0, 1, 2]);
    assert_eq!(bytes.len(), 5 + 258);
    let mut largest = Vec::new();
    write_frame(&mut largest, &vec![b'x'; MAX_FRAME_BYTES]).unwrap();
    assert_eq!(&largest[..4], &[1, 0, 0, 0]);
}

#[test]
fn frames_read_back_in_order_until_the_stream_ends() {
    let mut bytes = Vec::new();
    write_frame(&mut bytes, &b"one".to_vec()).unwrap();
    write_frame(&mut bytes, &b"two".to_vec()).unwrap();
    let mut stream = ByteStream::new(bytes);
    assert_eq!(read_frame(&mut stream).unwrap(), Some(b"one".to_vec()));
    assert_eq!(read_frame(&mut stream).unwrap(), Some(b"two".to_vec()));
    assert_eq!(read_frame(&mut stream).unwrap(), None);
}

#[test]
fn a_frame_cut_anywhere_but_before_it_is_an_error() {
    let mut bytes = Vec::new();
    write_frame(&mut bytes, &b"{}".to_vec()).unwrap();
    for kept in 1..bytes.len() {
        let error = read_frame(&mut ByteStream::new(bytes[..kept].to_vec())).unwrap_err();
        assert_eq!(
            error.message(),
            "worker pipe I/O error: failed to fill whole buffer"
        );
    }
}

#[test]
fn an_empty_payload_is_refused_when_read() {
    let error = read_frame(&mut ByteStream::new(vec![0, 0, 0, 0])).unwrap_err();
    assert_eq!(
        error.message(),
        "worker frame is 0 bytes, over the 16777216-byte limit"
    );
}

#[test]
fn a_reader_judges_the_length_before_it_asks_for_the_body() {
    let mut reader = FrameReader::new();
    assert_eq!(reader.wants(), 1);
    assert!(matches!(reader.feed(vec![0]), Fed::More));
    assert_eq!(reader.wants(), 3);
    assert!(matches!(reader.feed(vec![0, 1, 0]), Fed::More));
    assert_eq!(reader.wants(), 256);
    assert!(matches!(reader.feed(vec![7; 256]), Fed::Payload(body) if body == vec![7; 256]));
    assert!(matches!(reader.feed(vec![]), Fed::Closed));
    assert!(matches!(reader.feed(vec![2]), Fed::More));
    assert!(matches!(
        reader.feed(vec![0, 0, 0]),
        Fed::Failed(FrameError::Oversized { size: 33554432 })
    ));
}

#[test]
fn frame_errors_say_what_happened() {
    assert_eq!(
        FrameError::InvalidJson("expected value".to_string()).message(),
        "worker frame is not valid JSON: expected value"
    );
    assert_eq!(
        FrameError::Oversized { size: 16777217 }.message(),
        "worker frame is 16777217 bytes, over the 16777216-byte limit"
    );
}

#[test]
fn a_limited_writer_stops_at_its_limit_however_the_bytes_are_chunked() {
    for chunks in [vec![5], vec![2, 3], vec![1, 1, 1, 1, 1]] {
        let mut writer = LimitedWriter::new((), 5);
        for chunk in chunks {
            assert!(writer.accepts(chunk));
            writer.advance(chunk);
        }
        assert_eq!(writer.written, 5);
        assert!(!writer.exceeded);
        assert!(matches!(
            writer.failure("bad".to_string()),
            FrameError::InvalidJson(detail) if detail == "bad"
        ));
        assert!(!writer.accepts(1));
        assert!(writer.exceeded);
        assert!(matches!(
            writer.failure("bad".to_string()),
            FrameError::Oversized { size: 16777217 }
        ));
    }
}

#[test]
fn input_over_its_limit_is_refused_by_name() {
    let ok = ScriptInput::Data(Value::Null);
    let source = "x".repeat(MAX_SCRIPT_BYTES);
    assert_eq!(check_input(&source, &ok), Ok(()));
    assert_eq!(
        check_input(&format!("{source}y"), &ok),
        Err("code mode script exceeds the 262144-byte source limit".to_string())
    );
    let fits = Value::String("x".repeat(MAX_VALUE_BYTES - 2));
    let large = Value::String("x".repeat(MAX_VALUE_BYTES - 1));
    assert_eq!(check_input("", &ScriptInput::Data(fits)), Ok(()));
    assert_eq!(
        check_input("", &ScriptInput::Data(large.clone())),
        Err("code mode data exceeds the 4194304-byte value limit".to_string())
    );
    assert_eq!(
        check_input("", &ScriptInput::ImmutableInput(large)),
        Err("code mode input exceeds the 4194304-byte value limit".to_string())
    );
}

#[test]
fn a_script_is_wrapped_in_an_async_function() {
    assert_eq!(
        wrap_script("return 1;"),
        "(async function () {\nreturn 1;\n})()"
    );
}
