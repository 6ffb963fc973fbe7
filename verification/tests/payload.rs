use index_controller::payload::{
    drain, forward, proceeds_after, PayloadChunk, PAYLOAD_CHANNEL_CAPACITY,
};

fn chunk(bytes: &[u8]) -> PayloadChunk {
    Ok(bytes.to_vec())
}

fn broken(message: &str) -> PayloadChunk {
    Err(message.to_string())
}

#[test]
fn channel_holds_ten_chunks() {
    assert_eq!(PAYLOAD_CHANNEL_CAPACITY, 10);
}

#[test]
fn forward_copies_a_clean_stream() {
    let source = vec![chunk(b"ab"), chunk(b""), chunk(b"cd")];
    assert_eq!(forward(source.clone()), source);
}

#[test]
fn forward_of_nothing_is_nothing() {
    assert_eq!(forward(Vec::new()), Vec::<PayloadChunk>::new());
}

#[test]
fn forward_stops_after_the_first_error() {
    let source = vec![chunk(b"ab"), broken("reset"), chunk(b"cd"), broken("again")];
    assert_eq!(forward(source), vec![chunk(b"ab"), broken("reset")]);
}

#[test]
fn forward_of_a_stream_that_starts_broken() {
    let source = vec![broken("refused"), chunk(b"cd")];
    assert_eq!(forward(source), vec![broken("refused")]);
}

#[test]
fn forwarded_stream_has_one_terminating_error_at_most() {
    let source = vec![chunk(b"a"), chunk(b"b"), broken("x"), broken("y"), chunk(b"c")];
    let channel = forward(source);
    let errors = channel.iter().filter(|item| item.is_err()).count();
    assert_eq!(errors, 1);
    assert!(channel.last().unwrap().is_err());
}

#[test]
fn forwarder_proceeds_after_chunks_only() {
    assert!(proceeds_after(&chunk(b"ab")));
    assert!(proceeds_after(&chunk(b"")));
    assert!(!proceeds_after(&broken("reset")));
}

#[test]
fn drain_concatenates_the_chunks() {
    let channel = vec![chunk(b"[{\"id\":"), chunk(b""), chunk(b"1}]")];
    assert_eq!(drain(&channel), Ok(b"[{\"id\":1}]".to_vec()));
}

#[test]
fn drain_of_an_empty_channel_is_empty() {
    assert_eq!(drain(&Vec::new()), Ok(Vec::new()));
}

#[test]
fn drain_yields_the_first_error() {
    let channel = vec![chunk(b"ab"), broken("reset"), chunk(b"cd"), broken("again")];
    assert_eq!(drain(&channel), Err("reset".to_string()));
}

#[test]
fn drain_sees_the_same_through_the_forwarder() {
    let clean = vec![chunk(b"ab"), chunk(b"cd")];
    assert_eq!(drain(&forward(clean.clone())), drain(&clean));
    let failing = vec![chunk(b"ab"), broken("reset"), chunk(b"cd")];
    assert_eq!(drain(&forward(failing.clone())), drain(&failing));
    assert_eq!(drain(&forward(failing)), Err("reset".to_string()));
}
