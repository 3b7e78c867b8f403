use tt_server::h3_frame::{
    encode_h3_data_frame, max_h3_data_payload_for_capacity, MIN_USABLE_QUIC_STREAM_CAPACITY,
};

#[test]
fn frames_carry_their_length() {
    assert_eq!(encode_h3_data_frame(b""), vec![0, 0]);
    assert_eq!(encode_h3_data_frame(b"abc"), b"\x00\x03abc".to_vec());
    let short = vec![7u8; 63];
    assert_eq!(encode_h3_data_frame(&short)[..2], [0, 63]);
    let longer = vec![7u8; 64];
    assert_eq!(encode_h3_data_frame(&longer)[..3], [0, 0x40, 0x40]);
    let long = vec![7u8; 0x3fff];
    assert_eq!(encode_h3_data_frame(&long)[..3], [0, 0x7f, 0xff]);
    let longest = vec![7u8; 0x4000];
    let frame = encode_h3_data_frame(&longest);
    assert_eq!(frame[..5], [0, 0x80, 0, 0x40, 0]);
    assert_eq!(frame.len(), 5 + 0x4000);
    assert_eq!(frame[5..], longest[..]);
}

#[test]
fn largest_payload_fills_the_capacity() {
    assert_eq!(MIN_USABLE_QUIC_STREAM_CAPACITY, 3);
    assert_eq!(max_h3_data_payload_for_capacity(0), 0);
    assert_eq!(max_h3_data_payload_for_capacity(2), 0);
    assert_eq!(max_h3_data_payload_for_capacity(3), 1);
    assert_eq!(max_h3_data_payload_for_capacity(65), 63);
    assert_eq!(max_h3_data_payload_for_capacity(66), 63);
    assert_eq!(max_h3_data_payload_for_capacity(67), 64);
    assert_eq!(max_h3_data_payload_for_capacity(1200), 1197);
    assert_eq!(max_h3_data_payload_for_capacity(0x4000 + 2), 0x3fff);
    assert_eq!(max_h3_data_payload_for_capacity(0x4000 + 4), 0x3fff);
    assert_eq!(max_h3_data_payload_for_capacity(0x4000 + 5), 0x4000);
}

fn read_frame(stream: &[u8]) -> (Vec<u8>, &[u8]) {
    assert_eq!(stream[0], 0);
    let width = 1usize << (stream[1] >> 6);
    let mut len = (stream[1] & 0x3f) as usize;
    for byte in &stream[2..1 + width] {
        len = len * 256 + *byte as usize;
    }
    let start = 1 + width;
    (stream[start..start + len].to_vec(), &stream[start + len..])
}

#[test]
fn frames_on_a_stream_can_be_told_apart() {
    let payloads: Vec<Vec<u8>> = vec![vec![1; 5], vec![], vec![0; 100], vec![9; 20000]];
    let mut stream: Vec<u8> = vec![];
    for payload in &payloads {
        stream.extend(encode_h3_data_frame(payload));
    }
    let mut rest: &[u8] = &stream;
    let mut read = vec![];
    while !rest.is_empty() {
        let (payload, left) = read_frame(rest);
        read.push(payload);
        rest = left;
    }
    assert_eq!(read, payloads);
}
