use chatrelay::bytes::{bits_of_i64, i64_of_bits, push_u32_be, push_u64_be, read_u32_be, read_u64_be};
use chatrelay::codec::{
    decode_client_payload, decode_server_payload, encode_client_payload, encode_server_payload,
    push_bytes, DEFAULT_MAX_FRAME_LEN,
};
use chatrelay::error::ProtocolError;
use chatrelay::framing::{encode_client, encode_frame, encode_server, FrameDecoder, Payload};
use chatrelay::message::{
    ChatData, ClientChatData, ClientNetworkData, ServerChatData, ServerNetworkData,
};

fn chat(text: &str, id: usize) -> ClientNetworkData {
    ClientNetworkData::new(ClientChatData::SelfChatMessage(text.to_string(), id))
}

#[test]
fn big_endian_bytes_of_a_u32() {
    let mut out = vec![9u8];
    push_u32_be(&mut out, 0x0102_0304);
    assert_eq!(out, vec![9, 1, 2, 3, 4]);
    assert_eq!(read_u32_be(&out, 1), 0x0102_0304);
}

#[test]
fn big_endian_bytes_of_a_u64() {
    let mut out = Vec::new();
    push_u64_be(&mut out, 0x0102_0304_0506_0708);
    assert_eq!(out, vec![1, 2, 3, 4, 5, 6, 7, 8]);
    assert_eq!(read_u64_be(&out, 0), 0x0102_0304_0506_0708);
    let mut top = Vec::new();
    push_u64_be(&mut top, u64::MAX);
    assert_eq!(top, vec![255; 8]);
    assert_eq!(read_u64_be(&top, 0), u64::MAX);
}

#[test]
fn bit_patterns_of_signed_numbers() {
    assert_eq!(bits_of_i64(0), 0);
    assert_eq!(bits_of_i64(5), 5);
    assert_eq!(bits_of_i64(-1), u64::MAX);
    assert_eq!(bits_of_i64(i64::MIN), 0x8000_0000_0000_0000);
    assert_eq!(bits_of_i64(i64::MAX), 0x7fff_ffff_ffff_ffff);
    assert_eq!(i64_of_bits(u64::MAX), -1);
    assert_eq!(i64_of_bits(0x8000_0000_0000_0000), i64::MIN);
    assert_eq!(i64_of_bits(0x7fff_ffff_ffff_ffff), i64::MAX);
    assert_eq!(i64_of_bits(bits_of_i64(-1_234_567)), -1_234_567);
}

#[test]
fn push_bytes_appends() {
    let mut out = vec![1u8, 2];
    push_bytes(&mut out, &[3, 4, 5]);
    assert_eq!(out, vec![1, 2, 3, 4, 5]);
    push_bytes(&mut out, &[]);
    assert_eq!(out, vec![1, 2, 3, 4, 5]);
}

#[test]
fn payload_of_a_client_chat_message() {
    let payload = encode_client_payload(&chat("hi", 1));
    assert_eq!(payload, vec![1, 1, 0, 0, 0, 0, 0, 0, 0, 1, b'h', b'i']);
}

#[test]
fn payload_of_a_client_video_frame() {
    let message = ClientNetworkData::new(ClientChatData::VideoFrame(vec![7, 8, 9], 176, 144));
    let payload = encode_client_payload(&message);
    assert_eq!(payload, vec![1, 2, 0, 0, 0, 176, 0, 0, 0, 144, 7, 8, 9]);
    assert_eq!(decode_client_payload(&payload), Ok(message));
}

#[test]
fn payload_of_a_server_message() {
    let other = ServerNetworkData::new(5, ServerChatData::OtherChatMessage("hi".to_string()));
    assert_eq!(
        encode_server_payload(&other),
        vec![1, 1, 0, 0, 0, 0, 0, 0, 0, 5, b'h', b'i']
    );
    let echo = ServerNetworkData::new(-1, ServerChatData::SelfChatMessage("hi".to_string(), 258));
    assert_eq!(
        encode_server_payload(&echo),
        vec![
            1, 2, 255, 255, 255, 255, 255, 255, 255, 255, 0, 0, 0, 0, 0, 0, 1, 2, b'h', b'i'
        ]
    );
    let video = ServerNetworkData::new(0, ServerChatData::VideoFrame(vec![42], 2, 3, 4));
    assert_eq!(
        encode_server_payload(&video),
        vec![1, 3, 0, 0, 0, 0, 0, 0, 0, 0, 0, 0, 0, 4, 0, 0, 0, 2, 0, 0, 0, 3, 42]
    );
}

#[test]
fn client_messages_round_trip() {
    let messages = vec![
        chat("", 0),
        chat("hello, world", 42),
        chat("gr\u{fc}\u{df}e \u{1f600}", usize::MAX),
        ClientNetworkData::new(ClientChatData::VideoFrame(Vec::new(), 0, 0)),
        ClientNetworkData::new(ClientChatData::VideoFrame(vec![0, 255, 1], u32::MAX, 1)),
    ];
    for message in messages {
        let payload = encode_client_payload(&message);
        assert_eq!(decode_client_payload(&payload), Ok(message));
    }
}

#[test]
fn server_messages_round_trip() {
    let messages = vec![
        ServerNetworkData::new(0, ServerChatData::OtherChatMessage(String::new())),
        ServerNetworkData::new(i64::MIN, ServerChatData::OtherChatMessage("a b c".to_string())),
        ServerNetworkData::new(i64::MAX, ServerChatData::SelfChatMessage("\u{e9}".to_string(), 7)),
        ServerNetworkData::new(-17, ServerChatData::SelfChatMessage(String::new(), usize::MAX)),
        ServerNetworkData::new(1_700_000_000_000, ServerChatData::VideoFrame(vec![1, 2], 3, 4, 5)),
        ServerNetworkData::new(9, ServerChatData::VideoFrame(Vec::new(), 0, 0, u32::MAX)),
    ];
    for message in messages {
        let payload = encode_server_payload(&message);
        assert_eq!(decode_server_payload(&payload), Ok(message));
    }
}

#[test]
fn malformed_client_payloads_are_rejected() {
    let bad: Vec<Vec<u8>> = vec![
        vec![],
        vec![1],
        vec![1, 1, 0, 0, 0, 0, 0, 0, 0],
        vec![2, 1, 0, 0, 0, 0, 0, 0, 0, 1, b'h'],
        vec![1, 0, 0, 0, 0, 0, 0, 0, 0, 1, b'h'],
        vec![1, 3, 0, 0, 0, 0, 0, 0, 0, 1, b'h'],
        vec![1, 1, 0, 0, 0, 0, 0, 0, 0, 1, 0xff],
        vec![1, 1, 0, 0, 0, 0, 0, 0, 0, 1, 0xc3],
        vec![1, 2, 0, 0, 0, 1, 0, 0, 0],
    ];
    for payload in bad {
        assert_eq!(decode_client_payload(&payload), Err(ProtocolError::MalformedPayload));
    }
}

#[test]
fn malformed_server_payloads_are_rejected() {
    let bad: Vec<Vec<u8>> = vec![
        vec![],
        vec![1, 1, 0, 0, 0, 0, 0, 0, 0],
        vec![0, 1, 0, 0, 0, 0, 0, 0, 0, 0],
        vec![1, 4, 0, 0, 0, 0, 0, 0, 0, 0],
        vec![1, 1, 0, 0, 0, 0, 0, 0, 0, 0, 0x80],
        vec![1, 2, 0, 0, 0, 0, 0, 0, 0, 0, 0, 0, 0, 0, 0, 0, 0],
        vec![1, 2, 0, 0, 0, 0, 0, 0, 0, 0, 0, 0, 0, 0, 0, 0, 0, 1, 0xfe],
        vec![1, 3, 0, 0, 0, 0, 0, 0, 0, 0, 0, 0, 0, 4, 0, 0, 0, 2, 0, 0, 0],
    ];
    for payload in bad {
        assert_eq!(decode_server_payload(&payload), Err(ProtocolError::MalformedPayload));
    }
}

#[test]
fn shortest_payloads_that_hold_a_message() {
    assert_eq!(
        decode_client_payload(&[1, 1, 0, 0, 0, 0, 0, 0, 0, 9]),
        Ok(chat("", 9))
    );
    assert_eq!(
        decode_server_payload(&[1, 1, 0, 0, 0, 0, 0, 0, 0, 9]),
        Ok(ServerNetworkData::new(9, ServerChatData::OtherChatMessage(String::new())))
    );
    assert_eq!(
        decode_server_payload(&[1, 3, 0, 0, 0, 0, 0, 0, 0, 0, 0, 0, 0, 4, 0, 0, 0, 2, 0, 0, 0, 3]),
        Ok(ServerNetworkData::new(0, ServerChatData::VideoFrame(Vec::new(), 2, 3, 4)))
    );
}

#[test]
fn frame_is_length_prefixed() {
    assert_eq!(encode_frame(&[7, 9], 16), Ok(vec![0, 0, 0, 2, 7, 9]));
    assert_eq!(encode_frame(&[], 0), Ok(vec![0, 0, 0, 0]));
    let long = vec![0u8; 300];
    let framed = encode_frame(&long, 300).unwrap();
    assert_eq!(&framed[..4], &[0, 0, 1, 44]);
    assert_eq!(framed.len(), 304);
}

#[test]
fn frame_over_the_limit_is_refused() {
    assert_eq!(encode_frame(&[1, 2, 3], 2), Err(ProtocolError::OversizedFrame));
    assert_eq!(encode_frame(&[1, 2, 3], 3), Ok(vec![0, 0, 0, 3, 1, 2, 3]));
    assert_eq!(encode_client(&chat("hi", 1), 11), Err(ProtocolError::OversizedFrame));
    assert!(encode_client(&chat("hi", 1), 12).is_ok());
    let other = ServerNetworkData::new(5, ServerChatData::OtherChatMessage("hi".to_string()));
    assert_eq!(encode_server(&other, 11), Err(ProtocolError::OversizedFrame));
    assert!(encode_server(&other, 12).is_ok());
}

#[test]
fn frame_of_a_chat_message() {
    assert_eq!(
        encode_client(&chat("hi", 1), DEFAULT_MAX_FRAME_LEN),
        Ok(vec![0, 0, 0, 12, 1, 1, 0, 0, 0, 0, 0, 0, 0, 1, b'h', b'i'])
    );
}

#[test]
fn decoder_waits_for_the_rest_of_a_frame() {
    let mut decoder = FrameDecoder::new(64);
    assert_eq!(decoder.next_frame(false), Ok(None));
    decoder.feed(&[0, 0]);
    assert_eq!(decoder.next_frame(false), Ok(None));
    decoder.feed(&[0, 3]);
    assert_eq!(decoder.next_frame(false), Ok(None));
    decoder.feed(&[1, 2]);
    assert_eq!(decoder.next_frame(false), Ok(None));
    assert_eq!(decoder.pending_len(), 6);
    decoder.feed(&[3, 0]);
    assert_eq!(decoder.next_frame(false), Ok(Some(vec![1, 2, 3])));
    assert_eq!(decoder.pending_len(), 1);
    assert_eq!(decoder.next_frame(false), Ok(None));
    assert_eq!(decoder.max_len(), 64);
}

#[test]
fn decoder_reports_the_end_of_the_stream() {
    let mut empty = FrameDecoder::new(64);
    assert_eq!(empty.next_frame(true), Err(ProtocolError::ConnectionClosed));
    let mut prefix = FrameDecoder::new(64);
    prefix.feed(&[0, 0, 0]);
    assert_eq!(prefix.next_frame(true), Err(ProtocolError::ConnectionClosed));
    let mut partial = FrameDecoder::new(64);
    partial.feed(&[0, 0, 0, 2, 1]);
    assert_eq!(partial.next_frame(true), Err(ProtocolError::ConnectionClosed));
    let mut whole = FrameDecoder::new(64);
    whole.feed(&[0, 0, 0, 2, 1, 2]);
    assert_eq!(whole.next_frame(true), Ok(Some(vec![1, 2])));
    assert_eq!(whole.next_frame(true), Err(ProtocolError::ConnectionClosed));
}

#[test]
fn decoder_checks_the_length_before_the_payload_arrives() {
    let mut decoder = FrameDecoder::new(8);
    decoder.feed(&[0, 0, 0, 9]);
    assert_eq!(decoder.next_frame(false), Err(ProtocolError::OversizedFrame));
    assert_eq!(decoder.pending_len(), 4);
    assert_eq!(decoder.next_frame(true), Err(ProtocolError::OversizedFrame));
    let mut at_limit = FrameDecoder::new(8);
    at_limit.feed(&[0, 0, 0, 8]);
    assert_eq!(at_limit.next_frame(false), Ok(None));
    let mut huge = FrameDecoder::new(DEFAULT_MAX_FRAME_LEN);
    huge.feed(&[255, 255, 255, 255]);
    assert_eq!(huge.next_frame(false), Err(ProtocolError::OversizedFrame));
}

#[test]
fn decoder_takes_a_malformed_frame_from_the_stream() {
    let mut decoder = FrameDecoder::new(64);
    decoder.feed(&[0, 0, 0, 1, 9]);
    decoder.feed(&encode_client(&chat("ok", 3), 64).unwrap());
    assert_eq!(decoder.next_client(false), Err(ProtocolError::MalformedPayload));
    assert_eq!(decoder.next_client(false), Ok(Some(chat("ok", 3))));
    assert_eq!(decoder.next_client(false), Ok(None));
    assert_eq!(decoder.next_client(true), Err(ProtocolError::ConnectionClosed));
}

fn stream_of_server_messages() -> (Vec<ServerNetworkData>, Vec<u8>) {
    let messages = vec![
        ServerNetworkData::new(1, ServerChatData::OtherChatMessage("first".to_string())),
        ServerNetworkData::new(2, ServerChatData::SelfChatMessage("second".to_string(), 2)),
        ServerNetworkData::new(3, ServerChatData::VideoFrame(vec![0, 1, 2, 3, 4], 5, 1, 9)),
        ServerNetworkData::new(4, ServerChatData::OtherChatMessage(String::new())),
    ];
    let mut stream = Vec::new();
    for message in &messages {
        stream.extend(encode_server(message, 1024).unwrap());
    }
    (messages, stream)
}

fn drain_server(decoder: &mut FrameDecoder, into: &mut Vec<ServerNetworkData>) {
    while let Some(message) = decoder.next_server(false).unwrap() {
        into.push(message);
    }
}

#[test]
fn byte_by_byte_decoding_equals_whole_decoding() {
    let (messages, stream) = stream_of_server_messages();
    let mut whole = FrameDecoder::new(1024);
    let mut from_whole = Vec::new();
    whole.feed(&stream);
    drain_server(&mut whole, &mut from_whole);
    let mut single = FrameDecoder::new(1024);
    let mut from_single = Vec::new();
    for byte in &stream {
        single.feed(&[*byte]);
        drain_server(&mut single, &mut from_single);
    }
    assert_eq!(from_whole, messages);
    assert_eq!(from_single, messages);
    assert_eq!(whole.pending_len(), 0);
    assert_eq!(single.pending_len(), 0);
}

#[test]
fn any_chunking_decodes_alike() {
    let (messages, stream) = stream_of_server_messages();
    for size in 1..stream.len() + 2 {
        let mut decoder = FrameDecoder::new(1024);
        let mut got = Vec::new();
        for chunk in stream.chunks(size) {
            decoder.feed(chunk);
            drain_server(&mut decoder, &mut got);
        }
        assert_eq!(got, messages);
    }
}

#[test]
fn chat_data_keeps_what_the_server_sent() {
    assert_eq!(
        ChatData::from_server(ServerChatData::OtherChatMessage("a".to_string())),
        ChatData::OtherChatMessage("a".to_string())
    );
    assert_eq!(
        ChatData::from_server(ServerChatData::SelfChatMessage("b".to_string(), 4)),
        ChatData::SelfChatMessage("b".to_string(), 4)
    );
    assert_eq!(
        ChatData::from_server(ServerChatData::VideoFrame(vec![1], 2, 3, 4)),
        ChatData::VideoFrame(vec![1], 2, 3, 4)
    );
}

#[test]
fn error_words() {
    assert_eq!(ProtocolError::MalformedPayload.describe(), "malformed payload");
    assert_eq!(ProtocolError::ConnectionClosed.describe(), "connection closed");
    assert_eq!(ProtocolError::OversizedFrame.describe(), "oversized frame");
    assert_eq!(ProtocolError::ChannelOverflow.describe(), "channel overflow");
    assert!(ProtocolError::MalformedPayload.fatal());
    assert!(ProtocolError::ConnectionClosed.fatal());
    assert!(ProtocolError::OversizedFrame.fatal());
    assert!(!ProtocolError::ChannelOverflow.fatal());
}

#[test]
fn drain_hands_out_every_whole_frame() {
    let (messages, stream) = stream_of_server_messages();
    let mut decoder = FrameDecoder::new(1024);
    decoder.feed(&stream);
    decoder.feed(&[0, 0, 0, 5, 1]);
    let (got, error) = decoder.drain::<ServerNetworkData>();
    assert_eq!(got, messages);
    assert_eq!(error, None);
    assert_eq!(decoder.pending_len(), 5);
    let (none, error) = decoder.drain::<ServerNetworkData>();
    assert!(none.is_empty());
    assert_eq!(error, None);
    assert_eq!(decoder.pending_len(), 5);
}

#[test]
fn drain_stops_at_the_first_frame_that_holds_no_message() {
    let mut decoder = FrameDecoder::new(64);
    decoder.feed(&encode_client(&chat("a", 1), 64).unwrap());
    decoder.feed(&[0, 0, 0, 1, 9]);
    decoder.feed(&encode_client(&chat("b", 2), 64).unwrap());
    let (got, error) = decoder.drain::<ClientNetworkData>();
    assert_eq!(got, vec![chat("a", 1)]);
    assert_eq!(error, Some(ProtocolError::MalformedPayload));
    assert_eq!(decoder.pending_len(), 0);
    let mut oversized = FrameDecoder::new(16);
    oversized.feed(&encode_client(&chat("a", 1), 16).unwrap());
    oversized.feed(&[0, 0, 0, 17, 1, 2]);
    let (got, error) = oversized.drain::<ClientNetworkData>();
    assert_eq!(got, vec![chat("a", 1)]);
    assert_eq!(error, Some(ProtocolError::OversizedFrame));
    assert_eq!(oversized.pending_len(), 0);
}

#[test]
fn next_message_decodes_either_direction() {
    let mut decoder = FrameDecoder::new(64);
    decoder.feed(&encode_client(&chat("a", 1), 64).unwrap());
    assert_eq!(decoder.next_message::<ClientNetworkData>(false), Ok(Some(chat("a", 1))));
    assert_eq!(decoder.next_message::<ClientNetworkData>(false), Ok(None));
    let other = ServerNetworkData::new(3, ServerChatData::OtherChatMessage("b".to_string()));
    decoder.feed(&encode_server(&other, 64).unwrap());
    assert_eq!(decoder.next_message::<ServerNetworkData>(true), Ok(Some(other)));
    assert_eq!(
        decoder.next_message::<ServerNetworkData>(true),
        Err(ProtocolError::ConnectionClosed)
    );
    assert_eq!(
        ClientNetworkData::decode(&[1, 1, 0, 0, 0, 0, 0, 0, 0, 9]),
        Ok(chat("", 9))
    );
    assert_eq!(ServerNetworkData::decode(&[7]), Err(ProtocolError::MalformedPayload));
}
