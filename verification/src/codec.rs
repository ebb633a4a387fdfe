//! The wire format: a versioned, tagged payload inside a length-prefixed frame.
//!
//! A frame is the payload's length as a big-endian `u32`, then the payload.
//! A payload starts with the format version and a tag; the fixed-width fields
//! of the tagged message follow, and its text or frame data takes the rest.

use crate::bytes::{
    bits_of_i64, i64_bits, i64_from_bits, i64_of_bits, lemma_i64_bits_round_trip,
    lemma_u32_be_round_trip, lemma_u32_from_be_round_trip, lemma_u64_be_round_trip,
    lemma_u64_from_be_round_trip, push_u32_be, push_u64_be, read_u32_be, read_u64_be, u32_be,
    u32_from_be, u64_be, u64_from_be,
};
use crate::error::ProtocolError;
use crate::message::{
    ClientChat, ClientChatData, ClientNetworkData, ServerChat, ServerChatData, ServerMessage,
    ServerNetworkData,
};
use vstd::prelude::*;
use vstd::slice::*;
use vstd::utf8::*;

verus! {

/// The version of the payload format.
pub const VERSION: u8 = 1;

/// Tag of a client's chat message.
pub const TAG_CLIENT_CHAT: u8 = 1;

/// Tag of a client's camera frame.
pub const TAG_CLIENT_VIDEO: u8 = 2;

/// Tag of another client's chat message, sent by the server.
pub const TAG_SERVER_OTHER: u8 = 1;

/// Tag of the receiver's own chat message, sent back by the server.
pub const TAG_SERVER_ECHO: u8 = 2;

/// Tag of a camera frame, sent by the server.
pub const TAG_SERVER_VIDEO: u8 = 3;

/// The largest payload a frame carries unless a caller sets another limit.
pub const DEFAULT_MAX_FRAME_LEN: u32 = 0x100_0000;

/// The payload of a client's message.
pub open spec fn client_payload(m: ClientChat) -> Seq<u8> {
    match m {
        ClientChat::Message { text, id } => seq![VERSION, TAG_CLIENT_CHAT] + u64_be(id as u64)
            + encode_utf8(text),
        ClientChat::Video { data, width, height } => seq![VERSION, TAG_CLIENT_VIDEO] + u32_be(width)
            + u32_be(height) + data,
    }
}

/// The client's message that a payload holds, if it holds one.
pub open spec fn parse_client(p: Seq<u8>) -> Option<ClientChat> {
    if p.len() < 10 || p[0] != VERSION {
        None
    } else if p[1] == TAG_CLIENT_CHAT {
        let id = u64_from_be(p.subrange(2, 10));
        let body = p.subrange(10, p.len() as int);
        if id <= usize::MAX && valid_utf8(body) {
            Some(ClientChat::Message { text: decode_utf8(body), id: id as usize })
        } else {
            None
        }
    } else if p[1] == TAG_CLIENT_VIDEO {
        Some(
            ClientChat::Video {
                data: p.subrange(10, p.len() as int),
                width: u32_from_be(p.subrange(2, 6)),
                height: u32_from_be(p.subrange(6, 10)),
            },
        )
    } else {
        None
    }
}

/// The payload of a server's message.
pub open spec fn server_payload(m: ServerMessage) -> Seq<u8> {
    let stamp = u64_be(i64_bits(m.timestamp));
    match m.chat {
        ServerChat::FromOther { text } => seq![VERSION, TAG_SERVER_OTHER] + stamp + encode_utf8(
            text,
        ),
        ServerChat::Echo { text, id } => seq![VERSION, TAG_SERVER_ECHO] + stamp + u64_be(id as u64)
            + encode_utf8(text),
        ServerChat::Video { data, width, height, source } => seq![VERSION, TAG_SERVER_VIDEO] + stamp
            + u32_be(source) + u32_be(width) + u32_be(height) + data,
    }
}

/// The server's message that a payload holds, if it holds one.
pub open spec fn parse_server(p: Seq<u8>) -> Option<ServerMessage> {
    if p.len() < 10 || p[0] != VERSION {
        None
    } else {
        let timestamp = i64_from_bits(u64_from_be(p.subrange(2, 10)));
        if p[1] == TAG_SERVER_OTHER {
            let body = p.subrange(10, p.len() as int);
            if valid_utf8(body) {
                Some(ServerMessage { timestamp, chat: ServerChat::FromOther { text: decode_utf8(body) } })
            } else {
                None
            }
        } else if p[1] == TAG_SERVER_ECHO {
            if p.len() < 18 {
                None
            } else {
                let id = u64_from_be(p.subrange(10, 18));
                let body = p.subrange(18, p.len() as int);
                if id <= usize::MAX && valid_utf8(body) {
                    Some(
                        ServerMessage {
                            timestamp,
                            chat: ServerChat::Echo { text: decode_utf8(body), id: id as usize },
                        },
                    )
                } else {
                    None
                }
            }
        } else if p[1] == TAG_SERVER_VIDEO {
            if p.len() < 22 {
                None
            } else {
                Some(
                    ServerMessage {
                        timestamp,
                        chat: ServerChat::Video {
                            data: p.subrange(22, p.len() as int),
                            width: u32_from_be(p.subrange(14, 18)),
                            height: u32_from_be(p.subrange(18, 22)),
                            source: u32_from_be(p.subrange(10, 14)),
                        },
                    },
                )
            }
        } else {
            None
        }
    }
}

/// Decoding the payload of a client's message gives the message back.
pub proof fn lemma_client_round_trip(m: ClientChat)
    ensures
        parse_client(client_payload(m)) == Some(m),
{
    let p = client_payload(m);
    match m {
        ClientChat::Message { text, id } => {
            lemma_u64_be_round_trip(id as u64);
            encode_utf8_valid_utf8(text);
            encode_utf8_decode_utf8(text);
            assert(p.subrange(2, 10) =~= u64_be(id as u64));
            assert(p.subrange(10, p.len() as int) =~= encode_utf8(text));
        },
        ClientChat::Video { data, width, height } => {
            lemma_u32_be_round_trip(width);
            lemma_u32_be_round_trip(height);
            assert(p.subrange(2, 6) =~= u32_be(width));
            assert(p.subrange(6, 10) =~= u32_be(height));
            assert(p.subrange(10, p.len() as int) =~= data);
        },
    }
}

/// A payload that holds a client's message is the payload of that message:
/// no two payloads hold the same message.
pub proof fn lemma_client_payload_unique(p: Seq<u8>)
    requires
        parse_client(p).is_some(),
    ensures
        client_payload(parse_client(p).unwrap()) == p,
{
    let m = parse_client(p).unwrap();
    match m {
        ClientChat::Message { text, id } => {
            lemma_u64_from_be_round_trip(p.subrange(2, 10));
            decode_utf8_encode_utf8(p.subrange(10, p.len() as int));
            assert(client_payload(m) =~= p);
        },
        ClientChat::Video { data, width, height } => {
            lemma_u32_from_be_round_trip(p.subrange(2, 6));
            lemma_u32_from_be_round_trip(p.subrange(6, 10));
            assert(client_payload(m) =~= p);
        },
    }
}

/// Decoding the payload of a server's message gives the message back.
pub proof fn lemma_server_round_trip(m: ServerMessage)
    ensures
        parse_server(server_payload(m)) == Some(m),
{
    let p = server_payload(m);
    lemma_u64_be_round_trip(i64_bits(m.timestamp));
    lemma_i64_bits_round_trip(m.timestamp, 0);
    match m.chat {
        ServerChat::FromOther { text } => {
            encode_utf8_valid_utf8(text);
            encode_utf8_decode_utf8(text);
            assert(p.subrange(2, 10) =~= u64_be(i64_bits(m.timestamp)));
            assert(p.subrange(10, p.len() as int) =~= encode_utf8(text));
        },
        ServerChat::Echo { text, id } => {
            lemma_u64_be_round_trip(id as u64);
            encode_utf8_valid_utf8(text);
            encode_utf8_decode_utf8(text);
            assert(p.subrange(2, 10) =~= u64_be(i64_bits(m.timestamp)));
            assert(p.subrange(10, 18) =~= u64_be(id as u64));
            assert(p.subrange(18, p.len() as int) =~= encode_utf8(text));
        },
        ServerChat::Video { data, width, height, source } => {
            lemma_u32_be_round_trip(source);
            lemma_u32_be_round_trip(width);
            lemma_u32_be_round_trip(height);
            assert(p.subrange(2, 10) =~= u64_be(i64_bits(m.timestamp)));
            assert(p.subrange(10, 14) =~= u32_be(source));
            assert(p.subrange(14, 18) =~= u32_be(width));
            assert(p.subrange(18, 22) =~= u32_be(height));
            assert(p.subrange(22, p.len() as int) =~= data);
        },
    }
}

/// A payload that holds a server's message is the payload of that message.
pub proof fn lemma_server_payload_unique(p: Seq<u8>)
    requires
        parse_server(p).is_some(),
    ensures
        server_payload(parse_server(p).unwrap()) == p,
{
    let m = parse_server(p).unwrap();
    lemma_u64_from_be_round_trip(p.subrange(2, 10));
    lemma_i64_bits_round_trip(0, u64_from_be(p.subrange(2, 10)));
    match m.chat {
        ServerChat::FromOther { text } => {
            decode_utf8_encode_utf8(p.subrange(10, p.len() as int));
            assert(server_payload(m) =~= p);
        },
        ServerChat::Echo { text, id } => {
            lemma_u64_from_be_round_trip(p.subrange(10, 18));
            decode_utf8_encode_utf8(p.subrange(18, p.len() as int));
            assert(server_payload(m) =~= p);
        },
        ServerChat::Video { data, width, height, source } => {
            lemma_u32_from_be_round_trip(p.subrange(10, 14));
            lemma_u32_from_be_round_trip(p.subrange(14, 18));
            lemma_u32_from_be_round_trip(p.subrange(18, 22));
            assert(server_payload(m) =~= p);
        },
    }
}

/// `String::from_utf8` of std: the bytes become a string exactly when they are
/// valid UTF-8, and the string then holds the characters they encode.
#[verifier::external_body]
fn string_from_utf8(bytes: Vec<u8>) -> (text: Option<String>)
    ensures
        text.is_some() <==> valid_utf8(bytes@),
        text matches Some(s) ==> s@ == decode_utf8(bytes@),
{
    match String::from_utf8(bytes) {
        Ok(s) => Some(s),
        Err(_) => None,
    }
}

/// Appends the bytes of `src` to `out`.
pub fn push_bytes(out: &mut Vec<u8>, src: &[u8])
    ensures
        final(out)@ == old(out)@ + src@,
{
    let mut i: usize = 0;
    while i < src.len()
        invariant
            i <= src.len(),
            out@ == old(out)@ + src@.subrange(0, i as int),
        decreases src.len() - i,
    {
        out.push(src[i]);
        i += 1;
    }
    assert(src@.subrange(0, i as int) =~= src@);
}

/// The bytes of `src` from index `from` to its end.
fn tail_of(src: &[u8], from: usize) -> (out: Vec<u8>)
    requires
        from <= src.len(),
    ensures
        out@ == src@.subrange(from as int, src@.len() as int),
{
    slice_to_vec(slice_subrange(src, from, src.len()))
}

/// The text that the bytes of `src` from index `from` on encode, if they are
/// valid UTF-8.
fn text_of(src: &[u8], from: usize) -> (text: Option<String>)
    requires
        from <= src.len(),
    ensures
        text.is_some() <==> valid_utf8(src@.subrange(from as int, src@.len() as int)),
        text matches Some(s) ==> s@ == decode_utf8(src@.subrange(from as int, src@.len() as int)),
{
    string_from_utf8(tail_of(src, from))
}

/// Encodes the payload of a client's message.
pub fn encode_client_payload(message: &ClientNetworkData) -> (payload: Vec<u8>)
    ensures
        payload@ == client_payload(message@),
{
    let mut out: Vec<u8> = Vec::new();
    out.push(VERSION);
    match &message.chat_data {
        ClientChatData::SelfChatMessage(text, id) => {
            out.push(TAG_CLIENT_CHAT);
            push_u64_be(&mut out, *id as u64);
            push_bytes(&mut out, text.as_str().as_bytes());
        },
        ClientChatData::VideoFrame(data, width, height) => {
            out.push(TAG_CLIENT_VIDEO);
            push_u32_be(&mut out, *width);
            push_u32_be(&mut out, *height);
            push_bytes(&mut out, data.as_slice());
        },
    }
    assert(out@ =~= client_payload(message@));
    out
}

/// Decodes the payload of a client's message. It fails with
/// `MalformedPayload` exactly when the payload holds no message.
pub fn decode_client_payload(payload: &[u8]) -> (message: Result<ClientNetworkData, ProtocolError>)
    ensures
        message is Ok <==> parse_client(payload@).is_some(),
        message matches Ok(m) ==> parse_client(payload@) == Some(m@),
        message matches Err(e) ==> e == ProtocolError::MalformedPayload,
{
    if payload.len() < 10 || payload[0] != VERSION {
        return Err(ProtocolError::MalformedPayload);
    }
    let tag: u8 = payload[1];
    if tag == TAG_CLIENT_CHAT {
        let id: u64 = read_u64_be(payload, 2);
        if id > usize::MAX as u64 {
            return Err(ProtocolError::MalformedPayload);
        }
        match text_of(payload, 10) {
            Some(text) => Ok(
                ClientNetworkData { chat_data: ClientChatData::SelfChatMessage(text, id as usize) },
            ),
            None => Err(ProtocolError::MalformedPayload),
        }
    } else if tag == TAG_CLIENT_VIDEO {
        let width: u32 = read_u32_be(payload, 2);
        let height: u32 = read_u32_be(payload, 6);
        let data: Vec<u8> = tail_of(payload, 10);
        Ok(ClientNetworkData { chat_data: ClientChatData::VideoFrame(data, width, height) })
    } else {
        Err(ProtocolError::MalformedPayload)
    }
}

/// Encodes the payload of a server's message.
pub fn encode_server_payload(message: &ServerNetworkData) -> (payload: Vec<u8>)
    ensures
        payload@ == server_payload(message@),
{
    let mut out: Vec<u8> = Vec::new();
    out.push(VERSION);
    match &message.chat_data {
        ServerChatData::OtherChatMessage(text) => {
            out.push(TAG_SERVER_OTHER);
            push_u64_be(&mut out, bits_of_i64(message.timestamp));
            push_bytes(&mut out, text.as_str().as_bytes());
        },
        ServerChatData::SelfChatMessage(text, id) => {
            out.push(TAG_SERVER_ECHO);
            push_u64_be(&mut out, bits_of_i64(message.timestamp));
            push_u64_be(&mut out, *id as u64);
            push_bytes(&mut out, text.as_str().as_bytes());
        },
        ServerChatData::VideoFrame(data, width, height, source) => {
            out.push(TAG_SERVER_VIDEO);
            push_u64_be(&mut out, bits_of_i64(message.timestamp));
            push_u32_be(&mut out, *source);
            push_u32_be(&mut out, *width);
            push_u32_be(&mut out, *height);
            push_bytes(&mut out, data.as_slice());
        },
    }
    assert(out@ =~= server_payload(message@));
    out
}

/// Decodes the payload of a server's message. It fails with
/// `MalformedPayload` exactly when the payload holds no message.
pub fn decode_server_payload(payload: &[u8]) -> (message: Result<ServerNetworkData, ProtocolError>)
    ensures
        message is Ok <==> parse_server(payload@).is_some(),
        message matches Ok(m) ==> parse_server(payload@) == Some(m@),
        message matches Err(e) ==> e == ProtocolError::MalformedPayload,
{
    if payload.len() < 10 || payload[0] != VERSION {
        return Err(ProtocolError::MalformedPayload);
    }
    let tag: u8 = payload[1];
    let timestamp: i64 = i64_of_bits(read_u64_be(payload, 2));
    if tag == TAG_SERVER_OTHER {
        match text_of(payload, 10) {
            Some(text) => Ok(
                ServerNetworkData { timestamp, chat_data: ServerChatData::OtherChatMessage(text) },
            ),
            None => Err(ProtocolError::MalformedPayload),
        }
    } else if tag == TAG_SERVER_ECHO {
        if payload.len() < 18 {
            return Err(ProtocolError::MalformedPayload);
        }
        let id: u64 = read_u64_be(payload, 10);
        if id > usize::MAX as u64 {
            return Err(ProtocolError::MalformedPayload);
        }
        match text_of(payload, 18) {
            Some(text) => Ok(
                ServerNetworkData {
                    timestamp,
                    chat_data: ServerChatData::SelfChatMessage(text, id as usize),
                },
            ),
            None => Err(ProtocolError::MalformedPayload),
        }
    } else if tag == TAG_SERVER_VIDEO {
        if payload.len() < 22 {
            return Err(ProtocolError::MalformedPayload);
        }
        let source: u32 = read_u32_be(payload, 10);
        let width: u32 = read_u32_be(payload, 14);
        let height: u32 = read_u32_be(payload, 18);
        let data: Vec<u8> = tail_of(payload, 22);
        Ok(
            ServerNetworkData {
                timestamp,
                chat_data: ServerChatData::VideoFrame(data, width, height, source),
            },
        )
    } else {
        Err(ProtocolError::MalformedPayload)
    }
}

} // verus!
