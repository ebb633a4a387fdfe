//! Length-prefixed frames on a byte stream, and a decoder that takes the
//! stream in pieces of any size.

use crate::bytes::{lemma_u32_be_round_trip, push_u32_be, read_u32_be, u32_be, u32_from_be};
use crate::codec::{
    client_payload, decode_client_payload, decode_server_payload, encode_client_payload,
    encode_server_payload, parse_client, parse_server, push_bytes, server_payload,
};
use crate::error::ProtocolError;
use crate::message::{ClientChat, ClientNetworkData, ServerMessage, ServerNetworkData};
use vstd::prelude::*;

verus! {

/// The frame that carries `payload`: its length in four bytes, then the payload.
pub open spec fn frame(payload: Seq<u8>) -> Seq<u8> {
    u32_be(payload.len() as u32) + payload
}

/// What stands at the front of the bytes received so far.
pub enum FrameHead {
    /// The length prefix, or the payload it announces, is not all there yet.
    Incomplete,
    /// The length prefix announces more than the frame limit.
    Oversized,
    /// A whole frame, and the bytes after it.
    Ready { payload: Seq<u8>, rest: Seq<u8> },
}

/// What stands at the front of `buf` under the frame limit `max_len`.
pub open spec fn first_frame(buf: Seq<u8>, max_len: u32) -> FrameHead {
    if buf.len() < 4 {
        FrameHead::Incomplete
    } else {
        let n = u32_from_be(buf.subrange(0, 4));
        if n > max_len {
            FrameHead::Oversized
        } else if buf.len() < 4 + n {
            FrameHead::Incomplete
        } else {
            FrameHead::Ready {
                payload: buf.subrange(4, 4 + n),
                rest: buf.subrange(4 + n, buf.len() as int),
            }
        }
    }
}

/// The payloads of the whole frames at the front of `buf`, in order, up to the
/// first frame that is incomplete or oversized.
pub open spec fn frames(buf: Seq<u8>, max_len: u32) -> Seq<Seq<u8>>
    decreases buf.len(),
{
    match first_frame(buf, max_len) {
        FrameHead::Ready { payload, rest } => seq![payload] + frames(rest, max_len),
        _ => Seq::empty(),
    }
}

/// What is left of `buf` after the whole frames at its front are taken.
pub open spec fn remainder(buf: Seq<u8>, max_len: u32) -> Seq<u8>
    decreases buf.len(),
{
    match first_frame(buf, max_len) {
        FrameHead::Ready { payload, rest } => remainder(rest, max_len),
        _ => buf,
    }
}

/// All the bytes of `chunks`, in order.
pub open spec fn concat(chunks: Seq<Seq<u8>>) -> Seq<u8>
    decreases chunks.len(),
{
    if chunks.len() == 0 {
        Seq::empty()
    } else {
        concat(chunks.drop_last()) + chunks.last()
    }
}

/// The payloads that a decoder hands out when it is fed `chunks` one after the
/// other and emptied of whole frames after each.
pub open spec fn fed_frames(chunks: Seq<Seq<u8>>, max_len: u32) -> Seq<Seq<u8>>
    decreases chunks.len(),
{
    if chunks.len() == 0 {
        Seq::empty()
    } else {
        fed_frames(chunks.drop_last(), max_len) + frames(
            fed_pending(chunks.drop_last(), max_len) + chunks.last(),
            max_len,
        )
    }
}

/// The bytes that such a decoder still holds after the last of `chunks`.
pub open spec fn fed_pending(chunks: Seq<Seq<u8>>, max_len: u32) -> Seq<u8>
    decreases chunks.len(),
{
    if chunks.len() == 0 {
        Seq::empty()
    } else {
        remainder(fed_pending(chunks.drop_last(), max_len) + chunks.last(), max_len)
    }
}

/// `bytes` cut into pieces of one byte each.
pub open spec fn byte_by_byte(bytes: Seq<u8>) -> Seq<Seq<u8>> {
    Seq::new(bytes.len(), |i: int| seq![bytes[i]])
}

/// A frame at the front of a stream is read back as its payload, whatever
/// follows it.
pub proof fn lemma_first_frame_of_frame(payload: Seq<u8>, tail: Seq<u8>, max_len: u32)
    requires
        payload.len() <= max_len,
    ensures
        first_frame(frame(payload) + tail, max_len) == (FrameHead::Ready { payload, rest: tail }),
{
    let buf = frame(payload) + tail;
    let n = payload.len() as u32;
    lemma_u32_be_round_trip(n);
    assert(buf.subrange(0, 4) =~= u32_be(n));
    assert(buf.subrange(4, 4 + n) =~= payload);
    assert(buf.subrange(4 + n, buf.len() as int) =~= tail);
}

/// Taking the frames of a stream in two steps gives what taking them at once
/// gives: the frames of `a + b` are those of `a`, then those of what `a` left
/// together with `b`.
pub proof fn lemma_frames_append(a: Seq<u8>, b: Seq<u8>, max_len: u32)
    ensures
        frames(a + b, max_len) == frames(a, max_len) + frames(remainder(a, max_len) + b, max_len),
        remainder(a + b, max_len) == remainder(remainder(a, max_len) + b, max_len),
    decreases a.len(),
{
    match first_frame(a, max_len) {
        FrameHead::Ready { payload, rest } => {
            let n = u32_from_be(a.subrange(0, 4));
            assert((a + b).subrange(0, 4) =~= a.subrange(0, 4));
            assert((a + b).subrange(4, 4 + n) =~= payload);
            assert((a + b).subrange(4 + n, (a + b).len() as int) =~= rest + b);
            assert(first_frame(a + b, max_len) == (FrameHead::Ready { payload, rest: rest + b }));
            lemma_frames_append(rest, b, max_len);
            assert(frames(a + b, max_len) =~= frames(a, max_len) + frames(
                remainder(a, max_len) + b,
                max_len,
            ));
        },
        _ => {
            assert(frames(a, max_len) + frames(a + b, max_len) =~= frames(a + b, max_len));
        },
    }
}

/// However a stream is cut into pieces, a decoder that is fed the pieces in
/// order hands out the frames of the whole stream and keeps what the whole
/// stream leaves.
pub proof fn lemma_chunking_is_invisible(chunks: Seq<Seq<u8>>, max_len: u32)
    ensures
        fed_frames(chunks, max_len) == frames(concat(chunks), max_len),
        fed_pending(chunks, max_len) == remainder(concat(chunks), max_len),
    decreases chunks.len(),
{
    if chunks.len() > 0 {
        lemma_chunking_is_invisible(chunks.drop_last(), max_len);
        lemma_frames_append(concat(chunks.drop_last()), chunks.last(), max_len);
    }
}

/// The pieces of one byte each make up the stream they were cut from.
pub proof fn lemma_concat_byte_by_byte(bytes: Seq<u8>)
    ensures
        concat(byte_by_byte(bytes)) == bytes,
    decreases bytes.len(),
{
    if bytes.len() > 0 {
        let head = bytes.drop_last();
        lemma_concat_byte_by_byte(head);
        assert(byte_by_byte(bytes).drop_last() =~= byte_by_byte(head));
        assert(byte_by_byte(bytes).last() =~= seq![bytes.last()]);
        assert(head + seq![bytes.last()] =~= bytes);
    } else {
        assert(bytes =~= Seq::<u8>::empty());
    }
}

/// Decoding a stream one byte at a time gives the frames, and leaves the
/// bytes, that decoding it in one piece gives.
pub proof fn lemma_byte_by_byte_decoding(bytes: Seq<u8>, max_len: u32)
    ensures
        fed_frames(byte_by_byte(bytes), max_len) == fed_frames(seq![bytes], max_len),
        fed_frames(byte_by_byte(bytes), max_len) == frames(bytes, max_len),
        fed_pending(byte_by_byte(bytes), max_len) == fed_pending(seq![bytes], max_len),
        fed_pending(byte_by_byte(bytes), max_len) == remainder(bytes, max_len),
{
    lemma_chunking_is_invisible(byte_by_byte(bytes), max_len);
    lemma_concat_byte_by_byte(bytes);
    lemma_chunking_is_invisible(seq![bytes], max_len);
    let one = seq![bytes];
    assert(one.drop_last() =~= Seq::<Seq<u8>>::empty());
    assert(concat(one.drop_last()) =~= Seq::<u8>::empty());
    assert(concat(one) =~= bytes);
}

/// The messages of the payloads at the front of `payloads` that hold one, up
/// to the first payload that holds none.
pub open spec fn parsed_prefix<T>(
    payloads: Seq<Seq<u8>>,
    parse: spec_fn(Seq<u8>) -> Option<T>,
) -> Seq<T>
    decreases payloads.len(),
{
    if payloads.len() == 0 {
        Seq::empty()
    } else {
        match parse(payloads.first()) {
            Some(message) => seq![message] + parsed_prefix(payloads.drop_first(), parse),
            None => Seq::empty(),
        }
    }
}

/// The payloads-to-messages function of the client-to-server direction.
pub open spec fn client_parser() -> spec_fn(Seq<u8>) -> Option<ClientChat> {
    |payload: Seq<u8>| parse_client(payload)
}

/// The payloads-to-messages function of the server-to-client direction.
pub open spec fn server_parser() -> spec_fn(Seq<u8>) -> Option<ServerMessage> {
    |payload: Seq<u8>| parse_server(payload)
}

/// A message that travels as the payload of a frame.
pub trait Payload: Sized + View {
    /// The payloads-to-messages function of this kind of message.
    spec fn parser() -> spec_fn(Seq<u8>) -> Option<Self::V>;

    /// Decodes a payload. It fails with `MalformedPayload` exactly when the
    /// payload holds no message of this kind.
    fn decode(payload: &[u8]) -> (message: Result<Self, ProtocolError>)
        ensures
            message is Ok <==> Self::parser()(payload@) is Some,
            message matches Ok(m) ==> Self::parser()(payload@) == Some(m@),
            message matches Err(e) ==> e == ProtocolError::MalformedPayload,
    ;
}

impl Payload for ClientNetworkData {
    open spec fn parser() -> spec_fn(Seq<u8>) -> Option<ClientChat> {
        client_parser()
    }

    fn decode(payload: &[u8]) -> (message: Result<ClientNetworkData, ProtocolError>) {
        decode_client_payload(payload)
    }
}

impl Payload for ServerNetworkData {
    open spec fn parser() -> spec_fn(Seq<u8>) -> Option<ServerMessage> {
        server_parser()
    }

    fn decode(payload: &[u8]) -> (message: Result<ServerNetworkData, ProtocolError>) {
        decode_server_payload(payload)
    }
}

/// Whether each of `payloads` holds a message.
pub open spec fn all_parse<T>(payloads: Seq<Seq<u8>>, parse: spec_fn(Seq<u8>) -> Option<T>) -> bool {
    forall|i: int| 0 <= i < payloads.len() ==> (#[trigger] parse(payloads[i])).is_some()
}

/// The messages that a reader hands on from the stream `buf`: those of its
/// whole frames, up to the first frame that holds none.
pub open spec fn decoded<T>(buf: Seq<u8>, max_len: u32, parse: spec_fn(Seq<u8>) -> Option<T>) -> Seq<
    T,
> {
    parsed_prefix(frames(buf, max_len), parse)
}

/// Why a reader gives up on the stream `buf`, if it does: a whole frame holds
/// no message, or the next length prefix announces more than the frame limit.
pub open spec fn stream_error<T>(
    buf: Seq<u8>,
    max_len: u32,
    parse: spec_fn(Seq<u8>) -> Option<T>,
) -> Option<ProtocolError> {
    if !all_parse(frames(buf, max_len), parse) {
        Some(ProtocolError::MalformedPayload)
    } else if first_frame(remainder(buf, max_len), max_len) is Oversized {
        Some(ProtocolError::OversizedFrame)
    } else {
        None
    }
}

/// The messages of `a + b` are those of `a`, followed by those of `b` if each
/// payload of `a` holds a message.
pub proof fn lemma_parsed_prefix_append<T>(
    a: Seq<Seq<u8>>,
    b: Seq<Seq<u8>>,
    parse: spec_fn(Seq<u8>) -> Option<T>,
)
    ensures
        all_parse(a, parse) ==> parsed_prefix(a + b, parse) == parsed_prefix(a, parse)
            + parsed_prefix(b, parse),
        !all_parse(a, parse) ==> parsed_prefix(a + b, parse) == parsed_prefix(a, parse),
        all_parse(a, parse) ==> parsed_prefix(a, parse).len() == a.len(),
        all_parse(a + b, parse) <==> all_parse(a, parse) && all_parse(b, parse),
    decreases a.len(),
{
    assert(all_parse(a + b, parse) <==> all_parse(a, parse) && all_parse(b, parse)) by {
        if all_parse(a + b, parse) {
            assert forall|i: int| 0 <= i < a.len() implies (#[trigger] parse(a[i])).is_some() by {
                assert((a + b)[i] == a[i]);
            }
            assert forall|i: int| 0 <= i < b.len() implies (#[trigger] parse(b[i])).is_some() by {
                assert((a + b)[a.len() + i] == b[i]);
            }
        }
    }
    if a.len() == 0 {
        assert(a + b =~= b);
    } else {
        assert((a + b).first() == a.first());
        assert((a + b).drop_first() =~= a.drop_first() + b);
        lemma_parsed_prefix_append(a.drop_first(), b, parse);
        match parse(a.first()) {
            Some(message) => {
                assert(all_parse(a, parse) <==> all_parse(a.drop_first(), parse)) by {
                    if all_parse(a.drop_first(), parse) {
                        assert forall|i: int| 0 <= i < a.len() implies (#[trigger] parse(
                            a[i],
                        )).is_some() by {
                            if i > 0 {
                                assert(a[i] == a.drop_first()[i - 1]);
                            }
                        }
                    }
                    if all_parse(a, parse) {
                        assert forall|i: int| 0 <= i < a.drop_first().len() implies (
                        #[trigger] parse(a.drop_first()[i])).is_some() by {
                            assert(a.drop_first()[i] == a[i + 1]);
                        }
                    }
                }
                assert(seq![message] + (parsed_prefix(a.drop_first(), parse) + parsed_prefix(
                    b,
                    parse,
                )) =~= (seq![message] + parsed_prefix(a.drop_first(), parse)) + parsed_prefix(
                    b,
                    parse,
                ));
            },
            None => {
                assert(!all_parse(a, parse)) by {
                    assert(parse(a[0]).is_none());
                }
            },
        }
    }
}

/// Where each payload holds a message, the messages are those of the payloads,
/// one for one.
pub proof fn lemma_parsed_prefix_index<T>(
    payloads: Seq<Seq<u8>>,
    parse: spec_fn(Seq<u8>) -> Option<T>,
    i: int,
)
    requires
        all_parse(payloads, parse),
        0 <= i < payloads.len(),
    ensures
        parsed_prefix(payloads, parse).len() == payloads.len(),
        parse(payloads[i]) == Some(parsed_prefix(payloads, parse)[i]),
    decreases payloads.len(),
{
    lemma_parsed_prefix_append(payloads, Seq::empty(), parse);
    let rest = payloads.drop_first();
    assert(parse(payloads[0]).is_some());
    assert(all_parse(rest, parse)) by {
        assert forall|j: int| 0 <= j < rest.len() implies (#[trigger] parse(rest[j])).is_some() by {
            assert(rest[j] == payloads[j + 1]);
        }
    }
    lemma_parsed_prefix_append(rest, Seq::empty(), parse);
    if i > 0 {
        lemma_parsed_prefix_index(rest, parse, i - 1);
        assert(rest[i - 1] == payloads[i]);
    }
}

/// Decoding a stream one byte at a time hands on the messages, and fails
/// where, decoding it in one piece does.
pub proof fn lemma_byte_by_byte_messages<T>(
    bytes: Seq<u8>,
    max_len: u32,
    parse: spec_fn(Seq<u8>) -> Option<T>,
)
    ensures
        parsed_prefix(fed_frames(byte_by_byte(bytes), max_len), parse) == decoded(
            bytes,
            max_len,
            parse,
        ),
        parsed_prefix(fed_frames(seq![bytes], max_len), parse) == decoded(bytes, max_len, parse),
        stream_error(concat(byte_by_byte(bytes)), max_len, parse) == stream_error(
            bytes,
            max_len,
            parse,
        ),
{
    lemma_byte_by_byte_decoding(bytes, max_len);
    lemma_concat_byte_by_byte(bytes);
}

/// Puts `payload` into a frame. It fails with `OversizedFrame` exactly when
/// the payload is longer than `max_len`.
pub fn encode_frame(payload: &[u8], max_len: u32) -> (framed: Result<Vec<u8>, ProtocolError>)
    ensures
        framed is Ok <==> payload@.len() <= max_len,
        framed matches Ok(f) ==> f@ == frame(payload@),
        framed matches Err(e) ==> e == ProtocolError::OversizedFrame,
{
    if payload.len() > max_len as usize {
        return Err(ProtocolError::OversizedFrame);
    }
    let mut out: Vec<u8> = Vec::new();
    push_u32_be(&mut out, payload.len() as u32);
    push_bytes(&mut out, payload);
    assert(out@ =~= frame(payload@));
    Ok(out)
}

/// The frame of a client's message. It fails with `OversizedFrame` exactly
/// when the message's payload is longer than `max_len`.
pub fn encode_client(message: &ClientNetworkData, max_len: u32) -> (framed: Result<
    Vec<u8>,
    ProtocolError,
>)
    ensures
        framed is Ok <==> client_payload(message@).len() <= max_len,
        framed matches Ok(f) ==> f@ == frame(client_payload(message@)),
        framed matches Err(e) ==> e == ProtocolError::OversizedFrame,
{
    let payload: Vec<u8> = encode_client_payload(message);
    encode_frame(payload.as_slice(), max_len)
}

/// The frame of a server's message. It fails with `OversizedFrame` exactly
/// when the message's payload is longer than `max_len`.
pub fn encode_server(message: &ServerNetworkData, max_len: u32) -> (framed: Result<
    Vec<u8>,
    ProtocolError,
>)
    ensures
        framed is Ok <==> server_payload(message@).len() <= max_len,
        framed matches Ok(f) ==> f@ == frame(server_payload(message@)),
        framed matches Err(e) ==> e == ProtocolError::OversizedFrame,
{
    let payload: Vec<u8> = encode_server_payload(message);
    encode_frame(payload.as_slice(), max_len)
}

/// What a decoder owes for the bytes `pending` it holds: the next payload, or
/// nothing yet while the stream is open, or the reason why there will be none.
pub open spec fn next_payload(pending: Seq<u8>, max_len: u32, eof: bool) -> Result<
    Option<Seq<u8>>,
    ProtocolError,
> {
    match first_frame(pending, max_len) {
        FrameHead::Ready { payload, rest } => Ok(Some(payload)),
        FrameHead::Oversized => Err(ProtocolError::OversizedFrame),
        FrameHead::Incomplete => if eof {
            Err(ProtocolError::ConnectionClosed)
        } else {
            Ok(None)
        },
    }
}

/// The bytes a decoder holds after it was asked for the next payload.
pub open spec fn after_next(pending: Seq<u8>, max_len: u32) -> Seq<u8> {
    match first_frame(pending, max_len) {
        FrameHead::Ready { payload, rest } => rest,
        _ => pending,
    }
}

/// A decoder of frames that is fed the stream in pieces.
pub struct FrameDecoder {
    buf: Vec<u8>,
    max_len: u32,
}

impl FrameDecoder {
    /// The bytes received and not yet handed out.
    pub closed spec fn pending(&self) -> Seq<u8> {
        self.buf@
    }

    /// The longest payload that this decoder accepts.
    pub closed spec fn limit(&self) -> u32 {
        self.max_len
    }

    /// A decoder that holds no bytes and accepts payloads of up to `max_len`
    /// bytes.
    pub fn new(max_len: u32) -> (decoder: FrameDecoder)
        ensures
            decoder.pending() == Seq::<u8>::empty(),
            decoder.limit() == max_len,
    {
        FrameDecoder { buf: Vec::new(), max_len }
    }

    /// The longest payload that this decoder accepts.
    pub fn max_len(&self) -> (max_len: u32)
        ensures
            max_len == self.limit(),
    {
        self.max_len
    }

    /// The number of bytes received and not yet handed out.
    pub fn pending_len(&self) -> (n: usize)
        ensures
            n == self.pending().len(),
    {
        self.buf.len()
    }

    /// Takes the next piece of the stream.
    pub fn feed(&mut self, bytes: &[u8])
        ensures
            final(self).pending() == old(self).pending() + bytes@,
            final(self).limit() == old(self).limit(),
    {
        push_bytes(&mut self.buf, bytes);
    }

    /// Drops the bytes received and not yet handed out.
    pub fn clear(&mut self)
        ensures
            final(self).pending() == Seq::<u8>::empty(),
            final(self).limit() == old(self).limit(),
    {
        self.buf = Vec::new();
    }

    /// Hands out the payload of the next frame, if a whole frame has been
    /// received. A frame that is not all there yet is no error while the
    /// stream is open (`eof` is false): the decoder waits for the rest. Once
    /// the stream has ended it is `ConnectionClosed`.
    pub fn next_frame(&mut self, eof: bool) -> (next: Result<Option<Vec<u8>>, ProtocolError>)
        ensures
            final(self).limit() == old(self).limit(),
            final(self).pending() == after_next(old(self).pending(), old(self).limit()),
            match next_payload(old(self).pending(), old(self).limit(), eof) {
                Ok(Some(payload)) => next matches Ok(Some(p)) && p@ == payload,
                Ok(None) => next == Ok::<Option<Vec<u8>>, ProtocolError>(None),
                Err(e) => next == Err::<Option<Vec<u8>>, ProtocolError>(e),
            },
    {
        if self.buf.len() < 4 {
            return if eof {
                Err(ProtocolError::ConnectionClosed)
            } else {
                Ok(None)
            };
        }
        let n: u32 = read_u32_be(self.buf.as_slice(), 0);
        if n > self.max_len {
            return Err(ProtocolError::OversizedFrame);
        }
        let len: usize = n as usize;
        if self.buf.len() - 4 < len {
            return if eof {
                Err(ProtocolError::ConnectionClosed)
            } else {
                Ok(None)
            };
        }
        let rest: Vec<u8> = self.buf.split_off(4 + len);
        let payload: Vec<u8> = self.buf.split_off(4);
        self.buf = rest;
        assert(payload@ =~= old(self).pending().subrange(4, 4 + n));
        Ok(Some(payload))
    }

    /// Hands out the next message, if a whole frame has been received. A
    /// whole frame whose payload holds no message is `MalformedPayload`; the
    /// frame is taken from the stream all the same.
    pub fn next_message<M: Payload>(&mut self, eof: bool) -> (next: Result<Option<M>, ProtocolError>)
        ensures
            final(self).limit() == old(self).limit(),
            final(self).pending() == after_next(old(self).pending(), old(self).limit()),
            match next_payload(old(self).pending(), old(self).limit(), eof) {
                Ok(Some(payload)) => match M::parser()(payload) {
                    Some(m) => next matches Ok(Some(got)) && got@ == m,
                    None => next == Err::<Option<M>, ProtocolError>(ProtocolError::MalformedPayload),
                },
                Ok(None) => next == Ok::<Option<M>, ProtocolError>(None),
                Err(e) => next == Err::<Option<M>, ProtocolError>(e),
            },
    {
        match self.next_frame(eof) {
            Ok(Some(payload)) => match M::decode(payload.as_slice()) {
                Ok(message) => Ok(Some(message)),
                Err(e) => Err(e),
            },
            Ok(None) => Ok(None),
            Err(e) => Err(e),
        }
    }

    /// Hands out the next message of a client, if a whole frame has been
    /// received. A whole frame whose payload holds no message is
    /// `MalformedPayload`; the frame is taken from the stream all the same.
    pub fn next_client(&mut self, eof: bool) -> (next: Result<Option<ClientNetworkData>, ProtocolError>)
        ensures
            final(self).limit() == old(self).limit(),
            final(self).pending() == after_next(old(self).pending(), old(self).limit()),
            match next_payload(old(self).pending(), old(self).limit(), eof) {
                Ok(Some(payload)) => match parse_client(payload) {
                    Some(m) => next matches Ok(Some(got)) && got@ == m,
                    None => next == Err::<Option<ClientNetworkData>, ProtocolError>(
                        ProtocolError::MalformedPayload,
                    ),
                },
                Ok(None) => next == Ok::<Option<ClientNetworkData>, ProtocolError>(None),
                Err(e) => next == Err::<Option<ClientNetworkData>, ProtocolError>(e),
            },
    {
        self.next_message::<ClientNetworkData>(eof)
    }

    /// Hands out the next message of the server, if a whole frame has been
    /// received. A whole frame whose payload holds no message is
    /// `MalformedPayload`; the frame is taken from the stream all the same.
    pub fn next_server(&mut self, eof: bool) -> (next: Result<Option<ServerNetworkData>, ProtocolError>)
        ensures
            final(self).limit() == old(self).limit(),
            final(self).pending() == after_next(old(self).pending(), old(self).limit()),
            match next_payload(old(self).pending(), old(self).limit(), eof) {
                Ok(Some(payload)) => match parse_server(payload) {
                    Some(m) => next matches Ok(Some(got)) && got@ == m,
                    None => next == Err::<Option<ServerNetworkData>, ProtocolError>(
                        ProtocolError::MalformedPayload,
                    ),
                },
                Ok(None) => next == Ok::<Option<ServerNetworkData>, ProtocolError>(None),
                Err(e) => next == Err::<Option<ServerNetworkData>, ProtocolError>(e),
            },
    {
        self.next_message::<ServerNetworkData>(eof)
    }

    /// Hands out the messages of all the whole frames received, in order, and
    /// says why the stream has to be given up, if it has. A frame that is
    /// not all there yet stays for later. A frame that holds no message, or
    /// a length prefix that announces more than the frame limit, ends the
    /// stream: the messages before it are handed out, and the bytes that
    /// were still held are dropped.
    pub fn drain<M: Payload>(&mut self) -> (drained: (Vec<M>, Option<ProtocolError>))
        ensures
            final(self).limit() == old(self).limit(),
            drained.0@.len() == decoded(old(self).pending(), old(self).limit(), M::parser()).len(),
            forall|i: int|
                0 <= i < drained.0@.len() ==> (#[trigger] drained.0@[i])@ == decoded(
                    old(self).pending(),
                    old(self).limit(),
                    M::parser(),
                )[i],
            drained.1 == stream_error(old(self).pending(), old(self).limit(), M::parser()),
            final(self).pending() == (if drained.1 is None {
                remainder(old(self).pending(), old(self).limit())
            } else {
                Seq::empty()
            }),
    {
        let mut messages: Vec<M> = Vec::new();
        let ghost buf = self.pending();
        let ghost max_len = self.limit();
        let ghost taken: Seq<Seq<u8>> = Seq::empty();
        assert(frames(buf, max_len) =~= taken + frames(self.pending(), max_len));
        loop
            invariant
                self.limit() == max_len,
                old(self).limit() == max_len,
                buf == old(self).pending(),
                frames(buf, max_len) == taken + frames(self.pending(), max_len),
                remainder(buf, max_len) == remainder(self.pending(), max_len),
                all_parse(taken, M::parser()),
                messages@.len() == taken.len(),
                forall|i: int|
                    0 <= i < taken.len() ==> M::parser()(taken[i]) == Some(
                        (#[trigger] messages@[i])@,
                    ),
            decreases self.pending().len(),
        {
            let ghost before = self.pending();
            let next = self.next_message::<M>(false);
            proof {
                lemma_parsed_prefix_append(taken, frames(before, max_len), M::parser());
            }
            match next {
                Ok(Some(message)) => {
                    proof {
                        let payload = first_frame(before, max_len)->payload;
                        let longer = taken.push(payload);
                        assert(frames(buf, max_len) =~= longer + frames(self.pending(), max_len));
                        assert(all_parse(longer, M::parser())) by {
                            assert forall|i: int| 0 <= i < longer.len() implies (
                            #[trigger] M::parser()(longer[i])).is_some() by {
                                if i < taken.len() {
                                    assert(longer[i] == taken[i]);
                                }
                            }
                        }
                        taken = longer;
                    }
                    messages.push(message);
                },
                Ok(None) => {
                    proof {
                        assert(frames(buf, max_len) =~= taken);
                        assert forall|i: int| 0 <= i < taken.len() implies (
                        #[trigger] messages@[i])@ == decoded(buf, max_len, M::parser())[i] by {
                            lemma_parsed_prefix_index(taken, M::parser(), i);
                        }
                    }
                    return (messages, None);
                },
                Err(e) => {
                    proof {
                        let all = frames(buf, max_len);
                        if e == ProtocolError::MalformedPayload {
                            let payload = first_frame(before, max_len)->payload;
                            assert(all[taken.len() as int] == payload);
                            assert(M::parser()(all[taken.len() as int]).is_none());
                            assert(!all_parse(all, M::parser()));
                            assert(!all_parse(frames(before, max_len), M::parser())) by {
                                assert(M::parser()(frames(before, max_len)[0]).is_none());
                            }
                            lemma_parsed_prefix_append(
                                frames(before, max_len),
                                Seq::empty(),
                                M::parser(),
                            );
                            assert(parsed_prefix(frames(before, max_len), M::parser()).len() == 0);
                        } else {
                            assert(all =~= taken);
                        }
                        assert(decoded(buf, max_len, M::parser()) =~= parsed_prefix(
                            taken,
                            M::parser(),
                        ));
                        assert forall|i: int| 0 <= i < taken.len() implies (
                        #[trigger] messages@[i])@ == decoded(buf, max_len, M::parser())[i] by {
                            lemma_parsed_prefix_index(taken, M::parser(), i);
                        }
                    }
                    self.clear();
                    return (messages, Some(e));
                },
            }
        }
    }
}

} // verus!
