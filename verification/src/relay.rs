//! The relay server's part: what one connection publishes to all the others,
//! and what it writes to its own client for each published item.

use crate::codec::server_payload;
use crate::error::ProtocolError;
use crate::framing::{
    client_parser, decoded, encode_server, frame, remainder, stream_error, FrameDecoder,
};
use crate::message::{
    ClientChat, ClientChatData, ClientNetworkData, ServerChat, ServerChatData, ServerMessage,
    ServerNetworkData,
};
use vstd::prelude::*;
use vstd::slice::slice_to_vec;

verus! {

/// An item on the fan-out channel: a client's message, the connection it came
/// in on, and when it came in (milliseconds since the epoch).
#[derive(Clone, Debug, PartialEq, Eq)]
pub struct Published {
    pub data: ClientNetworkData,
    pub origin: u32,
    pub timestamp: i64,
}

/// The mathematical content of an item on the fan-out channel.
pub struct PublishedItem {
    pub chat: ClientChat,
    pub origin: u32,
    pub timestamp: i64,
}

impl View for Published {
    type V = PublishedItem;

    open spec fn view(&self) -> PublishedItem {
        PublishedItem { chat: self.data@, origin: self.origin, timestamp: self.timestamp }
    }
}

/// What the connection `dest` sends its client for a published item: a chat
/// message goes back to its sender as an echo with the sender's identifier,
/// and to every other client as a message of another; a camera frame goes to
/// every client alike, its sender included, marked with its origin.
pub open spec fn response(item: PublishedItem, dest: u32) -> ServerMessage {
    ServerMessage {
        timestamp: item.timestamp,
        chat: match item.chat {
            ClientChat::Message { text, id } => if item.origin == dest {
                ServerChat::Echo { text, id }
            } else {
                ServerChat::FromOther { text }
            },
            ClientChat::Video { data, width, height } => ServerChat::Video {
                data,
                width,
                height,
                source: item.origin,
            },
        },
    }
}

/// The message that the connection `dest` sends its client for `item`.
pub fn respond(item: &Published, dest: u32) -> (message: ServerNetworkData)
    ensures
        message@ == response(item@, dest),
{
    let chat_data: ServerChatData = match &item.data.chat_data {
        ClientChatData::SelfChatMessage(text, id) => {
            if item.origin == dest {
                ServerChatData::SelfChatMessage(text.clone(), *id)
            } else {
                ServerChatData::OtherChatMessage(text.clone())
            }
        },
        ClientChatData::VideoFrame(data, width, height) => ServerChatData::VideoFrame(
            slice_to_vec(data.as_slice()),
            *width,
            *height,
            item.origin,
        ),
    };
    ServerNetworkData { timestamp: item.timestamp, chat_data }
}

/// What came of the bytes that a connection read.
#[derive(Debug, PartialEq, Eq)]
pub struct ReadOutcome {
    /// The items to publish, in the order in which their frames arrived.
    pub published: Vec<Published>,
    /// Why the connection has to be dropped, if it has.
    pub error: Option<ProtocolError>,
}

/// What a connection's subscription to the fan-out channel yields.
#[derive(Debug)]
pub enum Subscription {
    /// The next published item.
    Item(Published),
    /// The subscriber fell behind, and the channel dropped this many of the
    /// oldest items that were waiting for it.
    Lagged(u64),
    /// No publisher is left.
    Closed,
}

/// What a connection does with what its subscription yielded.
#[derive(Debug, PartialEq, Eq)]
pub enum Delivery {
    /// Write these bytes to the client.
    Write(Vec<u8>),
    /// Write nothing, note the reason, and go on.
    Skip(ProtocolError),
    /// The connection is over.
    Stop,
}

/// The mathematical content of a `Delivery`.
pub enum DeliveryView {
    Write(Seq<u8>),
    Skip(ProtocolError),
    Stop,
}

impl View for Delivery {
    type V = DeliveryView;

    open spec fn view(&self) -> DeliveryView {
        match *self {
            Delivery::Write(bytes) => DeliveryView::Write(bytes@),
            Delivery::Skip(reason) => DeliveryView::Skip(reason),
            Delivery::Stop => DeliveryView::Stop,
        }
    }
}

/// The server's side of one client connection.
pub struct Connection {
    id: u32,
    decoder: FrameDecoder,
    open: bool,
}

impl Connection {
    /// The number that tells this connection from the others.
    pub closed spec fn id(&self) -> u32 {
        self.id
    }

    /// The bytes read from the client and not yet decoded.
    pub closed spec fn pending(&self) -> Seq<u8> {
        self.decoder.pending()
    }

    /// The longest payload that the connection accepts and sends.
    pub closed spec fn limit(&self) -> u32 {
        self.decoder.limit()
    }

    /// Whether the connection still serves its client.
    pub closed spec fn is_open(&self) -> bool {
        self.open
    }

    /// A connection that has read nothing yet.
    pub fn new(id: u32, max_len: u32) -> (connection: Connection)
        ensures
            connection.id() == id,
            connection.limit() == max_len,
            connection.pending() == Seq::<u8>::empty(),
            connection.is_open(),
    {
        Connection { id, decoder: FrameDecoder::new(max_len), open: true }
    }

    /// The connection's number.
    pub fn number(&self) -> (id: u32)
        ensures
            id == self.id(),
    {
        self.id
    }

    /// Whether the connection still serves its client.
    pub fn open(&self) -> (open: bool)
        ensures
            open == self.is_open(),
    {
        self.open
    }

    /// Takes the bytes `chunk` that were read from the client at time `now`
    /// and says what to publish: each message of the whole frames received so
    /// far, marked with this connection's number and `now`. A frame that is
    /// not all there yet waits for the next call. A frame that holds no
    /// message, or announces more than the frame limit, closes the
    /// connection, which drops the bytes it still held; nothing else closes
    /// it here. A closed connection publishes nothing and reports
    /// `ConnectionClosed`.
    pub fn on_read(&mut self, chunk: &[u8], now: i64) -> (outcome: ReadOutcome)
        ensures
            final(self).id() == old(self).id(),
            final(self).limit() == old(self).limit(),
            !old(self).is_open() ==> {
                &&& outcome.published@.len() == 0
                &&& outcome.error == Some(ProtocolError::ConnectionClosed)
                &&& !final(self).is_open()
                &&& final(self).pending() == old(self).pending()
            },
            old(self).is_open() ==> {
                let buf = old(self).pending() + chunk@;
                let messages = decoded(buf, old(self).limit(), client_parser());
                &&& outcome.published@.len() == messages.len()
                &&& forall|i: int|
                    0 <= i < messages.len() ==> (#[trigger] outcome.published@[i])@ == (
                    PublishedItem { chat: messages[i], origin: old(self).id(), timestamp: now })
                &&& outcome.error == stream_error(buf, old(self).limit(), client_parser())
                &&& final(self).is_open() == (outcome.error is None)
                &&& final(self).pending() == (if outcome.error is None {
                    remainder(buf, old(self).limit())
                } else {
                    Seq::empty()
                })
            },
    {
        let mut published: Vec<Published> = Vec::new();
        if !self.open {
            return ReadOutcome { published, error: Some(ProtocolError::ConnectionClosed) };
        }
        self.decoder.feed(chunk);
        let (messages, error) = self.decoder.drain::<ClientNetworkData>();
        let origin: u32 = self.id;
        for data in it: messages
            invariant
                published@.len() == it.index(),
                forall|i: int|
                    0 <= i < it.index() ==> (#[trigger] published@[i])@ == (PublishedItem {
                        chat: it.seq()[i]@,
                        origin,
                        timestamp: now,
                    }),
        {
            published.push(Published { data, origin, timestamp: now });
        }
        if error.is_some() {
            self.open = false;
        }
        ReadOutcome { published, error }
    }

    /// The client's stream has ended, or reading it failed: the connection is
    /// over, whatever it still holds.
    pub fn on_read_end(&mut self) -> (reason: ProtocolError)
        ensures
            reason == ProtocolError::ConnectionClosed,
            !final(self).is_open(),
            final(self).id() == old(self).id(),
            final(self).limit() == old(self).limit(),
            final(self).pending() == old(self).pending(),
    {
        self.open = false;
        ProtocolError::ConnectionClosed
    }

    /// Writing to the client failed: the connection is over. Nothing else is
    /// touched.
    pub fn on_write_error(&mut self)
        ensures
            !final(self).is_open(),
            final(self).id() == old(self).id(),
            final(self).limit() == old(self).limit(),
            final(self).pending() == old(self).pending(),
    {
        self.open = false;
    }

    /// What the connection does with what its subscription yielded.
    pub open spec fn delivery(self, event: Subscription) -> DeliveryView {
        if !self.is_open() {
            DeliveryView::Stop
        } else {
            match event {
                Subscription::Item(item) => {
                    let payload = server_payload(response(item@, self.id()));
                    if payload.len() <= self.limit() {
                        DeliveryView::Write(frame(payload))
                    } else {
                        DeliveryView::Skip(ProtocolError::OversizedFrame)
                    }
                },
                Subscription::Lagged(_) => DeliveryView::Skip(ProtocolError::ChannelOverflow),
                Subscription::Closed => DeliveryView::Stop,
            }
        }
    }

    /// Decides what to do with what the subscription yielded. A published
    /// item is written to the client in the form that `response` gives it for
    /// this connection, or skipped if its frame would be over the limit. A
    /// subscriber that fell behind has lost the oldest items; that is noted
    /// as `ChannelOverflow` and the connection goes on. The connection stops
    /// when the channel is closed or the connection is.
    pub fn on_subscription(&self, event: Subscription) -> (delivery: Delivery)
        ensures
            delivery@ == self.delivery(event),
    {
        if !self.open {
            return Delivery::Stop;
        }
        match event {
            Subscription::Item(item) => {
                let message: ServerNetworkData = respond(&item, self.id);
                match encode_server(&message, self.decoder.max_len()) {
                    Ok(bytes) => Delivery::Write(bytes),
                    Err(e) => Delivery::Skip(e),
                }
            },
            Subscription::Lagged(_) => Delivery::Skip(ProtocolError::ChannelOverflow),
            Subscription::Closed => Delivery::Stop,
        }
    }
}

} // verus!
