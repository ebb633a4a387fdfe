//! The client's reader: from the bytes that come off the socket to the events
//! that the session is told.

use crate::error::ProtocolError;
use crate::framing::{decoded, remainder, server_parser, stream_error, FrameDecoder};
use crate::message::{ChatData, ServerNetworkData};
use crate::session::{Event, EventModel};
use vstd::prelude::*;

verus! {

/// The reading side of a client's connection.
pub struct Reader {
    decoder: FrameDecoder,
    error: Option<ProtocolError>,
}

impl Reader {
    /// The bytes read from the server and not yet decoded.
    pub closed spec fn pending(&self) -> Seq<u8> {
        self.decoder.pending()
    }

    /// The longest payload that the reader accepts.
    pub closed spec fn limit(&self) -> u32 {
        self.decoder.limit()
    }

    /// Why the reader has stopped, if it has.
    pub closed spec fn stopped_by(&self) -> Option<ProtocolError> {
        self.error
    }

    /// A reader that has read nothing yet.
    pub fn new(max_len: u32) -> (reader: Reader)
        ensures
            reader.pending() == Seq::<u8>::empty(),
            reader.limit() == max_len,
            reader.stopped_by() is None,
    {
        Reader { decoder: FrameDecoder::new(max_len), error: None }
    }

    /// Why the reader has stopped, if it has.
    pub fn error(&self) -> (error: Option<ProtocolError>)
        ensures
            error == self.stopped_by(),
    {
        self.error
    }

    /// Takes the bytes `chunk` that were read from the server and says what
    /// to tell the session: each message of the whole frames received so far,
    /// in order. A frame that is not all there yet waits for the next call.
    /// A frame that holds no message, or announces more than the frame limit,
    /// stops the reader, which drops the bytes it still held: the session is
    /// told once, after the messages before it, that the connection is gone.
    /// A reader that has stopped says nothing more.
    pub fn on_bytes(&mut self, chunk: &[u8]) -> (events: Vec<Event>)
        ensures
            final(self).limit() == old(self).limit(),
            old(self).stopped_by() is Some ==> {
                &&& events@.len() == 0
                &&& final(self).stopped_by() == old(self).stopped_by()
                &&& final(self).pending() == old(self).pending()
            },
            old(self).stopped_by() is None ==> {
                let buf = old(self).pending() + chunk@;
                let messages = decoded(buf, old(self).limit(), server_parser());
                let error = stream_error(buf, old(self).limit(), server_parser());
                &&& final(self).stopped_by() == error
                &&& events@.len() == messages.len() + (if error is Some {
                    1nat
                } else {
                    0nat
                })
                &&& forall|i: int|
                    0 <= i < messages.len() ==> (#[trigger] events@[i])@ == EventModel::Server(
                        messages[i].chat,
                    )
                &&& error is Some ==> events@[messages.len() as int]@ == EventModel::Disconnected
                &&& final(self).pending() == (if error is None {
                    remainder(buf, old(self).limit())
                } else {
                    Seq::empty()
                })
            },
    {
        let mut events: Vec<Event> = Vec::new();
        if self.error.is_some() {
            return events;
        }
        self.decoder.feed(chunk);
        let (messages, error) = self.decoder.drain::<ServerNetworkData>();
        for message in it: messages
            invariant
                events@.len() == it.index(),
                forall|i: int|
                    0 <= i < it.index() ==> (#[trigger] events@[i])@ == EventModel::Server(
                        it.seq()[i]@.chat,
                    ),
        {
            events.push(Event::ServerInput(ChatData::from_server(message.chat_data)));
        }
        if error.is_some() {
            self.error = error;
            events.push(Event::Disconnected);
        }
        events
    }

    /// The server's stream has ended, or reading it failed. A reader that
    /// was still reading stops with `ConnectionClosed` and tells the session
    /// that the connection is gone; one that had stopped already says
    /// nothing.
    pub fn on_end(&mut self) -> (event: Option<Event>)
        ensures
            final(self).limit() == old(self).limit(),
            final(self).pending() == old(self).pending(),
            old(self).stopped_by() is Some ==> event is None,
            old(self).stopped_by() is Some ==> final(self).stopped_by() == old(self).stopped_by(),
            old(self).stopped_by() is None ==> final(self).stopped_by() == Some(
                ProtocolError::ConnectionClosed,
            ),
            old(self).stopped_by() is None ==> event is Some && event->0@
                == EventModel::Disconnected,
    {
        if self.error.is_some() {
            None
        } else {
            self.error = Some(ProtocolError::ConnectionClosed);
            Some(Event::Disconnected)
        }
    }
}

} // verus!
