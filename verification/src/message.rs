//! The messages that clients and the relay server exchange.

use vstd::prelude::*;

verus! {

/// What a client sends to the server.
#[derive(Clone, Debug, PartialEq, Eq)]
pub enum ClientChatData {
    /// A chat message: its text and the identifier its sender gave it.
    SelfChatMessage(String, usize),
    /// A camera frame: its bytes, width and height.
    VideoFrame(Vec<u8>, u32, u32),
}

/// The envelope of a client's message.
#[derive(Clone, Debug, PartialEq, Eq)]
pub struct ClientNetworkData {
    pub chat_data: ClientChatData,
}

/// What the server sends to a client.
#[derive(Clone, Debug, PartialEq, Eq)]
pub enum ServerChatData {
    /// A chat message of another client.
    OtherChatMessage(String),
    /// The receiving client's own chat message coming back, with the
    /// identifier that client gave it.
    SelfChatMessage(String, usize),
    /// A camera frame: its bytes, width, height and the index of its source.
    VideoFrame(Vec<u8>, u32, u32, u32),
}

/// The envelope of a server's message.
#[derive(Clone, Debug, PartialEq, Eq)]
pub struct ServerNetworkData {
    /// When the server received the message, in milliseconds since the epoch.
    pub timestamp: i64,
    pub chat_data: ServerChatData,
}

/// A server's message as the client's session consumes it.
#[derive(Clone, Debug, PartialEq, Eq)]
pub enum ChatData {
    /// A chat message of another client.
    OtherChatMessage(String),
    /// This client's own chat message coming back, with its identifier.
    SelfChatMessage(String, usize),
    /// A camera frame: its bytes, width, height and the index of its source.
    VideoFrame(Vec<u8>, u32, u32, u32),
}

/// The mathematical content of a client's message.
pub enum ClientChat {
    Message { text: Seq<char>, id: usize },
    Video { data: Seq<u8>, width: u32, height: u32 },
}

/// The mathematical content of a server's message.
pub enum ServerChat {
    FromOther { text: Seq<char> },
    Echo { text: Seq<char>, id: usize },
    Video { data: Seq<u8>, width: u32, height: u32, source: u32 },
}

/// The mathematical content of a server's envelope.
pub struct ServerMessage {
    pub timestamp: i64,
    pub chat: ServerChat,
}

impl View for ClientChatData {
    type V = ClientChat;

    open spec fn view(&self) -> ClientChat {
        match *self {
            ClientChatData::SelfChatMessage(text, id) => ClientChat::Message { text: text@, id },
            ClientChatData::VideoFrame(data, width, height) => ClientChat::Video {
                data: data@,
                width,
                height,
            },
        }
    }
}

impl View for ClientNetworkData {
    type V = ClientChat;

    open spec fn view(&self) -> ClientChat {
        self.chat_data@
    }
}

impl View for ServerChatData {
    type V = ServerChat;

    open spec fn view(&self) -> ServerChat {
        match *self {
            ServerChatData::OtherChatMessage(text) => ServerChat::FromOther { text: text@ },
            ServerChatData::SelfChatMessage(text, id) => ServerChat::Echo { text: text@, id },
            ServerChatData::VideoFrame(data, width, height, source) => ServerChat::Video {
                data: data@,
                width,
                height,
                source,
            },
        }
    }
}

impl View for ServerNetworkData {
    type V = ServerMessage;

    open spec fn view(&self) -> ServerMessage {
        ServerMessage { timestamp: self.timestamp, chat: self.chat_data@ }
    }
}

impl View for ChatData {
    type V = ServerChat;

    open spec fn view(&self) -> ServerChat {
        match *self {
            ChatData::OtherChatMessage(text) => ServerChat::FromOther { text: text@ },
            ChatData::SelfChatMessage(text, id) => ServerChat::Echo { text: text@, id },
            ChatData::VideoFrame(data, width, height, source) => ServerChat::Video {
                data: data@,
                width,
                height,
                source,
            },
        }
    }
}

impl ClientNetworkData {
    /// The envelope of `chat_data`.
    pub fn new(chat_data: ClientChatData) -> (envelope: ClientNetworkData)
        ensures
            envelope.chat_data == chat_data,
    {
        ClientNetworkData { chat_data }
    }
}

impl ServerNetworkData {
    /// The envelope of `chat_data`, received by the server at `timestamp`.
    pub fn new(timestamp: i64, chat_data: ServerChatData) -> (envelope: ServerNetworkData)
        ensures
            envelope.timestamp == timestamp,
            envelope.chat_data == chat_data,
    {
        ServerNetworkData { timestamp, chat_data }
    }
}

impl ChatData {
    /// The session's form of what the server sent.
    pub fn from_server(data: ServerChatData) -> (chat: ChatData)
        ensures
            chat@ == data@,
    {
        match data {
            ServerChatData::OtherChatMessage(text) => ChatData::OtherChatMessage(text),
            ServerChatData::SelfChatMessage(text, id) => ChatData::SelfChatMessage(text, id),
            ServerChatData::VideoFrame(data, width, height, source) => ChatData::VideoFrame(
                data,
                width,
                height,
                source,
            ),
        }
    }
}

} // verus!
