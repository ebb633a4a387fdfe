use chatrelay::bridge::Reader;
use chatrelay::chat::Origin;
use chatrelay::error::ProtocolError;
use chatrelay::framing::{encode_client, encode_server};
use chatrelay::message::{
    ChatData, ClientChatData, ClientNetworkData, ServerChatData, ServerNetworkData,
};
use chatrelay::relay::{respond, Connection, Delivery, Published, ReadOutcome, Subscription};
use chatrelay::session::{Action, Event, Key, SessionState};
use chatrelay::uid::UidCounter;

const LIMIT: u32 = 4096;

fn chat(text: &str, id: usize) -> ClientNetworkData {
    ClientNetworkData::new(ClientChatData::SelfChatMessage(text.to_string(), id))
}

fn published(text: &str, id: usize, origin: u32, timestamp: i64) -> Published {
    Published { data: chat(text, id), origin, timestamp }
}

#[test]
fn sender_gets_an_echo_and_others_get_the_message() {
    let item = published("hi", 1, 4, 1000);
    assert_eq!(
        respond(&item, 4),
        ServerNetworkData::new(1000, ServerChatData::SelfChatMessage("hi".to_string(), 1))
    );
    assert_eq!(
        respond(&item, 5),
        ServerNetworkData::new(1000, ServerChatData::OtherChatMessage("hi".to_string()))
    );
}

#[test]
fn video_goes_to_everyone_marked_with_its_origin() {
    let item = Published {
        data: ClientNetworkData::new(ClientChatData::VideoFrame(vec![1, 2], 3, 4)),
        origin: 6,
        timestamp: -5,
    };
    let expected = ServerNetworkData::new(-5, ServerChatData::VideoFrame(vec![1, 2], 3, 4, 6));
    assert_eq!(respond(&item, 6), expected);
    assert_eq!(respond(&item, 7), expected);
}

#[test]
fn connection_publishes_what_it_reads() {
    let mut connection = Connection::new(3, LIMIT);
    assert_eq!(connection.number(), 3);
    assert!(connection.open());
    let mut bytes = encode_client(&chat("one", 1), LIMIT).unwrap();
    bytes.extend(encode_client(&chat("two", 2), LIMIT).unwrap());
    let third = encode_client(&chat("three", 3), LIMIT).unwrap();
    bytes.extend(&third[..5]);
    let outcome = connection.on_read(&bytes, 77);
    assert_eq!(
        outcome,
        ReadOutcome {
            published: vec![published("one", 1, 3, 77), published("two", 2, 3, 77)],
            error: None
        }
    );
    let outcome = connection.on_read(&third[5..], 78);
    assert_eq!(
        outcome,
        ReadOutcome { published: vec![published("three", 3, 3, 78)], error: None }
    );
    assert!(connection.open());
    let outcome = connection.on_read(&[], 79);
    assert_eq!(outcome, ReadOutcome { published: Vec::new(), error: None });
}

#[test]
fn malformed_frame_closes_only_after_what_came_before() {
    let mut connection = Connection::new(1, LIMIT);
    let mut bytes = encode_client(&chat("good", 1), LIMIT).unwrap();
    bytes.extend([0, 0, 0, 2, 9, 9]);
    bytes.extend(encode_client(&chat("late", 2), LIMIT).unwrap());
    let outcome = connection.on_read(&bytes, 5);
    assert_eq!(
        outcome,
        ReadOutcome {
            published: vec![published("good", 1, 1, 5)],
            error: Some(ProtocolError::MalformedPayload)
        }
    );
    assert!(!connection.open());
    let again = connection.on_read(&encode_client(&chat("more", 3), LIMIT).unwrap(), 6);
    assert_eq!(
        again,
        ReadOutcome { published: Vec::new(), error: Some(ProtocolError::ConnectionClosed) }
    );
}

#[test]
fn oversized_frame_closes_the_connection() {
    let mut connection = Connection::new(1, 16);
    let outcome = connection.on_read(&[0, 0, 0, 17], 5);
    assert_eq!(
        outcome,
        ReadOutcome { published: Vec::new(), error: Some(ProtocolError::OversizedFrame) }
    );
    assert!(!connection.open());
}

#[test]
fn end_of_stream_and_write_errors_close_one_connection() {
    let mut first = Connection::new(1, LIMIT);
    let mut second = Connection::new(2, LIMIT);
    let mut third = Connection::new(3, LIMIT);
    assert_eq!(first.on_read_end(), ProtocolError::ConnectionClosed);
    second.on_write_error();
    assert!(!first.open());
    assert!(!second.open());
    assert!(third.open());
    let item = published("hi", 1, 1, 0);
    assert_eq!(first.on_subscription(Subscription::Item(item.clone())), Delivery::Stop);
    assert_eq!(second.on_subscription(Subscription::Item(item.clone())), Delivery::Stop);
    let expected = encode_server(&respond(&item, 3), LIMIT).unwrap();
    assert_eq!(third.on_subscription(Subscription::Item(item)), Delivery::Write(expected));
    let outcome = third.on_read(&encode_client(&chat("yo", 9), LIMIT).unwrap(), 1);
    assert_eq!(outcome.published, vec![published("yo", 9, 3, 1)]);
}

#[test]
fn subscription_events_are_delivered_skipped_or_final() {
    let connection = Connection::new(2, 32);
    let own = published("hi", 1, 2, 10);
    let echo = encode_server(
        &ServerNetworkData::new(10, ServerChatData::SelfChatMessage("hi".to_string(), 1)),
        32,
    )
    .unwrap();
    assert_eq!(connection.on_subscription(Subscription::Item(own)), Delivery::Write(echo));
    let long = published("a text that is too long for the limit", 1, 1, 10);
    assert_eq!(
        connection.on_subscription(Subscription::Item(long)),
        Delivery::Skip(ProtocolError::OversizedFrame)
    );
    assert_eq!(
        connection.on_subscription(Subscription::Lagged(3)),
        Delivery::Skip(ProtocolError::ChannelOverflow)
    );
    assert_eq!(connection.on_subscription(Subscription::Closed), Delivery::Stop);
    assert!(connection.open());
}

#[test]
fn reader_turns_bytes_into_events() {
    let mut reader = Reader::new(LIMIT);
    let mut bytes = encode_server(
        &ServerNetworkData::new(1, ServerChatData::OtherChatMessage("a".to_string())),
        LIMIT,
    )
    .unwrap();
    bytes.extend(
        encode_server(
            &ServerNetworkData::new(2, ServerChatData::VideoFrame(vec![5], 1, 1, 8)),
            LIMIT,
        )
        .unwrap(),
    );
    let mut events = Vec::new();
    for byte in &bytes {
        events.extend(reader.on_bytes(&[*byte]));
    }
    assert_eq!(
        events,
        vec![
            Event::ServerInput(ChatData::OtherChatMessage("a".to_string())),
            Event::ServerInput(ChatData::VideoFrame(vec![5], 1, 1, 8)),
        ]
    );
    let mut whole = Reader::new(LIMIT);
    assert_eq!(whole.on_bytes(&bytes), events);
    assert_eq!(whole.error(), None);
}

#[test]
fn reader_says_once_that_the_connection_is_gone() {
    let mut reader = Reader::new(LIMIT);
    assert_eq!(reader.on_bytes(&[0, 0]), Vec::new());
    assert_eq!(reader.on_end(), Some(Event::Disconnected));
    assert_eq!(reader.error(), Some(ProtocolError::ConnectionClosed));
    assert_eq!(reader.on_end(), None);
    assert_eq!(reader.on_bytes(&[0, 0, 0, 0]), Vec::new());
    let mut bad = Reader::new(LIMIT);
    let mut bytes = encode_server(
        &ServerNetworkData::new(1, ServerChatData::OtherChatMessage("a".to_string())),
        LIMIT,
    )
    .unwrap();
    bytes.extend([0, 0, 0, 1, 7]);
    assert_eq!(
        bad.on_bytes(&bytes),
        vec![
            Event::ServerInput(ChatData::OtherChatMessage("a".to_string())),
            Event::Disconnected
        ]
    );
    assert_eq!(bad.error(), Some(ProtocolError::MalformedPayload));
    assert_eq!(bad.on_end(), None);
    let mut big = Reader::new(8);
    assert_eq!(big.on_bytes(&[0, 0, 0, 9]), vec![Event::Disconnected]);
    assert_eq!(big.error(), Some(ProtocolError::OversizedFrame));
}

struct Client {
    state: SessionState,
    reader: Reader,
    connection: Connection,
}

fn client(number: u32, first_uid: usize) -> Client {
    Client {
        state: SessionState::new(UidCounter { next: first_uid }),
        reader: Reader::new(LIMIT),
        connection: Connection::new(number, LIMIT),
    }
}

fn say(client: &mut Client, text: &str, now: i64) -> Vec<Published> {
    for c in text.chars() {
        client.state.apply(Event::UserInputKey(Key::Char(c)));
    }
    let message = match client.state.apply(Event::UserInputKey(Key::Enter)) {
        Action::Send(message) => message,
        other => panic!("nothing to send: {:?}", other),
    };
    let bytes = encode_client(&message, LIMIT).unwrap();
    let outcome = client.connection.on_read(&bytes, now);
    assert_eq!(outcome.error, None);
    outcome.published
}

fn deliver(client: &mut Client, item: &Published) {
    let bytes = match client.connection.on_subscription(Subscription::Item(item.clone())) {
        Delivery::Write(bytes) => bytes,
        other => panic!("nothing to write: {:?}", other),
    };
    for event in client.reader.on_bytes(&bytes) {
        assert_eq!(client.state.apply(event), Action::Nothing);
    }
}

fn log_of(client: &Client) -> Vec<(String, bool, Origin)> {
    let log = client.state.log();
    (0..log.len())
        .map(|i| {
            let entry = log.get(i).unwrap();
            (entry.message.clone(), entry.is_pending, entry.origin)
        })
        .collect()
}

#[test]
fn chat_message_is_echoed_to_its_sender_and_forwarded_to_peers() {
    let mut sender = client(1, 1);
    let mut peer = client(2, 1);
    let mut other_peer = client(3, 1);
    let items = say(&mut sender, "hi", 50);
    assert_eq!(items, vec![published("hi", 1, 1, 50)]);
    assert_eq!(log_of(&sender), vec![("hi".to_string(), true, Origin::Own)]);
    for item in &items {
        deliver(&mut sender, item);
        deliver(&mut peer, item);
        deliver(&mut other_peer, item);
    }
    assert_eq!(log_of(&sender), vec![("hi".to_string(), false, Origin::Own)]);
    assert_eq!(log_of(&peer), vec![("hi".to_string(), false, Origin::Other)]);
    assert_eq!(log_of(&other_peer), vec![("hi".to_string(), false, Origin::Other)]);
}

#[test]
fn two_senders_see_one_own_and_one_other_entry_each() {
    let mut a = client(1, 1);
    let mut b = client(2, 2);
    let from_a = say(&mut a, "from a", 10);
    let from_b = say(&mut b, "from b", 10);
    assert_eq!(from_a[0].data, chat("from a", 1));
    assert_eq!(from_b[0].data, chat("from b", 2));
    deliver(&mut a, &from_a[0]);
    deliver(&mut a, &from_b[0]);
    deliver(&mut b, &from_b[0]);
    deliver(&mut b, &from_a[0]);
    assert_eq!(
        log_of(&a),
        vec![
            ("from a".to_string(), false, Origin::Own),
            ("from b".to_string(), false, Origin::Other)
        ]
    );
    assert_eq!(
        log_of(&b),
        vec![
            ("from b".to_string(), false, Origin::Own),
            ("from a".to_string(), false, Origin::Other)
        ]
    );
    let mut c = client(1, 1);
    let mut d = client(2, 2);
    let from_c = say(&mut c, "from a", 10);
    let from_d = say(&mut d, "from b", 10);
    deliver(&mut c, &from_d[0]);
    deliver(&mut c, &from_c[0]);
    deliver(&mut d, &from_d[0]);
    deliver(&mut d, &from_c[0]);
    assert_eq!(
        log_of(&c),
        vec![
            ("from b".to_string(), false, Origin::Other),
            ("from a".to_string(), false, Origin::Own)
        ]
    );
    assert_eq!(log_of(&d), log_of(&b));
}

#[test]
fn slow_subscriber_loses_the_oldest_item_and_the_publisher_goes_on() {
    let (tx, mut slow) = tokio::sync::broadcast::channel::<Published>(2);
    let connection = Connection::new(9, LIMIT);
    assert_eq!(tx.send(published("one", 1, 1, 0)).ok(), Some(1));
    assert_eq!(tx.send(published("two", 2, 1, 0)).ok(), Some(1));
    assert_eq!(tx.send(published("three", 3, 1, 0)).ok(), Some(1));
    let mut deliveries = Vec::new();
    loop {
        let event = match slow.try_recv() {
            Ok(item) => Subscription::Item(item),
            Err(tokio::sync::broadcast::error::TryRecvError::Lagged(n)) => Subscription::Lagged(n),
            Err(tokio::sync::broadcast::error::TryRecvError::Closed) => Subscription::Closed,
            Err(tokio::sync::broadcast::error::TryRecvError::Empty) => break,
        };
        deliveries.push(connection.on_subscription(event));
    }
    let second = encode_server(&respond(&published("two", 2, 1, 0), 9), LIMIT).unwrap();
    let third = encode_server(&respond(&published("three", 3, 1, 0), 9), LIMIT).unwrap();
    assert_eq!(
        deliveries,
        vec![
            Delivery::Skip(ProtocolError::ChannelOverflow),
            Delivery::Write(second),
            Delivery::Write(third)
        ]
    );
    assert!(connection.open());
}
