//! The client's session: one state, changed by one event at a time, and the
//! picture that is drawn of it after each event.

use crate::chat::{span_models, ChatEntry, LineSpan, Origin, SpanModel};
use crate::input::{InputLine, InputModel};
use crate::log::{
    count_echoes, count_own, echo_ids_distinct, echoed, lemma_echoes_confirm_all,
    lemma_push_pending_keeps_log_wf, lemma_receive_keeps_log_wf, log_lines, log_wf, pending_entry,
    receive, receive_all, ChatLog,
};
use crate::message::{ChatData, ClientChat, ClientChatData, ClientNetworkData, ServerChat};
use crate::uid::UidCounter;
use crate::video::{
    distinct_sources, frame_of, lemma_last_write_wins, lemma_store, slot_models, store, store_all,
    FrameModel, SlotModel, VideoFrame, VideoSlot, VideoSlots,
};
use vstd::prelude::*;

verus! {

/// A key that the user pressed.
#[derive(Clone, Copy, Debug, PartialEq, Eq, Structural)]
pub enum Key {
    /// A printable character.
    Char(char),
    Backspace,
    Delete,
    Enter,
    Left,
    Right,
    Up,
    Down,
    /// The key, or chord, that ends the session.
    Quit,
    /// Any other key.
    Other,
}

/// What the session is told, one at a time and in the order of arrival.
#[derive(Debug, PartialEq, Eq)]
pub enum Event {
    /// The user pressed a key.
    UserInputKey(Key),
    /// The camera took a frame.
    UserInputFrame(VideoFrame),
    /// The server sent a message.
    ServerInput(ChatData),
    /// The connection to the server is gone.
    Disconnected,
    /// The ticker fired.
    Tick,
}

/// What the session asks of the world after an event.
#[derive(Debug, PartialEq, Eq)]
pub enum Action {
    Nothing,
    /// Put this message on the writer's queue.
    Send(ClientNetworkData),
    /// End the session.
    Quit,
}

/// The room there is to draw in, in columns and rows.
#[derive(Clone, Copy, Debug, PartialEq, Eq, Structural)]
pub struct Viewport {
    pub chat_width: usize,
    pub chat_height: usize,
    pub input_width: usize,
    pub input_height: usize,
}

/// The picture of the session that is handed to the screen.
#[derive(Debug, PartialEq, Eq)]
pub struct Snapshot {
    /// The lines of the chat log that are in view.
    pub chat_lines: Vec<LineSpan>,
    /// The video slots.
    pub video_slots: Vec<VideoSlot>,
    /// The text of the input line.
    pub input_line: String,
    /// The index of the first character of the input line that is shown.
    pub input_scroll: usize,
    /// The column of the cursor inside the input area, if there is room
    /// for one.
    pub cursor_pos: Option<usize>,
    /// Whether the connection to the server is still there.
    pub connected: bool,
}

/// The mathematical content of an event.
pub enum EventModel {
    Key(Key),
    Frame(FrameModel),
    Server(ServerChat),
    Disconnected,
    Tick,
}

/// The mathematical content of an action.
pub enum ActionModel {
    Nothing,
    Send(ClientChat),
    Quit,
}

/// The mathematical content of a snapshot.
pub struct SnapshotModel {
    pub chat_lines: Seq<SpanModel>,
    pub video_slots: Seq<SlotModel>,
    pub input_line: Seq<char>,
    pub input_scroll: nat,
    pub cursor_pos: Option<nat>,
    pub connected: bool,
}

impl View for Event {
    type V = EventModel;

    open spec fn view(&self) -> EventModel {
        match *self {
            Event::UserInputKey(key) => EventModel::Key(key),
            Event::UserInputFrame(frame) => EventModel::Frame(frame@),
            Event::ServerInput(data) => EventModel::Server(data@),
            Event::Disconnected => EventModel::Disconnected,
            Event::Tick => EventModel::Tick,
        }
    }
}

impl View for Action {
    type V = ActionModel;

    open spec fn view(&self) -> ActionModel {
        match *self {
            Action::Nothing => ActionModel::Nothing,
            Action::Send(message) => ActionModel::Send(message@),
            Action::Quit => ActionModel::Quit,
        }
    }
}

impl View for Snapshot {
    type V = SnapshotModel;

    open spec fn view(&self) -> SnapshotModel {
        SnapshotModel {
            chat_lines: span_models(self.chat_lines@),
            video_slots: slot_models(self.video_slots@),
            input_line: self.input_line@,
            input_scroll: self.input_scroll as nat,
            cursor_pos: match self.cursor_pos {
                Some(column) => Some(column as nat),
                None => None,
            },
            connected: self.connected,
        }
    }
}

/// The scroll position after the log has been wrapped into `total` lines for
/// a window of `height` rows: a view that follows the end of the log shows
/// the last `height` lines; any other view stays where it is, or goes back
/// to the last full window if it was left behind it.
pub open spec fn settle(index: nat, stick: bool, total: nat, height: nat) -> nat {
    if stick || index > bottom(total, height) {
        bottom(total, height)
    } else {
        index
    }
}

/// The index of the first line of the last window of `height` rows over
/// `total` lines.
pub open spec fn bottom(total: nat, height: nat) -> nat {
    if total >= height {
        (total - height) as nat
    } else {
        0
    }
}

/// The mathematical content of a session.
pub struct SessionModel {
    /// The chat log, in the order of arrival.
    pub log: Seq<ChatEntry>,
    /// The video slots, in the order in which their sources were first seen.
    pub slots: Seq<SlotModel>,
    /// The input line.
    pub input: InputModel,
    /// The index of the first wrapped line of the log that is in view.
    pub line_index: nat,
    /// Whether the view follows the end of the log.
    pub stick_to_bottom: bool,
    /// The largest line index that showed a full window when the session
    /// was last drawn.
    pub max_line_index: nat,
    /// The identifier that the next own message gets.
    pub next_uid: usize,
    /// Whether the connection to the server is still there.
    pub connected: bool,
}

impl SessionModel {
    /// The session before anything has happened.
    pub open spec fn initial(next_uid: usize) -> SessionModel {
        SessionModel {
            log: Seq::empty(),
            slots: Seq::empty(),
            input: InputModel::empty(0),
            line_index: 0,
            stick_to_bottom: true,
            max_line_index: 0,
            next_uid,
            connected: true,
        }
    }

    /// What holds of a session at all times: the log keeps its promise about
    /// pending entries, no source has two video slots, the cursor is inside
    /// the input text and in view, and the log is not scrolled past its end.
    pub open spec fn wf(self) -> bool {
        &&& log_wf(self.log, self.next_uid)
        &&& distinct_sources(self.slots)
        &&& self.input.wf()
        &&& self.line_index <= self.max_line_index
    }

    /// Whether pressing Enter sends a message: there is text, and an
    /// identifier left to give it.
    pub open spec fn sends(self) -> bool {
        self.input.text.len() > 0 && self.next_uid < usize::MAX
    }

    /// The session after the key `key`.
    pub open spec fn press(self, key: Key) -> SessionModel {
        match key {
            Key::Char(c) => SessionModel { input: self.input.insert(c), ..self },
            Key::Backspace => SessionModel { input: self.input.backspace(), ..self },
            Key::Delete => SessionModel { input: self.input.delete(), ..self },
            Key::Left => SessionModel { input: self.input.left(), ..self },
            Key::Right => SessionModel { input: self.input.right(), ..self },
            Key::Enter => if self.input.text.len() == 0 {
                self
            } else if self.next_uid < usize::MAX {
                SessionModel {
                    input: InputModel::empty(self.input.width),
                    log: self.log.push(pending_entry(self.input.text, self.next_uid)),
                    next_uid: (self.next_uid + 1) as usize,
                    ..self
                }
            } else {
                SessionModel { input: InputModel::empty(self.input.width), ..self }
            },
            Key::Up => SessionModel {
                line_index: if self.line_index > 0 {
                    (self.line_index - 1) as nat
                } else {
                    0
                },
                stick_to_bottom: false,
                ..self
            },
            Key::Down => if self.line_index >= self.max_line_index {
                SessionModel { stick_to_bottom: true, ..self }
            } else {
                SessionModel { line_index: self.line_index + 1, ..self }
            },
            Key::Quit => self,
            Key::Other => self,
        }
    }

    /// The session after the event `event`.
    pub open spec fn reduce(self, event: EventModel) -> SessionModel {
        match event {
            EventModel::Key(key) => self.press(key),
            EventModel::Frame(frame) => self,
            EventModel::Server(message) => SessionModel {
                log: receive(self.log, message),
                slots: match message {
                    ServerChat::Video { data, width, height, source } => store(
                        self.slots,
                        source,
                        FrameModel { data, width, height },
                    ),
                    _ => self.slots,
                },
                ..self
            },
            EventModel::Disconnected => SessionModel { connected: false, ..self },
            EventModel::Tick => self,
        }
    }

    /// What the session asks of the world after the event `event`: Enter on
    /// text sends the text under the next identifier, a camera frame is sent
    /// on as it is, the quit key ends the session; nothing else asks
    /// anything.
    pub open spec fn action(self, event: EventModel) -> ActionModel {
        match event {
            EventModel::Key(Key::Enter) => if self.sends() {
                ActionModel::Send(ClientChat::Message { text: self.input.text, id: self.next_uid })
            } else {
                ActionModel::Nothing
            },
            EventModel::Key(Key::Quit) => ActionModel::Quit,
            EventModel::Frame(frame) => ActionModel::Send(
                ClientChat::Video { data: frame.data, width: frame.width, height: frame.height },
            ),
            _ => ActionModel::Nothing,
        }
    }

    /// Whether the chat area of `viewport` has room for the log.
    pub open spec fn shows_chat(viewport: Viewport) -> bool {
        viewport.chat_height > 0 && viewport.chat_width > 0
    }

    /// The session after it was drawn into `viewport`: the log is wrapped
    /// anew for the width of the chat area and the scroll position settles
    /// on it, and the window on the input line follows the cursor into the
    /// input area. Whether the view follows the end of the log stays as the
    /// keys set it.
    pub open spec fn drawn(self, viewport: Viewport) -> SessionModel {
        let total = log_lines(self.log, viewport.chat_width).len();
        SessionModel {
            line_index: if Self::shows_chat(viewport) {
                settle(self.line_index, self.stick_to_bottom, total, viewport.chat_height as nat)
            } else {
                self.line_index
            },
            max_line_index: if Self::shows_chat(viewport) {
                bottom(total, viewport.chat_height as nat)
            } else {
                self.max_line_index
            },
            input: self.input.resized(viewport.input_width as nat),
            ..self
        }
    }

    /// The picture of a session that was drawn into `viewport`: the window
    /// of wrapped lines that starts at the scroll position, the video slots,
    /// the input line, and the cursor at its distance from the scroll
    /// offset.
    pub open spec fn picture(self, viewport: Viewport) -> SnapshotModel {
        let lines = log_lines(self.log, viewport.chat_width);
        let end = if self.line_index + viewport.chat_height <= lines.len() {
            self.line_index + viewport.chat_height
        } else {
            lines.len() as int
        };
        SnapshotModel {
            chat_lines: if Self::shows_chat(viewport) && self.line_index <= lines.len() {
                lines.subrange(self.line_index as int, end)
            } else {
                Seq::empty()
            },
            video_slots: self.slots,
            input_line: self.input.text,
            input_scroll: self.input.scroll,
            cursor_pos: if viewport.input_height > 0 && viewport.input_width > 0 {
                Some((self.input.cursor - self.input.scroll) as nat)
            } else {
                None
            },
            connected: self.connected,
        }
    }
}

/// Every event leaves a session as a session should be.
pub proof fn lemma_reduce_keeps_wf(session: SessionModel, event: EventModel)
    requires
        session.wf(),
    ensures
        session.reduce(event).wf(),
{
    match event {
        EventModel::Key(key) => {
            match key {
                Key::Enter => {
                    if session.input.text.len() > 0 && session.next_uid < usize::MAX {
                        lemma_push_pending_keeps_log_wf(
                            session.log,
                            session.input.text,
                            session.next_uid,
                        );
                    }
                },
                _ => {},
            }
        },
        EventModel::Server(message) => {
            lemma_receive_keeps_log_wf(session.log, message, session.next_uid);
            match message {
                ServerChat::Video { data, width, height, source } => {
                    lemma_store(session.slots, source, FrameModel { data, width, height });
                },
                _ => {},
            }
        },
        _ => {},
    }
}

/// Drawing leaves a session as a session should be, with the scroll position
/// on a full window of the wrapped log, or at its top where the log is
/// shorter than the window. It does not change whether the view follows the
/// end of the log: only the keys Up and Down do.
pub proof fn lemma_drawn_keeps_wf(session: SessionModel, viewport: Viewport)
    requires
        session.wf(),
    ensures
        session.drawn(viewport).wf(),
        session.drawn(viewport).stick_to_bottom == session.stick_to_bottom,
        SessionModel::shows_chat(viewport) ==> session.drawn(viewport).line_index <= bottom(
            log_lines(session.log, viewport.chat_width).len(),
            viewport.chat_height as nat,
        ),
        SessionModel::shows_chat(viewport) && session.stick_to_bottom ==> session.drawn(
            viewport,
        ).line_index == bottom(
            log_lines(session.log, viewport.chat_width).len(),
            viewport.chat_height as nat,
        ),
        SessionModel::shows_chat(viewport) && !session.stick_to_bottom && session.line_index
            <= bottom(
            log_lines(session.log, viewport.chat_width).len(),
            viewport.chat_height as nat,
        ) ==> session.drawn(viewport).line_index == session.line_index,
{
}

/// On a session that has been drawn, Up moves the view back by one line and
/// Down forward by one, never out of the range from the top of the log to
/// its last full window; after Up the view does not follow the end of the
/// log, and drawing does not make it follow again.
pub proof fn lemma_scroll_keys_move_by_one(session: SessionModel, viewport: Viewport)
    requires
        session.wf(),
        SessionModel::shows_chat(viewport),
    ensures
        ({
            let last = bottom(
                log_lines(session.log, viewport.chat_width).len(),
                viewport.chat_height as nat,
            );
            let shown = session.drawn(viewport);
            let up = shown.press(Key::Up).drawn(viewport);
            let down = shown.press(Key::Down).drawn(viewport);
            &&& shown.line_index <= last
            &&& up.line_index == (if shown.line_index > 0 {
                shown.line_index - 1
            } else {
                0
            })
            &&& !shown.press(Key::Up).stick_to_bottom
            &&& !up.stick_to_bottom
            &&& down.line_index == (if shown.line_index < last {
                shown.line_index + 1
            } else {
                last
            })
            &&& down.line_index <= last
            &&& down.stick_to_bottom == (shown.stick_to_bottom || shown.line_index == last)
        }),
{
}

/// Enter on an input line that holds text empties the line and puts the
/// cursor and the scroll offset at its start, wherever the cursor was.
pub proof fn lemma_enter_clears_input(session: SessionModel)
    requires
        session.input.text.len() > 0,
    ensures
        session.reduce(EventModel::Key(Key::Enter)).input == InputModel::empty(
            session.input.width,
        ),
        session.reduce(EventModel::Key(Key::Enter)).input.text.len() == 0,
        session.reduce(EventModel::Key(Key::Enter)).input.cursor == 0,
{
}

/// A frame from the server changes the slot of its source and nothing else
/// of the session; no other event changes any slot.
pub proof fn lemma_only_frames_touch_slots(session: SessionModel, event: EventModel)
    ensures
        match event {
            EventModel::Server(ServerChat::Video { data, width, height, source }) =>
                session.reduce(event).slots == store(
                    session.slots,
                    source,
                    FrameModel { data, width, height },
                ),
            _ => session.reduce(event).slots == session.slots,
        },
{
}

/// The session after the events `events`, taken one at a time in their
/// order.
pub open spec fn reduce_all(session: SessionModel, events: Seq<EventModel>) -> SessionModel
    decreases events.len(),
{
    if events.len() == 0 {
        session
    } else {
        reduce_all(session, events.drop_last()).reduce(events.last())
    }
}

/// The camera frames that the server sent among `events`, each with its
/// source, in their order.
pub open spec fn frames_in(events: Seq<EventModel>) -> Seq<(u32, FrameModel)>
    decreases events.len(),
{
    if events.len() == 0 {
        Seq::empty()
    } else {
        match events.last() {
            EventModel::Server(ServerChat::Video { data, width, height, source }) => frames_in(
                events.drop_last(),
            ).push((source, FrameModel { data, width, height })),
            _ => frames_in(events.drop_last()),
        }
    }
}

/// The events that tell the session the messages `messages` of the server.
pub open spec fn told(messages: Seq<ServerChat>) -> Seq<EventModel> {
    Seq::new(messages.len(), |i: int| EventModel::Server(messages[i]))
}

/// Whatever the events, the session stays as a session should be.
pub proof fn lemma_reduce_all_keeps_wf(session: SessionModel, events: Seq<EventModel>)
    requires
        session.wf(),
    ensures
        reduce_all(session, events).wf(),
    decreases events.len(),
{
    if events.len() > 0 {
        lemma_reduce_all_keeps_wf(session, events.drop_last());
        lemma_reduce_keeps_wf(reduce_all(session, events.drop_last()), events.last());
    }
}

/// Whatever else happens in between, the video slots are what the frames of
/// the server make them, in the order of their arrival.
pub proof fn lemma_slots_follow_frames(session: SessionModel, events: Seq<EventModel>)
    ensures
        reduce_all(session, events).slots == store_all(session.slots, frames_in(events)),
    decreases events.len(),
{
    if events.len() > 0 {
        let earlier = events.drop_last();
        lemma_slots_follow_frames(session, earlier);
        lemma_only_frames_touch_slots(reduce_all(session, earlier), events.last());
        match events.last() {
            EventModel::Server(ServerChat::Video { data, width, height, source }) => {
                let arrival = (source, FrameModel { data, width, height });
                let arrivals = frames_in(earlier).push(arrival);
                assert(arrivals.drop_last() =~= frames_in(earlier));
                assert(arrivals.last() == arrival);
            },
            _ => {},
        }
    }
}

/// Last write wins, under any interleaving: after any sequence of events the
/// slot of a source holds the frame that the server sent last for that
/// source, and never an older one.
pub proof fn lemma_slot_shows_last_frame(
    session: SessionModel,
    events: Seq<EventModel>,
    source: u32,
)
    requires
        session.wf(),
    ensures
        forall|j: int|
            0 <= j < frames_in(events).len() && (#[trigger] frames_in(events)[j]).0 == source && (
            forall|k: int|
                j < k < frames_in(events).len() ==> (#[trigger] frames_in(events)[k]).0 != source)
                ==> frame_of(reduce_all(session, events).slots, source) == Some(
                frames_in(events)[j].1,
            ),
        distinct_sources(reduce_all(session, events).slots),
{
    lemma_slots_follow_frames(session, events);
    lemma_last_write_wins(session.slots, frames_in(events), source);
    lemma_reduce_all_keeps_wf(session, events);
}

/// A session that is told messages of the server has the log that the
/// messages make of its log.
pub proof fn lemma_log_follows_messages(session: SessionModel, messages: Seq<ServerChat>)
    ensures
        reduce_all(session, told(messages)).log == receive_all(session.log, messages),
    decreases messages.len(),
{
    if messages.len() > 0 {
        lemma_log_follows_messages(session, messages.drop_last());
        assert(told(messages).drop_last() =~= told(messages.drop_last()));
        assert(told(messages).last() == EventModel::Server(messages.last()));
    }
}

/// When the echo of each own message of a session has arrived, once each and
/// in whatever order, the session's log holds as many own messages as echoes
/// arrived, and none of its entries is pending.
pub proof fn lemma_session_echoes_confirm_all(session: SessionModel, messages: Seq<ServerChat>)
    requires
        session.wf(),
        forall|i: int|
            0 <= i < session.log.len() && (#[trigger] session.log[i]).origin == Origin::Own
                ==> session.log[i].id is Some && echoed(messages, session.log[i].id->0),
        echo_ids_distinct(messages),
    ensures
        count_own(reduce_all(session, told(messages)).log) == count_echoes(messages),
        forall|i: int|
            0 <= i < reduce_all(session, told(messages)).log.len() ==> !(#[trigger] reduce_all(
                session,
                told(messages),
            ).log[i]).pending,
{
    lemma_log_follows_messages(session, messages);
    lemma_echoes_confirm_all(session.log, messages);
}

/// Where the view of the log stands.
#[derive(Clone, Copy, Debug)]
struct Scroll {
    line_index: usize,
    stick_to_bottom: bool,
    max_line_index: usize,
}

impl Scroll {
    #[verifier::type_invariant]
    spec fn wf(self) -> bool {
        self.line_index <= self.max_line_index
    }
}

/// The state of a client's session.
#[derive(Debug)]
pub struct SessionState {
    log: ChatLog,
    video: VideoSlots,
    input: InputLine,
    scroll: Scroll,
    connected: bool,
}

impl View for SessionState {
    type V = SessionModel;

    closed spec fn view(&self) -> SessionModel {
        SessionModel {
            log: self.log@,
            slots: self.video@,
            input: self.input@,
            line_index: self.scroll.line_index as nat,
            stick_to_bottom: self.scroll.stick_to_bottom,
            max_line_index: self.scroll.max_line_index as nat,
            next_uid: self.log.next(),
            connected: self.connected,
        }
    }
}

impl SessionState {
    /// A session in which nothing has happened yet. Its own messages get
    /// their identifiers from `uids`.
    pub fn new(uids: UidCounter) -> (session: SessionState)
        ensures
            session@ == SessionModel::initial(uids.next),
            session@.wf(),
    {
        SessionState {
            log: ChatLog::new(uids),
            video: VideoSlots::new(),
            input: InputLine::new(),
            scroll: Scroll { line_index: 0, stick_to_bottom: true, max_line_index: 0 },
            connected: true,
        }
    }

    /// The chat log.
    pub fn log(&self) -> (log: &ChatLog)
        ensures
            log@ == self@.log,
            log.next() == self@.next_uid,
    {
        &self.log
    }

    /// The video slots.
    pub fn video(&self) -> (video: &VideoSlots)
        ensures
            video@ == self@.slots,
    {
        &self.video
    }

    /// The input line.
    pub fn input(&self) -> (input: &InputLine)
        ensures
            input@ == self@.input,
    {
        &self.input
    }

    /// The index of the first wrapped line of the log that is in view.
    pub fn line_index(&self) -> (index: usize)
        ensures
            index == self@.line_index,
    {
        self.scroll.line_index
    }

    /// Whether the view follows the end of the log.
    pub fn sticks_to_bottom(&self) -> (stick: bool)
        ensures
            stick == self@.stick_to_bottom,
    {
        self.scroll.stick_to_bottom
    }

    /// Whether the connection to the server is still there.
    pub fn is_connected(&self) -> (connected: bool)
        ensures
            connected == self@.connected,
    {
        self.connected
    }

    /// The identifier that the next own message gets.
    pub fn next_uid(&self) -> (next: usize)
        ensures
            next == self@.next_uid,
    {
        self.log.next_uid()
    }

    /// Takes the key `key`.
    fn press(&mut self, key: Key) -> (action: Action)
        ensures
            final(self)@ == old(self)@.press(key),
            action@ == old(self)@.action(EventModel::Key(key)),
    {
        match key {
            Key::Char(c) => {
                self.input.insert(c);
            },
            Key::Backspace => {
                self.input.backspace();
            },
            Key::Delete => {
                self.input.delete();
            },
            Key::Left => {
                self.input.left();
            },
            Key::Right => {
                self.input.right();
            },
            Key::Enter => {
                if !self.input.is_empty() {
                    let text: String = self.input.take();
                    let sent: String = text.clone();
                    match self.log.push_pending(text) {
                        Some(uid) => {
                            return Action::Send(
                                ClientNetworkData {
                                    chat_data: ClientChatData::SelfChatMessage(sent, uid),
                                },
                            );
                        },
                        None => {},
                    }
                }
            },
            Key::Up => {
                let scroll: Scroll = self.scroll;
                proof {
                    use_type_invariant(scroll);
                }
                self.scroll = Scroll {
                    line_index: if scroll.line_index > 0 {
                        scroll.line_index - 1
                    } else {
                        0
                    },
                    stick_to_bottom: false,
                    max_line_index: scroll.max_line_index,
                };
            },
            Key::Down => {
                let scroll: Scroll = self.scroll;
                proof {
                    use_type_invariant(scroll);
                }
                if scroll.line_index >= scroll.max_line_index {
                    self.scroll = Scroll { stick_to_bottom: true, ..scroll };
                } else {
                    self.scroll = Scroll { line_index: scroll.line_index + 1, ..scroll };
                }
            },
            Key::Quit => {
                return Action::Quit;
            },
            Key::Other => {},
        }
        Action::Nothing
    }

    /// Takes a message of the server.
    fn receive(&mut self, data: ChatData)
        ensures
            final(self)@ == old(self)@.reduce(EventModel::Server(data@)),
    {
        match data {
            ChatData::OtherChatMessage(message) => {
                self.log.push_other(message);
            },
            ChatData::SelfChatMessage(message, uid) => {
                self.log.confirm(message, uid);
            },
            ChatData::VideoFrame(data, width, height, source) => {
                self.video.store(source, VideoFrame { data, width, height });
            },
        }
    }

    /// The reducer: takes one event and says what to ask of the world.
    ///
    /// A printable character goes in at the cursor. Backspace and Delete
    /// remove the character before and at the cursor, and do nothing at the
    /// ends of the line. Left and Right move the cursor inside the line.
    /// After each of these the window on the input line follows the cursor.
    /// Enter on text empties the line and, while identifiers are left,
    /// appends the text to the log as a pending own message and asks for it
    /// to be sent. Up scrolls the log back by a line and stops the view from
    /// following its end; Down scrolls forward by a line and, at the end,
    /// makes the view follow again. A message of another client is appended
    /// to the log; an echo replaces the own message it names by a confirmed
    /// one at the end; a frame of the server replaces the frame in the slot
    /// of its source. A frame of the camera is sent on. A tick changes
    /// nothing.
    pub fn apply(&mut self, event: Event) -> (action: Action)
        ensures
            final(self)@ == old(self)@.reduce(event@),
            action@ == old(self)@.action(event@),
            old(self)@.wf(),
            final(self)@.wf(),
            event@ == EventModel::Key(Key::Enter) && old(self)@.input.text.len() > 0 ==> final(self)@.input
                == InputModel::empty(old(self)@.input.width),
    {
        proof {
            use_type_invariant(&self.log);
            use_type_invariant(&self.input);
            use_type_invariant(&self.video);
            use_type_invariant(self.scroll);
            lemma_reduce_keeps_wf(self@, event@);
        }
        match event {
            Event::UserInputKey(key) => self.press(key),
            Event::UserInputFrame(frame) => Action::Send(
                ClientNetworkData {
                    chat_data: ClientChatData::VideoFrame(frame.data, frame.width, frame.height),
                },
            ),
            Event::ServerInput(data) => {
                self.receive(data);
                Action::Nothing
            },
            Event::Disconnected => {
                self.connected = false;
                Action::Nothing
            },
            Event::Tick => Action::Nothing,
        }
    }

    /// Draws the session into `viewport` and hands out the picture. The log
    /// is wrapped anew for the width of the chat area; a view that follows
    /// the end of the log, or was left behind it, is put on the last full
    /// window; the window on the input line gets the width of the input
    /// area and follows the cursor. Whether the view follows the end of the
    /// log is left as the keys set it.
    pub fn render(&mut self, viewport: Viewport) -> (snapshot: Snapshot)
        ensures
            final(self)@ == old(self)@.drawn(viewport),
            final(self)@.stick_to_bottom == old(self)@.stick_to_bottom,
            old(self)@.wf(),
            final(self)@.wf(),
            snapshot@ == final(self)@.picture(viewport),
    {
        proof {
            use_type_invariant(&self.log);
            use_type_invariant(&self.input);
            use_type_invariant(&self.video);
            use_type_invariant(self.scroll);
            lemma_drawn_keeps_wf(self@, viewport);
        }
        let mut chat_lines: Vec<LineSpan> = Vec::new();
        if viewport.chat_height > 0 && viewport.chat_width > 0 {
            let mut lines: Vec<LineSpan> = self.log.lines(viewport.chat_width);
            let ghost all = lines@;
            let total: usize = lines.len();
            let height: usize = viewport.chat_height;
            assert(span_models(all).len() == total);
            let last_window: usize = if total >= height {
                total - height
            } else {
                0
            };
            let before: Scroll = self.scroll;
            let settled: Scroll = if before.stick_to_bottom || before.line_index > last_window {
                Scroll { line_index: last_window, max_line_index: last_window, ..before }
            } else {
                Scroll { max_line_index: last_window, ..before }
            };
            self.scroll = settled;
            let end: usize = if height <= total - settled.line_index {
                settled.line_index + height
            } else {
                total
            };
            lines.truncate(end);
            chat_lines = lines.split_off(settled.line_index);
            assert(span_models(chat_lines@) =~= span_models(all).subrange(
                settled.line_index as int,
                end as int,
            ));
        } else {
            assert(span_models(chat_lines@) =~= Seq::<SpanModel>::empty());
        }
        self.input.set_width(viewport.input_width);
        let cursor_pos: Option<usize> = if viewport.input_height > 0 && viewport.input_width > 0 {
            Some(self.input.cursor() - self.input.scroll())
        } else {
            None
        };
        let video_slots: Vec<VideoSlot> = self.video.snapshot();
        let snapshot = Snapshot {
            chat_lines,
            video_slots,
            input_line: self.input.text(),
            input_scroll: self.input.scroll(),
            cursor_pos,
            connected: self.connected,
        };
        assert(snapshot@.video_slots =~= self@.slots);
        snapshot
    }
}

} // verus!
