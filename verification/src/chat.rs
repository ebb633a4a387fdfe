//! The chat log: entries in the order of their arrival, own messages pending
//! until the server has sent them back.

use crate::uid::{get_uid, UidCounter};
use crate::wrap::{texts, wrap_text, wrapped};
use vstd::prelude::*;
use vstd::string::*;

verus! {

/// Who wrote a chat message.
#[derive(Clone, Copy, Debug, PartialEq, Eq, Structural)]
pub enum Origin {
    /// The user of this client.
    Own,
    /// Another client.
    Other,
}

/// The colours that chat lines are drawn in.
#[derive(Clone, Copy, Debug, PartialEq, Eq, Structural)]
pub enum Color {
    Gray,
    White,
    LightMagenta,
    LightBlue,
}

/// One wrapped line of a chat message, with its colours.
#[derive(Debug, PartialEq, Eq)]
pub struct LineSpan {
    pub content: String,
    pub fg: Color,
    pub bg: Option<Color>,
}

/// The mathematical content of a line.
pub struct SpanModel {
    pub content: Seq<char>,
    pub fg: Color,
    pub bg: Option<Color>,
}

impl View for LineSpan {
    type V = SpanModel;

    open spec fn view(&self) -> SpanModel {
        SpanModel { content: self.content@, fg: self.fg, bg: self.bg }
    }
}

/// The content of each of `spans`.
pub open spec fn span_models(spans: Seq<LineSpan>) -> Seq<SpanModel> {
    Seq::new(spans.len(), |i: int| spans[i]@)
}

/// An entry of the chat log.
#[derive(Debug, PartialEq, Eq)]
pub struct ChatMessageInfo {
    pub message: String,
    pub is_pending: bool,
    pub uid: Option<usize>,
    pub origin: Origin,
}

/// The mathematical content of an entry of the chat log.
pub struct ChatEntry {
    pub text: Seq<char>,
    pub pending: bool,
    pub id: Option<usize>,
    pub origin: Origin,
}

impl View for ChatMessageInfo {
    type V = ChatEntry;

    open spec fn view(&self) -> ChatEntry {
        ChatEntry {
            text: self.message@,
            pending: self.is_pending,
            id: self.uid,
            origin: self.origin,
        }
    }
}

/// The colour of the text of a message: gray while it is pending, white
/// after.
pub open spec fn text_color(pending: bool) -> Color {
    if pending {
        Color::Gray
    } else {
        Color::White
    }
}

/// The background of the entry at index `index` of the log: entries alternate
/// between two colours.
pub open spec fn stripe(index: int) -> Color {
    if index % 2 == 0 {
        Color::LightMagenta
    } else {
        Color::LightBlue
    }
}

/// `lines` as lines of a message, in the text colour of `pending`, without a
/// background.
pub open spec fn styled(lines: Seq<Seq<char>>, pending: bool) -> Seq<SpanModel> {
    Seq::new(
        lines.len(),
        |i: int| SpanModel { content: lines[i], fg: text_color(pending), bg: None },
    )
}

/// `spans` on the background `bg`.
pub open spec fn on_background(spans: Seq<SpanModel>, bg: Color) -> Seq<SpanModel> {
    Seq::new(spans.len(), |i: int| SpanModel { bg: Some(bg), ..spans[i] })
}

impl ChatEntry {
    /// The entry as it is shown: a label, the text, and a mark while the
    /// entry is pending.
    pub open spec fn display(self) -> Seq<char> {
        "User Temp: "@ + self.text + (if self.pending {
            " (pending...)"@
        } else {
            Seq::empty()
        })
    }

    /// The lines of the entry for a column of `width`, in its text colour.
    pub open spec fn line_spans(self, width: usize) -> Seq<SpanModel> {
        styled(wrapped(self.display(), width), self.pending)
    }
}

/// Gives each of `lines` the text colour of a message that is pending or not.
pub fn style_lines(lines: Vec<String>, pending: bool) -> (spans: Vec<LineSpan>)
    ensures
        span_models(spans@) == styled(texts(lines@), pending),
{
    let fg: Color = if pending {
        Color::Gray
    } else {
        Color::White
    };
    let mut spans: Vec<LineSpan> = Vec::new();
    let mut i: usize = 0;
    while i < lines.len()
        invariant
            i <= lines.len(),
            fg == text_color(pending),
            spans@.len() == i,
            forall|k: int|
                0 <= k < i ==> (#[trigger] spans@[k])@ == (SpanModel {
                    content: lines@[k]@,
                    fg,
                    bg: None,
                }),
        decreases lines.len() - i,
    {
        spans.push(LineSpan { content: lines[i].clone(), fg, bg: None });
        i += 1;
    }
    assert(span_models(spans@) =~= styled(texts(lines@), pending));
    spans
}

impl ChatMessageInfo {
    /// An own message with the identifier `uid`.
    pub fn new_with_uid(message: String, is_pending: bool, uid: usize) -> (entry: ChatMessageInfo)
        ensures
            entry@ == (ChatEntry {
                text: message@,
                pending: is_pending,
                id: Some(uid),
                origin: Origin::Own,
            }),
    {
        return ChatMessageInfo { message, is_pending, uid: Some(uid), origin: Origin::Own };
    }

    /// An own message with the next identifier of `counter`, which must not
    /// have run out.
    pub fn new(message: String, is_pending: bool, counter: &mut UidCounter) -> (entry:
        ChatMessageInfo)
        requires
            old(counter).next < usize::MAX,
        ensures
            entry@ == (ChatEntry {
                text: message@,
                pending: is_pending,
                id: Some(old(counter).next),
                origin: Origin::Own,
            }),
            final(counter).next == old(counter).next + 1,
    {
        return ChatMessageInfo {
            message,
            is_pending,
            uid: Some(get_uid(counter)),
            origin: Origin::Own,
        };
    }

    /// A message of another client. It has no identifier and is never
    /// pending.
    pub fn from_other(message: String) -> (entry: ChatMessageInfo)
        ensures
            entry@ == (ChatEntry {
                text: message@,
                pending: false,
                id: None,
                origin: Origin::Other,
            }),
    {
        ChatMessageInfo { message, is_pending: false, uid: None, origin: Origin::Other }
    }

    /// The entry as it is shown.
    pub fn to_text(&self) -> (shown: String)
        ensures
            shown@ == self@.display(),
    {
        let mut shown: String = String::from_str("User Temp: ");
        shown.append(self.message.as_str());
        if self.is_pending {
            shown.append(" (pending...)");
        }
        assert(shown@ =~= self@.display());
        shown
    }

    /// The lines of the entry for a column of `line_width`, in the entry's
    /// text colour.
    pub fn to_line_spans(&self, line_width: usize) -> (spans: Vec<LineSpan>)
        ensures
            span_models(spans@) == self@.line_spans(line_width),
    {
        let shown: String = self.to_text();
        return style_lines(wrap_text(shown.as_str(), line_width), self.is_pending);
    }
}

} // verus!
