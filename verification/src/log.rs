//! The chat log and what the server's messages do to it.

use crate::chat::{
    on_background, span_models, stripe, ChatEntry, ChatMessageInfo, Color, LineSpan, Origin,
    SpanModel,
};
use crate::message::ServerChat;
use crate::uid::UidCounter;
use vstd::prelude::*;

verus! {

/// Whether `entry` is an own message with the identifier `id`: the entry that
/// the echo of `id` replaces.
pub open spec fn is_echo_target(entry: ChatEntry, id: usize) -> bool {
    entry.origin == Origin::Own && entry.id == Some(id)
}

/// `log` without the own messages that have the identifier `id`; the other
/// entries keep their order.
pub open spec fn without(log: Seq<ChatEntry>, id: usize) -> Seq<ChatEntry>
    decreases log.len(),
{
    if log.len() == 0 {
        Seq::empty()
    } else if is_echo_target(log.last(), id) {
        without(log.drop_last(), id)
    } else {
        without(log.drop_last(), id).push(log.last())
    }
}

/// The confirmed entry that the echo of `id` with `text` puts at the end of
/// the log.
pub open spec fn confirmed_entry(text: Seq<char>, id: usize) -> ChatEntry {
    ChatEntry { text, pending: false, id: Some(id), origin: Origin::Own }
}

/// The pending entry that sending `text` under `id` puts at the end of the
/// log.
pub open spec fn pending_entry(text: Seq<char>, id: usize) -> ChatEntry {
    ChatEntry { text, pending: true, id: Some(id), origin: Origin::Own }
}

/// The entry that a message of another client puts at the end of the log.
pub open spec fn other_entry(text: Seq<char>) -> ChatEntry {
    ChatEntry { text, pending: false, id: None, origin: Origin::Other }
}

/// The log after the server has sent back the own message `id` as `text`:
/// the own entries with that identifier are gone, and a confirmed entry with
/// the server's text stands at the end.
pub open spec fn confirm(log: Seq<ChatEntry>, text: Seq<char>, id: usize) -> Seq<ChatEntry> {
    without(log, id).push(confirmed_entry(text, id))
}

/// The log after a message of the server: a message of another client is
/// appended, an echo confirms the own message it names, a camera frame
/// leaves the log as it is.
pub open spec fn receive(log: Seq<ChatEntry>, message: ServerChat) -> Seq<ChatEntry> {
    match message {
        ServerChat::FromOther { text } => log.push(other_entry(text)),
        ServerChat::Echo { text, id } => confirm(log, text, id),
        ServerChat::Video { .. } => log,
    }
}

/// The log after the messages `messages` of the server, in their order.
pub open spec fn receive_all(log: Seq<ChatEntry>, messages: Seq<ServerChat>) -> Seq<ChatEntry>
    decreases messages.len(),
{
    if messages.len() == 0 {
        log
    } else {
        receive(receive_all(log, messages.drop_last()), messages.last())
    }
}

/// Only own messages that have an identifier are pending.
pub open spec fn pending_are_own(log: Seq<ChatEntry>) -> bool {
    forall|i: int|
        0 <= i < log.len() && (#[trigger] log[i]).pending ==> log[i].origin == Origin::Own
            && log[i].id is Some
}

/// No two pending entries have the same identifier.
pub open spec fn pending_ids_distinct(log: Seq<ChatEntry>) -> bool {
    forall|i: int, j: int|
        0 <= i < j < log.len() && (#[trigger] log[i]).pending && (#[trigger] log[j]).pending
            ==> log[i].id != log[j].id
}

/// The identifier of each pending entry is below `next`.
pub open spec fn pending_below(log: Seq<ChatEntry>, next: usize) -> bool {
    forall|i: int|
        0 <= i < log.len() && (#[trigger] log[i]).pending ==> log[i].id is Some && log[i].id->0
            < next
}

/// The lines of the whole log for a column of `width`: those of each entry
/// in order, each entry on the background of its place in the log.
pub open spec fn log_lines(log: Seq<ChatEntry>, width: usize) -> Seq<SpanModel>
    decreases log.len(),
{
    if log.len() == 0 {
        Seq::empty()
    } else {
        log_lines(log.drop_last(), width) + on_background(
            log.last().line_spans(width),
            stripe(log.len() - 1),
        )
    }
}

/// What `without` keeps are entries of the log that the echo does not
/// replace, and it keeps each of those.
pub proof fn lemma_without_members(log: Seq<ChatEntry>, id: usize)
    ensures
        without(log, id).len() <= log.len(),
        forall|i: int|
            0 <= i < without(log, id).len() ==> !is_echo_target(
                #[trigger] without(log, id)[i],
                id,
            ) && log.contains(without(log, id)[i]),
        forall|j: int|
            0 <= j < log.len() && !is_echo_target(#[trigger] log[j], id) ==> without(
                log,
                id,
            ).contains(log[j]),
    decreases log.len(),
{
    if log.len() > 0 {
        let head = log.drop_last();
        lemma_without_members(head, id);
        let kept = without(log, id);
        assert forall|i: int| 0 <= i < kept.len() implies !is_echo_target(#[trigger] kept[i], id)
            && log.contains(kept[i]) by {
            if i < without(head, id).len() {
                let e = without(head, id)[i];
                assert(kept[i] == e);
                assert(head.contains(e));
                let j = choose|j: int| 0 <= j < head.len() && head[j] == e;
                assert(log[j] == e);
            } else {
                assert(kept[i] == log[log.len() - 1]);
            }
        }
        assert forall|j: int| 0 <= j < log.len() && !is_echo_target(
            #[trigger] log[j],
            id,
        ) implies kept.contains(log[j]) by {
            if j < head.len() {
                assert(head[j] == log[j]);
                assert(without(head, id).contains(log[j]));
                let i = choose|i: int|
                    0 <= i < without(head, id).len() && without(head, id)[i] == log[j];
                assert(kept[i] == log[j]);
            } else {
                assert(kept[kept.len() - 1] == log[j]);
            }
        }
    }
}

/// What the log promises of its pending entries: each is an own message
/// with an identifier below `next`, the next identifier to be given out, and
/// no two of them have the same identifier.
pub open spec fn log_wf(log: Seq<ChatEntry>, next: usize) -> bool {
    &&& pending_are_own(log)
    &&& pending_ids_distinct(log)
    &&& pending_below(log, next)
}

/// A message of the server leaves the log's promise intact.
pub proof fn lemma_receive_keeps_log_wf(log: Seq<ChatEntry>, message: ServerChat, next: usize)
    requires
        log_wf(log, next),
    ensures
        log_wf(receive(log, message), next),
{
    match message {
        ServerChat::Echo { text, id } => {
            lemma_without_keeps_log_wf(log, id, next);
        },
        _ => {},
    }
}

/// Taking the own messages of one identifier out of the log leaves its
/// promise intact.
pub proof fn lemma_without_keeps_log_wf(log: Seq<ChatEntry>, id: usize, next: usize)
    requires
        log_wf(log, next),
    ensures
        log_wf(without(log, id), next),
    decreases log.len(),
{
    if log.len() > 0 {
        let head = log.drop_last();
        assert(log_wf(head, next)) by {
            assert forall|i: int| 0 <= i < head.len() implies head[i] == log[i] by {}
        }
        lemma_without_keeps_log_wf(head, id, next);
        lemma_without_members(head, id);
        let kept = without(log, id);
        let kept_head = without(head, id);
        if !is_echo_target(log.last(), id) {
            assert forall|i: int, j: int|
                0 <= i < j < kept.len() && (#[trigger] kept[i]).pending && (
                #[trigger] kept[j]).pending implies kept[i].id != kept[j].id by {
                assert(kept[i] == kept_head[i]);
                if j == kept.len() - 1 {
                    assert(head.contains(kept_head[i]));
                    let k = choose|k: int| 0 <= k < head.len() && head[k] == kept_head[i];
                    assert(log[k] == kept[i]);
                    assert(log[log.len() - 1] == kept[j]);
                } else {
                    assert(kept[j] == kept_head[j]);
                }
            }
            assert forall|i: int| 0 <= i < kept.len() && (#[trigger] kept[i]).pending implies kept[i].origin
                == Origin::Own && kept[i].id is Some && kept[i].id->0 < next by {
                if i < kept_head.len() {
                    assert(kept[i] == kept_head[i]);
                } else {
                    assert(kept[i] == log[log.len() - 1]);
                }
            }
        }
    }
}

/// An own message sent under the next identifier leaves the log's promise
/// intact for the identifier after it.
pub proof fn lemma_push_pending_keeps_log_wf(log: Seq<ChatEntry>, text: Seq<char>, next: usize)
    requires
        log_wf(log, next),
        next < usize::MAX,
    ensures
        log_wf(log.push(pending_entry(text, next)), (next + 1) as usize),
{
}

/// The number of own messages in the log.
pub open spec fn count_own(log: Seq<ChatEntry>) -> nat
    decreases log.len(),
{
    if log.len() == 0 {
        0
    } else {
        count_own(log.drop_last()) + (if log.last().origin == Origin::Own {
            1nat
        } else {
            0nat
        })
    }
}

/// The identifier that `message` confirms, if it is an echo.
pub open spec fn echo_id(message: ServerChat) -> Option<usize> {
    match message {
        ServerChat::Echo { text, id } => Some(id),
        _ => None,
    }
}

/// The number of echoes among `messages`.
pub open spec fn count_echoes(messages: Seq<ServerChat>) -> nat
    decreases messages.len(),
{
    if messages.len() == 0 {
        0
    } else {
        count_echoes(messages.drop_last()) + (if echo_id(messages.last()) is Some {
            1nat
        } else {
            0nat
        })
    }
}

/// Whether one of `messages` is the echo of `id`.
pub open spec fn echoed(messages: Seq<ServerChat>, id: usize) -> bool {
    exists|j: int| 0 <= j < messages.len() && echo_id(#[trigger] messages[j]) == Some(id)
}

/// No two of `messages` are echoes of the same identifier.
pub open spec fn echo_ids_distinct(messages: Seq<ServerChat>) -> bool {
    forall|i: int, j: int|
        0 <= i < j < messages.len() && echo_id(#[trigger] messages[i]) is Some ==> echo_id(
            messages[i],
        ) != echo_id(#[trigger] messages[j])
}

/// Whether `entry` is an own message whose echo is among `messages`.
pub open spec fn own_echoed(entry: ChatEntry, messages: Seq<ServerChat>) -> bool {
    entry.origin == Origin::Own && entry.id is Some && echoed(messages, entry.id->0)
}

/// The number of own messages in the log whose echo is among `messages`.
pub open spec fn count_own_echoed(log: Seq<ChatEntry>, messages: Seq<ServerChat>) -> nat
    decreases log.len(),
{
    if log.len() == 0 {
        0
    } else {
        count_own_echoed(log.drop_last(), messages) + (if own_echoed(log.last(), messages) {
            1nat
        } else {
            0nat
        })
    }
}

proof fn lemma_count_congruent(log: Seq<ChatEntry>, first: Seq<ServerChat>, second: Seq<ServerChat>)
    requires
        forall|i: int|
            0 <= i < log.len() ==> own_echoed(#[trigger] log[i], first) == own_echoed(
                log[i],
                second,
            ),
    ensures
        count_own_echoed(log, first) == count_own_echoed(log, second),
    decreases log.len(),
{
    if log.len() > 0 {
        let head = log.drop_last();
        assert forall|i: int| 0 <= i < head.len() implies own_echoed(#[trigger] head[i], first)
            == own_echoed(head[i], second) by {
            assert(head[i] == log[i]);
        }
        lemma_count_congruent(head, first, second);
        assert(log.last() == log[log.len() - 1]);
    }
}

proof fn lemma_count_without(log: Seq<ChatEntry>, id: usize, messages: Seq<ServerChat>)
    requires
        !echoed(messages, id),
    ensures
        count_own_echoed(without(log, id), messages) == count_own_echoed(log, messages),
    decreases log.len(),
{
    if log.len() > 0 {
        let head = log.drop_last();
        lemma_count_without(head, id, messages);
        if !is_echo_target(log.last(), id) {
            let kept = without(head, id).push(log.last());
            assert(kept.drop_last() =~= without(head, id));
            assert(kept.last() == log.last());
        }
    }
}

proof fn lemma_count_all(log: Seq<ChatEntry>, messages: Seq<ServerChat>)
    requires
        forall|i: int|
            0 <= i < log.len() && (#[trigger] log[i]).origin == Origin::Own ==> own_echoed(
                log[i],
                messages,
            ),
    ensures
        count_own(log) == count_own_echoed(log, messages),
    decreases log.len(),
{
    if log.len() > 0 {
        let head = log.drop_last();
        assert forall|i: int| 0 <= i < head.len() && (#[trigger] head[i]).origin
            == Origin::Own implies own_echoed(head[i], messages) by {
            assert(head[i] == log[i]);
        }
        lemma_count_all(head, messages);
        assert(log.last() == log[log.len() - 1]);
    }
}

proof fn lemma_echoed_last(messages: Seq<ServerChat>, id: usize)
    requires
        messages.len() > 0,
    ensures
        echoed(messages, id) <==> echoed(messages.drop_last(), id) || echo_id(messages.last())
            == Some(id),
{
    let earlier = messages.drop_last();
    if echoed(messages, id) {
        let j = choose|j: int| 0 <= j < messages.len() && echo_id(#[trigger] messages[j]) == Some(id);
        if j < earlier.len() {
            assert(earlier[j] == messages[j]);
        }
    }
    if echoed(earlier, id) {
        let j = choose|j: int| 0 <= j < earlier.len() && echo_id(#[trigger] earlier[j]) == Some(id);
        assert(messages[j] == earlier[j]);
    }
    if echo_id(messages.last()) == Some(id) {
        assert(messages[messages.len() - 1] == messages.last());
    }
}

proof fn lemma_receive_all_invariant(
    log: Seq<ChatEntry>,
    messages: Seq<ServerChat>,
    ids: Set<usize>,
)
    requires
        pending_are_own(log),
        forall|i: int|
            0 <= i < log.len() && (#[trigger] log[i]).origin == Origin::Own ==> log[i].id is Some
                && ids.contains(log[i].id->0),
        forall|j: int|
            0 <= j < messages.len() && echo_id(#[trigger] messages[j]) is Some ==> ids.contains(
                echo_id(messages[j])->0,
            ),
        echo_ids_distinct(messages),
    ensures
        forall|i: int|
            0 <= i < receive_all(log, messages).len() && (#[trigger] receive_all(
                log,
                messages,
            )[i]).origin == Origin::Own ==> receive_all(log, messages)[i].id is Some
                && ids.contains(receive_all(log, messages)[i].id->0),
        forall|i: int|
            0 <= i < receive_all(log, messages).len() && (#[trigger] receive_all(
                log,
                messages,
            )[i]).pending ==> receive_all(log, messages)[i].origin == Origin::Own && receive_all(
                log,
                messages,
            )[i].id is Some && !echoed(messages, receive_all(log, messages)[i].id->0),
        count_own_echoed(receive_all(log, messages), messages) == count_echoes(messages),
    decreases messages.len(),
{
    if messages.len() == 0 {
        assert forall|i: int| 0 <= i < log.len() implies !own_echoed(#[trigger] log[i], messages) by {}
        lemma_count_none(log, messages);
    } else {
        let earlier = messages.drop_last();
        let last = messages.last();
        let before = receive_all(log, earlier);
        let after = receive_all(log, messages);
        assert forall|j: int| 0 <= j < earlier.len() && echo_id(
            #[trigger] earlier[j],
        ) is Some implies ids.contains(echo_id(earlier[j])->0) by {
            assert(earlier[j] == messages[j]);
        }
        assert(echo_ids_distinct(earlier)) by {
            assert forall|i: int, j: int|
                0 <= i < j < earlier.len() && echo_id(#[trigger] earlier[i]) is Some implies echo_id(
                earlier[i],
            ) != echo_id(#[trigger] earlier[j]) by {
                assert(earlier[i] == messages[i]);
                assert(earlier[j] == messages[j]);
            }
        }
        lemma_receive_all_invariant(log, earlier, ids);
        assert(messages[messages.len() - 1] == last);
        assert forall|x: usize|
            echoed(messages, x) <==> echoed(earlier, x) || echo_id(last) == Some(x) by {
            lemma_echoed_last(messages, x);
        }
        match last {
            ServerChat::Echo { text, id } => {
                assert(!echoed(earlier, id)) by {
                    if echoed(earlier, id) {
                        let j = choose|j: int|
                            0 <= j < earlier.len() && echo_id(#[trigger] earlier[j]) == Some(id);
                        assert(earlier[j] == messages[j]);
                        assert(echo_id(messages[j]) != echo_id(messages[messages.len() - 1]));
                    }
                }
                let kept = without(before, id);
                lemma_without_members(before, id);
                assert(after == kept.push(confirmed_entry(text, id)));
                assert(after.drop_last() =~= kept);
                assert(after.last() == confirmed_entry(text, id));
                assert forall|i: int| 0 <= i < kept.len() implies {
                    &&& own_echoed(#[trigger] kept[i], messages) == own_echoed(kept[i], earlier)
                    &&& kept[i].origin == Origin::Own ==> kept[i].id is Some && ids.contains(
                        kept[i].id->0,
                    )
                    &&& kept[i].pending ==> kept[i].origin == Origin::Own && kept[i].id is Some
                        && !echoed(messages, kept[i].id->0)
                } by {
                    let e = kept[i];
                    assert(before.contains(e));
                    let j = choose|j: int| 0 <= j < before.len() && before[j] == e;
                    assert(before[j] == e);
                    assert(!is_echo_target(e, id));
                }
                lemma_count_congruent(kept, messages, earlier);
                lemma_count_without(before, id, earlier);
                assert(own_echoed(confirmed_entry(text, id), messages));
                assert forall|i: int| 0 <= i < after.len() && (#[trigger] after[i]).origin
                    == Origin::Own implies after[i].id is Some && ids.contains(after[i].id->0) by {
                    if i < kept.len() {
                        assert(after[i] == kept[i]);
                    }
                }
                assert forall|i: int| 0 <= i < after.len() && (
                #[trigger] after[i]).pending implies after[i].origin == Origin::Own
                    && after[i].id is Some && !echoed(messages, after[i].id->0) by {
                    if i < kept.len() {
                        assert(after[i] == kept[i]);
                    }
                }
            },
            ServerChat::FromOther { text } => {
                assert(after == before.push(other_entry(text)));
                assert(after.drop_last() =~= before);
                assert forall|i: int| 0 <= i < before.len() implies own_echoed(
                    #[trigger] before[i],
                    messages,
                ) == own_echoed(before[i], earlier) by {}
                lemma_count_congruent(before, messages, earlier);
                assert forall|i: int| 0 <= i < after.len() && (#[trigger] after[i]).origin
                    == Origin::Own implies after[i].id is Some && ids.contains(after[i].id->0) by {
                    if i < before.len() {
                        assert(after[i] == before[i]);
                    }
                }
                assert forall|i: int| 0 <= i < after.len() && (
                #[trigger] after[i]).pending implies after[i].origin == Origin::Own
                    && after[i].id is Some && !echoed(messages, after[i].id->0) by {
                    if i < before.len() {
                        assert(after[i] == before[i]);
                    }
                }
            },
            ServerChat::Video { .. } => {
                assert(after == before);
                assert forall|i: int| 0 <= i < before.len() implies own_echoed(
                    #[trigger] before[i],
                    messages,
                ) == own_echoed(before[i], earlier) by {}
                lemma_count_congruent(before, messages, earlier);
            },
        }
    }
}

proof fn lemma_count_none(log: Seq<ChatEntry>, messages: Seq<ServerChat>)
    requires
        forall|i: int| 0 <= i < log.len() ==> !own_echoed(#[trigger] log[i], messages),
    ensures
        count_own_echoed(log, messages) == 0,
    decreases log.len(),
{
    if log.len() > 0 {
        let head = log.drop_last();
        assert forall|i: int| 0 <= i < head.len() implies !own_echoed(
            #[trigger] head[i],
            messages,
        ) by {
            assert(head[i] == log[i]);
        }
        lemma_count_none(head, messages);
        assert(log.last() == log[log.len() - 1]);
    }
}

/// When the echo of each own message has arrived, once each and in whatever
/// order, with messages of others and camera frames arriving in between, the
/// log holds as many own messages as echoes arrived, and none of its entries
/// is pending.
pub proof fn lemma_echoes_confirm_all(log: Seq<ChatEntry>, messages: Seq<ServerChat>)
    requires
        pending_are_own(log),
        forall|i: int|
            0 <= i < log.len() && (#[trigger] log[i]).origin == Origin::Own ==> log[i].id is Some
                && echoed(messages, log[i].id->0),
        echo_ids_distinct(messages),
    ensures
        count_own(receive_all(log, messages)) == count_echoes(messages),
        forall|i: int|
            0 <= i < receive_all(log, messages).len() ==> !(#[trigger] receive_all(
                log,
                messages,
            )[i]).pending,
{
    let ids = Set::new(|x: usize| echoed(messages, x));
    lemma_receive_all_invariant(log, messages, ids);
    let after = receive_all(log, messages);
    assert forall|i: int| 0 <= i < after.len() && (#[trigger] after[i]).origin
        == Origin::Own implies own_echoed(after[i], messages) by {
        assert(ids.contains(after[i].id->0));
    }
    lemma_count_all(after, messages);
    assert forall|i: int| 0 <= i < after.len() implies !(#[trigger] after[i]).pending by {
        if after[i].pending {
            assert(ids.contains(after[i].id->0));
        }
    }
}

/// The content of each of `entries`.
pub open spec fn entries_of(entries: Seq<ChatMessageInfo>) -> Seq<ChatEntry> {
    Seq::new(entries.len(), |i: int| entries[i]@)
}

/// `spans` with each line on the background `bg`.
pub fn paint(spans: &Vec<LineSpan>, bg: Color) -> (painted: Vec<LineSpan>)
    ensures
        span_models(painted@) == on_background(span_models(spans@), bg),
{
    let mut painted: Vec<LineSpan> = Vec::new();
    let mut i: usize = 0;
    while i < spans.len()
        invariant
            i <= spans.len(),
            painted@.len() == i,
            forall|k: int|
                0 <= k < i ==> (#[trigger] painted@[k])@ == (SpanModel {
                    bg: Some(bg),
                    ..spans@[k]@
                }),
        decreases spans.len() - i,
    {
        painted.push(LineSpan { content: spans[i].content.clone(), fg: spans[i].fg, bg: Some(bg) });
        i += 1;
    }
    assert(span_models(painted@) =~= on_background(span_models(spans@), bg));
    painted
}

/// Removes from `entries` the own messages that have the identifier `uid`.
pub fn remove_own(entries: &mut Vec<ChatMessageInfo>, uid: usize)
    ensures
        entries_of(final(entries)@) == without(entries_of(old(entries)@), uid),
{
    let ghost before = entries_of(entries@);
    let ghost done: int = 0;
    let mut i: usize = 0;
    assert(before.subrange(0, 0) =~= Seq::<ChatEntry>::empty());
    assert(entries_of(entries@).subrange(0, 0) =~= Seq::<ChatEntry>::empty());
    assert(entries_of(entries@).subrange(0, entries@.len() as int) =~= before.subrange(
        0,
        before.len() as int,
    ));
    while i < entries.len()
        invariant
            before == entries_of(old(entries)@),
            0 <= i <= entries.len(),
            i <= done <= before.len(),
            entries@.len() - i == before.len() - done,
            entries_of(entries@).subrange(0, i as int) == without(before.subrange(0, done), uid),
            entries_of(entries@).subrange(i as int, entries@.len() as int) == before.subrange(
                done,
                before.len() as int,
            ),
        decreases entries.len() - i,
    {
        let ghost current = entries_of(entries@);
        assert(current[i as int] == current.subrange(i as int, current.len() as int)[0]);
        assert(current[i as int] == before[done]);
        assert(before.subrange(0, done + 1).drop_last() =~= before.subrange(0, done));
        assert(before.subrange(0, done + 1).last() == before[done]);
        let target: bool = match entries[i].origin {
            Origin::Own => match entries[i].uid {
                Some(id) => id == uid,
                None => false,
            },
            Origin::Other => false,
        };
        assert(target == is_echo_target(before[done], uid));
        if target {
            entries.remove(i);
            let ghost now = entries_of(entries@);
            assert(now =~= current.remove(i as int));
            assert(now.subrange(0, i as int) =~= current.subrange(0, i as int));
            let ghost tail = now.subrange(i as int, now.len() as int);
            let ghost rest = before.subrange(done + 1, before.len() as int);
            assert forall|k: int| 0 <= k < tail.len() implies #[trigger] tail[k] == rest[k] by {
                assert(current.subrange(i as int, current.len() as int)[k + 1] == before.subrange(
                    done,
                    before.len() as int,
                )[k + 1]);
            }
            assert(tail =~= rest);
        } else {
            assert(current.subrange(0, i + 1) =~= current.subrange(0, i as int).push(
                current[i as int],
            ));
            let ghost tail = current.subrange(i + 1, current.len() as int);
            let ghost rest = before.subrange(done + 1, before.len() as int);
            assert forall|k: int| 0 <= k < tail.len() implies #[trigger] tail[k] == rest[k] by {
                assert(current.subrange(i as int, current.len() as int)[k + 1] == before.subrange(
                    done,
                    before.len() as int,
                )[k + 1]);
            }
            assert(tail =~= rest);
            i += 1;
        }
        proof {
            done = done + 1;
        }
    }
    assert(entries_of(entries@).subrange(0, i as int) =~= entries_of(entries@));
    assert(before.subrange(0, done) =~= before);
}

/// The chat log of a session, and the counter that gives its own messages
/// their identifiers.
#[derive(Debug)]
pub struct ChatLog {
    entries: Vec<ChatMessageInfo>,
    uids: UidCounter,
}

impl View for ChatLog {
    type V = Seq<ChatEntry>;

    closed spec fn view(&self) -> Seq<ChatEntry> {
        entries_of(self.entries@)
    }
}

impl ChatLog {
    /// The identifier that the next own message gets.
    pub closed spec fn next(&self) -> usize {
        self.uids.next
    }

    /// What holds of every log: it keeps its promise about pending entries.
    #[verifier::type_invariant]
    pub open spec fn wf(&self) -> bool {
        log_wf(self@, self.next())
    }

    /// An empty log whose own messages get their identifiers from `uids`.
    pub fn new(uids: UidCounter) -> (log: ChatLog)
        ensures
            log@ == Seq::<ChatEntry>::empty(),
            log.next() == uids.next,
    {
        let log = ChatLog { entries: Vec::new(), uids };
        assert(log@ =~= Seq::<ChatEntry>::empty());
        log
    }

    /// The number of entries.
    pub fn len(&self) -> (len: usize)
        ensures
            len == self@.len(),
            log_wf(self@, self.next()),
    {
        proof {
            use_type_invariant(self);
        }
        self.entries.len()
    }

    /// The entry at index `i`, if there is one.
    pub fn get(&self, i: usize) -> (entry: Option<&ChatMessageInfo>)
        ensures
            entry is Some == (i < self@.len()),
            entry matches Some(e) ==> e@ == self@[i as int],
    {
        if i < self.entries.len() {
            Some(&self.entries[i])
        } else {
            None
        }
    }

    /// The identifier that the next own message gets.
    pub fn next_uid(&self) -> (next: usize)
        ensures
            next == self.next(),
    {
        self.uids.next
    }

    /// Takes the entries and the counter out of the log, which is left
    /// empty.
    fn take_parts(&mut self) -> (parts: (Vec<ChatMessageInfo>, UidCounter))
        ensures
            entries_of(parts.0@) == old(self)@,
            parts.1.next == old(self).next(),
            log_wf(old(self)@, old(self).next()),
    {
        proof {
            use_type_invariant(&*self);
        }
        let mut taken = ChatLog::new(self.uids);
        std::mem::swap(self, &mut taken);
        let ChatLog { entries, uids } = taken;
        (entries, uids)
    }

    /// Removes the own entries that have the identifier `uid`.
    pub fn remove_own(&mut self, uid: usize)
        ensures
            final(self)@ == without(old(self)@, uid),
            final(self).next() == old(self).next(),
    {
        let (mut entries, uids) = self.take_parts();
        remove_own(&mut entries, uid);
        proof {
            lemma_without_keeps_log_wf(old(self)@, uid, uids.next);
        }
        *self = ChatLog { entries, uids };
    }

    /// The server has sent back the own message `uid` as `message`: the own
    /// entries with that identifier go, and a confirmed entry with the
    /// server's text is appended.
    pub fn confirm(&mut self, message: String, uid: usize)
        ensures
            final(self)@ == confirm(old(self)@, message@, uid),
            final(self).next() == old(self).next(),
    {
        let (mut entries, uids) = self.take_parts();
        remove_own(&mut entries, uid);
        entries.push(ChatMessageInfo::new_with_uid(message, false, uid));
        proof {
            assert(entries_of(entries@) =~= confirm(old(self)@, message@, uid));
            lemma_receive_keeps_log_wf(
                old(self)@,
                ServerChat::Echo { text: message@, id: uid },
                uids.next,
            );
        }
        *self = ChatLog { entries, uids };
    }

    /// Appends a message of another client.
    pub fn push_other(&mut self, message: String)
        ensures
            final(self)@ == old(self)@.push(other_entry(message@)),
            final(self).next() == old(self).next(),
    {
        let (mut entries, uids) = self.take_parts();
        entries.push(ChatMessageInfo::from_other(message));
        proof {
            assert(entries_of(entries@) =~= old(self)@.push(other_entry(message@)));
            lemma_receive_keeps_log_wf(
                old(self)@,
                ServerChat::FromOther { text: message@ },
                uids.next,
            );
        }
        *self = ChatLog { entries, uids };
    }

    /// Appends an own message that waits for its echo, under the next
    /// identifier, and returns that identifier. Once the identifiers have run
    /// out (the next would be `usize::MAX`) nothing is appended and nothing
    /// returned.
    pub fn push_pending(&mut self, message: String) -> (uid: Option<usize>)
        ensures
            uid == (if old(self).next() < usize::MAX {
                Some(old(self).next())
            } else {
                None
            }),
            old(self).next() < usize::MAX ==> final(self)@ == old(self)@.push(
                pending_entry(message@, old(self).next()),
            ) && final(self).next() == old(self).next() + 1,
            old(self).next() == usize::MAX ==> final(self)@ == old(self)@ && final(self).next()
                == old(self).next(),
    {
        let (mut entries, mut uids) = self.take_parts();
        if uids.next < usize::MAX {
            let entry = ChatMessageInfo::new(message, true, &mut uids);
            let uid: Option<usize> = entry.uid;
            entries.push(entry);
            proof {
                assert(entries_of(entries@) =~= old(self)@.push(
                    pending_entry(message@, old(self).next()),
                ));
                lemma_push_pending_keeps_log_wf(old(self)@, message@, old(self).next());
            }
            *self = ChatLog { entries, uids };
            uid
        } else {
            *self = ChatLog { entries, uids };
            None
        }
    }

    /// The lines of the whole log for a column of `width`.
    pub fn lines(&self, width: usize) -> (lines: Vec<LineSpan>)
        ensures
            span_models(lines@) == log_lines(self@, width),
    {
        let mut lines: Vec<LineSpan> = Vec::new();
        let mut i: usize = 0;
        assert(self@.subrange(0, 0) =~= Seq::<ChatEntry>::empty());
        assert(span_models(lines@) =~= log_lines(self@.subrange(0, 0), width));
        while i < self.entries.len()
            invariant
                i <= self.entries.len(),
                span_models(lines@) == log_lines(self@.subrange(0, i as int), width),
            decreases self.entries.len() - i,
        {
            let bg: Color = if i % 2 == 0 {
                Color::LightMagenta
            } else {
                Color::LightBlue
            };
            let spans: Vec<LineSpan> = self.entries[i].to_line_spans(width);
            let mut painted: Vec<LineSpan> = paint(&spans, bg);
            let ghost before = lines@;
            lines.append(&mut painted);
            proof {
                let upto = self@.subrange(0, i + 1);
                assert(upto.drop_last() =~= self@.subrange(0, i as int));
                assert(upto.last() == self@[i as int]);
                assert(span_models(lines@) =~= span_models(before) + on_background(
                    self@[i as int].line_spans(width),
                    stripe(i as int),
                ));
            }
            i += 1;
        }
        assert(self@.subrange(0, i as int) =~= self@);
        lines
    }
}

} // verus!
