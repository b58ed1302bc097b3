//! Messages, histories and decisions.

use vstd::prelude::*;
use vstd::string::*;
use dashmap::DashMap;
use crate::ephemeral::{lookup_room, put_room, rooms_of, EphemeralRoom, EphemeralRoomView};
use crate::handler::{after_one, answer, plain, refuse, refused};
use crate::json::{text_json, write_text};
use crate::models::{
    ChatMessage, ChatMessageView, DecisionPayload, GetHistoryPayload, SendMessagePayload,
};
use crate::protocol::{
    Action, ActionView, ErrorCode, Event, EventView, Facts, Outcome, OutcomeView, Reply, ReplyView,
    Verdict, VerdictView,
};
use crate::rows::{views, Row};
use crate::store::messages::{
    history, message_reads, message_refusal, message_shows, tip, with_message,
};
use crate::store::{MessageRowView, Store, StoreView};
use crate::text::{copy_list, copy_text, own};
use crate::time::{column_time, show, shown, Timestamp, COLUMN_FORMAT};

verus! {

/// A message to an ephemeral room, with the next number of the room.
pub open spec fn passing_message(
    held: EphemeralRoomView,
    p: SendMessagePayload,
    agent_id: Seq<char>,
    agent_name: Seq<char>,
    message_id: Seq<char>,
    now: Timestamp,
) -> ChatMessageView {
    ChatMessageView {
        message_id,
        room_id: p.room_id@,
        agent_id,
        agent_name,
        content: p.content@,
        reply_to_message: p.reply_to.deep_view(),
        metadata: p.metadata@,
        timestamp: now,
        seq: (held.tip + 1) as i64,
    }
}

/// The row of a message to a permanent room.
pub open spec fn lasting_message(
    messages: Seq<MessageRowView>,
    p: SendMessagePayload,
    agent_id: Seq<char>,
    agent_name: Seq<char>,
    message_id: Seq<char>,
    now: Timestamp,
) -> MessageRowView {
    MessageRowView {
        message_id,
        room_id: p.room_id@,
        agent_id,
        agent_name,
        content: p.content@,
        reply_to_message: p.reply_to.deep_view(),
        metadata: p.metadata@,
        created_at: shown(now, COLUMN_FORMAT@),
        seq: (tip(messages, p.room_id@) + 1) as i64,
    }
}

/// The outcome of a message that was sent: the other members get it, and those
/// it mentions are told.
pub open spec fn message_sent(
    req_id: Option<Seq<char>>,
    m: ChatMessageView,
    agent_id: Seq<char>,
    mentions: Seq<Seq<char>>,
) -> OutcomeView {
    let told = ActionView::Broadcast {
        room_id: m.room_id,
        sender: agent_id,
        event: EventView::MessageReceived { message: m },
    };
    OutcomeView {
        reply_to: req_id,
        actions: if mentions.len() == 0 {
            seq![told]
        } else {
            seq![
                told,
                ActionView::Mention { agents: mentions, message: m, room_id: m.room_id },
            ]
        },
        verdict: VerdictView::Answer { reply: ReplyView::Message { message: m } },
    }
}

/// Whether there is a number left for a message of an agent to a room.
pub open spec fn has_number(
    room_id: Seq<char>,
    speaks: bool,
    before: (StoreView, Map<Seq<char>, EphemeralRoomView>),
) -> bool {
    speaks ==> if before.1.contains_key(room_id) {
        before.1[room_id].tip < i64::MAX
    } else {
        tip(before.0.messages, room_id) < i64::MAX
    }
}

/// What sending a message does. The agent must be in the room. A message to a
/// permanent room goes into the tables; of one to an ephemeral room only the
/// number is remembered.
pub open spec fn sends_message(
    req_id: Option<Seq<char>>,
    p: SendMessagePayload,
    agent_id: Seq<char>,
    agent_name: Seq<char>,
    in_room: bool,
    message_id: Seq<char>,
    now: Timestamp,
    before: (StoreView, Map<Seq<char>, EphemeralRoomView>),
    after: (StoreView, Map<Seq<char>, EphemeralRoomView>),
    out: OutcomeView,
) -> bool {
    if !in_room {
        after == before && out == refused(req_id, ErrorCode::NotInRoom, "Not in this room"@)
    } else if before.1.contains_key(p.room_id@) {
        let held = before.1[p.room_id@];
        let next = EphemeralRoomView { room: held.room, tip: (held.tip + 1) as i64 };
        after == (before.0, before.1.insert(p.room_id@, next)) && out == message_sent(
            req_id,
            passing_message(held, p, agent_id, agent_name, message_id, now),
            agent_id,
            p.mentions.deep_view(),
        )
    } else {
        let row = lasting_message(before.0.messages, p, agent_id, agent_name, message_id, now);
        match message_refusal(before.0, row) {
            None => after == (with_message(before.0, row), before.1) && exists|m: ChatMessageView|
                message_shows(row, row.metadata, m) && out == #[trigger] message_sent(
                    req_id,
                    m,
                    agent_id,
                    p.mentions.deep_view(),
                ),
            Some(e) => after == before && out == refused(
                req_id,
                ErrorCode::InternalError,
                e.message(),
            ),
        }
    }
}

/// Sends a message under the given id.
pub fn handle_send_message(
    req_id: Option<&str>,
    p: &SendMessagePayload,
    agent_id: &str,
    agent_name: &str,
    facts: &Facts,
    store: &mut Store,
    rooms: &mut DashMap<String, EphemeralRoom>,
    message_id: &str,
    now: Timestamp,
) -> (out: Outcome)
    requires
        has_number(p.room_id@, facts.in_room, (old(store)@, rooms_of(*old(rooms)))),
    ensures
        sends_message(
            req_id.deep_view(),
            *p,
            agent_id@,
            agent_name@,
            facts.in_room,
            message_id@,
            now,
            (old(store)@, rooms_of(*old(rooms))),
            (final(store)@, rooms_of(*final(rooms))),
            out@,
        ),
{
    if !facts.in_room {
        return refuse(req_id, ErrorCode::NotInRoom, "Not in this room");
    }
    let message = if let Some(held) = lookup_room(rooms, p.room_id.as_str()) {
        let seq: i64 = held.tip + 1;
        put_room(rooms, p.room_id.clone(), EphemeralRoom { room: held.room, tip: seq });
        ChatMessage {
            message_id: message_id.to_owned(),
            room_id: p.room_id.clone(),
            agent_id: agent_id.to_owned(),
            agent_name: agent_name.to_owned(),
            content: p.content.clone(),
            reply_to_message: copy_text(&p.reply_to),
            metadata: p.metadata.clone(),
            timestamp: now,
            seq,
        }
    } else {
        let created_at = show(now, COLUMN_FORMAT);
        let reply_to: Option<&str> = match &p.reply_to {
            Some(id) => Some(id.as_str()),
            None => None,
        };
        let stored = store.insert_message_at(
            message_id,
            p.room_id.as_str(),
            agent_id,
            agent_name,
            p.content.as_str(),
            reply_to,
            p.metadata.as_str(),
            created_at.as_str(),
        );
        match stored {
            Ok(message) => message,
            Err(e) => {
                let text = e.text();
                return refuse(req_id, ErrorCode::InternalError, text.as_str());
            },
        }
    };
    deliver(req_id, message, agent_id, &p.mentions)
}

fn deliver(
    req_id: Option<&str>,
    message: ChatMessage,
    agent_id: &str,
    mentions: &Vec<String>,
) -> (out: Outcome)
    ensures
        out@ == message_sent(req_id.deep_view(), message@, agent_id@, mentions.deep_view()),
{
    let mut actions: Vec<Action> = Vec::new();
    actions.push(
        Action::Broadcast {
            room_id: message.room_id.clone(),
            sender: agent_id.to_owned(),
            event: Event::MessageReceived { message: message.duplicate() },
        },
    );
    if mentions.len() > 0 {
        actions.push(
            Action::Mention {
                agents: copy_list(mentions),
                message: message.duplicate(),
                room_id: message.room_id.clone(),
            },
        );
    }
    let out = Outcome {
        reply_to: own(req_id),
        actions,
        verdict: Verdict::Answer { reply: Reply::Message { message } },
    };
    assert(out@ =~= message_sent(req_id.deep_view(), message@, agent_id@, mentions.deep_view()));
    out
}

/// Whether messages show rows, one by one.
pub open spec fn messages_shown(
    rows: Seq<MessageRowView>,
    messages: Seq<ChatMessageView>,
) -> bool {
    &&& messages.len() == rows.len()
    &&& forall|i: int| 0 <= i < rows.len() ==> message_reads(rows[i], #[trigger] messages[i])
}

/// The answer that gives a history.
pub open spec fn history_told(
    req_id: Option<Seq<char>>,
    room_id: Seq<char>,
    messages: Seq<ChatMessageView>,
) -> OutcomeView {
    plain(req_id, ReplyView::History { room_id, messages })
}

/// Gives the latest messages of a room.
pub fn handle_get_history(
    req_id: Option<&str>,
    p: &GetHistoryPayload,
    store: &Store,
) -> (out: Outcome)
    ensures
        exists|messages: Seq<ChatMessageView>|
            messages_shown(
                history(
                    store@.messages,
                    p.room_id@,
                    p.limit as int,
                    column_time(p.before),
                    None,
                    None,
                ),
                messages,
            ) && out@ == #[trigger] history_told(req_id.deep_view(), p.room_id@, messages),
{
    match store.get_history(p.room_id.as_str(), p.limit, p.before) {
        Ok(messages) => {
            let ghost rows = history(
                store@.messages,
                p.room_id@,
                p.limit as int,
                column_time(p.before),
                None,
                None,
            );
            let ghost shown_messages = views(messages@);
            assert(messages_shown(rows, shown_messages));
            let out = answer(req_id, Reply::History { room_id: p.room_id.clone(), messages });
            assert(out@ == history_told(req_id.deep_view(), p.room_id@, shown_messages));
            out
        },
        Err(e) => {
            let text = e.text();
            refuse(req_id, ErrorCode::InternalError, text.as_str())
        },
    }
}

/// The metadata of a decision, as JSON text.
pub open spec fn decision_json(agent_id: Seq<char>) -> Seq<char> {
    "{\"decided_by\":"@ + text_json(agent_id) + ",\"type\":\"decision\"}"@
}

/// The row of a decision.
pub open spec fn decision_row(
    messages: Seq<MessageRowView>,
    p: DecisionPayload,
    agent_id: Seq<char>,
    agent_name: Seq<char>,
    message_id: Seq<char>,
    now: Timestamp,
) -> MessageRowView {
    MessageRowView {
        message_id,
        room_id: p.room_id@,
        agent_id,
        agent_name,
        content: p.content@,
        reply_to_message: None,
        metadata: decision_json(agent_id),
        created_at: shown(now, COLUMN_FORMAT@),
        seq: (tip(messages, p.room_id@) + 1) as i64,
    }
}

/// The outcome of a decision that was made: all members are told.
pub open spec fn decision_made(
    req_id: Option<Seq<char>>,
    p: DecisionPayload,
    agent_id: Seq<char>,
    agent_name: Seq<char>,
    message_id: Seq<char>,
    now: Timestamp,
) -> OutcomeView {
    after_one(
        req_id,
        ActionView::BroadcastAll {
            room_id: p.room_id@,
            event: EventView::DecisionMade {
                room_id: p.room_id@,
                message_id,
                leader_id: agent_id,
                leader_name: agent_name,
                content: p.content@,
                metadata: p.metadata@,
                timestamp: now,
            },
        },
        ReplyView::Decision { message_id, room_id: p.room_id@ },
    )
}

/// What a decision does. Only the leader of a room may decide. In a permanent
/// room the decision goes into the tables as a message.
pub open spec fn decides(
    req_id: Option<Seq<char>>,
    p: DecisionPayload,
    agent_id: Seq<char>,
    agent_name: Seq<char>,
    leader: bool,
    rooms: Map<Seq<char>, EphemeralRoomView>,
    message_id: Seq<char>,
    now: Timestamp,
    before: StoreView,
    after: StoreView,
    out: OutcomeView,
) -> bool {
    let row = decision_row(before.messages, p, agent_id, agent_name, message_id, now);
    let made = decision_made(req_id, p, agent_id, agent_name, message_id, now);
    if !leader {
        after == before && out == refused(
            req_id,
            ErrorCode::NotLeader,
            "Only the room leader can issue decisions"@,
        )
    } else if rooms.contains_key(p.room_id@) {
        after == before && out == made
    } else {
        match message_refusal(before, row) {
            None => after == with_message(before, row) && out == made,
            Some(e) => after == before && out == refused(
                req_id,
                ErrorCode::InternalError,
                e.message(),
            ),
        }
    }
}

/// Makes a decision under the given id.
pub fn handle_decision(
    req_id: Option<&str>,
    p: &DecisionPayload,
    agent_id: &str,
    agent_name: &str,
    facts: &Facts,
    store: &mut Store,
    rooms: &DashMap<String, EphemeralRoom>,
    message_id: &str,
    now: Timestamp,
) -> (out: Outcome)
    requires
        facts.leader && !rooms_of(*rooms).contains_key(p.room_id@) ==> tip(
            old(store)@.messages,
            p.room_id@,
        ) < i64::MAX,
    ensures
        decides(
            req_id.deep_view(),
            *p,
            agent_id@,
            agent_name@,
            facts.leader,
            rooms_of(*rooms),
            message_id@,
            now,
            old(store)@,
            final(store)@,
            out@,
        ),
{
    if !facts.leader {
        return refuse(req_id, ErrorCode::NotLeader, "Only the room leader can issue decisions");
    }
    if lookup_room(rooms, p.room_id.as_str()).is_none() {
        let mut metadata = "{\"decided_by\":".to_owned();
        let who = write_text(agent_id);
        metadata.append(who.as_str());
        metadata.append(",\"type\":\"decision\"}");
        let created_at = show(now, COLUMN_FORMAT);
        let stored = store.insert_message_at(
            message_id,
            p.room_id.as_str(),
            agent_id,
            agent_name,
            p.content.as_str(),
            None,
            metadata.as_str(),
            created_at.as_str(),
        );
        if let Err(e) = stored {
            let text = e.text();
            return refuse(req_id, ErrorCode::InternalError, text.as_str());
        }
    }
    crate::handler::act_and_answer(
        req_id,
        Action::BroadcastAll {
            room_id: p.room_id.clone(),
            event: Event::DecisionMade {
                room_id: p.room_id.clone(),
                message_id: message_id.to_owned(),
                leader_id: agent_id.to_owned(),
                leader_name: agent_name.to_owned(),
                content: p.content.clone(),
                metadata: p.metadata.clone(),
                timestamp: now,
            },
        },
        Reply::Decision { message_id: message_id.to_owned(), room_id: p.room_id.clone() },
    )
}

} // verus!
