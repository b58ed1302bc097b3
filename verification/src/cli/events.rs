//! How events are shown.

use vstd::prelude::*;
use vstd::string::*;
use crate::cli::fields::{
    flag_at, inspect, inspect_at, json_flag_at, json_inspected, json_inspected_at, json_length_at,
    json_number_at, json_text_at, length_at, number_at, text_at,
};
use crate::rows::views;
use crate::text::{chars_of, decimal, join3, join5, join7, push_u64, text_of};

verus! {

/// What kind of event a frame holds. Any other kind goes by its name.
#[derive(Debug)]
pub enum EventKind {
    MessageReceived,
    Mention,
    AgentJoined,
    AgentLeft,
    RoomCreated,
    RoomDestroyed,
    VoteCreated,
    VoteResult,
    ElectionStarted,
    LeaderElected,
    LeaderCleared,
    DecisionMade,
    PresenceUpdate,
    Thinking,
    TurnChanged,
    Other(String),
}

/// An option in a tally, as far as it can be read.
#[derive(Debug)]
pub struct TallyEntry {
    pub text: Option<String>,
    pub count: Option<u64>,
}

/// What `TallyEntry` stands for.
#[verifier::ext_equal]
pub struct TallyEntryView {
    pub text: Option<Seq<char>>,
    pub count: Option<u64>,
}

impl View for TallyEntry {
    type V = TallyEntryView;

    open spec fn view(&self) -> TallyEntryView {
        TallyEntryView {
            text: self.text.deep_view(),
            count: self.count,
        }
    }
}

/// What the payload of an event holds, as far as it can be read. `message` and
/// `payload` are written out for inspection.
#[derive(Debug)]
pub struct EventFields {
    pub room_id: Option<String>,
    pub agent_name: Option<String>,
    pub joined_name: Option<String>,
    pub agent_id: Option<String>,
    pub name: Option<String>,
    pub ephemeral: Option<bool>,
    pub title: Option<String>,
    pub vote_id: Option<String>,
    pub leader_name: Option<String>,
    pub reason: Option<String>,
    pub content: Option<String>,
    pub status: Option<String>,
    pub progress: Option<u64>,
    pub status_detail: Option<String>,
    pub turn_holder: Option<String>,
    pub timestamp: Option<String>,
    pub tally: Vec<TallyEntry>,
    pub message: String,
    pub payload: String,
}

/// What `EventFields` stands for.
#[verifier::ext_equal]
pub struct EventFieldsView {
    pub room_id: Option<Seq<char>>,
    pub agent_name: Option<Seq<char>>,
    pub joined_name: Option<Seq<char>>,
    pub agent_id: Option<Seq<char>>,
    pub name: Option<Seq<char>>,
    pub ephemeral: Option<bool>,
    pub title: Option<Seq<char>>,
    pub vote_id: Option<Seq<char>>,
    pub leader_name: Option<Seq<char>>,
    pub reason: Option<Seq<char>>,
    pub content: Option<Seq<char>>,
    pub status: Option<Seq<char>>,
    pub progress: Option<u64>,
    pub status_detail: Option<Seq<char>>,
    pub turn_holder: Option<Seq<char>>,
    pub timestamp: Option<Seq<char>>,
    pub tally: Seq<TallyEntryView>,
    pub message: Seq<char>,
    pub payload: Seq<char>,
}

impl View for EventFields {
    type V = EventFieldsView;

    open spec fn view(&self) -> EventFieldsView {
        EventFieldsView {
            room_id: self.room_id.deep_view(),
            agent_name: self.agent_name.deep_view(),
            joined_name: self.joined_name.deep_view(),
            agent_id: self.agent_id.deep_view(),
            name: self.name.deep_view(),
            ephemeral: self.ephemeral,
            title: self.title.deep_view(),
            vote_id: self.vote_id.deep_view(),
            leader_name: self.leader_name.deep_view(),
            reason: self.reason.deep_view(),
            content: self.content.deep_view(),
            status: self.status.deep_view(),
            progress: self.progress,
            status_detail: self.status_detail.deep_view(),
            turn_holder: self.turn_holder.deep_view(),
            timestamp: self.timestamp.deep_view(),
            tally: views(self.tally@),
            message: self.message@,
            payload: self.payload@,
        }
    }
}

/// The entries of the tally in a payload; none where there is no list.
pub open spec fn tally_of(payload: Seq<char>) -> Seq<TallyEntryView> {
    match json_length_at(payload, "/tally"@) {
        Some(n) => Seq::new(
            n as nat,
            |i: int|
                TallyEntryView {
                    text: json_text_at(payload, "/tally/"@ + decimal(i) + "/option_text"@),
                    count: json_number_at(payload, "/tally/"@ + decimal(i) + "/count"@),
                },
        ),
        None => Seq::empty(),
    }
}

/// What a payload holds.
pub open spec fn fields_of(payload: Seq<char>) -> EventFieldsView {
    EventFieldsView {
        room_id: json_text_at(payload, "/room_id"@),
        agent_name: json_text_at(payload, "/agent_name"@),
        joined_name: json_text_at(payload, "/agent/name"@),
        agent_id: json_text_at(payload, "/agent_id"@),
        name: json_text_at(payload, "/name"@),
        ephemeral: json_flag_at(payload, "/ephemeral"@),
        title: json_text_at(payload, "/title"@),
        vote_id: json_text_at(payload, "/vote_id"@),
        leader_name: json_text_at(payload, "/leader_name"@),
        reason: json_text_at(payload, "/reason"@),
        content: json_text_at(payload, "/content"@),
        status: json_text_at(payload, "/status"@),
        progress: json_number_at(payload, "/progress"@),
        status_detail: json_text_at(payload, "/status_detail"@),
        turn_holder: json_text_at(payload, "/current_turn_holder"@),
        timestamp: json_text_at(payload, "/timestamp"@),
        tally: tally_of(payload),
        message: json_inspected_at(payload, "/message"@),
        payload: json_inspected(payload),
    }
}

fn read_tally(payload: &str) -> (r: Vec<TallyEntry>)
    ensures
        views(r@) == tally_of(payload@),
{
    let n: usize = match length_at(payload, "/tally") {
        Some(n) => n,
        None => 0,
    };
    let mut out: Vec<TallyEntry> = Vec::new();
    let mut i: usize = 0;
    while i < n
        invariant
            i <= n,
            out.len() == i,
            forall|j: int|
                0 <= j < i ==> (#[trigger] out@[j])@ == (TallyEntryView {
                    text: json_text_at(payload@, "/tally/"@ + decimal(j) + "/option_text"@),
                    count: json_number_at(payload@, "/tally/"@ + decimal(j) + "/count"@),
                }),
        decreases n - i,
    {
        let mut text_place = "/tally/".to_owned();
        push_u64(&mut text_place, i as u64);
        let mut count_place = text_place.clone();
        text_place.append("/option_text");
        count_place.append("/count");
        out.push(
            TallyEntry {
                text: text_at(payload, text_place.as_str()),
                count: number_at(payload, count_place.as_str()),
            },
        );
        i = i + 1;
    }
    assert(views(out@) =~= tally_of(payload@));
    out
}

/// Reads what a payload holds.
pub fn read_fields(payload: &str) -> (r: EventFields)
    ensures
        r@ == fields_of(payload@),
{
    EventFields {
        room_id: text_at(payload, "/room_id"),
        agent_name: text_at(payload, "/agent_name"),
        joined_name: text_at(payload, "/agent/name"),
        agent_id: text_at(payload, "/agent_id"),
        name: text_at(payload, "/name"),
        ephemeral: flag_at(payload, "/ephemeral"),
        title: text_at(payload, "/title"),
        vote_id: text_at(payload, "/vote_id"),
        leader_name: text_at(payload, "/leader_name"),
        reason: text_at(payload, "/reason"),
        content: text_at(payload, "/content"),
        status: text_at(payload, "/status"),
        progress: number_at(payload, "/progress"),
        status_detail: text_at(payload, "/status_detail"),
        turn_holder: text_at(payload, "/current_turn_holder"),
        timestamp: text_at(payload, "/timestamp"),
        tally: read_tally(payload),
        message: inspect_at(payload, "/message"),
        payload: inspect(payload),
    }
}

/// An optional text, or another one.
pub open spec fn or(text: Option<Seq<char>>, otherwise: Seq<char>) -> Seq<char> {
    match text {
        Some(t) => t,
        None => otherwise,
    }
}

fn or_else<'a>(text: &'a Option<String>, otherwise: &'a str) -> (r: &'a str)
    ensures
        r@ == or(text.deep_view(), otherwise@),
{
    match text {
        Some(t) => t.as_str(),
        None => otherwise,
    }
}

fn content_of(f: &EventFields, opened: Option<&str>) -> (r: String)
    ensures
        r@ == or(opened.deep_view(), or(f@.content, ""@)),
{
    match opened {
        Some(plain) => plain.to_owned(),
        None => or_else(&f.content, "").to_owned(),
    }
}

fn is_room(text: &Option<String>, room_id: &str) -> (r: bool)
    ensures
        r == (text.deep_view() == Some(room_id@)),
{
    match text {
        Some(t) => *t.as_str() == *room_id,
        None => false,
    }
}

/// What a content is shown as: what it opens to, where there is a key, the
/// content is a ciphertext and it opens; otherwise as it came.
pub fn decrypt_field(
    has_key: bool,
    is_ciphertext: bool,
    decrypted: Option<&str>,
    content: &str,
) -> (r: String)
    ensures
        r@ == if has_key && is_ciphertext {
            or(decrypted.deep_view(), content@)
        } else {
            content@
        },
{
    match decrypted {
        Some(plain) if has_key && is_ciphertext => plain.to_owned(),
        _ => content.to_owned(),
    }
}

/// Whether an event carries content that may be encrypted.
pub open spec fn carries_content(kind: EventKind) -> bool {
    kind is MessageReceived || kind is DecisionMade || kind is Thinking
}

/// The room and the content of an event whose content may be encrypted.
pub fn sealed_content(kind: &EventKind, f: &EventFields) -> (r: Option<(String, String)>)
    ensures
        r is Some <==> carries_content(*kind),
        r matches Some(c) ==> c.0@ == or(f@.room_id, "?"@) && c.1@ == or(f@.content, ""@),
{
    match kind {
        EventKind::MessageReceived | EventKind::DecisionMade | EventKind::Thinking => Some(
            (or_else(&f.room_id, "?").to_owned(), or_else(&f.content, "").to_owned()),
        ),
        _ => None,
    }
}

/// The line of an entry of a tally.
pub open spec fn tally_line(entry: TallyEntryView) -> Seq<char> {
    "  "@ + or(entry.text, "?"@) + " : "@ + decimal(
        match entry.count {
            Some(n) => n as int,
            None => 0,
        },
    ) + " votes\n"@
}

/// The lines of a tally.
pub open spec fn tally_lines(tally: Seq<TallyEntryView>) -> Seq<char>
    decreases tally.len(),
{
    if tally.len() == 0 {
        Seq::empty()
    } else {
        tally_lines(tally.drop_last()) + tally_line(tally.last())
    }
}

/// How progress is shown.
pub open spec fn progress_part(progress: Option<u64>) -> Seq<char> {
    match progress {
        Some(p) => " ("@ + decimal(p as int) + "%)"@,
        None => ""@,
    }
}

/// How a detail is shown.
pub open spec fn detail_part(detail: Option<Seq<char>>) -> Seq<char> {
    match detail {
        Some(d) => ": "@ + d,
        None => ""@,
    }
}

/// What is shown for an event, given what its content was opened to.
pub open spec fn event_lines(
    kind: EventKind,
    f: EventFieldsView,
    opened: Option<Seq<char>>,
) -> Seq<char> {
    let room = or(f.room_id, "?"@);
    let agent = or(f.agent_name, "?"@);
    let content = or(opened, or(f.content, ""@));
    match kind {
        EventKind::MessageReceived => "[message] #"@ + room + " "@ + agent + ": "@ + content
            + "\n"@,
        EventKind::Mention => "[mention] from #"@ + room + ": "@ + f.message + "\n"@,
        EventKind::AgentJoined => "[join] "@ + or(f.joined_name, "?"@) + " joined #"@ + room
            + "\n"@,
        EventKind::AgentLeft => "[leave] "@ + or(f.agent_id, "?"@) + " left #"@ + room + "\n"@,
        EventKind::RoomCreated => "[room+] created #"@ + or(f.name, "?"@) + (if f.ephemeral
            == Some(true) {
            " (ephemeral)"@
        } else {
            ""@
        }) + "\n"@,
        EventKind::RoomDestroyed => "[room-] destroyed #"@ + room + "\n"@,
        EventKind::VoteCreated => "[vote] New vote in #"@ + room + ": \""@ + or(f.title, "?"@)
            + "\" ("@ + or(f.vote_id, "?"@) + ")\n"@,
        EventKind::VoteResult => "[vote-result] #"@ + room + " \""@ + or(f.title, "?"@)
            + "\":\n"@ + tally_lines(f.tally),
        EventKind::ElectionStarted => "[election] Election started in #"@ + room
            + " (2s opt-out window)\n"@,
        EventKind::LeaderElected => "[leader] "@ + or(f.leader_name, "?"@)
            + " elected leader of #"@ + room + "\n"@,
        EventKind::LeaderCleared => "[leader-] Leadership cleared in #"@ + room + ": "@ + or(
            f.reason,
            "?"@,
        ) + "\n"@,
        EventKind::DecisionMade => "[decision] #"@ + room + " "@ + or(f.leader_name, "?"@)
            + " decides: "@ + content + "\n"@,
        EventKind::PresenceUpdate => "[presence] "@ + agent + " is now "@ + or(f.status, "?"@)
            + progress_part(f.progress) + detail_part(f.status_detail) + "\n"@,
        EventKind::Thinking => "[thinking] #"@ + room + " "@ + agent + ": "@ + content + "\n"@,
        EventKind::TurnChanged => "[turn] #"@ + room + " -> "@ + or(f.turn_holder, "(none)"@)
            + " ("@ + or(f.reason, "?"@) + ")\n"@,
        EventKind::Other(name) => "["@ + name@ + "] "@ + f.payload + "\n"@,
    }
}

fn show_tally_entry(entry: &TallyEntry) -> (r: String)
    ensures
        r@ == tally_line(entry@),
{
    let count: u64 = match entry.count {
        Some(n) => n,
        None => 0,
    };
    let mut line = join3("  ", or_else(&entry.text, "?"), " : ");
    push_u64(&mut line, count);
    line.append(" votes\n");
    line
}

fn push_tally(out: &mut String, tally: &Vec<TallyEntry>)
    ensures
        final(out)@ == old(out)@ + tally_lines(views(tally@)),
{
    let ghost start = out@;
    let ghost all = views(tally@);
    let mut i: usize = 0;
    assert(all.take(0) =~= Seq::empty());
    assert(out@ =~= start + tally_lines(all.take(0)));
    while i < tally.len()
        invariant
            i <= tally.len(),
            all == views(tally@),
            out@ == start + tally_lines(all.take(i as int)),
        decreases tally.len() - i,
    {
        proof {
            assert(all.take(i + 1).drop_last() =~= all.take(i as int));
            assert(all.take(i + 1).last() == tally@[i as int]@);
        }
        let line = show_tally_entry(&tally[i]);
        out.append(line.as_str());
        i = i + 1;
        assert(out@ =~= start + tally_lines(all.take(i as int)));
    }
    assert(all.take(i as int) =~= all);
}

fn presence_line(f: &EventFields) -> (r: String)
    ensures
        r@ == event_lines(EventKind::PresenceUpdate, f@, None),
{
    let mut progress = "".to_owned();
    if let Some(p) = f.progress {
        progress = " (".to_owned();
        push_u64(&mut progress, p);
        progress.append("%)");
    }
    let mut detail = "".to_owned();
    if let Some(d) = &f.status_detail {
        detail = ": ".to_owned();
        detail.append(d.as_str());
    }
    join7(
        "[presence] ",
        or_else(&f.agent_name, "?"),
        " is now ",
        or_else(&f.status, "?"),
        progress.as_str(),
        detail.as_str(),
        "\n",
    )
}

/// Shows an event of these fields, given what its content was opened to.
pub fn event_text(kind: &EventKind, f: &EventFields, opened: Option<&str>) -> (r: String)
    ensures
        r@ == event_lines(*kind, f@, opened.deep_view()),
{
    let room = or_else(&f.room_id, "?");
    let agent = or_else(&f.agent_name, "?");
    let content = content_of(f, opened);
    match kind {
        EventKind::MessageReceived => join7(
            "[message] #",
            room,
            " ",
            agent,
            ": ",
            content.as_str(),
            "\n",
        ),
        EventKind::Mention => join5("[mention] from #", room, ": ", f.message.as_str(), "\n"),
        EventKind::AgentJoined => join5(
            "[join] ",
            or_else(&f.joined_name, "?"),
            " joined #",
            room,
            "\n",
        ),
        EventKind::AgentLeft => join5(
            "[leave] ",
            or_else(&f.agent_id, "?"),
            " left #",
            room,
            "\n",
        ),
        EventKind::RoomCreated => {
            let tag = match f.ephemeral {
                Some(true) => " (ephemeral)",
                _ => "",
            };
            let mut out = join3("[room+] created #", or_else(&f.name, "?"), tag);
            out.append("\n");
            out
        },
        EventKind::RoomDestroyed => join3("[room-] destroyed #", room, "\n"),
        EventKind::VoteCreated => join7(
            "[vote] New vote in #",
            room,
            ": \"",
            or_else(&f.title, "?"),
            "\" (",
            or_else(&f.vote_id, "?"),
            ")\n",
        ),
        EventKind::VoteResult => {
            let mut out = join5(
                "[vote-result] #",
                room,
                " \"",
                or_else(&f.title, "?"),
                "\":\n",
            );
            push_tally(&mut out, &f.tally);
            out
        },
        EventKind::ElectionStarted => join3(
            "[election] Election started in #",
            room,
            " (2s opt-out window)\n",
        ),
        EventKind::LeaderElected => join5(
            "[leader] ",
            or_else(&f.leader_name, "?"),
            " elected leader of #",
            room,
            "\n",
        ),
        EventKind::LeaderCleared => join5(
            "[leader-] Leadership cleared in #",
            room,
            ": ",
            or_else(&f.reason, "?"),
            "\n",
        ),
        EventKind::DecisionMade => join7(
            "[decision] #",
            room,
            " ",
            or_else(&f.leader_name, "?"),
            " decides: ",
            content.as_str(),
            "\n",
        ),
        EventKind::PresenceUpdate => presence_line(f),
        EventKind::Thinking => join7(
            "[thinking] #",
            room,
            " ",
            agent,
            ": ",
            content.as_str(),
            "\n",
        ),
        EventKind::TurnChanged => join7(
            "[turn] #",
            room,
            " -> ",
            or_else(&f.turn_holder, "(none)"),
            " (",
            or_else(&f.reason, "?"),
            ")\n",
        ),
        EventKind::Other(name) => join5("[", name.as_str(), "] ", f.payload.as_str(), "\n"),
    }
}

/// Shows an event of a payload, given what its content was opened to.
pub fn print_event(kind: &EventKind, payload: &str, opened: Option<&str>) -> (r: String)
    ensures
        r@ == event_lines(*kind, fields_of(payload@), opened.deep_view()),
{
    let fields = read_fields(payload);
    event_text(kind, &fields, opened)
}

/// The line that a waiting agent sees of a peer that comes or goes; none for any
/// other event, or one of another room.
pub open spec fn peer_told(
    kind: EventKind,
    f: EventFieldsView,
    room_id: Seq<char>,
) -> Option<Seq<char>> {
    if f.room_id != Some(room_id) {
        None
    } else {
        match kind {
            EventKind::AgentJoined => Some(
                "wait: peer "@ + or(f.joined_name, "?"@) + " joined"@,
            ),
            EventKind::AgentLeft => Some("wait: peer "@ + or(f.agent_id, "?"@) + " left"@),
            _ => None,
        }
    }
}

/// Shows a waiting agent a peer that comes or goes.
pub fn peer_line(kind: &EventKind, f: &EventFields, room_id: &str) -> (r: Option<String>)
    ensures
        r.deep_view() == peer_told(*kind, f@, room_id@),
{
    if !is_room(&f.room_id, room_id) {
        return None;
    }
    match kind {
        EventKind::AgentJoined => Some(
            join3("wait: peer ", or_else(&f.joined_name, "?"), " joined"),
        ),
        EventKind::AgentLeft => Some(join3("wait: peer ", or_else(&f.agent_id, "?"), " left")),
        _ => None,
    }
}

/// The line that a waiting agent sees of a thought of a peer in its room; none
/// for its own thoughts and for any other event.
pub open spec fn thought_told(
    kind: EventKind,
    f: EventFieldsView,
    room_id: Seq<char>,
    own_name: Seq<char>,
    opened: Option<Seq<char>>,
) -> Option<Seq<char>> {
    let name = or(f.agent_name, "?"@);
    if !(kind is Thinking) || f.room_id != Some(room_id) || name == own_name {
        None
    } else {
        Some("wait: thinking "@ + name + ": "@ + or(opened, or(f.content, ""@)))
    }
}

/// Shows a waiting agent the thoughts of its peers.
pub fn thought_line(
    kind: &EventKind,
    f: &EventFields,
    room_id: &str,
    own_name: &str,
    opened: Option<&str>,
) -> (r: Option<String>)
    ensures
        r.deep_view() == thought_told(*kind, f@, room_id@, own_name@, opened.deep_view()),
{
    match kind {
        EventKind::Thinking => {},
        _ => {
            return None;
        },
    }
    let name = or_else(&f.agent_name, "?");
    if !is_room(&f.room_id, room_id) || *name == *own_name {
        return None;
    }
    let content = content_of(f, opened);
    let mut out = join3("wait: thinking ", name, ": ");
    out.append(content.as_str());
    Some(out)
}

/// Whether a shell in a room shows an event: one of another room is left out.
pub open spec fn concerns(
    event_room: Option<Seq<char>>,
    active_room: Option<Seq<char>>,
) -> bool {
    event_room is Some && active_room is Some ==> event_room == active_room
}

/// Decides whether a shell shows an event.
pub fn shows_event(f: &EventFields, active_room: Option<&str>) -> (r: bool)
    ensures
        r == concerns(f@.room_id, active_room.deep_view()),
{
    match (&f.room_id, active_room) {
        (Some(event_room), Some(room)) => *event_room.as_str() == *room,
        _ => true,
    }
}

/// How many bytes a character takes.
pub open spec fn width(c: char) -> int {
    let code = c as int;
    if code < 0x80 {
        1
    } else if code < 0x800 {
        2
    } else if code < 0x10000 {
        3
    } else {
        4
    }
}

/// How many bytes a text takes.
pub open spec fn byte_length(s: Seq<char>) -> int
    decreases s.len(),
{
    if s.len() == 0 {
        0
    } else {
        byte_length(s.drop_last()) + width(s.last())
    }
}

/// Whether the first `i` characters of a text take `n` bytes.
pub open spec fn cut_at(s: Seq<char>, i: int, n: int) -> bool {
    0 <= i <= s.len() && byte_length(s.take(i)) == n
}

/// Whether `part` is what stands in a text from byte `from` to byte `to`.
pub open spec fn is_byte_range(s: Seq<char>, from: int, to: int, part: Seq<char>) -> bool {
    exists|i: int, j: int| #[trigger]
        cut_at(s, i, from) && #[trigger] cut_at(s, j, to) && i <= j && part == s.subrange(i, j)
}

/// The byte after the time of day in a timestamp, or the end of a shorter text.
pub open spec fn clock_end(s: Seq<char>) -> int {
    if byte_length(s) < 19 {
        byte_length(s)
    } else {
        19
    }
}

/// Whether a timestamp holds no time of day: it is too short, or cannot be cut
/// there.
pub open spec fn untimed(at: Seq<char>) -> bool {
    forall|part: Seq<char>| !is_byte_range(at, 11, clock_end(at), part)
}

fn char_width(c: char) -> (r: usize)
    ensures
        r == width(c),
{
    let code: u32 = c as u32;
    if code < 0x80 {
        1
    } else if code < 0x800 {
        2
    } else if code < 0x10000 {
        3
    } else {
        4
    }
}

proof fn lemma_byte_length_grows(s: Seq<char>, i: int, j: int)
    requires
        0 <= i <= j <= s.len(),
    ensures
        byte_length(s.take(i)) + (j - i) <= byte_length(s.take(j)),
    decreases j - i,
{
    if i < j {
        lemma_byte_length_grows(s, i, j - 1);
        assert(s.take(j).drop_last() =~= s.take(j - 1));
    }
}

/// The number of characters that take `n` bytes, where the text can be cut
/// there. `n` is at most 19.
fn find_cut(chars: &Vec<char>, n: usize) -> (r: Option<usize>)
    requires
        n <= 19,
    ensures
        match r {
            Some(i) => cut_at(chars@, i as int, n as int),
            None => forall|i: int| !cut_at(chars@, i, n as int),
        },
{
    let mut i: usize = 0;
    let mut taken: usize = 0;
    assert(chars@.take(0) =~= Seq::empty());
    while i < chars.len() && taken < n
        invariant
            i <= chars.len(),
            taken == byte_length(chars@.take(i as int)),
            taken <= n + 3,
            n <= 19,
            i > 0 ==> byte_length(chars@.take(i - 1)) < n,
        decreases chars.len() - i,
    {
        taken = taken + char_width(chars[i]);
        i = i + 1;
        assert(chars@.take(i as int).drop_last() =~= chars@.take(i - 1));
    }
    if taken == n {
        return Some(i);
    }
    proof {
        assert forall|k: int| !cut_at(chars@, k, n as int) by {
            if 0 <= k <= chars.len() {
                if k <= i {
                    if k < i {
                        lemma_byte_length_grows(chars@, k, i - 1);
                    }
                } else {
                    lemma_byte_length_grows(chars@, i as int, k);
                }
            }
        }
    }
    None
}

/// Whether a text is at most 19 bytes long, and how long it is then.
fn short_length(chars: &Vec<char>) -> (r: usize)
    ensures
        r == clock_end(chars@),
{
    let mut i: usize = 0;
    let mut taken: usize = 0;
    assert(chars@.take(0) =~= Seq::empty());
    while i < chars.len() && taken < 19
        invariant
            i <= chars.len(),
            taken == byte_length(chars@.take(i as int)),
            taken <= 22,
        decreases chars.len() - i,
    {
        taken = taken + char_width(chars[i]);
        i = i + 1;
        assert(chars@.take(i as int).drop_last() =~= chars@.take(i - 1));
    }
    assert(chars@.take(chars.len() as int) =~= chars@);
    if taken < 19 {
        taken
    } else {
        proof {
            lemma_byte_length_grows(chars@, i as int, chars.len() as int);
        }
        19
    }
}

/// The time of day in a timestamp: its bytes from the eleventh on, up to the
/// nineteenth; none where the text is too short or cannot be cut there.
pub fn clock_part(at: &str) -> (r: Option<String>)
    ensures
        match r {
            Some(part) => is_byte_range(at@, 11, clock_end(at@), part@),
            None => forall|part: Seq<char>| !is_byte_range(at@, 11, clock_end(at@), part),
        },
        r is None ==> untimed(at@),
{
    let chars = chars_of(at);
    let end: usize = short_length(&chars);
    match (find_cut(&chars, 11), find_cut(&chars, end)) {
        (Some(i), Some(j)) => {
            if i <= j {
                Some(text_of(&chars, i, j))
            } else {
                proof {
                    lemma_cut_unique(at@, 11, end as int);
                }
                None
            }
        },
        _ => None,
    }
}

proof fn lemma_cut_unique(s: Seq<char>, m: int, n: int)
    ensures
        forall|i: int, j: int| cut_at(s, i, m) && #[trigger] cut_at(s, j, m) && #[trigger] cut_at(
            s,
            i,
            m,
        ) ==> i == j,
        forall|i: int, j: int| cut_at(s, i, n) && #[trigger] cut_at(s, j, n) && #[trigger] cut_at(
            s,
            i,
            n,
        ) ==> i == j,
{
    assert forall|i: int, j: int, k: int|
        #[trigger] cut_at(s, i, k) && #[trigger] cut_at(s, j, k) implies i == j by {
        if i < j {
            lemma_byte_length_grows(s, i, j);
        } else {
            lemma_byte_length_grows(s, j, i);
        }
    }
}

/// What a followed history makes of an event.
#[derive(Debug)]
pub enum Followed {
    /// It is no message of the room.
    Nothing,
    /// It is shown by this line.
    Line(String),
    /// It is a message whose timestamp holds no time of day.
    Untimed,
}

/// The line for a message: time of day, name, content.
pub open spec fn followed_line(
    f: EventFieldsView,
    clock: Seq<char>,
    opened: Option<Seq<char>>,
) -> Seq<char> {
    "["@ + clock + "] "@ + or(f.agent_name, "?"@) + ": "@ + or(opened, or(f.content, ""@))
}

/// Shows a message that arrives while a history is followed.
pub fn follow_event(
    kind: &EventKind,
    f: &EventFields,
    room_id: &str,
    opened: Option<&str>,
) -> (r: Followed)
    ensures
        ({
            let at = or(f@.timestamp, ""@);
            let here = kind is MessageReceived && f@.room_id == Some(room_id@);
            match r {
                Followed::Nothing => !here,
                Followed::Line(line) => here && exists|clock: Seq<char>|
                    is_byte_range(at, 11, clock_end(at), clock) && line@
                        == #[trigger] followed_line(f@, clock, opened.deep_view()),
                Followed::Untimed => here && forall|clock: Seq<char>|
                    !is_byte_range(at, 11, clock_end(at), clock),
            }
        }),
        r is Untimed ==> untimed(or(f@.timestamp, ""@)),
{
    match kind {
        EventKind::MessageReceived => {},
        _ => {
            return Followed::Nothing;
        },
    }
    if !is_room(&f.room_id, room_id) {
        return Followed::Nothing;
    }
    let content = content_of(f, opened);
    match clock_part(or_else(&f.timestamp, "")) {
        Some(clock) => {
            let mut line = join5("[", clock.as_str(), "] ", or_else(&f.agent_name, "?"), ": ");
            line.append(content.as_str());
            assert(line@ == followed_line(f@, clock@, opened.deep_view()));
            Followed::Line(line)
        },
        None => Followed::Untimed,
    }
}

// --- What the calls do ---

proof fn lemma_range_unique(s: Seq<char>, from: int, to: int)
    ensures
        forall|a: Seq<char>, b: Seq<char>| #[trigger]
            is_byte_range(s, from, to, a) && #[trigger] is_byte_range(s, from, to, b) ==> a == b,
{
    lemma_cut_unique(s, from, to);
    assert forall|a: Seq<char>, b: Seq<char>| #[trigger]
        is_byte_range(s, from, to, a) && #[trigger] is_byte_range(s, from, to, b)
            implies a == b by {
        let (i, j) = choose|i: int, j: int| #[trigger]
            cut_at(s, i, from) && #[trigger] cut_at(s, j, to) && i <= j && a == s.subrange(i, j);
        let (k, l) = choose|k: int, l: int| #[trigger]
            cut_at(s, k, from) && #[trigger] cut_at(s, l, to) && k <= l && b == s.subrange(k, l);
        assert(cut_at(s, i, from) && cut_at(s, k, from));
        assert(cut_at(s, j, to) && cut_at(s, l, to));
    }
}

proof fn lemma_tally_flat(tally: Seq<TallyEntry>)
    ensures
        tally_lines(views(tally)) == tally.map_values(
            |entry: TallyEntry|
                "  "@ + (match entry.text {
                    Some(t) => t@,
                    None => "?"@,
                }) + " : "@ + decimal(
                    match entry.count {
                        Some(n) => n as int,
                        None => 0,
                    },
                ) + " votes\n"@,
        ).flatten(),
    decreases tally.len(),
{
    let line = |entry: TallyEntry|
        "  "@ + (match entry.text {
            Some(t) => t@,
            None => "?"@,
        }) + " : "@ + decimal(
            match entry.count {
                Some(n) => n as int,
                None => 0,
            },
        ) + " votes\n"@;
    let lines = tally.map_values(line);
    lines.lemma_flatten_and_flatten_alt_are_equivalent();
    if tally.len() > 0 {
        let front = tally.drop_last();
        lemma_tally_flat(front);
        assert(views(tally).drop_last() =~= views(front));
        assert(lines.drop_last() =~= front.map_values(line));
        front.map_values(line).lemma_flatten_and_flatten_alt_are_equivalent();
        assert(views(tally).last() == tally.last()@);
        assert(lines.last() == line(tally.last()));
        assert(tally_line(tally.last()@) == line(tally.last()));
    } else {
        assert(views(tally) =~= Seq::empty());
    }
}

/// A waiting agent is told of the peers that come to its room or leave it, by their name
/// or their id, and of nothing else.
pub proof fn a_waiting_agent_sees_peers_come_and_go(
    kind: &EventKind,
    f: &EventFields,
    room_id: &str,
    r: Option<String>,
)
    requires
        call_ensures(peer_line, (kind, f, room_id), r),
    ensures
        r is Some <==> f.room_id.deep_view() == Some(room_id@) && (kind is AgentJoined
            || kind is AgentLeft),
        r matches Some(line)
            ==> (kind is AgentJoined ==> line@ == "wait: peer "@ + (match f.joined_name {
            Some(t) => t@,
            None => "?"@,
        }) + " joined"@),
        r matches Some(line)
            ==> (kind is AgentLeft ==> line@ == "wait: peer "@ + (match f.agent_id {
            Some(t) => t@,
            None => "?"@,
        }) + " left"@),
{
}

/// A waiting agent is told of the thoughts of others in its room, with what they are opened
/// to, and of nothing else.
pub proof fn a_waiting_agent_sees_the_thoughts_of_others(
    kind: &EventKind,
    f: &EventFields,
    room_id: &str,
    own_name: &str,
    opened: Option<&str>,
    r: Option<String>,
)
    requires
        call_ensures(thought_line, (kind, f, room_id, own_name, opened), r),
    ensures
        r is Some <==> kind is Thinking && f.room_id.deep_view() == Some(room_id@)
            && (match f.agent_name {
            Some(t) => t@,
            None => "?"@,
        }) != own_name@,
        r matches Some(line) ==> line@ == "wait: thinking "@ + (match f.agent_name {
            Some(t) => t@,
            None => "?"@,
        }) + ": "@ + (match opened {
            Some(plain) => plain@,
            None => match f.content {
                Some(c) => c@,
                None => ""@,
            },
        }),
{
}

/// A shell in a room leaves out the events of other rooms, and no others.
pub proof fn a_shell_leaves_out_other_rooms(
    f: &EventFields,
    active_room: Option<&str>,
    r: bool,
)
    requires
        call_ensures(shows_event, (f, active_room), r),
    ensures
        !r <==> (f.room_id matches Some(a) && (active_room matches Some(b) && a@ != b@)),
{
}

/// Content is opened only where there is a key, it is a ciphertext and it opens; otherwise
/// it is shown as it came.
pub proof fn content_is_opened_only_with_a_key(
    has_key: bool,
    is_ciphertext: bool,
    decrypted: Option<&str>,
    content: &str,
    r: String,
)
    requires
        call_ensures(decrypt_field, (has_key, is_ciphertext, decrypted, content), r),
    ensures
        has_key && is_ciphertext ==> (decrypted matches Some(plain) ==> r@ == plain@),
        !has_key || !is_ciphertext || decrypted is None ==> r@ == content@,
{
}

/// Messages, decisions and thoughts carry content that may be sealed: that of their room.
/// Other events carry none.
pub proof fn only_what_is_said_may_be_sealed(
    kind: &EventKind,
    f: &EventFields,
    r: Option<(String, String)>,
)
    requires
        call_ensures(sealed_content, (kind, f), r),
    ensures
        r is Some <==> kind is MessageReceived || kind is DecisionMade || kind is Thinking,
        r matches Some(c) ==> c.0@ == (match f.room_id {
            Some(t) => t@,
            None => "?"@,
        }) && c.1@ == (match f.content {
            Some(t) => t@,
            None => ""@,
        }),
{
}

/// A followed history shows the messages of its room, each with its time of day, its author
/// and what it is opened to, and nothing else.
pub proof fn a_followed_history_shows_the_messages_of_its_room(
    kind: &EventKind,
    f: &EventFields,
    room_id: &str,
    opened: Option<&str>,
    clock: Option<String>,
    at: &str,
    r: Followed,
)
    requires
        call_ensures(follow_event, (kind, f, room_id, opened), r),
        at@ == (match f.timestamp {
            Some(t) => t@,
            None => ""@,
        }),
        call_ensures(clock_part, (at,), clock),
    ensures
        r is Nothing <==> !(kind is MessageReceived && f.room_id.deep_view() == Some(room_id@)),
        r is Untimed ==> clock is None,
        !(r is Nothing) && clock is None ==> r is Untimed,
        r matches Followed::Line(line)
            ==> (clock matches Some(time) && line@ == "["@ + time@ + "] "@
            + (match f.agent_name {
            Some(t) => t@,
            None => "?"@,
        }) + ": "@ + (match opened {
            Some(plain) => plain@,
            None => match f.content {
                Some(c) => c@,
                None => ""@,
            },
        })),
{
    let time = or(f@.timestamp, ""@);
    assert(at@ == time);
    lemma_range_unique(time, 11, clock_end(time));
    if let Some(c) = clock {
        assert(is_byte_range(time, 11, clock_end(time), c@));
    }
    if let Followed::Line(line) = r {
        let part = choose|part: Seq<char>|
            is_byte_range(time, 11, clock_end(time), part) && line@ == #[trigger] followed_line(
                f@,
                part,
                opened.deep_view(),
            );
        assert(is_byte_range(time, 11, clock_end(time), part));
    }
}

/// The time of day of a timestamp is what stands between its eleventh byte and its
/// nineteenth, or its end: the characters before it take eleven bytes, and with it they
/// take nineteen, or all there are.
pub proof fn the_time_of_day_stands_behind_eleven_bytes(
    at: &str,
    r: Option<String>,
)
    requires
        call_ensures(clock_part, (at,), r),
    ensures
        r matches Some(part) ==> exists|i: int, j: int|
            0 <= i <= j <= at@.len() && part@ == #[trigger] at@.subrange(i, j) && byte_length(
                at@.take(i),
            ) == 11 && byte_length(at@.take(j)) == (if byte_length(at@) < 19 {
                byte_length(at@)
            } else {
                19
            }),
        r is None ==> !exists|i: int, j: int|
            0 <= i <= j <= at@.len() && #[trigger] byte_length(at@.take(i)) == 11
                && #[trigger] byte_length(at@.take(j)) == (if byte_length(at@) < 19 {
                byte_length(at@)
            } else {
                19
            }),
{
    let end = clock_end(at@);
    if let Some(part) = r {
        let (i, j) = choose|i: int, j: int| #[trigger]
            cut_at(at@, i, 11) && #[trigger] cut_at(at@, j, end) && i <= j && part@
                == at@.subrange(i, j);
        assert(part@ == at@.subrange(i, j));
    } else {
        assert forall|i: int, j: int|
            0 <= i <= j <= at@.len() && #[trigger] byte_length(at@.take(i)) == 11
                && #[trigger] byte_length(at@.take(j)) == end implies false by {
            assert(cut_at(at@, i, 11) && cut_at(at@, j, end));
            assert(is_byte_range(at@, 11, end, at@.subrange(i, j)));
            assert(untimed(at@));
        }
    }
}

/// A text takes as many bytes as its characters do: one below 128, two below 2048, three
/// below 65536, and four from there on.
pub proof fn characters_take_one_to_four_bytes(
    s: Seq<char>,
    c: char,
)
    ensures
        byte_length(Seq::empty()) == 0,
        byte_length(s.push(c)) == byte_length(s) + (if (c as int) < 128 {
            1int
        } else if (c as int) < 2048 {
            2
        } else if (c as int) < 65536 {
            3
        } else {
            4
        }),
{
    assert(s.push(c).drop_last() =~= s);
}

/// What a payload holds is read field by field, each from the place of its name.
pub proof fn fields_are_read_from_their_places(
    payload: &str,
    f: EventFields,
)
    requires
        call_ensures(read_fields, (payload,), f),
    ensures
        f.room_id.deep_view() == json_text_at(payload@, "/room_id"@),
        f.agent_name.deep_view() == json_text_at(payload@, "/agent_name"@),
        f.joined_name.deep_view() == json_text_at(payload@, "/agent/name"@),
        f.agent_id.deep_view() == json_text_at(payload@, "/agent_id"@),
        f.name.deep_view() == json_text_at(payload@, "/name"@),
        f.title.deep_view() == json_text_at(payload@, "/title"@),
        f.vote_id.deep_view() == json_text_at(payload@, "/vote_id"@),
        f.leader_name.deep_view() == json_text_at(payload@, "/leader_name"@),
        f.reason.deep_view() == json_text_at(payload@, "/reason"@),
        f.content.deep_view() == json_text_at(payload@, "/content"@),
        f.status.deep_view() == json_text_at(payload@, "/status"@),
        f.status_detail.deep_view() == json_text_at(payload@, "/status_detail"@),
        f.turn_holder.deep_view() == json_text_at(payload@, "/current_turn_holder"@),
        f.timestamp.deep_view() == json_text_at(payload@, "/timestamp"@),
        f.ephemeral == json_flag_at(payload@, "/ephemeral"@),
        f.progress == json_number_at(payload@, "/progress"@),
        f.message@ == json_inspected_at(payload@, "/message"@),
        f.payload@ == json_inspected(payload@),
        json_length_at(payload@, "/tally"@) is None ==> f.tally@.len() == 0,
        json_length_at(payload@, "/tally"@) matches Some(n) ==> f.tally@.len() == n,
        forall|i: int|
            0 <= i < f.tally@.len() ==> (#[trigger] f.tally@[i]).text.deep_view() == json_text_at(
                payload@,
                "/tally/"@ + decimal(i) + "/option_text"@,
            ) && f.tally@[i].count == json_number_at(
                payload@,
                "/tally/"@ + decimal(i) + "/count"@,
            ),
{
    assert(views(f.tally@).len() == f.tally@.len());
    assert forall|i: int| 0 <= i < f.tally@.len() implies (#[trigger] f.tally@[i]).text.deep_view()
        == json_text_at(payload@, "/tally/"@ + decimal(i) + "/option_text"@) && f.tally@[i].count
        == json_number_at(payload@, "/tally/"@ + decimal(i) + "/count"@) by {
        assert(views(f.tally@)[i] == f.tally@[i]@);
    }
}

/// An event is shown with what it is about: its room, who did it and what was said, each
/// from its own field; what is missing is shown as a question mark.
#[verifier::rlimit(50)]
pub proof fn an_event_is_shown_with_its_fields(
    kind: &EventKind,
    f: &EventFields,
    opened: Option<&str>,
    r: String,
)
    requires
        call_ensures(event_text, (kind, f, opened), r),
    ensures
        kind is MessageReceived ==> r@ == "[message] #"@ + (match f.room_id {
            Some(t) => t@,
            None => "?"@,
        }) + " "@ + (match f.agent_name {
            Some(t) => t@,
            None => "?"@,
        }) + ": "@ + (match opened {
            Some(plain) => plain@,
            None => match f.content {
                Some(c) => c@,
                None => ""@,
            },
        }) + "\n"@,
        kind is Mention ==> r@ == "[mention] from #"@ + (match f.room_id {
            Some(t) => t@,
            None => "?"@,
        }) + ": "@ + f.message@ + "\n"@,
        kind is AgentJoined ==> r@ == "[join] "@ + (match f.joined_name {
            Some(t) => t@,
            None => "?"@,
        }) + " joined #"@ + (match f.room_id {
            Some(t) => t@,
            None => "?"@,
        }) + "\n"@,
        kind is AgentLeft ==> r@ == "[leave] "@ + (match f.agent_id {
            Some(t) => t@,
            None => "?"@,
        }) + " left #"@ + (match f.room_id {
            Some(t) => t@,
            None => "?"@,
        }) + "\n"@,
        kind is RoomDestroyed ==> r@ == "[room-] destroyed #"@ + (match f.room_id {
            Some(t) => t@,
            None => "?"@,
        }) + "\n"@,
        kind is RoomCreated ==> r@ == "[room+] created #"@ + (match f.name {
            Some(t) => t@,
            None => "?"@,
        }) + (if f.ephemeral == Some(
            true,
        ) {
            " (ephemeral)"@
        } else {
            ""@
        }) + "\n"@,
        kind is VoteCreated ==> r@ == "[vote] New vote in #"@ + (match f.room_id {
            Some(t) => t@,
            None => "?"@,
        }) + ": \""@ + (match f.title {
            Some(t) => t@,
            None => "?"@,
        }) + "\" ("@ + (match f.vote_id {
            Some(t) => t@,
            None => "?"@,
        }) + ")\n"@,
        kind is ElectionStarted ==> r@ == "[election] Election started in #"@ + (match f.room_id {
            Some(t) => t@,
            None => "?"@,
        }) + " (2s opt-out window)\n"@,
        kind is TurnChanged ==> r@ == "[turn] #"@ + (match f.room_id {
            Some(t) => t@,
            None => "?"@,
        }) + " -> "@ + (match f.turn_holder {
            Some(t) => t@,
            None => "(none)"@,
        }) + " ("@ + (match f.reason {
            Some(t) => t@,
            None => "?"@,
        }) + ")\n"@,
        kind is LeaderElected ==> r@ == "[leader] "@ + (match f.leader_name {
            Some(t) => t@,
            None => "?"@,
        }) + " elected leader of #"@ + (match f.room_id {
            Some(t) => t@,
            None => "?"@,
        }) + "\n"@,
        kind is LeaderCleared ==> r@ == "[leader-] Leadership cleared in #"@ + (match f.room_id {
            Some(t) => t@,
            None => "?"@,
        }) + ": "@ + (match f.reason {
            Some(t) => t@,
            None => "?"@,
        }) + "\n"@,
        kind is DecisionMade ==> r@ == "[decision] #"@ + (match f.room_id {
            Some(t) => t@,
            None => "?"@,
        }) + " "@ + (match f.leader_name {
            Some(t) => t@,
            None => "?"@,
        }) + " decides: "@ + (match opened {
            Some(plain) => plain@,
            None => match f.content {
                Some(c) => c@,
                None => ""@,
            },
        }) + "\n"@,
        kind is Thinking ==> r@ == "[thinking] #"@ + (match f.room_id {
            Some(t) => t@,
            None => "?"@,
        }) + " "@ + (match f.agent_name {
            Some(t) => t@,
            None => "?"@,
        }) + ": "@ + (match opened {
            Some(plain) => plain@,
            None => match f.content {
                Some(c) => c@,
                None => ""@,
            },
        }) + "\n"@,
        kind is PresenceUpdate ==> r@ == "[presence] "@ + (match f.agent_name {
            Some(t) => t@,
            None => "?"@,
        }) + " is now "@ + (match f.status {
            Some(t) => t@,
            None => "?"@,
        }) + (match f.progress {
            Some(p) => " ("@ + decimal(p as int) + "%)"@,
            None => ""@,
        }) + (match f.status_detail {
            Some(d) => ": "@ + d@,
            None => ""@,
        }) + "\n"@,
        kind matches EventKind::Other(name) ==> r@ == "["@ + name@ + "] "@ + f.payload@ + "\n"@,
        kind is VoteResult ==> r@ == "[vote-result] #"@ + (match f.room_id {
            Some(t) => t@,
            None => "?"@,
        }) + " \""@ + (match f.title {
            Some(t) => t@,
            None => "?"@,
        }) + "\":\n"@ + f.tally@.map_values(
            |entry: TallyEntry|
                "  "@ + (match entry.text {
                    Some(t) => t@,
                    None => "?"@,
                }) + " : "@ + decimal(
                    match entry.count {
                        Some(n) => n as int,
                        None => 0,
                    },
                ) + " votes\n"@,
        ).flatten(),
{
    lemma_tally_flat(f.tally@);
}

/// An event of a payload is shown as its fields are.
pub proof fn an_event_of_a_payload_is_shown_by_its_fields(
    kind: &EventKind,
    payload: &str,
    opened: Option<&str>,
    f: EventFields,
    a: String,
    b: String,
)
    requires
        call_ensures(print_event, (kind, payload, opened), a),
        call_ensures(read_fields, (payload,), f),
        call_ensures(event_text, (kind, &f, opened), b),
    ensures
        a@ == b@,
{
}

} // verus!
