//! Tables and notices for the user.

use vstd::prelude::*;
use vstd::string::*;
use crate::cli::fields::{json_number_at, number_at};
use crate::models::{
    ChatMessage, ChatMessageView, Room, RoomView, VoteInfo, VoteInfoView, VoteStatus, VoteTally,
};
use crate::rows::{
    any, exists_row, find, first_match, lemma_first_match, lemma_joined, views, Row,
};
use crate::store::answers::lemma_found_at;
use crate::store::subscriptions::{Subscription, SubscriptionView};
use crate::text::{
    copy_text, decimal, i64_text, padded, push_i64, push_padded, push_repeated, push_u64, repeated,
};
use crate::time::{show, shown, Timestamp, CLOCK_FORMAT, FULL_FORMAT};

verus! {

/// A connected agent and what it says of its work.
#[derive(Debug)]
pub struct AgentStatus {
    pub agent_id: String,
    pub name: String,
    pub status: Option<String>,
    pub progress: Option<u8>,
    pub last_active: Option<Timestamp>,
    pub status_detail: Option<String>,
}

/// What a `AgentStatus` stands for.
pub struct AgentStatusView {
    pub agent_id: Seq<char>,
    pub name: Seq<char>,
    pub status: Option<Seq<char>>,
    pub progress: Option<u8>,
    pub last_active: Option<Timestamp>,
    pub status_detail: Option<Seq<char>>,
}

impl View for AgentStatus {
    type V = AgentStatusView;

    open spec fn view(&self) -> AgentStatusView {
        AgentStatusView {
            agent_id: self.agent_id@,
            name: self.name@,
            status: self.status.deep_view(),
            progress: self.progress,
            last_active: self.last_active,
            status_detail: self.status_detail.deep_view(),
        }
    }
}

impl Row for AgentStatus {
    fn duplicate(&self) -> (r: AgentStatus) {
        AgentStatus {
            agent_id: self.agent_id.clone(),
            name: self.name.clone(),
            status: copy_text(&self.status),
            progress: self.progress,
            last_active: self.last_active,
            status_detail: copy_text(&self.status_detail),
        }
    }
}

impl Clone for AgentStatus {
    fn clone(&self) -> (r: AgentStatus)
        ensures
            r@ == self@,
    {
        self.duplicate()
    }
}

/// The time of day of an optional instant, or a dash.
pub open spec fn clock_or_dash(t: Option<Timestamp>) -> Seq<char> {
    match t {
        Some(t) => shown(t, CLOCK_FORMAT@),
        None => "-"@,
    }
}

fn show_clock(t: Option<Timestamp>) -> (r: String)
    ensures
        r@ == clock_or_dash(t),
{
    match t {
        Some(t) => show(t, CLOCK_FORMAT),
        None => "-".to_owned(),
    }
}

/// An optional text, or another one.
pub open spec fn text_or(t: Option<Seq<char>>, otherwise: Seq<char>) -> Seq<char> {
    match t {
        Some(t) => t,
        None => otherwise,
    }
}

fn or_text(t: &Option<String>, otherwise: &str) -> (r: String)
    ensures
        r@ == text_or(t.deep_view(), otherwise@),
{
    match t {
        Some(t) => t.clone(),
        None => otherwise.to_owned(),
    }
}

/// Progress in percent, or nothing.
pub open spec fn percent(p: Option<u8>) -> Seq<char> {
    match p {
        Some(p) => decimal(p as int) + "%"@,
        None => ""@,
    }
}

fn show_percent(p: Option<u8>) -> (r: String)
    ensures
        r@ == percent(p),
{
    match p {
        Some(p) => {
            let mut out = i64_text(p as i64);
            out.append("%");
            out
        },
        None => "".to_owned(),
    }
}

/// A cell of a table: padded to a width, and a space behind it.
pub open spec fn cell(s: Seq<char>, width: int) -> Seq<char> {
    padded(s, width) + " "@
}

fn push_cell(out: &mut String, s: &str, width: usize)
    ensures
        final(out)@ == old(out)@ + cell(s@, width as int),
{
    let ghost start = out@;
    push_padded(out, s, width);
    out.append(" ");
    assert(out@ =~= start + cell(s@, width as int));
}

// --- Rooms ---

/// The type of a room.
pub open spec fn room_type(room: RoomView) -> Seq<char> {
    if room.ephemeral {
        "ephemeral"@
    } else {
        "permanent"@
    }
}

/// A line of the short room table.
pub open spec fn short_room_line(room: RoomView) -> Seq<char> {
    cell(room.room_id, 38) + cell(room.name, 20) + cell(room_type(room), 10) + text_or(
        room.description,
        ""@,
    ) + "\n"@
}

/// A line of the long room table.
pub open spec fn long_room_line(room: RoomView) -> Seq<char> {
    cell(room.room_id, 38) + cell(room.name, 20) + cell(room_type(room), 10) + cell(
        match room.member_count {
            Some(n) => decimal(n as int),
            None => "-"@,
        },
        8,
    ) + cell(clock_or_dash(room.last_activity), 20) + text_or(room.description, ""@) + "\n"@
}

/// The lines of a room table.
pub open spec fn room_lines(rooms: Seq<RoomView>, long: bool) -> Seq<char>
    decreases rooms.len(),
{
    if rooms.len() == 0 {
        Seq::empty()
    } else {
        room_lines(rooms.drop_last(), long) + if long {
            long_room_line(rooms.last())
        } else {
            short_room_line(rooms.last())
        }
    }
}

/// A table of rooms.
pub open spec fn room_table(rooms: Seq<RoomView>, long: bool) -> Seq<char> {
    if rooms.len() == 0 {
        "No rooms found.\n"@
    } else if long {
        cell("ID"@, 38) + cell("NAME"@, 20) + cell("TYPE"@, 10) + cell("MEMBERS"@, 8) + cell(
            "LAST ACTIVITY"@,
            20,
        ) + "DESCRIPTION\n"@ + repeated('-', 130) + "\n"@ + room_lines(rooms, true)
    } else {
        cell("ID"@, 38) + cell("NAME"@, 20) + cell("TYPE"@, 10) + "DESCRIPTION\n"@ + repeated(
            '-',
            80,
        ) + "\n"@ + room_lines(rooms, false)
    }
}

fn push_room_line(out: &mut String, room: &Room, long: bool)
    ensures
        final(out)@ == old(out)@ + if long {
            long_room_line(room@)
        } else {
            short_room_line(room@)
        },
{
    let ghost start = out@;
    let kind = if room.ephemeral {
        "ephemeral"
    } else {
        "permanent"
    };
    let description = or_text(&room.description, "");
    let mut line = String::new();
    push_cell(&mut line, room.room_id.as_str(), 38);
    assert(line@ =~= cell(room.room_id@, 38));
    push_cell(&mut line, room.name.as_str(), 20);
    push_cell(&mut line, kind, 10);
    if long {
        let members = match room.member_count {
            Some(n) => {
                let mut text = String::new();
                push_u64(&mut text, n as u64);
                assert(text@ =~= decimal(n as int));
                text
            },
            None => "-".to_owned(),
        };
        let activity = show_clock(room.last_activity);
        push_cell(&mut line, members.as_str(), 8);
        push_cell(&mut line, activity.as_str(), 20);
    }
    line.append(description.as_str());
    line.append("\n");
    out.append(line.as_str());
}

/// Writes a table of rooms.
pub fn render_rooms(rooms: &Vec<Room>, long: bool) -> (r: String)
    ensures
        r@ == room_table(views(rooms@), long),
{
    if rooms.len() == 0 {
        return "No rooms found.\n".to_owned();
    }
    let ghost all = views(rooms@);
    let mut out = String::new();
    push_cell(&mut out, "ID", 38);
    assert(out@ =~= cell("ID"@, 38));
    push_cell(&mut out, "NAME", 20);
    push_cell(&mut out, "TYPE", 10);
    if long {
        push_cell(&mut out, "MEMBERS", 8);
        push_cell(&mut out, "LAST ACTIVITY", 20);
    }
    out.append("DESCRIPTION\n");
    push_repeated(&mut out, '-', if long { 130 } else { 80 });
    out.append("\n");
    let ghost head = out@;
    let mut i: usize = 0;
    assert(all.take(0) =~= Seq::empty());
    assert(head + room_lines(all.take(0), long) =~= head);
    while i < rooms.len()
        invariant
            i <= rooms.len(),
            all == views(rooms@),
            out@ == head + room_lines(all.take(i as int), long),
        decreases rooms.len() - i,
    {
        proof {
            assert(all.take(i + 1).drop_last() =~= all.take(i as int));
            assert(all.take(i + 1).last() == rooms@[i as int]@);
        }
        push_room_line(&mut out, &rooms[i], long);
        i = i + 1;
        assert(out@ =~= head + room_lines(all.take(i as int), long));
    }
    assert(all.take(i as int) =~= all);
    out
}

/// What is said of a room that was created.
pub open spec fn created_notice(room: RoomView, has_secret: bool) -> Seq<char> {
    "Created room: "@ + room.name + " ("@ + room.room_id + ")\n"@ + (if room.ephemeral {
        "  Type: ephemeral (auto-deleted when empty)\n"@
    } else {
        ""@
    }) + "  Visibility: "@ + (if room.visibility == "public"@ {
        "public (any key can find & join)"@
    } else {
        "private (only your key)"@
    }) + "\n"@ + (if room.encrypted {
        "  End-to-end encrypted: members need a shared room key\n"@
    } else {
        ""@
    }) + (if room.encrypted && !has_secret {
        "  Note: no room key set — pass --room-key or set $CLAWCHAT_ROOM_KEY to send/read here\n"@
    } else {
        ""@
    })
}

/// Tells of a room that was created.
pub fn render_created(room: &Room, has_secret: bool) -> (r: String)
    ensures
        r@ == created_notice(room@, has_secret),
{
    let mut out = "Created room: ".to_owned();
    out.append(room.name.as_str());
    out.append(" (");
    out.append(room.room_id.as_str());
    out.append(")\n");
    out.append(if room.ephemeral { "  Type: ephemeral (auto-deleted when empty)\n" } else { "" });
    out.append("  Visibility: ");
    let public = *room.visibility.as_str() == *"public";
    out.append(if public { "public (any key can find & join)" } else { "private (only your key)" });
    out.append("\n");
    out.append(
        if room.encrypted { "  End-to-end encrypted: members need a shared room key\n" } else { "" },
    );
    out.append(
        if room.encrypted && !has_secret {
            "  Note: no room key set — pass --room-key or set $CLAWCHAT_ROOM_KEY to send/read here\n"
        } else { "" },
    );
    out
}

// --- Agents ---

/// How far back a history is searched for agents.
pub const SIGHTING_DEPTH: u32 = 200;

/// Where an agent was last seen in a room: the number and the time of its last
/// message.
#[derive(Debug)]
pub struct Sighting {
    pub name: String,
    pub seq: i64,
    pub at: Timestamp,
}

/// What a `Sighting` stands for.
pub struct SightingView {
    pub name: Seq<char>,
    pub seq: i64,
    pub at: Timestamp,
}

impl View for Sighting {
    type V = SightingView;

    open spec fn view(&self) -> SightingView {
        SightingView { name: self.name@, seq: self.seq, at: self.at }
    }
}

/// The sightings of a name.
pub open spec fn seen_as(name: Seq<char>) -> spec_fn(SightingView) -> bool {
    |s: SightingView| s.name == name
}

/// The last message of each agent in a history, the latest first.
pub open spec fn sightings(history: Seq<ChatMessageView>) -> Seq<SightingView>
    decreases history.len(),
{
    seen_before(history, Seq::empty())
}

/// The sightings that a history adds to later ones.
pub open spec fn seen_before(
    history: Seq<ChatMessageView>,
    later: Seq<SightingView>,
) -> Seq<SightingView>
    decreases history.len(),
{
    if history.len() == 0 {
        later
    } else {
        let m = history.last();
        if any(later, seen_as(m.agent_name)) {
            seen_before(history.drop_last(), later)
        } else {
            seen_before(
                history.drop_last(),
                later.push(
                    SightingView { name: m.agent_name, seq: m.seq, at: m.timestamp },
                ),
            )
        }
    }
}

/// Finds the last message of each agent in a history.
pub fn last_sightings(history: &Vec<ChatMessage>) -> (r: Vec<Sighting>)
    ensures
        views(r@) == sightings(views(history@)),
{
    let ghost all = views(history@);
    let mut out: Vec<Sighting> = Vec::new();
    let mut i: usize = history.len();
    assert(all.take(i as int) =~= all);
    assert(views(out@) =~= Seq::empty());
    while i > 0
        invariant
            i <= history.len(),
            all == views(history@),
            sightings(all) == seen_before(all.take(i as int), views(out@)),
        decreases i,
    {
        let m = &history[i - 1];
        proof {
            assert(all.take(i as int).drop_last() =~= all.take(i - 1));
            assert(all.take(i as int).last() == m@);
        }
        let known = exists_row(
            &out,
            |s: &Sighting| -> (b: bool)
                ensures
                    b == (s@.name == m@.agent_name)
                { *s.name.as_str() == *m.agent_name.as_str() },
            Ghost(seen_as(m@.agent_name)),
        );
        if !known {
            let ghost before = views(out@);
            out.push(Sighting { name: m.agent_name.clone(), seq: m.seq, at: m.timestamp });
            assert(views(out@) =~= before.push(
                SightingView { name: m@.agent_name, seq: m@.seq, at: m@.timestamp },
            ));
        }
        i = i - 1;
    }
    out
}

/// The number of the last message of a name, or a dash.
pub open spec fn last_number(seen: Seq<SightingView>, name: Seq<char>) -> Seq<char> {
    match first_match(seen, seen_as(name)) {
        Some(s) => if s.seq > 0 {
            "#"@ + decimal(s.seq as int)
        } else {
            "-"@
        },
        None => "-"@,
    }
}

fn show_last_number(seen: &Vec<Sighting>, name: &str) -> (r: String)
    ensures
        r@ == last_number(views(seen@), name@),
{
    let at = find(
        seen,
        |s: &Sighting| -> (b: bool)
            ensures
                b == (s@.name == name@)
            { *s.name.as_str() == *name },
        Ghost(seen_as(name@)),
    );
    match at {
        Some(i) => {
            if seen[i].seq > 0 {
                let mut out = "#".to_owned();
                push_i64(&mut out, seen[i].seq);
                out
            } else {
                "-".to_owned()
            }
        },
        None => "-".to_owned(),
    }
}

/// The line of a connected agent in the plain agent table.
pub open spec fn agent_line(a: AgentStatusView) -> Seq<char> {
    cell(a.agent_id, 38) + cell(a.name, 16) + cell(text_or(a.status, "-"@), 10) + cell(
        percent(a.progress),
        8,
    ) + cell(clock_or_dash(a.last_active), 10) + text_or(a.status_detail, ""@) + "\n"@
}

/// The line of a connected agent in the agent table of a room.
pub open spec fn live_line(a: AgentStatusView, seen: Seq<SightingView>) -> Seq<char> {
    cell("LIVE"@, 10) + cell(a.agent_id, 38) + cell(a.name, 16) + cell(text_or(a.status, "-"@), 10)
        + cell(percent(a.progress), 8) + cell(clock_or_dash(a.last_active), 10) + cell(
        last_number(seen, a.name),
        10,
    ) + text_or(a.status_detail, ""@) + "\n"@
}

/// The line of an agent that is no longer connected.
pub open spec fn recent_line(s: SightingView) -> Seq<char> {
    cell("RECENT"@, 10) + cell("-"@, 38) + cell(s.name, 16) + cell("-"@, 10) + cell(""@, 8) + cell(
        shown(s.at, CLOCK_FORMAT@),
        10,
    ) + cell("#"@ + decimal(s.seq as int), 10) + "(last seen via history)\n"@
}

/// The line of an agent in the agent table of the shell.
pub open spec fn shell_agent_line(a: AgentStatusView) -> Seq<char> {
    cell(a.agent_id, 38) + cell(a.name, 16) + cell(text_or(a.status, "-"@), 10) + cell(
        percent(a.progress),
        10,
    ) + text_or(a.status_detail, ""@) + "\n"@
}

/// The lines of connected agents: of a room where sightings are given.
pub open spec fn agent_lines(
    agents: Seq<AgentStatusView>,
    seen: Option<Seq<SightingView>>,
) -> Seq<char>
    decreases agents.len(),
{
    if agents.len() == 0 {
        Seq::empty()
    } else {
        agent_lines(agents.drop_last(), seen) + match seen {
            Some(seen) => live_line(agents.last(), seen),
            None => agent_line(agents.last()),
        }
    }
}

/// The agents of a name.
pub open spec fn agent_named(name: Seq<char>) -> spec_fn(AgentStatusView) -> bool {
    |a: AgentStatusView| a.name == name
}

/// The lines of agents that were seen and are not connected.
pub open spec fn recent_lines(
    seen: Seq<SightingView>,
    agents: Seq<AgentStatusView>,
) -> Seq<char>
    decreases seen.len(),
{
    if seen.len() == 0 {
        Seq::empty()
    } else {
        let front = recent_lines(seen.drop_last(), agents);
        if any(agents, agent_named(seen.last().name)) {
            front
        } else {
            front + recent_line(seen.last())
        }
    }
}

/// A table of agents: of a room, with those seen there, where sightings are
/// given.
pub open spec fn agent_table(
    agents: Seq<AgentStatusView>,
    seen: Option<Seq<SightingView>>,
) -> Seq<char> {
    if agents.len() == 0 && (seen matches Some(s) ==> s.len() == 0) {
        "No agents connected; no recent activity in room.\n"@
    } else {
        match seen {
            Some(s) => cell("STATE"@, 10) + cell("AGENT ID"@, 38) + cell("NAME"@, 16) + cell(
                "STATUS"@,
                10,
            ) + cell("PROG"@, 8) + cell("ACTIVE"@, 10) + cell("LAST_SEQ"@, 10) + "DETAIL\n"@
                + repeated('-', 130) + "\n"@ + agent_lines(agents, seen) + recent_lines(s, agents),
            None => cell("AGENT ID"@, 38) + cell("NAME"@, 16) + cell("STATUS"@, 10) + cell(
                "PROG"@,
                8,
            ) + cell("ACTIVE"@, 10) + "DETAIL\n"@ + repeated('-', 110) + "\n"@ + agent_lines(
                agents,
                seen,
            ),
        }
    }
}

/// What optional sightings stand for.
pub open spec fn seen_views(seen: Option<&Vec<Sighting>>) -> Option<Seq<SightingView>> {
    match seen {
        Some(s) => Some(views(s@)),
        None => None,
    }
}

fn push_agent_line(out: &mut String, a: &AgentStatus, seen: Option<&Vec<Sighting>>)
    ensures
        final(out)@ == old(out)@ + match seen_views(seen) {
            Some(s) => live_line(a@, s),
            None => agent_line(a@),
        },
{
    let status = or_text(&a.status, "-");
    let progress = show_percent(a.progress);
    let active = show_clock(a.last_active);
    let detail = or_text(&a.status_detail, "");
    let mut line = String::new();
    match seen {
        Some(_) => {
            push_cell(&mut line, "LIVE", 10);
            assert(line@ =~= cell("LIVE"@, 10));
            push_cell(&mut line, a.agent_id.as_str(), 38);
        },
        None => {
            push_cell(&mut line, a.agent_id.as_str(), 38);
            assert(line@ =~= cell(a.agent_id@, 38));
        },
    }
    push_cell(&mut line, a.name.as_str(), 16);
    push_cell(&mut line, status.as_str(), 10);
    push_cell(&mut line, progress.as_str(), 8);
    push_cell(&mut line, active.as_str(), 10);
    if let Some(s) = seen {
        let number = show_last_number(s, a.name.as_str());
        push_cell(&mut line, number.as_str(), 10);
    }
    line.append(detail.as_str());
    line.append("\n");
    out.append(line.as_str());
}

fn push_agent_lines(out: &mut String, agents: &Vec<AgentStatus>, seen: Option<&Vec<Sighting>>)
    ensures
        final(out)@ == old(out)@ + agent_lines(views(agents@), seen_views(seen)),
{
    let ghost head = out@;
    let ghost all = views(agents@);
    let ghost s = seen_views(seen);
    let mut i: usize = 0;
    assert(all.take(0) =~= Seq::empty());
    assert(head + agent_lines(all.take(0), s) =~= head);
    while i < agents.len()
        invariant
            i <= agents.len(),
            all == views(agents@),
            s == seen_views(seen),
            out@ == head + agent_lines(all.take(i as int), s),
        decreases agents.len() - i,
    {
        proof {
            assert(all.take(i + 1).drop_last() =~= all.take(i as int));
            assert(all.take(i + 1).last() == agents@[i as int]@);
        }
        push_agent_line(out, &agents[i], seen);
        i = i + 1;
        assert(out@ =~= head + agent_lines(all.take(i as int), s));
    }
    assert(all.take(i as int) =~= all);
}

fn push_recent_line(out: &mut String, s: &Sighting)
    ensures
        final(out)@ == old(out)@ + recent_line(s@),
{
    let at = show(s.at, CLOCK_FORMAT);
    let mut number = "#".to_owned();
    push_i64(&mut number, s.seq);
    let mut line = String::new();
    push_cell(&mut line, "RECENT", 10);
    assert(line@ =~= cell("RECENT"@, 10));
    push_cell(&mut line, "-", 38);
    push_cell(&mut line, s.name.as_str(), 16);
    push_cell(&mut line, "-", 10);
    push_cell(&mut line, "", 8);
    push_cell(&mut line, at.as_str(), 10);
    push_cell(&mut line, number.as_str(), 10);
    line.append("(last seen via history)\n");
    out.append(line.as_str());
}

fn push_recent_lines(out: &mut String, seen: &Vec<Sighting>, agents: &Vec<AgentStatus>)
    ensures
        final(out)@ == old(out)@ + recent_lines(views(seen@), views(agents@)),
{
    let ghost head = out@;
    let ghost all = views(seen@);
    let ghost live = views(agents@);
    let mut i: usize = 0;
    assert(all.take(0) =~= Seq::empty());
    assert(head + recent_lines(all.take(0), live) =~= head);
    while i < seen.len()
        invariant
            i <= seen.len(),
            all == views(seen@),
            live == views(agents@),
            out@ == head + recent_lines(all.take(i as int), live),
        decreases seen.len() - i,
    {
        let s = &seen[i];
        proof {
            assert(all.take(i + 1).drop_last() =~= all.take(i as int));
            assert(all.take(i + 1).last() == s@);
        }
        let connected = exists_row(
            agents,
            |a: &AgentStatus| -> (b: bool)
                ensures
                    b == (a@.name == s@.name)
                { *a.name.as_str() == *s.name.as_str() },
            Ghost(agent_named(s@.name)),
        );
        if !connected {
            push_recent_line(out, s);
        }
        i = i + 1;
        assert(out@ =~= head + recent_lines(all.take(i as int), live));
    }
    assert(all.take(i as int) =~= all);
}

/// Writes a table of agents: of a room, with those seen there, where sightings
/// are given.
pub fn render_agents(agents: &Vec<AgentStatus>, seen: Option<&Vec<Sighting>>) -> (r: String)
    ensures
        r@ == agent_table(views(agents@), seen_views(seen)),
{
    let nobody_seen = match seen {
        Some(s) => s.len() == 0,
        None => true,
    };
    if agents.len() == 0 && nobody_seen {
        return "No agents connected; no recent activity in room.\n".to_owned();
    }
    let mut out = String::new();
    match seen {
        Some(_) => {
            push_cell(&mut out, "STATE", 10);
            assert(out@ =~= cell("STATE"@, 10));
            push_cell(&mut out, "AGENT ID", 38);
        },
        None => {
            push_cell(&mut out, "AGENT ID", 38);
            assert(out@ =~= cell("AGENT ID"@, 38));
        },
    }
    push_cell(&mut out, "NAME", 16);
    push_cell(&mut out, "STATUS", 10);
    push_cell(&mut out, "PROG", 8);
    push_cell(&mut out, "ACTIVE", 10);
    match seen {
        Some(s) => {
            push_cell(&mut out, "LAST_SEQ", 10);
            out.append("DETAIL\n");
            push_repeated(&mut out, '-', 130);
            out.append("\n");
            push_agent_lines(&mut out, agents, seen);
            push_recent_lines(&mut out, s, agents);
        },
        None => {
            out.append("DETAIL\n");
            push_repeated(&mut out, '-', 110);
            out.append("\n");
            push_agent_lines(&mut out, agents, seen);
        },
    }
    out
}

fn show_shell_agent(a: &AgentStatus) -> (r: String)
    ensures
        r@ == shell_agent_line(a@),
{
    let status = or_text(&a.status, "-");
    let progress = show_percent(a.progress);
    let detail = or_text(&a.status_detail, "");
    let mut line = String::new();
    push_cell(&mut line, a.agent_id.as_str(), 38);
    assert(line@ =~= cell(a.agent_id@, 38));
    push_cell(&mut line, a.name.as_str(), 16);
    push_cell(&mut line, status.as_str(), 10);
    push_cell(&mut line, progress.as_str(), 10);
    line.append(detail.as_str());
    line.append("\n");
    line
}

/// The lines of the agent table of the shell.
pub open spec fn shell_agent_lines(agents: Seq<AgentStatusView>) -> Seq<char>
    decreases agents.len(),
{
    if agents.len() == 0 {
        Seq::empty()
    } else {
        shell_agent_lines(agents.drop_last()) + shell_agent_line(agents.last())
    }
}

/// The agent table of the shell.
pub open spec fn shell_agent_table(agents: Seq<AgentStatusView>) -> Seq<char> {
    if agents.len() == 0 {
        "No agents connected.\n"@
    } else {
        cell("AGENT ID"@, 38) + cell("NAME"@, 16) + cell("STATUS"@, 10) + cell("PROGRESS"@, 10)
            + "DETAIL\n"@ + repeated('-', 100) + "\n"@ + shell_agent_lines(agents)
    }
}

/// Writes the agent table of the shell.
pub fn render_shell_agents(agents: &Vec<AgentStatus>) -> (r: String)
    ensures
        r@ == shell_agent_table(views(agents@)),
{
    if agents.len() == 0 {
        return "No agents connected.\n".to_owned();
    }
    let ghost all = views(agents@);
    let mut out = String::new();
    push_cell(&mut out, "AGENT ID", 38);
    assert(out@ =~= cell("AGENT ID"@, 38));
    push_cell(&mut out, "NAME", 16);
    push_cell(&mut out, "STATUS", 10);
    push_cell(&mut out, "PROGRESS", 10);
    out.append("DETAIL\n");
    push_repeated(&mut out, '-', 100);
    out.append("\n");
    let ghost head = out@;
    let mut i: usize = 0;
    assert(all.take(0) =~= Seq::empty());
    assert(head + shell_agent_lines(all.take(0)) =~= head);
    while i < agents.len()
        invariant
            i <= agents.len(),
            all == views(agents@),
            out@ == head + shell_agent_lines(all.take(i as int)),
        decreases agents.len() - i,
    {
        proof {
            assert(all.take(i + 1).drop_last() =~= all.take(i as int));
            assert(all.take(i + 1).last() == agents@[i as int]@);
        }
        let line = show_shell_agent(&agents[i]);
        out.append(line.as_str());
        i = i + 1;
        assert(out@ =~= head + shell_agent_lines(all.take(i as int)));
    }
    assert(all.take(i as int) =~= all);
    out
}

/// The line that names an agent.
pub open spec fn name_line(a: AgentStatusView) -> Seq<char> {
    "  - "@ + a.name + " ("@ + a.agent_id + ")\n"@
}

fn show_agent_name(a: &AgentStatus) -> (r: String)
    ensures
        r@ == name_line(a@),
{
    let mut line = "  - ".to_owned();
    line.append(a.name.as_str());
    line.append(" (");
    line.append(a.agent_id.as_str());
    line.append(")\n");
    line
}

/// The lines that name agents.
pub open spec fn name_lines(agents: Seq<AgentStatusView>) -> Seq<char>
    decreases agents.len(),
{
    if agents.len() == 0 {
        Seq::empty()
    } else {
        name_lines(agents.drop_last()) + name_line(agents.last())
    }
}

/// How the server stands.
pub open spec fn status_notice(agents: Seq<AgentStatusView>, rooms: usize) -> Seq<char> {
    "ClawChat Server Status\n  Connected agents: "@ + decimal(agents.len() as int)
        + "\n  Active rooms: "@ + decimal(rooms as int) + "\n\n"@ + (if agents.len() == 0 {
        Seq::empty()
    } else {
        "Agents:\n"@ + name_lines(agents)
    })
}

/// Tells how the server stands.
pub fn render_status(agents: &Vec<AgentStatus>, rooms: usize) -> (r: String)
    ensures
        r@ == status_notice(views(agents@), rooms),
{
    let ghost all = views(agents@);
    let mut out = "ClawChat Server Status\n  Connected agents: ".to_owned();
    push_u64(&mut out, agents.len() as u64);
    out.append("\n  Active rooms: ");
    push_u64(&mut out, rooms as u64);
    out.append("\n\n");
    let ghost head = out@;
    if agents.len() == 0 {
        assert(head + Seq::<char>::empty() =~= head);
        return out;
    }
    let mut list = "Agents:\n".to_owned();
    let mut i: usize = 0;
    assert(all.take(0) =~= Seq::empty());
    assert("Agents:\n"@ + name_lines(all.take(0)) =~= "Agents:\n"@);
    while i < agents.len()
        invariant
            i <= agents.len(),
            all == views(agents@),
            list@ == "Agents:\n"@ + name_lines(all.take(i as int)),
        decreases agents.len() - i,
    {
        proof {
            assert(all.take(i + 1).drop_last() =~= all.take(i as int));
            assert(all.take(i + 1).last() == agents@[i as int]@);
        }
        let line = show_agent_name(&agents[i]);
        list.append(line.as_str());
        i = i + 1;
        assert(list@ =~= "Agents:\n"@ + name_lines(all.take(i as int)));
    }
    assert(all.take(i as int) =~= all);
    out.append(list.as_str());
    out
}

/// What is said of a presence that was set.
pub open spec fn presence_notice(
    status: Seq<char>,
    progress: Option<u8>,
    detail: Option<Seq<char>>,
) -> Seq<char> {
    "Presence set to: "@ + status + (match progress {
        Some(p) => " ("@ + decimal(p as int) + "%)"@,
        None => ""@,
    }) + (match detail {
        Some(d) => ": "@ + d,
        None => ""@,
    })
}

/// Tells of a presence that was set.
pub fn render_presence(status: &str, progress: Option<u8>, detail: Option<&str>) -> (r: String)
    ensures
        r@ == presence_notice(status@, progress, detail.deep_view()),
{
    let mut done = "".to_owned();
    if let Some(p) = progress {
        done = " (".to_owned();
        push_u64(&mut done, p as u64);
        done.append("%)");
    }
    let mut what = "".to_owned();
    if let Some(d) = detail {
        what = ": ".to_owned();
        what.append(d);
    }
    let mut out = "Presence set to: ".to_owned();
    out.append(status);
    out.append(done.as_str());
    out.append(what.as_str());
    out
}

// --- Subscriptions ---

/// A line of the subscription table.
pub open spec fn subscription_line(s: SubscriptionView) -> Seq<char> {
    cell(s.subscription_id, 38) + cell(s.room_id, 38) + cell(s.status, 10) + cell(
        decimal(s.failure_count as int),
        10,
    ) + "#"@ + cell(decimal(s.last_delivered_seq as int), 11) + s.webhook_url + "\n"@
}

/// The lines of the subscription table.
pub open spec fn subscription_lines(subs: Seq<SubscriptionView>) -> Seq<char>
    decreases subs.len(),
{
    if subs.len() == 0 {
        Seq::empty()
    } else {
        subscription_lines(subs.drop_last()) + subscription_line(subs.last())
    }
}

/// The table of subscriptions.
pub open spec fn subscription_table(subs: Seq<SubscriptionView>) -> Seq<char> {
    if subs.len() == 0 {
        "No subscriptions.\n"@
    } else {
        cell("ID"@, 38) + cell("ROOM"@, 38) + cell("STATUS"@, 10) + cell("FAILS"@, 10) + cell(
            "LAST_DELIV"@,
            12,
        ) + "URL\n"@ + repeated('-', 140) + "\n"@ + subscription_lines(subs)
    }
}

fn push_subscription_line(out: &mut String, s: &Subscription)
    ensures
        final(out)@ == old(out)@ + subscription_line(s@),
{
    let fails = i64_text(s.failure_count);
    let last = i64_text(s.last_delivered_seq);
    let mut line = String::new();
    push_cell(&mut line, s.subscription_id.as_str(), 38);
    assert(line@ =~= cell(s.subscription_id@, 38));
    push_cell(&mut line, s.room_id.as_str(), 38);
    push_cell(&mut line, s.status.as_str(), 10);
    push_cell(&mut line, fails.as_str(), 10);
    line.append("#");
    push_cell(&mut line, last.as_str(), 11);
    line.append(s.webhook_url.as_str());
    line.append("\n");
    out.append(line.as_str());
}

/// Writes the table of subscriptions.
pub fn render_subscriptions(subs: &Vec<Subscription>) -> (r: String)
    ensures
        r@ == subscription_table(views(subs@)),
{
    if subs.len() == 0 {
        return "No subscriptions.\n".to_owned();
    }
    let ghost all = views(subs@);
    let mut out = String::new();
    push_cell(&mut out, "ID", 38);
    assert(out@ =~= cell("ID"@, 38));
    push_cell(&mut out, "ROOM", 38);
    push_cell(&mut out, "STATUS", 10);
    push_cell(&mut out, "FAILS", 10);
    push_cell(&mut out, "LAST_DELIV", 12);
    out.append("URL\n");
    push_repeated(&mut out, '-', 140);
    out.append("\n");
    let ghost head = out@;
    let mut i: usize = 0;
    assert(all.take(0) =~= Seq::empty());
    assert(head + subscription_lines(all.take(0)) =~= head);
    while i < subs.len()
        invariant
            i <= subs.len(),
            all == views(subs@),
            out@ == head + subscription_lines(all.take(i as int)),
        decreases subs.len() - i,
    {
        proof {
            assert(all.take(i + 1).drop_last() =~= all.take(i as int));
            assert(all.take(i + 1).last() == subs@[i as int]@);
        }
        push_subscription_line(&mut out, &subs[i]);
        i = i + 1;
        assert(out@ =~= head + subscription_lines(all.take(i as int)));
    }
    assert(all.take(i as int) =~= all);
    out
}

// --- Votes ---

/// The line of an option with its position.
pub open spec fn option_line(position: int, option: Seq<char>) -> Seq<char> {
    "    ["@ + decimal(position) + "] "@ + option + "\n"@
}

fn show_option(position: usize, option: &str) -> (r: String)
    ensures
        r@ == option_line(position as int, option@),
{
    let mut line = "    [".to_owned();
    push_u64(&mut line, position as u64);
    line.append("] ");
    line.append(option);
    line.append("\n");
    line
}

/// The lines of options with their positions.
pub open spec fn option_lines(options: Seq<Seq<char>>) -> Seq<char>
    decreases options.len(),
{
    if options.len() == 0 {
        Seq::empty()
    } else {
        option_lines(options.drop_last()) + option_line(options.len() - 1, options.last())
    }
}

fn push_options(out: &mut String, options: &Vec<String>)
    ensures
        final(out)@ == old(out)@ + option_lines(options.deep_view()),
{
    let ghost head = out@;
    let ghost all = options.deep_view();
    let mut i: usize = 0;
    assert(all.take(0) =~= Seq::empty());
    assert(head + option_lines(all.take(0)) =~= head);
    while i < options.len()
        invariant
            i <= options.len(),
            all == options.deep_view(),
            out@ == head + option_lines(all.take(i as int)),
        decreases options.len() - i,
    {
        proof {
            assert(all.take(i + 1).drop_last() =~= all.take(i as int));
            assert(all.take(i + 1).last() == options@[i as int]@);
        }
        let line = show_option(i, options[i].as_str());
        out.append(line.as_str());
        i = i + 1;
        assert(out@ =~= head + option_lines(all.take(i as int)));
    }
    assert(all.take(i as int) =~= all);
}

/// What is said of a vote that was created.
pub open spec fn vote_notice(v: VoteInfoView) -> Seq<char> {
    "Vote created: "@ + v.title + " ("@ + v.vote_id + ")\n  Room: "@ + v.room_id + "\n  Options:\n"@
        + option_lines(v.options) + (match v.closes_at {
        Some(t) => "  Closes at: "@ + shown(t, CLOCK_FORMAT@) + "\n"@,
        None => "  Closes when all "@ + decimal(v.eligible_voters as int) + " members vote\n"@,
    })
}

/// Tells of a vote that was created.
pub fn render_vote_created(v: &VoteInfo) -> (r: String)
    ensures
        r@ == vote_notice(v@),
{
    let mut out = "Vote created: ".to_owned();
    out.append(v.title.as_str());
    out.append(" (");
    out.append(v.vote_id.as_str());
    out.append(")\n  Room: ");
    out.append(v.room_id.as_str());
    out.append("\n  Options:\n");
    push_options(&mut out, &v.options);
    let end = match v.closes_at {
        Some(t) => {
            let clock = show(t, CLOCK_FORMAT);
            let mut end = "  Closes at: ".to_owned();
            end.append(clock.as_str());
            end.append("\n");
            end
        },
        None => {
            let mut end = "  Closes when all ".to_owned();
            push_u64(&mut end, v.eligible_voters as u64);
            end.append(" members vote\n");
            end
        },
    };
    out.append(end.as_str());
    out
}

/// The name of a status.
pub open spec fn status_named(s: VoteStatus) -> Seq<char> {
    match s {
        VoteStatus::Open => "Open"@,
        VoteStatus::Closed => "Closed"@,
    }
}

fn status_name(s: VoteStatus) -> (r: &'static str)
    ensures
        r@ == status_named(s),
{
    match s {
        VoteStatus::Open => "Open",
        VoteStatus::Closed => "Closed",
    }
}

/// The line of an option in a tally.
pub open spec fn tally_line(row: VoteTally) -> Seq<char> {
    "    ["@ + decimal(row.option_index as int) + "] "@ + row.option_text@ + ": "@ + decimal(
        row.count as int,
    ) + "\n"@
}

fn show_tally_row(row: &VoteTally) -> (r: String)
    ensures
        r@ == tally_line(*row),
{
    let mut line = "    [".to_owned();
    push_u64(&mut line, row.option_index as u64);
    line.append("] ");
    line.append(row.option_text.as_str());
    line.append(": ");
    push_u64(&mut line, row.count as u64);
    line.append("\n");
    line
}

/// The lines of a tally.
pub open spec fn tally_lines(tally: Seq<VoteTally>) -> Seq<char>
    decreases tally.len(),
{
    if tally.len() == 0 {
        Seq::empty()
    } else {
        tally_lines(tally.drop_last()) + tally_line(tally.last())
    }
}

fn push_tally(out: &mut String, tally: &Vec<VoteTally>)
    ensures
        final(out)@ == old(out)@ + tally_lines(tally@),
{
    let ghost head = out@;
    let mut i: usize = 0;
    assert(tally@.take(0) =~= Seq::empty());
    assert(head + tally_lines(tally@.take(0)) =~= head);
    while i < tally.len()
        invariant
            i <= tally.len(),
            out@ == head + tally_lines(tally@.take(i as int)),
        decreases tally.len() - i,
    {
        proof {
            assert(tally@.take(i + 1).drop_last() =~= tally@.take(i as int));
        }
        let line = show_tally_row(&tally[i]);
        out.append(line.as_str());
        i = i + 1;
        assert(out@ =~= head + tally_lines(tally@.take(i as int)));
    }
    assert(tally@.take(i as int) =~= tally@);
}

/// How a vote stands, with its tally where there is one.
pub open spec fn vote_status_notice(v: VoteInfoView, tally: Option<Seq<VoteTally>>) -> Seq<char> {
    "Vote: "@ + v.title + " ("@ + v.vote_id + ")\n  Status: "@ + status_named(v.status)
        + "\n  Votes cast: "@ + decimal(v.votes_cast as int) + "/"@ + decimal(
        v.eligible_voters as int,
    ) + "\n"@ + (match v.closes_at {
        Some(t) => "  Closes at: "@ + shown(t, FULL_FORMAT@) + "\n"@,
        None => ""@,
    }) + "  Options:\n"@ + option_lines(v.options) + (match tally {
        Some(t) => "  Tally:\n"@ + tally_lines(t),
        None => ""@,
    })
}

/// Tells how a vote stands.
pub fn render_vote_status(v: &VoteInfo, tally: Option<&Vec<VoteTally>>) -> (r: String)
    ensures
        r@ == vote_status_notice(
            v@,
            match tally {
                Some(t) => Some(t@),
                None => None,
            },
        ),
{
    let closing = match v.closes_at {
        Some(t) => {
            let at = show(t, FULL_FORMAT);
            let mut text = "  Closes at: ".to_owned();
            text.append(at.as_str());
            text.append("\n");
            text
        },
        None => "".to_owned(),
    };
    let counted = match tally {
        Some(t) => {
            let mut text = "  Tally:\n".to_owned();
            push_tally(&mut text, t);
            text
        },
        None => "".to_owned(),
    };
    let mut out = "Vote: ".to_owned();
    out.append(v.title.as_str());
    out.append(" (");
    out.append(v.vote_id.as_str());
    out.append(")\n  Status: ");
    out.append(status_name(v.status));
    out.append("\n  Votes cast: ");
    push_u64(&mut out, v.votes_cast as u64);
    out.append("/");
    push_u64(&mut out, v.eligible_voters as u64);
    out.append("\n");
    out.append(closing.as_str());
    out.append("  Options:\n");
    push_options(&mut out, &v.options);
    out.append(counted.as_str());
    out
}

/// The line of a vote in a list.
pub open spec fn vote_line(v: VoteInfoView) -> Seq<char> {
    "- "@ + v.title + " ("@ + v.vote_id + ") "@ + status_named(v.status) + " "@ + decimal(
        v.votes_cast as int,
    ) + "/"@ + decimal(v.eligible_voters as int) + "\n"@
}

fn show_vote(v: &VoteInfo) -> (r: String)
    ensures
        r@ == vote_line(v@),
{
    let mut line = "- ".to_owned();
    line.append(v.title.as_str());
    line.append(" (");
    line.append(v.vote_id.as_str());
    line.append(") ");
    line.append(status_name(v.status));
    line.append(" ");
    push_u64(&mut line, v.votes_cast as u64);
    line.append("/");
    push_u64(&mut line, v.eligible_voters as u64);
    line.append("\n");
    line
}

/// The lines of a list of votes.
pub open spec fn vote_lines(votes: Seq<VoteInfoView>) -> Seq<char>
    decreases votes.len(),
{
    if votes.len() == 0 {
        Seq::empty()
    } else {
        vote_lines(votes.drop_last()) + vote_line(votes.last())
    }
}

/// A list of the votes of a room.
pub open spec fn vote_list(room_id: Seq<char>, votes: Seq<VoteInfoView>) -> Seq<char> {
    if votes.len() == 0 {
        "No votes found for room "@ + room_id + "\n"@
    } else {
        "Votes for room "@ + room_id + ":\n"@ + vote_lines(votes)
    }
}

/// Lists the votes of a room.
pub fn render_votes(room_id: &str, votes: &Vec<VoteInfo>) -> (r: String)
    ensures
        r@ == vote_list(room_id@, views(votes@)),
{
    if votes.len() == 0 {
        let mut none = "No votes found for room ".to_owned();
        none.append(room_id);
        none.append("\n");
        return none;
    }
    let ghost all = views(votes@);
    let mut out = "Votes for room ".to_owned();
    out.append(room_id);
    out.append(":\n");
    let ghost head = out@;
    let mut i: usize = 0;
    assert(all.take(0) =~= Seq::empty());
    assert(head + vote_lines(all.take(0)) =~= head);
    while i < votes.len()
        invariant
            i <= votes.len(),
            all == views(votes@),
            out@ == head + vote_lines(all.take(i as int)),
        decreases votes.len() - i,
    {
        proof {
            assert(all.take(i + 1).drop_last() =~= all.take(i as int));
            assert(all.take(i + 1).last() == votes@[i as int]@);
        }
        let line = show_vote(&votes[i]);
        out.append(line.as_str());
        i = i + 1;
        assert(out@ =~= head + vote_lines(all.take(i as int)));
    }
    assert(all.take(i as int) =~= all);
    out
}

/// Tells of a ballot that was cast, by the reply of the server. A count that it
/// does not hold is zero.
pub fn render_ballot_reply(reply: &str) -> (r: String)
    ensures
        r@ == ballot_notice(
            json_number_at(reply@, "/votes_cast"@),
            json_number_at(reply@, "/eligible_voters"@),
        ),
{
    render_ballot(number_at(reply, "/votes_cast"), number_at(reply, "/eligible_voters"))
}

/// What is said of a ballot that was cast; a count that is not known is zero.
pub open spec fn ballot_notice(votes_cast: Option<u64>, eligible: Option<u64>) -> Seq<char> {
    "Ballot cast ("@ + decimal(
        match votes_cast {
            Some(n) => n as int,
            None => 0,
        },
    ) + "/"@ + decimal(
        match eligible {
            Some(n) => n as int,
            None => 0,
        },
    ) + " votes in)"@
}

/// Tells of a ballot that was cast.
pub fn render_ballot(votes_cast: Option<u64>, eligible: Option<u64>) -> (r: String)
    ensures
        r@ == ballot_notice(votes_cast, eligible),
{
    let cast: u64 = match votes_cast {
        Some(n) => n,
        None => 0,
    };
    let all: u64 = match eligible {
        Some(n) => n,
        None => 0,
    };
    let mut out = "Ballot cast (".to_owned();
    push_u64(&mut out, cast);
    out.append("/");
    push_u64(&mut out, all);
    out.append(" votes in)");
    out
}

// --- What the calls do ---

/// A column of a table: the text, filled up with spaces to a width, and a space.
pub open spec fn column(s: Seq<char>, width: int) -> Seq<char> {
    if s.len() < width {
        s + Seq::new((width - s.len()) as nat, |i: int| ' ') + " "@
    } else {
        s + " "@
    }
}

/// A ruler of dashes.
pub open spec fn ruler(width: int) -> Seq<char> {
    Seq::new(width as nat, |i: int| '-')
}

proof fn lemma_columns()
    ensures
        forall|s: Seq<char>, width: int| #[trigger] cell(s, width) == column(s, width),
        forall|width: int| #[trigger] repeated('-', width) == ruler(width),
{
    assert forall|s: Seq<char>, width: int| #[trigger] cell(s, width) == column(s, width) by {
        if s.len() < width {
            assert(repeated(' ', width - s.len()) =~= Seq::new(
                (width - s.len()) as nat,
                |i: int| ' ',
            ));
        }
    }
    assert forall|width: int| #[trigger] repeated('-', width) == ruler(width) by {
        assert(repeated('-', width) =~= ruler(width));
    }
}

proof fn lemma_short_rooms(list: Seq<RoomView>)
    ensures
        room_lines(list, false)
            == list.map_values(|room: RoomView| column(room.room_id, 38) + column(room.name, 20)
            + column((if room.ephemeral { "ephemeral"@ } else { "permanent"@ }), 10)
                    + (match room.description { Some(t) => t, None => ""@ }) + "\n"@).flatten(),
{
    lemma_columns();
    let line = |room: RoomView| column(room.room_id, 38) + column(room.name, 20)
        + column((if room.ephemeral { "ephemeral"@ } else { "permanent"@ }), 10)
                    + (match room.description { Some(t) => t, None => ""@ }) + "\n"@;
    let written = |l: Seq<RoomView>| room_lines(l, false);
    assert forall|list: Seq<RoomView>| #[trigger] written(list) == (if list.len() == 0 {
        Seq::empty()
    } else {
        written(list.drop_last()) + line(list.last())
    }) by {
        if list.len() > 0 {
            assert(short_room_line(list.last()) == line(list.last()));
        }
    }
    lemma_joined(list, line, written);
}

proof fn lemma_long_rooms(list: Seq<RoomView>)
    ensures
        room_lines(list, true)
            == list.map_values(|room: RoomView| column(room.room_id, 38) + column(room.name, 20)
            + column((if room.ephemeral { "ephemeral"@ } else { "permanent"@ }), 10)
            + column((match room.member_count { Some(n) => decimal(n as int), None => "-"@ }), 8)
            + column((match room.last_activity { Some(t) => shown(t, CLOCK_FORMAT@),
            None => "-"@ }), 20) + (match room.description { Some(t) => t, None => ""@ })
            + "\n"@).flatten(),
{
    lemma_columns();
    let line = |room: RoomView| column(room.room_id, 38) + column(room.name, 20)
        + column((if room.ephemeral { "ephemeral"@ } else { "permanent"@ }), 10)
        + column((match room.member_count { Some(n) => decimal(n as int), None => "-"@ }), 8)
        + column((match room.last_activity { Some(t) => shown(t, CLOCK_FORMAT@), None => "-"@ }),
        20) + (match room.description { Some(t) => t, None => ""@ }) + "\n"@;
    let written = |l: Seq<RoomView>| room_lines(l, true);
    assert forall|list: Seq<RoomView>| #[trigger] written(list) == (if list.len() == 0 {
        Seq::empty()
    } else {
        written(list.drop_last()) + line(list.last())
    }) by {
        if list.len() > 0 {
            assert(long_room_line(list.last()) == line(list.last()));
        }
    }
    lemma_joined(list, line, written);
}

/// Whether sightings are the last messages of the agents that spoke from the
/// message `n` on: the sighting at `k` is of the message at `at[k]`, the latest
/// first, no later message is of the same agent, and every agent has one.
pub open spec fn last_seen(
    history: Seq<ChatMessageView>,
    n: int,
    at: Seq<int>,
    seen: Seq<SightingView>,
) -> bool {
    &&& at.len() == seen.len()
    &&& forall|k: int|
        0 <= k < at.len() ==> n <= #[trigger] at[k] < history.len() && seen[k].name
            == history[at[k]].agent_name && seen[k].seq == history[at[k]].seq && seen[k].at
            == history[at[k]].timestamp
    &&& forall|k: int, j: int|
        0 <= k < at.len() && #[trigger] at[k] < j < history.len() ==> (
        #[trigger] history[j]).agent_name != seen[k].name
    &&& forall|a: int, b: int| 0 <= a < b < at.len() ==> #[trigger] at[a] > #[trigger] at[b]
    &&& forall|j: int|
        n <= j < history.len() ==> sighted(seen, (#[trigger] history[j]).agent_name)
}

/// Whether an agent is among the sightings.
pub open spec fn sighted(seen: Seq<SightingView>, name: Seq<char>) -> bool {
    exists|k: int| 0 <= k < seen.len() && (#[trigger] seen[k]).name == name
}

proof fn lemma_last_seen(
    history: Seq<ChatMessageView>,
    n: int,
    at: Seq<int>,
    seen: Seq<SightingView>,
)
    requires
        0 <= n <= history.len(),
        last_seen(history, n, at, seen),
    ensures
        exists|now_at: Seq<int>| #[trigger]
            last_seen(history, 0, now_at, seen_before(history.take(n), seen)),
    decreases n,
{
    if n > 0 {
        let m = history[n - 1];
        assert(history.take(n).drop_last() =~= history.take(n - 1));
        assert(history.take(n).last() == m);
        if any(seen, seen_as(m.agent_name)) {
            assert(sighted(seen, m.agent_name));
            assert(last_seen(history, n - 1, at, seen));
            lemma_last_seen(history, n - 1, at, seen);
            assert(seen_before(history.take(n), seen) == seen_before(history.take(n - 1), seen));
        } else {
            let mine = SightingView { name: m.agent_name, seq: m.seq, at: m.timestamp };
            let more = seen.push(mine);
            let now_at = at.push(n - 1);
            assert forall|j: int| n <= j < history.len() implies (
            #[trigger] history[j]).agent_name != m.agent_name by {
                assert(sighted(seen, history[j].agent_name));
                let k = choose|k: int|
                    0 <= k < seen.len() && (#[trigger] seen[k]).name == history[j].agent_name;
                assert(seen_as(m.agent_name)(seen[k]) == (seen[k].name == m.agent_name));
            }
            assert forall|j: int| n - 1 <= j < history.len() implies sighted(
                more,
                (#[trigger] history[j]).agent_name,
            ) by {
                if j == n - 1 {
                    assert(more[seen.len() as int].name == m.agent_name);
                } else {
                    let k = choose|k: int|
                        0 <= k < seen.len() && (#[trigger] seen[k]).name == history[j].agent_name;
                    assert(more[k] == seen[k]);
                }
            }
            assert forall|k: int| 0 <= k < now_at.len() implies n - 1 <= #[trigger] now_at[k]
                < history.len() && more[k].name == history[now_at[k]].agent_name && more[k].seq
                == history[now_at[k]].seq && more[k].at == history[now_at[k]].timestamp by {
                if k < at.len() {
                    assert(now_at[k] == at[k]);
                    assert(more[k] == seen[k]);
                }
            }
            assert forall|k: int, j: int|
                0 <= k < now_at.len() && #[trigger] now_at[k] < j < history.len() implies (
            #[trigger] history[j]).agent_name != more[k].name by {
                if k < at.len() {
                    assert(now_at[k] == at[k]);
                    assert(more[k] == seen[k]);
                }
            }
            assert forall|a: int, b: int| 0 <= a < b < now_at.len() implies #[trigger] now_at[a]
                > #[trigger] now_at[b] by {
                assert(now_at[a] == at[a]);
                if b < at.len() {
                    assert(now_at[b] == at[b]);
                }
            }
            assert(last_seen(history, n - 1, now_at, more));
            lemma_last_seen(history, n - 1, now_at, more);
            assert(seen_before(history.take(n), seen) == seen_before(history.take(n - 1), more));
        }
    } else {
        assert(history.take(0) =~= Seq::empty());
        assert(last_seen(history, 0, at, seen_before(history.take(n), seen)));
    }
}

proof fn lemma_agents(list: Seq<AgentStatusView>)
    ensures
        agent_lines(list, None)
            == list.map_values(|a: AgentStatusView| column(a.agent_id, 38) + column(a.name, 16)
            + column((match a.status { Some(t) => t, None => "-"@ }), 10)
            + column((match a.progress { Some(p) => decimal(p as int) + "%"@, None => ""@ }), 8)
            + column((match a.last_active { Some(t) => shown(t, CLOCK_FORMAT@), None => "-"@ }), 10)
            + (match a.status_detail { Some(t) => t, None => ""@ }) + "\n"@).flatten(),
{
    lemma_columns();
    let line = |a: AgentStatusView| column(a.agent_id, 38) + column(a.name, 16)
        + column((match a.status { Some(t) => t, None => "-"@ }), 10)
        + column((match a.progress { Some(p) => decimal(p as int) + "%"@, None => ""@ }), 8)
        + column((match a.last_active { Some(t) => shown(t, CLOCK_FORMAT@), None => "-"@ }), 10)
        + (match a.status_detail { Some(t) => t, None => ""@ }) + "\n"@;
    let written = |l: Seq<AgentStatusView>| agent_lines(l, None);
    assert forall|list: Seq<AgentStatusView>| #[trigger] written(list) == (if list.len() == 0 {
        Seq::empty()
    } else {
        written(list.drop_last()) + line(list.last())
    }) by {
        if list.len() > 0 {
            assert(agent_line(list.last()) == line(list.last()));
        }
    }
    lemma_joined(list, line, written);
}

proof fn lemma_shell_agents(list: Seq<AgentStatusView>)
    ensures
        shell_agent_lines(list)
            == list.map_values(|a: AgentStatusView| column(a.agent_id, 38) + column(a.name, 16)
            + column((match a.status { Some(t) => t, None => "-"@ }), 10)
            + column((match a.progress { Some(p) => decimal(p as int) + "%"@, None => ""@ }), 10)
            + (match a.status_detail { Some(t) => t, None => ""@ }) + "\n"@).flatten(),
{
    lemma_columns();
    let line = |a: AgentStatusView| column(a.agent_id, 38) + column(a.name, 16)
        + column((match a.status { Some(t) => t, None => "-"@ }), 10)
        + column((match a.progress { Some(p) => decimal(p as int) + "%"@, None => ""@ }), 10)
        + (match a.status_detail { Some(t) => t, None => ""@ }) + "\n"@;
    let written = |l: Seq<AgentStatusView>| shell_agent_lines(l);
    assert forall|list: Seq<AgentStatusView>| #[trigger] written(list) == (if list.len() == 0 {
        Seq::empty()
    } else {
        written(list.drop_last()) + line(list.last())
    }) by {
        if list.len() > 0 {
            assert(shell_agent_line(list.last()) == line(list.last()));
        }
    }
    lemma_joined(list, line, written);
}

proof fn lemma_names(list: Seq<AgentStatusView>)
    ensures
        name_lines(list)
            == list.map_values(|a: AgentStatusView| "  - "@ + a.name + " ("@ + a.agent_id
            + ")\n"@).flatten(),
{
    lemma_columns();
    let line = |a: AgentStatusView| "  - "@ + a.name + " ("@ + a.agent_id + ")\n"@;
    let written = |l: Seq<AgentStatusView>| name_lines(l);
    assert forall|list: Seq<AgentStatusView>| #[trigger] written(list) == (if list.len() == 0 {
        Seq::empty()
    } else {
        written(list.drop_last()) + line(list.last())
    }) by {
        if list.len() > 0 {
            assert(name_line(list.last()) == line(list.last()));
        }
    }
    lemma_joined(list, line, written);
}

/// The number of the message that an agent was seen with first in a list, where
/// it has one; a dash otherwise.
pub open spec fn number_of(seen: Seq<SightingView>, name: Seq<char>) -> Seq<char> {
    if exists|k: int| #[trigger] seen_first(seen, name, k) && seen[k].seq > 0 {
        "#"@ + decimal(
            seen[choose|k: int| #[trigger] seen_first(seen, name, k) && seen[k].seq > 0].seq as int,
        )
    } else {
        "-"@
    }
}

/// Whether a sighting is the first one of an agent.
pub open spec fn seen_first(seen: Seq<SightingView>, name: Seq<char>, k: int) -> bool {
    0 <= k < seen.len() && seen[k].name == name && forall|j: int|
        0 <= j < k ==> (#[trigger] seen[j]).name != name
}

proof fn lemma_number_of(seen: Seq<SightingView>, name: Seq<char>)
    ensures
        last_number(seen, name) == number_of(seen, name),
{
    let wanted = seen_as(name);
    lemma_first_match(seen, wanted);
    if exists|k: int| #[trigger] seen_first(seen, name, k) {
        let k = choose|k: int| #[trigger] seen_first(seen, name, k);
        lemma_found_at(seen, wanted, k);
        assert forall|l: int| #[trigger] seen_first(seen, name, l) implies l == k by {}
    } else {
        if any(seen, wanted) {
            lemma_some_is_first(seen, name, seen.len() as int);
        }
    }
}

proof fn lemma_some_is_first(seen: Seq<SightingView>, name: Seq<char>, n: int)
    requires
        0 <= n <= seen.len(),
        exists|i: int| 0 <= i < n && (#[trigger] seen[i]).name == name,
    ensures
        exists|k: int| #[trigger] seen_first(seen, name, k),
    decreases n,
{
    let i = choose|i: int| 0 <= i < n && (#[trigger] seen[i]).name == name;
    if exists|j: int| 0 <= j < i && (#[trigger] seen[j]).name == name {
        lemma_some_is_first(seen, name, i);
    } else {
        assert(seen_first(seen, name, i));
    }
}

proof fn lemma_live(agents: Seq<AgentStatusView>, seen: Seq<SightingView>)
    ensures
        agent_lines(agents, Some(seen))
            == agents.map_values(|a: AgentStatusView| column("LIVE"@, 10) + column(a.agent_id, 38)
            + column(a.name, 16) + column((match a.status { Some(t) => t, None => "-"@ }), 10)
            + column((match a.progress { Some(p) => decimal(p as int) + "%"@, None => ""@ }), 8)
            + column((match a.last_active { Some(t) => shown(t, CLOCK_FORMAT@), None => "-"@ }), 10)
            + column(number_of(seen, a.name), 10)
            + (match a.status_detail { Some(t) => t, None => ""@ }) + "\n"@).flatten(),
{
    lemma_columns();
    let line = |a: AgentStatusView| column("LIVE"@, 10) + column(a.agent_id, 38)
        + column(a.name, 16) + column((match a.status { Some(t) => t, None => "-"@ }), 10)
        + column((match a.progress { Some(p) => decimal(p as int) + "%"@, None => ""@ }), 8)
        + column((match a.last_active { Some(t) => shown(t, CLOCK_FORMAT@), None => "-"@ }), 10)
        + column(number_of(seen, a.name), 10)
        + (match a.status_detail { Some(t) => t, None => ""@ }) + "\n"@;
    let written = |l: Seq<AgentStatusView>| agent_lines(l, Some(seen));
    assert forall|list: Seq<AgentStatusView>| #[trigger] written(list) == (if list.len() == 0 {
        Seq::empty()
    } else {
        written(list.drop_last()) + line(list.last())
    }) by {
        if list.len() > 0 {
            lemma_number_of(seen, list.last().name);
            assert(live_line(list.last(), seen) == line(list.last()));
        }
    }
    lemma_joined(agents, line, written);
}

proof fn lemma_recent(seen: Seq<SightingView>, agents: Seq<AgentStatusView>)
    ensures
        recent_lines(seen, agents) == seen.filter(
            |t: SightingView|
                forall|i: int| 0 <= i < agents.len() ==> (#[trigger] agents[i]).name != t.name,
        ).map_values(|t: SightingView| column("RECENT"@, 10) + column("-"@, 38) + column(t.name, 16)
            + column("-"@, 10) + column(""@, 8) + column(shown(t.at, CLOCK_FORMAT@), 10)
            + column("#"@ + decimal(t.seq as int), 10) + "(last seen via history)\n"@).flatten(),
    decreases seen.len(),
{
    lemma_columns();
    reveal(Seq::filter);
    let gone = |t: SightingView|
        forall|i: int| 0 <= i < agents.len() ==> (#[trigger] agents[i]).name != t.name;
    let line = |t: SightingView| column("RECENT"@, 10) + column("-"@, 38) + column(t.name, 16)
        + column("-"@, 10) + column(""@, 8) + column(shown(t.at, CLOCK_FORMAT@), 10)
        + column("#"@ + decimal(t.seq as int), 10) + "(last seen via history)\n"@;
    let lines = seen.filter(gone).map_values(line);
    lines.lemma_flatten_and_flatten_alt_are_equivalent();
    if seen.len() > 0 {
        let front = seen.drop_last();
        let last = seen.last();
        lemma_recent(front, agents);
        let part = front.filter(gone).map_values(line);
        part.lemma_flatten_and_flatten_alt_are_equivalent();
        assert(any(agents, agent_named(last.name)) <==> !gone(last));
        if gone(last) {
            assert(seen.filter(gone) == front.filter(gone).push(last));
            assert(lines.drop_last() =~= part);
            assert(lines.last() == line(last));
            assert(recent_line(last) == line(last));
        }
    }
}

proof fn lemma_subscriptions(list: Seq<SubscriptionView>)
    ensures
        subscription_lines(list)
            == list.map_values(|t: SubscriptionView|
            column(t.subscription_id, 38) + column(t.room_id, 38) + column(t.status, 10)
            + column(decimal(t.failure_count as int), 10) + "#"@
            + column(decimal(t.last_delivered_seq as int), 11) + t.webhook_url + "\n"@).flatten(),
{
    lemma_columns();
    let line = |t: SubscriptionView| column(t.subscription_id, 38) + column(t.room_id, 38)
        + column(t.status, 10) + column(decimal(t.failure_count as int), 10) + "#"@
        + column(decimal(t.last_delivered_seq as int), 11) + t.webhook_url + "\n"@;
    let written = |l: Seq<SubscriptionView>| subscription_lines(l);
    assert forall|list: Seq<SubscriptionView>| #[trigger] written(list) == (if list.len() == 0 {
        Seq::empty()
    } else {
        written(list.drop_last()) + line(list.last())
    }) by {
        if list.len() > 0 {
            assert(subscription_line(list.last()) == line(list.last()));
        }
    }
    lemma_joined(list, line, written);
}

/// The lines of options, each with its position.
pub open spec fn numbered_options(options: Seq<Seq<char>>) -> Seq<char> {
    Seq::new(
        options.len(),
        |i: int| "    ["@ + decimal(i) + "] "@ + options[i] + "\n"@,
    ).flatten()
}

proof fn lemma_options(options: Seq<Seq<char>>)
    ensures
        option_lines(options) == numbered_options(options),
    decreases options.len(),
{
    let lines = Seq::new(
        options.len(),
        |i: int| "    ["@ + decimal(i) + "] "@ + options[i] + "\n"@,
    );
    lines.lemma_flatten_and_flatten_alt_are_equivalent();
    if options.len() > 0 {
        let front = options.drop_last();
        lemma_options(front);
        let part = Seq::new(
            front.len(),
            |i: int| "    ["@ + decimal(i) + "] "@ + front[i] + "\n"@,
        );
        part.lemma_flatten_and_flatten_alt_are_equivalent();
        assert(lines.drop_last() =~= part);
        assert(lines.last() == option_line(options.len() - 1, options.last()));
    }
}

proof fn lemma_tally(list: Seq<VoteTally>)
    ensures
        tally_lines(list)
            == list.map_values(|t: VoteTally| "    ["@ + decimal(t.option_index as int) + "] "@
            + t.option_text@ + ": "@ + decimal(t.count as int) + "\n"@).flatten(),
{
    lemma_columns();
    let line = |t: VoteTally| "    ["@ + decimal(t.option_index as int) + "] "@ + t.option_text@
        + ": "@ + decimal(t.count as int) + "\n"@;
    let written = |l: Seq<VoteTally>| tally_lines(l);
    assert forall|list: Seq<VoteTally>| #[trigger] written(list) == (if list.len() == 0 {
        Seq::empty()
    } else {
        written(list.drop_last()) + line(list.last())
    }) by {
        if list.len() > 0 {
            assert(tally_line(list.last()) == line(list.last()));
        }
    }
    lemma_joined(list, line, written);
}

proof fn lemma_votes(list: Seq<VoteInfoView>)
    ensures
        vote_lines(list)
            == list.map_values(|v: VoteInfoView| "- "@ + v.title + " ("@ + v.vote_id + ") "@
            + (if v.status == VoteStatus::Open { "Open"@ } else { "Closed"@ }) + " "@
            + decimal(v.votes_cast as int) + "/"@ + decimal(v.eligible_voters as int)
            + "\n"@).flatten(),
{
    lemma_columns();
    let line = |v: VoteInfoView| "- "@ + v.title + " ("@ + v.vote_id + ") "@
        + (if v.status == VoteStatus::Open { "Open"@ } else { "Closed"@ }) + " "@
        + decimal(v.votes_cast as int) + "/"@ + decimal(v.eligible_voters as int) + "\n"@;
    let written = |l: Seq<VoteInfoView>| vote_lines(l);
    assert forall|list: Seq<VoteInfoView>| #[trigger] written(list) == (if list.len() == 0 {
        Seq::empty()
    } else {
        written(list.drop_last()) + line(list.last())
    }) by {
        if list.len() > 0 {
            assert(vote_line(list.last()) == line(list.last()));
        }
    }
    lemma_joined(list, line, written);
}

/// A table of rooms has a line for each room, in their order, with its id, its name, its
/// type and its description; the long one also how many are in it and when something
/// happened there last.
pub proof fn rooms_are_shown_line_by_line(
    rooms: &Vec<Room>,
    short: String,
    long: String,
)
    requires
        call_ensures(render_rooms, (rooms, false), short),
        call_ensures(render_rooms, (rooms, true), long),
    ensures
        rooms@.len() == 0 ==> short@ == "No rooms found.\n"@ && long@ == "No rooms found.\n"@,
        rooms@.len() > 0 ==> short@ == column("ID"@, 38) + column("NAME"@, 20) + column("TYPE"@, 10)
            + "DESCRIPTION\n"@ + ruler(80) + "\n"@ + views(rooms@).map_values(
            |room: RoomView| column(room.room_id, 38) + column(room.name, 20)
                + column((if room.ephemeral { "ephemeral"@ } else { "permanent"@ }), 10)
                    + (match room.description { Some(t) => t, None => ""@ }) + "\n"@,
        ).flatten(),
        rooms@.len() > 0 ==> long@ == column("ID"@, 38) + column("NAME"@, 20) + column("TYPE"@, 10)
            + column("MEMBERS"@, 8) + column("LAST ACTIVITY"@, 20) + "DESCRIPTION\n"@ + ruler(130)
            + "\n"@ + views(rooms@).map_values(
            |room: RoomView| column(room.room_id, 38) + column(room.name, 20)
                + column((if room.ephemeral { "ephemeral"@ } else { "permanent"@ }), 10)
                + column(
                    (match room.member_count { Some(n) => decimal(n as int), None => "-"@ }),
                    8,
                ) + column(
                    (match room.last_activity {
                        Some(t) => shown(t, CLOCK_FORMAT@),
                        None => "-"@,
                    }),
                    20,
                ) + (match room.description { Some(t) => t, None => ""@ }) + "\n"@,
        ).flatten(),
{
    lemma_columns();
    lemma_short_rooms(views(rooms@));
    lemma_long_rooms(views(rooms@));
}

/// A room that was created is told by its name and its id, whether it is ephemeral, who can
/// find it, and what its encryption asks for.
pub proof fn a_created_room_is_told(
    room: &Room,
    has_secret: bool,
    r: String,
)
    requires
        call_ensures(render_created, (room, has_secret), r),
    ensures
        r@ == "Created room: "@ + room@.name + " ("@ + room@.room_id + ")\n"@
            + (if room@.ephemeral {
            "  Type: ephemeral (auto-deleted when empty)\n"@
        } else {
            ""@
        }) + "  Visibility: "@ + (if room@.visibility == "public"@ {
            "public (any key can find & join)"@
        } else {
            "private (only your key)"@
        }) + "\n"@ + (if room@.encrypted {
            "  End-to-end encrypted: members need a shared room key\n"@
        } else {
            ""@
        }) + (if room@.encrypted && !has_secret {
            "  Note: no room key set — pass --room-key or set $CLAWCHAT_ROOM_KEY to send/read here\n"@
        } else {
            ""@
        }),
{
}

/// The sightings of a history are the last messages of its agents, one for each agent, the
/// latest first.
pub proof fn each_agent_is_last_seen_once(
    history: &Vec<ChatMessage>,
    r: Vec<Sighting>,
)
    requires
        call_ensures(last_sightings, (history,), r),
    ensures
        exists|at: Seq<int>| #[trigger] last_seen(views(history@), 0, at, views(r@)),
{
    let all = views(history@);
    assert(all.take(all.len() as int) =~= all);
    assert(last_seen(all, all.len() as int, Seq::empty(), Seq::empty()));
    lemma_last_seen(all, all.len() as int, Seq::empty(), Seq::empty());
}

/// A table of agents has a line for each agent, in their order, with its id, its name, its
/// status, its progress, when it was active last and what it does.
pub proof fn agents_are_shown_line_by_line(
    agents: &Vec<AgentStatus>,
    r: String,
    shell: String,
)
    requires
        call_ensures(render_agents, (agents, None), r),
        call_ensures(render_shell_agents, (agents,), shell),
    ensures
        agents@.len() == 0 ==> r@ == "No agents connected; no recent activity in room.\n"@ && shell@
            == "No agents connected.\n"@,
        agents@.len() > 0 ==> r@ == column("AGENT ID"@, 38) + column("NAME"@, 16) + column(
            "STATUS"@,
            10,
        ) + column("PROG"@, 8) + column("ACTIVE"@, 10) + "DETAIL\n"@ + ruler(110) + "\n"@ + views(
            agents@,
        ).map_values(|a: AgentStatusView| column(a.agent_id, 38) + column(a.name, 16)
            + column((match a.status { Some(t) => t, None => "-"@ }), 10)
            + column((match a.progress { Some(p) => decimal(p as int) + "%"@, None => ""@ }), 8)
            + column((match a.last_active { Some(t) => shown(t, CLOCK_FORMAT@), None => "-"@ }), 10)
            + (match a.status_detail { Some(t) => t, None => ""@ }) + "\n"@).flatten(),
        agents@.len() > 0 ==> shell@ == column("AGENT ID"@, 38) + column("NAME"@, 16) + column(
            "STATUS"@,
            10,
        ) + column("PROGRESS"@, 10) + "DETAIL\n"@ + ruler(100) + "\n"@ + views(agents@).map_values(
            |a: AgentStatusView| column(a.agent_id, 38) + column(a.name, 16)
                + column((match a.status { Some(t) => t, None => "-"@ }), 10)
                + column(
                    (match a.progress { Some(p) => decimal(p as int) + "%"@, None => ""@ }),
                    10,
                ) + (match a.status_detail { Some(t) => t, None => ""@ }) + "\n"@,
        ).flatten(),
{
    lemma_columns();
    lemma_agents(views(agents@));
    lemma_shell_agents(views(agents@));
    assert(seen_views(None) is None);
}

/// In a room, the agents that are connected come first, each with the number of its last
/// message there; then come those that were seen there and are not connected any more.
pub proof fn agents_of_a_room_are_shown_with_those_seen(
    agents: &Vec<AgentStatus>,
    sightings: &Vec<Sighting>,
    r: String,
)
    requires
        call_ensures(render_agents, (agents, Some(sightings)), r),
    ensures
        agents@.len() == 0 && sightings@.len() == 0 ==> r@
            == "No agents connected; no recent activity in room.\n"@,
        agents@.len() > 0 || sightings@.len() > 0 ==> ({
            let seen = views(sightings@);
            let all = views(agents@);
            r@ == column("STATE"@, 10) + column("AGENT ID"@, 38) + column("NAME"@, 16) + column(
                "STATUS"@,
                10,
            ) + column("PROG"@, 8) + column("ACTIVE"@, 10) + column("LAST_SEQ"@, 10) + "DETAIL\n"@
                + ruler(130) + "\n"@
                    + all.map_values(|a: AgentStatusView|
                    column("LIVE"@, 10) + column(a.agent_id, 38) + column(a.name, 16)
                    + column((match a.status { Some(t) => t, None => "-"@ }), 10)
                    + column(
                        (match a.progress { Some(p) => decimal(p as int) + "%"@, None => ""@ }),
                        8,
                    ) + column(
                        (match a.last_active {
                            Some(t) => shown(t, CLOCK_FORMAT@),
                            None => "-"@,
                        }),
                        10,
                    ) + column(number_of(seen, a.name), 10)
                    + (match a.status_detail { Some(t) => t, None => ""@ }) + "\n"@).flatten()
                + seen.filter(
                |t: SightingView|
                    forall|i: int| 0 <= i < all.len() ==> (#[trigger] all[i]).name != t.name,
            ).map_values(|t: SightingView| column("RECENT"@, 10) + column("-"@, 38)
                + column(t.name, 16) + column("-"@, 10) + column(""@, 8)
                + column(shown(t.at, CLOCK_FORMAT@), 10) + column("#"@ + decimal(t.seq as int), 10)
                + "(last seen via history)\n"@).flatten()
        }),
{
    lemma_columns();
    lemma_live(views(agents@), views(sightings@));
    lemma_recent(views(sightings@), views(agents@));
}

/// The status of the server counts the agents and the rooms, and names every agent.
pub proof fn the_status_names_every_agent(
    agents: &Vec<AgentStatus>,
    rooms: usize,
    r: String,
)
    requires
        call_ensures(render_status, (agents, rooms), r),
    ensures
        r@ == "ClawChat Server Status\n  Connected agents: "@ + decimal(agents@.len() as int)
            + "\n  Active rooms: "@ + decimal(rooms as int) + "\n\n"@ + (if agents@.len() == 0 {
            Seq::empty()
        } else {
            "Agents:\n"@
                + views(agents@).map_values(|a: AgentStatusView|
                "  - "@ + a.name + " ("@ + a.agent_id + ")\n"@).flatten()
        }),
{
    lemma_names(views(agents@));
}

/// A presence is told with its status, and with its progress and its detail where they are
/// given.
pub proof fn a_presence_is_told_as_it_was_set(
    status: &str,
    progress: Option<u8>,
    detail: Option<&str>,
    r: String,
)
    requires
        call_ensures(render_presence, (status, progress, detail), r),
    ensures
        r@ == "Presence set to: "@ + status@ + (match progress {
            Some(p) => " ("@ + decimal(p as int) + "%)"@,
            None => ""@,
        }) + (match detail {
            Some(d) => ": "@ + d@,
            None => ""@,
        }),
{
}

/// A table of subscriptions has a line for each of them, in their order, with its id, its
/// room, its status, its failures, its cursor and its address.
pub proof fn subscriptions_are_shown_line_by_line(
    subs: &Vec<Subscription>,
    r: String,
)
    requires
        call_ensures(render_subscriptions, (subs,), r),
    ensures
        subs@.len() == 0 ==> r@ == "No subscriptions.\n"@,
        subs@.len() > 0 ==> r@ == column("ID"@, 38) + column("ROOM"@, 38) + column("STATUS"@, 10)
            + column("FAILS"@, 10) + column("LAST_DELIV"@, 12) + "URL\n"@ + ruler(140) + "\n"@
            + views(subs@).map_values(|t: SubscriptionView|
                column(t.subscription_id, 38) + column(t.room_id, 38) + column(t.status, 10)
                + column(decimal(t.failure_count as int), 10) + "#"@
                + column(decimal(t.last_delivered_seq as int), 11) + t.webhook_url
                + "\n"@).flatten(),
{
    lemma_columns();
    lemma_subscriptions(views(subs@));
}

/// A vote that was created is told with its title, its id, its room, its options and when it
/// closes.
pub proof fn a_created_vote_is_told(
    v: &VoteInfo,
    r: String,
)
    requires
        call_ensures(render_vote_created, (v,), r),
    ensures
        r@ == "Vote created: "@ + v@.title + " ("@ + v@.vote_id + ")\n  Room: "@ + v@.room_id
            + "\n  Options:\n"@ + numbered_options(v@.options) + (match v@.closes_at {
            Some(t) => "  Closes at: "@ + shown(t, CLOCK_FORMAT@) + "\n"@,
            None => "  Closes when all "@ + decimal(v@.eligible_voters as int)
                + " members vote\n"@,
        }),
{
    lemma_options(v@.options);
}

/// How a vote stands is told with its title, its id, its status, how many voted of how many,
/// when it closes, its options, and the tally where there is one.
pub proof fn the_standing_of_a_vote_is_told(
    v: &VoteInfo,
    tally: &Vec<VoteTally>,
    sealed: String,
    counted: String,
)
    requires
        call_ensures(render_vote_status, (v, None), sealed),
        call_ensures(render_vote_status, (v, Some(tally)), counted),
    ensures
        sealed@ == "Vote: "@ + v@.title + " ("@ + v@.vote_id + ")\n  Status: "@ + (if v@.status
            == VoteStatus::Open {
            "Open"@
        } else {
            "Closed"@
        }) + "\n  Votes cast: "@ + decimal(v@.votes_cast as int) + "/"@ + decimal(
            v@.eligible_voters as int,
        ) + "\n"@ + (match v@.closes_at {
            Some(t) => "  Closes at: "@ + shown(t, FULL_FORMAT@) + "\n"@,
            None => ""@,
        }) + "  Options:\n"@ + numbered_options(v@.options) + ""@,
        counted@ == sealed@
            + ("  Tally:\n"@
            + tally@.map_values(|t: VoteTally| "    ["@ + decimal(t.option_index as int) + "] "@
            + t.option_text@ + ": "@ + decimal(t.count as int) + "\n"@).flatten()),
{
    lemma_options(v@.options);
    lemma_tally(tally@);
    reveal_strlit("");
    assert(counted@ =~= sealed@ + ("  Tally:\n"@ + tally_lines(tally@)));
}

/// The votes of a room are listed line by line, each with its title, its id, its status and
/// how many voted of how many.
pub proof fn votes_are_shown_line_by_line(
    room_id: &str,
    votes: &Vec<VoteInfo>,
    r: String,
)
    requires
        call_ensures(render_votes, (room_id, votes), r),
    ensures
        votes@.len() == 0 ==> r@ == "No votes found for room "@ + room_id@ + "\n"@,
        votes@.len() > 0 ==> r@ == "Votes for room "@ + room_id@ + ":\n"@
            + views(votes@).map_values(
            |v: VoteInfoView| "- "@ + v.title + " ("@ + v.vote_id + ") "@
                + (if v.status == VoteStatus::Open { "Open"@ } else { "Closed"@ }) + " "@
                + decimal(v.votes_cast as int) + "/"@ + decimal(v.eligible_voters as int) + "\n"@,
        ).flatten(),
{
    lemma_votes(views(votes@));
}

/// A ballot that was cast is told with the counts of the reply; what it does not hold is
/// zero.
pub proof fn a_cast_ballot_is_told_with_its_counts(
    cast: Option<u64>,
    eligible: Option<u64>,
    r: String,
    reply: &str,
    q: String,
)
    requires
        call_ensures(render_ballot, (cast, eligible), r),
        call_ensures(render_ballot_reply, (reply,), q),
    ensures
        r@ == "Ballot cast ("@ + decimal(match cast {
            Some(n) => n as int,
            None => 0,
        }) + "/"@ + decimal(match eligible {
            Some(n) => n as int,
            None => 0,
        }) + " votes in)"@,
        cast == json_number_at(reply@, "/votes_cast"@) && eligible == json_number_at(
            reply@,
            "/eligible_voters"@,
        ) ==> q@ == r@,
{
}

} // verus!
