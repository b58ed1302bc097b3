//! The interactive shell: reading commands and following the active room.

use vstd::prelude::*;
use vstd::string::*;
use crate::text::{
    chars_of, decimal, integers_are_read_back, join3, join5, lemma_decimal_shape, parse_u32,
    text_of, trim, trimmed, u32_value,
};

verus! {

/// How many messages `/history` shows where it names no number.
pub const SHELL_HISTORY: u32 = 20;

/// What the shell says about its commands.
pub const SHELL_HELP: &'static str = "Interactive shell commands:\n  /help                 Show this help\n  /join <room>          Join room (id or exact name) and make it active\n  /leave [room]         Leave active room (or explicit room)\n  /room                 Show current active room\n  /rooms                List rooms\n  /agents               List agents in active room\n  /history [limit]      Show room history (default 20)\n  /send <message>       Send message to active room\n  /quit                 Exit shell\n  <text>                Shortcut for /send <text>";

/// The prompt in a room.
pub fn print_shell_prompt(current_room: Option<&str>) -> (r: String)
    ensures
        r@ == "clawchat["@ + (match current_room {
            Some(room) => room@,
            None => "no-room"@,
        }) + "]> "@,
{
    match current_room {
        Some(room) => join3("clawchat[", room, "]> "),
        None => join3("clawchat[", "no-room", "]> "),
    }
}

/// A line of the user.
#[derive(Debug)]
pub enum ShellLine {
    Empty,
    Help,
    /// Join a room; the text is empty where none is named.
    Join(String),
    /// Leave a room; the text is empty where none is named.
    Leave(String),
    Room,
    Rooms,
    Agents,
    /// Show the history; the text is empty where no number is named.
    History(String),
    /// Send a message; the text is empty where there is none.
    Send(String),
    Quit,
    Unknown(String),
    /// Plain text.
    Say(String),
}

/// What a `ShellLine` stands for.
#[verifier::ext_equal]
pub enum ShellLineView {
    Empty,
    Help,
    Join(Seq<char>),
    Leave(Seq<char>),
    Room,
    Rooms,
    Agents,
    History(Seq<char>),
    Send(Seq<char>),
    Quit,
    Unknown(Seq<char>),
    Say(Seq<char>),
}

impl View for ShellLine {
    type V = ShellLineView;

    open spec fn view(&self) -> ShellLineView {
        match self {
            ShellLine::Empty => ShellLineView::Empty,
            ShellLine::Help => ShellLineView::Help,
            ShellLine::Join(s) => ShellLineView::Join(s@),
            ShellLine::Leave(s) => ShellLineView::Leave(s@),
            ShellLine::Room => ShellLineView::Room,
            ShellLine::Rooms => ShellLineView::Rooms,
            ShellLine::Agents => ShellLineView::Agents,
            ShellLine::History(s) => ShellLineView::History(s@),
            ShellLine::Send(s) => ShellLineView::Send(s@),
            ShellLine::Quit => ShellLineView::Quit,
            ShellLine::Unknown(s) => ShellLineView::Unknown(s@),
            ShellLine::Say(s) => ShellLineView::Say(s@),
        }
    }
}

/// The characters up to the first space, and those behind it; nothing is behind
/// where there is no space.
pub open spec fn split_word(s: Seq<char>) -> (Seq<char>, Seq<char>)
    decreases s.len(),
{
    if s.len() == 0 {
        (s, Seq::empty())
    } else if s[0] == ' ' {
        (Seq::empty(), s.drop_first())
    } else {
        let (word, rest) = split_word(s.drop_first());
        (seq![s[0]] + word, rest)
    }
}

/// What a command with its argument stands for.
pub open spec fn command_line(cmd: Seq<char>, rest: Seq<char>) -> ShellLineView {
    if cmd == "help"@ {
        ShellLineView::Help
    } else if cmd == "join"@ {
        ShellLineView::Join(rest)
    } else if cmd == "leave"@ {
        ShellLineView::Leave(rest)
    } else if cmd == "room"@ {
        ShellLineView::Room
    } else if cmd == "rooms"@ {
        ShellLineView::Rooms
    } else if cmd == "agents"@ {
        ShellLineView::Agents
    } else if cmd == "history"@ {
        ShellLineView::History(rest)
    } else if cmd == "send"@ {
        ShellLineView::Send(rest)
    } else if cmd == "quit"@ || cmd == "exit"@ {
        ShellLineView::Quit
    } else {
        ShellLineView::Unknown(cmd)
    }
}

/// What a line stands for: a command behind a slash, or plain text.
pub open spec fn line_read(line: Seq<char>) -> ShellLineView {
    let input = trimmed(line);
    if input.len() == 0 {
        ShellLineView::Empty
    } else if input[0] == '/' {
        let (cmd, rest) = split_word(input.drop_first());
        command_line(trimmed(cmd), trimmed(rest))
    } else {
        ShellLineView::Say(input)
    }
}

proof fn lemma_split_word(s: Seq<char>, k: int)
    requires
        0 <= k <= s.len(),
        forall|j: int| 0 <= j < k ==> s[j] != ' ',
        k < s.len() ==> s[k] == ' ',
    ensures
        split_word(s) == (s.take(k), if k < s.len() {
            s.skip(k + 1)
        } else {
            Seq::empty()
        }),
    decreases k,
{
    if s.len() == 0 {
        assert(s.take(k) =~= s);
    } else if k == 0 {
        assert(s.take(0) =~= Seq::empty());
        assert(s.skip(1) =~= s.drop_first());
    } else {
        let tail = s.drop_first();
        assert forall|j: int| 0 <= j < k - 1 implies tail[j] != ' ' by {
            assert(s[j + 1] != ' ');
        }
        lemma_split_word(tail, k - 1);
        assert(seq![s[0]] + tail.take(k - 1) =~= s.take(k));
        if k < s.len() {
            assert(tail.skip(k) =~= s.skip(k + 1));
        }
    }
}

fn read_command(cmd: &str, rest: String) -> (r: ShellLine)
    ensures
        r@ == command_line(cmd@, rest@),
{
    if *cmd == *"help" {
        ShellLine::Help
    } else if *cmd == *"join" {
        ShellLine::Join(rest)
    } else if *cmd == *"leave" {
        ShellLine::Leave(rest)
    } else if *cmd == *"room" {
        ShellLine::Room
    } else if *cmd == *"rooms" {
        ShellLine::Rooms
    } else if *cmd == *"agents" {
        ShellLine::Agents
    } else if *cmd == *"history" {
        ShellLine::History(rest)
    } else if *cmd == *"send" {
        ShellLine::Send(rest)
    } else if *cmd == *"quit" || *cmd == *"exit" {
        ShellLine::Quit
    } else {
        ShellLine::Unknown(cmd.to_owned())
    }
}

/// Reads a line of the user.
pub fn read_line(line: &str) -> (r: ShellLine)
    ensures
        r@ == line_read(line@),
{
    let input = trim(line);
    let chars = chars_of(input.as_str());
    if chars.len() == 0 {
        return ShellLine::Empty;
    }
    if chars[0] != '/' {
        return ShellLine::Say(input);
    }
    let ghost body = input@.drop_first();
    let mut k: usize = 1;
    while k < chars.len() && chars[k] != ' '
        invariant
            1 <= k <= chars.len(),
            chars@ == input@,
            body == input@.drop_first(),
            forall|j: int| 0 <= j < k - 1 ==> body[j] != ' ',
        decreases chars.len() - k,
    {
        assert(body[k - 1] == chars@[k as int]);
        k = k + 1;
    }
    proof {
        if k < chars.len() {
            assert(body[k - 1] == chars@[k as int]);
        }
        lemma_split_word(body, k - 1);
        assert(chars@.subrange(1, k as int) =~= body.take(k - 1));
    }
    let word = text_of(&chars, 1, k);
    let behind = if k < chars.len() {
        proof {
            assert(chars@.subrange(k + 1, chars.len() as int) =~= body.skip(k as int));
        }
        text_of(&chars, k + 1, chars.len())
    } else {
        let none = String::new();
        assert(none@ =~= Seq::empty());
        none
    };
    let cmd = trim(word.as_str());
    let rest = trim(behind.as_str());
    read_command(cmd.as_str(), rest)
}

/// What the shell does for a line.
#[derive(Debug)]
pub enum ShellAction {
    Nothing,
    /// Show a text.
    Print(String),
    /// Find a room, then join it.
    Join(String),
    /// Find a room, then leave it.
    LeaveNamed(String),
    /// Leave the active room.
    LeaveActive(String),
    ListRooms,
    /// List the agents, in a room where one is active.
    ListAgents(Option<String>),
    History { room_id: String, limit: u32 },
    Send { room_id: String, text: String },
    Quit,
}

/// What a `ShellAction` stands for.
#[verifier::ext_equal]
pub enum ShellActionView {
    Nothing,
    Print(Seq<char>),
    Join(Seq<char>),
    LeaveNamed(Seq<char>),
    LeaveActive(Seq<char>),
    ListRooms,
    ListAgents(Option<Seq<char>>),
    History { room_id: Seq<char>, limit: u32 },
    Send { room_id: Seq<char>, text: Seq<char> },
    Quit,
}

impl View for ShellAction {
    type V = ShellActionView;

    open spec fn view(&self) -> ShellActionView {
        match self {
            ShellAction::Nothing => ShellActionView::Nothing,
            ShellAction::Print(s) => ShellActionView::Print(s@),
            ShellAction::Join(s) => ShellActionView::Join(s@),
            ShellAction::LeaveNamed(s) => ShellActionView::LeaveNamed(s@),
            ShellAction::LeaveActive(s) => ShellActionView::LeaveActive(s@),
            ShellAction::ListRooms => ShellActionView::ListRooms,
            ShellAction::ListAgents(s) => ShellActionView::ListAgents(s.deep_view()),
            ShellAction::History { room_id, limit } => ShellActionView::History {
                room_id: room_id@,
                limit: *limit,
            },
            ShellAction::Send { room_id, text } => ShellActionView::Send {
                room_id: room_id@,
                text: text@,
            },
            ShellAction::Quit => ShellActionView::Quit,
        }
    }
}

/// What sending a text leads to: it needs an active room.
pub open spec fn sending(active: Option<Seq<char>>, text: Seq<char>) -> ShellActionView {
    match active {
        Some(room_id) => ShellActionView::Send { room_id, text },
        None => ShellActionView::Print("No active room. Use /join <room> first."@),
    }
}

/// What the shell does for a line, in the active room.
pub open spec fn reaction(active: Option<Seq<char>>, line: ShellLineView) -> ShellActionView {
    match line {
        ShellLineView::Empty => ShellActionView::Nothing,
        ShellLineView::Help => ShellActionView::Print(SHELL_HELP@),
        ShellLineView::Join(room) => if room.len() == 0 {
            ShellActionView::Print("Usage: /join <room-id-or-name>"@)
        } else {
            ShellActionView::Join(room)
        },
        ShellLineView::Leave(room) => if room.len() > 0 {
            ShellActionView::LeaveNamed(room)
        } else {
            match active {
                Some(room_id) => ShellActionView::LeaveActive(room_id),
                None => ShellActionView::Print("No active room to leave."@),
            }
        },
        ShellLineView::Room => match active {
            Some(room_id) => ShellActionView::Print("Active room: "@ + room_id),
            None => ShellActionView::Print("No active room. Use /join <room> first."@),
        },
        ShellLineView::Rooms => ShellActionView::ListRooms,
        ShellLineView::Agents => ShellActionView::ListAgents(active),
        ShellLineView::History(number) => {
            let limit = if number.len() == 0 {
                Some(SHELL_HISTORY)
            } else {
                u32_value(number)
            };
            match (limit, active) {
                (None, _) => ShellActionView::Print("Usage: /history [limit]"@),
                (Some(_), None) => ShellActionView::Print(
                    "No active room. Use /join <room> first."@,
                ),
                (Some(limit), Some(room_id)) => ShellActionView::History { room_id, limit },
            }
        },
        ShellLineView::Send(text) => if text.len() == 0 {
            ShellActionView::Print("Usage: /send <message>"@)
        } else {
            sending(active, text)
        },
        ShellLineView::Quit => ShellActionView::Quit,
        ShellLineView::Unknown(cmd) => ShellActionView::Print(
            "Unknown command: /"@ + cmd + " (try /help)"@,
        ),
        ShellLineView::Say(text) => sending(active, text),
    }
}

fn copy_room(active: Option<&str>) -> (r: Option<String>)
    ensures
        r.deep_view() == active.deep_view(),
{
    match active {
        Some(room) => Some(room.to_owned()),
        None => None,
    }
}

fn send_text(active: Option<&str>, text: String) -> (r: ShellAction)
    ensures
        r@ == sending(active.deep_view(), text@),
{
    match active {
        Some(room_id) => ShellAction::Send { room_id: room_id.to_owned(), text },
        None => ShellAction::Print("No active room. Use /join <room> first.".to_owned()),
    }
}

fn is_empty(s: &String) -> (r: bool)
    ensures
        r == (s@.len() == 0),
{
    proof {
        reveal_strlit("");
        assert(s@.len() == 0 ==> s@ =~= ""@);
    }
    *s.as_str() == *""
}

/// Decides what the shell does for a line, in the active room.
pub fn react(active: Option<&str>, line: ShellLine) -> (r: ShellAction)
    ensures
        r@ == reaction(active.deep_view(), line@),
{
    match line {
        ShellLine::Empty => ShellAction::Nothing,
        ShellLine::Help => ShellAction::Print(SHELL_HELP.to_owned()),
        ShellLine::Join(room) => {
            if is_empty(&room) {
                ShellAction::Print("Usage: /join <room-id-or-name>".to_owned())
            } else {
                ShellAction::Join(room)
            }
        },
        ShellLine::Leave(room) => {
            if !is_empty(&room) {
                return ShellAction::LeaveNamed(room);
            }
            match active {
                Some(room_id) => ShellAction::LeaveActive(room_id.to_owned()),
                None => ShellAction::Print("No active room to leave.".to_owned()),
            }
        },
        ShellLine::Room => match active {
            Some(room_id) => {
                let mut out = "Active room: ".to_owned();
                out.append(room_id);
                ShellAction::Print(out)
            },
            None => ShellAction::Print("No active room. Use /join <room> first.".to_owned()),
        },
        ShellLine::Rooms => ShellAction::ListRooms,
        ShellLine::Agents => ShellAction::ListAgents(copy_room(active)),
        ShellLine::History(number) => {
            let limit = if is_empty(&number) {
                Some(SHELL_HISTORY)
            } else {
                parse_u32(number.as_str())
            };
            match (limit, active) {
                (None, _) => ShellAction::Print("Usage: /history [limit]".to_owned()),
                (Some(_), None) => ShellAction::Print(
                    "No active room. Use /join <room> first.".to_owned(),
                ),
                (Some(limit), Some(room_id)) => ShellAction::History {
                    room_id: room_id.to_owned(),
                    limit,
                },
            }
        },
        ShellLine::Send(text) => {
            if is_empty(&text) {
                ShellAction::Print("Usage: /send <message>".to_owned())
            } else {
                send_text(active, text)
            }
        },
        ShellLine::Quit => ShellAction::Quit,
        ShellLine::Unknown(cmd) => ShellAction::Print(
            join3("Unknown command: /", cmd.as_str(), " (try /help)"),
        ),
        ShellLine::Say(text) => send_text(active, text),
    }
}

/// What an attempt to join a room says, and the active room afterwards.
pub fn after_join(
    active: Option<&str>,
    attempt: Result<String, String>,
) -> (r: (String, Option<String>))
    ensures
        match attempt {
            Ok(room_id) => r.0@ == "Joined room: "@ + room_id@ && r.1.deep_view() == Some(room_id@),
            Err(e) => r.0@ == "Join failed: "@ + e@ && r.1.deep_view() == active.deep_view(),
        },
{
    match attempt {
        Ok(room_id) => {
            let mut out = "Joined room: ".to_owned();
            out.append(room_id.as_str());
            (out, Some(room_id))
        },
        Err(e) => {
            let mut out = "Join failed: ".to_owned();
            out.append(e.as_str());
            (out, copy_room(active))
        },
    }
}

/// What an attempt to leave a room says, and the active room afterwards: none
/// where that was the one.
pub fn after_leave(
    active: Option<&str>,
    room_id: &str,
    failure: Option<&str>,
) -> (r: (String, Option<String>))
    ensures
        match failure {
            None => r.0@ == "Left room: "@ + room_id@ && r.1.deep_view()
                == if active.deep_view() == Some(room_id@) {
                None::<Seq<char>>
            } else {
                active.deep_view()
            },
            Some(e) => r.0@ == "Leave failed: "@ + e@ && r.1.deep_view() == active.deep_view(),
        },
{
    match failure {
        None => {
            let mut out = "Left room: ".to_owned();
            out.append(room_id);
            let was_active = match active {
                Some(room) => *room == *room_id,
                None => false,
            };
            if was_active {
                (out, None)
            } else {
                (out, copy_room(active))
            }
        },
        Some(e) => {
            let mut out = "Leave failed: ".to_owned();
            out.append(e);
            (out, copy_room(active))
        },
    }
}

/// What a failed search for a room to leave says: the failure, and that there is
/// no room to leave.
pub fn leave_search_failed(why: &str) -> (r: String)
    ensures
        r@ == "Leave failed: "@ + why@ + "\nNo active room to leave."@,
{
    join3("Leave failed: ", why, "\nNo active room to leave.")
}

/// Who is connected.
pub fn greeting(name: &str, agent_id: &str) -> (r: String)
    ensures
        r@ == "Connected as '"@ + name@ + "' (agent_id: "@ + agent_id@ + ")"@,
{
    join5("Connected as '", name, "' (agent_id: ", agent_id, ")")
}

/// What the shell sends, and the history it shows, belongs to the active room.
pub proof fn the_shell_keeps_to_the_active_room(active: Option<Seq<char>>, line: Seq<char>)
    ensures
        reaction(active, line_read(line)) matches ShellActionView::Send { room_id, .. } ==> active
            == Some(room_id),
        reaction(active, line_read(line)) matches ShellActionView::History { room_id, .. }
            ==> active == Some(room_id),
        reaction(active, line_read(line)) matches ShellActionView::LeaveActive(room_id) ==> active
            == Some(room_id),
{
}

// --- What the calls do ---

/// Text without a slash in front, and the argument of `/send`, go to the active room and
/// nowhere else; without one nothing is sent.
pub proof fn the_shell_sends_what_is_said(
    active: Option<&str>,
    line: ShellLine,
    r: ShellAction,
)
    requires
        call_ensures(react, (active, line), r),
    ensures
        r@ matches ShellActionView::Send { room_id, text } ==> active.deep_view() == Some(room_id)
            && (
        line@ == ShellLineView::Say(text) ||
            (line@ == ShellLineView::Send(text) && text.len() > 0)),
        line@ matches ShellLineView::Say(text) ==> (active matches Some(room) ==> r@ == (
        ShellActionView::Send { room_id: room@, text })),
        line@ matches ShellLineView::Send(text) ==> (active matches Some(room) ==> text.len() > 0
            ==> r@ == (ShellActionView::Send { room_id: room@, text })),
        line@ is Say && active is None ==> r@ == ShellActionView::Print(
            "No active room. Use /join <room> first."@,
        ),
        line@ matches ShellLineView::Send(text) ==> (text.len() > 0 && active is None ==> r@
            == ShellActionView::Print("No active room. Use /join <room> first."@)),
        line@ matches ShellLineView::Send(text) ==> (text.len() == 0 ==> r@
            == ShellActionView::Print("Usage: /send <message>"@)),
{
}

/// Joining and leaving name the room of the line; leaving without a name means the active
/// room.
pub proof fn the_shell_joins_and_leaves_the_named_room(
    active: Option<&str>,
    line: ShellLine,
    r: ShellAction,
)
    requires
        call_ensures(react, (active, line), r),
    ensures
        line@ matches ShellLineView::Join(room) ==> (room.len() > 0 ==> r@ == ShellActionView::Join(
            room,
        )),
        line@ matches ShellLineView::Join(room) ==> (room.len() == 0 ==> r@
            == ShellActionView::Print("Usage: /join <room-id-or-name>"@)),
        line@ matches ShellLineView::Leave(room) ==> (room.len() > 0 ==> r@
            == ShellActionView::LeaveNamed(room)),
        line@ matches ShellLineView::Leave(room) ==> (active matches Some(id) ==> room.len() == 0
            ==> r@ == ShellActionView::LeaveActive(id@)),
        line@ matches ShellLineView::Leave(room) ==> (room.len() == 0 && active is None ==> r@
            == ShellActionView::Print("No active room to leave."@)),
        r@ is Join ==> line@ is Join,
        r@ is LeaveNamed || r@ is LeaveActive ==> line@ is Leave,
{
}

/// A history is that of the active room, with the number of the line, and with twenty
/// messages without one; a number that cannot be read, or no active room, gets a hint.
pub proof fn the_shell_shows_the_history_of_the_active_room(
    active: Option<&str>,
    line: ShellLine,
    n: u32,
    r: ShellAction,
)
    requires
        call_ensures(react, (active, line), r),
    ensures
        line@ matches ShellLineView::History(number) ==> (active matches Some(room) ==> number.len()
            == 0 ==> r@ == (ShellActionView::History { room_id: room@, limit: 20 })),
        line@ matches ShellLineView::History(number) ==> (active matches Some(room) ==> number
            == decimal(n as int) ==> r@ == (ShellActionView::History { room_id: room@, limit: n })),
        line@ matches ShellLineView::History(number)
            ==> (number.len() > 0 && u32_value(number) is None
            ==> r@ == ShellActionView::Print("Usage: /history [limit]"@)),
        line@ matches ShellLineView::History(number) ==> (active is None && (number.len() == 0
            || u32_value(number) is Some)
                ==> r@ == ShellActionView::Print("No active room. Use /join <room> first."@)),
        r@ is History ==> line@ is History && active is Some,
{
    integers_are_read_back(n as i64);
    lemma_decimal_shape(n as int);
}

/// The other commands do what they are called: help, the active room, the rooms, the agents
/// of the active room, the end; an empty line does nothing, and an unknown command is
/// named.
pub proof fn the_shell_does_what_it_is_told(
    active: Option<&str>,
    line: ShellLine,
    r: ShellAction,
)
    requires
        call_ensures(react, (active, line), r),
    ensures
        line@ is Empty <==> r@ is Nothing,
        line@ is Quit <==> r@ is Quit,
        line@ is Rooms <==> r@ is ListRooms,
        line@ is Agents ==> r@ == ShellActionView::ListAgents(active.deep_view()),
        r@ is ListAgents ==> line@ is Agents,
        line@ is Help ==> r@ == ShellActionView::Print(SHELL_HELP@),
        line@ is Room ==> (active matches Some(room) ==> r@ == ShellActionView::Print(
            "Active room: "@ + room@,
        )),
        line@ is Room && active is None
            ==> r@ == ShellActionView::Print("No active room. Use /join <room> first."@),
        line@ matches ShellLineView::Unknown(cmd) ==> r@ == ShellActionView::Print(
            "Unknown command: /"@ + cmd + " (try /help)"@,
        ),
{
}

/// Saying something and sending it are the same.
pub proof fn saying_is_sending(
    active: Option<&str>,
    said: ShellLine,
    sent: ShellLine,
    a: ShellAction,
    b: ShellAction,
)
    requires
        call_ensures(react, (active, said), a),
        call_ensures(react, (active, sent), b),
        said@ matches ShellLineView::Say(t) && t.len() > 0 && sent@ == ShellLineView::Send(t),
    ensures
        a@ == b@,
{
}

/// A line is read without the whitespace around it. Without a slash in front it is plain
/// text; an empty one is empty.
pub proof fn a_line_without_a_slash_is_text(
    line: &str,
    r: ShellLine,
)
    requires
        call_ensures(read_line, (line,), r),
    ensures
        trimmed(line@).len() == 0 <==> r@ is Empty,
        trimmed(line@).len() > 0 && trimmed(line@)[0] != '/' ==> r@ == ShellLineView::Say(
            trimmed(line@),
        ),
        r@ is Say ==> trimmed(line@).len() > 0 && trimmed(line@)[0] != '/',
{
}

/// Behind a slash stands a command up to the first space, and what stands behind the space
/// is its argument, each without the whitespace around it.
pub proof fn a_line_with_a_slash_is_a_command(
    line: &str,
    k: int,
    r: ShellLine,
)
    requires
        call_ensures(read_line, (line,), r),
        1 <= k <= trimmed(line@).len(),
        trimmed(line@)[0] == '/',
        forall|j: int| 1 <= j < k ==> #[trigger] trimmed(line@)[j] != ' ',
        k < trimmed(line@).len() ==> trimmed(line@)[k] == ' ',
    ensures
        ({
            let t = trimmed(line@);
            let cmd = trimmed(t.subrange(1, k));
            let arg = if k < t.len() {
                trimmed(t.subrange(k + 1, t.len() as int))
            } else {
                Seq::empty()
            };
            &&& cmd == "help"@ <==> r@ is Help
            &&& cmd == "join"@ <==> r@ == ShellLineView::Join(arg)
            &&& cmd == "leave"@ <==> r@ == ShellLineView::Leave(arg)
            &&& cmd == "room"@ <==> r@ is Room
            &&& cmd == "rooms"@ <==> r@ is Rooms
            &&& cmd == "agents"@ <==> r@ is Agents
            &&& cmd == "history"@ <==> r@ == ShellLineView::History(arg)
            &&& cmd == "send"@ <==> r@ == ShellLineView::Send(arg)
            &&& cmd == "quit"@ || cmd == "exit"@ <==> r@ is Quit
            &&& r@ is Unknown ==> r@ == ShellLineView::Unknown(cmd)
            &&& !(r@ is Empty) && !(r@ is Say)
        }),
{
    let t = trimmed(line@);
    let body = t.drop_first();
    assert forall|j: int| 0 <= j < k - 1 implies body[j] != ' ' by {
        assert(t[j + 1] != ' ');
    }
    lemma_split_word(body, k - 1);
    assert(body.take(k - 1) =~= t.subrange(1, k));
    if k < t.len() {
        assert(body.skip(k) =~= t.subrange(k + 1, t.len() as int));
    }
    reveal_strlit("help");
    reveal_strlit("join");
    reveal_strlit("leave");
    reveal_strlit("room");
    reveal_strlit("rooms");
    reveal_strlit("agents");
    reveal_strlit("history");
    reveal_strlit("send");
    reveal_strlit("quit");
    reveal_strlit("exit");
    assert("help"@[0] == 'h' && "help"@.len() == 4);
    assert("join"@[0] == 'j');
    assert("leave"@[0] == 'l');
    assert("room"@[0] == 'r' && "room"@.len() == 4);
    assert("rooms"@.len() == 5);
    assert("agents"@[0] == 'a');
    assert("history"@.len() == 7);
    assert("send"@[0] == 's');
    assert("quit"@[0] == 'q');
    assert("exit"@[0] == 'e');
    assert(trimmed(Seq::<char>::empty()) =~= Seq::<char>::empty());
}

/// A room that was joined becomes the active one, and a failure changes nothing.
pub proof fn the_joined_room_becomes_active(
    active: Option<&str>,
    attempt: Result<String, String>,
    r: (String, Option<String>),
)
    requires
        call_ensures(after_join, (active, attempt), r),
    ensures
        attempt matches Ok(room) ==> r.1.deep_view() == Some(room@) && r.0@ == "Joined room: "@
            + room@,
        attempt matches Err(e) ==> r.1.deep_view() == active.deep_view() && r.0@ == "Join failed: "@
            + e@,
{
}

/// Leaving the active room leaves none active; leaving another one, or a failure, changes
/// nothing.
pub proof fn only_the_left_room_stops_being_active(
    active: Option<&str>,
    room_id: &str,
    failure: Option<&str>,
    r: (String, Option<String>),
)
    requires
        call_ensures(after_leave, (active, room_id, failure), r),
    ensures
        failure is None && active.deep_view() == Some(room_id@) ==> r.1 is None,
        failure is Some || active.deep_view() != Some(room_id@) ==> r.1.deep_view()
            == active.deep_view(),
        failure is None ==> r.0@ == "Left room: "@ + room_id@,
        failure matches Some(e) ==> r.0@ == "Leave failed: "@ + e@,
{
}

/// The notices of the shell name what they are about.
pub proof fn the_notices_of_the_shell_name_their_subject(
    room: Option<&str>,
    prompt: String,
    why: &str,
    failed: String,
    name: &str,
    agent_id: &str,
    hello: String,
)
    requires
        call_ensures(print_shell_prompt, (room,), prompt),
        call_ensures(leave_search_failed, (why,), failed),
        call_ensures(greeting, (name, agent_id), hello),
    ensures
        room matches Some(id) ==> prompt@ == "clawchat["@ + id@ + "]> "@,
        room is None ==> prompt@ == "clawchat["@ + "no-room"@ + "]> "@,
        failed@ == "Leave failed: "@ + why@ + "\nNo active room to leave."@,
        hello@ == "Connected as '"@ + name@ + "' (agent_id: "@ + agent_id@ + ")"@,
{
}

} // verus!
