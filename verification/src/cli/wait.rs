//! Waiting for a message: filters, bookmarks and how a wait ends.

use vstd::prelude::*;
use vstd::string::*;
use crate::cli::export::{kind_of, type_of};
use crate::cli::fields::{json_text_at, text_at};
use crate::json::{text_json, write_text};
use crate::models::{ChatMessage, ChatMessageView};
use crate::rows::{find, first_match, views, Row};
use crate::text::{
    ascii_lower, decimal, eq_ignore_ascii_case, i64_text, i64_value, integer_value,
    integers_are_read_back, lemma_decimal_shape, parse_i64, push_i64, push_u64, same_ignoring_case,
};

verus! {

/// The kind of the last message of a conversation.
pub const KIND_CONVERSATION_END: &'static str = "conversation_end";

/// How long a wait without a limit lasts, in seconds.
pub const ONE_DAY: u64 = 86400;

/// The time that a wait may take; zero stands for a day.
pub fn effective_timeout(timeout: u64) -> (r: u64)
    ensures
        r == if timeout == 0 {
            ONE_DAY
        } else {
            timeout
        },
{
    if timeout == 0 {
        ONE_DAY
    } else {
        timeout
    }
}

/// The kind that a message is sent with: that of the last one where it ends the
/// conversation, otherwise the given one.
pub fn sent_kind(end: bool, kind: Option<&str>) -> (r: Option<String>)
    ensures
        r.deep_view() == if end {
            Some(KIND_CONVERSATION_END@)
        } else {
            kind.deep_view()
        },
{
    if end {
        Some(KIND_CONVERSATION_END.to_owned())
    } else {
        match kind {
            Some(k) => Some(k.to_owned()),
            None => None,
        }
    }
}

/// The metadata of a message of a kind, as JSON text.
pub fn kind_metadata(kind: &str) -> (r: String)
    ensures
        r@ == "{\"kind\":"@ + text_json(kind@) + "}"@,
{
    let quoted = write_text(kind);
    let mut out = "{\"kind\":".to_owned();
    out.append(quoted.as_str());
    out.append("}");
    out
}

// --- Where to start ---

/// Where a wait starts.
#[derive(Clone, Copy, Debug, PartialEq, Eq, Structural)]
pub enum Since {
    /// Anywhere: only what comes.
    Anywhere,
    /// At the tip of the room.
    Tip,
    /// After a sequence number.
    After(i64),
}

/// Why the standard library reads no `i64` from a text.
pub uninterp spec fn integer_complaint(text: Seq<char>) -> Seq<char>;

/// Calls `str::parse` for an `i64` and writes its error by `to_string`; empty
/// where there is none.
#[verifier::external_body]
fn complain_of_integer(text: &str) -> (r: String)
    ensures
        r@ == integer_complaint(text@),
{
    match text.parse::<i64>() {
        Ok(_) => String::new(),
        Err(e) => e.to_string(),
    }
}

/// A text in lower case.
pub uninterp spec fn lower_case(text: Seq<char>) -> Seq<char>;

/// Calls `str::to_lowercase`.
#[verifier::external_body]
fn to_lower_case(text: &str) -> (r: String)
    ensures
        r@ == lower_case(text@),
{
    text.to_lowercase()
}

/// What is said of a start that cannot be read.
pub open spec fn bad_since(text: Seq<char>) -> Seq<char> {
    "--since-seq must be an integer, 'tip', or 'auto': "@ + integer_complaint(text)
}

fn complain(text: &str) -> (r: String)
    ensures
        r@ == bad_since(text@),
{
    let why = complain_of_integer(text);
    let mut out = "--since-seq must be an integer, 'tip', or 'auto': ".to_owned();
    out.append(why.as_str());
    out
}

/// Where a wait starts: anywhere where nothing is given, at the tip for `tip`
/// and `auto` in upper or lower case, and after an integer.
pub open spec fn start_of_wait(arg: Option<Seq<char>>) -> Option<Since> {
    match arg {
        None => Some(Since::Anywhere),
        Some(s) => if same_ignoring_case(s, "tip"@) || same_ignoring_case(s, "auto"@) {
            Some(Since::Tip)
        } else {
            match i64_value(s) {
                Some(n) => Some(Since::After(n)),
                None => None,
            }
        },
    }
}

/// Reads where a wait starts.
pub fn read_since(arg: Option<&str>) -> (r: Result<Since, String>)
    ensures
        match start_of_wait(arg.deep_view()) {
            Some(since) => r == Ok::<Since, String>(since),
            None => r matches Err(e) && arg matches Some(s) && e@ == bad_since(s@),
        },
{
    match arg {
        None => Ok(Since::Anywhere),
        Some(s) => {
            if eq_ignore_ascii_case(s, "tip") || eq_ignore_ascii_case(s, "auto") {
                return Ok(Since::Tip);
            }
            match parse_i64(s) {
                Some(n) => Ok(Since::After(n)),
                None => Err(complain(s)),
            }
        },
    }
}

/// Where a subscription starts, by a text in lower case: at the tip, or after an
/// integer.
pub open spec fn start_of_subscription(low: Seq<char>) -> Result<Option<i64>, Seq<char>> {
    if low == "tip"@ || low == "auto"@ {
        Ok(None)
    } else {
        match i64_value(low) {
            Some(n) => Ok(Some(n)),
            None => Err(bad_since(low)),
        }
    }
}

/// Reads where a subscription starts from a text in lower case.
pub fn read_lower_start(low: &str) -> (r: Result<Option<i64>, String>)
    ensures
        match start_of_subscription(low@) {
            Ok(start) => r == Ok::<Option<i64>, String>(start),
            Err(e) => r matches Err(err) && err@ == e,
        },
{
    if *low == *"tip" || *low == *"auto" {
        return Ok(None);
    }
    match parse_i64(low) {
        Some(n) => Ok(Some(n)),
        None => Err(complain(low)),
    }
}

/// Reads where a subscription starts; upper and lower case are the same.
pub fn read_start(arg: &str) -> (r: Result<Option<i64>, String>)
    ensures
        match start_of_subscription(lower_case(arg@)) {
            Ok(start) => r == Ok::<Option<i64>, String>(start),
            Err(e) => r matches Err(err) && err@ == e,
        },
{
    let low = to_lower_case(arg);
    read_lower_start(low.as_str())
}

// --- What to wake for ---

/// The messages that a wait is for.
#[derive(Debug)]
pub struct Filters {
    pub only_from: Option<String>,
    pub not_from: Option<String>,
    pub only_kind: Option<String>,
}

/// Whether a message of a name and a kind passes the filters.
pub open spec fn let_through(filters: Filters, from: Seq<char>, kind: Option<Seq<char>>) -> bool {
    &&& filters.only_from.deep_view() matches Some(name) ==> from == name
    &&& filters.not_from.deep_view() matches Some(name) ==> from != name
    &&& filters.only_kind.deep_view() matches Some(wanted) ==> kind == Some(wanted)
}

/// The messages that pass the filters.
pub open spec fn passing(filters: Filters) -> spec_fn(ChatMessageView) -> bool {
    |m: ChatMessageView| let_through(filters, m.agent_name, kind_of(m))
}

/// Decides whether a message of a name and a kind passes the filters.
pub fn lets_through(filters: &Filters, from: &str, kind: Option<&str>) -> (r: bool)
    ensures
        r == let_through(*filters, from@, kind.deep_view()),
{
    if let Some(name) = &filters.only_from {
        if !(*from == *name.as_str()) {
            return false;
        }
    }
    if let Some(name) = &filters.not_from {
        if *from == *name.as_str() {
            return false;
        }
    }
    if let Some(wanted) = &filters.only_kind {
        return match kind {
            Some(k) => *k == *wanted.as_str(),
            None => false,
        };
    }
    true
}

/// Decides whether a message passes the filters.
pub fn passes(filters: &Filters, msg: &ChatMessage) -> (r: bool)
    ensures
        r == passing(*filters)(msg@),
{
    match text_at(msg.metadata.as_str(), "/kind") {
        Some(kind) => lets_through(filters, msg.agent_name.as_str(), Some(kind.as_str())),
        None => lets_through(filters, msg.agent_name.as_str(), None),
    }
}

/// What comes after one answer of the server.
#[derive(Debug)]
pub enum WaitStep {
    /// This message ends the wait.
    Found(ChatMessage),
    /// The wait ends without a message.
    Nothing,
    /// The message was not wanted: wait on, after its sequence number.
    Again(i64),
}

/// What a `WaitStep` stands for.
pub enum WaitStepView {
    Found(ChatMessageView),
    Nothing,
    Again(i64),
}

impl View for WaitStep {
    type V = WaitStepView;

    open spec fn view(&self) -> WaitStepView {
        match self {
            WaitStep::Found(m) => WaitStepView::Found(m@),
            WaitStep::Nothing => WaitStepView::Nothing,
            WaitStep::Again(seq) => WaitStepView::Again(*seq),
        }
    }
}

/// What comes after one answer of the server: a message that passes ends the
/// wait; one that does not is skipped where the wait goes on and on.
pub open spec fn waited(
    wanted: spec_fn(ChatMessageView) -> bool,
    on_and_on: bool,
    came: Option<ChatMessageView>,
) -> WaitStepView {
    match came {
        None => WaitStepView::Nothing,
        Some(m) => if wanted(m) {
            WaitStepView::Found(m)
        } else if on_and_on {
            WaitStepView::Again(m.seq)
        } else {
            WaitStepView::Nothing
        },
    }
}

/// Decides what comes after one answer of the server.
pub fn wait_step(filters: &Filters, on_and_on: bool, came: Option<ChatMessage>) -> (r: WaitStep)
    ensures
        r@ == waited(
            passing(*filters),
            on_and_on,
            match came {
                Some(m) => Some(m@),
                None => None,
            },
        ),
{
    match came {
        None => WaitStep::Nothing,
        Some(m) => {
            if passes(filters, &m) {
                WaitStep::Found(m)
            } else if on_and_on {
                WaitStep::Again(m.seq)
            } else {
                WaitStep::Nothing
            }
        },
    }
}

// --- What wakes a wait ---

/// Whether a message of a name and a type wakes a wait: only a chat message of
/// another agent does, neither a thought nor a notice of the system.
pub open spec fn awakening(own_name: Seq<char>, from: Seq<char>, kind: Option<Seq<char>>) -> bool {
    from != own_name && kind != Some("thinking"@) && kind != Some("system"@)
}

/// The messages that wake a wait.
pub open spec fn waking(own_name: Seq<char>) -> spec_fn(ChatMessageView) -> bool {
    |m: ChatMessageView| awakening(own_name, m.agent_name, type_of(m))
}

/// Decides whether a message of a name and a type wakes a wait.
pub fn awakens(own_name: &str, from: &str, kind: Option<&str>) -> (r: bool)
    ensures
        r == awakening(own_name@, from@, kind.deep_view()),
{
    if *from == *own_name {
        return false;
    }
    match kind {
        Some(k) => !(*k == *"thinking") && !(*k == *"system"),
        None => true,
    }
}

/// Decides whether a message wakes a wait.
pub fn wakes(own_name: &str, msg: &ChatMessage) -> (r: bool)
    ensures
        r == waking(own_name@)(msg@),
{
    match text_at(msg.metadata.as_str(), "/type") {
        Some(kind) => awakens(own_name, msg.agent_name.as_str(), Some(kind.as_str())),
        None => awakens(own_name, msg.agent_name.as_str(), None),
    }
}

/// The first of these messages that wakes a wait.
pub fn catch_up(own_name: &str, history: &Vec<ChatMessage>) -> (r: Option<ChatMessage>)
    ensures
        (match r {
            Some(m) => Some(m@),
            None => None,
        }) == first_match(views(history@), waking(own_name@)),
{
    let hit = |m: &ChatMessage| -> (b: bool)
        ensures
            b == waking(own_name@)(m@),
        { wakes(own_name, m) };
    match find(history, hit, Ghost(waking(own_name@))) {
        Some(i) => Some(history[i].duplicate()),
        None => None,
    }
}

// --- How a wait ends ---

/// How a wait ended.
#[derive(Clone, Copy, Debug, PartialEq, Eq, Structural)]
pub enum WaitEnd {
    /// With a message.
    Message,
    /// With the last message of the conversation.
    LastMessage,
    /// Without a message.
    TimedOut,
    /// Idle for too long.
    Idle,
}

/// The exit code for the end of a wait.
pub fn exit_code(end: WaitEnd) -> (r: i32)
    ensures
        r == (match end {
            WaitEnd::Message => 0int,
            WaitEnd::TimedOut => 1,
            WaitEnd::Idle => 2,
            WaitEnd::LastMessage => 3,
        }),
{
    match end {
        WaitEnd::Message => 0,
        WaitEnd::TimedOut => 1,
        WaitEnd::Idle => 2,
        WaitEnd::LastMessage => 3,
    }
}

/// How a wait ends with a message of a kind: one of the last kind ends the
/// conversation.
pub open spec fn ended_by(kind: Option<Seq<char>>) -> WaitEnd {
    if kind == Some(KIND_CONVERSATION_END@) {
        WaitEnd::LastMessage
    } else {
        WaitEnd::Message
    }
}

/// Decides how a wait ends with a message of a kind.
pub fn end_with_kind(kind: Option<&str>) -> (r: WaitEnd)
    ensures
        r == ended_by(kind.deep_view()),
{
    match kind {
        Some(k) => if *k == *KIND_CONVERSATION_END {
            WaitEnd::LastMessage
        } else {
            WaitEnd::Message
        },
        None => WaitEnd::Message,
    }
}

/// Decides how a wait ends with a message.
pub fn end_with(msg: &ChatMessage) -> (r: WaitEnd)
    ensures
        r == ended_by(kind_of(msg@)),
{
    match text_at(msg.metadata.as_str(), "/kind") {
        Some(kind) => end_with_kind(Some(kind.as_str())),
        None => end_with_kind(None),
    }
}

/// Where to resume a wait: after the last message that was skipped, or where the
/// wait started; at the tip where neither is known.
pub open spec fn resume_at(bookmark: Option<i64>) -> Seq<char> {
    match bookmark {
        Some(seq) => if seq == i64::MIN {
            "tip"@
        } else {
            decimal(seq as int)
        },
        None => "tip"@,
    }
}

/// What is said when a wait was idle for too long.
pub open spec fn idle_notice(idle: u64, room: Seq<char>, bookmark: Option<i64>) -> Seq<char> {
    "No message for "@ + decimal(idle as int)
        + "s — the turn may be stalled. Resume with: wait "@ + room + " --loop --since-seq "@
        + resume_at(bookmark)
}

/// Says that a wait was idle for too long, and how to resume it.
pub fn idle_text(idle: u64, room: &str, bookmark: Option<i64>) -> (r: String)
    ensures
        r@ == idle_notice(idle, room@, bookmark),
{
    let resume = match bookmark {
        Some(seq) => if seq == i64::MIN {
            "tip".to_owned()
        } else {
            i64_text(seq)
        },
        None => "tip".to_owned(),
    };
    let mut out = "No message for ".to_owned();
    push_u64(&mut out, idle);
    out.append("s — the turn may be stalled. Resume with: wait ");
    out.append(room);
    out.append(" --loop --since-seq ");
    out.append(resume.as_str());
    out
}

/// Says that no message came.
pub fn timeout_text(timeout: u64) -> (r: String)
    ensures
        r@ == "Timed out after "@ + decimal(timeout as int) + "s waiting for a message"@,
{
    let mut out = "Timed out after ".to_owned();
    push_u64(&mut out, timeout);
    out.append("s waiting for a message");
    out
}

/// A sign of life.
pub open spec fn heartbeat(
    elapsed: u64,
    room: Seq<char>,
    since: Option<i64>,
    on_and_on: bool,
) -> Seq<char> {
    "wait: alive "@ + decimal(elapsed as int) + "s room="@ + room + " since_seq="@ + (match since {
        Some(n) => decimal(n as int),
        None => "-"@,
    }) + " mode="@ + (if on_and_on {
        "loop"@
    } else {
        "once"@
    })
}

/// Writes a sign of life.
pub fn heartbeat_text(elapsed: u64, room: &str, since: Option<i64>, on_and_on: bool) -> (r: String)
    ensures
        r@ == heartbeat(elapsed, room@, since, on_and_on),
{
    let mut out = "wait: alive ".to_owned();
    push_u64(&mut out, elapsed);
    out.append("s room=");
    out.append(room);
    out.append(" since_seq=");
    match since {
        Some(n) => push_i64(&mut out, n),
        None => out.append("-"),
    }
    out.append(" mode=");
    if on_and_on {
        out.append("loop");
    } else {
        out.append("once");
    }
    out
}

// --- What holds of every wait ---

/// The message that ends a wait which goes on and on, and the bookmark it then
/// has, when these messages come one after the other.
pub open spec fn long_wait(
    wanted: spec_fn(ChatMessageView) -> bool,
    bookmark: Option<i64>,
    coming: Seq<ChatMessageView>,
) -> (Option<ChatMessageView>, Option<i64>)
    decreases coming.len(),
{
    if coming.len() == 0 {
        (None, bookmark)
    } else {
        match waited(wanted, true, Some(coming[0])) {
            WaitStepView::Found(m) => (Some(m), bookmark),
            WaitStepView::Again(seq) => long_wait(wanted, Some(seq), coming.drop_first()),
            WaitStepView::Nothing => (None, bookmark),
        }
    }
}

/// A wait that goes on and on ends with the first message that passes, and its
/// bookmark is the number of the last message before it.
pub proof fn a_wait_misses_nothing(
    wanted: spec_fn(ChatMessageView) -> bool,
    bookmark: Option<i64>,
    coming: Seq<ChatMessageView>,
)
    ensures
        long_wait(wanted, bookmark, coming).0 == first_match(coming, wanted),
        forall|i: int|
            0 <= i < coming.len() && wanted(#[trigger] coming[i]) && (forall|j: int|
                0 <= j < i ==> !wanted(#[trigger] coming[j])) ==> long_wait(
                wanted,
                bookmark,
                coming,
            ).1 == if i == 0 {
                bookmark
            } else {
                Some(coming[i - 1].seq)
            },
    decreases coming.len(),
{
    if coming.len() > 0 && !wanted(coming[0]) {
        let rest = coming.drop_first();
        a_wait_misses_nothing(wanted, Some(coming[0].seq), rest);
        assert forall|i: int|
            0 <= i < coming.len() && wanted(#[trigger] coming[i]) && (forall|j: int|
                0 <= j < i ==> !wanted(#[trigger] coming[j])) implies long_wait(
            wanted,
            bookmark,
            coming,
        ).1 == if i == 0 {
            bookmark
        } else {
            Some(coming[i - 1].seq)
        } by {
            assert(rest[i - 1] == coming[i]);
            assert forall|j: int| 0 <= j < i - 1 implies !wanted(#[trigger] rest[j]) by {
                assert(!wanted(coming[j + 1]));
            }
            if i > 1 {
                assert(rest[i - 2] == coming[i - 1]);
            }
        }
    }
}

// --- What the calls do ---

proof fn lemma_first_at<V>(rows: Seq<V>, wanted: spec_fn(V) -> bool)
    ensures
        first_match(rows, wanted) is None ==> forall|j: int|
            0 <= j < rows.len() ==> !wanted(#[trigger] rows[j]),
        first_match(rows, wanted) is Some ==> exists|i: int|
            0 <= i < rows.len() && wanted(#[trigger] rows[i]) && first_match(rows, wanted) == Some(
                rows[i],
            ) && forall|j: int| 0 <= j < i ==> !wanted(#[trigger] rows[j]),
    decreases rows.len(),
{
    if rows.len() > 0 {
        if wanted(rows[0]) {
            assert(first_match(rows, wanted) == Some(rows[0]));
        } else {
            let rest = rows.drop_first();
            lemma_first_at(rest, wanted);
            if first_match(rest, wanted) is Some {
                let i = choose|i: int|
                    0 <= i < rest.len() && wanted(#[trigger] rest[i]) && first_match(rest, wanted)
                        == Some(rest[i]) && forall|j: int|
                        0 <= j < i ==> !wanted(#[trigger] rest[j]);
                assert(rows[i + 1] == rest[i]);
                assert forall|j: int| 0 <= j < i + 1 implies !wanted(#[trigger] rows[j]) by {
                    if j > 0 {
                        assert(rows[j] == rest[j - 1]);
                    }
                }
            } else {
                assert forall|j: int| 0 <= j < rows.len() implies !wanted(#[trigger] rows[j]) by {
                    if j > 0 {
                        assert(rows[j] == rest[j - 1]);
                    }
                }
            }
        }
    }
}

/// An integer in decimal is neither of the words for the tip.
proof fn lemma_decimal_is_no_word(n: i64)
    ensures
        !same_ignoring_case(decimal(n as int), "tip"@),
        !same_ignoring_case(decimal(n as int), "auto"@),
        decimal(n as int) != "tip"@,
        decimal(n as int) != "auto"@,
{
    let s = decimal(n as int);
    reveal_strlit("tip");
    reveal_strlit("auto");
    lemma_decimal_shape(n as int);
    let low = s.map_values(|c: char| ascii_lower(c));
    let tip = "tip"@.map_values(|c: char| ascii_lower(c));
    let auto_word = "auto"@.map_values(|c: char| ascii_lower(c));
    assert(tip[0] == 't');
    assert(auto_word[0] == 'a');
    assert(low[0] == s[0]);
    assert("tip"@[0] == 't');
    assert("auto"@[0] == 'a');
}

/// Every filter holds of the message that a wait finds: where only one name is wanted it
/// is from that name, where a name is not wanted it is not from it, and where only one
/// kind is wanted its metadata have that kind. A message for which all of this holds is
/// found; any other is skipped where the wait goes on, and ends it where it does not.
pub proof fn every_filter_holds_of_what_is_found(
    filters: &Filters,
    on_and_on: bool,
    came: Option<ChatMessage>,
    r: WaitStep,
)
    requires
        call_ensures(wait_step, (filters, on_and_on, came), r),
    ensures
        r@ matches WaitStepView::Found(m) ==> {
            &&& came matches Some(c) && c@ == m
            &&& filters.only_from matches Some(name) ==> m.agent_name == name@
            &&& filters.not_from matches Some(name) ==> m.agent_name != name@
            &&& filters.only_kind matches Some(kind) ==> json_text_at(m.metadata, "/kind"@) == Some(
                kind@,
            )
        },
        came matches Some(m) ==> ((filters.only_from matches Some(name) ==> m@.agent_name == name@)
            && (filters.not_from matches Some(name) ==> m@.agent_name != name@) && (
        filters.only_kind matches Some(kind) ==> json_text_at(m@.metadata, "/kind"@) == Some(kind@))
            ==> r@ == WaitStepView::Found(m@)),
        came matches Some(m)
            ==> (!(r@ is Found) && on_and_on ==> r@ == WaitStepView::Again(m@.seq)),
        !(r@ is Found) && !on_and_on ==> r@ is Nothing,
        came is None ==> r@ is Nothing,
{
}

/// A message passes the filters exactly where each of them holds of it.
pub proof fn a_message_passes_every_filter(
    filters: &Filters,
    msg: &ChatMessage,
    r: bool,
)
    requires
        call_ensures(passes, (filters, msg), r),
    ensures
        r <==> (filters.only_from matches Some(name) ==> msg@.agent_name == name@) && (
        filters.not_from matches Some(name) ==> msg@.agent_name != name@) && (
        filters.only_kind matches Some(kind) ==> json_text_at(msg@.metadata, "/kind"@) == Some(
            kind@,
        )),
{
}

/// A name and a kind pass the filters exactly where each of them holds of them.
pub proof fn a_name_and_a_kind_pass_every_filter(
    filters: &Filters,
    from: &str,
    kind: Option<&str>,
    r: bool,
)
    requires
        call_ensures(lets_through, (filters, from, kind), r),
    ensures
        r <==> (filters.only_from matches Some(name) ==> from@ == name@) && (
        filters.not_from matches Some(name) ==> from@ != name@) && (
        filters.only_kind matches Some(wanted) ==> kind.deep_view() == Some(wanted@)),
{
}

/// A wait wakes for the messages of others that are neither thoughts nor notices of the
/// system, and for no others.
pub proof fn a_wait_wakes_for_what_others_say(
    own_name: &str,
    msg: &ChatMessage,
    from: &str,
    kind: Option<&str>,
    r: bool,
    b: bool,
)
    requires
        call_ensures(wakes, (own_name, msg), r),
        call_ensures(awakens, (own_name, from, kind), b),
    ensures
        r <==> msg@.agent_name != own_name@ && json_text_at(msg@.metadata, "/type"@) != Some(
            "thinking"@,
        ) && json_text_at(msg@.metadata, "/type"@) != Some("system"@),
        b <==> from@ != own_name@ && kind.deep_view() != Some("thinking"@) && kind.deep_view()
            != Some("system"@),
{
}

/// Catching up finds the first message that wakes a wait, as it is, and nothing only where
/// there is none.
pub proof fn catching_up_finds_the_first_message(
    own_name: &str,
    history: &Vec<ChatMessage>,
    r: Option<ChatMessage>,
)
    requires
        call_ensures(catch_up, (own_name, history), r),
    ensures
        r matches Some(m) ==> exists|i: int|
            0 <= i < history@.len() && (#[trigger] history@[i])@ == m@ && m@.agent_name != own_name@
                && json_text_at(m@.metadata, "/type"@) != Some("thinking"@) && json_text_at(
                m@.metadata,
                "/type"@,
            ) != Some("system"@) && forall|j: int|
                0 <= j < i ==> (#[trigger] history@[j])@.agent_name == own_name@ || json_text_at(
                    history@[j]@.metadata,
                    "/type"@,
                ) == Some("thinking"@) || json_text_at(history@[j]@.metadata, "/type"@) == Some(
                    "system"@,
                ),
        r is None ==> forall|j: int|
            0 <= j < history@.len() ==> (#[trigger] history@[j])@.agent_name == own_name@
                || json_text_at(history@[j]@.metadata, "/type"@) == Some("thinking"@)
                || json_text_at(history@[j]@.metadata, "/type"@) == Some("system"@),
{
    let all = views(history@);
    lemma_first_at(all, waking(own_name@));
    if r is None {
        assert forall|j: int| 0 <= j < history@.len() implies !waking(own_name@)(
            (#[trigger] history@[j])@,
        ) by {
            assert(all[j] == history@[j]@);
        }
    } else {
        let i = choose|i: int|
            0 <= i < all.len() && waking(own_name@)(#[trigger] all[i]) && first_match(
                all,
                waking(own_name@),
            ) == Some(all[i]) && forall|j: int|
                0 <= j < i ==> !waking(own_name@)(#[trigger] all[j]);
        assert(history@[i]@ == all[i]);
        assert forall|j: int| 0 <= j < i implies !waking(own_name@)((#[trigger] history@[j])@) by {
            assert(all[j] == history@[j]@);
        }
    }
}

/// A conversation ends with a message of the last kind, and with no other.
pub proof fn only_the_last_kind_ends_a_conversation(
    msg: &ChatMessage,
    r: WaitEnd,
    kind: Option<&str>,
    q: WaitEnd,
)
    requires
        call_ensures(end_with, (msg,), r),
        call_ensures(end_with_kind, (kind,), q),
    ensures
        json_text_at(msg@.metadata, "/kind"@) == Some("conversation_end"@) ==> r
            == WaitEnd::LastMessage,
        json_text_at(msg@.metadata, "/kind"@) != Some("conversation_end"@)
            ==> r == WaitEnd::Message,
        kind.deep_view() == Some("conversation_end"@) ==> q == WaitEnd::LastMessage,
        kind.deep_view() != Some("conversation_end"@) ==> q == WaitEnd::Message,
{
}

/// The exit codes tell the ends of a wait apart, and only a message that does not end the
/// conversation leaves with zero.
pub proof fn exit_codes_tell_ends_apart(
    a: WaitEnd,
    b: WaitEnd,
    m: i32,
    n: i32,
)
    requires
        call_ensures(exit_code, (a,), m),
        call_ensures(exit_code, (b,), n),
    ensures
        m == n <==> a == b,
        m == 0 <==> a == WaitEnd::Message,
        m == 1 <==> a == WaitEnd::TimedOut,
        m == 2 <==> a == WaitEnd::Idle,
        m == 3 <==> a == WaitEnd::LastMessage,
        0 <= m <= 3,
{
}

/// A wait takes the time it is given; without a limit it takes a day.
pub proof fn a_wait_without_a_limit_takes_a_day(
    timeout: u64,
    r: u64,
)
    requires
        call_ensures(effective_timeout, (timeout,), r),
    ensures
        timeout > 0 ==> r == timeout,
        timeout == 0 ==> r == 24 * 60 * 60,
{
}

/// A message that ends the conversation is sent with the last kind, any other with the
/// kind it is given.
pub proof fn the_last_message_is_sent_with_the_last_kind(
    end: bool,
    kind: Option<&str>,
    r: Option<String>,
    last: WaitEnd,
)
    requires
        call_ensures(sent_kind, (end, kind), r),
        end ==> exists|k: &str| r.deep_view() == Some(k@) && #[trigger] call_ensures(
            end_with_kind,
            (Some(k),),
            last,
        ),
    ensures
        !end ==> r.deep_view() == kind.deep_view(),
        end ==> r.deep_view() == Some("conversation_end"@),
        end ==> last == WaitEnd::LastMessage,
{
}

/// The metadata of a message of a kind are an object with that kind alone.
pub proof fn metadata_hold_the_kind(
    kind: &str,
    r: String,
)
    requires
        call_ensures(kind_metadata, (kind,), r),
    ensures
        r@ == "{\"kind\":"@ + text_json(kind@) + "}"@,
{
}

/// A wait starts anywhere where nothing is said, at the tip where that is said in upper or
/// lower case, and after a number where one is given; anything else is refused.
pub proof fn a_wait_starts_where_it_is_told(
    arg: Option<&str>,
    n: i64,
    r: Result<Since, String>,
)
    requires
        call_ensures(read_since, (arg,), r),
    ensures
        arg is None ==> r == Ok::<Since, String>(Since::Anywhere),
        arg matches Some(s) ==> (s@ == decimal(n as int) ==> r == Ok::<Since, String>(
            Since::After(n),
        )),
        arg matches Some(s) ==> (r == Ok::<Since, String>(Since::Tip) <==> same_ignoring_case(
            s@,
            "tip"@,
        ) || same_ignoring_case(s@, "auto"@)),
        arg matches Some(s) ==> r != Ok::<Since, String>(Since::Anywhere),
        arg matches Some(s)
            ==> (r == Ok::<Since, String>(Since::After(n)) ==> integer_value(s@) == Some(
            n as int,
        )),
        r matches Err(e) ==> arg matches Some(s) && e@
            == "--since-seq must be an integer, 'tip', or 'auto': "@ + integer_complaint(s@),
        arg matches Some(s) ==> (r is Err ==> integer_value(s@) is None || integer_value(s@)->0
            < i64::MIN || integer_value(s@)->0 > i64::MAX),
{
    integers_are_read_back(n);
    if let Some(s) = arg {
        if s@ == decimal(n as int) {
            lemma_decimal_is_no_word(n);
        }
    }
}

/// A subscription starts at the tip where that is said, and after a number where one is
/// given; anything else is refused. Upper and lower case are the same.
pub proof fn a_subscription_starts_where_it_is_told(
    low: &str,
    n: i64,
    r: Result<Option<i64>, String>,
    arg: &str,
    q: Result<Option<i64>, String>,
)
    requires
        call_ensures(read_lower_start, (low,), r),
        call_ensures(read_start, (arg,), q),
    ensures
        low@ == decimal(n as int) ==> r == Ok::<Option<i64>, String>(Some(n)),
        r == Ok::<Option<i64>, String>(None) <==> low@ == "tip"@ || low@ == "auto"@,
        r == Ok::<Option<i64>, String>(Some(n)) ==> integer_value(low@) == Some(n as int),
        r matches Err(e) ==> e@ == "--since-seq must be an integer, 'tip', or 'auto': "@
            + integer_complaint(low@),
        r is Err ==> integer_value(low@) is None || integer_value(low@)->0 < i64::MIN
            || integer_value(low@)->0 > i64::MAX,
        low@ == lower_case(arg@) ==> (r is Ok <==> q is Ok) && (r matches Ok(a) ==> q == Ok::<
            Option<i64>,
            String,
        >(a)) && (r matches Err(e) ==> (q matches Err(f) && e@ == f@)),
{
    integers_are_read_back(n);
    if low@ == decimal(n as int) {
        lemma_decimal_is_no_word(n);
    }
}

/// The notice of an idle wait tells how to go on: in the room, behind the bookmark, and at
/// the tip where there is none.
pub proof fn an_idle_wait_tells_how_to_go_on(
    idle: u64,
    room: &str,
    bookmark: Option<i64>,
    r: String,
)
    requires
        call_ensures(idle_text, (idle, room, bookmark), r),
    ensures
        r@ == "No message for "@ + decimal(idle as int)
            + "s — the turn may be stalled. Resume with: wait "@ + room@
            + " --loop --since-seq "@ + (match bookmark {
            Some(seq) => if seq == i64::MIN {
                "tip"@
            } else {
                decimal(seq as int)
            },
            None => "tip"@,
        }),
{
}

/// The notice of a wait that ran out of time tells how long it took.
pub proof fn a_wait_that_ran_out_tells_its_time(
    timeout: u64,
    r: String,
)
    requires
        call_ensures(timeout_text, (timeout,), r),
    ensures
        r@ == "Timed out after "@ + decimal(timeout as int) + "s waiting for a message"@,
{
}

/// A sign of life tells the time, the room, the bookmark and whether the wait goes on.
pub proof fn a_sign_of_life_tells_the_wait(
    elapsed: u64,
    room: &str,
    since: Option<i64>,
    on_and_on: bool,
    r: String,
)
    requires
        call_ensures(heartbeat_text, (elapsed, room, since, on_and_on), r),
    ensures
        r@ == "wait: alive "@ + decimal(elapsed as int) + "s room="@ + room@ + " since_seq="@ + (
        match since {
            Some(n) => decimal(n as int),
            None => "-"@,
        }) + " mode="@ + (if on_and_on {
            "loop"@
        } else {
            "once"@
        }),
{
}

} // verus!
