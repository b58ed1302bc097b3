//! How messages and exports are written.

use vstd::prelude::*;
use vstd::string::*;
use crate::cli::fields::{field_is, json_text_at, text_at};
use crate::models::{ChatMessage, ChatMessageView};
use crate::rows::{lemma_joined, select, views, Row};
use crate::text::{chars_of, copy_text, decimal, is_text, push_i64, push_u64};
use crate::time::{show, shown, CLOCK_FORMAT, FULL_FORMAT};

verus! {

/// The form of an export.
#[derive(Clone, Copy, Debug, PartialEq, Eq, Structural)]
pub enum ExportFormat {
    /// Markdown with timestamps and agent labels.
    Md,
    /// One JSON object for each message, line by line.
    Json,
    /// Plain text.
    Txt,
}

/// How many messages an export holds at most where it names no limit.
pub const EXPORT_CAP: u32 = 1000;

/// How many messages an export asks for.
pub fn export_cap(limit: Option<u32>) -> (r: u32)
    ensures
        r == (match limit {
            Some(n) => n,
            None => EXPORT_CAP,
        }),
{
    match limit {
        Some(n) => n,
        None => EXPORT_CAP,
    }
}

/// A message as it is written: its type, the time of day and the full time, its
/// number, who wrote it and what.
#[derive(Debug)]
pub struct Entry {
    pub kind: Option<String>,
    pub clock: String,
    pub full: String,
    pub seq: i64,
    pub agent_name: String,
    pub content: String,
}

/// What a `Entry` stands for.
pub struct EntryView {
    pub kind: Option<Seq<char>>,
    pub clock: Seq<char>,
    pub full: Seq<char>,
    pub seq: i64,
    pub agent_name: Seq<char>,
    pub content: Seq<char>,
}

impl View for Entry {
    type V = EntryView;

    open spec fn view(&self) -> EntryView {
        EntryView {
            kind: self.kind.deep_view(),
            clock: self.clock@,
            full: self.full@,
            seq: self.seq,
            agent_name: self.agent_name@,
            content: self.content@,
        }
    }
}

impl Row for Entry {
    fn duplicate(&self) -> (r: Entry) {
        Entry {
            kind: copy_text(&self.kind),
            clock: self.clock.clone(),
            full: self.full.clone(),
            seq: self.seq,
            agent_name: self.agent_name.clone(),
            content: self.content.clone(),
        }
    }
}

impl Clone for Entry {
    fn clone(&self) -> (r: Entry)
        ensures
            r@ == self@,
    {
        self.duplicate()
    }
}

/// The type of a message, where its metadata has one.
pub open spec fn type_of(m: ChatMessageView) -> Option<Seq<char>> {
    json_text_at(m.metadata, "/type"@)
}

/// How a message is written.
pub open spec fn entry_of(m: ChatMessageView) -> EntryView {
    EntryView {
        kind: type_of(m),
        clock: shown(m.timestamp, CLOCK_FORMAT@),
        full: shown(m.timestamp, FULL_FORMAT@),
        seq: m.seq,
        agent_name: m.agent_name,
        content: m.content,
    }
}

/// How messages are written.
pub open spec fn entries_of(messages: Seq<ChatMessageView>) -> Seq<EntryView> {
    messages.map_values(|m: ChatMessageView| entry_of(m))
}

fn to_entry(m: &ChatMessage) -> (r: Entry)
    ensures
        r@ == entry_of(m@),
{
    Entry {
        kind: text_at(m.metadata.as_str(), "/type"),
        clock: show(m.timestamp, CLOCK_FORMAT),
        full: show(m.timestamp, FULL_FORMAT),
        seq: m.seq,
        agent_name: m.agent_name.clone(),
        content: m.content.clone(),
    }
}

fn to_entries(messages: &Vec<ChatMessage>) -> (r: Vec<Entry>)
    ensures
        views(r@) == entries_of(views(messages@)),
{
    let mut out: Vec<Entry> = Vec::new();
    let mut i: usize = 0;
    while i < messages.len()
        invariant
            i <= messages.len(),
            out.len() == i,
            forall|j: int| 0 <= j < i ==> (#[trigger] out@[j])@ == entry_of(messages@[j]@),
        decreases messages.len() - i,
    {
        out.push(to_entry(&messages[i]));
        i = i + 1;
    }
    assert(views(out@) =~= entries_of(views(messages@)));
    out
}

/// The kind of a message, where its metadata has one.
pub open spec fn kind_of(m: ChatMessageView) -> Option<Seq<char>> {
    json_text_at(m.metadata, "/kind"@)
}

/// The messages that an export holds: none of the system, and thoughts only
/// where they are wanted.
pub open spec fn exported(include_thinking: bool) -> spec_fn(EntryView) -> bool {
    |m: EntryView|
        m.kind != Some("system"@) && (include_thinking || m.kind != Some("thinking"@))
}

/// A message on one line.
pub open spec fn message_line(m: EntryView) -> Seq<char> {
    let head = "["@ + m.clock + "] #"@ + decimal(m.seq as int);
    if m.kind == Some("system"@) {
        head + " * "@ + m.agent_name + " "@ + m.content + " *"@
    } else {
        head + " "@ + m.agent_name + ": "@ + m.content
    }
}

/// Writes an entry on one line.
pub fn entry_line(m: &Entry) -> (r: String)
    ensures
        r@ == message_line(m@),
{
    let mut out = "[".to_owned();
    out.append(m.clock.as_str());
    out.append("] #");
    push_i64(&mut out, m.seq);
    if is_text(&m.kind, "system") {
        out.append(" * ");
        out.append(m.agent_name.as_str());
        out.append(" ");
        out.append(m.content.as_str());
        out.append(" *");
    } else {
        out.append(" ");
        out.append(m.agent_name.as_str());
        out.append(": ");
        out.append(m.content.as_str());
    }
    out
}

/// Writes a message on one line.
pub fn format_message(msg: &ChatMessage) -> (r: String)
    ensures
        r@ == message_line(entry_of(msg@)),
{
    let entry = to_entry(msg);
    entry_line(&entry)
}

/// Whether a text ends with a line break.
pub open spec fn ends_line(s: Seq<char>) -> bool {
    s.len() > 0 && s.last() == '\n'
}

/// An entry of a Markdown export.
pub open spec fn md_entry(m: EntryView) -> Seq<char> {
    (if m.kind == Some("thinking"@) {
        "### 💭 "@
    } else {
        "### "@
    }) + m.agent_name + " · seq "@ + decimal(m.seq as int) + " · "@ + m.clock + "\n\n"@ + m.content + (if ends_line(m.content) {
        ""@
    } else {
        "\n"@
    }) + "\n"@
}

/// The entries of a Markdown export.
pub open spec fn md_entries(list: Seq<EntryView>) -> Seq<char>
    decreases list.len(),
{
    if list.len() == 0 {
        Seq::empty()
    } else {
        md_entries(list.drop_last()) + md_entry(list.last())
    }
}

/// The heading of a Markdown export: the room, and what the entries span.
pub open spec fn md_head(list: Seq<EntryView>, room: Seq<char>) -> Seq<char> {
    let title = "# Room: "@ + room + "\n\n"@;
    if list.len() == 0 {
        title
    } else {
        title + "_"@ + decimal(list.len() as int) + " entries from seq "@ + decimal(
            list[0].seq as int,
        ) + " to "@ + decimal(list.last().seq as int) + " ("@ + list[0].full + " → "@ + list.last().full + ")_\n\n"@
    }
}

/// An entry of a plain text export.
pub open spec fn txt_entry(m: EntryView) -> Seq<char> {
    "["@ + m.clock + "] #"@ + decimal(m.seq as int) + " "@ + (if m.kind
        == Some("thinking"@) {
        "(thinking) "@
    } else {
        ""@
    }) + m.agent_name + ": "@ + m.content + "\n"@ + "\n"@
}

/// The entries of a plain text export.
pub open spec fn txt_entries(list: Seq<EntryView>) -> Seq<char>
    decreases list.len(),
{
    if list.len() == 0 {
        Seq::empty()
    } else {
        txt_entries(list.drop_last()) + txt_entry(list.last())
    }
}

/// The JSON lines of the messages that an export holds.
pub open spec fn json_entries(
    list: Seq<EntryView>,
    lines: Seq<Seq<char>>,
    wanted: spec_fn(EntryView) -> bool,
) -> Seq<char>
    decreases list.len(),
{
    if list.len() == 0 {
        Seq::empty()
    } else {
        let front = json_entries(list.drop_last(), lines, wanted);
        if wanted(list.last()) {
            front + lines[list.len() - 1] + "\n"@
        } else {
            front
        }
    }
}

/// An export. `lines` holds the JSON of each message.
pub open spec fn export(
    messages: Seq<EntryView>,
    lines: Seq<Seq<char>>,
    format: ExportFormat,
    include_thinking: bool,
    room: Seq<char>,
) -> Seq<char> {
    let list = messages.filter(exported(include_thinking));
    match format {
        ExportFormat::Md => md_head(list, room) + md_entries(list),
        ExportFormat::Json => json_entries(messages, lines, exported(include_thinking)),
        ExportFormat::Txt => txt_entries(list),
    }
}

fn is_exported(m: &Entry, include_thinking: bool) -> (r: bool)
    ensures
        r == exported(include_thinking)(m@),
{
    proof {
        reveal_strlit("system");
        reveal_strlit("thinking");
        assert("system"@.len() == 6 && "thinking"@.len() == 8);
    }
    if is_text(&m.kind, "system") {
        return false;
    }
    include_thinking || !is_text(&m.kind, "thinking")
}

fn push_md_head(out: &mut String, list: &Vec<Entry>, room: &str)
    requires
        old(out)@.len() == 0,
    ensures
        final(out)@ == md_head(views(list@), room@),
{
    let ghost all = views(list@);
    out.append("# Room: ");
    assert(out@ =~= "# Room: "@);
    out.append(room);
    out.append("\n\n");
    if list.len() > 0 {
        let first = &list[0];
        let last = &list[list.len() - 1];
        proof {
            assert(all[0] == first@);
            assert(all.last() == last@);
        }
        out.append("_");
        push_u64(out, list.len() as u64);
        out.append(" entries from seq ");
        push_i64(out, first.seq);
        out.append(" to ");
        push_i64(out, last.seq);
        out.append(" (");
        out.append(first.full.as_str());
        out.append(" → ");
        out.append(last.full.as_str());
        out.append(")_\n\n");
    }
}

fn push_md_entry(out: &mut String, m: &Entry)
    ensures
        final(out)@ == old(out)@ + md_entry(m@),
{
    let ghost start = out@;
    let content = chars_of(m.content.as_str());
    let mut entry = if is_text(&m.kind, "thinking") {
        "### 💭 ".to_owned()
    } else {
        "### ".to_owned()
    };
    entry.append(m.agent_name.as_str());
    entry.append(" · seq ");
    push_i64(&mut entry, m.seq);
    entry.append(" · ");
    entry.append(m.clock.as_str());
    entry.append("\n\n");
    entry.append(m.content.as_str());
    let ended = content.len() > 0 && content[content.len() - 1] == '\n';
    if ended {
        entry.append("");
    } else {
        entry.append("\n");
    }
    entry.append("\n");
    out.append(entry.as_str());
}

fn push_txt_entry(out: &mut String, m: &Entry)
    ensures
        final(out)@ == old(out)@ + txt_entry(m@),
{
    let mut entry = "[".to_owned();
    entry.append(m.clock.as_str());
    entry.append("] #");
    push_i64(&mut entry, m.seq);
    entry.append(" ");
    if is_text(&m.kind, "thinking") {
        entry.append("(thinking) ");
    } else {
        entry.append("");
    }
    entry.append(m.agent_name.as_str());
    entry.append(": ");
    entry.append(m.content.as_str());
    entry.append("\n");
    entry.append("\n");
    out.append(entry.as_str());
}

fn json_export(messages: &Vec<Entry>, lines: &Vec<String>, include_thinking: bool) -> (r:
    String)
    requires
        lines.len() == messages.len(),
    ensures
        r@ == json_entries(views(messages@), lines.deep_view(), exported(include_thinking)),
{
    let ghost all = views(messages@);
    let ghost wanted = exported(include_thinking);
    let mut out = String::new();
    let mut i: usize = 0;
    assert(all.take(0) =~= Seq::empty());
    assert(out@ =~= Seq::empty());
    while i < messages.len()
        invariant
            i <= messages.len(),
            lines.len() == messages.len(),
            all == views(messages@),
            wanted == exported(include_thinking),
            out@ == json_entries(all.take(i as int), lines.deep_view(), wanted),
        decreases messages.len() - i,
    {
        proof {
            assert(all.take(i + 1).drop_last() =~= all.take(i as int));
            assert(all.take(i + 1).last() == messages@[i as int]@);
        }
        if is_exported(&messages[i], include_thinking) {
            out.append(lines[i].as_str());
            out.append("\n");
        }
        i = i + 1;
    }
    assert(all.take(i as int) =~= all);
    out
}

/// Writes an export of entries. `lines` holds the JSON of each.
pub fn export_entries(
    messages: &Vec<Entry>,
    lines: &Vec<String>,
    format: ExportFormat,
    include_thinking: bool,
    room_label: &str,
) -> (r: String)
    requires
        format == ExportFormat::Json ==> lines.len() == messages.len(),
    ensures
        r@ == export(
            views(messages@),
            lines.deep_view(),
            format,
            include_thinking,
            room_label@,
        ),
{
    if let ExportFormat::Json = format {
        return json_export(messages, lines, include_thinking);
    }
    let list = select(
        messages,
        |m: &Entry| -> (b: bool)
            ensures
                b == exported(include_thinking)(m@)
            { is_exported(m, include_thinking) },
        Ghost(exported(include_thinking)),
    );
    let ghost all = views(list@);
    let markdown = match format {
        ExportFormat::Md => true,
        _ => false,
    };
    let mut out = String::new();
    if markdown {
        push_md_head(&mut out, &list, room_label);
    }
    let ghost head = out@;
    let mut i: usize = 0;
    assert(all.take(0) =~= Seq::empty());
    assert(head + md_entries(all.take(0)) =~= head);
    assert(head + txt_entries(all.take(0)) =~= head);
    while i < list.len()
        invariant
            i <= list.len(),
            all == views(list@),
            markdown ==> out@ == head + md_entries(all.take(i as int)),
            !markdown ==> out@ == head + txt_entries(all.take(i as int)),
        decreases list.len() - i,
    {
        proof {
            assert(all.take(i + 1).drop_last() =~= all.take(i as int));
            assert(all.take(i + 1).last() == list@[i as int]@);
        }
        if markdown {
            push_md_entry(&mut out, &list[i]);
            assert(out@ =~= head + md_entries(all.take(i + 1)));
        } else {
            push_txt_entry(&mut out, &list[i]);
            assert(out@ =~= head + txt_entries(all.take(i + 1)));
        }
        i = i + 1;
    }
    proof {
        assert(all.take(i as int) =~= all);
        if !markdown {
            assert(head + txt_entries(all) =~= txt_entries(all));
        }
    }
    out
}

/// Writes an export of a room. `lines` holds the JSON of each message.
pub fn render_export(
    messages: &Vec<ChatMessage>,
    lines: &Vec<String>,
    format: ExportFormat,
    include_thinking: bool,
    room_label: &str,
) -> (r: String)
    requires
        format == ExportFormat::Json ==> lines.len() == messages.len(),
    ensures
        r@ == export(
            entries_of(views(messages@)),
            lines.deep_view(),
            format,
            include_thinking,
            room_label@,
        ),
{
    let entries = to_entries(messages);
    assert(views(entries@).len() == views(messages@).len());
    export_entries(&entries, lines, format, include_thinking, room_label)
}

/// The messages of a kind; all of them where none is given.
pub open spec fn of_kind(kind: Option<Seq<char>>) -> spec_fn(ChatMessageView) -> bool {
    |m: ChatMessageView| kind is None || kind_of(m) == kind
}

/// Messages line by line, without a line break at the end.
pub open spec fn message_lines(list: Seq<ChatMessageView>) -> Seq<char>
    decreases list.len(),
{
    if list.len() == 0 {
        Seq::empty()
    } else if list.len() == 1 {
        message_line(entry_of(list[0]))
    } else {
        message_lines(list.drop_last()) + "\n"@ + message_line(entry_of(list.last()))
    }
}

/// Writes the messages of a kind line by line, and says how many there are.
pub fn render_history(messages: &Vec<ChatMessage>, kind: Option<&str>) -> (r: (String, usize))
    ensures
        r.0@ == message_lines(views(messages@).filter(of_kind(kind.deep_view()))),
        r.1 == views(messages@).filter(of_kind(kind.deep_view())).len(),
{
    let list = select(
        messages,
        |m: &ChatMessage| -> (b: bool)
            ensures
                b == of_kind(kind.deep_view())(m@)
            {
                match kind {
                    Some(k) => field_is(m.metadata.as_str(), "/kind", k),
                    None => true,
                }
            },
        Ghost(of_kind(kind.deep_view())),
    );
    let ghost all = views(list@);
    let mut out = String::new();
    let mut i: usize = 0;
    assert(all.take(0) =~= Seq::empty());
    assert(out@ =~= Seq::empty());
    while i < list.len()
        invariant
            i <= list.len(),
            all == views(list@),
            out@ == message_lines(all.take(i as int)),
        decreases list.len() - i,
    {
        proof {
            assert(all.take(i + 1).drop_last() =~= all.take(i as int));
            assert(all.take(i + 1).last() == list@[i as int]@);
        }
        let line = format_message(&list[i]);
        if i > 0 {
            out.append("\n");
            out.append(line.as_str());
        } else {
            out.append(line.as_str());
            assert(out@ =~= line@);
        }
        i = i + 1;
    }
    assert(all.take(i as int) =~= all);
    (out, list.len())
}

/// No export holds a message of the system, and thoughts only where they are
/// wanted.
pub proof fn exports_leave_out_the_system(messages: Seq<EntryView>, include_thinking: bool)
    ensures
        crate::rows::all(
            messages.filter(exported(include_thinking)),
            |m: EntryView|
                m.kind != Some("system"@) && (m.kind == Some("thinking"@) ==> include_thinking),
        ),
{
    let list = messages.filter(exported(include_thinking));
    crate::rows::lemma_filter_rows(messages, exported(include_thinking));
    assert forall|i: int| 0 <= i < list.len() implies (#[trigger] list[i]).kind != Some("system"@)
        && (list[i].kind == Some("thinking"@) ==> include_thinking) by {
        assert(exported(include_thinking)(list[i]));
    }
}

// --- What the calls do ---

proof fn lemma_md_joined(list: Seq<EntryView>)
    ensures
        md_entries(list) == list.map_values(
            |m: EntryView|
                (if m.kind == Some("thinking"@) {
                "### 💭 "@
            } else {
                "### "@
            }) + m.agent_name + " · seq "@ + decimal(m.seq as int) + " · "@ + m.clock + "\n\n"@
                + m.content + (if m.content.len() > 0 && m.content.last() == '\n' {
                ""@
            } else {
                "\n"@
            }) + "\n"@,
        ).flatten(),
{
    let line = |m: EntryView|
        (if m.kind == Some("thinking"@) {
                "### 💭 "@
            } else {
                "### "@
            }) + m.agent_name + " · seq "@ + decimal(m.seq as int) + " · "@ + m.clock + "\n\n"@
                + m.content + (if m.content.len() > 0 && m.content.last() == '\n' {
                ""@
            } else {
                "\n"@
            }) + "\n"@;
    let written = |l: Seq<EntryView>| md_entries(l);
    assert forall|list: Seq<EntryView>| #[trigger] written(list) == (if list.len() == 0 {
        Seq::empty()
    } else {
        written(list.drop_last()) + line(list.last())
    }) by {
        if list.len() > 0 {
            assert(md_entry(list.last()) == line(list.last()));
        }
    }
    lemma_joined(list, line, written);
}

proof fn lemma_md_head(list: Seq<EntryView>, room: Seq<char>)
    ensures
        md_head(list, room) == "# Room: "@ + room + "

"@ + (if list.len() == 0 {
            Seq::empty()
        } else {
            "_"@ + decimal(list.len() as int) + " entries from seq "@ + decimal(list[0].seq as int)
                + " to "@ + decimal(list.last().seq as int) + " ("@ + list[0].full + " → "@
                + list.last().full + ")_

"@
        }),
{
    let title = "# Room: "@ + room + "

"@;
    if list.len() == 0 {
        assert(title + Seq::<char>::empty() =~= title);
    } else {
        assert(md_head(list, room) =~= title + ("_"@ + decimal(list.len() as int)
            + " entries from seq "@ + decimal(list[0].seq as int) + " to "@ + decimal(
            list.last().seq as int,
        ) + " ("@ + list[0].full + " → "@ + list.last().full + ")_

"@));
    }
}

/// How a message is written on one line: its time of day, its number, its author
/// and its content; one of the system between stars.
pub open spec fn written_line(m: ChatMessageView) -> Seq<char> {
    let head = "["@ + shown(m.timestamp, CLOCK_FORMAT@) + "] #"@ + decimal(m.seq as int);
    if json_text_at(m.metadata, "/type"@) == Some("system"@) {
        head + " * "@ + m.agent_name + " "@ + m.content + " *"@
    } else {
        head + " "@ + m.agent_name + ": "@ + m.content
    }
}

proof fn lemma_lines_joined(list: Seq<ChatMessageView>)
    ensures
        list.len() == 0 ==> message_lines(list).len() == 0,
        list.len() > 0 ==> message_lines(list) + "\n"@ == list.map_values(
            |m: ChatMessageView| written_line(m) + "\n"@,
        ).flatten(),
    decreases list.len(),
{
    let line = |m: ChatMessageView| written_line(m) + "\n"@;
    let lines = list.map_values(line);
    lines.lemma_flatten_and_flatten_alt_are_equivalent();
    if list.len() > 0 {
        let front = list.drop_last();
        lemma_lines_joined(front);
        assert(lines.drop_last() =~= front.map_values(line));
        front.map_values(line).lemma_flatten_and_flatten_alt_are_equivalent();
        assert(lines.last() == line(list.last()));
        assert(message_line(entry_of(list.last())) == written_line(list.last()));
        if list.len() == 1 {
            assert(front.map_values(line) =~= Seq::empty());
            assert(Seq::<char>::empty() + line(list[0]) =~= line(list[0]));
        } else {
            assert(message_lines(list) + "\n"@ =~= (message_lines(front) + "\n"@) + line(
                list.last(),
            ));
        }
    }
}

/// The lines of the wanted messages, each with a line break; nothing for the
/// others.
spec fn json_lines(
    list: Seq<EntryView>,
    lines: Seq<Seq<char>>,
    include_thinking: bool,
) -> Seq<Seq<char>> {
    Seq::new(
        list.len(),
        |i: int|
            if list[i].kind != Some("system"@) && (list[i].kind == Some("thinking"@)
                ==> include_thinking) {
                lines[i] + "\n"@
            } else {
                Seq::empty()
            },
    )
}

proof fn lemma_json_joined(
    list: Seq<EntryView>,
    lines: Seq<Seq<char>>,
    include_thinking: bool,
)
    ensures
        json_entries(list, lines, exported(include_thinking)) == json_lines(
            list,
            lines,
            include_thinking,
        ).flatten(),
    decreases list.len(),
{
    let all = json_lines(list, lines, include_thinking);
    all.lemma_flatten_and_flatten_alt_are_equivalent();
    if list.len() > 0 {
        let front = list.drop_last();
        lemma_json_joined(front, lines, include_thinking);
        let part = json_lines(front, lines, include_thinking);
        assert(all.drop_last() =~= part);
        part.lemma_flatten_and_flatten_alt_are_equivalent();
        let last = list.last();
        assert(exported(include_thinking)(last) <==> (last.kind != Some("system"@) && (last.kind
            == Some("thinking"@) ==> include_thinking)));
        let n = list.len() - 1;
        assert(all.last() == if exported(include_thinking)(last) {
            lines[n] + "\n"@
        } else {
            Seq::empty()
        });
        let so_far = json_entries(front, lines, exported(include_thinking));
        assert(so_far + (lines[n] + "\n"@) =~= so_far + lines[n] + "\n"@);
        assert(so_far + Seq::<char>::empty() =~= so_far);
    }
}

/// An export asks for as many messages as it is told, and for a thousand where it is not.
pub proof fn an_export_without_a_limit_asks_for_a_thousand(
    limit: Option<u32>,
    r: u32,
)
    requires
        call_ensures(export_cap, (limit,), r),
    ensures
        limit matches Some(n) ==> r == n,
        limit is None ==> r == 1000,
{
}

/// A message is written on one line with its time of day, its number, its author and its
/// content; one of the system between stars.
pub proof fn a_message_is_written_on_one_line(
    m: &Entry,
    r: String,
)
    requires
        call_ensures(entry_line, (m,), r),
    ensures
        r@ == (if m@.kind == Some("system"@) {
            "["@ + m@.clock + "] #"@ + decimal(m@.seq as int) + " * "@ + m@.agent_name + " "@
                + m@.content + " *"@
        } else {
            "["@ + m@.clock + "] #"@ + decimal(m@.seq as int) + " "@ + m@.agent_name + ": "@
                + m@.content
        }),
{
}

/// A message is written with the type of its metadata, its time, its number, its author and
/// its content.
pub proof fn a_message_is_written_as_it_is(
    msg: &ChatMessage,
    m: &Entry,
    a: String,
    b: String,
)
    requires
        call_ensures(format_message, (msg,), a),
        call_ensures(entry_line, (m,), b),
        m.kind.deep_view() == json_text_at(msg@.metadata, "/type"@),
        m.clock@ == shown(msg@.timestamp, CLOCK_FORMAT@),
        m.full@ == shown(msg@.timestamp, FULL_FORMAT@),
        m.seq == msg@.seq,
        m.agent_name@ == msg@.agent_name,
        m.content@ == msg@.content,
    ensures
        a@ == b@,
{
}

/// A plain text export holds every message but those of the system, and thoughts only where
/// they are wanted, in their order: each with its time, its number, its author and its
/// content.
pub proof fn a_text_export_holds_the_wanted_messages(
    messages: &Vec<Entry>,
    lines: &Vec<String>,
    include_thinking: bool,
    room_label: &str,
    r: String,
)
    requires
        call_ensures(
            export_entries,
            (messages, lines, ExportFormat::Txt, include_thinking, room_label),
            r,
        ),
    ensures
        r@ == views(messages@).filter(
            |m: EntryView| m.kind != Some("system"@)
                && (m.kind == Some("thinking"@) ==> include_thinking),
        ).map_values(
            |m: EntryView|
                "["@ + m.clock + "] #"@ + decimal(m.seq as int) + " "@ + (if m.kind == Some(
                "thinking"@,
            ) {
                "(thinking) "@
            } else {
                ""@
            }) + m.agent_name + ": "@ + m.content + "\n"@ + "\n"@,
        ).flatten(),
{
    let wanted = |m: EntryView| m.kind != Some("system"@)
        && (m.kind == Some("thinking"@) ==> include_thinking);
    assert(wanted =~= exported(include_thinking));
    let line = |m: EntryView|
        "["@ + m.clock + "] #"@ + decimal(m.seq as int) + " "@ + (if m.kind == Some(
                "thinking"@,
            ) {
                "(thinking) "@
            } else {
                ""@
            }) + m.agent_name + ": "@ + m.content + "\n"@ + "\n"@;
    let written = |l: Seq<EntryView>| txt_entries(l);
    assert forall|list: Seq<EntryView>| #[trigger] written(list) == (
    if list.len() == 0 {
        Seq::empty()
    } else {
        written(list.drop_last()) + line(list.last())
    }) by {
        if list.len() > 0 {
            assert(txt_entry(list.last()) == line(list.last()));
        }
    }
    lemma_joined(views(messages@).filter(wanted), line, written);
}

/// A Markdown export begins with the room, and with how many entries there are and what they
/// span; then come the wanted messages in their order, each under a heading with its
/// author, its number and its time, and with a line break at its end.
pub proof fn a_markdown_export_holds_the_wanted_messages(
    messages: &Vec<Entry>,
    lines: &Vec<String>,
    include_thinking: bool,
    room_label: &str,
    r: String,
)
    requires
        call_ensures(
            export_entries,
            (messages, lines, ExportFormat::Md, include_thinking, room_label),
            r,
        ),
    ensures
        ({
            let list = views(messages@).filter(|m: EntryView| m.kind != Some("system"@)
                && (m.kind == Some("thinking"@) ==> include_thinking));
            r@ == ("# Room: "@ + room_label@ + "\n\n"@ + (if list.len() == 0 {
                Seq::empty()
            } else {
                "_"@ + decimal(list.len() as int) + " entries from seq "@ + decimal(
                    list[0].seq as int,
                ) + " to "@ + decimal(list.last().seq as int) + " ("@ + list[0].full + " → "@
                    + list.last().full + ")_\n\n"@
            })) + list.map_values(
                |m: EntryView|
                    (if m.kind == Some("thinking"@) {
                "### 💭 "@
            } else {
                "### "@
            }) + m.agent_name + " · seq "@ + decimal(m.seq as int) + " · "@ + m.clock + "\n\n"@
                + m.content + (if m.content.len() > 0 && m.content.last() == '\n' {
                ""@
            } else {
                "\n"@
            }) + "\n"@,
            ).flatten()
        }),
{
    let wanted = |m: EntryView| m.kind != Some("system"@)
        && (m.kind == Some("thinking"@) ==> include_thinking);
    assert(wanted =~= exported(include_thinking));
    let list = views(messages@).filter(wanted);
    lemma_md_joined(list);
    lemma_md_head(list, room_label@);
}

/// A JSON export holds the line of every wanted message, in their order, and a line break
/// behind each.
pub proof fn a_json_export_holds_the_lines_of_the_wanted_messages(
    messages: &Vec<Entry>,
    lines: &Vec<String>,
    include_thinking: bool,
    room_label: &str,
    r: String,
)
    requires
        call_ensures(
            export_entries,
            (messages, lines, ExportFormat::Json, include_thinking, room_label),
            r,
        ),
        lines@.len() == messages@.len(),
    ensures
        r@ == Seq::new(
            messages@.len(),
            |i: int|
                if messages@[i]@.kind != Some("system"@) && (messages@[i]@.kind == Some("thinking"@)
                    ==> include_thinking) {
                    lines@[i]@ + "\n"@
                } else {
                    Seq::empty()
                },
        ).flatten(),
{
    lemma_json_joined(views(messages@), lines.deep_view(), include_thinking);
    let all = views(messages@);
    assert(Seq::new(
        messages@.len(),
        |i: int|
            if messages@[i]@.kind != Some("system"@) && (messages@[i]@.kind == Some("thinking"@)
                ==> include_thinking) {
                lines@[i]@ + "\n"@
            } else {
                Seq::empty()
            },
    ) =~= json_lines(all, lines.deep_view(), include_thinking));
}

/// An export of messages is that of how they are written.
pub proof fn an_export_of_messages_is_that_of_their_entries(
    messages: &Vec<ChatMessage>,
    entries: &Vec<Entry>,
    lines: &Vec<String>,
    format: ExportFormat,
    include_thinking: bool,
    room_label: &str,
    a: String,
    b: String,
)
    requires
        call_ensures(
            render_export,
            (messages, lines, format, include_thinking, room_label),
            a,
        ),
        call_ensures(
            export_entries,
            (entries, lines, format, include_thinking, room_label),
            b,
        ),
        entries@.len() == messages@.len(),
        forall|i: int|
            0 <= i < messages@.len() ==> (#[trigger] entries@[i])@.kind == json_text_at(
                messages@[i]@.metadata,
                "/type"@,
            ) && entries@[i]@.clock == shown(messages@[i]@.timestamp, CLOCK_FORMAT@)
                && entries@[i]@.full == shown(messages@[i]@.timestamp, FULL_FORMAT@)
                && entries@[i]@.seq == messages@[i]@.seq && entries@[i]@.agent_name
                == messages@[i]@.agent_name && entries@[i]@.content == messages@[i]@.content,
    ensures
        a@ == b@,
{
    assert(views(entries@) =~= entries_of(views(messages@))) by {
        assert forall|i: int| 0 <= i < entries@.len() implies views(entries@)[i] == entries_of(
            views(messages@),
        )[i] by {
            assert(entries@[i]@ == entry_of(messages@[i]@));
        }
    }
}

/// A history is written line by line, with line breaks between the lines: exactly the
/// messages of the kind, where one is given, in their order. It is told how many they
/// are.
pub proof fn a_history_is_written_line_by_line(
    messages: &Vec<ChatMessage>,
    kind: Option<&str>,
    r: (String, usize),
)
    requires
        call_ensures(render_history, (messages, kind), r),
    ensures
        ({
            let list = views(messages@).filter(
                |m: ChatMessageView|
                    kind matches Some(k) ==> json_text_at(m.metadata, "/kind"@) == Some(k@),
            );
            &&& r.1 == list.len()
            &&& list.len() == 0 ==> r.0@.len() == 0
            &&& list.len() > 0 ==> r.0@ + "\n"@ == list.map_values(
                |m: ChatMessageView| written_line(m) + "\n"@,
            ).flatten()
        }),
{
    let wanted = |m: ChatMessageView|
        kind matches Some(k) ==> json_text_at(m.metadata, "/kind"@) == Some(k@);
    assert(wanted =~= of_kind(kind.deep_view()));
    let list = views(messages@).filter(wanted);
    lemma_lines_joined(list);
}

} // verus!
