//! Compositor side of the panel IPC.
//!
//! The panel is a separate process, so it cannot read the compositor's window
//! list directly. A tiny newline/tab-delimited protocol over a Unix socket
//! connects the two:
//!
//! * compositor -> panel:
//!   `list\t<count>\t<id>\t<focused>\t<minimized>\t<app_id>\t<title>...`
//! * panel -> compositor: `focus\t<id>` and `accent\t<red>\t<green>\t<blue>`
//!
//! The socket is polled once per frame; what was read goes to [`PanelIpc`], and
//! [`AnvilState::tick_panel`] says what to write.

use vstd::prelude::*;
use vstd::utf8::{
    decode_utf8, encode_scalar, encode_utf8, encode_utf8_decode_utf8, encode_utf8_valid_utf8,
    valid_utf8,
};

use crate::element::{SurfaceKind, WindowElement};
use crate::panel::{parse_snapshot, write_snapshot, WindowInfo};
use crate::space::Action;
use crate::ssd::WindowState;
use crate::state::AnvilState;
use crate::strings::{
    chars_of, parse_u64, push_decimal, push_text, same_text, split, strip_prefix, text_of, trim,
};

verus! {

use crate::panel::{
    infos, parsed_snapshot, sanitized_info, snapshot_round_trip, snapshot_text,
    snapshots_are_one_line, Info,
};
use crate::space::{placed_index, Layout};
use crate::state::Desk;
use crate::strings::{
    after_prefix, decimal, decimal_round_trip, decimal_writes_its_number, free_of, is_digit,
    lemma_after_prefix, lemma_trimmed, parsed_u64, split_on, texts, trimmed,
};
use crate::utils::Point;

/// Bytes as text, with a mark in place of what is not UTF-8.
pub uninterp spec fn utf8_lossy(bytes: Seq<u8>) -> Seq<char>;

/// `String::from_utf8_lossy`: the text of the bytes. Bytes that are valid UTF-8
/// give the text they encode; what the marks in place of invalid bytes are is
/// left unsaid.
#[verifier::external_body]
fn from_utf8_lossy(bytes: &Vec<u8>) -> (r: String)
    ensures
        r@ == utf8_lossy(bytes@),
        valid_utf8(bytes@) ==> r@ == decode_utf8(bytes@),
{
    String::from_utf8_lossy(bytes).into_owned()
}

/// The text of a line: what its bytes encode if they are UTF-8, and else with
/// marks in place of what is not.
pub open spec fn line_text(line: Seq<u8>) -> Seq<char> {
    if valid_utf8(line) {
        decode_utf8(line)
    } else {
        utf8_lossy(line)
    }
}

/// The name of the socket the panel connects to for a given Wayland display
/// name.
pub fn socket_file_name(socket_name: &str) -> (r: String)
    ensures
        r@ == "oxide-panel-"@ + socket_name@ + ".sock"@,
{
    let mut name = String::new();
    push_text(&mut name, "oxide-panel-");
    assert(name@ =~= "oxide-panel-"@);
    push_text(&mut name, socket_name);
    push_text(&mut name, ".sock");
    name
}

/// A message from the panel.
#[derive(Debug)]
pub enum PanelMessage {
    /// Focus the window with this id.
    Focus(u64),
    /// The desktop accent color: its red, green and blue components, as the
    /// panel wrote them.
    Accent(String, String, String),
}

/// A message from the panel, with its texts as sequences of characters.
pub enum Message {
    Focus(u64),
    Accent(Seq<char>, Seq<char>, Seq<char>),
}

impl View for PanelMessage {
    type V = Message;

    open spec fn view(&self) -> Message {
        match self {
            PanelMessage::Focus(id) => Message::Focus(*id),
            PanelMessage::Accent(red, green, blue) => Message::Accent(red@, green@, blue@),
        }
    }
}

/// Several messages.
pub open spec fn messages(list: Seq<PanelMessage>) -> Seq<Message> {
    Seq::new(list.len(), |i: int| list[i]@)
}

/// The message that a line holds. Lines that hold none are ignored.
pub open spec fn message_of(line: Seq<char>) -> Option<Message> {
    match after_prefix(line, "focus\t"@) {
        Some(rest) => match parsed_u64(trimmed(rest)) {
            Some(id) => Some(Message::Focus(id)),
            None => None,
        },
        None => match after_prefix(line, "accent\t"@) {
            Some(rest) => {
                let parts = split_on(rest, '\t');
                if parts.len() >= 3 {
                    Some(Message::Accent(parts[0], parts[1], parts[2]))
                } else {
                    None
                }
            },
            None => None,
        },
    }
}

/// The index of the first newline in `bytes`, from `i` on; their number if there
/// is none.
pub open spec fn newline(bytes: Seq<u8>, i: int) -> int
    decreases bytes.len() - i,
{
    if i < 0 || i >= bytes.len() {
        bytes.len() as int
    } else if bytes[i] == 10 {
        i
    } else {
        newline(bytes, i + 1)
    }
}

proof fn lemma_newline(bytes: Seq<u8>, i: int, end: int)
    requires
        0 <= i <= end <= bytes.len(),
        forall|k: int| i <= k < end ==> bytes[k] != 10,
        end < bytes.len() ==> bytes[end] == 10,
    ensures
        newline(bytes, i) == end,
    decreases end - i,
{
    if i < end {
        lemma_newline(bytes, i + 1, end);
    }
}

proof fn lemma_newline_bounds(bytes: Seq<u8>, i: int)
    requires
        0 <= i <= bytes.len(),
    ensures
        i <= newline(bytes, i) <= bytes.len(),
    decreases bytes.len() - i,
{
    if i < bytes.len() && bytes[i] != 10 {
        lemma_newline_bounds(bytes, i + 1);
    }
}

/// The texts of the complete lines of `bytes`.
pub open spec fn lines_in(bytes: Seq<u8>) -> Seq<Seq<char>>
    decreases bytes.len(),
    when bytes.len() >= 0 via lines_in_decreases
{
    let end = newline(bytes, 0);
    if end >= bytes.len() {
        Seq::empty()
    } else {
        seq![line_text(bytes.take(end))] + lines_in(bytes.skip(end + 1))
    }
}

#[via_fn]
proof fn lines_in_decreases(bytes: Seq<u8>) {
    lemma_newline_bounds(bytes, 0);
}

/// The messages that `lines` hold, in order.
pub open spec fn messages_of(lines: Seq<Seq<char>>) -> Seq<Message>
    decreases lines.len(),
{
    if lines.len() == 0 {
        Seq::empty()
    } else {
        let before = messages_of(lines.drop_last());
        match message_of(lines.last()) {
            Some(message) => before.push(message),
            None => before,
        }
    }
}

/// The messages in the complete lines of `bytes`.
pub open spec fn messages_in(bytes: Seq<u8>) -> Seq<Message> {
    messages_of(lines_in(bytes))
}

/// The window lists that `lines` hold, in order.
pub open spec fn snapshots_of(lines: Seq<Seq<char>>) -> Seq<Seq<Info>>
    decreases lines.len(),
{
    if lines.len() == 0 {
        Seq::empty()
    } else {
        let before = snapshots_of(lines.drop_last());
        match parsed_snapshot(lines.last()) {
            Some(windows) => before.push(windows),
            None => before,
        }
    }
}

/// The window lists in the complete lines of `bytes`.
pub open spec fn snapshots_in(bytes: Seq<u8>) -> Seq<Seq<Info>> {
    snapshots_of(lines_in(bytes))
}

/// What is left of `bytes` after its complete lines.
pub open spec fn incomplete(bytes: Seq<u8>) -> Seq<u8>
    decreases bytes.len(),
    when bytes.len() >= 0 via incomplete_decreases
{
    let end = newline(bytes, 0);
    if end >= bytes.len() {
        bytes
    } else {
        incomplete(bytes.skip(end + 1))
    }
}

#[via_fn]
proof fn incomplete_decreases(bytes: Seq<u8>) {
    lemma_newline_bounds(bytes, 0);
}

/// Read the message that a line holds.
pub fn parse_message(line: &str) -> (r: Option<PanelMessage>)
    ensures
        match (r, message_of(line@)) {
            (Some(message), Some(held)) => message@ == held,
            (None, None) => true,
            _ => false,
        },
{
    let chars = chars_of(line);
    if let Some(rest) = strip_prefix(&chars, "focus\t") {
        return match parse_u64(&trim(&rest)) {
            Some(id) => Some(PanelMessage::Focus(id)),
            None => None,
        };
    }
    if let Some(rest) = strip_prefix(&chars, "accent\t") {
        let parts = split(&rest, '\t');
        let ghost all = split_on(rest@, '\t');
        assert(texts(parts@) == all);
        if parts.len() >= 3 {
            assert(parts@[0]@ == all[0] && parts@[1]@ == all[1] && parts@[2]@ == all[2]);
            return Some(
                PanelMessage::Accent(text_of(&parts[0]), text_of(&parts[1]), text_of(&parts[2])),
            );
        }
    }
    None
}

/// The line with which the panel asks for the window that it knows by `id`.
pub open spec fn focus_line(id: u64) -> Seq<char> {
    "focus\t"@ + decimal(id as nat)
}

/// The line with which the panel asks for the window that it knows by `id`.
pub fn focus_request(id: u64) -> (r: String)
    ensures
        r@ == focus_line(id),
{
    let mut line = String::new();
    push_text(&mut line, "focus\t");
    assert(line@ =~= "focus\t"@);
    push_decimal(&mut line, id);
    line
}

/// A request of the panel for a window is understood: it names the window that
/// the panel meant.
pub proof fn focus_requests_are_understood(id: u64)
    ensures
        message_of(focus_line(id)) == Some(Message::Focus(id)),
{
    let digits = decimal(id as nat);
    decimal_writes_its_number(id as nat);
    decimal_round_trip(id);
    assert(is_digit(digits[0]) && is_digit(digits[digits.len() - 1]));
    lemma_trimmed(digits);
    lemma_after_prefix("focus\t"@, digits);
}

proof fn lemma_encoded_concat(a: Seq<char>, b: Seq<char>)
    ensures
        encode_utf8(a + b) == encode_utf8(a) + encode_utf8(b),
    decreases a.len(),
{
    if a.len() == 0 {
        assert(a + b =~= b);
        assert(encode_utf8(a) + encode_utf8(b) =~= encode_utf8(b));
    } else {
        assert((a + b).drop_first() =~= a.drop_first() + b);
        lemma_encoded_concat(a.drop_first(), b);
        assert(encode_utf8(a + b) =~= encode_utf8(a) + encode_utf8(b));
    }
}

/// Only a newline is encoded with the byte of one.
proof fn lemma_encoded_scalar(c: char)
    requires
        c != '\n',
    ensures
        forall|k: int|
            0 <= k < encode_scalar(c as u32).len() ==> #[trigger] encode_scalar(c as u32)[k] != 10,
{
    let v = c as u32;
    assert(v != 10);
    assert(v <= 0x7F && v != 10 ==> (v & 0x7F) as u8 != 10) by (bit_vector);
    assert(0xC0 | ((v >> 6) & 0x1F) as u8 != 10 && 0xE0 | ((v >> 12) & 0x0F) as u8 != 10 && 0xF0 | ((v
        >> 18) & 0x7) as u8 != 10 && 0x80 | (v & 0x3F) as u8 != 10 && 0x80 | ((v >> 6) & 0x3F) as u8
        != 10 && 0x80 | ((v >> 12) & 0x3F) as u8 != 10) by (bit_vector);
}

proof fn lemma_encoded_line(text: Seq<char>)
    requires
        free_of(text, '\n'),
    ensures
        forall|k: int| 0 <= k < encode_utf8(text).len() ==> #[trigger] encode_utf8(text)[k] != 10,
    decreases text.len(),
{
    if text.len() > 0 {
        let rest = text.drop_first();
        assert forall|k: int| 0 <= k < rest.len() implies rest[k] != '\n' by {
            assert(rest[k] == text[k + 1]);
        }
        lemma_encoded_line(rest);
        lemma_encoded_scalar(text[0]);
        let first = encode_scalar(text[0] as u32);
        assert forall|k: int| 0 <= k < encode_utf8(text).len() implies #[trigger] encode_utf8(text)[k]
            != 10 by {
            if k < first.len() {
                assert(encode_utf8(text)[k] == first[k]);
            } else {
                assert(encode_utf8(text)[k] == encode_utf8(rest)[k - first.len()]);
            }
        }
    }
}

/// A line that is written is read as it was, whatever follows it.
pub proof fn lines_survive_the_wire(text: Seq<char>, rest: Seq<u8>)
    requires
        free_of(text, '\n'),
    ensures
        lines_in(encode_utf8(text.push('\n')) + rest) == seq![text] + lines_in(rest),
        incomplete(encode_utf8(text.push('\n')) + rest) == incomplete(rest),
{
    let line = encode_utf8(text);
    let bytes = encode_utf8(text.push('\n')) + rest;
    let end = line.len() as int;
    assert(text.push('\n') =~= text + seq!['\n']);
    lemma_encoded_concat(text, seq!['\n']);
    lemma_encoded_line(text);
    assert(seq!['\n'].drop_first() =~= Seq::<char>::empty());
    assert('\n' as u32 == 10);
    assert((10u32 & 0x7F) as u8 == 10) by (bit_vector);
    assert(encode_utf8(Seq::<char>::empty()) =~= Seq::<u8>::empty());
    assert(encode_utf8(seq!['\n']) =~= seq![10u8]);
    assert(bytes =~= line + seq![10u8] + rest);
    assert forall|k: int| 0 <= k < end implies bytes[k] != 10 by {
        assert(bytes[k] == line[k]);
    }
    lemma_newline(bytes, 0, end);
    assert(bytes.take(end) =~= line);
    assert(bytes.skip(end + 1) =~= rest);
    encode_utf8_valid_utf8(text);
    encode_utf8_decode_utf8(text);
}

/// A request that the panel writes is read as the one message it is.
pub proof fn focus_requests_arrive(id: u64)
    ensures
        messages_in(encode_utf8(focus_line(id).push('\n'))) == seq![Message::Focus(id)],
{
    let line = focus_line(id);
    decimal_writes_its_number(id as nat);
    reveal_strlit("focus\t");
    assert(free_of(line, '\n')) by {
        assert forall|k: int| 0 <= k < line.len() implies line[k] != '\n' by {
            if k >= 6 {
                assert(is_digit(decimal(id as nat)[k - 6]));
            }
        }
    }
    lines_survive_the_wire(line, Seq::empty());
    focus_requests_are_understood(id);
    let bytes = encode_utf8(line.push('\n'));
    assert(bytes + Seq::<u8>::empty() =~= bytes);
    assert(seq![line] + lines_in(Seq::empty()) =~= seq![line]);
    assert(seq![line].drop_last() =~= Seq::<Seq<char>>::empty());
    assert(messages_of(Seq::empty()) =~= Seq::<Message>::empty());
    assert(seq![line].last() == line);
    assert(messages_of(seq![line]) =~= seq![Message::Focus(id)]);
}

/// The window list that the compositor writes is the one the panel reads, with
/// blanks in place of what would break the framing.
pub proof fn window_lists_arrive(windows: Seq<Info>)
    requires
        windows.len() <= u64::MAX,
    ensures
        snapshots_in(encode_utf8(snapshot_text(windows).push('\n'))) == seq![
            Seq::new(windows.len(), |i: int| sanitized_info(windows[i])),
        ],
{
    let line = snapshot_text(windows);
    let list = Seq::new(windows.len(), |i: int| sanitized_info(windows[i]));
    snapshots_are_one_line(windows);
    snapshot_round_trip(windows);
    lines_survive_the_wire(line, Seq::empty());
    let bytes = encode_utf8(line.push('\n'));
    assert(bytes + Seq::<u8>::empty() =~= bytes);
    assert(seq![line] + lines_in(Seq::empty()) =~= seq![line]);
    assert(seq![line].drop_last() =~= Seq::<Seq<char>>::empty());
    assert(snapshots_of(Seq::empty()) =~= Seq::<Seq<Info>>::empty());
    assert(seq![line].last() == line);
    assert(snapshots_of(seq![line]) =~= seq![list]);
}

/// The compositor's end of the panel connection.
#[derive(Debug)]
pub struct PanelIpc {
    /// Whether a panel is connected.
    pub connected: bool,
    /// Whether the panel hung up since the last tick, so that what it sent before
    /// is still to be handled.
    pub hung_up: bool,
    /// What was read and is not a complete line yet.
    pub read_buf: Vec<u8>,
    /// The snapshot that the panel has.
    pub last_snapshot: String,
}

/// The compositor's end of the panel connection, as plain values.
#[verifier::ext_equal]
pub struct Connection {
    pub connected: bool,
    pub hung_up: bool,
    pub read_buf: Seq<u8>,
    pub last_snapshot: Seq<char>,
}

impl View for PanelIpc {
    type V = Connection;

    open spec fn view(&self) -> Connection {
        Connection {
            connected: self.connected,
            hung_up: self.hung_up,
            read_buf: self.read_buf@,
            last_snapshot: self.last_snapshot@,
        }
    }
}

impl Connection {
    /// Whether a panel is connected, or was until its end was read.
    pub open spec fn is_attended(self) -> bool {
        self.connected || self.hung_up
    }
}

impl PanelIpc {
    /// No panel is connected yet.
    pub fn new() -> (r: Self)
        ensures
            r@ == (Connection {
                connected: false,
                hung_up: false,
                read_buf: Seq::empty(),
                last_snapshot: Seq::empty(),
            }),
    {
        let ipc = PanelIpc {
            connected: false,
            hung_up: false,
            read_buf: Vec::new(),
            last_snapshot: String::new(),
        };
        assert(ipc.read_buf@ =~= Seq::empty());
        assert(ipc.last_snapshot@ =~= Seq::empty());
        ipc
    }

    /// A panel connected. It needs a fresh snapshot.
    pub fn accepted(&mut self)
        ensures
            final(self)@ == (Connection {
                connected: true,
                last_snapshot: Seq::empty(),
                ..old(self)@
            }),
    {
        self.connected = true;
        self.last_snapshot = String::new();
        assert(self.last_snapshot@ =~= Seq::empty());
    }

    /// The panel sent bytes.
    pub fn received(&mut self, bytes: &[u8])
        ensures
            final(self)@ == (Connection {
                read_buf: old(self)@.read_buf + bytes@,
                ..old(self)@
            }),
    {
        self.read_buf.extend_from_slice(bytes);
    }

    /// The panel hung up, or nothing more can be read from it. What it sent before
    /// is handled on the next tick.
    pub fn disconnected(&mut self)
        ensures
            final(self)@ == (Connection {
                connected: false,
                hung_up: old(self)@.is_attended(),
                ..old(self)@
            }),
    {
        self.hung_up = self.connected || self.hung_up;
        self.connected = false;
    }

    /// A line could not be written to the panel.
    pub fn write_failed(&mut self)
        ensures
            final(self)@ == (Connection { connected: false, ..old(self)@ }),
    {
        self.connected = false;
    }

    /// Take the messages out of the complete lines that were received since the
    /// last call.
    pub fn poll(&mut self) -> (r: Vec<PanelMessage>)
        ensures
            messages(r@) == messages_in(old(self)@.read_buf),
            final(self)@ == (Connection {
                read_buf: incomplete(old(self)@.read_buf),
                ..old(self)@
            }),
    {
        let lines = take_lines(&mut self.read_buf);
        let ghost all = lines_in(old(self)@.read_buf);
        let mut list: Vec<PanelMessage> = Vec::new();
        let mut i: usize = 0;
        assert(messages(list@) =~= messages_of(all.take(0)));
        while i < lines.len()
            invariant
                i <= lines.len(),
                line_texts(lines@) == all,
                messages(list@) == messages_of(all.take(i as int)),
            decreases lines.len() - i,
        {
            let ghost before = messages(list@);
            assert(line_texts(lines@)[i as int] == lines@[i as int]@);
            assert(all.take(i + 1).drop_last() =~= all.take(i as int));
            if let Some(message) = parse_message(lines[i].as_str()) {
                list.push(message);
                assert(messages(list@) =~= before.push(message@));
            }
            i += 1;
        }
        assert(all.take(i as int) =~= all);
        list
    }

    /// The line to write for a window-list snapshot, if it differs from the last
    /// one sent and there is a panel to send it to. The outcome of the write goes
    /// to [`Self::sent`] or [`Self::write_failed`].
    pub fn send(&self, snapshot: &str) -> (r: Option<String>)
        ensures
            match r {
                Some(line) => {
                    &&& self@.connected && snapshot@ != self@.last_snapshot
                    &&& line@ == snapshot@.push('\n')
                },
                None => !self@.connected || snapshot@ == self@.last_snapshot,
            },
    {
        if same_text(snapshot, self.last_snapshot.as_str()) || !self.connected {
            return None;
        }
        let mut line = String::new();
        push_text(&mut line, snapshot);
        assert(line@ =~= snapshot@);
        line.push('\n');
        Some(line)
    }

    /// The panel has `snapshot` now.
    pub fn sent(&mut self, snapshot: &str)
        ensures
            final(self)@ == (Connection { last_snapshot: snapshot@, ..old(self)@ }),
    {
        self.last_snapshot = text_of(&chars_of(snapshot));
    }
}

/// The bytes `bytes[from..to]`.
fn bytes_between(bytes: &Vec<u8>, from: usize, to: usize) -> (r: Vec<u8>)
    requires
        from <= to <= bytes.len(),
    ensures
        r@ == bytes@.subrange(from as int, to as int),
{
    let mut out: Vec<u8> = Vec::new();
    let mut i: usize = from;
    while i < to
        invariant
            from <= i <= to <= bytes.len(),
            out@ == bytes@.subrange(from as int, i as int),
        decreases to - i,
    {
        out.push(bytes[i]);
        i += 1;
        assert(out@ =~= bytes@.subrange(from as int, i as int));
    }
    out
}

/// The texts of several lines.
pub open spec fn line_texts(lines: Seq<String>) -> Seq<Seq<char>> {
    Seq::new(lines.len(), |i: int| lines[i]@)
}

/// Take the complete lines out of `pending`.
fn take_lines(pending: &mut Vec<u8>) -> (r: Vec<String>)
    ensures
        line_texts(r@) == lines_in(old(pending)@),
        final(pending)@ == incomplete(old(pending)@),
{
    let ghost all = pending@;
    let mut lines: Vec<String> = Vec::new();
    let mut start: usize = 0;
    let mut i: usize = 0;
    assert(all.skip(0) =~= all);
    assert(line_texts(lines@) + lines_in(all.skip(0)) =~= lines_in(all));
    while i < pending.len()
        invariant
            start <= i <= pending.len(),
            pending@ == all,
            forall|k: int| start <= k < i ==> all[k] != 10,
            line_texts(lines@) + lines_in(all.skip(start as int)) == lines_in(all),
            incomplete(all.skip(start as int)) == incomplete(all),
        decreases pending.len() - i,
    {
        if pending[i] == 10 {
            let line = bytes_between(pending, start, i);
            proof {
                let rest = all.skip(start as int);
                let n = i - start;
                assert(rest[n] == 10);
                lemma_newline(rest, 0, n);
                assert(rest.take(n) =~= line@);
                assert(rest.skip(n + 1) =~= all.skip(i + 1));
            }
            let text = from_utf8_lossy(&line);
            let ghost before = line_texts(lines@);
            lines.push(text);
            assert(line_texts(lines@) =~= before.push(text@));
            assert(before + (seq![text@] + lines_in(all.skip(i + 1))) =~= before.push(text@)
                + lines_in(all.skip(i + 1)));
            start = i + 1;
        }
        i += 1;
    }
    proof {
        let rest = all.skip(start as int);
        lemma_newline(rest, 0, rest.len() as int);
        assert(line_texts(lines@) + Seq::<Seq<char>>::empty() =~= line_texts(lines@));
    }
    let left = bytes_between(pending, start, pending.len());
    assert(left@ =~= all.skip(start as int));
    *pending = left;
    lines
}

/// Several window lists, with their texts as sequences of characters.
pub open spec fn lists(snapshots: Seq<Vec<WindowInfo>>) -> Seq<Seq<Info>> {
    Seq::new(snapshots.len(), |i: int| infos(snapshots[i]@))
}

/// The panel's end: take the window lists out of the complete lines of what was
/// read from the compositor. Lines that hold none are ignored.
pub fn take_snapshots(pending: &mut Vec<u8>) -> (r: Vec<Vec<WindowInfo>>)
    ensures
        lists(r@) == snapshots_in(old(pending)@),
        final(pending)@ == incomplete(old(pending)@),
{
    let lines = take_lines(pending);
    let ghost all = lines_in(old(pending)@);
    let mut snapshots: Vec<Vec<WindowInfo>> = Vec::new();
    let mut i: usize = 0;
    assert(lists(snapshots@) =~= snapshots_of(all.take(0)));
    while i < lines.len()
        invariant
            i <= lines.len(),
            line_texts(lines@) == all,
            lists(snapshots@) == snapshots_of(all.take(i as int)),
        decreases lines.len() - i,
    {
        let ghost before = lists(snapshots@);
        assert(line_texts(lines@)[i as int] == lines@[i as int]@);
        assert(all.take(i + 1).drop_last() =~= all.take(i as int));
        if let Some(windows) = parse_snapshot(lines[i].as_str()) {
            snapshots.push(windows);
            assert(lists(snapshots@) =~= before.push(infos(windows@)));
        }
        i += 1;
    }
    assert(all.take(i as int) =~= all);
    snapshots
}

/// It does not matter how the bytes of a connection are cut into reads: what was
/// left over and what comes next give the messages, or the window lists, of the
/// whole.
pub proof fn reads_may_be_cut_anywhere(first: Seq<u8>, second: Seq<u8>)
    ensures
        messages_in(first + second) == messages_in(first) + messages_in(
            incomplete(first) + second,
        ),
        snapshots_in(first + second) == snapshots_in(first) + snapshots_in(
            incomplete(first) + second,
        ),
{
    lemma_lines_cut(first, second);
    let rest = lines_in(incomplete(first) + second);
    lemma_messages_joined(lines_in(first), rest);
    lemma_snapshots_joined(lines_in(first), rest);
}

proof fn lemma_lines_cut(first: Seq<u8>, second: Seq<u8>)
    ensures
        lines_in(first + second) == lines_in(first) + lines_in(incomplete(first) + second),
    decreases first.len(),
{
    lemma_newline_bounds(first, 0);
    let end = newline(first, 0);
    if end >= first.len() {
        assert(lines_in(first) + lines_in(incomplete(first) + second) =~= lines_in(first + second));
    } else {
        let whole = first + second;
        lemma_newline_first(first, 0);
        assert forall|k: int| 0 <= k < end implies whole[k] != 10 by {
            assert(whole[k] == first[k]);
        }
        assert(whole[end] == first[end]);
        lemma_newline(whole, 0, end);
        assert(whole.take(end) =~= first.take(end));
        assert(whole.skip(end + 1) =~= first.skip(end + 1) + second);
        lemma_lines_cut(first.skip(end + 1), second);
        assert(lines_in(whole) =~= lines_in(first) + lines_in(incomplete(first) + second));
    }
}

proof fn lemma_messages_joined(a: Seq<Seq<char>>, b: Seq<Seq<char>>)
    ensures
        messages_of(a + b) == messages_of(a) + messages_of(b),
    decreases b.len(),
{
    if b.len() == 0 {
        assert(a + b =~= a);
        assert(messages_of(a) + messages_of(b) =~= messages_of(a));
    } else {
        assert((a + b).drop_last() =~= a + b.drop_last());
        lemma_messages_joined(a, b.drop_last());
        assert(messages_of(a + b) =~= messages_of(a) + messages_of(b));
    }
}

proof fn lemma_snapshots_joined(a: Seq<Seq<char>>, b: Seq<Seq<char>>)
    ensures
        snapshots_of(a + b) == snapshots_of(a) + snapshots_of(b),
    decreases b.len(),
{
    if b.len() == 0 {
        assert(a + b =~= a);
        assert(snapshots_of(a) + snapshots_of(b) =~= snapshots_of(a));
    } else {
        assert((a + b).drop_last() =~= a + b.drop_last());
        lemma_snapshots_joined(a, b.drop_last());
        assert(snapshots_of(a + b) =~= snapshots_of(a) + snapshots_of(b));
    }
}

proof fn lemma_newline_first(bytes: Seq<u8>, i: int)
    requires
        0 <= i <= bytes.len(),
    ensures
        forall|k: int| i <= k < newline(bytes, i) ==> bytes[k] != 10,
        newline(bytes, i) < bytes.len() ==> bytes[newline(bytes, i)] == 10,
    decreases bytes.len() - i,
{
    if i < bytes.len() && bytes[i] != 10 {
        lemma_newline_first(bytes, i + 1);
    }
}

/// What a client says of itself.
#[derive(Debug)]
pub struct WindowName {
    pub window: u64,
    /// The window's app ID (Wayland) or WM_CLASS class (X11), used to pick an
    /// icon in the panel.
    pub app_id: String,
    pub title: String,
}

/// The app id and the title of the window `id` among `names`, from `i` on. A
/// window that says nothing has neither.
pub open spec fn name_of(names: Seq<WindowName>, id: u64, i: int) -> (Seq<char>, Seq<char>)
    decreases names.len() - i,
{
    if i < 0 || i >= names.len() {
        (Seq::empty(), Seq::empty())
    } else if names[i].window == id {
        (names[i].app_id@, names[i].title@)
    } else {
        name_of(names, id, i + 1)
    }
}

/// The app id and the title of the window `id`.
fn find_name(names: &Vec<WindowName>, id: u64) -> (r: (String, String))
    ensures
        (r.0@, r.1@) == name_of(names@, id, 0),
{
    let mut i: usize = 0;
    while i < names.len()
        invariant
            i <= names.len(),
            name_of(names@, id, 0) == name_of(names@, id, i as int),
        decreases names.len() - i,
    {
        if names[i].window == id {
            return (names[i].app_id.clone(), names[i].title.clone());
        }
        i += 1;
    }
    let (app_id, title) = (String::new(), String::new());
    assert(app_id@ =~= Seq::empty() && title@ =~= Seq::empty());
    (app_id, title)
}

impl WindowElement {
    /// The window with `panel_id` as the number the panel knows it by.
    pub open spec fn numbered(self, panel_id: u64) -> WindowElement {
        WindowElement { state: WindowState { panel_id: Some(panel_id), ..self.state }, ..self }
    }

    fn with_panel_id(self, panel_id: u64) -> (r: WindowElement)
        ensures
            r == self.numbered(panel_id),
            self.wf() ==> r.wf(),
    {
        WindowElement { state: WindowState { panel_id: Some(panel_id), ..self.state }, ..self }
    }
}

impl Desk {
    /// The windows that the panel lists: the mapped ones, then the minimized
    /// ones.
    pub open spec fn listed(self) -> Seq<(u64, bool)> {
        Seq::new(
            self.layout.elements.len() + self.minimized.len(),
            |i: int|
                if i < self.layout.elements.len() {
                    (self.layout.elements[i].window, false)
                } else {
                    (self.minimized[i - self.layout.elements.len()].window, true)
                },
        )
    }

    /// The state once the window `id` has a number, and what it is listed as.
    /// Ghosts are not listed.
    pub open spec fn listing(self, id: u64, minimized: bool, names: Seq<WindowName>) -> (
        Desk,
        Option<Info>,
    ) {
        match self.layout.window(id) {
            Some(window) if !window.ghosting() => {
                let (app_id, title) = name_of(names, id, 0);
                let (desk, panel_id) = match window.state.panel_id {
                    Some(panel_id) => (self, panel_id),
                    None => (
                        Desk {
                            next_panel_id: (self.next_panel_id + 1) as u64,
                            ..self.over(
                                self.layout.with_window(window.numbered(self.next_panel_id)),
                            )
                        },
                        self.next_panel_id,
                    ),
                };
                (
                    desk,
                    Some(
                        Info {
                            id: panel_id,
                            focused: self.has_keyboard && self.focus == Some(id),
                            minimized,
                            app_id,
                            title,
                        },
                    ),
                )
            },
            _ => (self, None),
        }
    }

    /// The state once each of `windows`, from `i` on, has a number, and what
    /// they are listed as, after `before`.
    pub open spec fn all_listing(
        self,
        windows: Seq<(u64, bool)>,
        i: int,
        names: Seq<WindowName>,
        before: Seq<Info>,
    ) -> (Desk, Seq<Info>)
        decreases windows.len() - i,
    {
        if i < 0 || i >= windows.len() {
            (self, before)
        } else {
            let (desk, info) = self.listing(windows[i].0, windows[i].1, names);
            desk.all_listing(
                windows,
                i + 1,
                names,
                match info {
                    Some(info) => before.push(info),
                    None => before,
                },
            )
        }
    }

    /// The state once every window has a number, and the list of windows.
    pub open spec fn published(self, names: Seq<WindowName>) -> (Desk, Seq<Info>) {
        self.all_listing(self.listed(), 0, names, Seq::empty())
    }

    /// The first of `windows`, from `i` on, that the panel knows by `panel_id`.
    pub open spec fn numbered_window(self, windows: Seq<(u64, bool)>, panel_id: u64, i: int) -> Option<
        u64,
    >
        decreases windows.len() - i,
    {
        if i < 0 || i >= windows.len() {
            None
        } else {
            match self.layout.window(windows[i].0) {
                Some(window) if window.state.panel_id == Some(panel_id) => Some(windows[i].0),
                _ => self.numbered_window(windows, panel_id, i + 1),
            }
        }
    }

    /// The state with the window `id` on top.
    pub open spec fn raised(self, id: u64) -> Desk {
        match self.layout.location(id) {
            Some(loc) => self.over(self.layout.mapped(id, loc, true)),
            None => self,
        }
    }

    /// The state with the window that the panel knows by `panel_id` restored,
    /// raised and focused.
    pub open spec fn panel_focused(self, panel_id: u64) -> Desk {
        match self.numbered_window(self.listed(), panel_id, 0) {
            Some(id) => {
                let raised = self.unminimizing(id).raised(id);
                let shown = match raised.layout.window(id) {
                    Some(window) if window.kind == SurfaceKind::X11 => raised.over(
                        raised.layout.acting(Action::RaiseX11 { window: id }),
                    ),
                    _ => raised,
                };
                if shown.has_keyboard {
                    Desk {
                        focus: Some(id),
                        layout: shown.layout.acting(Action::SetFocus { focus: Some(id) }),
                        ..shown
                    }
                } else {
                    shown
                }
            },
            None => self,
        }
    }

    /// The state after the messages from the `i`th on.
    pub open spec fn panel_obeyed(self, list: Seq<Message>, i: int) -> Desk
        decreases list.len() - i,
    {
        if i < 0 || i >= list.len() {
            self
        } else {
            (match list[i] {
                Message::Focus(id) => self.panel_focused(id),
                Message::Accent(_, _, _) => self,
            }).panel_obeyed(list, i + 1)
        }
    }

    /// Whether there are numbers left for the windows the panel lists.
    pub open spec fn can_number(self) -> bool {
        self.next_panel_id + self.layout.elements.len() + self.minimized.len() <= u64::MAX
    }
}

/// What the panel's socket is to be written and what its messages ask for.
pub struct PanelTick {
    /// The snapshot of the window list.
    pub snapshot: String,
    /// The line to write, if the panel has not got this snapshot.
    pub line: Option<String>,
    /// The messages that were received.
    pub messages: Vec<PanelMessage>,
}

impl AnvilState {
    /// The windows that the panel lists.
    fn listed_windows(&self) -> (r: Vec<(u64, bool)>)
        ensures
            r@ == self@.listed(),
    {
        let mut windows: Vec<(u64, bool)> = Vec::new();
        let mut i: usize = 0;
        while i < self.space.elements.len()
            invariant
                i <= self.space.elements.len(),
                windows.len() == i,
                forall|k: int|
                    0 <= k < i ==> windows@[k] == (self@.layout.elements[k].window, false),
            decreases self.space.elements.len() - i,
        {
            windows.push((self.space.elements[i].window, false));
            i += 1;
        }
        let n = self.space.elements.len();
        let mut k: usize = 0;
        while k < self.minimized.len()
            invariant
                k <= self.minimized.len(),
                n == self.space.elements.len(),
                windows.len() == n + k,
                forall|j: int|
                    0 <= j < n ==> windows@[j] == (self@.layout.elements[j].window, false),
                forall|j: int|
                    0 <= j < k ==> windows@[n + j] == (self@.minimized[j].window, true),
            decreases self.minimized.len() - k,
        {
            windows.push((self.minimized[k].window, true));
            k += 1;
        }
        assert(windows@ =~= self@.listed()) by {
            assert forall|j: int| 0 <= j < windows@.len() implies windows@[j] == self@.listed()[j] by {
                if j >= n {
                    assert(windows@[n + (j - n)] == (self@.minimized[j - n].window, true));
                }
            }
        }
        windows
    }

    /// List one window, giving it a number the first time.
    fn list_window(&mut self, id: u64, minimized: bool, names: &Vec<WindowName>) -> (r: Option<
        WindowInfo,
    >)
        requires
            old(self)@.wf(),
            old(self)@.next_panel_id < u64::MAX,
        ensures
            final(self)@.wf(),
            ({
                let (desk, info) = old(self)@.listing(id, minimized, names@);
                &&& final(self)@ == desk
                &&& match (r, info) {
                    (Some(window), Some(info)) => window@ == info,
                    (None, None) => true,
                    _ => false,
                }
            }),
            final(self)@.next_panel_id <= old(self)@.next_panel_id + 1,
    {
        let window = match self.space.window(id) {
            Some(window) => window,
            None => return None,
        };
        if window.is_ghosting() {
            return None;
        }
        // Assign a stable id the first time the window is published.
        let panel_id = match window.state.panel_id {
            Some(panel_id) => panel_id,
            None => {
                let panel_id = self.next_panel_id;
                self.next_panel_id = panel_id + 1;
                self.space.put(window.with_panel_id(panel_id));
                panel_id
            },
        };
        let (app_id, title) = find_name(names, id);
        // Highlight whatever actually has keyboard focus, not the newest window.
        let focused = self.has_keyboard && self.focus == Some(id);
        Some(WindowInfo { id: panel_id, focused, minimized, app_id, title })
    }

    /// Build the `list\t...` snapshot of every open window, including minimized
    /// ones (which are unmapped). Each window gets its own entry, so several
    /// instances of the same app stay distinct.
    pub fn panel_snapshot(&mut self, names: &Vec<WindowName>) -> (r: String)
        requires
            old(self)@.wf(),
            old(self)@.can_number(),
        ensures
            final(self)@.wf(),
            ({
                let (desk, windows) = old(self)@.published(names@);
                &&& final(self)@ == desk
                &&& r@ == snapshot_text(windows)
            }),
    {
        let listed = self.listed_windows();
        let mut windows: Vec<WindowInfo> = Vec::new();
        let mut i: usize = 0;
        assert(infos(windows@) =~= Seq::empty());
        while i < listed.len()
            invariant
                i <= listed.len(),
                self@.wf(),
                self@.next_panel_id <= old(self)@.next_panel_id + i,
                old(self)@.next_panel_id + listed.len() <= u64::MAX,
                self@.all_listing(listed@, i as int, names@, infos(windows@))
                    == old(self)@.all_listing(listed@, 0, names@, Seq::empty()),
            decreases listed.len() - i,
        {
            let (id, minimized) = listed[i];
            let ghost before = infos(windows@);
            if let Some(info) = self.list_window(id, minimized, names) {
                windows.push(info);
                assert(infos(windows@) =~= before.push(info@));
            }
            i += 1;
        }
        write_snapshot(&windows)
    }

    /// Focus and raise the window the panel asked for.
    pub fn focus_panel_window(&mut self, panel_id: u64)
        requires
            old(self)@.wf(),
        ensures
            final(self)@ == old(self)@.panel_focused(panel_id),
            final(self)@.wf(),
    {
        let listed = self.listed_windows();
        let mut i: usize = 0;
        while i < listed.len()
            invariant
                i <= listed.len(),
                self@ == old(self)@,
                self@.wf(),
                listed@ == self@.listed(),
                self@.numbered_window(listed@, panel_id, 0) == self@.numbered_window(
                    listed@,
                    panel_id,
                    i as int,
                ),
            decreases listed.len() - i,
        {
            let id = listed[i].0;
            if let Some(window) = self.space.window(id) {
                if window.state.panel_id == Some(panel_id) {
                    self.show_panel_window(id);
                    return;
                }
            }
            i += 1;
        }
    }

    /// Restore, raise and focus a window.
    fn show_panel_window(&mut self, id: u64)
        requires
            old(self)@.wf(),
        ensures
            final(self)@.wf(),
            ({
                let raised = old(self)@.unminimizing(id).raised(id);
                let shown = match raised.layout.window(id) {
                    Some(window) if window.kind == SurfaceKind::X11 => raised.over(
                        raised.layout.acting(Action::RaiseX11 { window: id }),
                    ),
                    _ => raised,
                };
                final(self)@ == (if shown.has_keyboard {
                    Desk {
                        focus: Some(id),
                        layout: shown.layout.acting(Action::SetFocus { focus: Some(id) }),
                        ..shown
                    }
                } else {
                    shown
                })
            }),
    {
        self.unminimize_request(id);
        if let Some(loc) = self.space.element_location(id) {
            self.space.map_element(id, loc, true);
        }
        if let Some(window) = self.space.window(id) {
            if window.is_x11() {
                self.space.act(Action::RaiseX11 { window: id });
            }
        }
        if self.has_keyboard {
            self.focus = Some(id);
            self.space.act(Action::SetFocus { focus: Some(id) });
        }
    }

    /// Publish the window list to the panel and handle its focus requests. Called
    /// once per frame, after the panel's socket was read; does nothing when no
    /// panel is connected. What a panel sent before it hung up is handled once
    /// more. The caller writes the line, if there is one, and tints
    /// the snap preview with the accent the panel sent.
    pub fn tick_panel(&mut self, ipc: &mut PanelIpc, names: &Vec<WindowName>) -> (r: PanelTick)
        requires
            old(self)@.wf(),
            old(ipc)@.is_attended() ==> old(self)@.can_number(),
        ensures
            final(self)@.wf(),
            !old(ipc)@.is_attended() ==> {
                &&& final(self)@ == old(self)@
                &&& final(ipc)@ == old(ipc)@
                &&& r.snapshot@ == Seq::<char>::empty()
                &&& r.line is None
                &&& r.messages@.len() == 0
            },
            old(ipc)@.is_attended() ==> {
                let obeyed = old(self)@.panel_obeyed(messages_in(old(ipc)@.read_buf), 0);
                let (desk, windows) = obeyed.published(names@);
                &&& messages(r.messages@) == messages_in(old(ipc)@.read_buf)
                &&& final(ipc)@ == (Connection {
                    hung_up: false,
                    read_buf: incomplete(old(ipc)@.read_buf),
                    ..old(ipc)@
                })
                &&& final(self)@ == desk
                &&& r.snapshot@ == snapshot_text(windows)
                &&& match r.line {
                    Some(line) => {
                        &&& old(ipc)@.connected && r.snapshot@ != old(ipc)@.last_snapshot
                        &&& line@ == r.snapshot@.push('\n')
                    },
                    None => !old(ipc)@.connected || r.snapshot@ == old(ipc)@.last_snapshot,
                }
            },
    {
        if !ipc.connected && !ipc.hung_up {
            let snapshot = String::new();
            assert(snapshot@ =~= Seq::<char>::empty());
            return PanelTick { snapshot, line: None, messages: Vec::new() };
        }
        ipc.hung_up = false;
        let list = ipc.poll();
        let mut i: usize = 0;
        while i < list.len()
            invariant
                i <= list.len(),
                self@.wf(),
                self@.can_number(),
                self@.panel_obeyed(messages(list@), i as int) == old(self)@.panel_obeyed(
                    messages(list@),
                    0,
                ),
            decreases list.len() - i,
        {
            assert(messages(list@)[i as int] == list@[i as int]@);
            if let PanelMessage::Focus(id) = &list[i] {
                proof {
                    lemma_focusing_lists_no_more(self@, *id);
                }
                self.focus_panel_window(*id);
            }
            i += 1;
        }
        let snapshot = self.panel_snapshot(names);
        let line = ipc.send(snapshot.as_str());
        PanelTick { snapshot, line, messages: list }
    }
}

/// Mapping a window adds at most that window.
proof fn lemma_mapped_count(layout: Layout, id: u64, loc: Point)
    ensures
        layout.mapped(id, loc, true).elements.len() == layout.elements.len() + (if layout.location(
            id,
        ) is Some {
            0int
        } else {
            1
        }),
{
    reveal(Layout::mapped);
    reveal(Layout::location);
    crate::space::lemma_placed_index_bounds(layout.elements, id, 0);
}

/// Focusing a window on the panel's request lists no more windows than before.
proof fn lemma_focusing_lists_no_more(desk: Desk, panel_id: u64)
    ensures
        desk.can_number() ==> desk.panel_focused(panel_id).can_number(),
{
    reveal(Layout::acting);
    match desk.numbered_window(desk.listed(), panel_id, 0) {
        Some(id) => {
            crate::space::lemma_placed_index_bounds(desk.minimized, id, 0);
            match placed_index(desk.minimized, id, 0) {
                Some(i) => lemma_mapped_count(desk.layout, id, desk.minimized[i].loc),
                None => {},
            }
            let restored = desk.unminimizing(id);
            match restored.layout.location(id) {
                Some(loc) => lemma_mapped_count(restored.layout, id, loc),
                None => {},
            }
        },
        None => {},
    }
}

/// Whether the numbers that windows have are distinct and were all given out.
pub open spec fn numbers_are_distinct(desk: Desk) -> bool {
    &&& forall|i: int|
        0 <= i < desk.layout.windows.len() ==> match (
        #[trigger] desk.layout.windows[i]).state.panel_id {
            Some(panel_id) => panel_id < desk.next_panel_id,
            None => true,
        }
    &&& forall|i: int, j: int|
        0 <= i < j < desk.layout.windows.len() && (
        #[trigger] desk.layout.windows[i]).state.panel_id is Some ==> desk.layout.windows[i].state.panel_id
            != (#[trigger] desk.layout.windows[j]).state.panel_id
}

/// Listing a window keeps the numbers of all windows distinct, and a window that
/// has a number keeps it.
pub proof fn panel_numbers_stay_distinct(
    desk: Desk,
    id: u64,
    minimized: bool,
    names: Seq<WindowName>,
    i: int,
)
    requires
        numbers_are_distinct(desk),
        desk.next_panel_id < u64::MAX,
        0 <= i < desk.layout.windows.len(),
    ensures
        numbers_are_distinct(desk.listing(id, minimized, names).0),
        desk.layout.windows[i].state.panel_id is Some ==> desk.listing(
            id,
            minimized,
            names,
        ).0.layout.windows[i].state.panel_id == desk.layout.windows[i].state.panel_id,
{
    reveal(Layout::window);
    reveal(Layout::with_window);
    crate::space::lemma_window_index_bounds(desk.layout.windows, id, 0);
}

} // verus!
