//! The desktop panel: the list of open windows as the compositor reports it, and
//! what the panel shows for it.

use vstd::prelude::*;

use crate::strings::{chars_of, parse_u64, push_decimal, push_text, same_chars, split, text_of};

verus! {

use crate::strings::{
    decimal, decimal_round_trip, decimal_writes_its_number, free_of, is_digit, lemma_find_char,
    lemma_split_first, lemma_split_single, parsed_u64, split_on, texts, find_char,
};

/// Height of the panel.
pub const PANEL_HEIGHT: i32 = 40;

/// Each app is a 1:1 square.
pub const SQUARE_SIZE: i32 = 36;

/// Width of the square's CSS border, which sits inside the square.
pub const SQUARE_BORDER: i32 = 1;

/// Width and height of an app's icon.
pub const ICON_SIZE: i32 = 26;

/// Height of the indicator strip under the icon.
pub const INDICATOR_HEIGHT: i32 = 6;

/// Diameter of an indicator dot.
pub const DOT_SIZE: i64 = 3;

/// Space between two indicator dots.
pub const DOT_GAP: i64 = 2;

/// How often the panel drains the compositor socket, in milliseconds.
pub const POLL_INTERVAL_MILLIS: u64 = 50;

/// One open window as reported by the compositor.
#[derive(Debug)]
pub struct WindowInfo {
    pub id: u64,
    pub focused: bool,
    pub minimized: bool,
    pub app_id: String,
    pub title: String,
}

/// One open window, with its texts as sequences of characters.
#[verifier::ext_equal]
pub struct Info {
    pub id: u64,
    pub focused: bool,
    pub minimized: bool,
    pub app_id: Seq<char>,
    pub title: Seq<char>,
}

impl View for WindowInfo {
    type V = Info;

    open spec fn view(&self) -> Info {
        Info {
            id: self.id,
            focused: self.focused,
            minimized: self.minimized,
            app_id: self.app_id@,
            title: self.title@,
        }
    }
}

/// Several windows, with their texts as sequences of characters.
pub open spec fn infos(windows: Seq<WindowInfo>) -> Seq<Info> {
    Seq::new(windows.len(), |i: int| windows[i]@)
}

/// Whether a character would break the framing of the protocol.
pub open spec fn breaks_framing(c: char) -> bool {
    c == '\t' || c == '\n' || c == '\r'
}

/// `text` with blanks in place of what would break the framing.
pub open spec fn sanitized(text: Seq<char>) -> Seq<char> {
    Seq::new(
        text.len(),
        |i: int|
            if breaks_framing(text[i]) {
                ' '
            } else {
                text[i]
            },
    )
}

/// `info` with sanitized texts.
pub open spec fn sanitized_info(info: Info) -> Info {
    Info { app_id: sanitized(info.app_id), title: sanitized(info.title), ..info }
}

/// Append `value` with tabs/newlines replaced so it can't break the framing.
pub fn push_sanitized(out: &mut String, value: &str)
    ensures
        final(out)@ == old(out)@ + sanitized(value@),
{
    let chars = chars_of(value);
    let mut i: usize = 0;
    while i < chars.len()
        invariant
            i <= chars.len(),
            chars@ == value@,
            out@ == old(out)@ + sanitized(value@).take(i as int),
        decreases chars.len() - i,
    {
        let c = chars[i];
        out.push(if c == '\t' || c == '\n' || c == '\r' { ' ' } else { c });
        i += 1;
        assert(out@ =~= old(out)@ + sanitized(value@).take(i as int));
    }
    assert(sanitized(value@).take(i as int) =~= sanitized(value@));
}

/// A flag as the protocol writes it.
pub open spec fn flag(v: bool) -> Seq<char> {
    if v {
        seq!['1']
    } else {
        seq!['0']
    }
}

/// The separator of the protocol's fields.
pub open spec fn tab() -> Seq<char> {
    seq!['\t']
}

/// What the protocol writes of one window, without the separator before it.
pub open spec fn entry_body(info: Info) -> Seq<char> {
    decimal(info.id as nat) + tab() + (flag(info.focused) + tab() + (flag(info.minimized) + tab() + (
    sanitized(info.app_id) + tab() + sanitized(info.title))))
}

/// What the protocol writes of several windows after the head of a message.
pub open spec fn with_entries(head: Seq<char>, windows: Seq<Info>) -> Seq<char>
    decreases windows.len(),
{
    if windows.len() == 0 {
        head
    } else {
        with_entries(head, windows.drop_last()) + tab() + entry_body(windows.last())
    }
}

/// The message that lists `windows`.
pub open spec fn snapshot_text(windows: Seq<Info>) -> Seq<char> {
    with_entries(seq!['l', 'i', 's', 't'] + tab() + decimal(windows.len()), windows)
}

/// Append what the protocol writes of one window, with the separator before it.
pub fn push_entry(out: &mut String, info: &WindowInfo)
    ensures
        final(out)@ == old(out)@ + tab() + entry_body(info@),
{
    out.push('\t');
    push_decimal(out, info.id);
    out.push('\t');
    out.push(if info.focused { '1' } else { '0' });
    out.push('\t');
    out.push(if info.minimized { '1' } else { '0' });
    out.push('\t');
    push_sanitized(out, info.app_id.as_str());
    out.push('\t');
    push_sanitized(out, info.title.as_str());
    assert(out@ =~= old(out)@ + tab() + entry_body(info@));
}

/// The message that lists `windows`.
pub fn write_snapshot(windows: &Vec<WindowInfo>) -> (r: String)
    ensures
        r@ == snapshot_text(infos(windows@)),
{
    let mut text = String::new();
    text.push('l');
    text.push('i');
    text.push('s');
    text.push('t');
    text.push('\t');
    push_decimal(&mut text, windows.len() as u64);
    let ghost head = seq!['l', 'i', 's', 't'] + tab() + decimal(windows@.len());
    assert(text@ =~= head);
    let ghost all = infos(windows@);
    let mut i: usize = 0;
    assert(all.take(0) =~= Seq::empty());
    while i < windows.len()
        invariant
            i <= windows.len(),
            all == infos(windows@),
            text@ == with_entries(head, all.take(i as int)),
        decreases windows.len() - i,
    {
        push_entry(&mut text, &windows[i]);
        assert(all.take(i + 1).drop_last() =~= all.take(i as int));
        i += 1;
    }
    assert(all.take(i as int) =~= all);
    text
}

/// The windows that the fields from the `i`th on list. None if a window is
/// incomplete or has no number.
pub open spec fn windows_in(fields: Seq<Seq<char>>, i: int) -> Option<Seq<Info>>
    decreases fields.len() - i,
{
    if i < 0 || i >= fields.len() {
        Some(Seq::empty())
    } else if i + 5 > fields.len() {
        None
    } else {
        match (parsed_u64(fields[i]), windows_in(fields, i + 5)) {
            (Some(id), Some(rest)) => Some(
                seq![
                    Info {
                        id,
                        focused: fields[i + 1] == flag(true),
                        minimized: fields[i + 2] == flag(true),
                        app_id: fields[i + 3],
                        title: fields[i + 4],
                    },
                ] + rest,
            ),
            _ => None,
        }
    }
}

/// The windows that a message lists. None if it is another message.
pub open spec fn parsed_snapshot(line: Seq<char>) -> Option<Seq<Info>> {
    let fields = split_on(line, '\t');
    if fields.len() >= 2 && fields[0] == seq!['l', 'i', 's', 't'] && parsed_u64(fields[1]) is Some {
        windows_in(fields, 2)
    } else {
        None
    }
}

fn is_one(chars: &Vec<char>) -> (r: bool)
    ensures
        r == (chars@ == flag(true)),
{
    if chars.len() == 1 && chars[0] == '1' {
        assert(chars@ =~= flag(true));
        true
    } else {
        false
    }
}

fn is_list(chars: &Vec<char>) -> (r: bool)
    ensures
        r == (chars@ == seq!['l', 'i', 's', 't']),
{
    let r = chars.len() == 4 && chars[0] == 'l' && chars[1] == 'i' && chars[2] == 's' && chars[3]
        == 't';
    proof {
        if r {
            assert(chars@ =~= seq!['l', 'i', 's', 't']);
        }
    }
    r
}

/// Parse a `list\t<count>\t<id>\t<focused>\t<minimized>\t<app_id>\t<title>...`
/// line.
pub fn parse_snapshot(line: &str) -> (r: Option<Vec<WindowInfo>>)
    ensures
        match (r, parsed_snapshot(line@)) {
            (Some(windows), Some(listed)) => infos(windows@) == listed,
            (None, None) => true,
            _ => false,
        },
{
    let chars = chars_of(line);
    let fields = split(&chars, '\t');
    let ghost all = split_on(line@, '\t');
    assert(texts(fields@) == all);
    assert(forall|k: int| 0 <= k < fields.len() ==> all[k] == #[trigger] fields@[k]@);
    if fields.len() < 2 || !is_list(&fields[0]) || parse_u64(&fields[1]).is_none() {
        return None;
    }
    let mut windows: Vec<WindowInfo> = Vec::new();
    let mut i: usize = 2;
    assert(windows_in(all, 2) is Some ==> infos(windows@) + windows_in(all, 2)->0
        =~= windows_in(all, 2)->0);
    while i < fields.len()
        invariant
            2 <= i <= fields.len(),
            texts(fields@) == all,
            forall|k: int| 0 <= k < fields.len() ==> all[k] == #[trigger] fields@[k]@,
            all == split_on(line@, '\t'),
            parsed_snapshot(line@) == windows_in(all, 2),
            windows_in(all, i as int) is Some <==> windows_in(all, 2) is Some,
            windows_in(all, 2) is Some ==> infos(windows@) + windows_in(all, i as int)->0
                == windows_in(all, 2)->0,
        decreases fields.len() - i,
    {
        if fields.len() - i < 5 {
            return None;
        }
        let id = match parse_u64(&fields[i]) {
            Some(id) => id,
            None => return None,
        };
        let window = WindowInfo {
            id,
            focused: is_one(&fields[i + 1]),
            minimized: is_one(&fields[i + 2]),
            app_id: text_of(&fields[i + 3]),
            title: text_of(&fields[i + 4]),
        };
        proof {
            assert(infos(windows@.push(window)) =~= infos(windows@).push(window@));
            if windows_in(all, 2) is Some {
                let rest = windows_in(all, i + 5)->0;
                assert(infos(windows@) + (seq![window@] + rest) =~= infos(windows@).push(window@)
                    + rest);
            }
        }
        windows.push(window);
        i += 5;
    }
    assert(infos(windows@) + Seq::<Info>::empty() =~= infos(windows@));
    Some(windows)
}

/// A sanitized text cannot break the framing, and is as long as the text.
pub proof fn sanitizing_keeps_the_framing(text: Seq<char>)
    ensures
        sanitized(text).len() == text.len(),
        free_of(sanitized(text), '\t'),
        free_of(sanitized(text), '\n'),
        free_of(sanitized(text), '\r'),
        sanitized(sanitized(text)) == sanitized(text),
{
    assert(sanitized(sanitized(text)) =~= sanitized(text));
}

/// The parts of two texts with a separator between them are the parts of the
/// one and then of the other.
proof fn lemma_split_concat(a: Seq<char>, sep: char, b: Seq<char>)
    ensures
        split_on(a + seq![sep] + b, sep) == split_on(a, sep) + split_on(b, sep),
    decreases a.len(),
{
    lemma_find_char(a, sep, 0);
    let i = find_char(a, sep, 0);
    if i >= a.len() {
        assert(free_of(a, sep));
        lemma_split_first(a, sep, b);
        lemma_split_single(a, sep);
    } else {
        let head = a.take(i);
        let rest = a.skip(i + 1);
        assert(free_of(head, sep)) by {
            assert forall|k: int| 0 <= k < head.len() implies head[k] != sep by {
                assert(head[k] == a[k]);
            }
        }
        assert(a + seq![sep] + b =~= head + seq![sep] + (rest + seq![sep] + b));
        assert(a =~= head + seq![sep] + rest);
        lemma_split_first(head, sep, rest + seq![sep] + b);
        lemma_split_first(head, sep, rest);
        lemma_split_concat(rest, sep, b);
        assert(seq![head] + (split_on(rest, sep) + split_on(b, sep)) =~= seq![head] + split_on(
            rest,
            sep,
        ) + split_on(b, sep));
    }
}

/// The fields of one window.
spec fn fields_of(info: Info) -> Seq<Seq<char>> {
    seq![
        decimal(info.id as nat),
        flag(info.focused),
        flag(info.minimized),
        sanitized(info.app_id),
        sanitized(info.title),
    ]
}

proof fn lemma_digits_free(n: nat)
    ensures
        free_of(decimal(n), '\t'),
        free_of(decimal(n), '\n'),
{
    decimal_writes_its_number(n);
    assert forall|i: int| 0 <= i < decimal(n).len() implies decimal(n)[i] != '\t' && decimal(n)[i]
        != '\n' by {
        assert(is_digit(decimal(n)[i]));
    }
}

proof fn lemma_body_fields(info: Info)
    ensures
        split_on(entry_body(info), '\t') == fields_of(info),
{
    let app = sanitized(info.app_id);
    let title = sanitized(info.title);
    lemma_digits_free(info.id as nat);
    sanitizing_keeps_the_framing(info.app_id);
    sanitizing_keeps_the_framing(info.title);
    let tail1 = app + tab() + title;
    let tail2 = flag(info.minimized) + tab() + tail1;
    let tail3 = flag(info.focused) + tab() + tail2;
    lemma_split_single(title, '\t');
    lemma_split_first(app, '\t', title);
    lemma_split_first(flag(info.minimized), '\t', tail1);
    lemma_split_first(flag(info.focused), '\t', tail2);
    lemma_split_first(decimal(info.id as nat), '\t', tail3);
    assert(split_on(entry_body(info), '\t') =~= fields_of(info));
}

/// The fields of a list of windows follow those of the head, five each.
proof fn lemma_list_fields(head: Seq<char>, windows: Seq<Info>)
    ensures
        ({
            let fields = split_on(with_entries(head, windows), '\t');
            let n = split_on(head, '\t').len() as int;
            &&& fields.len() == n + 5 * windows.len()
            &&& forall|k: int| 0 <= k < n ==> fields[k] == split_on(head, '\t')[k]
            &&& forall|k: int|
                0 <= k < windows.len() ==> {
                    &&& fields[n + 5 * k] == decimal((#[trigger] windows[k]).id as nat)
                    &&& fields[n + 5 * k + 1] == flag(windows[k].focused)
                    &&& fields[n + 5 * k + 2] == flag(windows[k].minimized)
                    &&& fields[n + 5 * k + 3] == sanitized(windows[k].app_id)
                    &&& fields[n + 5 * k + 4] == sanitized(windows[k].title)
                }
        }),
    decreases windows.len(),
{
    if windows.len() > 0 {
        let shorter = windows.drop_last();
        let text = with_entries(head, shorter);
        lemma_list_fields(head, shorter);
        lemma_split_concat(text, '\t', entry_body(windows.last()));
        lemma_body_fields(windows.last());
        let fields = split_on(with_entries(head, windows), '\t');
        let before = split_on(text, '\t');
        assert(fields == before + fields_of(windows.last()));
        let n = split_on(head, '\t').len() as int;
        assert forall|k: int| 0 <= k < windows.len() implies {
            &&& fields[n + 5 * k] == decimal((#[trigger] windows[k]).id as nat)
            &&& fields[n + 5 * k + 1] == flag(windows[k].focused)
            &&& fields[n + 5 * k + 2] == flag(windows[k].minimized)
            &&& fields[n + 5 * k + 3] == sanitized(windows[k].app_id)
            &&& fields[n + 5 * k + 4] == sanitized(windows[k].title)
        } by {
            if k < shorter.len() {
                assert(windows[k] == shorter[k]);
            } else {
                assert(before.len() == n + 5 * k);
            }
        }
    }
}

/// What the panel reads of a snapshot is what the compositor wrote into it: every
/// window, in order, with sanitized texts.
pub proof fn snapshot_round_trip(windows: Seq<Info>)
    requires
        windows.len() <= u64::MAX,
    ensures
        parsed_snapshot(snapshot_text(windows)) == Some(
            Seq::new(windows.len(), |i: int| sanitized_info(windows[i])),
        ),
{
    let list = seq!['l', 'i', 's', 't'];
    let count = decimal(windows.len());
    let head = list + tab() + count;
    lemma_digits_free(windows.len());
    assert(free_of(list, '\t'));
    lemma_split_first(list, '\t', count);
    lemma_split_single(count, '\t');
    assert(split_on(head, '\t') =~= seq![list, count]);
    lemma_list_fields(head, windows);
    decimal_round_trip(windows.len() as u64);
    let fields = split_on(snapshot_text(windows), '\t');
    assert(fields[0] == list);
    assert(fields[1] == count);
    lemma_windows_read(fields, windows, 0);
    assert(windows.skip(0) =~= windows);
}

proof fn lemma_free_concat(a: Seq<char>, b: Seq<char>, c: char)
    requires
        free_of(a, c),
        free_of(b, c),
    ensures
        free_of(a + b, c),
{
    assert forall|i: int| 0 <= i < (a + b).len() implies (a + b)[i] != c by {
        if i < a.len() {
            assert((a + b)[i] == a[i]);
        } else {
            assert((a + b)[i] == b[i - a.len()]);
        }
    }
}

proof fn lemma_entries_line(head: Seq<char>, windows: Seq<Info>)
    requires
        free_of(head, '\n'),
    ensures
        free_of(with_entries(head, windows), '\n'),
    decreases windows.len(),
{
    if windows.len() > 0 {
        let info = windows.last();
        let before = with_entries(head, windows.drop_last());
        lemma_entries_line(head, windows.drop_last());
        lemma_digits_free(info.id as nat);
        sanitizing_keeps_the_framing(info.app_id);
        sanitizing_keeps_the_framing(info.title);
        let texts = sanitized(info.app_id) + tab() + sanitized(info.title);
        lemma_free_concat(sanitized(info.app_id), tab(), '\n');
        lemma_free_concat(sanitized(info.app_id) + tab(), sanitized(info.title), '\n');
        let minimized = flag(info.minimized) + tab() + texts;
        lemma_free_concat(flag(info.minimized), tab(), '\n');
        lemma_free_concat(flag(info.minimized) + tab(), texts, '\n');
        let focused = flag(info.focused) + tab() + minimized;
        lemma_free_concat(flag(info.focused), tab(), '\n');
        lemma_free_concat(flag(info.focused) + tab(), minimized, '\n');
        let id = decimal(info.id as nat);
        lemma_free_concat(id, tab(), '\n');
        lemma_free_concat(id + tab(), focused, '\n');
        lemma_free_concat(before, tab(), '\n');
        lemma_free_concat(before + tab(), entry_body(info), '\n');
    }
}

/// A window list is one line, whatever the windows call themselves.
pub proof fn snapshots_are_one_line(windows: Seq<Info>)
    ensures
        free_of(snapshot_text(windows), '\n'),
{
    let list = seq!['l', 'i', 's', 't'] + tab();
    lemma_digits_free(windows.len());
    assert(free_of(list, '\n'));
    lemma_free_concat(list, decimal(windows.len()), '\n');
    lemma_entries_line(list + decimal(windows.len()), windows);
}

proof fn lemma_windows_read(fields: Seq<Seq<char>>, windows: Seq<Info>, k: int)
    requires
        0 <= k <= windows.len(),
        fields.len() == 2 + 5 * windows.len(),
        forall|k: int|
            0 <= k < windows.len() ==> {
                &&& fields[2 + 5 * k] == decimal((#[trigger] windows[k]).id as nat)
                &&& fields[2 + 5 * k + 1] == flag(windows[k].focused)
                &&& fields[2 + 5 * k + 2] == flag(windows[k].minimized)
                &&& fields[2 + 5 * k + 3] == sanitized(windows[k].app_id)
                &&& fields[2 + 5 * k + 4] == sanitized(windows[k].title)
            },
    ensures
        windows_in(fields, 2 + 5 * k) == Some(
            Seq::new(
                (windows.len() - k) as nat,
                |i: int| sanitized_info(windows.skip(k)[i]),
            ),
        ),
    decreases windows.len() - k,
{
    let read = Seq::new((windows.len() - k) as nat, |i: int| sanitized_info(windows.skip(k)[i]));
    if k < windows.len() {
        lemma_windows_read(fields, windows, k + 1);
        decimal_round_trip(windows[k].id);
        assert(flag(true)[0] != flag(false)[0]);
        let rest = Seq::new(
            (windows.len() - (k + 1)) as nat,
            |i: int| sanitized_info(windows.skip(k + 1)[i]),
        );
        assert(2 + 5 * (k + 1) == 2 + 5 * k + 5);
        assert(seq![sanitized_info(windows[k])] + rest =~= read);
    } else {
        assert(read =~= Seq::empty());
    }
}

/// The first focused window, from `i` on.
pub open spec fn first_focused(windows: Seq<&WindowInfo>, i: int) -> Option<int>
    decreases windows.len() - i,
{
    if i < 0 || i >= windows.len() {
        None
    } else if windows[i].focused {
        Some(i)
    } else {
        first_focused(windows, i + 1)
    }
}

/// The window after the `i`th of `n`, in a circle.
pub open spec fn next_in_circle(i: int, n: int) -> int {
    (i + 1) % n
}

/// The window a click on an app square should focus: the next one after the
/// focused window, or the first if none of them is focused.
pub fn next_window_id(windows: &[&WindowInfo]) -> (r: u64)
    requires
        windows.len() > 0,
    ensures
        r == (match first_focused(windows@, 0) {
            Some(i) => windows@[next_in_circle(i, windows@.len() as int)].id,
            None => windows@[0].id,
        }),
{
    let mut i: usize = 0;
    while i < windows.len()
        invariant
            i <= windows.len(),
            windows.len() > 0,
            first_focused(windows@, 0) == first_focused(windows@, i as int),
        decreases windows.len() - i,
    {
        if windows[i].focused {
            return windows[(i + 1) % windows.len()].id;
        }
        i += 1;
    }
    windows[0].id
}

/// The window after so many clicks, from the `i`th of `n`.
pub open spec fn after_clicks(i: int, n: int, clicks: nat) -> int
    decreases clicks,
{
    if clicks == 0 {
        i
    } else {
        next_in_circle(after_clicks(i, n, (clicks - 1) as nat), n)
    }
}

/// Repeated clicks cycle through an app's windows: each comes up once before
/// the first comes up again.
pub proof fn clicks_cycle_through_the_windows(i: int, n: int, clicks: nat)
    requires
        0 <= i < n,
    ensures
        after_clicks(i, n, clicks) == (i + clicks) % n,
        after_clicks(i, n, n as nat) == i,
    decreases clicks,
{
    lemma_after_clicks(i, n, clicks);
    lemma_after_clicks(i, n, n as nat);
    assert((i + n) % n == i) by (nonlinear_arith)
        requires
            0 <= i < n,
    ;
}

proof fn lemma_after_clicks(i: int, n: int, clicks: nat)
    requires
        0 <= i < n,
    ensures
        after_clicks(i, n, clicks) == (i + clicks) % n,
    decreases clicks,
{
    if clicks == 0 {
        assert(i % n == i) by (nonlinear_arith)
            requires
                0 <= i < n,
        ;
    } else {
        let before = (clicks - 1) as nat;
        lemma_after_clicks(i, n, before);
        vstd::arithmetic::div_mod::lemma_add_mod_noop(i + before, 1, n);
        if n == 1 {
            vstd::arithmetic::div_mod::lemma_mod_multiples_basic(i + clicks, 1);
        } else {
            assert(1int % n == 1) by (nonlinear_arith)
                requires
                    1 < n,
            ;
        }
    }
}

/// The text shown for a window: its title, or its app where it has none.
pub open spec fn tooltip_of(info: Info) -> Seq<char> {
    let name = if info.title.len() == 0 {
        info.app_id
    } else {
        info.title
    };
    if info.minimized {
        name + " (minimized)"@
    } else {
        name
    }
}

pub fn window_tooltip(info: &WindowInfo) -> (r: String)
    ensures
        r@ == tooltip_of(info@),
{
    let title = chars_of(info.title.as_str());
    let mut text = if title.len() == 0 { info.app_id.clone() } else { info.title.clone() };
    if info.minimized {
        push_text(&mut text, " (minimized)");
    }
    text
}

/// What the square of an app shows.
#[derive(Debug)]
pub struct AppButton {
    pub focused: bool,
    pub minimized: bool,
    pub tooltip: String,
    /// The window that a click focuses.
    pub target: u64,
}

/// One square (1:1) per app: highlighted if one of its windows has the focus,
/// faded if all of them are minimized.
pub fn app_button(windows: &[&WindowInfo]) -> (r: AppButton)
    requires
        windows.len() > 0,
    ensures
        r.focused == (first_focused(windows@, 0) is Some),
        r.minimized == (forall|i: int| 0 <= i < windows@.len() ==> (#[trigger] windows@[i]).minimized),
        r.tooltip@ == (if windows@.len() == 1 {
            tooltip_of(windows@[0]@)
        } else {
            decimal(windows@.len()) + " windows"@
        }),
        r.target == (match first_focused(windows@, 0) {
            Some(i) => windows@[next_in_circle(i, windows@.len() as int)].id,
            None => windows@[0].id,
        }),
{
    let mut focused = false;
    let mut minimized = true;
    let mut i: usize = 0;
    while i < windows.len()
        invariant
            i <= windows.len(),
            focused ==> first_focused(windows@, 0) is Some,
            !focused ==> first_focused(windows@, 0) == first_focused(windows@, i as int),
            minimized == (forall|k: int| 0 <= k < i ==> (#[trigger] windows@[k]).minimized),
        decreases windows.len() - i,
    {
        if windows[i].focused {
            focused = true;
        }
        if !windows[i].minimized {
            minimized = false;
        }
        i += 1;
    }
    let tooltip = if windows.len() == 1 {
        window_tooltip(windows[0])
    } else {
        let mut text = String::new();
        push_decimal(&mut text, windows.len() as u64);
        assert(text@ =~= decimal(windows@.len()));
        push_text(&mut text, " windows");
        text
    };
    AppButton { focused, minimized, tooltip, target: next_window_id(windows) }
}

/// The windows of one app.
pub struct AppGroup {
    /// What the windows have in common: the app id, or the number of a window
    /// without one.
    pub key: Vec<char>,
    /// The indices of the windows, in order.
    pub windows: Vec<usize>,
}

/// The windows of one app, as sequences.
#[verifier::ext_equal]
pub struct Group {
    pub key: Seq<char>,
    pub windows: Seq<int>,
}

impl View for AppGroup {
    type V = Group;

    open spec fn view(&self) -> Group {
        Group {
            key: self.key@,
            windows: Seq::new(self.windows@.len(), |i: int| self.windows@[i] as int),
        }
    }
}

/// What the windows of an app have in common. Windows with no app id get a key
/// of their own so they don't all collapse together.
pub open spec fn group_key(info: Info) -> Seq<char> {
    if info.app_id.len() == 0 {
        seq!['#'] + decimal(info.id as nat)
    } else {
        info.app_id
    }
}

/// The first of `groups` with `key`, from `i` on.
pub open spec fn group_index(groups: Seq<Group>, key: Seq<char>, i: int) -> Option<int>
    decreases groups.len() - i,
{
    if i < 0 || i >= groups.len() {
        None
    } else if groups[i].key == key {
        Some(i)
    } else {
        group_index(groups, key, i + 1)
    }
}

/// `groups` with the window `window` in the group of its `key`.
pub open spec fn grouped_with(groups: Seq<Group>, key: Seq<char>, window: int) -> Seq<Group> {
    match group_index(groups, key, 0) {
        Some(i) => groups.update(
            i,
            Group { key, windows: groups[i].windows.push(window) },
        ),
        None => groups.push(Group { key, windows: seq![window] }),
    }
}

/// The windows grouped by app, in first-seen order.
pub open spec fn grouped(windows: Seq<Info>) -> Seq<Group>
    decreases windows.len(),
{
    if windows.len() == 0 {
        Seq::empty()
    } else {
        grouped_with(
            grouped(windows.drop_last()),
            group_key(windows.last()),
            windows.len() - 1,
        )
    }
}

/// Several groups, as sequences.
pub open spec fn groups_of(groups: Seq<AppGroup>) -> Seq<Group> {
    Seq::new(groups.len(), |i: int| groups[i]@)
}

/// What a window has in common with the others of its app.
fn key_of(info: &WindowInfo) -> (r: Vec<char>)
    ensures
        r@ == group_key(info@),
{
    let app_id = chars_of(info.app_id.as_str());
    if app_id.len() > 0 {
        return app_id;
    }
    let mut text = String::new();
    text.push('#');
    push_decimal(&mut text, info.id);
    assert(text@ =~= seq!['#'] + decimal(info.id as nat));
    chars_of(text.as_str())
}

/// Group the windows by app, keeping first-seen order.
pub fn group_windows(windows: &Vec<WindowInfo>) -> (r: Vec<AppGroup>)
    ensures
        groups_of(r@) == grouped(infos(windows@)),
{
    let mut groups: Vec<AppGroup> = Vec::new();
    let ghost all = infos(windows@);
    let mut i: usize = 0;
    assert(all.take(0) =~= Seq::empty());
    assert(groups_of(groups@) =~= Seq::empty());
    while i < windows.len()
        invariant
            i <= windows.len(),
            all == infos(windows@),
            groups_of(groups@) == grouped(all.take(i as int)),
        decreases windows.len() - i,
    {
        let key = key_of(&windows[i]);
        let ghost before = groups_of(groups@);
        let mut k: usize = 0;
        while k < groups.len() && !same_chars(&groups[k].key, &key)
            invariant
                k <= groups.len(),
                before == groups_of(groups@),
                group_index(before, key@, 0) == group_index(before, key@, k as int),
            decreases groups.len() - k,
        {
            assert(before[k as int].key == groups@[k as int].key@);
            k += 1;
        }
        if k < groups.len() {
            assert(before[k as int].key == groups@[k as int].key@);
            let mut members = groups[k].windows.clone();
            assert(members@ =~= groups@[k as int].windows@);
            members.push(i);
            let group = AppGroup { key, windows: members };
            assert(group@ =~= (Group {
                key: key@,
                windows: before[k as int].windows.push(i as int),
            }));
            groups.set(k, group);
            assert(groups_of(groups@) =~= before.update(k as int, group@));
        } else {
            let mut members: Vec<usize> = Vec::new();
            members.push(i);
            let ghost text = key@;
            let group = AppGroup { key, windows: members };
            assert(group@ =~= (Group { key: text, windows: seq![i as int] }));
            groups.push(group);
            assert(groups_of(groups@) =~= before.push(group@));
        }
        assert(all.take(i + 1).drop_last() =~= all.take(i as int));
        i += 1;
    }
    assert(all.take(i as int) =~= all);
    groups
}

/// The app id that a group stands for: none if it is a window without one.
pub fn group_app_id(group: &AppGroup) -> (r: String)
    ensures
        r@ == (if group@.key.len() > 0 && group@.key[0] == '#' {
            Seq::<char>::empty()
        } else {
            group@.key
        }),
{
    if group.key.len() > 0 && group.key[0] == '#' {
        let text = String::new();
        assert(text@ =~= Seq::empty());
        text
    } else {
        text_of(&group.key)
    }
}

/// Windows with no app id never collapse together.
pub proof fn windows_without_an_app_stay_apart(a: Info, b: Info)
    requires
        a.app_id.len() == 0,
        b.app_id.len() == 0,
        a.id != b.id,
    ensures
        group_key(a) != group_key(b),
{
    decimal_round_trip(a.id);
    decimal_round_trip(b.id);
    assert(group_key(a).skip(1) =~= decimal(a.id as nat));
    assert(group_key(b).skip(1) =~= decimal(b.id as nat));
}

/// Whether the window `w` is in one of `groups`.
pub open spec fn is_grouped(groups: Seq<Group>, w: int) -> bool {
    exists|g: int, k: int|
        0 <= g < groups.len() && 0 <= k < groups[g].windows.len() && #[trigger] groups[g].windows[k]
            == w
}

/// Every window is in exactly the group of its key, in order, and no two groups
/// have the same key.
pub proof fn groups_partition_the_windows(windows: Seq<Info>)
    ensures
        ({
            let groups = grouped(windows);
            &&& forall|i: int, j: int|
                0 <= i < j < groups.len() ==> (#[trigger] groups[i]).key != (
                #[trigger] groups[j]).key
            &&& forall|g: int, k: int|
                0 <= g < groups.len() && 0 <= k < groups[g].windows.len() ==> {
                    let w = #[trigger] groups[g].windows[k];
                    &&& 0 <= w < windows.len()
                    &&& group_key(windows[w]) == groups[g].key
                    &&& k + 1 < groups[g].windows.len() ==> w < groups[g].windows[k + 1]
                }
            &&& forall|w: int| 0 <= w < windows.len() ==> #[trigger] is_grouped(groups, w)
        }),
    decreases windows.len(),
{
    if windows.len() > 0 {
        let shorter = windows.drop_last();
        let last = windows.len() - 1;
        let key = group_key(windows.last());
        groups_partition_the_windows(shorter);
        let before = grouped(shorter);
        let groups = grouped(windows);
        lemma_group_index(before, key, 0);
        let home = match group_index(before, key, 0) {
            Some(i) => i,
            None => before.len() as int,
        };
        let slot = match group_index(before, key, 0) {
            Some(i) => before[i].windows.len() as int,
            None => 0,
        };
        assert(groups[home].windows[slot] == last);
        assert forall|w: int| 0 <= w < windows.len() implies #[trigger] is_grouped(groups, w) by {
            if w < shorter.len() {
                assert(is_grouped(before, w));
                let (g, k) = choose|g: int, k: int|
                    0 <= g < before.len() && 0 <= k < before[g].windows.len()
                        && before[g].windows[k] == w;
                assert(groups[g].windows[k] == w);
            } else {
                assert(groups[home].windows[slot] == w);
            }
        }
        assert forall|g: int, k: int|
            0 <= g < groups.len() && 0 <= k < groups[g].windows.len() implies {
            let w = #[trigger] groups[g].windows[k];
            &&& 0 <= w < windows.len()
            &&& group_key(windows[w]) == groups[g].key
            &&& k + 1 < groups[g].windows.len() ==> w < groups[g].windows[k + 1]
        } by {
            if g < before.len() && k < before[g].windows.len() {
                let w = before[g].windows[k];
                assert(groups[g].windows[k] == w);
                assert(windows[w] == shorter[w]);
                if k + 1 < before[g].windows.len() {
                    assert(groups[g].windows[k + 1] == before[g].windows[k + 1]);
                }
            }
        }
    }
}

proof fn lemma_group_index(groups: Seq<Group>, key: Seq<char>, i: int)
    requires
        0 <= i <= groups.len(),
    ensures
        match group_index(groups, key, i) {
            Some(k) => i <= k < groups.len() && groups[k].key == key,
            None => forall|k: int| i <= k < groups.len() ==> (#[trigger] groups[k]).key != key,
        },
    decreases groups.len() - i,
{
    if i < groups.len() && groups[i].key != key {
        lemma_group_index(groups, key, i + 1);
    }
}

/// The marks under an app's icon, in half pixels.
#[derive(Debug)]
pub enum Indicators {
    /// One dot per window: the x coordinates of the centers, and the y
    /// coordinate they have in common.
    Dots { centers: Vec<i64>, y: i64 },
    /// A line: its corner and its width. It is two pixels high.
    Line { x: i64, y: i64, width: i64 },
}

/// How many dots fit into `width` pixels.
pub open spec fn dots_that_fit(width: int) -> int {
    let fitting = if width >= 4 {
        (width - 4) / (DOT_SIZE + DOT_GAP)
    } else {
        -1
    };
    if fitting >= 1 {
        fitting
    } else {
        1
    }
}

/// The x coordinate of the center of the `i`th of `count` dots, in half pixels:
/// the dots are in the middle of `width`.
pub open spec fn dot_center(width: int, count: int, i: int) -> int {
    let total = count * DOT_SIZE + (if count > 0 {
        count - 1
    } else {
        0
    }) * DOT_GAP;
    width - total + DOT_SIZE + 2 * i * (DOT_SIZE + DOT_GAP)
}

/// Lay out one dot per window under the icon, or a line when they don't fit.
pub fn draw_indicators(width: i32, height: i32, count: usize) -> (r: Indicators)
    ensures
        count <= dots_that_fit(width as int) ==> {
            &&& r is Dots
            &&& r->centers@.len() == count
            &&& forall|i: int|
                0 <= i < count ==> #[trigger] r->centers@[i] == dot_center(
                    width as int,
                    count as int,
                    i,
                )
            &&& r->Dots_y == height
        },
        count > dots_that_fit(width as int) ==> {
            let line = if width - 6 > 2 {
                width - 6
            } else {
                2
            };
            &&& r is Line
            &&& r->width == 2 * line
            &&& r->x == width - line
            &&& r->Line_y == height - 2
        },
{
    let w = width as i64;
    let h = height as i64;
    let pitch = DOT_SIZE + DOT_GAP;
    let fitting: i64 = if w >= 4 { (w - 4) / pitch } else { -1 };
    let max_dots: i64 = if fitting >= 1 { fitting } else { 1 };
    if count as u128 <= max_dots as u128 {
        let n = count as i64;
        let gaps: i64 = if n > 0 { n - 1 } else { 0 };
        let total = n * DOT_SIZE + gaps * DOT_GAP;
        let mut center = w - total + DOT_SIZE;
        let mut centers: Vec<i64> = Vec::new();
        let mut i: i64 = 0;
        while i < n
            invariant
                0 <= i <= n,
                n == count,
                n <= 0x8000_0000,
                centers.len() == i,
                pitch == 5,
                center == dot_center(w as int, n as int, i as int),
                w == width,
                forall|k: int|
                    0 <= k < i ==> #[trigger] centers@[k] == dot_center(w as int, n as int, k),
            decreases n - i,
        {
            centers.push(center);
            center += 2 * pitch;
            i += 1;
        }
        Indicators::Dots { centers, y: h }
    } else {
        let line = if w - 6 > 2 { w - 6 } else { 2 };
        Indicators::Line { x: w - line, y: h - 2, width: 2 * line }
    }
}

/// The dots lie in the middle: as far from the left edge as from the right.
pub proof fn dots_are_centered(width: int, count: int)
    requires
        count > 0,
    ensures
        dot_center(width, count, 0) + dot_center(width, count, count - 1) == 2 * width,
{
}

} // verus!
