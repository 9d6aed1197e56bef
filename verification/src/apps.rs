//! Applications: where their desktop files are, the icons those name, and the
//! style the panel shows them in.

use vstd::prelude::*;

use crate::strings::{
    chars_between, chars_of, push_decimal, push_text, same_chars, same_text, split, strip_prefix,
    text_of, trim,
};

verus! {

use crate::strings::{after_prefix, decimal, lowercase, split_on, texts, trimmed};

/// The line `line` without the carriage return at its end.
pub open spec fn without_cr(line: Seq<char>) -> Seq<char> {
    if line.len() > 0 && line.last() == '\r' {
        line.drop_last()
    } else {
        line
    }
}

/// The lines of a text, without their line ends. A carriage return belongs to
/// the line end only before a newline, and nothing after the last newline is no
/// line.
pub open spec fn lines_of(text: Seq<char>) -> Seq<Seq<char>> {
    let parts = split_on(text, '\n');
    let complete = Seq::new(
        (parts.len() - 1) as nat,
        |i: int| without_cr(parts[i]),
    );
    if parts.last().len() == 0 {
        complete
    } else {
        complete.push(parts.last())
    }
}

/// Whether a line of a desktop file says nothing.
pub open spec fn is_comment(line: Seq<char>) -> bool {
    line.len() == 0 || line[0] == '#'
}

/// The icon that the lines from the `i`th on name, when the lines before them
/// ended inside the group `[Desktop Entry]` or not.
pub open spec fn icon_in(lines: Seq<Seq<char>>, i: int, in_entry: bool) -> Option<Seq<char>>
    decreases lines.len() - i,
{
    if i < 0 || i >= lines.len() {
        None
    } else {
        let line = trimmed(lines[i]);
        if is_comment(line) {
            icon_in(lines, i + 1, in_entry)
        } else if line[0] == '[' {
            icon_in(lines, i + 1, line == "[Desktop Entry]"@)
        } else {
            match named_icon(line) {
                Some(icon) if in_entry => Some(icon),
                _ => icon_in(lines, i + 1, in_entry),
            }
        }
    }
}

/// The icon that a line names. Localized keys like `Icon[de]=...` name none.
pub open spec fn named_icon(line: Seq<char>) -> Option<Seq<char>> {
    match after_prefix(line, "Icon="@) {
        Some(value) if trimmed(value).len() > 0 => Some(trimmed(value)),
        _ => None,
    }
}

/// The icon that a desktop file names.
pub open spec fn entry_icon(contents: Seq<char>) -> Option<Seq<char>> {
    icon_in(lines_of(contents), 0, false)
}

/// The lines of a text, without their line ends.
fn lines(text: &str) -> (r: Vec<Vec<char>>)
    ensures
        texts(r@) == lines_of(text@),
{
    let chars = chars_of(text);
    let parts = split(&chars, '\n');
    let ghost all = split_on(text@, '\n');
    assert(texts(parts@) == all);
    let last = parts.len() - 1;
    let mut lines: Vec<Vec<char>> = Vec::new();
    let mut i: usize = 0;
    while i < last
        invariant
            i <= last,
            last == parts.len() - 1,
            texts(parts@) == all,
            lines.len() == i,
            forall|k: int| 0 <= k < i ==> #[trigger] lines@[k]@ == without_cr(all[k]),
        decreases last - i,
    {
        let part = &parts[i];
        assert(part@ == all[i as int]);
        let n = part.len();
        let end = if n > 0 && part[n - 1] == '\r' { n - 1 } else { n };
        let line = chars_between(part, 0, end);
        assert(line@ =~= without_cr(part@));
        lines.push(line);
        i += 1;
    }
    let rest = chars_between(&parts[last], 0, parts[last].len());
    assert(rest@ =~= all.last());
    if rest.len() > 0 {
        lines.push(rest);
    }
    assert(texts(lines@) =~= lines_of(text@));
    lines
}

/// Read the `Icon=` key from the `[Desktop Entry]` group of a desktop file's
/// contents.
pub fn desktop_file_icon(contents: &str) -> (r: Option<String>)
    ensures
        match (r, entry_icon(contents@)) {
            (Some(icon), Some(named)) => icon@ == named,
            (None, None) => true,
            _ => false,
        },
{
    let lines = lines(contents);
    let ghost all = lines_of(contents@);
    let entry = chars_of("[Desktop Entry]");
    let mut in_entry = false;
    let mut i: usize = 0;
    while i < lines.len()
        invariant
            i <= lines.len(),
            texts(lines@) == all,
            entry@ == "[Desktop Entry]"@,
            all == lines_of(contents@),
            icon_in(all, 0, false) == icon_in(all, i as int, in_entry),
        decreases lines.len() - i,
    {
        assert(lines@[i as int]@ == all[i as int]);
        let line = trim(&lines[i]);
        i += 1;
        if line.len() == 0 || line[0] == '#' {
            continue;
        }
        if line[0] == '[' {
            in_entry = same_chars(&line, &entry);
            continue;
        }
        if !in_entry {
            continue;
        }
        if let Some(value) = strip_prefix(&line, "Icon=") {
            let value = trim(&value);
            if value.len() > 0 {
                return Some(text_of(&value));
            }
        }
    }
    None
}

/// Whether a file name has the extension of desktop files.
pub fn is_desktop_file(name: &str) -> (r: bool)
    ensures
        r == (name@.len() > 8 && name@.skip(name@.len() - 8) == ".desktop"@),
{
    proof {
        reveal_strlit(".desktop");
    }
    let chars = chars_of(name);
    if chars.len() <= 8 {
        return false;
    }
    let end = chars_between(&chars, chars.len() - 8, chars.len());
    assert(end@ =~= name@.skip(name@.len() - 8));
    same_chars(&end, &chars_of(".desktop"))
}

/// `path` with dashes in place of slashes.
pub open spec fn dashed(path: Seq<char>) -> Seq<char> {
    Seq::new(
        path.len(),
        |i: int|
            if path[i] == '/' {
                '-'
            } else {
                path[i]
            },
    )
}

/// The desktop-file id of a file, from its path below the applications
/// directory.
pub open spec fn id_of(path: Seq<char>) -> Seq<char> {
    let name = dashed(path);
    if name.len() >= 8 && name.skip(name.len() - 8) == ".desktop"@ {
        name.take(name.len() - 8)
    } else {
        name
    }
}

/// The desktop-file id of a file, from its path below the applications
/// directory.
pub fn desktop_id(path: &str) -> (r: String)
    ensures
        r@ == id_of(path@),
{
    proof {
        reveal_strlit(".desktop");
    }
    let chars = chars_of(path);
    let mut name: Vec<char> = Vec::new();
    let mut i: usize = 0;
    while i < chars.len()
        invariant
            i <= chars.len(),
            chars@ == path@,
            name.len() == i,
            forall|k: int| 0 <= k < i ==> #[trigger] name@[k] == dashed(path@)[k],
        decreases chars.len() - i,
    {
        name.push(if chars[i] == '/' { '-' } else { chars[i] });
        i += 1;
    }
    assert(name@ =~= dashed(path@));
    if name.len() >= 8 {
        let end = chars_between(&name, name.len() - 8, name.len());
        assert(end@ =~= name@.skip(name@.len() - 8));
        if same_chars(&end, &chars_of(".desktop")) {
            let id = chars_between(&name, 0, name.len() - 8);
            assert(id@ =~= name@.take(name@.len() - 8));
            return text_of(&id);
        }
    }
    text_of(&name)
}

/// The icon of one desktop-file id.
#[derive(Debug)]
pub struct DesktopIcon {
    pub id: String,
    pub icon: String,
}

/// The icons of the desktop files, by id.
#[derive(Debug)]
pub struct DesktopIcons {
    pub entries: Vec<DesktopIcon>,
}

/// The icon of `id` among `entries`, from `i` on.
pub open spec fn icon_of(entries: Seq<(Seq<char>, Seq<char>)>, id: Seq<char>, i: int) -> Option<
    Seq<char>,
>
    decreases entries.len() - i,
{
    if i < 0 || i >= entries.len() {
        None
    } else if entries[i].0 == id {
        Some(entries[i].1)
    } else {
        icon_of(entries, id, i + 1)
    }
}

/// `entries` with an icon for `id`, unless it has one.
pub open spec fn with_icon(
    entries: Seq<(Seq<char>, Seq<char>)>,
    id: Seq<char>,
    icon: Seq<char>,
) -> Seq<(Seq<char>, Seq<char>)> {
    if icon_of(entries, id, 0) is Some {
        entries
    } else {
        entries.push((id, icon))
    }
}

/// `entries` with the icon of a desktop file at `path`, under its id and under
/// the lowercase form of its id, unless its id has an icon already.
pub open spec fn with_file(
    entries: Seq<(Seq<char>, Seq<char>)>,
    path: Seq<char>,
    contents: Seq<char>,
) -> Seq<(Seq<char>, Seq<char>)> {
    let id = id_of(path);
    if icon_of(entries, id, 0) is Some {
        entries
    } else {
        match entry_icon(contents) {
            Some(icon) => with_icon(with_icon(entries, id, icon), lowercase(id), icon),
            None => entries,
        }
    }
}

impl View for DesktopIcons {
    type V = Seq<(Seq<char>, Seq<char>)>;

    open spec fn view(&self) -> Seq<(Seq<char>, Seq<char>)> {
        Seq::new(self.entries@.len(), |i: int| (self.entries@[i].id@, self.entries@[i].icon@))
    }
}

impl DesktopIcons {
    /// No icons yet.
    pub fn new() -> (r: Self)
        ensures
            r@ == Seq::<(Seq<char>, Seq<char>)>::empty(),
    {
        let icons = DesktopIcons { entries: Vec::new() };
        assert(icons@ =~= Seq::<(Seq<char>, Seq<char>)>::empty());
        icons
    }

    /// The icon of `id`.
    pub fn get(&self, id: &str) -> (r: Option<String>)
        ensures
            match (r, icon_of(self@, id@, 0)) {
                (Some(icon), Some(known)) => icon@ == known,
                (None, None) => true,
                _ => false,
            },
    {
        let mut i: usize = 0;
        while i < self.entries.len()
            invariant
                i <= self.entries.len(),
                icon_of(self@, id@, 0) == icon_of(self@, id@, i as int),
            decreases self.entries.len() - i,
        {
            assert(self@[i as int].0 == self.entries@[i as int].id@);
            if same_text(self.entries[i].id.as_str(), id) {
                return Some(self.entries[i].icon.clone());
            }
            i += 1;
        }
        None
    }

    /// Give `id` an icon, unless it has one.
    fn insert(&mut self, id: String, icon: String)
        ensures
            final(self)@ == with_icon(old(self)@, id@, icon@),
    {
        if self.get(id.as_str()).is_none() {
            self.entries.push(DesktopIcon { id, icon });
            assert(self@ =~= old(self)@.push((id@, icon@)));
        }
    }

    /// Add the desktop file at `path`, below an applications directory. Earlier
    /// directories win, matching the freedesktop lookup order.
    pub fn collect(&mut self, path: &str, contents: &str)
        ensures
            final(self)@ == with_file(old(self)@, path@, contents@),
    {
        let id = desktop_id(path);
        if self.get(id.as_str()).is_some() {
            return;
        }
        if let Some(icon) = desktop_file_icon(contents) {
            let lower = id.as_str().to_lowercase();
            self.insert(id, icon.clone());
            self.insert(lower, icon);
        }
    }

    /// The icon of an app: that of its id, or of the lowercase form of it.
    pub fn desktop_icon(&self, app_id: &str) -> (r: Option<String>)
        ensures
            match (r, app_icon(self@, app_id@)) {
                (Some(icon), Some(known)) => icon@ == known,
                (None, None) => true,
                _ => false,
            },
    {
        match self.get(app_id) {
            Some(icon) => Some(icon),
            None => {
                let lower = app_id.to_lowercase();
                self.get(lower.as_str())
            },
        }
    }
}

/// The icon of an app: that of its id, or of the lowercase form of it.
pub open spec fn app_icon(entries: Seq<(Seq<char>, Seq<char>)>, app_id: Seq<char>) -> Option<
    Seq<char>,
> {
    if icon_of(entries, app_id, 0) is Some {
        icon_of(entries, app_id, 0)
    } else {
        icon_of(entries, lowercase(app_id), 0)
    }
}

/// An icon that is known stays: files that are added later never replace it.
pub proof fn earlier_directories_win(
    entries: Seq<(Seq<char>, Seq<char>)>,
    path: Seq<char>,
    contents: Seq<char>,
    id: Seq<char>,
)
    requires
        icon_of(entries, id, 0) is Some,
    ensures
        icon_of(with_file(entries, path, contents), id, 0) == icon_of(entries, id, 0),
{
    match entry_icon(contents) {
        Some(icon) => {
            let first = with_icon(entries, id_of(path), icon);
            lemma_icon_kept(entries, id_of(path), icon, id, 0);
            lemma_icon_kept(first, lowercase(id_of(path)), icon, id, 0);
        },
        None => {},
    }
}

proof fn lemma_icon_kept(
    entries: Seq<(Seq<char>, Seq<char>)>,
    new: Seq<char>,
    icon: Seq<char>,
    id: Seq<char>,
    i: int,
)
    requires
        0 <= i,
        icon_of(entries, id, i) is Some,
    ensures
        icon_of(with_icon(entries, new, icon), id, i) == icon_of(entries, id, i),
    decreases entries.len() - i,
{
    let longer = with_icon(entries, new, icon);
    if i < entries.len() {
        assert(longer[i] == entries[i]);
        if entries[i].0 != id {
            lemma_icon_kept(entries, new, icon, id, i + 1);
        }
    }
}

/// A file with an icon makes its id known, if it was not.
pub proof fn added_icons_are_found(
    entries: Seq<(Seq<char>, Seq<char>)>,
    path: Seq<char>,
    contents: Seq<char>,
)
    requires
        icon_of(entries, id_of(path), 0) is None,
        entry_icon(contents) is Some,
    ensures
        icon_of(with_file(entries, path, contents), id_of(path), 0) == entry_icon(contents),
{
    let id = id_of(path);
    let icon = entry_icon(contents)->0;
    let first = with_icon(entries, id, icon);
    lemma_icon_pushed(entries, id, icon, 0);
    lemma_icon_kept(first, lowercase(id), icon, id, 0);
}

proof fn lemma_icon_pushed(
    entries: Seq<(Seq<char>, Seq<char>)>,
    id: Seq<char>,
    icon: Seq<char>,
    i: int,
)
    requires
        0 <= i <= entries.len(),
        icon_of(entries, id, i) is None,
    ensures
        icon_of(entries.push((id, icon)), id, i) == Some(icon),
    decreases entries.len() - i,
{
    let longer = entries.push((id, icon));
    if i < entries.len() {
        assert(longer[i] == entries[i]);
        lemma_icon_pushed(entries, id, icon, i + 1);
    }
}

/// The names to look for as the icon of an app, in order: what its desktop file
/// names, its id, and the lowercase form of its id.
pub open spec fn candidates(app_id: Seq<char>, icon: Option<Seq<char>>) -> Seq<Seq<char>> {
    if app_id.len() == 0 {
        Seq::empty()
    } else {
        (match icon {
            Some(icon) => seq![icon],
            None => Seq::empty(),
        }) + seq![app_id] + (if lowercase(app_id) != app_id {
            seq![lowercase(app_id)]
        } else {
            Seq::empty()
        })
    }
}

/// Several texts, as sequences of characters.
pub open spec fn views(names: Seq<String>) -> Seq<Seq<char>> {
    Seq::new(names.len(), |i: int| names[i]@)
}

/// The names to look for as the icon of an app.
///
/// Prefers the `Icon=` entry of the matching `.desktop` file (the freedesktop
/// convention for Wayland app ids), then the app id itself and its lowercase
/// form.
pub fn icon_candidates(app_id: &str, icons: &DesktopIcons) -> (r: Vec<String>)
    ensures
        views(r@) == candidates(app_id@, app_icon(icons@, app_id@)),
{
    let mut names: Vec<String> = Vec::new();
    let chars = chars_of(app_id);
    if chars.len() == 0 {
        assert(views(names@) =~= Seq::empty());
        return names;
    }
    if let Some(icon) = icons.desktop_icon(app_id) {
        names.push(icon);
    }
    names.push(text_of(&chars));
    let lower = app_id.to_lowercase();
    if !same_text(lower.as_str(), app_id) {
        names.push(lower);
    }
    assert(views(names@) =~= candidates(app_id@, app_icon(icons@, app_id@)));
    names
}

/// Whether a name is the path of a file rather than an icon of the theme.
pub fn is_icon_path(name: &str) -> (r: bool)
    ensures
        r == (name@.len() > 0 && name@[0] == '/'),
{
    let chars = chars_of(name);
    chars.len() > 0 && chars[0] == '/'
}

/// The first of `names`, from `i` on, that is available.
pub open spec fn first_available(names: Seq<Seq<char>>, available: Seq<bool>, i: int) -> Seq<char>
    decreases names.len() - i,
{
    if i < 0 || i >= names.len() {
        "application-x-executable"@
    } else if i < available.len() && available[i] {
        names[i]
    } else {
        first_available(names, available, i + 1)
    }
}

/// Pick an icon for an app: the first candidate that is available, as a file or
/// in the theme, and finally a generic fallback.
pub fn resolve_icon(names: &Vec<String>, available: &Vec<bool>) -> (r: String)
    ensures
        r@ == first_available(views(names@), available@, 0),
{
    let mut i: usize = 0;
    while i < names.len()
        invariant
            i <= names.len(),
            first_available(views(names@), available@, 0) == first_available(
                views(names@),
                available@,
                i as int,
            ),
        decreases names.len() - i,
    {
        if i < available.len() && available[i] {
            return names[i].clone();
        }
        i += 1;
    }
    text_of(&chars_of("application-x-executable"))
}

/// `name` below the directory `base`.
pub open spec fn below(base: Seq<char>, name: Seq<char>) -> Seq<char> {
    if base.len() == 0 || base.last() == '/' {
        base + name
    } else {
        base + seq!['/'] + name
    }
}

fn join(base: &Vec<char>, name: &str) -> (r: String)
    ensures
        r@ == below(base@, name@),
{
    let mut path = text_of(base);
    if base.len() > 0 && base[base.len() - 1] != '/' {
        path.push('/');
        assert(path@ =~= base@ + seq!['/']);
    }
    push_text(&mut path, name);
    path
}

/// The applications directories below `parts`, from `i` on, without the empty
/// ones.
pub open spec fn dirs_below(parts: Seq<Seq<char>>, i: int) -> Seq<Seq<char>>
    decreases parts.len() - i,
{
    if i < 0 || i >= parts.len() {
        Seq::empty()
    } else if parts[i].len() == 0 {
        dirs_below(parts, i + 1)
    } else {
        seq![below(parts[i], "applications"@)] + dirs_below(parts, i + 1)
    }
}

/// The text of an environment variable that is set.
pub open spec fn variable(value: Option<&str>) -> Option<Seq<char>> {
    match value {
        Some(text) => Some(text@),
        None => None,
    }
}

/// The directories that hold desktop files: the user's own first, then those of
/// the system.
pub open spec fn dirs_for(
    data_home: Option<Seq<char>>,
    home: Option<Seq<char>>,
    data_dirs: Option<Seq<char>>,
) -> Seq<Seq<char>> {
    let own = match (data_home, home) {
        (Some(dir), _) => seq![below(dir, "applications"@)],
        (None, Some(dir)) => seq![below(dir, ".local/share/applications"@)],
        (None, None) => Seq::empty(),
    };
    let system = match data_dirs {
        Some(dirs) => dirs,
        None => "/usr/local/share:/usr/share"@,
    };
    own + dirs_below(split_on(system, ':'), 0)
}

/// The directories that hold desktop files, from the environment variables
/// `XDG_DATA_HOME`, `HOME` and `XDG_DATA_DIRS`.
pub fn application_dirs(
    data_home: Option<&str>,
    home: Option<&str>,
    data_dirs: Option<&str>,
) -> (r: Vec<String>)
    ensures
        views(r@) == dirs_for(variable(data_home), variable(home), variable(data_dirs)),
{
    let mut dirs: Vec<String> = Vec::new();
    if let Some(dir) = data_home {
        dirs.push(join(&chars_of(dir), "applications"));
    } else if let Some(dir) = home {
        dirs.push(join(&chars_of(dir), ".local/share/applications"));
    }
    let ghost own = views(dirs@);
    let system = match data_dirs {
        Some(dirs) => chars_of(dirs),
        None => chars_of("/usr/local/share:/usr/share"),
    };
    let parts = split(&system, ':');
    let ghost all = split_on(system@, ':');
    let mut i: usize = 0;
    assert(own + dirs_below(all, 0) =~= views(dirs@) + dirs_below(all, 0));
    while i < parts.len()
        invariant
            i <= parts.len(),
            texts(parts@) == all,
            views(dirs@) + dirs_below(all, i as int) == own + dirs_below(all, 0),
        decreases parts.len() - i,
    {
        assert(parts@[i as int]@ == all[i as int]);
        if parts[i].len() > 0 {
            let dir = join(&parts[i], "applications");
            proof {
                assert(views(dirs@.push(dir)) =~= views(dirs@).push(dir@));
                assert(views(dirs@) + (seq![dir@] + dirs_below(all, i + 1)) =~= views(dirs@).push(
                    dir@,
                ) + dirs_below(all, i + 1));
            }
            dirs.push(dir);
        }
        i += 1;
    }
    assert(views(dirs@) + Seq::<Seq<char>>::empty() =~= views(dirs@));
    assert(own =~= match (data_home, home) {
        (Some(dir), _) => seq![below(dir@, "applications"@)],
        (None, Some(dir)) => seq![below(dir@, ".local/share/applications"@)],
        (None, None) => Seq::empty(),
    });
    dirs
}

/// A color as the style sheet writes it.
pub open spec fn rgb(r: u8, g: u8, b: u8) -> Seq<char> {
    decimal(r as nat) + ", "@ + decimal(g as nat) + ", "@ + decimal(b as nat)
}

fn push_rgb(out: &mut String, color: (u8, u8, u8))
    ensures
        final(out)@ == old(out)@ + rgb(color.0, color.1, color.2),
{
    push_decimal(out, color.0 as u64);
    push_text(out, ", ");
    push_decimal(out, color.1 as u64);
    push_text(out, ", ");
    push_decimal(out, color.2 as u64);
    assert(out@ =~= old(out)@ + rgb(color.0, color.1, color.2));
}

/// The panel's style sheet up to the color of its title.
pub open spec fn style_head() -> Seq<char> {
    "
window.panel-window {
    background-color: rgba(32, 32, 32, 0.82);
    border: none;
    box-shadow: none;
}
.panel {
    background-color: rgba(32, 32, 32, 0.82);
    padding: 0 10px;
}
.panel label {
    color: #e8e8e8;
    font-weight: 500;
}
.panel .title {
    color: rgb("@
}

/// The panel's style sheet from the color of its title to that of the focused
/// app.
pub open spec fn style_middle() -> Seq<char> {
    ");
    font-weight: 700;
}
.panel .tasks {
    margin-left: 6px;
}
button.task {
    background: transparent;
    border: 1px solid rgba(255, 255, 255, 0.25);
    box-shadow: none;
    padding: 0;
    border-radius: 8px;
}
button.task:hover {
    background-color: rgba(255, 255, 255, 0.10);
}
button.task.focused {
    background-color: rgba("@
}

/// The panel's style sheet from the color of the focused app on.
pub open spec fn style_tail() -> Seq<char> {
    ", 0.28);
}
button.task.minimized {
    opacity: 0.45;
}
"@
}

/// The panel's style sheet, with the desktop's accent color.
pub fn style_sheet(accent: (u8, u8, u8)) -> (r: String)
    ensures
        r@ == style_head() + rgb(accent.0, accent.1, accent.2) + style_middle() + rgb(
            accent.0,
            accent.1,
            accent.2,
        ) + style_tail(),
{
    let mut sheet = String::new();
    push_text(
        &mut sheet,
        "
window.panel-window {
    background-color: rgba(32, 32, 32, 0.82);
    border: none;
    box-shadow: none;
}
.panel {
    background-color: rgba(32, 32, 32, 0.82);
    padding: 0 10px;
}
.panel label {
    color: #e8e8e8;
    font-weight: 500;
}
.panel .title {
    color: rgb(",
    );
    assert(sheet@ =~= style_head());
    push_rgb(&mut sheet, accent);
    push_text(
        &mut sheet,
        ");
    font-weight: 700;
}
.panel .tasks {
    margin-left: 6px;
}
button.task {
    background: transparent;
    border: 1px solid rgba(255, 255, 255, 0.25);
    box-shadow: none;
    padding: 0;
    border-radius: 8px;
}
button.task:hover {
    background-color: rgba(255, 255, 255, 0.10);
}
button.task.focused {
    background-color: rgba(",
    );
    push_rgb(&mut sheet, accent);
    push_text(
        &mut sheet,
        ", 0.28);
}
button.task.minimized {
    opacity: 0.45;
}
",
    );
    sheet
}

} // verus!
