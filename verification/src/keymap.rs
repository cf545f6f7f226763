//! One table describing every action, its keys and its help text, and the
//! pure functions that read a key press against it: a module's own
//! bindings first, then the global table; `g` chords; and what the `/`
//! filter takes as typing.
use vstd::prelude::*;
use crate::keys::{Key, KeyCode, Mods};
use crate::text::{chars_of, same_chars, split_on, split_parts, string_of};

verus! {

/// Everything the interface can be asked to do.
#[derive(Debug, Clone, Copy, PartialEq, Eq, Hash, Structural)]
pub enum Action {
    CursorUp,
    CursorDown,
    CursorUpBig,
    CursorDownBig,
    PageUp,
    PageDown,
    /// `gg`/`home`: to the top of the current listing.
    Home,
    End,
    Activate,
    Back,
    FocusNext,
    FocusPrev,
    FocusStack,
    FocusPreview,
    FocusOperations,
    /// Into the entry under the cursor, if it is a directory.
    Enter,
    /// Back one level.
    Pop,
    JumpUp,
    JumpDown,
    /// `gh`: to the home directory.
    GoHome,
    /// `gr`: to the filesystem root.
    GoRoot,
    OpenExternal,
    Rename,
    FileActions,
    Reload,
    Mark,
    MarkAll,
    InvertMarks,
    ClearMarks,
    QueueCopy,
    QueueMove,
    QueueDelete,
    RunQueue,
    /// `ctrl+x`: stop the running operation; `ctrl+c` quits instead.
    CancelRun,
    RunOp,
    DropOp,
    ClearQueue,
    ToggleView,
    Places,
    Bookmark,
    TogglePreview,
    ToggleHidden,
    NextSortKey,
    ReverseSort,
    Filter,
    NextPictureScale,
    NextTheme,
    PrevTheme,
    Help,
    /// `q`/`ctrl+c`.
    Quit,
    Redraw,
}

/// Which module a key is offered to first.
#[derive(Debug, Clone, Copy, PartialEq, Eq, Hash, Structural)]
pub enum Module {
    Stack,
    Preview,
    Operations,
}

/// Where a group of bindings applies.
#[derive(Debug, Clone, Copy, PartialEq, Eq)]
pub enum Scope {
    Global,
    Modules(&'static [Module]),
}

/// One line of the key table: an action, how its keys are spelled, what
/// the help says of it, and the group it is listed under.
#[derive(Debug, Clone, Copy, PartialEq, Eq)]
pub struct Binding {
    pub action: Action,
    pub keys: &'static str,
    pub label: &'static str,
    pub group: &'static str,
}

/// One line of the mouse table.
#[derive(Debug, Clone, Copy, PartialEq, Eq)]
pub struct MouseHelp {
    pub gesture: &'static str,
    pub label: &'static str,
    pub group: &'static str,
}

/// A module binding that claims a key the global table already uses, on
/// purpose, and why.
#[derive(Debug, Clone, Copy, PartialEq, Eq)]
pub struct Shadow {
    pub module: Module,
    pub keys: &'static str,
    pub module_action: Action,
    pub global_action: Action,
    pub reason: &'static str,
}

/// The modules of the column, in order.
pub open spec fn all_modules() -> Seq<Module> {
    seq![Module::Stack, Module::Preview, Module::Operations]
}

/// The modules of the column, in order.
pub fn modules() -> (r: Vec<Module>)
    ensures
        r@ == all_modules(),
{
    let r = vec![Module::Stack, Module::Preview, Module::Operations];
    assert(r@ =~= all_modules());
    r
}

/// Every group of the key table, and where it applies.
pub open spec fn group_table() -> Seq<(&'static str, Scope)> {
    seq![
        ("navigation", Scope::Global),
        ("stack", Scope::Modules(&[Module::Stack])),
        ("selection", Scope::Modules(&[Module::Stack])),
        ("operations", Scope::Global),
        ("queue", Scope::Modules(&[Module::Operations])),
        ("preview", Scope::Modules(&[Module::Preview])),
        ("view", Scope::Global),
        ("appearance", Scope::Global),
        ("application", Scope::Global),
    ]
}

/// Every group of the key table, and where it applies.
pub fn groups() -> (r: Vec<(&'static str, Scope)>)
    ensures
        r@ == group_table(),
{
    let r = vec![
        ("navigation", Scope::Global),
        ("stack", Scope::Modules(&[Module::Stack])),
        ("selection", Scope::Modules(&[Module::Stack])),
        ("operations", Scope::Global),
        ("queue", Scope::Modules(&[Module::Operations])),
        ("preview", Scope::Modules(&[Module::Preview])),
        ("view", Scope::Global),
        ("appearance", Scope::Global),
        ("application", Scope::Global),
    ];
    assert(r@ =~= group_table());
    r
}

/// Every key, in the order the help overlay lists them.
pub open spec fn binding_table() -> Seq<Binding> {
    seq![
        Binding { action: Action::FocusNext, keys: "tab", label: "next module", group: "navigation" },
        Binding { action: Action::FocusPrev, keys: "shift+tab", label: "previous module", group: "navigation" },
        Binding { action: Action::FocusStack, keys: "alt+1", label: "the stack", group: "navigation" },
        Binding { action: Action::FocusPreview, keys: "alt+2", label: "the preview", group: "navigation" },
        Binding { action: Action::FocusOperations, keys: "alt+3", label: "operations", group: "navigation" },
        Binding { action: Action::CursorUp, keys: "up/k", label: "up one", group: "navigation" },
        Binding { action: Action::CursorDown, keys: "down/j", label: "down one", group: "navigation" },
        Binding { action: Action::CursorUpBig, keys: "shift+up/K", label: "up ten", group: "navigation" },
        Binding { action: Action::CursorDownBig, keys: "shift+down/J", label: "down ten", group: "navigation" },
        Binding { action: Action::PageUp, keys: "pgup", label: "page up", group: "navigation" },
        Binding { action: Action::PageDown, keys: "pgdn", label: "page down", group: "navigation" },
        Binding { action: Action::Home, keys: "home/gg", label: "to the top", group: "navigation" },
        Binding { action: Action::End, keys: "end/G", label: "to the bottom", group: "navigation" },
        Binding { action: Action::Activate, keys: "enter", label: "open", group: "navigation" },
        Binding { action: Action::Back, keys: "esc", label: "cancel", group: "navigation" },
        Binding { action: Action::Enter, keys: "l/right", label: "into the directory", group: "stack" },
        Binding { action: Action::Pop, keys: "h/left/bs", label: "parent directory", group: "stack" },
        Binding { action: Action::JumpUp, keys: "alt+up", label: "jump to the parent", group: "stack" },
        Binding { action: Action::JumpDown, keys: "alt+down", label: "jump back down", group: "stack" },
        Binding { action: Action::GoHome, keys: "gh", label: "the home directory", group: "stack" },
        Binding { action: Action::GoRoot, keys: "gr", label: "the root", group: "stack" },
        Binding { action: Action::OpenExternal, keys: "o", label: "open externally", group: "stack" },
        Binding { action: Action::Rename, keys: "r", label: "rename", group: "stack" },
        Binding { action: Action::FileActions, keys: "c", label: "file actions menu", group: "stack" },
        Binding { action: Action::Reload, keys: "F5/ctrl+r", label: "reload", group: "stack" },
        Binding { action: Action::Mark, keys: "space", label: "mark, move down", group: "selection" },
        Binding { action: Action::MarkAll, keys: "a", label: "mark all here", group: "selection" },
        Binding { action: Action::InvertMarks, keys: "A", label: "invert the marks", group: "selection" },
        Binding { action: Action::ClearMarks, keys: "u", label: "unmark everything", group: "selection" },
        Binding { action: Action::QueueCopy, keys: "y/p", label: "copy marked here", group: "operations" },
        Binding { action: Action::QueueMove, keys: "m", label: "move marked here", group: "operations" },
        Binding { action: Action::QueueDelete, keys: "d", label: "delete marked", group: "operations" },
        Binding { action: Action::RunQueue, keys: "X", label: "run the queue", group: "operations" },
        Binding { action: Action::CancelRun, keys: "ctrl+x", label: "stop the running op", group: "operations" },
        Binding { action: Action::RunOp, keys: "enter/r", label: "run it", group: "queue" },
        Binding { action: Action::DropOp, keys: "x/delete", label: "drop one", group: "queue" },
        Binding { action: Action::ClearQueue, keys: "esc/c", label: "clear the queue", group: "queue" },
        Binding { action: Action::TogglePreview, keys: "c", label: "close preview", group: "preview" },
        Binding { action: Action::ToggleView, keys: "v", label: "fold / commander", group: "view" },
        Binding { action: Action::Places, keys: "b/e", label: "places", group: "view" },
        Binding { action: Action::Bookmark, keys: "B", label: "bookmark directory", group: "view" },
        Binding { action: Action::TogglePreview, keys: "i", label: "show, fold preview", group: "view" },
        Binding { action: Action::ToggleHidden, keys: "./n", label: "hidden files", group: "view" },
        Binding { action: Action::NextSortKey, keys: "s", label: "next sort key", group: "view" },
        Binding { action: Action::ReverseSort, keys: "S", label: "reverse the sort", group: "view" },
        Binding { action: Action::Filter, keys: "f, /", label: "filter this level", group: "view" },
        Binding { action: Action::NextPictureScale, keys: "z", label: "picture scale", group: "view" },
        Binding { action: Action::NextTheme, keys: "t", label: "next theme", group: "appearance" },
        Binding { action: Action::PrevTheme, keys: "T", label: "previous theme", group: "appearance" },
        Binding { action: Action::Help, keys: "?/F1", label: "this list", group: "application" },
        Binding { action: Action::Redraw, keys: "ctrl+l", label: "redraw the screen", group: "application" },
        Binding { action: Action::Quit, keys: "q/ctrl+c", label: "quit", group: "application" },
    ]
}

/// Every key, in the order the help overlay lists them.
pub fn bindings() -> (r: Vec<Binding>)
    ensures
        r@ == binding_table(),
{
    let r = vec![
        Binding { action: Action::FocusNext, keys: "tab", label: "next module", group: "navigation" },
        Binding { action: Action::FocusPrev, keys: "shift+tab", label: "previous module", group: "navigation" },
        Binding { action: Action::FocusStack, keys: "alt+1", label: "the stack", group: "navigation" },
        Binding { action: Action::FocusPreview, keys: "alt+2", label: "the preview", group: "navigation" },
        Binding { action: Action::FocusOperations, keys: "alt+3", label: "operations", group: "navigation" },
        Binding { action: Action::CursorUp, keys: "up/k", label: "up one", group: "navigation" },
        Binding { action: Action::CursorDown, keys: "down/j", label: "down one", group: "navigation" },
        Binding { action: Action::CursorUpBig, keys: "shift+up/K", label: "up ten", group: "navigation" },
        Binding { action: Action::CursorDownBig, keys: "shift+down/J", label: "down ten", group: "navigation" },
        Binding { action: Action::PageUp, keys: "pgup", label: "page up", group: "navigation" },
        Binding { action: Action::PageDown, keys: "pgdn", label: "page down", group: "navigation" },
        Binding { action: Action::Home, keys: "home/gg", label: "to the top", group: "navigation" },
        Binding { action: Action::End, keys: "end/G", label: "to the bottom", group: "navigation" },
        Binding { action: Action::Activate, keys: "enter", label: "open", group: "navigation" },
        Binding { action: Action::Back, keys: "esc", label: "cancel", group: "navigation" },
        Binding { action: Action::Enter, keys: "l/right", label: "into the directory", group: "stack" },
        Binding { action: Action::Pop, keys: "h/left/bs", label: "parent directory", group: "stack" },
        Binding { action: Action::JumpUp, keys: "alt+up", label: "jump to the parent", group: "stack" },
        Binding { action: Action::JumpDown, keys: "alt+down", label: "jump back down", group: "stack" },
        Binding { action: Action::GoHome, keys: "gh", label: "the home directory", group: "stack" },
        Binding { action: Action::GoRoot, keys: "gr", label: "the root", group: "stack" },
        Binding { action: Action::OpenExternal, keys: "o", label: "open externally", group: "stack" },
        Binding { action: Action::Rename, keys: "r", label: "rename", group: "stack" },
        Binding { action: Action::FileActions, keys: "c", label: "file actions menu", group: "stack" },
        Binding { action: Action::Reload, keys: "F5/ctrl+r", label: "reload", group: "stack" },
        Binding { action: Action::Mark, keys: "space", label: "mark, move down", group: "selection" },
        Binding { action: Action::MarkAll, keys: "a", label: "mark all here", group: "selection" },
        Binding { action: Action::InvertMarks, keys: "A", label: "invert the marks", group: "selection" },
        Binding { action: Action::ClearMarks, keys: "u", label: "unmark everything", group: "selection" },
        Binding { action: Action::QueueCopy, keys: "y/p", label: "copy marked here", group: "operations" },
        Binding { action: Action::QueueMove, keys: "m", label: "move marked here", group: "operations" },
        Binding { action: Action::QueueDelete, keys: "d", label: "delete marked", group: "operations" },
        Binding { action: Action::RunQueue, keys: "X", label: "run the queue", group: "operations" },
        Binding { action: Action::CancelRun, keys: "ctrl+x", label: "stop the running op", group: "operations" },
        Binding { action: Action::RunOp, keys: "enter/r", label: "run it", group: "queue" },
        Binding { action: Action::DropOp, keys: "x/delete", label: "drop one", group: "queue" },
        Binding { action: Action::ClearQueue, keys: "esc/c", label: "clear the queue", group: "queue" },
        Binding { action: Action::TogglePreview, keys: "c", label: "close preview", group: "preview" },
        Binding { action: Action::ToggleView, keys: "v", label: "fold / commander", group: "view" },
        Binding { action: Action::Places, keys: "b/e", label: "places", group: "view" },
        Binding { action: Action::Bookmark, keys: "B", label: "bookmark directory", group: "view" },
        Binding { action: Action::TogglePreview, keys: "i", label: "show, fold preview", group: "view" },
        Binding { action: Action::ToggleHidden, keys: "./n", label: "hidden files", group: "view" },
        Binding { action: Action::NextSortKey, keys: "s", label: "next sort key", group: "view" },
        Binding { action: Action::ReverseSort, keys: "S", label: "reverse the sort", group: "view" },
        Binding { action: Action::Filter, keys: "f, /", label: "filter this level", group: "view" },
        Binding { action: Action::NextPictureScale, keys: "z", label: "picture scale", group: "view" },
        Binding { action: Action::NextTheme, keys: "t", label: "next theme", group: "appearance" },
        Binding { action: Action::PrevTheme, keys: "T", label: "previous theme", group: "appearance" },
        Binding { action: Action::Help, keys: "?/F1", label: "this list", group: "application" },
        Binding { action: Action::Redraw, keys: "ctrl+l", label: "redraw the screen", group: "application" },
        Binding { action: Action::Quit, keys: "q/ctrl+c", label: "quit", group: "application" },
    ];
    assert(r@ =~= binding_table());
    r
}

/// What the mouse does.
pub open spec fn mouse_table() -> Seq<MouseHelp> {
    seq![
        MouseHelp { gesture: "click", label: "move the cursor", group: "stack" },
        MouseHelp { gesture: "double-click", label: "open it", group: "stack" },
        MouseHelp { gesture: "ctrl+click", label: "actions menu", group: "stack" },
        MouseHelp { gesture: "right-click", label: "actions if enabled", group: "stack" },
        MouseHelp { gesture: "click a crumb", label: "jump there", group: "stack" },
        MouseHelp { gesture: "wheel", label: "scroll three rows", group: "stack" },
        MouseHelp { gesture: "click a fold", label: "open it", group: "modules" },
        MouseHelp { gesture: "click a word", label: "what it says", group: "modules" },
        MouseHelp { gesture: "click the bar", label: "open operations", group: "status" },
    ]
}

/// What the mouse does.
pub fn mouse() -> (r: Vec<MouseHelp>)
    ensures
        r@ == mouse_table(),
{
    let r = vec![
        MouseHelp { gesture: "click", label: "move the cursor", group: "stack" },
        MouseHelp { gesture: "double-click", label: "open it", group: "stack" },
        MouseHelp { gesture: "ctrl+click", label: "actions menu", group: "stack" },
        MouseHelp { gesture: "right-click", label: "actions if enabled", group: "stack" },
        MouseHelp { gesture: "click a crumb", label: "jump there", group: "stack" },
        MouseHelp { gesture: "wheel", label: "scroll three rows", group: "stack" },
        MouseHelp { gesture: "click a fold", label: "open it", group: "modules" },
        MouseHelp { gesture: "click a word", label: "what it says", group: "modules" },
        MouseHelp { gesture: "click the bar", label: "open operations", group: "status" },
    ];
    assert(r@ =~= mouse_table());
    r
}

/// The deliberate shadows: in the queue, `enter` runs the operation under
/// the cursor and `esc` clears the queue.
pub open spec fn shadow_table() -> Seq<Shadow> {
    seq![
        Shadow {
            module: Module::Operations,
            keys: "enter",
            module_action: Action::RunOp,
            global_action: Action::Activate,
            reason: "enter in the queue runs the op under the cursor, not the global \"open\"",
        },
        Shadow {
            module: Module::Operations,
            keys: "esc",
            module_action: Action::ClearQueue,
            global_action: Action::Back,
            reason: "esc in the queue clears it outright rather than merely cancelling",
        },
    ]
}

/// The deliberate shadows.
pub fn shadows() -> (r: Vec<Shadow>)
    ensures
        r@ == shadow_table(),
{
    let r = vec![
        Shadow {
            module: Module::Operations,
            keys: "enter",
            module_action: Action::RunOp,
            global_action: Action::Activate,
            reason: "enter in the queue runs the op under the cursor, not the global \"open\"",
        },
        Shadow {
            module: Module::Operations,
            keys: "esc",
            module_action: Action::ClearQueue,
            global_action: Action::Back,
            reason: "esc in the queue clears it outright rather than merely cancelling",
        },
    ];
    assert(r@ =~= shadow_table());
    r
}

} // verus!

verus! {

/// Where the group named `group` applies, by the first entry of `table`
/// with that name; everywhere when none has it.
pub open spec fn scope_in(table: Seq<(&'static str, Scope)>, group: Seq<char>) -> Scope
    decreases table.len(),
{
    if table.len() == 0 {
        Scope::Global
    } else if table[0].0@ == group {
        table[0].1
    } else {
        scope_in(table.skip(1), group)
    }
}

/// Where the group named `group` applies.
pub open spec fn scope_spec(group: Seq<char>) -> Scope {
    scope_in(group_table(), group)
}

/// Where the group named `group` applies.
pub fn scope_of(group: &str) -> (s: Scope)
    ensures
        s == scope_spec(group@),
{
    let table = groups();
    let g = chars_of(group);
    let mut i: usize = 0;
    assert(table@.skip(0) =~= table@);
    while i < table.len()
        invariant
            table@ == group_table(),
            g@ == group@,
            i <= table@.len(),
            scope_in(table@.skip(i as int), group@) == scope_spec(group@),
        decreases table@.len() - i,
    {
        let (name, scope) = table[i];
        let n = chars_of(name);
        proof {
            assert(table@.skip(i as int)[0] == table@[i as int]);
            assert(table@.skip(i as int).skip(1) =~= table@.skip(i + 1));
        }
        if same_chars(n.as_slice(), g.as_slice()) {
            return scope;
        }
        i = i + 1;
    }
    proof {
        assert(table@.skip(i as int).len() == 0);
    }
    Scope::Global
}

/// Whether a binding in `group` is offered for `m`, or for the global table
/// when `m` is `None`.
pub open spec fn offered(group: Seq<char>, m: Option<Module>) -> bool {
    match m {
        None => scope_spec(group) is Global,
        Some(want) => match scope_spec(group) {
            Scope::Modules(list) => list@.contains(want),
            Scope::Global => false,
        },
    }
}

fn is_offered(group: &str, m: Option<Module>) -> (b: bool)
    ensures
        b == offered(group@, m),
{
    let scope = scope_of(group);
    match scope {
        Scope::Global => m.is_none(),
        Scope::Modules(list) => match m {
            None => false,
            Some(want) => {
                let mut i: usize = 0;
                while i < list.len()
                    invariant
                        i <= list@.len(),
                        scope == scope_spec(group@),
                        scope == Scope::Modules(list),
                        m == Some(want),
                        forall|j: int| 0 <= j < i ==> list@[j] != want,
                    decreases list@.len() - i,
                {
                    if list[i] == want {
                        assert(list@[i as int] == want);
                        assert(list@.contains(want));
                        return true;
                    }
                    i = i + 1;
                }
                false
            },
        },
    }
}

/// `s` without the spaces it starts with.
pub open spec fn trim_spaces(s: Seq<char>) -> Seq<char>
    decreases s.len(),
{
    if s.len() > 0 && s[0] == ' ' {
        trim_spaces(s.skip(1))
    } else {
        s
    }
}

/// The spellings of one binding's keys: split at `, ` where there is a
/// comma (so that `/` itself can be a key), at `/` otherwise.
pub open spec fn alternatives(keys: Seq<char>) -> Seq<Seq<char>> {
    if keys.contains(',') {
        split_on(keys, ',').map_values(|p: Seq<char>| trim_spaces(p))
    } else {
        split_on(keys, '/')
    }
}

fn trimmed_spaces(s: &Vec<char>) -> (out: Vec<char>)
    ensures
        out@ == trim_spaces(s@),
{
    let mut i: usize = 0;
    assert(s@.skip(0) =~= s@);
    while i < s.len() && s[i] == ' '
        invariant
            i <= s@.len(),
            trim_spaces(s@.skip(i as int)) == trim_spaces(s@),
        decreases s@.len() - i,
    {
        assert(s@.skip(i as int).skip(1) =~= s@.skip(i + 1));
        i = i + 1;
    }
    let out = crate::text::copy_range(s.as_slice(), i, s.len());
    assert(out@ =~= s@.skip(i as int));
    out
}

/// The spellings of `keys`.
pub fn alternatives_of(keys: &str) -> (r: Vec<Vec<char>>)
    ensures
        r@.len() == alternatives(keys@).len(),
        forall|i: int| 0 <= i < r@.len() ==> (#[trigger] r@[i])@ == alternatives(keys@)[i],
{
    let k = chars_of(keys);
    match crate::text::find_char(k.as_slice(), ',') {
        Some(i) => {
            assert(keys@.contains(','));
            let parts = split_parts(&k, ',');
            let mut out: Vec<Vec<char>> = Vec::new();
            let mut j: usize = 0;
            while j < parts.len()
                invariant
                    k@ == keys@,
                    keys@.contains(','),
                    j <= parts@.len(),
                    parts@.len() == split_on(k@, ',').len(),
                    forall|q: int| 0 <= q < parts@.len() ==> (#[trigger] parts@[q])@ == split_on(k@, ',')[q],
                    out@.len() == j,
                    forall|q: int| 0 <= q < j ==> (#[trigger] out@[q])@ == alternatives(keys@)[q],
                decreases parts@.len() - j,
            {
                let t = trimmed_spaces(&parts[j]);
                out.push(t);
                j = j + 1;
            }
            out
        },
        None => {
            assert(!keys@.contains(','));
            split_parts(&k, '/')
        },
    }
}

/// The key a spelled name stands for: one character is that character,
/// and the rest are `tab`, `enter`, `esc`, the arrows, `pgup`, `pgdn`,
/// `home`, `end`, `bs`, `delete`, `space` and `F1` to `F12`.
pub open spec fn named_key(s: Seq<char>) -> Option<KeyCode> {
    if s.len() == 1 {
        Some(KeyCode::Char(s[0]))
    } else if s == "tab"@ {
        Some(KeyCode::Tab)
    } else if s == "enter"@ {
        Some(KeyCode::Enter)
    } else if s == "esc"@ {
        Some(KeyCode::Esc)
    } else if s == "up"@ {
        Some(KeyCode::Up)
    } else if s == "down"@ {
        Some(KeyCode::Down)
    } else if s == "left"@ {
        Some(KeyCode::Left)
    } else if s == "right"@ {
        Some(KeyCode::Right)
    } else if s == "pgup"@ {
        Some(KeyCode::PageUp)
    } else if s == "pgdn"@ {
        Some(KeyCode::PageDown)
    } else if s == "home"@ {
        Some(KeyCode::Home)
    } else if s == "end"@ {
        Some(KeyCode::End)
    } else if s == "bs"@ {
        Some(KeyCode::Backspace)
    } else if s == "delete"@ {
        Some(KeyCode::Delete)
    } else if s == "space"@ {
        Some(KeyCode::Char(' '))
    } else if s.len() == 2 && s[0] == 'F' && '1' <= s[1] <= '9' {
        Some(KeyCode::F((s[1] as int - 48) as u8))
    } else if s.len() == 3 && s[0] == 'F' && s[1] == '1' && '0' <= s[2] <= '2' {
        Some(KeyCode::F((s[2] as int - 48 + 10) as u8))
    } else {
        None
    }
}

/// The key a spelling stands for: `ctrl+`, `alt+` and `shift+` in front of
/// a named key, `shift+tab` being the back-tab key.
pub open spec fn parse_key(s: Seq<char>) -> Option<Key>
    decreases s.len(),
{
    if s.len() > 5 && s.take(5) == "ctrl+"@ {
        match parse_key(s.skip(5)) {
            Some(k) => Some(Key { code: k.code, mods: Mods { ctrl: true, alt: k.mods.alt, shift: k.mods.shift } }),
            None => None,
        }
    } else if s.len() > 4 && s.take(4) == "alt+"@ {
        match parse_key(s.skip(4)) {
            Some(k) => Some(Key { code: k.code, mods: Mods { ctrl: k.mods.ctrl, alt: true, shift: k.mods.shift } }),
            None => None,
        }
    } else if s.len() > 6 && s.take(6) == "shift+"@ {
        match parse_key(s.skip(6)) {
            Some(k) => Some(Key {
                code: if k.code == KeyCode::Tab { KeyCode::BackTab } else { k.code },
                mods: Mods { ctrl: k.mods.ctrl, alt: k.mods.alt, shift: true },
            }),
            None => None,
        }
    } else {
        match named_key(s) {
            Some(c) => Some(Key { code: c, mods: Mods { ctrl: false, alt: false, shift: false } }),
            None => None,
        }
    }
}

/// Whether a press `k` is the key `spec` spells: the same key, with `ctrl`
/// and `alt` held as spelled; `shift` counts too, except on a character,
/// whose case already says it, and on the back-tab key, which is shifted by
/// nature.
pub open spec fn key_matches(spec: Key, k: Key) -> bool {
    &&& spec.code == k.code
    &&& spec.mods.ctrl == k.mods.ctrl
    &&& spec.mods.alt == k.mods.alt
    &&& (spec.code is Char || spec.code == KeyCode::BackTab || spec.mods.shift == k.mods.shift)
}

/// Whether one of the spellings of `b` is the key `k`.
pub open spec fn binds(b: Binding, k: Key) -> bool {
    exists|i: int| 0 <= i < alternatives(b.keys@).len()
        && (#[trigger] parse_key(alternatives(b.keys@)[i]) matches Some(sp) && key_matches(sp, k))
}

/// The action of the first binding in `table` offered for `m` that binds
/// `k`.
pub open spec fn first_action(table: Seq<Binding>, m: Option<Module>, k: Key) -> Option<Action>
    decreases table.len(),
{
    if table.len() == 0 {
        None
    } else if offered(table[0].group@, m) && binds(table[0], k) {
        Some(table[0].action)
    } else {
        first_action(table.skip(1), m, k)
    }
}

fn prefixed(s: &[char], p: &str) -> (b: bool)
    ensures
        b == (s@.len() > p@.len() && s@.take(p@.len() as int) == p@),
{
    let pc = chars_of(p);
    if s.len() <= pc.len() {
        return false;
    }
    let mut i: usize = 0;
    while i < pc.len()
        invariant
            pc@ == p@,
            pc@.len() < s@.len(),
            i <= pc@.len(),
            forall|j: int| 0 <= j < i ==> s@[j] == pc@[j],
        decreases pc@.len() - i,
    {
        if s[i] != pc[i] {
            assert(s@.take(p@.len() as int)[i as int] != p@[i as int]);
            return false;
        }
        i = i + 1;
    }
    assert(s@.take(p@.len() as int) =~= p@);
    true
}

fn is_name(s: &[char], name: &str) -> (b: bool)
    ensures
        b == (s@ == name@),
{
    let n = chars_of(name);
    same_chars(s, n.as_slice())
}

/// The key a spelled name stands for.
pub fn named(s: &[char]) -> (r: Option<KeyCode>)
    ensures
        r == named_key(s@),
{
    if s.len() == 1 {
        return Some(KeyCode::Char(s[0]));
    }
    if is_name(s, "tab") { return Some(KeyCode::Tab); }
    if is_name(s, "enter") { return Some(KeyCode::Enter); }
    if is_name(s, "esc") { return Some(KeyCode::Esc); }
    if is_name(s, "up") { return Some(KeyCode::Up); }
    if is_name(s, "down") { return Some(KeyCode::Down); }
    if is_name(s, "left") { return Some(KeyCode::Left); }
    if is_name(s, "right") { return Some(KeyCode::Right); }
    if is_name(s, "pgup") { return Some(KeyCode::PageUp); }
    if is_name(s, "pgdn") { return Some(KeyCode::PageDown); }
    if is_name(s, "home") { return Some(KeyCode::Home); }
    if is_name(s, "end") { return Some(KeyCode::End); }
    if is_name(s, "bs") { return Some(KeyCode::Backspace); }
    if is_name(s, "delete") { return Some(KeyCode::Delete); }
    if is_name(s, "space") { return Some(KeyCode::Char(' ')); }
    if s.len() == 2 && s[0] == 'F' && '1' <= s[1] && s[1] <= '9' {
        return Some(KeyCode::F(((s[1] as u32) - 48) as u8));
    }
    if s.len() == 3 && s[0] == 'F' && s[1] == '1' && '0' <= s[2] && s[2] <= '2' {
        return Some(KeyCode::F(((s[2] as u32) - 48 + 10) as u8));
    }
    None
}

/// The key a spelling stands for.
pub fn parse(s: &[char]) -> (r: Option<Key>)
    ensures
        r == parse_key(s@),
    decreases s@.len(),
{
    proof {
        reveal_strlit("ctrl+");
        reveal_strlit("alt+");
        reveal_strlit("shift+");
    }
    if prefixed(s, "ctrl+") {
        let rest = crate::text::copy_range(s, 5, s.len());
        assert(rest@ =~= s@.skip(5));
        return match parse(rest.as_slice()) {
            Some(k) => Some(Key { code: k.code, mods: Mods { ctrl: true, alt: k.mods.alt, shift: k.mods.shift } }),
            None => None,
        };
    }
    if prefixed(s, "alt+") {
        let rest = crate::text::copy_range(s, 4, s.len());
        assert(rest@ =~= s@.skip(4));
        return match parse(rest.as_slice()) {
            Some(k) => Some(Key { code: k.code, mods: Mods { ctrl: k.mods.ctrl, alt: true, shift: k.mods.shift } }),
            None => None,
        };
    }
    if prefixed(s, "shift+") {
        let rest = crate::text::copy_range(s, 6, s.len());
        assert(rest@ =~= s@.skip(6));
        return match parse(rest.as_slice()) {
            Some(k) => {
                let code = match k.code {
                    KeyCode::Tab => KeyCode::BackTab,
                    c => c,
                };
                Some(Key { code, mods: Mods { ctrl: k.mods.ctrl, alt: k.mods.alt, shift: true } })
            },
            None => None,
        };
    }
    match named(s) {
        Some(c) => Some(Key { code: c, mods: Mods { ctrl: false, alt: false, shift: false } }),
        None => None,
    }
}

fn matches_key(spec: Key, k: Key) -> (b: bool)
    ensures
        b == key_matches(spec, k),
{
    let shift_free = match spec.code {
        KeyCode::Char(_) => true,
        KeyCode::BackTab => true,
        _ => false,
    };
    spec.code == k.code && spec.mods.ctrl == k.mods.ctrl && spec.mods.alt == k.mods.alt
        && (shift_free || spec.mods.shift == k.mods.shift)
}

/// Whether one of the spellings of `b` is the key `k`.
pub fn binding_binds(b: &Binding, k: Key) -> (r: bool)
    ensures
        r == binds(*b, k),
{
    let alts = alternatives_of(b.keys);
    let mut i: usize = 0;
    while i < alts.len()
        invariant
            i <= alts@.len(),
            alts@.len() == alternatives(b.keys@).len(),
            forall|q: int| 0 <= q < alts@.len() ==> (#[trigger] alts@[q])@ == alternatives(b.keys@)[q],
            forall|j: int| 0 <= j < i ==> !(#[trigger] parse_key(alternatives(b.keys@)[j]) matches Some(sp) && key_matches(sp, k)),
        decreases alts@.len() - i,
    {
        let p = parse(alts[i].as_slice());
        match p {
            Some(sp) => {
                if matches_key(sp, k) {
                    assert(parse_key(alternatives(b.keys@)[i as int]) matches Some(sp) && key_matches(sp, k));
                    return true;
                }
            },
            None => {},
        }
        i = i + 1;
    }
    false
}

fn first_in(m: Option<Module>, k: Key) -> (r: Option<Action>)
    ensures
        r == first_action(binding_table(), m, k),
{
    let table = bindings();
    let mut i: usize = 0;
    assert(table@.skip(0) =~= table@);
    while i < table.len()
        invariant
            table@ == binding_table(),
            i <= table@.len(),
            first_action(table@.skip(i as int), m, k) == first_action(binding_table(), m, k),
        decreases table@.len() - i,
    {
        let b = table[i];
        proof {
            assert(table@.skip(i as int)[0] == b);
            assert(table@.skip(i as int).skip(1) =~= table@.skip(i + 1));
        }
        if is_offered(b.group, m) && binding_binds(&b, k) {
            return Some(b.action);
        }
        i = i + 1;
    }
    proof {
        assert(table@.skip(i as int).len() == 0);
    }
    None
}

/// The rows of `rows` offered for `m`, in order: a module's own when `m`
/// names one, the global ones when it is `None`.
pub open spec fn offered_rows(rows: Seq<Binding>, m: Option<Module>) -> Seq<Binding>
    decreases rows.len(),
{
    if rows.len() == 0 {
        Seq::empty()
    } else {
        let r = offered_rows(rows.drop_last(), m);
        if offered(rows.last().group@, m) { r.push(rows.last()) } else { r }
    }
}

fn offered_bindings(m: Option<Module>) -> (r: Vec<Binding>)
    ensures
        r@ == offered_rows(binding_table(), m),
{
    let table = bindings();
    let mut r: Vec<Binding> = Vec::new();
    let mut i: usize = 0;
    while i < table.len()
        invariant
            table@ == binding_table(),
            i <= table@.len(),
            r@ == offered_rows(table@.take(i as int), m),
        decreases table@.len() - i,
    {
        let b = table[i];
        proof {
            assert(table@.take(i + 1).drop_last() =~= table@.take(i as int));
            assert(table@.take(i + 1).last() == b);
        }
        if is_offered(b.group, m) {
            r.push(b);
        }
        i = i + 1;
    }
    assert(table@.take(table@.len() as int) =~= table@);
    r
}

/// A module's own bindings, in table order.
pub fn module_bindings(m: Module) -> (r: Vec<Binding>)
    ensures
        r@ == offered_rows(binding_table(), Some(m)),
{
    offered_bindings(Some(m))
}

/// The global bindings, in table order.
pub fn global_bindings() -> (r: Vec<Binding>)
    ensures
        r@ == offered_rows(binding_table(), None),
{
    offered_bindings(None)
}

/// The focused module's own bindings, tried first. `None` when the module
/// has no use for the key and the global table should have it.
pub fn module(m: Module, k: Key) -> (r: Option<Action>)
    ensures
        r == first_action(binding_table(), Some(m), k),
{
    first_in(Some(m), k)
}

/// The global table, tried after the focused module has declined.
pub fn resolve(k: Key) -> (r: Option<Action>)
    ensures
        r == first_action(binding_table(), None, k),
{
    first_in(None, k)
}

/// What the key after a `g` means: `g` the top, `h` home, `r` the root;
/// nothing with `ctrl` or `alt` held.
pub open spec fn g_chord(k: Key) -> Option<Action> {
    if k.mods.ctrl || k.mods.alt {
        None
    } else {
        match k.code {
            KeyCode::Char(c) => if c == 'g' {
                Some(Action::Home)
            } else if c == 'h' {
                Some(Action::GoHome)
            } else if c == 'r' {
                Some(Action::GoRoot)
            } else {
                None
            },
            _ => None,
        }
    }
}

/// What the key after a `g` means, if `g` was the one before it.
pub fn g_prefix(k: Key) -> (r: Option<Action>)
    ensures
        r == g_chord(k),
{
    if k.mods.ctrl || k.mods.alt {
        return None;
    }
    match k.code {
        KeyCode::Char('g') => Some(Action::Home),
        KeyCode::Char('h') => Some(Action::GoHome),
        KeyCode::Char('r') => Some(Action::GoRoot),
        _ => None,
    }
}

/// A character or a plain editing motion, with no `ctrl` or `alt`.
pub open spec fn text_key(k: Key) -> bool {
    !k.mods.ctrl && !k.mods.alt && (k.code is Char || k.code == KeyCode::Backspace
        || k.code == KeyCode::Delete || k.code == KeyCode::Left || k.code == KeyCode::Right
        || k.code == KeyCode::Home || k.code == KeyCode::End)
}

/// Whether `k` is a key someone typing text would expect to work.
pub fn is_text_key(k: Key) -> (b: bool)
    ensures
        b == text_key(k),
{
    if k.mods.ctrl || k.mods.alt {
        return false;
    }
    match k.code {
        KeyCode::Char(_) | KeyCode::Backspace | KeyCode::Delete | KeyCode::Left | KeyCode::Right
        | KeyCode::Home | KeyCode::End => true,
        _ => false,
    }
}

/// What the `/` filter takes as typing: every `alt+` key falls through, and
/// so does `?`; of the `ctrl+` keys only `a`, `e`, `u` and `w` are typing;
/// otherwise a text key is.
pub open spec fn eaten(k: Key) -> bool {
    if k.mods.alt {
        false
    } else if k.code == KeyCode::Char('?') {
        false
    } else if k.mods.ctrl {
        k.code == KeyCode::Char('u') || k.code == KeyCode::Char('w')
            || k.code == KeyCode::Char('a') || k.code == KeyCode::Char('e')
    } else {
        text_key(k)
    }
}

/// Whether the filter's text entry, having focus, takes `k` as typing.
pub fn filter_eats(k: Key) -> (b: bool)
    ensures
        b == eaten(k),
{
    if k.mods.alt {
        return false;
    }
    if k.code == KeyCode::Char('?') {
        return false;
    }
    if k.mods.ctrl {
        return match k.code {
            KeyCode::Char('u') | KeyCode::Char('w') | KeyCode::Char('a') | KeyCode::Char('e') => true,
            _ => false,
        };
    }
    is_text_key(k)
}

/// While the filter has focus, every `alt+` key falls through it and so
/// does `?`, so help and the panel keys stay reachable mid-search; `esc`
/// and `enter` are never typing.
pub proof fn law_the_filter_lets_alt_help_and_the_ways_out_through(k: Key)
    ensures
        k.mods.alt ==> !eaten(k),
        k.code == KeyCode::Char('?') ==> !eaten(k),
        (k.code == KeyCode::Esc || k.code == KeyCode::Enter) ==> !eaten(k),
{
}

/// `ctrl` or `alt` on the key after a `g` is never part of a chord.
pub proof fn law_a_chord_takes_no_ctrl_or_alt(k: Key)
    ensures
        (k.mods.ctrl || k.mods.alt) ==> g_chord(k) is None,
{
}

/// How the key document names a module.
pub open spec fn module_title(m: Module) -> Seq<char> {
    match m {
        Module::Stack => "the stack"@,
        Module::Preview => "the preview"@,
        Module::Operations => "operations"@,
    }
}

/// How the key document names a module.
pub fn module_name(m: Module) -> (s: &'static str)
    ensures
        s@ == module_title(m),
{
    match m {
        Module::Stack => "the stack",
        Module::Preview => "the preview",
        Module::Operations => "operations",
    }
}

/// What the keys document says before its tables.
pub const DOC_HEADER: &'static str = "\
# Keys and the mouse

Every key STAR/FOLD knows, in the order the `?` overlay prints them. This
file is generated from the table in `src/ui/keymap.rs`, and a test fails if
the two disagree.

A key reaches its action through five layers, tried in order: an open
overlay takes every key while it is up; the `/` filter's text entry takes
typing next, because a letter typed into it is a letter, not a command;
`g` waiting for a second key (`gg`, `gh`, `gr`) comes next; the focused
module's own bindings are offered the key after that, so a binding under a
module heading works while that module has focus; and the global table
catches whatever nothing above wanted, which is what makes it work from
everywhere. While the filter has focus, every `alt+\u{2026}` falls through
it and so does `?`, so help and the appearance and panel keys stay reachable
mid-search; `esc` and `enter` are always the way out.

The header highlights each word's keyboard letter. `n` also toggles hidden
files, `f` also opens the filter, and `e` also opens Places. The existing
`.`, `/`, and `b` keys still work. Preview's `c` and Operations' `r`/`c` work only
when that module has focus. The back arrow keeps its `h` navigation key.
Press `c` with the Stack focused, or click `actions` in its heading, to open
the modal file actions menu.

In Commander view, `tab` and `shift+tab` switch file panes. `alt+1` focuses
the active pane; `alt+2` and `alt+3` reach preview and operations. `y/p` and
`m` queue files from the active pane into the opposite directory, using
current-directory marks or the highlighted file. `v` switches views, `b`
opens Places, and `B` bookmarks the current directory. In Places, type to
search, use arrows and `enter` to open a location, `F2` to rename a bookmark,
`F3` to inspect the selected place, `delete` to remove one after confirmation,
`F5` to rescan mounts, and `F6` to unmount a selected local drive after
confirmation.
";

/// What the keys document says of the mouse before its table.
pub const DOC_MOUSE: &'static str = "\
While an embedded STAR/AMP player has Preview focus (`alt+2`), `space` or
`enter` pauses/resumes, `[` / `]` selects the previous/next track, left/right
seeks five seconds, and `+` / `-` changes volume. `x` or `esc` stops the player
and restores ordinary previews; `i` closes Preview and stops playback. `o`
toggles graphical/text transport buttons; `shift+o` opens the playing track
externally. On newer STAR/AMP, `w` / `shift+w` cycles visualizers forward/back
and `d` cycles seek-bar styles; these choices persist separately for STAR/FOLD.
These controls are scoped to Preview;
browser navigation, marking, global focus shortcuts, and quit keep their
normal meanings. The player's transport, seek, and volume controls are also
clickable. Left-click a visualizer to cycle it; Ctrl+click a visualizer or
seek bar to cycle the seek style; wheel over a visualizer cycles it. Physical
right-click does the same when `[ui] right_click = true`.

";

/// `s` padded with spaces on the right to `w` characters.
pub open spec fn padded(s: Seq<char>, w: int) -> Seq<char> {
    if s.len() < w { s + Seq::new((w - s.len()) as nat, |i: int| ' ') } else { s }
}

/// The modules of a scope, named and joined by commas.
pub open spec fn module_list(ms: Seq<Module>) -> Seq<char>
    decreases ms.len(),
{
    if ms.len() == 0 {
        Seq::empty()
    } else if ms.len() == 1 {
        module_title(ms[0])
    } else {
        module_list(ms.drop_last()) + ", "@ + module_title(ms.last())
    }
}

/// Where a scope applies, in words.
pub open spec fn scope_words(s: Scope) -> Seq<char> {
    match s {
        Scope::Global => "everywhere"@,
        Scope::Modules(list) => "in "@ + module_list(list@),
    }
}

/// The heading and table head that open a group in the document.
pub open spec fn group_heading(g: Seq<char>) -> Seq<char> {
    "\n## "@ + g + "\n\n_"@ + scope_words(scope_spec(g)) + "_\n\n"@ + "| key | what it does |\n|---|---|\n"@
}

/// A binding's row in the document, its keys in backticks padded to `kw`.
pub open spec fn binding_line(b: Binding, kw: int) -> Seq<char> {
    "| "@ + padded(seq!['`'] + b.keys@ + seq!['`'], kw) + " | "@ + b.label@ + " |\n"@
}

/// The document's rows for `rows`, a group's heading before the first row
/// of each run of that group, the group before them being `prev`.
pub open spec fn binding_lines(rows: Seq<Binding>, prev: Seq<char>, kw: int) -> Seq<char>
    decreases rows.len(),
{
    if rows.len() == 0 {
        Seq::empty()
    } else {
        (if rows[0].group@ != prev { group_heading(rows[0].group@) } else { Seq::empty() }) + binding_line(rows[0], kw)
            + binding_lines(rows.skip(1), rows[0].group@, kw)
    }
}

/// A mouse gesture's row, its group padded to eight and its gesture to `gw`.
pub open spec fn mouse_line(m: MouseHelp, gw: int) -> Seq<char> {
    "| "@ + padded(m.group@, 8) + " | "@ + padded(m.gesture@, gw) + " | "@ + m.label@ + " |\n"@
}

/// The document's rows for the mouse table.
pub open spec fn mouse_lines(rows: Seq<MouseHelp>, gw: int) -> Seq<char>
    decreases rows.len(),
{
    if rows.len() == 0 {
        Seq::empty()
    } else {
        mouse_line(rows[0], gw) + mouse_lines(rows.skip(1), gw)
    }
}

/// The key table as a document: the header, each group's heading, scope
/// and rows, then the mouse's note and table.
pub open spec fn document_text(kw: int, gw: int) -> Seq<char> {
    DOC_HEADER@ + binding_lines(binding_table(), Seq::empty(), kw) + "\n## The mouse\n\n"@ + DOC_MOUSE@
        + "| where | gesture | what it does |\n|---|---|---|\n"@ + mouse_lines(mouse_table(), gw)
}

fn push_padded(out: &mut Vec<char>, s: &Vec<char>, w: usize)
    ensures
        final(out)@ == old(out)@ + padded(s@, w as int),
{
    let mut i: usize = 0;
    let ghost start = out@;
    while i < s.len()
        invariant
            i <= s@.len(),
            out@ == start + s@.take(i as int),
        decreases s@.len() - i,
    {
        out.push(s[i]);
        assert(s@.take(i + 1) =~= s@.take(i as int).push(s@[i as int]));
        i = i + 1;
    }
    assert(s@.take(s@.len() as int) =~= s@);
    let mut n = s.len();
    let ghost mid = out@;
    while n < w
        invariant
            s@.len() <= n <= (if w > s@.len() { w as int } else { s@.len() as int }),
            out@ == mid + Seq::new((n - s@.len()) as nat, |i: int| ' '),
        decreases w - n,
    {
        out.push(' ');
        assert(mid + Seq::new((n + 1 - s@.len()) as nat, |i: int| ' ')
            =~= (mid + Seq::new((n - s@.len()) as nat, |i: int| ' ')).push(' '));
        n = n + 1;
    }
    if s.len() >= w {
        assert(Seq::new(0nat, |i: int| ' ') =~= Seq::<char>::empty());
        assert(out@ =~= start + s@);
    } else {
        assert(out@ =~= start + (s@ + Seq::new((w - s@.len()) as nat, |i: int| ' ')));
    }
}

fn push_scope_words(out: &mut Vec<char>, s: Scope)
    ensures
        final(out)@ == old(out)@ + scope_words(s),
{
    match s {
        Scope::Global => crate::text::push_str(out, "everywhere"),
        Scope::Modules(list) => {
            crate::text::push_str(out, "in ");
            let ghost start = out@;
            let mut i: usize = 0;
            while i < list.len()
                invariant
                    i <= list@.len(),
                    out@ == start + module_list(list@.take(i as int)),
                decreases list@.len() - i,
            {
                if i > 0 {
                    crate::text::push_str(out, ", ");
                }
                crate::text::push_str(out, module_name(list[i]));
                proof {
                    let t = list@.take(i + 1);
                    assert(t.drop_last() =~= list@.take(i as int));
                    assert(t.last() == list@[i as int]);
                    if i == 0 {
                        assert(list@.take(0) =~= Seq::<Module>::empty());
                    }
                }
                i = i + 1;
            }
            assert(list@.take(list@.len() as int) =~= list@);
        },
    }
}

fn push_binding(out: &mut Vec<char>, b: Binding, fresh: bool, kw: usize)
    ensures
        final(out)@ == old(out)@ + (if fresh { group_heading(b.group@) } else { Seq::empty() }) + binding_line(b, kw as int),
{
    let ghost before = out@;
    if fresh {
        crate::text::push_str(out, "\n## ");
        crate::text::push_str(out, b.group);
        crate::text::push_str(out, "\n\n_");
        push_scope_words(out, scope_of(b.group));
        crate::text::push_str(out, "_\n\n");
        crate::text::push_str(out, "| key | what it does |\n|---|---|\n");
    }
    let ghost after_head = out@;
    proof {
        if fresh {
            assert(after_head =~= before + group_heading(b.group@));
        } else {
            assert(after_head =~= before);
        }
    }
    let mut keys: Vec<char> = vec!['`'];
    crate::text::push_str(&mut keys, b.keys);
    keys.push('`');
    assert(keys@ =~= seq!['`'] + b.keys@ + seq!['`']);
    crate::text::push_str(out, "| ");
    push_padded(out, &keys, kw);
    crate::text::push_str(out, " | ");
    crate::text::push_str(out, b.label);
    crate::text::push_str(out, " |\n");
    assert(out@ =~= after_head + binding_line(b, kw as int));
}

proof fn lemma_binding_lines_step(rows: Seq<Binding>, i: int, prev: Seq<char>, kw: int)
    requires
        0 <= i < rows.len(),
    ensures
        binding_lines(rows.skip(i), prev, kw)
            == (if rows[i].group@ != prev { group_heading(rows[i].group@) } else { Seq::empty() }) + binding_line(rows[i], kw)
                + binding_lines(rows.skip(i + 1), rows[i].group@, kw),
{
    let rest = rows.skip(i);
    assert(rest[0] == rows[i]);
    assert(rest.skip(1) =~= rows.skip(i + 1));
}

fn push_mouse(out: &mut Vec<char>, m: MouseHelp, gw: usize)
    ensures
        final(out)@ == old(out)@ + mouse_line(m, gw as int),
{
    let ghost before = out@;
    crate::text::push_str(out, "| ");
    let gr = chars_of(m.group);
    push_padded(out, &gr, 8);
    crate::text::push_str(out, " | ");
    let ge = chars_of(m.gesture);
    push_padded(out, &ge, gw);
    crate::text::push_str(out, " | ");
    crate::text::push_str(out, m.label);
    crate::text::push_str(out, " |\n");
    assert(out@ =~= before + mouse_line(m, gw as int));
}

proof fn lemma_mouse_lines_step(rows: Seq<MouseHelp>, j: int, gw: int)
    requires
        0 <= j < rows.len(),
    ensures
        mouse_lines(rows.skip(j), gw) == mouse_line(rows[j], gw) + mouse_lines(rows.skip(j + 1), gw),
{
    let rest = rows.skip(j);
    assert(rest[0] == rows[j]);
    assert(rest.skip(1) =~= rows.skip(j + 1));
}

/// The key table as a document, the keys column `keys_column` wide and the
/// gestures column `gesture_column` wide.
pub fn document(keys_column: usize, gesture_column: usize) -> (s: String)
    ensures
        s@ == document_text(keys_column as int, gesture_column as int),
{
    let mut out: Vec<char> = chars_of(DOC_HEADER);
    let table = bindings();
    let ghost tv = table@;
    let ghost kw = keys_column as int;
    let mut group: Vec<char> = Vec::new();
    let mut i: usize = 0;
    assert(tv.skip(0) =~= tv);
    assert(group@ =~= Seq::<char>::empty());
    let ghost goal = DOC_HEADER@ + binding_lines(tv, Seq::empty(), kw);
    while i < table.len()
        invariant
            tv == table@,
            kw == keys_column as int,
            i <= tv.len(),
            out@ + binding_lines(tv.skip(i as int), group@, kw) == goal,
        decreases tv.len() - i,
    {
        let b = table[i];
        let ghost before = out@;
        let g = chars_of(b.group);
        let fresh = !same_chars(g.as_slice(), group.as_slice());
        push_binding(&mut out, b, fresh, keys_column);
        proof {
            lemma_binding_lines_step(tv, i as int, group@, kw);
            let head: Seq<char> = if fresh { group_heading(b.group@) } else { Seq::empty() };
            let tail = binding_lines(tv.skip(i + 1), b.group@, kw);
            assert(before + (head + binding_line(b, kw) + tail) =~= (before + head + binding_line(b, kw)) + tail);
        }
        group = g;
        i = i + 1;
    }
    proof {
        assert(tv.skip(tv.len() as int) =~= Seq::<Binding>::empty());
        assert(out@ =~= goal);
    }
    crate::text::push_str(&mut out, "\n## The mouse\n\n");
    crate::text::push_str(&mut out, DOC_MOUSE);
    crate::text::push_str(&mut out, "| where | gesture | what it does |\n|---|---|---|\n");
    let ghost mid = out@;
    let ms = mouse();
    let ghost mv = ms@;
    let ghost gw = gesture_column as int;
    let mut j: usize = 0;
    assert(mv.skip(0) =~= mv);
    while j < ms.len()
        invariant
            mv == ms@,
            gw == gesture_column as int,
            j <= mv.len(),
            out@ + mouse_lines(mv.skip(j as int), gw) == mid + mouse_lines(mv, gw),
        decreases mv.len() - j,
    {
        let m = ms[j];
        let ghost before = out@;
        push_mouse(&mut out, m, gesture_column);
        proof {
            lemma_mouse_lines_step(mv, j as int, gw);
            let tail = mouse_lines(mv.skip(j + 1), gw);
            assert(before + (mouse_line(m, gw) + tail) =~= (before + mouse_line(m, gw)) + tail);
        }
        j = j + 1;
    }
    proof {
        assert(mv.skip(mv.len() as int) =~= Seq::<MouseHelp>::empty());
        assert(out@ =~= mid + mouse_lines(mv, gw));
    }
    let s = string_of(out.as_slice());
    assert(s@ =~= document_text(keys_column as int, gesture_column as int));
    s
}

} // verus!
