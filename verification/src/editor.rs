//! The terminal editor opened in the preview: which files it may open,
//! the command that runs it, and the bytes a key press sends to it.
use vstd::prelude::*;
use crate::geometry::Rect;
use crate::keys::{Key, KeyCode};
use crate::overlays::context::blank;
use crate::overlays::rename::{file_name, file_name_of};
use crate::text::{chars_of, copy_range, push_char, rfind_char, last_index, string_of, string_views};
use crate::uri::white_space;
use vstd::string::*;
use vstd::utf8::encode_utf8;

verus! {

/// What kind of entry a path names.
#[derive(Debug, Clone, Copy, PartialEq, Eq, Structural)]
pub enum EntryKind {
    File,
    Dir,
    Symlink,
    Other,
}

/// The facts about an entry the editor needs: its path, its kind, and for
/// a link what the link points at.
#[derive(Debug, Clone)]
pub struct Entry {
    pub path: String,
    pub kind: EntryKind,
    pub link_kind: Option<EntryKind>,
}

/// Why no editor command came out of the settings.
#[derive(Debug, Clone, Copy, PartialEq, Eq, Structural)]
pub enum EditorError {
    /// The setting's quoting does not parse.
    Parse,
    /// The setting holds no word at all.
    Empty,
}

/// A path's extension as `Path::extension` reads it: what follows the last
/// `.` of the file name, unless that `.` opens the name or there is none.
pub open spec fn extension_of(path: Seq<char>) -> Option<Seq<char>> {
    match file_name_of(path) {
        Some(n) => match last_index(n, '.') {
            Some(i) => if i == 0 { None } else { Some(n.skip(i + 1)) },
            None => None,
        },
        None => None,
    }
}

/// A path's extension.
pub fn extension(path: &[char]) -> (r: Option<Vec<char>>)
    ensures
        match r {
            Some(e) => extension_of(path@) == Some(e@),
            None => extension_of(path@) is None,
        },
{
    match file_name(path) {
        Some(n) => {
            let l = n.len();
            match rfind_char(n.as_slice(), '.') {
                Some(i) => if i == 0 {
                    None
                } else {
                    assert(i < l);
                    let e = copy_range(n.as_slice(), i + 1, n.len());
                    assert(e@ =~= n@.skip(i + 1));
                    Some(e)
                },
                None => None,
            }
        },
        None => None,
    }
}

/// What `mime_guess` guesses first for a file with this extension.
pub uninterp spec fn mime_for_extension(ext: Seq<char>) -> Option<Seq<char>>;

/// The first MIME type guessed for an extension.
///
/// Trusted: `mime_guess::from_ext(ext).first_raw()`, a case-insensitive
/// lookup in the crate's table of extensions; its result depends on the
/// extension alone, and an empty extension has no guess.
#[verifier::external_body]
fn guess_mime(ext: &str) -> (r: Option<String>)
    ensures
        match r {
            Some(m) => mime_for_extension(ext@) == Some(m@),
            None => mime_for_extension(ext@) is None,
        },
        ext@.len() == 0 ==> r is None,
{
    mime_guess::from_ext(ext).first_raw().map(String::from)
}

/// The MIME types besides `text/...` that the editor opens.
pub open spec fn editable_types() -> Seq<Seq<char>> {
    seq![
        "application/json"@, "application/ld+json"@, "application/xml"@, "application/javascript"@,
        "application/x-yaml"@, "application/x-toml"@, "application/toml"@, "application/x-sh"@,
        "application/x-shellscript"@,
    ]
}

/// Whether the editor opens an entry: a regular file, or a link to one;
/// with no extension always, else when its guessed type is text.
pub open spec fn editable(e: Entry) -> bool {
    let file_like = e.kind == EntryKind::File || (e.kind == EntryKind::Symlink && e.link_kind == Some(EntryKind::File));
    file_like && match extension_of(e.path@) {
        None => true,
        Some(ext) => {
            let mime = match mime_for_extension(ext) {
                Some(m) => m,
                None => Seq::empty(),
            };
            crate::text::has_prefix(mime, "text/"@) || editable_types().contains(mime)
        },
    }
}

/// Whether the editor opens `entry`.
pub fn is_editable(entry: &Entry) -> (b: bool)
    ensures
        b == editable(*entry),
{
    let file_like = match entry.kind {
        EntryKind::File => true,
        EntryKind::Symlink => match entry.link_kind {
            Some(EntryKind::File) => true,
            _ => false,
        },
        _ => false,
    };
    if !file_like {
        return false;
    }
    let p = chars_of(entry.path.as_str());
    let ext = match extension(p.as_slice()) {
        None => return true,
        Some(e) => e,
    };
    let es = string_of(ext.as_slice());
    let mime = match guess_mime(es.as_str()) {
        Some(m) => chars_of(m.as_str()),
        None => Vec::new(),
    };
    if crate::text::starts_with_text(mime.as_slice(), "text/") {
        return true;
    }
    let types = vec![
        "application/json", "application/ld+json", "application/xml", "application/javascript",
        "application/x-yaml", "application/x-toml", "application/toml", "application/x-sh",
        "application/x-shellscript",
    ];
    let mut i: usize = 0;
    let ghost tv = types@.map_values(|t: &str| t@);
    assert(tv =~= editable_types());
    assert(editable(*entry) == (crate::text::has_prefix(mime@, "text/"@) || editable_types().contains(mime@)));
    while i < types.len()
        invariant
            editable(*entry) == (crate::text::has_prefix(mime@, "text/"@) || editable_types().contains(mime@)),
            !crate::text::has_prefix(mime@, "text/"@),
            tv == types@.map_values(|t: &str| t@),
            tv == editable_types(),
            i <= types@.len(),
            forall|j: int| 0 <= j < i ==> tv[j] != mime@,
        decreases types@.len() - i,
    {
        let t = chars_of(types[i]);
        if crate::text::same_chars(t.as_slice(), mime.as_slice()) {
            assert(tv[i as int] == mime@);
            return true;
        }
        i = i + 1;
    }
    false
}

/// What `shell_words::split` makes of a setting: its words, or nothing when
/// the quoting does not parse.
pub uninterp spec fn shell_split(s: Seq<char>) -> Option<Seq<Seq<char>>>;

/// Split a setting into words as a POSIX shell would, without running one.
///
/// Trusted: `shell_words::split`, which reads quotes and escapes into words
/// or refuses unbalanced quoting; its result depends on the text alone.
#[verifier::external_body]
fn split_words(s: &str) -> (r: Option<Vec<String>>)
    ensures
        match r {
            Some(v) => shell_split(s@) == Some(string_views(v@)),
            None => shell_split(s@) is None,
        },
{
    shell_words::split(s).ok()
}

/// The editor setting in force: `$VISUAL` unless blank, else `$EDITOR`
/// unless blank, else `vi`.
pub open spec fn setting_of(visual: Option<Seq<char>>, editor: Option<Seq<char>>) -> Seq<char> {
    match visual {
        Some(v) if !blank(v) => v,
        _ => match editor {
            Some(e) if !blank(e) => e,
            _ => "vi"@,
        },
    }
}

/// The command that edits `path`: the setting's words, then the path as
/// one more argument.
pub open spec fn argv_of(visual: Option<Seq<char>>, editor: Option<Seq<char>>, path: Seq<char>) -> Result<Seq<Seq<char>>, EditorError> {
    match shell_split(setting_of(visual, editor)) {
        None => Err(EditorError::Parse),
        Some(words) => if words.len() == 0 { Err(EditorError::Empty) } else { Ok(words.push(path)) },
    }
}

fn is_blank(s: &str) -> (b: bool)
    ensures
        b == blank(s@),
{
    let c = chars_of(s);
    let mut i: usize = 0;
    while i < c.len()
        invariant
            c@ == s@,
            i <= c@.len(),
            forall|j: int| 0 <= j < i ==> crate::uri::is_white_space(#[trigger] c@[j]),
        decreases c@.len() - i,
    {
        if !white_space(c[i]) {
            return false;
        }
        i = i + 1;
    }
    true
}

/// The command that edits `path`.
pub fn editor_argv(visual: Option<&str>, editor: Option<&str>, path: &str) -> (r: Result<Vec<String>, EditorError>)
    ensures
        match r {
            Ok(v) => argv_of(opt_chars(visual), opt_chars(editor), path@) == Ok::<Seq<Seq<char>>, EditorError>(string_views(v@)),
            Err(e) => argv_of(opt_chars(visual), opt_chars(editor), path@) == Err::<Seq<Seq<char>>, EditorError>(e),
        },
{
    proof {
        reveal_strlit("vi");
    }
    let setting: &str = match visual {
        Some(v) if !is_blank(v) => v,
        _ => match editor {
            Some(e) if !is_blank(e) => e,
            _ => "vi",
        },
    };
    let words = match split_words(setting) {
        Some(w) => w,
        None => return Err(EditorError::Parse),
    };
    if words.len() == 0 {
        return Err(EditorError::Empty);
    }
    let mut argv = words;
    let ghost before = string_views(argv@);
    argv.push(path.to_string());
    assert(string_views(argv@) =~= before.push(path@));
    Ok(argv)
}

/// An optional string's characters.
pub open spec fn opt_chars(o: Option<&str>) -> Option<Seq<char>> {
    match o {
        Some(s) => Some(s@),
        None => None,
    }
}

/// The control byte `ctrl` and a character send, if any: a letter its
/// place in the alphabet, space and `@` nought, and `[ \ ] ^ _` 27 to 31.
pub open spec fn ctrl_bytes(c: char) -> Seq<u8> {
    let l = if 'A' <= c <= 'Z' { ((c as u32) + 32) as char } else { c };
    if 'a' <= l <= 'z' {
        seq![((l as u32) - 96) as u8]
    } else if l == ' ' || l == '@' {
        seq![0u8]
    } else if l == '[' {
        seq![27u8]
    } else if l == '\\' {
        seq![28u8]
    } else if l == ']' {
        seq![29u8]
    } else if l == '^' {
        seq![30u8]
    } else if l == '_' {
        seq![31u8]
    } else {
        Seq::empty()
    }
}

/// An arrow key: `ESC O` and its letter in application-cursor mode, `ESC [`
/// and its letter otherwise.
pub open spec fn cursor_bytes(letter: u8, application_cursor: bool) -> Seq<u8> {
    seq![27u8, if application_cursor { 79u8 } else { 91u8 }, letter]
}

/// The bytes of an escape sequence written as text.
pub open spec fn esc(tail: Seq<char>) -> Seq<u8> {
    seq![27u8] + encode_utf8(tail)
}

/// What a key sends to the editor's terminal; `alt` puts an `ESC` in front
/// of whatever the key sends.
pub open spec fn key_bytes_of(key: Key, application_cursor: bool) -> Seq<u8> {
    let base = match key.code {
        KeyCode::Char(c) => if key.mods.ctrl { ctrl_bytes(c) } else { encode_utf8(seq![c]) },
        KeyCode::Enter => seq![13u8],
        KeyCode::Esc => seq![27u8],
        KeyCode::Tab => seq![9u8],
        KeyCode::BackTab => esc("[Z"@),
        KeyCode::Backspace => seq![127u8],
        KeyCode::Delete => esc("[3~"@),
        KeyCode::Insert => esc("[2~"@),
        KeyCode::Home => esc("[H"@),
        KeyCode::End => esc("[F"@),
        KeyCode::PageUp => esc("[5~"@),
        KeyCode::PageDown => esc("[6~"@),
        KeyCode::Up => cursor_bytes(65, application_cursor),
        KeyCode::Down => cursor_bytes(66, application_cursor),
        KeyCode::Right => cursor_bytes(67, application_cursor),
        KeyCode::Left => cursor_bytes(68, application_cursor),
        KeyCode::F(n) => if n == 1 {
            esc("OP"@)
        } else if n == 2 {
            esc("OQ"@)
        } else if n == 3 {
            esc("OR"@)
        } else if n == 4 {
            esc("OS"@)
        } else if n == 5 {
            esc("[15~"@)
        } else if n == 6 {
            esc("[17~"@)
        } else if n == 7 {
            esc("[18~"@)
        } else if n == 8 {
            esc("[19~"@)
        } else if n == 9 {
            esc("[20~"@)
        } else if n == 10 {
            esc("[21~"@)
        } else if n == 11 {
            esc("[23~"@)
        } else if n == 12 {
            esc("[24~"@)
        } else {
            Seq::empty()
        },
        KeyCode::Menu => Seq::empty(),
    };
    if key.mods.alt && base.len() > 0 { seq![27u8] + base } else { base }
}

fn esc_bytes(tail: &str) -> (out: Vec<u8>)
    ensures
        out@ == esc(tail@),
{
    let mut out: Vec<u8> = vec![27];
    let b = tail.as_bytes();
    let mut i: usize = 0;
    while i < b.len()
        invariant
            i <= b@.len(),
            b@ == tail.spec_bytes(),
            out@ == seq![27u8] + b@.take(i as int),
        decreases b@.len() - i,
    {
        out.push(b[i]);
        assert(b@.take(i + 1) =~= b@.take(i as int).push(b@[i as int]));
        i = i + 1;
    }
    assert(b@.take(b@.len() as int) =~= b@);
    out
}

/// An arrow key's bytes.
pub fn cursor_key(letter: u8, application_cursor: bool) -> (out: Vec<u8>)
    ensures
        out@ == cursor_bytes(letter, application_cursor),
{
    let out = vec![27, if application_cursor { 79 } else { 91 }, letter];
    assert(out@ =~= cursor_bytes(letter, application_cursor));
    out
}

fn char_bytes(c: char) -> (out: Vec<u8>)
    ensures
        out@ == encode_utf8(seq![c]),
{
    let mut s = String::new();
    push_char(&mut s, c);
    assert(s@ =~= seq![c]);
    let b = s.as_str().as_bytes();
    copy_range(b, 0, b.len())
}

fn ctrl_key(c: char) -> (out: Vec<u8>)
    ensures
        out@ == ctrl_bytes(c),
{
    let l = if 'A' <= c && c <= 'Z' { ((c as u32) + 32) as u8 as char } else { c };
    assert(l == (if 'A' <= c <= 'Z' { ((c as u32) + 32) as char } else { c }));
    let out = if 'a' <= l && l <= 'z' {
        vec![((l as u32) - 96) as u8]
    } else if l == ' ' || l == '@' {
        vec![0]
    } else if l == '[' {
        vec![27]
    } else if l == '\\' {
        vec![28]
    } else if l == ']' {
        vec![29]
    } else if l == '^' {
        vec![30]
    } else if l == '_' {
        vec![31]
    } else {
        Vec::new()
    };
    assert(out@ =~= ctrl_bytes(c));
    out
}

/// What a key sends to the editor's terminal.
pub fn key_bytes(key: Key, application_cursor: bool) -> (out: Vec<u8>)
    ensures
        out@ == key_bytes_of(key, application_cursor),
{
    let base: Vec<u8> = match key.code {
        KeyCode::Char(c) => if key.mods.ctrl { ctrl_key(c) } else { char_bytes(c) },
        KeyCode::Enter => vec![13],
        KeyCode::Esc => vec![27],
        KeyCode::Tab => vec![9],
        KeyCode::BackTab => esc_bytes("[Z"),
        KeyCode::Backspace => vec![127],
        KeyCode::Delete => esc_bytes("[3~"),
        KeyCode::Insert => esc_bytes("[2~"),
        KeyCode::Home => esc_bytes("[H"),
        KeyCode::End => esc_bytes("[F"),
        KeyCode::PageUp => esc_bytes("[5~"),
        KeyCode::PageDown => esc_bytes("[6~"),
        KeyCode::Up => cursor_key(65, application_cursor),
        KeyCode::Down => cursor_key(66, application_cursor),
        KeyCode::Right => cursor_key(67, application_cursor),
        KeyCode::Left => cursor_key(68, application_cursor),
        KeyCode::F(n) => if n == 1 {
            esc_bytes("OP")
        } else if n == 2 {
            esc_bytes("OQ")
        } else if n == 3 {
            esc_bytes("OR")
        } else if n == 4 {
            esc_bytes("OS")
        } else if n == 5 {
            esc_bytes("[15~")
        } else if n == 6 {
            esc_bytes("[17~")
        } else if n == 7 {
            esc_bytes("[18~")
        } else if n == 8 {
            esc_bytes("[19~")
        } else if n == 9 {
            esc_bytes("[20~")
        } else if n == 10 {
            esc_bytes("[21~")
        } else if n == 11 {
            esc_bytes("[23~")
        } else if n == 12 {
            esc_bytes("[24~")
        } else {
            Vec::new()
        },
        KeyCode::Menu => Vec::new(),
    };
    if key.mods.alt && base.len() > 0 {
        let mut out: Vec<u8> = vec![27];
        let mut i: usize = 0;
        while i < base.len()
            invariant
                i <= base@.len(),
                out@ == seq![27u8] + base@.take(i as int),
            decreases base@.len() - i,
        {
            out.push(base[i]);
            assert(base@.take(i + 1) =~= base@.take(i as int).push(base@[i as int]));
            i = i + 1;
        }
        assert(base@.take(base@.len() as int) =~= base@);
        out
    } else {
        base
    }
}

/// What pasting `text` sends to the editor: the text's bytes, between
/// `ESC [200~` and `ESC [201~` when the editor asked for bracketed paste.
pub open spec fn paste_bytes_of(text: Seq<u8>, bracketed: bool) -> Seq<u8> {
    if bracketed { esc("[200~"@) + text + esc("[201~"@) } else { text }
}

/// What pasting `text` sends to the editor.
pub fn paste_bytes(text: &str, bracketed: bool) -> (out: Vec<u8>)
    ensures
        out@ == paste_bytes_of(text.spec_bytes(), bracketed),
{
    let mut out: Vec<u8> = if bracketed { esc_bytes("[200~") } else { Vec::new() };
    let ghost front = out@;
    let b = text.as_bytes();
    let mut i: usize = 0;
    while i < b.len()
        invariant
            i <= b@.len(),
            b@ == text.spec_bytes(),
            out@ == front + b@.take(i as int),
        decreases b@.len() - i,
    {
        out.push(b[i]);
        assert(b@.take(i + 1) =~= b@.take(i as int).push(b@[i as int]));
        i = i + 1;
    }
    assert(b@.take(b@.len() as int) =~= b@);
    if bracketed {
        let tail = esc_bytes("[201~");
        let ghost mid = out@;
        let mut j: usize = 0;
        while j < tail.len()
            invariant
                j <= tail@.len(),
                out@ == mid + tail@.take(j as int),
            decreases tail@.len() - j,
        {
            out.push(tail[j]);
            assert(tail@.take(j + 1) =~= tail@.take(j as int).push(tail@[j as int]));
            j = j + 1;
        }
        assert(tail@.take(tail@.len() as int) =~= tail@);
        assert(out@ =~= paste_bytes_of(text.spec_bytes(), bracketed));
    } else {
        assert(front =~= Seq::<u8>::empty());
        assert(out@ =~= paste_bytes_of(text.spec_bytes(), bracketed));
    }
    out
}

/// The editor's screen inside the preview's body: a column off each side.
pub open spec fn content_rect_of(body: Rect) -> Rect {
    Rect {
        x: (if body.width > 0 { if body.x == u16::MAX { u16::MAX as int } else { body.x + 1 } } else { body.x as int }) as u16,
        y: body.y,
        width: (if body.width >= 2 { body.width - 2 } else { 0 }) as u16,
        height: body.height,
    }
}

/// The editor's screen inside the preview's body.
pub fn content_rect(body: Rect) -> (r: Rect)
    ensures
        r == content_rect_of(body),
{
    Rect {
        x: if body.width > 0 { body.x.saturating_add(1) } else { body.x },
        y: body.y,
        width: if body.width >= 2 { body.width - 2 } else { 0 },
        height: body.height,
    }
}


/// The arrow keys send their own ANSI letters: up `A`, down `B`, right `C`,
/// left `D`, after `ESC [`, or `ESC O` when the editor asked for
/// application cursor keys; `alt` puts one more `ESC` in front.
pub proof fn law_each_arrow_sends_its_own_letter(key: Key, application_cursor: bool)
    ensures
        ({
            let m: u8 = if application_cursor { 79u8 } else { 91u8 };
            let lead: Seq<u8> = if key.mods.alt { seq![27u8, 27u8] } else { seq![27u8] };
            &&& key.code == KeyCode::Up ==> key_bytes_of(key, application_cursor) == lead + seq![m, 65u8]
            &&& key.code == KeyCode::Down ==> key_bytes_of(key, application_cursor) == lead + seq![m, 66u8]
            &&& key.code == KeyCode::Right ==> key_bytes_of(key, application_cursor) == lead + seq![m, 67u8]
            &&& key.code == KeyCode::Left ==> key_bytes_of(key, application_cursor) == lead + seq![m, 68u8]
        }),
{
    let m: u8 = if application_cursor { 79u8 } else { 91u8 };
    let lead: Seq<u8> = if key.mods.alt { seq![27u8, 27u8] } else { seq![27u8] };
    assert(seq![27u8] + seq![27u8, m, 65u8] =~= seq![27u8, 27u8] + seq![m, 65u8]);
    assert(seq![27u8] + seq![27u8, m, 66u8] =~= seq![27u8, 27u8] + seq![m, 66u8]);
    assert(seq![27u8] + seq![27u8, m, 67u8] =~= seq![27u8, 27u8] + seq![m, 67u8]);
    assert(seq![27u8] + seq![27u8, m, 68u8] =~= seq![27u8, 27u8] + seq![m, 68u8]);
    assert(seq![27u8, m, 65u8] =~= seq![27u8] + seq![m, 65u8]);
    assert(seq![27u8, m, 66u8] =~= seq![27u8] + seq![m, 66u8]);
    assert(seq![27u8, m, 67u8] =~= seq![27u8] + seq![m, 67u8]);
    assert(seq![27u8, m, 68u8] =~= seq![27u8] + seq![m, 68u8]);
}


/// The editing keys send what a terminal sends for them: `enter` a carriage
/// return, `esc` an escape, `tab` a tab, `backspace` DEL, and `ctrl` with a
/// letter that letter's control code; `alt` puts an `ESC` in front.
pub proof fn law_editing_keys_send_their_terminal_codes(key: Key, application_cursor: bool)
    ensures
        ({
            let lead: Seq<u8> = if key.mods.alt { seq![27u8] } else { Seq::empty() };
            &&& key.code == KeyCode::Enter ==> key_bytes_of(key, application_cursor) == lead + seq![13u8]
            &&& key.code == KeyCode::Esc ==> key_bytes_of(key, application_cursor) == lead + seq![27u8]
            &&& key.code == KeyCode::Tab ==> key_bytes_of(key, application_cursor) == lead + seq![9u8]
            &&& key.code == KeyCode::Backspace ==> key_bytes_of(key, application_cursor) == lead + seq![127u8]
            &&& (key.code matches KeyCode::Char(c) && key.mods.ctrl && 'a' <= c <= 'z')
                ==> key_bytes_of(key, application_cursor) == lead + seq![((key.code->Char_0 as u32) - 96) as u8]
        }),
{
    assert(Seq::<u8>::empty() + seq![13u8] =~= seq![13u8]);
    assert(Seq::<u8>::empty() + seq![27u8] =~= seq![27u8]);
    assert(Seq::<u8>::empty() + seq![9u8] =~= seq![9u8]);
    assert(Seq::<u8>::empty() + seq![127u8] =~= seq![127u8]);
    match key.code {
        KeyCode::Char(c) => {
            let v = seq![((c as u32) - 96) as u8];
            assert(Seq::<u8>::empty() + v =~= v);
        },
        _ => {},
    }
}

} // verus!
