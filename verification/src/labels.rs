//! How the application words what it shows: a directory's level name, a
//! path relative to home, an entry's row, and a queued operation's row.
use vstd::prelude::*;
use crate::editor::EntryKind;
use crate::ops::{OpKind, OpStatus};
use crate::overlays::rename::{file_name, file_name_of};
use crate::panels::operations::{OpRow, Tone};
use crate::panels::preview::{size, size_text, Preview};
use crate::panels::stack::{Crumb, Kind, Mark, Row};
use crate::places::{components_of, path_eq, same_path};
use crate::text::{chars_of, decimal, push_decimal, push_str, string_of, string_views};

verus! {

/// `~` for the home directory, `name/` for anything else, the whole path
/// and a `/` when it ends in no name.
pub open spec fn level_name_of(dir: Seq<char>, home: Seq<char>) -> Seq<char> {
    if same_path(dir, home) {
        seq!['~']
    } else {
        match file_name_of(dir) {
            Some(n) => n.push('/'),
            None => dir.push('/'),
        }
    }
}

/// The level name of `dir`.
pub fn level_name(dir: &str, home: &str) -> (s: String)
    ensures
        s@ == level_name_of(dir@, home@),
{
    let d = chars_of(dir);
    let h = chars_of(home);
    if path_eq(d.as_slice(), h.as_slice()) {
        let mut out: Vec<char> = Vec::new();
        out.push('~');
        assert(out@ =~= seq!['~']);
        return string_of(out.as_slice());
    }
    let mut out = match file_name(d.as_slice()) {
        Some(n) => n,
        None => d,
    };
    out.push('/');
    string_of(out.as_slice())
}

/// A path's components joined by `/`, the root written as nothing so that
/// a joined absolute path starts with `/`.
pub open spec fn joined_components(c: Seq<Seq<char>>) -> Seq<char>
    decreases c.len(),
{
    if c.len() == 0 {
        Seq::empty()
    } else if c.len() == 1 {
        c[0]
    } else {
        joined_components(c.drop_last()).push('/') + c.last()
    }
}

/// `dir` with the home prefix written `~`: `~` for home itself, `~/rest`
/// beneath it, the path itself elsewhere.
pub open spec fn home_relative_of(dir: Seq<char>, home: Seq<char>) -> Seq<char> {
    let d = components_of(dir);
    let h = components_of(home);
    if same_path(dir, home) {
        seq!['~']
    } else if h.len() < d.len() && d.take(h.len() as int) == h {
        seq!['~', '/'] + joined_components(d.skip(h.len() as int))
    } else {
        dir
    }
}

fn join_components(c: &Vec<Vec<char>>, from: usize) -> (out: Vec<char>)
    requires
        from <= c@.len(),
    ensures
        out@ == joined_components(crate::text::row_views(c@).skip(from as int)),
{
    let ghost cs = crate::text::row_views(c@).skip(from as int);
    let mut out: Vec<char> = Vec::new();
    let mut i: usize = from;
    while i < c.len()
        invariant
            from <= i <= c@.len(),
            cs == crate::text::row_views(c@).skip(from as int),
            out@ == joined_components(cs.take(i - from)),
        decreases c@.len() - i,
    {
        let ghost before = out@;
        if i > from {
            out.push('/');
        }
        let part = &c[i];
        let mut k: usize = 0;
        let ghost mid = out@;
        while k < part.len()
            invariant
                k <= part@.len(),
                out@ == mid + part@.take(k as int),
            decreases part@.len() - k,
        {
            out.push(part[k]);
            assert(part@.take(k + 1) =~= part@.take(k as int).push(part@[k as int]));
            k = k + 1;
        }
        assert(part@.take(part@.len() as int) =~= part@);
        proof {
            let t = cs.take(i + 1 - from);
            assert(t.last() == part@);
            assert(t.drop_last() =~= cs.take(i - from));
            if i == from {
                assert(t.len() == 1);
                assert(out@ =~= t[0]);
            } else {
                assert(out@ =~= before.push('/') + part@);
            }
        }
        i = i + 1;
    }
    assert(cs.take(c@.len() - from) =~= cs);
    out
}

/// The active directory with the home prefix written `~`.
pub fn home_relative(dir: &str, home: &str) -> (s: String)
    ensures
        s@ == home_relative_of(dir@, home@),
{
    let d = chars_of(dir);
    let h = chars_of(home);
    if path_eq(d.as_slice(), h.as_slice()) {
        let out = vec!['~'];
        assert(out@ =~= seq!['~']);
        return string_of(out.as_slice());
    }
    let dc = crate::places::components_pub(d.as_slice());
    let hc = crate::places::components_pub(h.as_slice());
    let ghost dv = crate::text::row_views(dc@);
    let ghost hv = crate::text::row_views(hc@);
    if hc.len() < dc.len() {
        let mut same = true;
        let mut i: usize = 0;
        while i < hc.len()
            invariant
                dv == crate::text::row_views(dc@),
                hv == crate::text::row_views(hc@),
                hc@.len() < dc@.len(),
                i <= hc@.len(),
                same == forall|j: int| 0 <= j < i ==> dv[j] == hv[j],
            decreases hc@.len() - i,
        {
            assert(dv[i as int] == dc@[i as int]@ && hv[i as int] == hc@[i as int]@);
            if !crate::text::same_chars(dc[i].as_slice(), hc[i].as_slice()) {
                same = false;
            }
            i = i + 1;
        }
        proof {
            if same {
                assert(dv.take(hv.len() as int) =~= hv);
            } else {
                if dv.take(hv.len() as int) == hv {
                    assert forall|j: int| 0 <= j < hv.len() implies dv[j] == hv[j] by {
                        assert(dv.take(hv.len() as int)[j] == dv[j]);
                    }
                }
            }
        }
        if same {
            let rest = join_components(&dc, hc.len());
            let mut out = vec!['~', '/'];
            let mut k: usize = 0;
            while k < rest.len()
                invariant
                    k <= rest@.len(),
                    out@ == seq!['~', '/'] + rest@.take(k as int),
                decreases rest@.len() - k,
            {
                out.push(rest[k]);
                assert(rest@.take(k + 1) =~= rest@.take(k as int).push(rest@[k as int]));
                k = k + 1;
            }
            assert(rest@.take(rest@.len() as int) =~= rest@);
            return string_of(out.as_slice());
        }
    }
    string_of(d.as_slice())
}

/// An entry's name, or the whole path when it ends in none.
pub open spec fn display_name_of(path: Seq<char>) -> Seq<char> {
    match file_name_of(path) {
        Some(n) => n,
        None => path,
    }
}

/// An entry's name, or the whole path when it ends in none.
pub fn display_name(path: &str) -> (s: String)
    ensures
        s@ == display_name_of(path@),
{
    let p = chars_of(path);
    match file_name(p.as_slice()) {
        Some(n) => string_of(n.as_slice()),
        None => string_of(p.as_slice()),
    }
}

/// The verb of an operation while it runs, lower case.
pub open spec fn verb_lower(kind: OpKind) -> Seq<char> {
    match kind {
        OpKind::Copy => "copying"@,
        OpKind::Move => "moving"@,
        OpKind::Delete(_) => "deleting"@,
        OpKind::Rename => "renaming"@,
        OpKind::Compress(_) => "compressing"@,
        OpKind::Extract => "extracting"@,
    }
}

/// The verb of an operation while it runs, lower case.
pub fn running_verb_lower(kind: OpKind) -> (s: &'static str)
    ensures
        s@ == verb_lower(kind),
{
    match kind {
        OpKind::Copy => "copying",
        OpKind::Move => "moving",
        OpKind::Delete(_) => "deleting",
        OpKind::Rename => "renaming",
        OpKind::Compress(_) => "compressing",
        OpKind::Extract => "extracting",
    }
}

/// The verb of an operation while it runs, upper case.
pub open spec fn verb_upper(kind: OpKind) -> Seq<char> {
    match kind {
        OpKind::Copy => "COPYING"@,
        OpKind::Move => "MOVING"@,
        OpKind::Delete(_) => "DELETING"@,
        OpKind::Rename => "RENAMING"@,
        OpKind::Compress(_) => "COMPRESSING"@,
        OpKind::Extract => "EXTRACTING"@,
    }
}

/// The verb of an operation while it runs, upper case.
pub fn running_verb_upper(kind: OpKind) -> (s: &'static str)
    ensures
        s@ == verb_upper(kind),
{
    match kind {
        OpKind::Copy => "COPYING",
        OpKind::Move => "MOVING",
        OpKind::Delete(_) => "DELETING",
        OpKind::Rename => "RENAMING",
        OpKind::Compress(_) => "COMPRESSING",
        OpKind::Extract => "EXTRACTING",
    }
}

/// What a queued operation's row is made from: its kind and where it
/// stands, its own title, its sources and destination, how many names
/// collided, and while it runs its percentage and bar.
#[derive(Debug, Clone)]
pub struct OpInfo {
    pub kind: OpKind,
    pub status: OpStatus,
    /// The operation's own title: `COPY 14 items → ~/Archive`.
    pub title: String,
    pub sources: Vec<String>,
    pub dest: Option<String>,
    pub conflicts: usize,
    /// How far it has got, in whole percent.
    pub percent: u32,
    /// Its progress bar, ten cells wide.
    pub bar: String,
}

/// The status word of a queued operation and how it is coloured.
pub open spec fn status_of(op: OpInfo) -> (Seq<char>, Tone) {
    match op.status {
        OpStatus::Queued => ("queued"@, Tone::Pending),
        OpStatus::Planning => ("planning"@, Tone::Pending),
        OpStatus::NeedsPolicy => ("waiting: "@ + decimal(op.conflicts as nat) + seq![' ']
            + (if op.conflicts == 1 { "conflict"@ } else { "conflicts"@ }), Tone::Conflict),
        OpStatus::Running => (verb_lower(op.kind) + seq![' '] + decimal(op.percent as nat) + seq!['%'], Tone::Running),
        OpStatus::Done => ("done"@, Tone::Done),
        OpStatus::Failed => ("failed"@, Tone::Failed),
        OpStatus::Cancelled => ("cancelled"@, Tone::Failed),
    }
}

/// The part of a title before its first ` → `.
pub open spec fn verb_part(title: Seq<char>) -> Seq<char> {
    match arrow_at(title) {
        Some(i) => title.take(i),
        None => title,
    }
}

/// Whether ` → ` stands at `i` in `t`.
pub open spec fn arrow_here(t: Seq<char>, i: int) -> bool {
    0 <= i && i + 3 <= t.len() && t.subrange(i, i + 3) == seq![' ', '\u{2192}', ' ']
}

/// Whether `i` is where ` → ` first stands in `t`.
pub open spec fn first_arrow(t: Seq<char>, i: int) -> bool {
    arrow_here(t, i) && forall|j: int| 0 <= j < i ==> !#[trigger] arrow_here(t, j)
}

/// Where ` → ` first occurs in a title.
pub open spec fn arrow_at(t: Seq<char>) -> Option<int> {
    if exists|i: int| #[trigger] first_arrow(t, i) {
        Some(choose|i: int| #[trigger] first_arrow(t, i))
    } else {
        None
    }
}

/// The title a queued operation's row shows: with a destination, the verb
/// of its own title, its first source relative to home, `+n` for the rest,
/// and the destination relative to home; without one, its own title.
pub open spec fn op_title_of(op: OpInfo, home: Seq<char>) -> Seq<char> {
    match op.dest {
        Some(dest) => {
            let source = if op.sources@.len() > 0 { home_relative_of(op.sources@[0]@, home) } else { Seq::empty() };
            let more = if op.sources@.len() > 1 { seq![' ', '+'] + decimal((op.sources@.len() - 1) as nat) } else { Seq::empty() };
            verb_part(op.title@) + seq![':', ' '] + source + more + seq![' ', '\u{2192}', ' '] + home_relative_of(dest@, home)
        },
        None => op.title@,
    }
}

fn verb_of(title: &[char]) -> (out: Vec<char>)
    ensures
        out@ == verb_part(title@),
{
    let n = title.len();
    let mut i: usize = 0;
    while n >= 3 && i <= n - 3
        invariant
            n == title@.len(),
            forall|j: int| 0 <= j < i ==> !#[trigger] arrow_here(title@, j),
        decreases n - i,
    {
        if title[i] == ' ' && title[i + 1] == '\u{2192}' && title[i + 2] == ' ' {
            proof {
                assert(title@.subrange(i as int, i + 3) =~= seq![' ', '\u{2192}', ' ']);
                assert(first_arrow(title@, i as int));
                let k = choose|k: int| #[trigger] first_arrow(title@, k);
                if k < i {
                    assert(!arrow_here(title@, k));
                }
                if k > i {
                    assert(!arrow_here(title@, i as int));
                }
            }
            return crate::text::copy_range(title, 0, i);
        }
        proof {
            if arrow_here(title@, i as int) {
                assert(title@.subrange(i as int, i + 3)[0] == title@[i as int]);
                assert(title@.subrange(i as int, i + 3)[1] == title@[i + 1]);
                assert(title@.subrange(i as int, i + 3)[2] == title@[i + 2]);
            }
        }
        i = i + 1;
    }
    proof {
        assert forall|k: int| !#[trigger] first_arrow(title@, k) by {
            if first_arrow(title@, k) {
                assert(arrow_here(title@, k));
            }
        }
    }
    assert(title@.subrange(0, n as int) =~= title@);
    crate::text::copy_range(title, 0, n)
}

fn push_all(out: &mut Vec<char>, s: &[char])
    ensures
        final(out)@ == old(out)@ + s@,
{
    let mut k: usize = 0;
    let ghost start = out@;
    while k < s.len()
        invariant
            k <= s@.len(),
            out@ == start + s@.take(k as int),
        decreases s@.len() - k,
    {
        out.push(s[k]);
        assert(s@.take(k + 1) =~= s@.take(k as int).push(s@[k as int]));
        k = k + 1;
    }
    assert(s@.take(s@.len() as int) =~= s@);
}

/// The title a queued operation's row shows.
pub fn op_title(op: &OpInfo, home: &str) -> (s: String)
    ensures
        s@ == op_title_of(*op, home@),
{
    match &op.dest {
        Some(dest) => {
            let t = chars_of(op.title.as_str());
            let mut out = verb_of(t.as_slice());
            out.push(':');
            out.push(' ');
            if op.sources.len() > 0 {
                let src = home_relative(op.sources[0].as_str(), home);
                let sc = chars_of(src.as_str());
                push_all(&mut out, sc.as_slice());
            }
            if op.sources.len() > 1 {
                out.push(' ');
                out.push('+');
                push_decimal(&mut out, (op.sources.len() - 1) as u64);
            }
            out.push(' ');
            out.push('\u{2192}');
            out.push(' ');
            let d = home_relative(dest.as_str(), home);
            let dc = chars_of(d.as_str());
            push_all(&mut out, dc.as_slice());
            proof {
                let source = if op.sources@.len() > 0 { home_relative_of(op.sources@[0]@, home@) } else { Seq::empty() };
                let more = if op.sources@.len() > 1 { seq![' ', '+'] + decimal((op.sources@.len() - 1) as nat) } else { Seq::empty() };
                assert(out@ =~= verb_part(op.title@) + seq![':', ' '] + source + more + seq![' ', '\u{2192}', ' '] + home_relative_of(dest@, home@));
            }
            string_of(out.as_slice())
        },
        None => op.title.clone(),
    }
}

/// Whether `r` is the row the operation `op` shows.
pub open spec fn op_row_built(r: OpRow, op: OpInfo, home: Seq<char>) -> bool {
    &&& r.title@ == op_title_of(op, home)
    &&& r.status@ == status_of(op).0
    &&& r.tone == status_of(op).1
    &&& match r.bar {
        Some(b) => op.status == OpStatus::Running && b@ == op.bar@,
        None => op.status != OpStatus::Running,
    }
}

/// The row a queued operation shows in the operations module.
pub fn build_op_row(op: &OpInfo, home: &str) -> (r: OpRow)
    ensures
        op_row_built(r, *op, home@),
{
    let mut status: Vec<char> = Vec::new();
    let tone = match op.status {
        OpStatus::Queued => {
            push_str(&mut status, "queued");
            Tone::Pending
        },
        OpStatus::Planning => {
            push_str(&mut status, "planning");
            Tone::Pending
        },
        OpStatus::NeedsPolicy => {
            push_str(&mut status, "waiting: ");
            push_decimal(&mut status, op.conflicts as u64);
            status.push(' ');
            if op.conflicts == 1 {
                push_str(&mut status, "conflict");
            } else {
                push_str(&mut status, "conflicts");
            }
            Tone::Conflict
        },
        OpStatus::Running => {
            push_str(&mut status, running_verb_lower(op.kind));
            status.push(' ');
            push_decimal(&mut status, op.percent as u64);
            status.push('%');
            Tone::Running
        },
        OpStatus::Done => {
            push_str(&mut status, "done");
            Tone::Done
        },
        OpStatus::Failed => {
            push_str(&mut status, "failed");
            Tone::Failed
        },
        OpStatus::Cancelled => {
            push_str(&mut status, "cancelled");
            Tone::Failed
        },
    };
    assert(status@ =~= status_of(*op).0);
    let bar = match op.status {
        OpStatus::Running => Some(op.bar.clone()),
        _ => None,
    };
    OpRow { title: op_title(op, home), status: string_of(status.as_slice()), bar, tone }
}

/// What an entry of the listing is made from.
#[derive(Debug, Clone)]
pub struct Listed {
    pub path: String,
    /// The name as shown.
    pub display: String,
    pub kind: EntryKind,
    pub link_kind: Option<EntryKind>,
    pub executable: bool,
    pub hidden: bool,
    pub len: u64,
    /// The extension as the listing shows it.
    pub ext: String,
}

/// Whether an entry opens like a directory: a directory, or a link to one.
pub open spec fn dir_like(e: Listed) -> bool {
    e.kind == EntryKind::Dir || (e.kind == EntryKind::Symlink && e.link_kind == Some(EntryKind::Dir))
}

/// How an entry is coloured: a link, broken or not; a directory; an
/// executable; a hidden file; any other file.
pub open spec fn kind_of(e: Listed) -> Kind {
    if e.kind == EntryKind::Symlink {
        Kind::Symlink { broken: e.link_kind is None }
    } else if e.kind == EntryKind::Dir {
        Kind::Dir
    } else if e.executable {
        Kind::Exec
    } else if e.hidden {
        Kind::Hidden
    } else {
        Kind::File
    }
}

/// The row an entry shows: its name with a `/` when it opens like a
/// directory, `dir` or `link` or its extension, `-` or its size, its time
/// or `-`, and a mark when anything is marked.
/// Whether `r` is the row the entry `e` shows.
pub open spec fn row_built(r: Row, e: Listed, any_marked: bool, marked: bool, time: Option<String>) -> bool {
    &&& r.kind == kind_of(e)
    &&& r.name@ == (if dir_like(e) { e.display@.push('/') } else { e.display@ })
    &&& r.ext@ == (match kind_of(e) {
        Kind::Dir => "dir"@,
        Kind::Symlink { .. } => "link"@,
        _ => e.ext@,
    })
    &&& r.size@ == (if dir_like(e) { seq!['-'] } else { size_text(e.len as nat) })
    &&& r.time@ == (match time {
        Some(t) => t@,
        None => seq!['-'],
    })
    &&& r.mark == (if !any_marked { Mark::NotShown } else if marked { Mark::Marked } else { Mark::Unmarked })
}

pub fn build_row(e: &Listed, any_marked: bool, marked: bool, time: Option<String>) -> (r: Row)
    ensures
        row_built(r, *e, any_marked, marked, time),
{
    let kind = match e.kind {
        EntryKind::Symlink => Kind::Symlink { broken: e.link_kind.is_none() },
        EntryKind::Dir => Kind::Dir,
        _ => if e.executable { Kind::Exec } else if e.hidden { Kind::Hidden } else { Kind::File },
    };
    let is_dir_like = match e.kind {
        EntryKind::Dir => true,
        EntryKind::Symlink => match e.link_kind {
            Some(EntryKind::Dir) => true,
            _ => false,
        },
        _ => false,
    };
    let name = if is_dir_like {
        let mut n = chars_of(e.display.as_str());
        n.push('/');
        string_of(n.as_slice())
    } else {
        e.display.clone()
    };
    let ext = match kind {
        Kind::Dir => String::from_str("dir"),
        Kind::Symlink { .. } => String::from_str("link"),
        _ => e.ext.clone(),
    };
    let sz = if is_dir_like {
        let v = vec!['-'];
        assert(v@ =~= seq!['-']);
        string_of(v.as_slice())
    } else {
        size(e.len)
    };
    let t = match time {
        Some(t) => t,
        None => {
            let v = vec!['-'];
            assert(v@ =~= seq!['-']);
            string_of(v.as_slice())
        },
    };
    let mark = if !any_marked { Mark::NotShown } else if marked { Mark::Marked } else { Mark::Unmarked };
    Row { mark, name, kind, ext, size: sz, time: t }
}

/// The paths an audio player can be handed: the regular files of the
/// listing and the links to them.
pub open spec fn audio_paths(entries: Seq<Listed>) -> Seq<Seq<char>>
    decreases entries.len(),
{
    if entries.len() == 0 {
        Seq::empty()
    } else {
        let rest = audio_paths(entries.drop_last());
        let e = entries.last();
        if e.kind == EntryKind::File || e.link_kind == Some(EntryKind::File) { rest.push(e.path@) } else { rest }
    }
}

/// The paths an audio player can be handed.
pub fn audio_candidates(entries: &Vec<Listed>) -> (r: Vec<String>)
    ensures
        string_views(r@) == audio_paths(entries@),
{
    let mut r: Vec<String> = Vec::new();
    let mut i: usize = 0;
    while i < entries.len()
        invariant
            i <= entries@.len(),
            string_views(r@) == audio_paths(entries@.take(i as int)),
        decreases entries@.len() - i,
    {
        let e = &entries[i];
        assert(entries@.take(i + 1).drop_last() =~= entries@.take(i as int));
        let file = match e.kind {
            EntryKind::File => true,
            _ => match e.link_kind {
                Some(EntryKind::File) => true,
                _ => false,
            },
        };
        if file {
            let ghost before = string_views(r@);
            r.push(e.path.clone());
            assert(string_views(r@) =~= before.push(e.path@));
        }
        i = i + 1;
    }
    assert(entries@.take(entries@.len() as int) =~= entries@);
    r
}

/// Everything one frame draws, copied out of the core's state.
#[derive(Debug)]
pub struct ViewData {
    /// Parents only, root first.
    pub crumbs: Vec<Crumb>,
    pub rule: String,
    pub rows: Vec<Row>,
    pub cursor: usize,
    /// The path the cursor sits on.
    pub cursor_path: Option<String>,
    pub loading: bool,
    pub error: Option<String>,
    pub truncated: bool,
    /// The open level's filter, empty when there is none.
    pub filter: String,
    pub marked: String,
    /// Files, directories and bytes of the open level.
    pub dir_stats: Option<(usize, usize, u64)>,
    pub active_dir: String,
    pub home: String,
    /// The open directory with the home prefix written `~`.
    pub location: String,
    pub preview_name: Option<String>,
    pub preview: Option<Preview>,
    pub ops: Vec<OpRow>,
    /// The queue's ids, in the order of `ops`.
    pub op_ids: Vec<crate::ops::OpId>,
    /// The running operation's bar, for the status row.
    pub running_bar: Option<String>,
    pub has_forward: bool,
    pub trash_available: bool,
    pub show_hidden: bool,
}

impl ViewData {
    /// Nothing read yet: empty, and loading.
    pub fn empty() -> (v: ViewData)
        ensures
            v.crumbs@.len() == 0,
            v.rule@.len() == 0,
            v.rows@.len() == 0,
            v.cursor == 0,
            v.cursor_path is None,
            v.loading,
            v.error is None,
            !v.truncated,
            v.filter@.len() == 0,
            v.marked@.len() == 0,
            v.dir_stats is None,
            v.active_dir@.len() == 0,
            v.home@.len() == 0,
            v.location@.len() == 0,
            v.preview_name is None,
            v.preview is None,
            v.ops@.len() == 0,
            v.op_ids@.len() == 0,
            v.running_bar is None,
            !v.has_forward,
            !v.trash_available,
            !v.show_hidden,
    {
        ViewData {
            crumbs: Vec::new(),
            rule: String::new(),
            rows: Vec::new(),
            cursor: 0,
            cursor_path: None,
            loading: true,
            error: None,
            truncated: false,
            filter: String::new(),
            marked: String::new(),
            dir_stats: None,
            active_dir: String::new(),
            home: String::new(),
            location: String::new(),
            preview_name: None,
            preview: None,
            ops: Vec::new(),
            op_ids: Vec::new(),
            running_bar: None,
            has_forward: false,
            trash_available: false,
            show_hidden: false,
        }
    }
}

} // verus!
