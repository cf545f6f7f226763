//! The preview module's text: the lines drawn for a text file, a binary
//! dump, a directory summary, a link or an error, each cut to the width.
use vstd::prelude::*;
use crate::geometry::Rect;
use crate::panels::{fit, fitted};
use crate::text::{chars_of, decimal, digit_char, last_index, push_decimal, push_str, rfind_char, split_on, split_parts, string_of, string_views};

verus! {

/// What a directory holds, counted.
#[derive(Debug, Clone, Copy, PartialEq, Eq, Structural)]
pub struct DirSummary {
    pub files: usize,
    pub dirs: usize,
    pub bytes: u64,
    /// The count gave up before the end.
    pub truncated: bool,
}

/// What the preview shows for the entry under the cursor.
#[derive(Debug, Clone)]
pub enum Preview {
    Empty,
    /// The start of a text file, whether the read stopped short of its end,
    /// the file's size and its line count.
    Text { head: String, truncated: bool, bytes: u64, lines: usize },
    /// A hex dump, already laid out in rows, and the file's type.
    Binary { rows: Vec<String>, truncated: bool, mime: String },
    Dir(DirSummary),
    Symlink { target: String, broken: bool },
    Error(String),
    /// A picture, drawn by the terminal rather than as text: its size in
    /// pixels and its format.
    Image { width: u32, height: u32, format: &'static str },
}

/// `s` without one `\r` at its end.
pub open spec fn strip_cr(s: Seq<char>) -> Seq<char> {
    if s.len() > 0 && s.last() == '\r' { s.drop_last() } else { s }
}

/// The lines of `text` as `str::lines` gives them: split at each `\n`, a
/// `\r` before it dropped, no empty line after a final `\n`.
pub open spec fn str_lines(text: Seq<char>) -> Seq<Seq<char>> {
    let parts = split_on(text, '\n');
    let ended = parts.drop_last().map_values(|p: Seq<char>| strip_cr(p));
    if parts.last().len() == 0 { ended } else { ended.push(parts.last()) }
}

/// `s` with each tab written as four spaces.
pub open spec fn detab(s: Seq<char>) -> Seq<char>
    decreases s.len(),
{
    if s.len() == 0 {
        s
    } else {
        detab(s.drop_last()) + if s.last() == '\t' { seq![' ', ' ', ' ', ' '] } else { seq![s.last()] }
    }
}

/// A size in bytes as people read it: whole bytes under a thousand, else
/// tenths of the largest of KB, MB, GB and TB that it reaches, counted in
/// thousands.
pub open spec fn size_text(bytes: nat) -> Seq<char> {
    let k: nat = 1000;
    if bytes < k {
        decimal(bytes) + " B"@
    } else {
        let (unit, name) = if bytes < k * k {
            (k, "KB"@)
        } else if bytes < k * k * k {
            (k * k, "MB"@)
        } else if bytes < k * k * k * k {
            (k * k * k, "GB"@)
        } else {
            (k * k * k * k, "TB"@)
        };
        let tenths = bytes * 10 / unit;
        decimal(tenths / 10) + seq!['.', digit_char((tenths % 10) as int), ' '] + name
    }
}

/// `n` and the noun that agrees with it.
pub open spec fn plural(n: nat, one: Seq<char>, many: Seq<char>) -> Seq<char> {
    decimal(n) + seq![' '] + if n == 1 { one } else { many }
}

/// The lines of a directory summary: files, directories, size, and
/// `(at least)` when the count gave up early.
pub open spec fn dir_lines_of(s: DirSummary) -> Seq<Seq<char>> {
    let base = seq![
        plural(s.files as nat, "file"@, "files"@),
        plural(s.dirs as nat, "directory"@, "directories"@),
        size_text(s.bytes as nat),
    ];
    if s.truncated { base.push("(at least)"@) } else { base }
}

/// Each line cut to `width`.
pub open spec fn fit_all(lines: Seq<Seq<char>>, width: int) -> Seq<Seq<char>> {
    lines.map_values(|l: Seq<char>| fitted(l, width))
}

/// The text lines drawn for `p` in a body `width` cells wide.
pub open spec fn lines_of(p: Preview, width: int) -> Seq<Seq<char>> {
    match p {
        Preview::Text { head, .. } => str_lines(head@).map_values(|l: Seq<char>| fitted(detab(l), width)),
        Preview::Binary { rows, .. } => fit_all(string_views(rows@), width),
        Preview::Dir(s) => fit_all(dir_lines_of(s), width),
        Preview::Symlink { target, broken } => seq![fitted(
            seq!['\u{2192}', ' '] + target@ + (if broken { " (broken)"@ } else { Seq::empty() }),
            width,
        )],
        Preview::Error(e) => seq![fitted(e@, width)],
        Preview::Empty => Seq::empty(),
        Preview::Image { .. } => Seq::empty(),
    }
}

/// Every row the preview draws that shows anything measures no wider than
/// the body.
pub proof fn law_preview_rows_fit_the_body(p: Preview, width: int, k: int)
    requires
        width >= 0,
        0 <= k < lines_of(p, width).len(),
        lines_of(p, width)[k].len() > 0,
    ensures
        crate::width::text_columns(lines_of(p, width)[k]) <= width,
{
    match p {
        Preview::Text { head, .. } => {
            crate::panels::law_a_cut_text_fits_its_width(detab(str_lines(head@)[k]), width);
        },
        Preview::Binary { rows, .. } => {
            crate::panels::law_a_cut_text_fits_its_width(string_views(rows@)[k], width);
        },
        Preview::Dir(s) => {
            crate::panels::law_a_cut_text_fits_its_width(dir_lines_of(s)[k], width);
        },
        Preview::Symlink { target, broken } => {
            crate::panels::law_a_cut_text_fits_its_width(
                seq!['\u{2192}', ' '] + target@ + (if broken { " (broken)"@ } else { Seq::empty() }), width);
        },
        Preview::Error(e) => {
            crate::panels::law_a_cut_text_fits_its_width(e@, width);
        },
        _ => {},
    }
}

fn push_fitted(out: &mut Vec<String>, line: &[char], width: u16)
    ensures
        string_views(final(out)@) == string_views(old(out)@).push(fitted(line@, width as int)),
{
    let f = fit(line, width);
    let s = string_of(f.as_slice());
    let ghost before = out@;
    out.push(s);
    assert(string_views(out@) =~= string_views(before).push(fitted(line@, width as int)));
}

fn push_plural(out: &mut Vec<char>, n: usize, one: &str, many: &str)
    ensures
        final(out)@ == old(out)@ + plural(n as nat, one@, many@),
{
    push_decimal(out, n as u64);
    out.push(' ');
    if n == 1 {
        push_str(out, one);
    } else {
        push_str(out, many);
    }
    assert(final(out)@ =~= old(out)@ + plural(n as nat, one@, many@));
}

/// A size in bytes as people read it.
pub fn size(bytes: u64) -> (s: String)
    ensures
        s@ == size_text(bytes as nat),
{
    let mut out: Vec<char> = Vec::new();
    if bytes < 1000 {
        push_decimal(&mut out, bytes);
        push_str(&mut out, " B");
        return string_of(out.as_slice());
    }
    let b = bytes as u128;
    let (unit, name): (u128, &str) = if b < 1000 * 1000 {
        (1000, "KB")
    } else if b < 1000 * 1000 * 1000 {
        (1000 * 1000, "MB")
    } else if b < 1000 * 1000 * 1000 * 1000 {
        (1000 * 1000 * 1000, "GB")
    } else {
        (1000 * 1000 * 1000 * 1000, "TB")
    };
    let tenths = b * 10 / unit;
    assert(tenths <= b * 10);
    push_decimal(&mut out, (tenths / 10) as u64);
    out.push('.');
    out.push((((tenths % 10) as u8) + 48) as char);
    out.push(' ');
    push_str(&mut out, name);
    assert(out@ =~= size_text(bytes as nat));
    string_of(out.as_slice())
}

fn detabbed(s: &[char]) -> (out: Vec<char>)
    ensures
        out@ == detab(s@),
{
    let mut out: Vec<char> = Vec::new();
    let mut i: usize = 0;
    while i < s.len()
        invariant
            i <= s@.len(),
            out@ == detab(s@.take(i as int)),
        decreases s@.len() - i,
    {
        assert(s@.take(i + 1).drop_last() =~= s@.take(i as int));
        if s[i] == '\t' {
            out.push(' ');
            out.push(' ');
            out.push(' ');
            out.push(' ');
        } else {
            out.push(s[i]);
        }
        assert(out@ =~= detab(s@.take(i + 1)));
        i = i + 1;
    }
    assert(s@.take(s@.len() as int) =~= s@);
    out
}

/// The lines of a directory summary.
pub fn dir_lines(s: &DirSummary) -> (r: Vec<String>)
    ensures
        string_views(r@) == dir_lines_of(*s),
{
    let mut a: Vec<char> = Vec::new();
    push_plural(&mut a, s.files, "file", "files");
    let mut b: Vec<char> = Vec::new();
    push_plural(&mut b, s.dirs, "directory", "directories");
    let mut r: Vec<String> = Vec::new();
    r.push(string_of(a.as_slice()));
    r.push(string_of(b.as_slice()));
    r.push(size(s.bytes));
    if s.truncated {
        r.push(String::from_str("(at least)"));
    }
    proof {
        reveal_strlit("(at least)");
    }
    assert(string_views(r@) =~= dir_lines_of(*s));
    r
}

/// The text lines drawn for `p` in a body `width` cells wide: what is drawn
/// and what the scroll is clamped against.
pub fn lines(p: &Preview, width: u16) -> (r: Vec<String>)
    ensures
        string_views(r@) == lines_of(*p, width as int),
{
    let mut out: Vec<String> = Vec::new();
    match p {
        Preview::Text { head, .. } => {
            let chars = chars_of(head.as_str());
            let parts = split_parts(&chars, '\n');
            proof {
                crate::text::lemma_split_on_nonempty(chars@, '\n');
            }
            let ghost ps = split_on(head@, '\n');
            let ghost want = str_lines(head@);
            let n = parts.len();
            let mut i: usize = 0;
            while i + 1 < n
                invariant
                    chars@ == head@,
                    ps == split_on(head@, '\n'),
                    n == parts@.len(),
                    n == ps.len(),
                    n >= 1,
                    forall|q: int| 0 <= q < n ==> (#[trigger] parts@[q])@ == ps[q],
                    i + 1 <= n,
                    string_views(out@) == ps.take(i as int).map_values(|l: Seq<char>| fitted(detab(strip_cr(l)), width as int)),
                decreases n - i,
            {
                let part = &parts[i];
                let m = part.len();
                let cut = if m > 0 && part[m - 1] == '\r' { m - 1 } else { m };
                let body = crate::text::copy_range(part.as_slice(), 0, cut);
                assert(body@ == strip_cr(ps[i as int])) by {
                    if m > 0 && part@[m - 1] == '\r' {
                        assert(body@ =~= ps[i as int].drop_last());
                    } else {
                        assert(body@ =~= ps[i as int]);
                    }
                }
                let d = detabbed(body.as_slice());
                let ghost before = string_views(out@);
                push_fitted(&mut out, d.as_slice(), width);
                assert(ps.take(i + 1).map_values(|l: Seq<char>| fitted(detab(strip_cr(l)), width as int))
                    =~= before.push(fitted(detab(strip_cr(ps[i as int])), width as int)));
                i = i + 1;
            }
            let last = &parts[n - 1];
            proof {
                assert(ps.drop_last() =~= ps.take(n - 1));
                assert(ps.last() == ps[n - 1]);
            }
            if last.len() > 0 {
                let d = detabbed(last.as_slice());
                let ghost before = string_views(out@);
                push_fitted(&mut out, d.as_slice(), width);
            }
            proof {
                let ended = ps.drop_last().map_values(|l: Seq<char>| strip_cr(l));
                assert(ended.map_values(|l: Seq<char>| fitted(detab(l), width as int))
                    =~= ps.take(n - 1).map_values(|l: Seq<char>| fitted(detab(strip_cr(l)), width as int)));
                if ps.last().len() == 0 {
                    assert(want == ended);
                } else {
                    assert(want == ended.push(ps.last()));
                    assert(want.map_values(|l: Seq<char>| fitted(detab(l), width as int))
                        =~= ended.map_values(|l: Seq<char>| fitted(detab(l), width as int)).push(fitted(detab(ps.last()), width as int)));
                }
            }
        },
        Preview::Binary { rows, .. } => {
            let mut i: usize = 0;
            while i < rows.len()
                invariant
                    i <= rows@.len(),
                    string_views(out@) == fit_all(string_views(rows@).take(i as int), width as int),
                decreases rows@.len() - i,
            {
                let c = chars_of(rows[i].as_str());
                let ghost before = string_views(out@);
                push_fitted(&mut out, c.as_slice(), width);
                assert(fit_all(string_views(rows@).take(i + 1), width as int)
                    =~= before.push(fitted(rows@[i as int]@, width as int)));
                i = i + 1;
            }
            assert(string_views(rows@).take(rows@.len() as int) =~= string_views(rows@));
        },
        Preview::Dir(s) => {
            let mut a: Vec<char> = Vec::new();
            push_plural(&mut a, s.files, "file", "files");
            let mut b: Vec<char> = Vec::new();
            push_plural(&mut b, s.dirs, "directory", "directories");
            let c = chars_of(size(s.bytes).as_str());
            push_fitted(&mut out, a.as_slice(), width);
            push_fitted(&mut out, b.as_slice(), width);
            push_fitted(&mut out, c.as_slice(), width);
            if s.truncated {
                let t = chars_of("(at least)");
                push_fitted(&mut out, t.as_slice(), width);
            }
            assert(string_views(out@) =~= fit_all(dir_lines_of(*s), width as int));
        },
        Preview::Symlink { target, broken } => {
            let mut l: Vec<char> = vec!['\u{2192}', ' '];
            push_str(&mut l, target.as_str());
            if *broken {
                push_str(&mut l, " (broken)");
            }
            assert(l@ =~= seq!['\u{2192}', ' '] + target@ + (if *broken { " (broken)"@ } else { Seq::empty() }));
            push_fitted(&mut out, l.as_slice(), width);
            assert(string_views(out@) =~= lines_of(*p, width as int));
        },
        Preview::Error(e) => {
            let c = chars_of(e.as_str());
            push_fitted(&mut out, c.as_slice(), width);
            assert(string_views(out@) =~= lines_of(*p, width as int));
        },
        Preview::Empty => {
            assert(string_views(out@) =~= lines_of(*p, width as int));
        },
        Preview::Image { .. } => {
            assert(string_views(out@) =~= lines_of(*p, width as int));
        },
    }
    out
}


/// The extension a summary shows, from the name alone: what follows its
/// last `.`, when that is not empty.
pub open spec fn name_ext(name: Seq<char>) -> Option<Seq<char>> {
    match last_index(name, '.') {
        Some(i) => if i + 1 < name.len() { Some(name.skip(i + 1)) } else { None },
        None => None,
    }
}

/// The separator between the parts of a summary.
pub open spec fn sep() -> Seq<char> {
    seq![' ', '\u{b7}', ' ']
}

/// The one line a folded preview shows for `p`, the entry called `name`
/// (`-` when there is none): the name, extension, size and line count of a
/// text file; the name, format and pixel size of a picture; the name and
/// counts of a directory; the name and type of a binary file; the target of
/// a link; an error's message.
pub open spec fn summary_text(name: Seq<char>, p: Preview) -> Seq<char> {
    match p {
        Preview::Empty => "empty file"@,
        Preview::Text { bytes, lines, .. } => name + sep() + (match name_ext(name) {
            Some(e) => e,
            None => seq!['-'],
        }) + sep() + size_text(bytes as nat) + sep() + decimal(lines as nat) + " lines"@,
        Preview::Image { width, height, format } => name + sep() + format@ + sep() + decimal(width as nat)
            + seq![' ', '\u{d7}', ' '] + decimal(height as nat),
        Preview::Dir(s) => name + sep() + decimal(s.files as nat) + " files"@ + sep() + decimal(s.dirs as nat)
            + " dirs"@ + sep() + size_text(s.bytes as nat),
        Preview::Binary { mime, truncated, .. } => name + sep() + mime@ + (if truncated {
            sep() + "truncated"@
        } else {
            Seq::empty()
        }),
        Preview::Symlink { target, broken } => seq!['\u{2192}', ' '] + target@ + (if broken {
            " (broken)"@
        } else {
            Seq::empty()
        }),
        Preview::Error(e) => e@,
    }
}

/// The extension of `name`, as a summary shows it.
fn push_ext(out: &mut Vec<char>, name: &[char])
    ensures
        final(out)@ == old(out)@ + match name_ext(name@) {
            Some(e) => e,
            None => seq!['-'],
        },
{
    match rfind_char(name, '.') {
        Some(i) => if i < name.len() - 1 {
            let e = crate::text::copy_range(name, i + 1, name.len());
            assert(e@ =~= name@.skip(i + 1));
            let ghost before = out@;
            let mut k: usize = 0;
            while k < e.len()
                invariant
                    k <= e@.len(),
                    out@ == before + e@.take(k as int),
                decreases e@.len() - k,
            {
                out.push(e[k]);
                assert(e@.take(k + 1) =~= e@.take(k as int).push(e@[k as int]));
                k = k + 1;
            }
            assert(e@.take(e@.len() as int) =~= e@);
        } else {
            out.push('-');
        },
        None => out.push('-'),
    }
}

/// The extension a summary shows, from the name alone.
pub fn ext_of(name: &[char]) -> (r: Option<Vec<char>>)
    ensures
        match r {
            Some(e) => name_ext(name@) == Some(e@),
            None => name_ext(name@) is None,
        },
{
    match rfind_char(name, '.') {
        Some(i) => if i < name.len() - 1 {
            let e = crate::text::copy_range(name, i + 1, name.len());
            assert(e@ =~= name@.skip(i + 1));
            Some(e)
        } else {
            None
        },
        None => None,
    }
}

/// The line a folded preview shows; nothing while there is no preview.
pub fn folded_summary(name: Option<&str>, preview: Option<&Preview>) -> (r: Option<String>)
    ensures
        match preview {
            None => r is None,
            Some(p) => r matches Some(s) && s@ == summary_text(match name {
                Some(n) => n@,
                None => seq!['-'],
            }, *p),
        },
{
    let p = match preview {
        Some(p) => p,
        None => return None,
    };
    let n: Vec<char> = match name {
        Some(n) => chars_of(n),
        None => vec!['-'],
    };
    let ghost nv = n@;
    let mut out: Vec<char> = Vec::new();
    match p {
        Preview::Empty => push_str(&mut out, "empty file"),
        Preview::Text { bytes, lines, .. } => {
            out = n.clone();
            push_str(&mut out, " \u{b7} ");
            push_ext(&mut out, n.as_slice());
            push_str(&mut out, " \u{b7} ");
            push_str(&mut out, size(*bytes).as_str());
            push_str(&mut out, " \u{b7} ");
            push_decimal(&mut out, *lines as u64);
            push_str(&mut out, " lines");
        },
        Preview::Image { width, height, format } => {
            out = n.clone();
            push_str(&mut out, " \u{b7} ");
            push_str(&mut out, format);
            push_str(&mut out, " \u{b7} ");
            push_decimal(&mut out, *width as u64);
            push_str(&mut out, " \u{d7} ");
            push_decimal(&mut out, *height as u64);
        },
        Preview::Dir(s) => {
            out = n.clone();
            push_str(&mut out, " \u{b7} ");
            push_decimal(&mut out, s.files as u64);
            push_str(&mut out, " files");
            push_str(&mut out, " \u{b7} ");
            push_decimal(&mut out, s.dirs as u64);
            push_str(&mut out, " dirs");
            push_str(&mut out, " \u{b7} ");
            push_str(&mut out, size(s.bytes).as_str());
        },
        Preview::Binary { mime, truncated, .. } => {
            out = n.clone();
            push_str(&mut out, " \u{b7} ");
            push_str(&mut out, mime.as_str());
            if *truncated {
                push_str(&mut out, " \u{b7} ");
                push_str(&mut out, "truncated");
            }
        },
        Preview::Symlink { target, broken } => {
            out.push('\u{2192}');
            out.push(' ');
            push_str(&mut out, target.as_str());
            if *broken {
                push_str(&mut out, " (broken)");
            }
        },
        Preview::Error(e) => push_str(&mut out, e.as_str()),
    }
    proof {
        reveal_strlit(" \u{b7} ");
        reveal_strlit(" \u{d7} ");
        let want = summary_text(nv, *p);
        match *p {
            Preview::Binary { truncated, .. } => {
                if truncated {
                    assert(out@ =~= want);
                } else {
                    assert(out@ =~= want);
                }
            },
            Preview::Symlink { broken, .. } => {
                if broken {
                    assert(out@ =~= want);
                } else {
                    assert(out@ =~= want);
                }
            },
            _ => assert(out@ =~= want),
        }
    }
    Some(string_of(out.as_slice()))
}

/// How a picture smaller than the panel is grown: not at all, by the
/// largest whole factor that fits, or smoothly to fill its rectangle.
#[derive(Debug, Clone, Copy, PartialEq, Eq, Structural)]
pub enum Scale {
    One,
    Pixels,
    Smooth,
}

/// The name a scale mode is written with.
pub open spec fn scale_name(m: Scale) -> Seq<char> {
    match m {
        Scale::One => "1x"@,
        Scale::Pixels => "pixels"@,
        Scale::Smooth => "smooth"@,
    }
}

impl Scale {
    /// The name the mode is written with.
    pub fn name(self) -> (s: &'static str)
        ensures
            s@ == scale_name(self),
    {
        match self {
            Scale::One => "1x",
            Scale::Pixels => "pixels",
            Scale::Smooth => "smooth",
        }
    }
}

/// `a` over `b`, rounded up.
pub open spec fn ceil_div(a: int, b: int) -> int {
    a / b + if a % b == 0 { 0int } else { 1int }
}

/// The cells a picture `img` pixels big covers grown `k` times, with cells
/// `cell` pixels big, when that fits in a panel `panel` cells big: the last
/// part-covered cell counts whole, so nothing is cropped.
pub open spec fn cells_of(img: (u32, u32), k: int, cell: (u16, u16), panel: (u16, u16)) -> Option<(u16, u16)> {
    let pw = img.0 * k;
    let ph = img.1 * k;
    if pw > u32::MAX || ph > u32::MAX {
        None
    } else {
        let w = ceil_div(pw, cell.0 as int);
        let h = ceil_div(ph, cell.1 as int);
        if w > 0 && h > 0 && w <= panel.0 && h <= panel.1 { Some((w as u16, h as u16)) } else { None }
    }
}

/// The cells a picture covers grown `k` times, when they fit.
pub fn cells_at(img: (u32, u32), k: u32, cell: (u16, u16), panel: (u16, u16)) -> (r: Option<(u16, u16)>)
    requires
        cell.0 > 0,
        cell.1 > 0,
    ensures
        r == cells_of(img, k as int, cell, panel),
{
    let pw = match img.0.checked_mul(k) {
        Some(v) => v,
        None => return None,
    };
    let ph = match img.1.checked_mul(k) {
        Some(v) => v,
        None => return None,
    };
    let pw = pw as u64;
    let ph = ph as u64;
    let cw = cell.0 as u64;
    let ch = cell.1 as u64;
    let w: u64 = pw / cw + if pw % cw == 0 { 0 } else { 1 };
    let h: u64 = ph / ch + if ph % ch == 0 { 0 } else { 1 };
    if w > 0 && h > 0 && w <= panel.0 as u64 && h <= panel.1 as u64 {
        Some((w as u16, h as u16))
    } else {
        None
    }
}

/// A `w` by `h` rectangle in the middle of `area`, no bigger than it.
pub open spec fn centre_of(area: Rect, w: int, h: int) -> Rect {
    Rect {
        x: (area.x + (if area.width > w { area.width - w } else { 0 }) / 2) as u16,
        y: (area.y + (if area.height > h { area.height - h } else { 0 }) / 2) as u16,
        width: (if w < area.width { w } else { area.width as int }) as u16,
        height: (if h < area.height { h } else { area.height as int }) as u16,
    }
}

/// A `w` by `h` rectangle in the middle of `area`.
pub fn centre(area: Rect, w: u16, h: u16) -> (r: Rect)
    requires
        area.in_range(),
    ensures
        r == centre_of(area, w as int, h as int),
{
    let sx = if area.width > w { area.width - w } else { 0 };
    let sy = if area.height > h { area.height - h } else { 0 };
    Rect {
        x: area.x + sx / 2,
        y: area.y + sy / 2,
        width: if w < area.width { w } else { area.width },
        height: if h < area.height { h } else { area.height },
    }
}

/// Trying factors 1, 2, ... `n` in turn and stopping at the first that
/// does not fit: the last that did, with its cells, and whether it stopped.
pub open spec fn walk_factors(img: (u32, u32), cell: (u16, u16), panel: (u16, u16), n: nat) -> (Option<(u32, (u16, u16))>, bool)
    decreases n,
{
    if n == 0 {
        (None, false)
    } else {
        let (best, stopped) = walk_factors(img, cell, panel, (n - 1) as nat);
        if stopped {
            (best, true)
        } else {
            match cells_of(img, n as int, cell, panel) {
                Some(wh) => (Some((n as u32, wh)), false),
                None => (best, true),
            }
        }
    }
}

proof fn lemma_walk_stays(img: (u32, u32), cell: (u16, u16), panel: (u16, u16), m: nat, n: nat)
    requires
        m <= n,
        walk_factors(img, cell, panel, m).1,
    ensures
        walk_factors(img, cell, panel, n) == walk_factors(img, cell, panel, m),
    decreases n - m,
{
    if m < n {
        lemma_walk_stays(img, cell, panel, m, (n - 1) as nat);
    }
}

proof fn lemma_walk_best(img: (u32, u32), cell: (u16, u16), panel: (u16, u16), n: nat)
    requires
        n <= u32::MAX,
    ensures
        walk_factors(img, cell, panel, n).0 matches Some((k, wh)) ==> 1 <= k <= n && cells_of(img, k as int, cell, panel) == Some(wh),
    decreases n,
{
    if n > 0 {
        lemma_walk_best(img, cell, panel, (n - 1) as nat);
    }
}

/// Where a picture goes without arithmetic on fractions: fitted to the
/// panel's shape (worked out by the caller), at its own cells, grown by a
/// whole factor to `pixels_w` by `pixels_h`, or grown smoothly (worked out by the caller).
#[derive(Debug, Clone, Copy, PartialEq, Eq, Structural)]
pub enum Placing {
    Fit,
    Natural(Rect),
    Grown { rect: Rect, pixels_w: u32, pixels_h: u32, factor: u32 },
    Smooth,
}

/// Where a picture `img` pixels big goes in `panel` under `mode`, with
/// cells `cell` pixels big when the terminal said: with no cell, an empty
/// picture, cell or panel, fitted; at 1x its own cells in the middle, or
/// fitted when they do not fit; for pixels the largest whole factor tried
/// upwards from one that still fits, up to one past the panel's longer
/// side, a factor of one being the natural size, fitted when none fits;
/// smooth growth otherwise.
pub open spec fn placing_of(mode: Scale, img: (u32, u32), panel: Rect, cell: Option<(u16, u16)>) -> Placing {
    match cell {
        None => Placing::Fit,
        Some(c) => if img.0 == 0 || img.1 == 0 || c.0 == 0 || c.1 == 0 || panel.width == 0 || panel.height == 0 {
            Placing::Fit
        } else {
            let room = (panel.width, panel.height);
            match mode {
                Scale::One => match cells_of(img, 1, c, room) {
                    Some((w, h)) => Placing::Natural(centre_of(panel, w as int, h as int)),
                    None => Placing::Fit,
                },
                Scale::Pixels => {
                    let top: nat = (if panel.width > panel.height { panel.width } else { panel.height }) as nat + 1;
                    match walk_factors(img, c, room, top).0 {
                        Some((k, (w, h))) => if k == 1 {
                            Placing::Natural(centre_of(panel, w as int, h as int))
                        } else {
                            Placing::Grown {
                                rect: centre_of(panel, w as int, h as int),
                                pixels_w: (img.0 * k) as u32,
                                pixels_h: (img.1 * k) as u32,
                                factor: k,
                            }
                        },
                        None => Placing::Fit,
                    }
                },
                Scale::Smooth => Placing::Smooth,
            }
        },
    }
}

/// Where a picture goes, as far as whole numbers decide it.
pub fn placing(mode: Scale, img: (u32, u32), panel: Rect, cell: Option<(u16, u16)>) -> (r: Placing)
    requires
        panel.in_range(),
    ensures
        r == placing_of(mode, img, panel, cell),
{
    let c = match cell {
        None => return Placing::Fit,
        Some(c) => c,
    };
    if img.0 == 0 || img.1 == 0 || c.0 == 0 || c.1 == 0 || panel.width == 0 || panel.height == 0 {
        return Placing::Fit;
    }
    let room = (panel.width, panel.height);
    match mode {
        Scale::One => match cells_at(img, 1, c, room) {
            Some((w, h)) => Placing::Natural(centre(panel, w, h)),
            None => Placing::Fit,
        },
        Scale::Pixels => {
            let top: u32 = (if panel.width > panel.height { panel.width } else { panel.height }) as u32 + 1;
            let mut best: Option<(u32, (u16, u16))> = None;
            let mut k: u32 = 1;
            let mut stopped = false;
            while k <= top && !stopped
                invariant
                    1 <= k <= top + 1,
                    top <= 65536,
                    c.0 > 0 && c.1 > 0,
                    !stopped ==> walk_factors(img, c, room, (k - 1) as nat) == (best, false),
                    stopped ==> walk_factors(img, c, room, (k - 1) as nat) == (best, true),
                decreases top + 1 - k, (if stopped { 0int } else { 1int }),
            {
                match cells_at(img, k, c, room) {
                    Some(wh) => {
                        best = Some((k, wh));
                        k = k + 1;
                    },
                    None => {
                        stopped = true;
                        k = k + 1;
                    },
                }
            }
            proof {
                if stopped {
                    lemma_walk_stays(img, c, room, (k - 1) as nat, top as nat);
                }
                lemma_walk_best(img, c, room, top as nat);
            }
            match best {
                Some((f, (w, h))) => if f == 1 {
                    Placing::Natural(centre(panel, w, h))
                } else {
                    Placing::Grown { rect: centre(panel, w, h), pixels_w: img.0 * f, pixels_h: img.1 * f, factor: f }
                },
                None => Placing::Fit,
            }
        },
        Scale::Smooth => Placing::Smooth,
    }
}

proof fn lemma_ceil_div_covers(a: int, b: int)
    requires
        a >= 0,
        b > 0,
    ensures
        ceil_div(a, b) * b >= a,
{
    let q = a / b;
    let r = a % b;
    assert(a == q * b + r && 0 <= r < b) by (nonlinear_arith)
        requires
            b > 0,
            q == a / b,
            r == a % b,
    ;
    assert(ceil_div(a, b) * b == q * b + (if r == 0 { 0 } else { b })) by (nonlinear_arith)
        requires
            ceil_div(a, b) == q + (if r == 0 { 0int } else { 1int }),
    ;
}

/// A placing never leaves its panel, and a picture grown by a whole factor
/// is grown at least twice, to pixels that are not nothing and that the
/// rectangle's cells hold.
pub proof fn law_a_placing_stays_in_its_panel(mode: Scale, img: (u32, u32), panel: Rect, cell: Option<(u16, u16)>)
    requires
        panel.in_range(),
    ensures
        match placing_of(mode, img, panel, cell) {
            Placing::Natural(r) => panel.x <= r.x && r.x + r.width <= panel.x + panel.width
                && panel.y <= r.y && r.y + r.height <= panel.y + panel.height && r.width > 0 && r.height > 0,
            Placing::Grown { rect: r, pixels_w, pixels_h, factor } => {
                &&& panel.x <= r.x && r.x + r.width <= panel.x + panel.width
                &&& panel.y <= r.y && r.y + r.height <= panel.y + panel.height
                &&& factor >= 2
                &&& pixels_w > 0 && pixels_h > 0
                &&& cell matches Some(c) && pixels_w <= r.width * c.0 && pixels_h <= r.height * c.1
            },
            _ => true,
        },
{
    if let Some(c) = cell {
        if !(img.0 == 0 || img.1 == 0 || c.0 == 0 || c.1 == 0 || panel.width == 0 || panel.height == 0) {
            let room = (panel.width, panel.height);
            let top: nat = (if panel.width > panel.height { panel.width } else { panel.height }) as nat + 1;
            lemma_walk_best(img, c, room, top);
            if let Some((k, (w, h))) = walk_factors(img, c, room, top).0 {
                lemma_ceil_div_covers(img.0 * k, c.0 as int);
                lemma_ceil_div_covers(img.1 * k, c.1 as int);
                assert(img.0 * k >= img.0 && img.1 * k >= img.1) by (nonlinear_arith)
                    requires
                        k >= 1,
                ;
            }
        }
    }
}

} // verus!
