//! The modules of the column, and the words on their headers.
pub mod stack;
pub mod operations;
pub mod preview;

use vstd::prelude::*;
use crate::keymap::Module;
use crate::width::{back_fit, back_fitting, cells, clusters, text_columns, concat_all, front_fit, front_fitting, grapheme_clusters, lemma_back_fitting_fits, lemma_front_fitting_fits, lemma_printable_prefix, lemma_trimmed_fits, printable_ascii, trim_fit, front_count, trimmed, width_of};

verus! {

/// The three modules of the column.
#[derive(Debug, Clone, Copy, PartialEq, Eq, PartialOrd, Ord, Hash, Structural)]
pub enum ModuleId {
    Stack,
    Preview,
    Operations,
}

/// The column, top to bottom: draw order, tab order and the order a fold
/// is drilled through.
pub open spec fn column_order() -> Seq<ModuleId> {
    seq![ModuleId::Stack, ModuleId::Preview, ModuleId::Operations]
}

/// The column, top to bottom.
pub fn column_ids() -> (r: [ModuleId; 3])
    ensures
        r@ == column_order(),
{
    let r = [ModuleId::Stack, ModuleId::Preview, ModuleId::Operations];
    assert(r@ =~= column_order());
    r
}

/// Where a module stands in the column.
pub open spec fn index_of(m: ModuleId) -> int {
    match m {
        ModuleId::Stack => 0,
        ModuleId::Preview => 1,
        ModuleId::Operations => 2,
    }
}

/// The lower-case name a module is written with.
pub open spec fn title_of(m: ModuleId) -> Seq<char> {
    match m {
        ModuleId::Stack => "stack"@,
        ModuleId::Preview => "preview"@,
        ModuleId::Operations => "operations"@,
    }
}

/// The key table's module for a column module.
pub open spec fn module_of(m: ModuleId) -> Module {
    match m {
        ModuleId::Stack => Module::Stack,
        ModuleId::Preview => Module::Preview,
        ModuleId::Operations => Module::Operations,
    }
}

impl ModuleId {
    /// Where the module stands in the column.
    pub fn index(self) -> (i: usize)
        ensures
            i == index_of(self),
    {
        match self {
            ModuleId::Stack => 0,
            ModuleId::Preview => 1,
            ModuleId::Operations => 2,
        }
    }

    /// Whether the module folds to one row when it is not the one in focus:
    /// the stack never does, the preview and the operations both do.
    pub fn folds(self) -> (b: bool)
        ensures
            b == (self != ModuleId::Stack),
    {
        match self {
            ModuleId::Stack => false,
            _ => true,
        }
    }

    /// The module's name.
    pub fn title(self) -> (s: &'static str)
        ensures
            s@ == title_of(self),
    {
        match self {
            ModuleId::Stack => "stack",
            ModuleId::Preview => "preview",
            ModuleId::Operations => "operations",
        }
    }

    /// The key table's module for this one.
    pub fn module(self) -> (m: Module)
        ensures
            m == module_of(self),
    {
        match self {
            ModuleId::Stack => Module::Stack,
            ModuleId::Preview => Module::Preview,
            ModuleId::Operations => Module::Operations,
        }
    }
}

/// Every module stands in the column once, at its own index, and maps to a
/// key module no other one maps to.
pub proof fn law_every_module_is_in_the_column_once(m: ModuleId, n: ModuleId)
    ensures
        column_order()[index_of(m)] == m,
        0 <= index_of(m) < column_order().len(),
        forall|i: int| 0 <= i < column_order().len() && column_order()[i] == m ==> i == index_of(m),
        module_of(m) == module_of(n) ==> m == n,
{
}

/// A word on a module's header row.
#[derive(Debug, Clone, Copy, PartialEq, Eq, Structural)]
pub enum Word {
    View,
    Places,
    Bookmark,
    /// `‹`: back one level.
    Back,
    Hidden,
    Sort,
    Filter,
    Run,
    Clear,
    Close,
}

/// What a word shows.
pub open spec fn word_text(w: Word) -> Seq<char> {
    match w {
        Word::View => "view"@,
        Word::Places => "places"@,
        Word::Bookmark => "bookmark"@,
        Word::Back => "\u{2039}"@,
        Word::Hidden => "hidden"@,
        Word::Sort => "sort"@,
        Word::Filter => "filter"@,
        Word::Run => "run"@,
        Word::Clear => "clear"@,
        Word::Close => "close"@,
    }
}

impl Word {
    /// What the word shows.
    pub fn word(self) -> (s: &'static str)
        ensures
            s@ == word_text(self),
    {
        match self {
            Word::View => "view",
            Word::Places => "places",
            Word::Bookmark => "bookmark",
            Word::Back => "\u{2039}",
            Word::Hidden => "hidden",
            Word::Sort => "sort",
            Word::Filter => "filter",
            Word::Run => "run",
            Word::Clear => "clear",
            Word::Close => "close",
        }
    }
}

/// What each module offers on its header, in order.
pub open spec fn words_of(m: ModuleId) -> Seq<Word> {
    match m {
        ModuleId::Stack => seq![
            Word::Back, Word::Hidden, Word::Sort, Word::Filter, Word::Bookmark, Word::Places, Word::View,
        ],
        ModuleId::Preview => seq![Word::Close],
        ModuleId::Operations => seq![Word::Run, Word::Clear],
    }
}

/// What each module offers, right-aligned, dropped from the left as it
/// narrows.
pub fn words(module: ModuleId) -> (r: Vec<Word>)
    ensures
        r@ == words_of(module),
{
    let r = match module {
        ModuleId::Stack => vec![
            Word::Back,
            Word::Hidden,
            Word::Sort,
            Word::Filter,
            Word::Bookmark,
            Word::Places,
            Word::View,
        ],
        ModuleId::Preview => vec![Word::Close],
        ModuleId::Operations => vec![Word::Run, Word::Clear],
    };
    assert(r@ =~= words_of(module));
    r
}

/// Whether a module can honour a word: the stack its seven, the preview
/// only closing, the operations running and clearing.
pub open spec fn honours(m: ModuleId, w: Word) -> bool {
    match m {
        ModuleId::Stack => w == Word::Back || w == Word::Hidden || w == Word::Sort || w == Word::Filter
            || w == Word::View || w == Word::Places || w == Word::Bookmark,
        ModuleId::Preview => w == Word::Close,
        ModuleId::Operations => w == Word::Run || w == Word::Clear,
    }
}

/// No module offers a word it cannot honour.
pub proof fn law_no_module_offers_a_word_it_cannot_honour(m: ModuleId, i: int)
    requires
        0 <= i < words_of(m).len(),
    ensures
        honours(m, words_of(m)[i]),
{
}

/// `text` cut to `width` columns: whole when it fits; else the grapheme
/// clusters from its front whose widths fit together, fewer while the
/// text they make measures wider than the width.
pub open spec fn fitted(text: Seq<char>, width: int) -> Seq<char> {
    if text_columns(text) <= width {
        text
    } else {
        let v = grapheme_clusters(text);
        concat_all(trimmed(v, front_fitting(v, width).len() as int, width))
    }
}

/// `text` cut to `width` columns: the result never measures wider, and
/// printable ASCII stays printable ASCII.
pub fn fit(text: &[char], width: u16) -> (out: Vec<char>)
    ensures
        out@ == fitted(text@, width as int),
        text_columns(out@) <= width,
        printable_ascii(text@) ==> printable_ascii(out@),
{
    if width_of(text) <= width as usize {
        let out = crate::text::copy_range(text, 0, text.len());
        assert(out@ =~= text@);
        return out;
    }
    let cs = clusters(text);
    let n = front_count(&cs, width as usize);
    let out = trim_fit(&cs, n, width as usize);
    proof {
        let v = crate::text::row_views(cs@);
        lemma_trimmed_fits(v, n as int, width as int);
        if printable_ascii(text@) {
            let k = choose|k: int| 0 <= k <= n && #[trigger] trimmed(v, n as int, width as int) == v.take(k);
            lemma_printable_prefix(v, k);
        }
    }
    out
}

/// `text` cut to `width` columns by taking out its middle, so both ends
/// survive: the clusters from the front that fit in half of what is left
/// beside the `…`, then those from the back that fit in the rest, the tail
/// getting the odd column; cut from the end alone below four columns.
pub open spec fn elided_middle(text: Seq<char>, width: int) -> Seq<char> {
    if text_columns(text) <= width {
        text
    } else if width < 4 {
        fitted(text, width)
    } else {
        let keep = width - 1;
        let head = keep / 2;
        let tail = keep - head;
        let cs = grapheme_clusters(text);
        concat_all(front_fitting(cs, head)) + seq!['\u{2026}'] + concat_all(back_fitting(cs, tail))
    }
}

/// `text` cut to `width` columns by taking out its middle.
pub fn elide_middle(text: &[char], width: u16) -> (out: Vec<char>)
    ensures
        out@ == elided_middle(text@, width as int),
{
    if width_of(text) <= width as usize {
        let out = crate::text::copy_range(text, 0, text.len());
        assert(out@ =~= text@);
        return out;
    }
    if width < 4 {
        return fit(text, width);
    }
    let keep = (width - 1) as usize;
    let head = keep / 2;
    let tail = keep - head;
    let cs = clusters(text);
    let mut out = front_fit(&cs, head);
    out.push('\u{2026}');
    let back = back_fit(&cs, tail);
    let ghost front = out@;
    let mut i: usize = 0;
    while i < back.len()
        invariant
            i <= back@.len(),
            out@ == front + back@.take(i as int),
        decreases back@.len() - i,
    {
        out.push(back[i]);
        assert(back@.take(i + 1) =~= back@.take(i as int).push(back@[i as int]));
        i = i + 1;
    }
    assert(back@.take(back@.len() as int) =~= back@);
    assert(out@ =~= elided_middle(text@, width as int));
    out
}

/// A text cut to a width never takes more columns than the width: the
/// clusters kept from the front, or from both ends with the `…` between
/// them, fit in it by their own widths, and a fitted text that keeps
/// anything measures no wider than the width.
pub proof fn law_a_cut_text_fits_its_width(text: Seq<char>, width: int)
    requires
        width >= 0,
    ensures
        text_columns(text) > width ==> cells(front_fitting(grapheme_clusters(text), width)) <= width,
        text_columns(text) > width && width >= 4 ==> cells(front_fitting(grapheme_clusters(text), (width - 1) / 2))
            + 1 + cells(back_fitting(grapheme_clusters(text), (width - 1) - (width - 1) / 2)) <= width,
        fitted(text, width).len() > 0 ==> text_columns(fitted(text, width)) <= width,
{
    let v = grapheme_clusters(text);
    lemma_trimmed_fits(v, front_fitting(v, width).len() as int, width);
    if text_columns(text) > width && fitted(text, width).len() > 0 {
        assert(trimmed(v, front_fitting(v, width).len() as int, width).len() > 0);
    }
    lemma_front_fitting_fits(grapheme_clusters(text), width);
    if width >= 4 {
        lemma_front_fitting_fits(grapheme_clusters(text), (width - 1) / 2);
        lemma_back_fitting_fits(grapheme_clusters(text), (width - 1) - (width - 1) / 2);
    }
}

/// The application's name as the top of the window says it.
pub const HEADING: &'static str = "S T A R / F O L D";

} // verus!
