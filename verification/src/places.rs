//! A searchable picker for bookmarks and mounted locations: the list in
//! group order, narrowed by a search, and the small dialogues for renaming
//! or removing a bookmark and unmounting a drive. The picker only returns
//! actions; carrying them out is the caller's.
use vstd::prelude::*;
use crate::geometry::{centred, centred_box, Rect};
use crate::input::{edit_step, Edit, TextInput};
use crate::keys::{Key, KeyCode};
use crate::text::{chars_of, copy_range, push_str, same_chars, split_on, split_parts, string_of};
use crate::uri::{is_white_space, trim_end, white_space};
use crate::panels::{elide_middle, elided_middle, fit, fitted};

verus! {

/// The groups of the list, in the order they are shown.
#[derive(Debug, Clone, Copy, PartialEq, Eq, PartialOrd, Ord, Structural)]
pub enum PlaceGroup {
    Bookmarks,
    Devices,
    Volumes,
    Network,
    Standard,
}

/// The groups in the order they are shown.
pub open spec fn group_order() -> Seq<PlaceGroup> {
    seq![PlaceGroup::Bookmarks, PlaceGroup::Devices, PlaceGroup::Volumes, PlaceGroup::Network, PlaceGroup::Standard]
}

/// A group's heading.
pub open spec fn group_title(g: PlaceGroup) -> Seq<char> {
    match g {
        PlaceGroup::Bookmarks => "BOOKMARKS"@,
        PlaceGroup::Devices => "DEVICES"@,
        PlaceGroup::Volumes => "VOLUMES"@,
        PlaceGroup::Network => "NETWORK"@,
        PlaceGroup::Standard => "LOCATIONS"@,
    }
}

impl PlaceGroup {
    /// The groups in the order they are shown.
    pub fn order() -> (r: [PlaceGroup; 5])
        ensures
            r@ == group_order(),
    {
        let r = [PlaceGroup::Bookmarks, PlaceGroup::Devices, PlaceGroup::Volumes, PlaceGroup::Network, PlaceGroup::Standard];
        assert(r@ =~= group_order());
        r
    }

    /// The group's heading.
    pub fn title(self) -> (s: &'static str)
        ensures
            s@ == group_title(self),
    {
        match self {
            PlaceGroup::Bookmarks => "BOOKMARKS",
            PlaceGroup::Devices => "DEVICES",
            PlaceGroup::Volumes => "VOLUMES",
            PlaceGroup::Network => "NETWORK",
            PlaceGroup::Standard => "LOCATIONS",
        }
    }
}

/// What is known of a mounted drive.
#[derive(Debug, Clone)]
pub struct LocationInfo {
    pub source: String,
    pub fs_type: String,
    pub label: Option<String>,
    pub uuid: Option<String>,
    pub model: Option<String>,
    pub serial: Option<String>,
    pub transport: Option<String>,
    pub capacity: Option<u64>,
    pub available: Option<u64>,
}

/// One place in the list.
#[derive(Debug, Clone)]
pub struct PlaceItem {
    pub group: PlaceGroup,
    pub name: String,
    pub path: String,
    /// The device to unmount, for a drive that can be unmounted.
    pub unmount_source: Option<String>,
    pub info: Option<LocationInfo>,
}

/// What the picker asks the caller to do.
#[derive(Debug, Clone, PartialEq, Eq)]
pub enum PlaceAction {
    Consumed,
    Close,
    Quit,
    Open(String),
    SaveBookmark { path: String, name: String },
    RenameBookmark { path: String, name: String },
    RemoveBookmark(String),
    Unmount { path: String, source: String },
    Refresh,
}

/// An action, its paths and names as characters.
pub enum PlaceActionV {
    Consumed,
    Close,
    Quit,
    Open(Seq<char>),
    SaveBookmark { path: Seq<char>, name: Seq<char> },
    RenameBookmark { path: Seq<char>, name: Seq<char> },
    RemoveBookmark(Seq<char>),
    Unmount { path: Seq<char>, source: Seq<char> },
    Refresh,
}

/// The view of an action.
pub open spec fn action_view(a: PlaceAction) -> PlaceActionV {
    match a {
        PlaceAction::Consumed => PlaceActionV::Consumed,
        PlaceAction::Close => PlaceActionV::Close,
        PlaceAction::Quit => PlaceActionV::Quit,
        PlaceAction::Open(p) => PlaceActionV::Open(p@),
        PlaceAction::SaveBookmark { path, name } => PlaceActionV::SaveBookmark { path: path@, name: name@ },
        PlaceAction::RenameBookmark { path, name } => PlaceActionV::RenameBookmark { path: path@, name: name@ },
        PlaceAction::RemoveBookmark(p) => PlaceActionV::RemoveBookmark(p@),
        PlaceAction::Unmount { path, source } => PlaceActionV::Unmount { path: path@, source: source@ },
        PlaceAction::Refresh => PlaceActionV::Refresh,
    }
}

/// What the picker is doing: browsing the list, showing the selected
/// drive's details, editing a bookmark's name, or asking whether to remove
/// a bookmark or unmount a drive.
#[derive(Debug)]
pub enum Mode {
    Browse,
    Details,
    Edit { path: String, input: TextInput, rename: bool, error: Option<&'static str> },
    ConfirmRemove { path: String, name: String },
    ConfirmUnmount { path: String, source: String, name: String },
}

/// The view of a mode.
pub enum ModeV {
    Browse,
    Details,
    Edit { path: Seq<char>, text: Seq<char>, caret: int, rename: bool, error: Option<Seq<char>> },
    ConfirmRemove { path: Seq<char>, name: Seq<char> },
    ConfirmUnmount { path: Seq<char>, source: Seq<char>, name: Seq<char> },
}

/// The view of a mode.
pub open spec fn mode_view(m: Mode) -> ModeV {
    match m {
        Mode::Browse => ModeV::Browse,
        Mode::Details => ModeV::Details,
        Mode::Edit { path, input, rename, error } => ModeV::Edit {
            path: path@,
            text: input.text_view(),
            caret: input.caret_view(),
            rename,
            error: match error {
                Some(e) => Some(e@),
                None => None,
            },
        },
        Mode::ConfirmRemove { path, name } => ModeV::ConfirmRemove { path: path@, name: name@ },
        Mode::ConfirmUnmount { path, source, name } => ModeV::ConfirmUnmount { path: path@, source: source@, name: name@ },
    }
}

/// The picker.
#[derive(Debug)]
pub struct Places {
    items: Vec<PlaceItem>,
    search: TextInput,
    selected: usize,
    scroll: usize,
    mode: Mode,
    loading: bool,
    unmounting: Option<String>,
    spinner: &'static str,
    error: Option<String>,
}

/// What the picker's logic reads of its state.
pub struct PlacesV {
    pub items: Seq<PlaceItem>,
    pub search: Seq<char>,
    pub caret: int,
    pub selected: int,
    pub scroll: int,
    pub mode: ModeV,
    pub loading: bool,
}

/// What `str::to_lowercase` makes of a string with a character outside
/// ASCII.
pub uninterp spec fn lowercase(s: Seq<char>) -> Seq<char>;

/// What `str::to_uppercase` makes of a string with a character outside
/// ASCII.
pub uninterp spec fn uppercase(s: Seq<char>) -> Seq<char>;

/// Whether every character of `s` is ASCII.
pub open spec fn all_ascii(s: Seq<char>) -> bool {
    forall|k: int| 0 <= k < s.len() ==> (#[trigger] s[k] as u32) < 128
}

/// An ASCII letter in lower case; any other character as it is.
pub open spec fn ascii_lower(c: char) -> char {
    if 'A' <= c <= 'Z' { ((c as u32) + 32) as char } else { c }
}

/// An ASCII letter in upper case; any other character as it is.
pub open spec fn ascii_upper(c: char) -> char {
    if 'a' <= c <= 'z' { ((c as u32) - 32) as char } else { c }
}

/// A string in lower case: ASCII text letter by letter, anything else as
/// Unicode's lower-case mapping gives it.
pub open spec fn lowercase_of(s: Seq<char>) -> Seq<char> {
    if all_ascii(s) { s.map_values(|c: char| ascii_lower(c)) } else { lowercase(s) }
}

/// A string in upper case: ASCII text letter by letter, anything else as
/// Unicode's upper-case mapping gives it.
pub open spec fn uppercase_of(s: Seq<char>) -> Seq<char> {
    if all_ascii(s) { s.map_values(|c: char| ascii_upper(c)) } else { uppercase(s) }
}

/// `s` in lower case.
///
/// Trusted: `str::to_lowercase`, Unicode's lower-case mapping of each
/// character, which takes ASCII letters to their lower-case forms and
/// keeps every other ASCII character; for other text the result depends on
/// the text alone and is named, not stated.
#[verifier::external_body]
fn to_lowercase(s: &str) -> (r: String)
    ensures
        all_ascii(s@) ==> r@ == s@.map_values(|c: char| ascii_lower(c)),
        !all_ascii(s@) ==> r@ == lowercase(s@),
{
    s.to_lowercase()
}

/// `s` in upper case.
///
/// Trusted: `str::to_uppercase`, Unicode's upper-case mapping of each
/// character, which takes ASCII letters to their upper-case forms and
/// keeps every other ASCII character; for other text the result depends on
/// the text alone and is named, not stated.
#[verifier::external_body]
fn to_uppercase(s: &str) -> (r: String)
    ensures
        all_ascii(s@) ==> r@ == s@.map_values(|c: char| ascii_upper(c)),
        !all_ascii(s@) ==> r@ == uppercase(s@),
{
    s.to_uppercase()
}

/// Whether `needle` occurs in `hay`.
pub open spec fn occurs(hay: Seq<char>, needle: Seq<char>) -> bool {
    exists|i: int| 0 <= i <= hay.len() - needle.len() && #[trigger] hay.subrange(i, i + needle.len()) == needle
}

/// Whether `needle` occurs in `hay`.
pub fn contains_text(hay: &[char], needle: &[char]) -> (b: bool)
    ensures
        b == occurs(hay@, needle@),
{
    if needle.len() > hay.len() {
        return false;
    }
    if needle.len() == 0 {
        assert(hay@.subrange(0int, 0int + needle@.len()) =~= needle@);
        return true;
    }
    let last = hay.len() - needle.len();
    let mut i: usize = 0;
    while i <= last
        invariant
            last == hay@.len() - needle@.len(),
            needle@.len() <= hay@.len(),
            needle@.len() > 0,
            hay@.len() <= usize::MAX,
            i <= last + 1,
            forall|j: int| 0 <= j < i ==> #[trigger] hay@.subrange(j, j + needle@.len()) != needle@,
        decreases last + 1 - i,
    {
        let mut k: usize = 0;
        let mut same = true;
        while k < needle.len()
            invariant
                needle@.len() <= hay@.len(),
                hay@.len() <= usize::MAX,
                i <= last,
                last == hay@.len() - needle@.len(),
                k <= needle@.len(),
                same == forall|q: int| 0 <= q < k ==> hay@[i + q] == needle@[q],
            decreases needle@.len() - k,
        {
            if hay[i + k] != needle[k] {
                same = false;
            }
            k = k + 1;
        }
        if same {
            assert(hay@.subrange(i as int, i + needle@.len()) =~= needle@);
            return true;
        }
        proof {
            if hay@.subrange(i as int, i + needle@.len()) == needle@ {
                assert forall|q: int| 0 <= q < needle@.len() implies hay@[i + q] == needle@[q] by {
                    assert(hay@.subrange(i as int, i + needle@.len())[q] == hay@[i + q]);
                }
            }
        }
        i = i + 1;
    }
    false
}

/// Whether `item` answers the lower-cased search `q`: everything does when
/// it is empty; otherwise its name or its path, lower-cased, holds it.
pub open spec fn matches_query(item: PlaceItem, q: Seq<char>) -> bool {
    q.len() == 0 || occurs(lowercase_of(item.name@), q) || occurs(lowercase_of(item.path@), q)
}

/// The indices, among the first `n` items, of those in group `g` that
/// answer the search `q`, in order.
pub open spec fn group_indices(items: Seq<PlaceItem>, g: PlaceGroup, q: Seq<char>, n: int) -> Seq<int>
    decreases n,
{
    if n <= 0 {
        Seq::empty()
    } else {
        let rest = group_indices(items, g, q, n - 1);
        if items[n - 1].group == g && matches_query(items[n - 1], q) { rest.push(n - 1) } else { rest }
    }
}

/// The items the search leaves, by index: group by group in the shown
/// order, each group in the items' own order.
pub open spec fn filtered_of(items: Seq<PlaceItem>, q: Seq<char>) -> Seq<int> {
    let n = items.len() as int;
    group_indices(items, PlaceGroup::Bookmarks, q, n) + group_indices(items, PlaceGroup::Devices, q, n)
        + group_indices(items, PlaceGroup::Volumes, q, n) + group_indices(items, PlaceGroup::Network, q, n)
        + group_indices(items, PlaceGroup::Standard, q, n)
}

proof fn lemma_group_indices(items: Seq<PlaceItem>, g: PlaceGroup, q: Seq<char>, n: int, i: int)
    requires
        0 <= n <= items.len(),
    ensures
        group_indices(items, g, q, n).contains(i) <==> (0 <= i < n && items[i].group == g && matches_query(items[i], q)),
    decreases n,
{
    if n > 0 {
        lemma_group_indices(items, g, q, n - 1, i);
        let rest = group_indices(items, g, q, n - 1);
        if items[n - 1].group == g && matches_query(items[n - 1], q) {
            broadcast use vstd::seq_lib::group_seq_properties;
            assert(rest.push(n - 1).contains(i) <==> (rest.contains(i) || i == n - 1));
        }
    } else {
        assert(group_indices(items, g, q, n) =~= Seq::<int>::empty());
    }
}

/// The search keeps exactly the places that answer it: an item is in the
/// filtered list when its name or its path, lower-cased, holds the query,
/// or the query is empty, and not otherwise.
pub proof fn law_the_search_keeps_what_matches(items: Seq<PlaceItem>, q: Seq<char>, i: int)
    requires
        0 <= i < items.len(),
    ensures
        filtered_of(items, q).contains(i) <==> matches_query(items[i], q),
{
    broadcast use vstd::seq_lib::group_seq_properties;
    let n = items.len() as int;
    lemma_group_indices(items, PlaceGroup::Bookmarks, q, n, i);
    lemma_group_indices(items, PlaceGroup::Devices, q, n, i);
    lemma_group_indices(items, PlaceGroup::Volumes, q, n, i);
    lemma_group_indices(items, PlaceGroup::Network, q, n, i);
    lemma_group_indices(items, PlaceGroup::Standard, q, n, i);
}

/// An empty search keeps every place.
pub proof fn law_an_empty_search_keeps_every_place(items: Seq<PlaceItem>, i: int)
    requires
        0 <= i < items.len(),
    ensures
        filtered_of(items, lowercase_of(Seq::<char>::empty())).contains(i),
{
    assert(all_ascii(Seq::<char>::empty()));
    assert(lowercase_of(Seq::<char>::empty()) =~= Seq::<char>::empty());
    law_the_search_keeps_what_matches(items, lowercase_of(Seq::<char>::empty()), i);
}

/// A detail line when the value is known.
pub open spec fn known_line(label: Seq<char>, v: Option<String>) -> Seq<(Seq<char>, Seq<char>)> {
    match v {
        Some(s) => seq![(label, s@)],
        None => Seq::empty(),
    }
}

/// A size line when the size is known.
pub open spec fn size_line(label: Seq<char>, v: Option<u64>) -> Seq<(Seq<char>, Seq<char>)> {
    match v {
        Some(b) => seq![(label, crate::panels::preview::size_text(b as nat))],
        None => Seq::empty(),
    }
}

/// What is known of a drive, line by line: its label, model, serial and
/// UUID when known, its connection in capitals, its device and file
/// system, then its capacity and the space available when known.
pub open spec fn info_lines(info: LocationInfo) -> Seq<(Seq<char>, Seq<char>)> {
    known_line("Label"@, info.label) + known_line("Model"@, info.model) + known_line("Serial"@, info.serial)
        + known_line("UUID"@, info.uuid) + (match info.transport {
        Some(t) => seq![("Connection"@, uppercase_of(t@))],
        None => Seq::empty(),
    }) + seq![("Device"@, info.source@), ("Filesystem"@, info.fs_type@)] + size_line("Capacity"@, info.capacity)
        + size_line("Available"@, info.available)
}

/// The selected place's details, label and value by line: its name under
/// `SELECTED PLACE`, what is known of the drive, and where it is mounted;
/// with nothing selected, an invitation to choose one.
pub open spec fn place_details_of(item: Option<PlaceItem>) -> Seq<(Seq<char>, Seq<char>)> {
    match item {
        Some(it) => seq![("SELECTED PLACE"@, it.name@)] + (match it.info {
            Some(info) => info_lines(info),
            None => Seq::empty(),
        }) + seq![("Mounted at"@, it.path@)],
        None => seq![("SELECTED PLACE"@, "Choose a drive to inspect"@)],
    }
}

/// The label and value views of detail lines.
pub open spec fn line_views(v: Seq<(String, String)>) -> Seq<(Seq<char>, Seq<char>)> {
    v.map_values(|l: (String, String)| (l.0@, l.1@))
}

fn push_line(out: &mut Vec<(String, String)>, label: &str, value: String)
    ensures
        line_views(final(out)@) == line_views(old(out)@).push((label@, value@)),
{
    out.push((String::from_str(label), value));
    assert(line_views(final(out)@) =~= line_views(old(out)@).push((label@, value@)));
}

fn push_known(out: &mut Vec<(String, String)>, label: &str, v: &Option<String>)
    ensures
        line_views(final(out)@) == line_views(old(out)@) + known_line(label@, *v),
{
    match v {
        Some(s) => push_line(out, label, s.clone()),
        None => {},
    }
    assert(line_views(final(out)@) =~= line_views(old(out)@) + known_line(label@, *v));
}

fn push_size(out: &mut Vec<(String, String)>, label: &str, v: Option<u64>)
    ensures
        line_views(final(out)@) == line_views(old(out)@) + size_line(label@, v),
{
    match v {
        Some(b) => push_line(out, label, crate::panels::preview::size(b)),
        None => {},
    }
    assert(line_views(final(out)@) =~= line_views(old(out)@) + size_line(label@, v));
}

fn push_connection(out: &mut Vec<(String, String)>, t: &Option<String>)
    ensures
        line_views(final(out)@) == line_views(old(out)@) + (match *t {
            Some(t) => seq![("Connection"@, uppercase_of(t@))],
            None => Seq::empty(),
        }),
{
    let ghost before = line_views(out@);
    match t {
        Some(t) => push_line(out, "Connection", to_uppercase(t.as_str())),
        None => {
            assert(line_views(out@) =~= before + Seq::<(Seq<char>, Seq<char>)>::empty());
        },
    }
}

#[verifier::rlimit(30)]
fn push_info(out: &mut Vec<(String, String)>, info: &LocationInfo)
    ensures
        line_views(final(out)@) == line_views(old(out)@) + info_lines(*info),
{
    let ghost s0 = line_views(out@);
    push_known(out, "Label", &info.label);
    push_known(out, "Model", &info.model);
    push_known(out, "Serial", &info.serial);
    push_known(out, "UUID", &info.uuid);
    let ghost s4 = line_views(out@);
    assert(s4 =~= s0 + (known_line("Label"@, info.label) + known_line("Model"@, info.model)
        + known_line("Serial"@, info.serial) + known_line("UUID"@, info.uuid)));
    push_connection(out, &info.transport);
    push_line(out, "Device", info.source.clone());
    push_line(out, "Filesystem", info.fs_type.clone());
    push_size(out, "Capacity", info.capacity);
    push_size(out, "Available", info.available);
    assert(line_views(out@) =~= s0 + info_lines(*info));
}

/// The selected place's details, label and value by line.
pub fn place_details(item: Option<&PlaceItem>) -> (r: Vec<(String, String)>)
    ensures
        line_views(r@) == place_details_of(match item { Some(i) => Some(*i), None => None }),
{
    let mut out: Vec<(String, String)> = Vec::new();
    match item {
        Some(it) => {
            push_line(&mut out, "SELECTED PLACE", it.name.clone());
            match &it.info {
                Some(info) => push_info(&mut out, info),
                None => {},
            }
            push_line(&mut out, "Mounted at", it.path.clone());
            assert(line_views(out@) =~= place_details_of(Some(*it)));
        },
        None => {
            push_line(&mut out, "SELECTED PLACE", String::from_str("Choose a drive to inspect"));
            assert(line_views(out@) =~= place_details_of(None));
        },
    }
    out
}

/// One row of the list: a group's heading, or an item by index.
#[derive(Debug, Clone, Copy, PartialEq, Eq, Structural)]
pub enum ListRow {
    Heading(PlaceGroup),
    Item(usize),
}

/// The rows of one group: its heading and its items, or nothing when none
/// of its items is left.
pub open spec fn group_rows(idx: Seq<int>, g: PlaceGroup) -> Seq<ListRow> {
    if idx.len() == 0 {
        Seq::empty()
    } else {
        seq![ListRow::Heading(g)] + idx.map_values(|i: int| ListRow::Item(i as usize))
    }
}

/// The rows of the list: each group that has items left, its heading and
/// then its items.
pub open spec fn rows_of(items: Seq<PlaceItem>, q: Seq<char>) -> Seq<ListRow> {
    let n = items.len() as int;
    group_rows(group_indices(items, PlaceGroup::Bookmarks, q, n), PlaceGroup::Bookmarks)
        + group_rows(group_indices(items, PlaceGroup::Devices, q, n), PlaceGroup::Devices)
        + group_rows(group_indices(items, PlaceGroup::Volumes, q, n), PlaceGroup::Volumes)
        + group_rows(group_indices(items, PlaceGroup::Network, q, n), PlaceGroup::Network)
        + group_rows(group_indices(items, PlaceGroup::Standard, q, n), PlaceGroup::Standard)
}

/// The items left by the picker's search.
pub open spec fn filtered(s: PlacesV) -> Seq<int> {
    filtered_of(s.items, lowercase_of(s.search))
}

/// The item under the selection, by index, if the selection is on one.
pub open spec fn selected_index(s: PlacesV) -> Option<int> {
    let f = filtered(s);
    if 0 <= s.selected < f.len() { Some(f[s.selected]) } else { None }
}

} // verus!

verus! {

/// `s` without the white space at its start.
pub open spec fn trim_start(s: Seq<char>) -> Seq<char>
    decreases s.len(),
{
    if s.len() > 0 && is_white_space(s[0]) { trim_start(s.skip(1)) } else { s }
}

/// `s` without white space at either end, as `str::trim` gives it.
pub open spec fn trim(s: Seq<char>) -> Seq<char> {
    trim_start(trim_end(s))
}

fn trimmed(s: &[char]) -> (out: Vec<char>)
    ensures
        out@ == trim(s@),
{
    let mut n = s.len();
    assert(s@.take(n as int) =~= s@);
    while n > 0 && white_space(s[n - 1])
        invariant
            n <= s@.len(),
            trim_end(s@) == trim_end(s@.take(n as int)),
        decreases n,
    {
        assert(s@.take(n as int).drop_last() =~= s@.take(n - 1));
        n = n - 1;
    }
    let ghost e = s@.take(n as int);
    proof {
        if n > 0 {
            assert(!is_white_space(e.last()));
        }
        assert(trim_end(e) == e);
    }
    let mut i: usize = 0;
    assert(e.skip(0) =~= e);
    while i < n && white_space(s[i])
        invariant
            i <= n <= s@.len(),
            e == s@.take(n as int),
            trim_start(e.skip(i as int)) == trim_start(e),
        decreases n - i,
    {
        assert(e.skip(i as int).skip(1) =~= e.skip(i + 1));
        i = i + 1;
    }
    proof {
        if i < n {
            assert(!is_white_space(e.skip(i as int)[0]));
        }
        assert(trim_start(e.skip(i as int)) == e.skip(i as int));
    }
    let out = copy_range(s, i, n);
    assert(out@ =~= e.skip(i as int));
    out
}

/// `s` without white space at either end.
pub fn trimmed_pub(s: &[char]) -> (out: Vec<char>)
    ensures
        out@ == trim(s@),
{
    trimmed(s)
}

/// The selection moved by `delta`, kept on the list; unmoved when the list
/// is empty.
pub open spec fn moved_selection(s: PlacesV, delta: int) -> int {
    let len = filtered(s).len() as int;
    if len == 0 {
        s.selected
    } else {
        let t = if s.selected + delta < 0 { 0 } else if s.selected + delta > usize::MAX { usize::MAX as int } else { s.selected + delta };
        if t < len - 1 { t } else { len - 1 }
    }
}

/// `s` with the selection at `sel`.
pub open spec fn select(s: PlacesV, sel: int) -> PlacesV {
    PlacesV { selected: sel, ..s }
}

/// `s` in mode `m`.
pub open spec fn in_mode(s: PlacesV, m: ModeV) -> PlacesV {
    PlacesV { mode: m, ..s }
}

/// The path of the selected item, opened; nothing when nothing is selected.
pub open spec fn open_selected(s: PlacesV) -> PlaceActionV {
    match selected_index(s) {
        Some(i) => PlaceActionV::Open(s.items[i].path@),
        None => PlaceActionV::Consumed,
    }
}

/// `F2`: rename the selected bookmark, the field loaded with its name.
pub open spec fn rename_step(s: PlacesV) -> PlacesV {
    match selected_index(s) {
        Some(i) => if s.items[i].group == PlaceGroup::Bookmarks {
            in_mode(s, ModeV::Edit {
                path: s.items[i].path@,
                text: s.items[i].name@,
                caret: s.items[i].name@.len() as int,
                rename: true,
                error: None,
            })
        } else {
            s
        },
        None => s,
    }
}

/// `delete`: ask whether to remove the selected bookmark.
pub open spec fn remove_step(s: PlacesV) -> PlacesV {
    match selected_index(s) {
        Some(i) => if s.items[i].group == PlaceGroup::Bookmarks {
            in_mode(s, ModeV::ConfirmRemove { path: s.items[i].path@, name: s.items[i].name@ })
        } else {
            s
        },
        None => s,
    }
}

/// `F6`: ask whether to unmount the selected drive, when it can be and no
/// unmount is already under way.
pub open spec fn unmount_step(s: PlacesV) -> PlacesV {
    if s.loading {
        s
    } else {
        match selected_index(s) {
            Some(i) => match s.items[i].unmount_source {
                Some(src) => in_mode(s, ModeV::ConfirmUnmount { path: s.items[i].path@, source: src@, name: s.items[i].name@ }),
                None => s,
            },
            None => s,
        }
    }
}

/// A key while browsing the list.
pub open spec fn browse_step(s: PlacesV, key: Key) -> (PlacesV, PlaceActionV) {
    let consumed = |t: PlacesV| (t, PlaceActionV::Consumed);
    match key.code {
        KeyCode::Esc => (s, PlaceActionV::Close),
        KeyCode::Up => consumed(select(s, moved_selection(s, -1))),
        KeyCode::Down => consumed(select(s, moved_selection(s, 1))),
        KeyCode::Tab => consumed(select(s, moved_selection(s, 1))),
        KeyCode::PageUp => consumed(select(s, moved_selection(s, -8))),
        KeyCode::PageDown => consumed(select(s, moved_selection(s, 8))),
        KeyCode::Home => consumed(select(s, 0)),
        KeyCode::End => consumed(select(s, if filtered(s).len() > 0 { filtered(s).len() - 1 } else { 0 })),
        KeyCode::Enter => (s, open_selected(s)),
        KeyCode::F(n) => if n == 2 {
            consumed(rename_step(s))
        } else if n == 3 {
            consumed(in_mode(s, ModeV::Details))
        } else if n == 6 {
            consumed(unmount_step(s))
        } else if n == 5 {
            (s, PlaceActionV::Refresh)
        } else {
            consumed(s)
        },
        KeyCode::Delete => consumed(remove_step(s)),
        _ => if key.mods.ctrl && key.code == KeyCode::Char('u') {
            consumed(PlacesV { search: Seq::empty(), caret: 0, selected: 0, scroll: 0, ..s })
        } else {
            let (t, c, e) = edit_step(s.search, s.caret, key);
            if e == Edit::Consumed {
                consumed(PlacesV { search: t, caret: c, selected: 0, scroll: 0, ..s })
            } else {
                consumed(PlacesV { search: t, caret: c, ..s })
            }
        },
    }
}

/// The answer `y` and `n` give in a confirmation: `y` alone says yes, `n`
/// or `esc` says no, anything else waits.
pub open spec fn confirm_reply(key: Key) -> Option<bool> {
    match key.code {
        KeyCode::Char(c) => if c == 'y' && key.mods.is_empty() {
            Some(true)
        } else if c == 'n' {
            Some(false)
        } else {
            None
        },
        KeyCode::Esc => Some(false),
        _ => None,
    }
}

/// What a key does to the picker, and what it asks of the caller.
pub open spec fn handle_step(s: PlacesV, key: Key) -> (PlacesV, PlaceActionV) {
    if key.mods.ctrl && key.code == KeyCode::Char('c') {
        (s, PlaceActionV::Quit)
    } else {
        match s.mode {
            ModeV::Details => match key.code {
                KeyCode::Esc => (in_mode(s, ModeV::Browse), PlaceActionV::Consumed),
                KeyCode::F(n) => if n == 3 {
                    (in_mode(s, ModeV::Browse), PlaceActionV::Consumed)
                } else {
                    (s, PlaceActionV::Consumed)
                },
                KeyCode::Enter => (s, open_selected(s)),
                _ => (s, PlaceActionV::Consumed),
            },
            ModeV::Edit { path, text, caret, rename, error } => {
                let (t, c, e) = edit_step(text, caret, key);
                let editing = |err: Option<Seq<char>>| in_mode(s, ModeV::Edit { path, text: t, caret: c, rename, error: err });
                match e {
                    Edit::Cancel => (in_mode(s, ModeV::Browse), PlaceActionV::Consumed),
                    Edit::Submit => {
                        let name = trim(t);
                        if name.len() == 0 {
                            (editing(Some("enter a name"@)), PlaceActionV::Consumed)
                        } else if rename {
                            (in_mode(s, ModeV::Browse), PlaceActionV::RenameBookmark { path, name })
                        } else {
                            (in_mode(s, ModeV::Browse), PlaceActionV::SaveBookmark { path, name })
                        }
                    },
                    Edit::Consumed => (editing(None), PlaceActionV::Consumed),
                    Edit::Ignored => (editing(error), PlaceActionV::Consumed),
                }
            },
            ModeV::ConfirmRemove { path, name } => match confirm_reply(key) {
                Some(true) => (in_mode(s, ModeV::Browse), PlaceActionV::RemoveBookmark(path)),
                Some(false) => (in_mode(s, ModeV::Browse), PlaceActionV::Consumed),
                None => (s, PlaceActionV::Consumed),
            },
            ModeV::ConfirmUnmount { path, source, name } => match confirm_reply(key) {
                Some(true) => (in_mode(s, ModeV::Browse), PlaceActionV::Unmount { path, source }),
                Some(false) => (in_mode(s, ModeV::Browse), PlaceActionV::Consumed),
                None => (s, PlaceActionV::Consumed),
            },
            ModeV::Browse => browse_step(s, key),
        }
    }
}

/// A bookmark is removed, and a drive unmounted, only on a `y` to the
/// question that asked about that very path.
pub proof fn law_removal_and_unmount_follow_a_yes(s: PlacesV, key: Key)
    ensures
        ({
            let (t, a) = handle_step(s, key);
            &&& a matches PlaceActionV::RemoveBookmark(p) ==> (s.mode matches ModeV::ConfirmRemove { path, .. }
                && path == p && confirm_reply(key) == Some(true))
            &&& a matches PlaceActionV::Unmount { path: p, source: src } ==> (s.mode matches ModeV::ConfirmUnmount { path, source, .. }
                && path == p && source == src && confirm_reply(key) == Some(true))
        }),
{
}

/// Only a bookmark is ever asked about for removal or opened for renaming,
/// and only a drive that can be unmounted, while no unmount is under way,
/// is asked about for unmounting: a question opens on the selected item.
pub proof fn law_only_bookmarks_are_renamed_or_removed(s: PlacesV, key: Key)
    ensures
        ({
            let (t, a) = handle_step(s, key);
            &&& (t.mode is ConfirmRemove && !(s.mode is ConfirmRemove)) ==> (selected_index(s) matches Some(i)
                && s.items[i].group == PlaceGroup::Bookmarks
                && t.mode == (ModeV::ConfirmRemove { path: s.items[i].path@, name: s.items[i].name@ }))
            &&& (t.mode matches ModeV::Edit { rename, .. } && rename && !(s.mode is Edit)) ==> (selected_index(s) matches Some(i)
                && s.items[i].group == PlaceGroup::Bookmarks)
            &&& (t.mode is ConfirmUnmount && !(s.mode is ConfirmUnmount)) ==> (!s.loading && (selected_index(s) matches Some(i)
                && s.items[i].unmount_source is Some))
        }),
{
}

} // verus!

verus! {

/// Indices as integers.
pub open spec fn as_ints(v: Seq<usize>) -> Seq<int> {
    v.map_values(|i: usize| i as int)
}

/// The first frame of the activity spinner.
pub open spec fn first_spinner() -> Seq<char> {
    "\u{280b}"@
}

fn item_matches(item: &PlaceItem, q: &[char]) -> (b: bool)
    ensures
        b == matches_query(*item, q@),
{
    if q.len() == 0 {
        return true;
    }
    let name = to_lowercase(item.name.as_str());
    let nc = chars_of(name.as_str());
    if contains_text(nc.as_slice(), q) {
        return true;
    }
    let path = to_lowercase(item.path.as_str());
    let pc = chars_of(path.as_str());
    contains_text(pc.as_slice(), q)
}

fn group_members(items: &Vec<PlaceItem>, g: PlaceGroup, q: &[char]) -> (r: Vec<usize>)
    ensures
        as_ints(r@) == group_indices(items@, g, q@, items@.len() as int),
{
    let mut r: Vec<usize> = Vec::new();
    let mut i: usize = 0;
    while i < items.len()
        invariant
            i <= items@.len(),
            as_ints(r@) == group_indices(items@, g, q@, i as int),
        decreases items@.len() - i,
    {
        let ghost before = r@;
        if items[i].group == g && item_matches(&items[i], q) {
            r.push(i);
            assert(as_ints(r@) =~= as_ints(before).push(i as int));
        }
        i = i + 1;
    }
    r
}

fn append_all(out: &mut Vec<usize>, more: Vec<usize>)
    ensures
        as_ints(final(out)@) == as_ints(old(out)@) + as_ints(more@),
{
    let mut i: usize = 0;
    let ghost start = as_ints(out@);
    while i < more.len()
        invariant
            i <= more@.len(),
            as_ints(out@) == start + as_ints(more@).take(i as int),
        decreases more@.len() - i,
    {
        let ghost before = out@;
        out.push(more[i]);
        assert(as_ints(out@) =~= as_ints(before).push(more@[i as int] as int));
        assert(as_ints(more@).take(i + 1) =~= as_ints(more@).take(i as int).push(more@[i as int] as int));
        assert(as_ints(out@) =~= start + as_ints(more@).take(i + 1));
        i = i + 1;
    }
    assert(as_ints(more@).take(more@.len() as int) =~= as_ints(more@));
}

fn append_group(out: &mut Vec<ListRow>, members: &Vec<usize>, g: PlaceGroup)
    ensures
        final(out)@ == old(out)@ + group_rows(as_ints(members@), g),
{
    if members.len() == 0 {
        assert(group_rows(as_ints(members@), g) =~= Seq::<ListRow>::empty());
        assert(out@ =~= old(out)@ + group_rows(as_ints(members@), g));
        return;
    }
    out.push(ListRow::Heading(g));
    let ghost start = out@;
    let mut i: usize = 0;
    while i < members.len()
        invariant
            i <= members@.len(),
            out@ == start + as_ints(members@).map_values(|k: int| ListRow::Item(k as usize)).take(i as int),
        decreases members@.len() - i,
    {
        out.push(ListRow::Item(members[i]));
        assert(out@ =~= start + as_ints(members@).map_values(|k: int| ListRow::Item(k as usize)).take(i + 1));
        i = i + 1;
    }
    assert(as_ints(members@).map_values(|k: int| ListRow::Item(k as usize)).take(members@.len() as int)
        =~= as_ints(members@).map_values(|k: int| ListRow::Item(k as usize)));
    assert(out@ =~= old(out)@ + group_rows(as_ints(members@), g));
}

impl Places {
    /// What the picker's logic reads of its state.
    pub closed spec fn state(&self) -> PlacesV {
        PlacesV {
            items: self.items@,
            search: self.search.text_view(),
            caret: self.search.caret_view(),
            selected: self.selected as int,
            scroll: self.scroll as int,
            mode: mode_view(self.mode),
            loading: self.loading,
        }
    }

    /// Both text fields keep their carets inside their text.
    pub closed spec fn wf(&self) -> bool {
        &&& self.search.wf()
        &&& match self.mode {
            Mode::Edit { input, .. } => input.wf(),
            _ => true,
        }
    }

    /// What the picker shows of the worker: the unmount under way, the
    /// spinner frame, and the last error, as characters.
    pub closed spec fn status_view(&self) -> (Option<Seq<char>>, Seq<char>, Option<Seq<char>>) {
        (
            match self.unmounting { Some(u) => Some(u@), None => None },
            self.spinner@,
            match self.error { Some(e) => Some(e@), None => None },
        )
    }

    /// A picker over `items`, browsing, nothing typed, the first row
    /// selected.
    pub fn new(items: Vec<PlaceItem>) -> (p: Places)
        ensures
            p.wf(),
            p.state() == (PlacesV {
                items: items@,
                search: Seq::empty(),
                caret: 0,
                selected: 0,
                scroll: 0,
                mode: ModeV::Browse,
                loading: false,
            }),
            p.status_view() == (None::<Seq<char>>, first_spinner(), None::<Seq<char>>),
    {
        Places {
            items,
            search: TextInput::single(),
            selected: 0,
            scroll: 0,
            mode: Mode::Browse,
            loading: false,
            unmounting: None,
            spinner: "\u{280b}",
            error: None,
        }
    }

    fn query(&self) -> (q: Vec<char>)
        ensures
            q@ == lowercase_of(self.search.text_view()),
    {
        let t = self.search.text();
        let l = to_lowercase(t.as_str());
        chars_of(l.as_str())
    }

    /// The items the search leaves, by index, group by group.
    pub fn filtered_items(&self) -> (r: Vec<usize>)
        ensures
            as_ints(r@) == filtered(self.state()),
    {
        let q = self.query();
        let mut r: Vec<usize> = Vec::new();
        let order = PlaceGroup::order();
        let mut k: usize = 0;
        assert(as_ints(r@) =~= Seq::<int>::empty());
        while k < 5
            invariant
                order@ == group_order(),
                q@ == lowercase_of(self.search.text_view()),
                k <= 5,
                as_ints(r@) == (if k == 0 {
                    Seq::<int>::empty()
                } else if k == 1 {
                    group_indices(self.items@, PlaceGroup::Bookmarks, q@, self.items@.len() as int)
                } else if k == 2 {
                    group_indices(self.items@, PlaceGroup::Bookmarks, q@, self.items@.len() as int)
                        + group_indices(self.items@, PlaceGroup::Devices, q@, self.items@.len() as int)
                } else if k == 3 {
                    group_indices(self.items@, PlaceGroup::Bookmarks, q@, self.items@.len() as int)
                        + group_indices(self.items@, PlaceGroup::Devices, q@, self.items@.len() as int)
                        + group_indices(self.items@, PlaceGroup::Volumes, q@, self.items@.len() as int)
                } else if k == 4 {
                    group_indices(self.items@, PlaceGroup::Bookmarks, q@, self.items@.len() as int)
                        + group_indices(self.items@, PlaceGroup::Devices, q@, self.items@.len() as int)
                        + group_indices(self.items@, PlaceGroup::Volumes, q@, self.items@.len() as int)
                        + group_indices(self.items@, PlaceGroup::Network, q@, self.items@.len() as int)
                } else {
                    filtered_of(self.items@, q@)
                }),
            decreases 5 - k,
        {
            let m = group_members(&self.items, order[k], q.as_slice());
            append_all(&mut r, m);
            k = k + 1;
        }
        r
    }

    /// The rows of the list.
    pub fn rows(&self) -> (r: Vec<ListRow>)
        ensures
            r@ == rows_of(self.state().items, lowercase_of(self.state().search)),
    {
        let q = self.query();
        let mut r: Vec<ListRow> = Vec::new();
        let a = group_members(&self.items, PlaceGroup::Bookmarks, q.as_slice());
        append_group(&mut r, &a, PlaceGroup::Bookmarks);
        let b = group_members(&self.items, PlaceGroup::Devices, q.as_slice());
        append_group(&mut r, &b, PlaceGroup::Devices);
        let c = group_members(&self.items, PlaceGroup::Volumes, q.as_slice());
        append_group(&mut r, &c, PlaceGroup::Volumes);
        let d = group_members(&self.items, PlaceGroup::Network, q.as_slice());
        append_group(&mut r, &d, PlaceGroup::Network);
        let e = group_members(&self.items, PlaceGroup::Standard, q.as_slice());
        append_group(&mut r, &e, PlaceGroup::Standard);
        assert(r@ =~= rows_of(self.state().items, lowercase_of(self.state().search)));
        r
    }

    /// The item under the selection, by index.
    pub fn selected_item(&self) -> (r: Option<usize>)
        ensures
            match r {
                Some(i) => selected_index(self.state()) == Some(i as int) && i < self.state().items.len(),
                None => selected_index(self.state()) is None,
            },
    {
        let f = self.filtered_items();
        if self.selected < f.len() {
            let i = f[self.selected];
            assert(as_ints(f@)[self.selected as int] == i as int);
            proof {
                lemma_filtered_in_range(self.state().items, lowercase_of(self.state().search), self.selected as int);
            }
            Some(i)
        } else {
            None
        }
    }
}

proof fn lemma_group_indices_in_range(items: Seq<PlaceItem>, g: PlaceGroup, q: Seq<char>, n: int)
    requires
        n <= items.len(),
    ensures
        forall|j: int| 0 <= j < group_indices(items, g, q, n).len() ==> 0 <= #[trigger] group_indices(items, g, q, n)[j] < n,
    decreases n,
{
    if n > 0 {
        lemma_group_indices_in_range(items, g, q, n - 1);
        let rest = group_indices(items, g, q, n - 1);
        let all = group_indices(items, g, q, n);
        assert forall|j: int| 0 <= j < all.len() implies 0 <= #[trigger] all[j] < n by {
            if j < rest.len() {
                assert(all[j] == rest[j]);
            }
        }
    }
}

proof fn lemma_filtered_in_range(items: Seq<PlaceItem>, q: Seq<char>, k: int)
    requires
        0 <= k < filtered_of(items, q).len(),
    ensures
        0 <= filtered_of(items, q)[k] < items.len(),
{
    let n = items.len() as int;
    lemma_group_indices_in_range(items, PlaceGroup::Bookmarks, q, n);
    lemma_group_indices_in_range(items, PlaceGroup::Devices, q, n);
    lemma_group_indices_in_range(items, PlaceGroup::Volumes, q, n);
    lemma_group_indices_in_range(items, PlaceGroup::Network, q, n);
    lemma_group_indices_in_range(items, PlaceGroup::Standard, q, n);
}

} // verus!

verus! {

fn confirm_answer(key: Key) -> (r: Option<bool>)
    ensures
        r == confirm_reply(key),
{
    match key.code {
        KeyCode::Char('y') => if !key.mods.ctrl && !key.mods.alt && !key.mods.shift { Some(true) } else { None },
        KeyCode::Char('n') => Some(false),
        KeyCode::Esc => Some(false),
        _ => None,
    }
}

impl Places {
    fn open_selected(&self) -> (a: PlaceAction)
        ensures
            action_view(a) == open_selected(self.state()),
    {
        match self.selected_item() {
            Some(i) => PlaceAction::Open(self.items[i].path.clone()),
            None => PlaceAction::Consumed,
        }
    }

    fn move_selection(&mut self, delta: isize)
        requires
            old(self).wf(),
            -8 <= delta <= 8,
        ensures
            final(self).wf(),
            final(self).state() == select(old(self).state(), moved_selection(old(self).state(), delta as int)),
            final(self).status_view() == old(self).status_view(),
    {
        let len = self.filtered_items().len();
        if len > 0 {
            let s = self.selected;
            let t: usize = if delta < 0 {
                let d = (0 - delta) as usize;
                if s < d { 0 } else { s - d }
            } else {
                let d = delta as usize;
                if s > usize::MAX - d { usize::MAX } else { s + d }
            };
            self.selected = if t < len - 1 { t } else { len - 1 };
        }
    }

    fn start_rename(&mut self)
        requires
            old(self).wf(),
        ensures
            final(self).wf(),
            final(self).state() == rename_step(old(self).state()),
            final(self).status_view() == old(self).status_view(),
    {
        match self.selected_item() {
            Some(i) => {
                if self.items[i].group == PlaceGroup::Bookmarks {
                    let input = TextInput::single().with_text(self.items[i].name.as_str());
                    self.mode = Mode::Edit { path: self.items[i].path.clone(), input, rename: true, error: None };
                }
            },
            None => {},
        }
    }

    fn start_remove(&mut self)
        requires
            old(self).wf(),
        ensures
            final(self).wf(),
            final(self).state() == remove_step(old(self).state()),
            final(self).status_view() == old(self).status_view(),
    {
        match self.selected_item() {
            Some(i) => {
                if self.items[i].group == PlaceGroup::Bookmarks {
                    self.mode = Mode::ConfirmRemove { path: self.items[i].path.clone(), name: self.items[i].name.clone() };
                }
            },
            None => {},
        }
    }

    fn start_unmount(&mut self)
        requires
            old(self).wf(),
        ensures
            final(self).wf(),
            final(self).state() == unmount_step(old(self).state()),
            final(self).status_view() == old(self).status_view(),
    {
        if self.loading {
            return;
        }
        match self.selected_item() {
            Some(i) => {
                match &self.items[i].unmount_source {
                    Some(src) => {
                        self.mode = Mode::ConfirmUnmount {
                            path: self.items[i].path.clone(),
                            source: src.clone(),
                            name: self.items[i].name.clone(),
                        };
                    },
                    None => {},
                }
            },
            None => {},
        }
    }

    fn handle_browse(&mut self, key: Key) -> (a: PlaceAction)
        requires
            old(self).wf(),
            old(self).state().mode is Browse,
        ensures
            final(self).wf(),
            (final(self).state(), action_view(a)) == browse_step(old(self).state(), key),
            final(self).status_view() == old(self).status_view(),
    {
        match key.code {
            KeyCode::Esc => return PlaceAction::Close,
            KeyCode::Up => self.move_selection(-1),
            KeyCode::Down | KeyCode::Tab => self.move_selection(1),
            KeyCode::PageUp => self.move_selection(-8),
            KeyCode::PageDown => self.move_selection(8),
            KeyCode::Home => self.selected = 0,
            KeyCode::End => {
                let len = self.filtered_items().len();
                self.selected = if len > 0 { len - 1 } else { 0 };
            },
            KeyCode::Enter => return self.open_selected(),
            KeyCode::F(2) => self.start_rename(),
            KeyCode::F(3) => self.mode = Mode::Details,
            KeyCode::Delete => self.start_remove(),
            KeyCode::F(6) => self.start_unmount(),
            KeyCode::F(5) => return PlaceAction::Refresh,
            _ => {
                if key.mods.ctrl && key.code == KeyCode::Char('u') {
                    self.search.clear();
                    self.selected = 0;
                    self.scroll = 0;
                } else if self.search.handle(key) == Edit::Consumed {
                    self.selected = 0;
                    self.scroll = 0;
                }
            },
        }
        PlaceAction::Consumed
    }

    /// Apply a key: `ctrl+c` quits from anywhere; otherwise what it does
    /// depends on what the picker is doing, as [`handle_step`] says.
    pub fn handle(&mut self, key: Key) -> (a: PlaceAction)
        requires
            old(self).wf(),
        ensures
            final(self).wf(),
            (final(self).state(), action_view(a)) == handle_step(old(self).state(), key),
            final(self).status_view() == old(self).status_view(),
    {
        if key.mods.ctrl && key.code == KeyCode::Char('c') {
            return PlaceAction::Quit;
        }
        let mut m = Mode::Browse;
        std::mem::swap(&mut m, &mut self.mode);
        match m {
            Mode::Details => match key.code {
                KeyCode::Esc | KeyCode::F(3) => PlaceAction::Consumed,
                KeyCode::Enter => {
                    self.mode = Mode::Details;
                    self.open_selected()
                },
                _ => {
                    self.mode = Mode::Details;
                    PlaceAction::Consumed
                },
            },
            Mode::Edit { path, mut input, rename, error } => {
                let e = input.handle(key);
                match e {
                    Edit::Cancel => PlaceAction::Consumed,
                    Edit::Submit => {
                        let t = trimmed(input.chars());
                        if t.len() == 0 {
                            proof {
                                reveal_strlit("enter a name");
                            }
                            self.mode = Mode::Edit { path, input, rename, error: Some("enter a name") };
                            PlaceAction::Consumed
                        } else {
                            let name = string_of(t.as_slice());
                            if rename {
                                PlaceAction::RenameBookmark { path, name }
                            } else {
                                PlaceAction::SaveBookmark { path, name }
                            }
                        }
                    },
                    Edit::Consumed => {
                        self.mode = Mode::Edit { path, input, rename, error: None };
                        PlaceAction::Consumed
                    },
                    Edit::Ignored => {
                        self.mode = Mode::Edit { path, input, rename, error };
                        PlaceAction::Consumed
                    },
                }
            },
            Mode::ConfirmRemove { path, name } => match confirm_answer(key) {
                Some(true) => PlaceAction::RemoveBookmark(path),
                Some(false) => PlaceAction::Consumed,
                None => {
                    self.mode = Mode::ConfirmRemove { path, name };
                    PlaceAction::Consumed
                },
            },
            Mode::ConfirmUnmount { path, source, name } => match confirm_answer(key) {
                Some(true) => PlaceAction::Unmount { path, source },
                Some(false) => PlaceAction::Consumed,
                None => {
                    self.mode = Mode::ConfirmUnmount { path, source, name };
                    PlaceAction::Consumed
                },
            },
            Mode::Browse => self.handle_browse(key),
        }
    }
}

} // verus!

verus! {

/// The ordinary components among the pieces of a path: the empty ones and
/// the `.`s left out.
pub open spec fn normal_parts(parts: Seq<Seq<char>>) -> Seq<Seq<char>>
    decreases parts.len(),
{
    if parts.len() == 0 {
        Seq::empty()
    } else {
        let r = normal_parts(parts.drop_last());
        let l = parts.last();
        if l.len() == 0 || l == seq!['.'] { r } else { r.push(l) }
    }
}

/// A path's components as `Path::components` reads them: the root `/` or
/// a leading `.` first, then every other piece between separators that is
/// neither empty nor `.`.
pub open spec fn components_of(p: Seq<char>) -> Seq<Seq<char>> {
    let head = if p.len() > 0 && p[0] == '/' {
        seq![seq!['/']]
    } else if p == seq!['.'] || (p.len() >= 2 && p[0] == '.' && p[1] == '/') {
        seq![seq!['.']]
    } else {
        Seq::empty()
    };
    head + normal_parts(split_on(p, '/'))
}

/// Whether `base`'s components begin `path`'s: `Path::starts_with`.
pub open spec fn path_starts_with(path: Seq<char>, base: Seq<char>) -> bool {
    let a = components_of(path);
    let b = components_of(base);
    b.len() <= a.len() && a.take(b.len() as int) == b
}

/// Whether two paths have the same components: `Path`'s `==`.
pub open spec fn same_path(a: Seq<char>, b: Seq<char>) -> bool {
    components_of(a) == components_of(b)
}

fn components(p: &[char]) -> (r: Vec<Vec<char>>)
    ensures
        crate::text::row_views(r@) == components_of(p@),
{
    let mut r: Vec<Vec<char>> = Vec::new();
    if p.len() > 0 && p[0] == '/' {
        r.push(vec!['/']);
    } else if (p.len() == 1 && p[0] == '.') || (p.len() >= 2 && p[0] == '.' && p[1] == '/') {
        proof {
            if p@.len() == 1 {
                assert(p@ =~= seq!['.']);
            }
        }
        r.push(vec!['.']);
    } else {
        proof {
            if p@ == seq!['.'] {
                assert(p@[0] == '.');
            }
        }
    }
    let ghost head = crate::text::row_views(r@);
    proof {
        if p@.len() > 0 && p@[0] == '/' {
            assert(head[0] =~= seq!['/']);
            assert(head =~= seq![seq!['/']]);
        } else if p@ == seq!['.'] || (p@.len() >= 2 && p@[0] == '.' && p@[1] == '/') {
            assert(head[0] =~= seq!['.']);
            assert(head =~= seq![seq!['.']]);
        } else {
            assert(head =~= Seq::<Seq<char>>::empty());
        }
    }
    let v = copy_range(p, 0, p.len());
    let parts = split_parts(&v, '/');
    assert(v@ =~= p@);
    let ghost ps = split_on(p@, '/');
    let mut i: usize = 0;
    while i < parts.len()
        invariant
            v@ == p@,
            ps == split_on(p@, '/'),
            parts@.len() == ps.len(),
            forall|q: int| 0 <= q < parts@.len() ==> (#[trigger] parts@[q])@ == ps[q],
            i <= parts@.len(),
            crate::text::row_views(r@) == head + normal_parts(ps.take(i as int)),
        decreases parts@.len() - i,
    {
        let part = &parts[i];
        assert(ps.take(i + 1).drop_last() =~= ps.take(i as int));
        assert(ps.take(i + 1).last() == ps[i as int]);
        let dot = part.len() == 1 && part[0] == '.';
        proof {
            if part@.len() == 1 && part@[0] == '.' {
                assert(part@ =~= seq!['.']);
            }
            if part@ == seq!['.'] {
                assert(part@[0] == '.');
            }
        }
        if part.len() > 0 && !dot {
            let ghost before = r@;
            r.push(copy_range(part.as_slice(), 0, part.len()));
            assert(part@.subrange(0, part@.len() as int) =~= part@);
            assert(crate::text::row_views(r@) =~= crate::text::row_views(before).push(part@));
        }
        i = i + 1;
    }
    assert(ps.take(parts@.len() as int) =~= ps);
    r
}

/// A path's components.
pub fn components_pub(p: &[char]) -> (r: Vec<Vec<char>>)
    ensures
        crate::text::row_views(r@) == components_of(p@),
{
    components(p)
}

fn begins_with(a: &Vec<Vec<char>>, b: &Vec<Vec<char>>) -> (r: bool)
    ensures
        r == (crate::text::row_views(b@).len() <= crate::text::row_views(a@).len()
            && crate::text::row_views(a@).take(crate::text::row_views(b@).len() as int) == crate::text::row_views(b@)),
{
    let ghost av = crate::text::row_views(a@);
    let ghost bv = crate::text::row_views(b@);
    if b.len() > a.len() {
        return false;
    }
    let mut i: usize = 0;
    while i < b.len()
        invariant
            av == crate::text::row_views(a@),
            bv == crate::text::row_views(b@),
            b@.len() <= a@.len(),
            i <= b@.len(),
            forall|j: int| 0 <= j < i ==> av[j] == bv[j],
        decreases b@.len() - i,
    {
        if !same_chars(a[i].as_slice(), b[i].as_slice()) {
            assert(av.take(bv.len() as int)[i as int] != bv[i as int]);
            return false;
        }
        i = i + 1;
    }
    assert(av.take(bv.len() as int) =~= bv);
    true
}

/// Whether `path` lies under `base`, component by component.
pub fn starts_with(path: &[char], base: &[char]) -> (r: bool)
    ensures
        r == path_starts_with(path@, base@),
{
    let a = components(path);
    let b = components(base);
    begins_with(&a, &b)
}

/// Whether two paths have the same components.
pub fn path_eq(x: &[char], y: &[char]) -> (r: bool)
    ensures
        r == same_path(x@, y@),
{
    let a = components(x);
    let b = components(y);
    let ghost av = crate::text::row_views(a@);
    let ghost bv = crate::text::row_views(b@);
    assert(av.len() == a@.len() && bv.len() == b@.len());
    if a.len() != b.len() {
        return false;
    }
    let same = begins_with(&a, &b);
    assert(av.take(bv.len() as int) =~= av);
    same
}

} // verus!

verus! {

/// The first position, from `start` on, of the list `f` whose item has the
/// path `target`.
pub open spec fn position_of_path(f: Seq<int>, items: Seq<PlaceItem>, target: Seq<char>, start: int) -> Option<int>
    decreases f.len() - start,
{
    if start < 0 || start >= f.len() {
        None
    } else if 0 <= f[start] < items.len() && same_path(items[f[start]].path@, target) {
        Some(start)
    } else {
        position_of_path(f, items, target, start + 1)
    }
}

/// The mount, among the first `n` items, that `path` lies under and that
/// has the most components; the last such when several tie.
pub open spec fn deepest_mount(items: Seq<PlaceItem>, path: Seq<char>, n: int) -> Option<int>
    decreases n,
{
    if n <= 0 {
        None
    } else {
        let r = deepest_mount(items, path, n - 1);
        let i = n - 1;
        if items[i].info is Some && path_starts_with(path, items[i].path@) && (match r {
            Some(j) => components_of(items[i].path@).len() >= components_of(items[j].path@).len(),
            None => true,
        }) {
            Some(i)
        } else {
            r
        }
    }
}

/// Reopening the picker inside a mounted volume selects that volume: the
/// deepest mount the path lies under, if the search leaves it.
pub open spec fn containing_mount_step(s: PlacesV, path: Seq<char>) -> PlacesV {
    match deepest_mount(s.items, path, s.items.len() as int) {
        Some(m) => match position_of_path(filtered(s), s.items, s.items[m].path@, 0) {
            Some(j) => select(s, j),
            None => s,
        },
        None => s,
    }
}

/// An optional string as characters.
pub open spec fn opt_view(o: Option<String>) -> Option<Seq<char>> {
    match o {
        Some(s) => Some(s@),
        None => None,
    }
}

/// Whether two optional paths are equal as paths.
pub open spec fn same_opt_path(a: Option<String>, b: Option<String>) -> bool {
    match (a, b) {
        (Some(x), Some(y)) => same_path(x@, y@),
        (None, None) => true,
        _ => false,
    }
}

/// Whether two drive descriptions are equal, field by field.
pub open spec fn same_info(a: LocationInfo, b: LocationInfo) -> bool {
    &&& a.source@ == b.source@
    &&& a.fs_type@ == b.fs_type@
    &&& opt_view(a.label) == opt_view(b.label)
    &&& opt_view(a.uuid) == opt_view(b.uuid)
    &&& opt_view(a.model) == opt_view(b.model)
    &&& opt_view(a.serial) == opt_view(b.serial)
    &&& opt_view(a.transport) == opt_view(b.transport)
    &&& a.capacity == b.capacity
    &&& a.available == b.available
}

/// Whether two places are equal: the same group, name, paths and drive.
pub open spec fn same_item(a: PlaceItem, b: PlaceItem) -> bool {
    &&& a.group == b.group
    &&& a.name@ == b.name@
    &&& same_path(a.path@, b.path@)
    &&& same_opt_path(a.unmount_source, b.unmount_source)
    &&& match (a.info, b.info) {
        (Some(x), Some(y)) => same_info(x, y),
        (None, None) => true,
        _ => false,
    }
}

/// Whether two lists of places are equal, place for place.
pub open spec fn same_items(a: Seq<PlaceItem>, b: Seq<PlaceItem>) -> bool {
    a.len() == b.len() && forall|i: int| 0 <= i < a.len() ==> same_item(#[trigger] a[i], b[i])
}

/// A new list replaces the old one unless they are equal; the selection
/// follows the selected path when the new list still shows it, and goes to
/// the top otherwise.
pub open spec fn set_items_step(s: PlacesV, items: Seq<PlaceItem>) -> PlacesV {
    if same_items(s.items, items) {
        s
    } else {
        let t = PlacesV { items: items, ..s };
        let sel = match selected_index(s) {
            Some(i) => match position_of_path(filtered(t), items, s.items[i].path@, 0) {
                Some(j) => j,
                None => 0,
            },
            None => 0,
        };
        select(t, sel)
    }
}

/// The scroll that keeps the selected place in a list `height` rows high:
/// moved just far enough to show it, and never past the last full page.
pub open spec fn visible_scroll(s: PlacesV, rows: Seq<ListRow>, height: int) -> int {
    if height == 0 {
        s.scroll
    } else {
        let at = match selected_index(s) {
            Some(i) => row_of(rows, s.items, i, 0),
            None => None,
        };
        let sc = match at {
            Some(a) => if a < s.scroll { a } else if a >= s.scroll + height { a + 1 - height } else { s.scroll },
            None => s.scroll,
        };
        let cap = if rows.len() > height { rows.len() - height } else { 0 };
        if sc < cap { sc } else { cap }
    }
}

/// The first row, from `start` on, that shows a place with the path and
/// group of item `i`.
pub open spec fn row_of(rows: Seq<ListRow>, items: Seq<PlaceItem>, i: int, start: int) -> Option<int>
    decreases rows.len() - start,
{
    if start < 0 || start >= rows.len() {
        None
    } else if (match rows[start] {
        ListRow::Item(k) => k < items.len() && same_path(items[k as int].path@, items[i].path@) && items[k as int].group == items[i].group,
        ListRow::Heading(_) => false,
    }) {
        Some(start)
    } else {
        row_of(rows, items, i, start + 1)
    }
}

fn opt_same(a: &Option<String>, b: &Option<String>) -> (r: bool)
    ensures
        r == (opt_view(*a) == opt_view(*b)),
{
    match (a, b) {
        (Some(x), Some(y)) => *x == *y,
        (None, None) => true,
        _ => false,
    }
}

fn opt_same_path(a: &Option<String>, b: &Option<String>) -> (r: bool)
    ensures
        r == same_opt_path(*a, *b),
{
    match (a, b) {
        (Some(x), Some(y)) => {
            let xc = chars_of(x.as_str());
            let yc = chars_of(y.as_str());
            path_eq(xc.as_slice(), yc.as_slice())
        },
        (None, None) => true,
        _ => false,
    }
}

fn info_same(a: &LocationInfo, b: &LocationInfo) -> (r: bool)
    ensures
        r == same_info(*a, *b),
{
    a.source == b.source && a.fs_type == b.fs_type && opt_same(&a.label, &b.label)
        && opt_same(&a.uuid, &b.uuid) && opt_same(&a.model, &b.model) && opt_same(&a.serial, &b.serial)
        && opt_same(&a.transport, &b.transport) && a.capacity == b.capacity && a.available == b.available
}

fn path_of(item: &PlaceItem) -> (r: Vec<char>)
    ensures
        r@ == item.path@,
{
    chars_of(item.path.as_str())
}

fn item_same(a: &PlaceItem, b: &PlaceItem) -> (r: bool)
    ensures
        r == same_item(*a, *b),
{
    if a.group != b.group || a.name != b.name {
        return false;
    }
    let pa = path_of(a);
    let pb = path_of(b);
    if !path_eq(pa.as_slice(), pb.as_slice()) {
        return false;
    }
    if !opt_same_path(&a.unmount_source, &b.unmount_source) {
        return false;
    }
    match (&a.info, &b.info) {
        (Some(x), Some(y)) => info_same(x, y),
        (None, None) => true,
        _ => false,
    }
}

fn items_same(a: &Vec<PlaceItem>, b: &Vec<PlaceItem>) -> (r: bool)
    ensures
        r == same_items(a@, b@),
{
    if a.len() != b.len() {
        return false;
    }
    let mut i: usize = 0;
    while i < a.len()
        invariant
            a@.len() == b@.len(),
            i <= a@.len(),
            forall|j: int| 0 <= j < i ==> same_item(#[trigger] a@[j], b@[j]),
        decreases a@.len() - i,
    {
        if !item_same(&a[i], &b[i]) {
            return false;
        }
        i = i + 1;
    }
    true
}

fn find_path(f: &Vec<usize>, items: &Vec<PlaceItem>, target: &[char]) -> (r: Option<usize>)
    ensures
        match r {
            Some(j) => position_of_path(as_ints(f@), items@, target@, 0) == Some(j as int),
            None => position_of_path(as_ints(f@), items@, target@, 0) is None,
        },
{
    let ghost fi = as_ints(f@);
    let mut j: usize = 0;
    while j < f.len()
        invariant
            fi == as_ints(f@),
            j <= f@.len(),
            position_of_path(fi, items@, target@, 0) == position_of_path(fi, items@, target@, j as int),
        decreases f@.len() - j,
    {
        let k = f[j];
        if k < items.len() {
            let p = path_of(&items[k]);
            if path_eq(p.as_slice(), target) {
                return Some(j);
            }
        }
        j = j + 1;
    }
    None
}

fn find_row(rows: &Vec<ListRow>, items: &Vec<PlaceItem>, i: usize) -> (r: Option<usize>)
    requires
        i < items@.len(),
    ensures
        match r {
            Some(a) => row_of(rows@, items@, i as int, 0) == Some(a as int),
            None => row_of(rows@, items@, i as int, 0) is None,
        },
{
    let target = path_of(&items[i]);
    let g = items[i].group;
    let mut a: usize = 0;
    while a < rows.len()
        invariant
            i < items@.len(),
            target@ == items@[i as int].path@,
            g == items@[i as int].group,
            a <= rows@.len(),
            row_of(rows@, items@, i as int, 0) == row_of(rows@, items@, i as int, a as int),
        decreases rows@.len() - a,
    {
        match rows[a] {
            ListRow::Item(k) => {
                if k < items.len() && items[k].group == g {
                    let p = path_of(&items[k]);
                    if path_eq(p.as_slice(), target.as_slice()) {
                        return Some(a);
                    }
                }
            },
            ListRow::Heading(_) => {},
        }
        a = a + 1;
    }
    None
}

} // verus!

verus! {

/// Where the picker lands in `area`: centred, 38 to 108 cells wide, 24
/// rows high, as far as the area allows.
pub open spec fn picker_box(area: Rect) -> Rect {
    centred_box(area, 38, 108, 24, 9)
}

/// The inside of a box, within its border.
pub open spec fn inner_of(r: Rect) -> Rect {
    Rect {
        x: (if r.width > 0 { r.x + 1 } else { r.x as int }) as u16,
        y: (if r.height > 0 { r.y + 1 } else { r.y as int }) as u16,
        width: (if r.width >= 2 { r.width - 2 } else { 0 }) as u16,
        height: (if r.height >= 2 { r.height - 2 } else { 0 }) as u16,
    }
}

/// The list inside the picker: two rows below the top; on a wide picker
/// it leaves the right-hand 43 cells to the details, keeping at least 52.
pub open spec fn list_box(inner: Rect) -> Rect {
    Rect {
        x: inner.x,
        y: (if inner.y + 2 > u16::MAX { u16::MAX as int } else { inner.y + 2 }) as u16,
        width: (if inner.width >= 82 {
            if inner.width - 43 > 52 { inner.width - 43 } else { 52 }
        } else {
            inner.width as int
        }) as u16,
        height: (if inner.height >= 4 { inner.height - 4 } else { 0 }) as u16,
    }
}

/// Where the picker lands in `area`.
pub fn rect(area: Rect) -> (r: Rect)
    requires
        area.in_range(),
    ensures
        r == picker_box(area),
{
    centred(area, 38, 108, 24, 9)
}

/// The inside of a box.
pub fn inner(r: Rect) -> (i: Rect)
    requires
        r.in_range(),
    ensures
        i == inner_of(r),
{
    Rect {
        x: if r.width > 0 { r.x + 1 } else { r.x },
        y: if r.height > 0 { r.y + 1 } else { r.y },
        width: if r.width >= 2 { r.width - 2 } else { 0 },
        height: if r.height >= 2 { r.height - 2 } else { 0 },
    }
}

impl Places {
    /// The list inside the picker.
    pub fn list_rect(inner: Rect) -> (r: Rect)
        ensures
            r == list_box(inner),
    {
        Rect {
            x: inner.x,
            y: inner.y.saturating_add(2),
            width: if inner.width >= 82 {
                if inner.width - 43 > 52 { inner.width - 43 } else { 52 }
            } else {
                inner.width
            },
            height: if inner.height >= 4 { inner.height - 4 } else { 0 },
        }
    }

    /// Open the name field for bookmarking `path`, loaded with `name`.
    pub fn begin_bookmark(&mut self, path: String, name: String)
        requires
            old(self).wf(),
        ensures
            final(self).wf(),
            final(self).state() == in_mode(old(self).state(), ModeV::Edit {
                path: path@,
                text: name@,
                caret: name@.len() as int,
                rename: false,
                error: None,
            }),
            final(self).status_view() == old(self).status_view(),
    {
        let input = TextInput::single().with_text(name.as_str());
        self.mode = Mode::Edit { path, input, rename: false, error: None };
    }

    /// Record what the worker is doing: a scan under way, its last error,
    /// and the drive being unmounted.
    pub fn set_status(&mut self, loading: bool, error: Option<String>, unmounting: Option<String>)
        requires
            old(self).wf(),
        ensures
            final(self).wf(),
            final(self).state() == (PlacesV { loading, ..old(self).state() }),
            final(self).status_view() == (opt_view(unmounting), old(self).status_view().1, opt_view(error)),
    {
        self.loading = loading;
        self.error = error;
        self.unmounting = unmounting;
    }

    /// The spinner frame to draw next.
    pub fn set_spinner(&mut self, spinner: &'static str)
        requires
            old(self).wf(),
        ensures
            final(self).wf(),
            final(self).state() == old(self).state(),
            final(self).status_view() == (old(self).status_view().0, spinner@, old(self).status_view().2),
    {
        self.spinner = spinner;
    }

    /// The wheel moves the selection three places.
    pub fn scroll(&mut self, down: bool)
        requires
            old(self).wf(),
        ensures
            final(self).wf(),
            final(self).state() == select(old(self).state(), moved_selection(old(self).state(), if down { 3 } else { -3 })),
            final(self).status_view() == old(self).status_view(),
    {
        self.move_selection(if down { 3 } else { -3 });
    }

    /// Select the mounted volume `path` lies in, when the list shows it.
    pub fn select_containing_mount(&mut self, path: &str)
        requires
            old(self).wf(),
        ensures
            final(self).wf(),
            final(self).state() == containing_mount_step(old(self).state(), path@),
            final(self).status_view() == old(self).status_view(),
    {
        let p = chars_of(path);
        let mut best: Option<usize> = None;
        let mut best_count: usize = 0;
        let mut i: usize = 0;
        while i < self.items.len()
            invariant
                p@ == path@,
                i <= self.items@.len(),
                best == (match deepest_mount(self.items@, path@, i as int) {
                    Some(k) => Some(k as usize),
                    None => None::<usize>,
                }),
                match deepest_mount(self.items@, path@, i as int) {
                    Some(k) => 0 <= k < i && best_count == components_of(self.items@[k].path@).len(),
                    None => true,
                },
            decreases self.items@.len() - i,
        {
            let item = &self.items[i];
            if item.info.is_some() {
                let ip = path_of(item);
                if starts_with(p.as_slice(), ip.as_slice()) {
                    let count = components(ip.as_slice()).len();
                    if best.is_none() || count >= best_count {
                        best = Some(i);
                        best_count = count;
                    }
                }
            }
            i = i + 1;
        }
        match best {
            Some(m) => {
                let f = self.filtered_items();
                let target = path_of(&self.items[m]);
                match find_path(&f, &self.items, target.as_slice()) {
                    Some(j) => self.selected = j,
                    None => {},
                }
            },
            None => {},
        }
    }

    /// Replace the list after discovery or a bookmark change; the selection
    /// follows the selected path when the new list still shows it.
    pub fn set_items(&mut self, items: Vec<PlaceItem>)
        requires
            old(self).wf(),
        ensures
            final(self).wf(),
            final(self).state() == set_items_step(old(self).state(), items@),
            final(self).status_view() == old(self).status_view(),
    {
        if items_same(&self.items, &items) {
            return;
        }
        let previous = match self.selected_item() {
            Some(i) => Some(path_of(&self.items[i])),
            None => None,
        };
        self.items = items;
        self.selected = match previous {
            Some(p) => {
                let f = self.filtered_items();
                match find_path(&f, &self.items, p.as_slice()) {
                    Some(j) => j,
                    None => 0,
                }
            },
            None => 0,
        };
    }

    /// Move the scroll so the selected place shows in a list `height` rows
    /// high.
    pub fn keep_selected_visible(&mut self, rows: &Vec<ListRow>, height: usize)
        requires
            old(self).wf(),
        ensures
            final(self).wf(),
            final(self).state() == (PlacesV { scroll: visible_scroll(old(self).state(), rows@, height as int), ..old(self).state() }),
            final(self).status_view() == old(self).status_view(),
    {
        if height == 0 {
            return;
        }
        let at = match self.selected_item() {
            Some(i) => find_row(rows, &self.items, i),
            None => None,
        };
        match at {
            Some(a) => {
                if a < self.scroll {
                    self.scroll = a;
                } else if a - self.scroll >= height {
                    self.scroll = a - height + 1;
                }
            },
            None => {},
        }
        let cap = if rows.len() > height { rows.len() - height } else { 0 };
        if self.scroll > cap {
            self.scroll = cap;
        }
    }
}

} // verus!

verus! {

/// Where a click on a confirmation's footer row lands: on the yes label,
/// `yes_len` cells long, it says yes; on `n keep`, three cells after it,
/// it says no; elsewhere nothing.
pub open spec fn confirm_click(inner: Rect, x: int, y: int, yes_len: int) -> Option<bool> {
    let row = if inner.y + 2 > u16::MAX { u16::MAX as int } else { inner.y + 2 };
    if y == row {
        let left = if x > inner.x { x - inner.x } else { 0 };
        let yes_w = if yes_len < inner.width { yes_len } else { inner.width as int };
        let no_start = yes_len + 3;
        let no_end = if no_start + 6 < inner.width { no_start + 6 } else { inner.width as int };
        if x >= inner.x && left < yes_w {
            Some(true)
        } else if left >= no_start && left < no_end {
            Some(false)
        } else {
            None
        }
    } else {
        None
    }
}

/// A click while browsing, inside the picker: the footer's words start a
/// rename, a removal, a refresh, an unmount or the details; a place in the
/// list is selected and opened, or its `[unmount]` end starts an unmount.
pub open spec fn browse_click(s: PlacesV, x: int, y: int, i: Rect) -> (PlacesV, PlaceActionV) {
    let actions_y = i.y + (if i.height >= 1 { i.height - 1 } else { 0 });
    if y == actions_y {
        let left = if x > i.x { x - i.x } else { 0 };
        if left <= 6 {
            (rename_step(s), PlaceActionV::Consumed)
        } else if 9 <= left <= 18 {
            (remove_step(s), PlaceActionV::Consumed)
        } else if 21 <= left <= 27 {
            (s, PlaceActionV::Refresh)
        } else if 30 <= left <= 39 {
            (unmount_step(s), PlaceActionV::Consumed)
        } else if 42 <= left <= 48 {
            (in_mode(s, ModeV::Details), PlaceActionV::Consumed)
        } else {
            (s, PlaceActionV::Consumed)
        }
    } else {
        let list = list_box(i);
        let rows = rows_of(s.items, lowercase_of(s.search));
        let r = s.scroll + (y - list.y);
        if !list.holds(x, y) || r >= rows.len() || !(rows[r] is Item) {
            (s, PlaceActionV::Consumed)
        } else {
            let index = rows[r]->Item_0 as int;
            let sel = match crate::text::first_index(filtered(s), index) {
                Some(j) => j,
                None => s.selected,
            };
            let t = select(s, sel);
            if s.items[index].unmount_source is Some && list.width >= 20 && x >= list.x + list.width - 9 {
                (unmount_step(t), PlaceActionV::Consumed)
            } else {
                (t, PlaceActionV::Open(s.items[index].path@))
            }
        }
    }
}

/// What a click at `(x, y)` in `area` does to the picker. Outside the
/// picker it closes; on the details it goes back to the list; on the name
/// field it does nothing; on a confirmation's labels it answers.
pub open spec fn click_step(s: PlacesV, x: int, y: int, area: Rect) -> (PlacesV, PlaceActionV) {
    let rr = picker_box(area);
    if !rr.holds(x, y) {
        (s, PlaceActionV::Close)
    } else {
        let i = inner_of(rr);
        match s.mode {
            ModeV::Details => (in_mode(s, ModeV::Browse), PlaceActionV::Consumed),
            ModeV::Edit { .. } => (s, PlaceActionV::Consumed),
            ModeV::ConfirmRemove { path, .. } => match confirm_click(i, x, y, 8) {
                Some(true) => (in_mode(s, ModeV::Browse), PlaceActionV::RemoveBookmark(path)),
                Some(false) => (in_mode(s, ModeV::Browse), PlaceActionV::Consumed),
                None => (s, PlaceActionV::Consumed),
            },
            ModeV::ConfirmUnmount { path, source, .. } => match confirm_click(i, x, y, 9) {
                Some(true) => (in_mode(s, ModeV::Browse), PlaceActionV::Unmount { path, source }),
                Some(false) => (in_mode(s, ModeV::Browse), PlaceActionV::Consumed),
                None => (s, PlaceActionV::Consumed),
            },
            ModeV::Browse => browse_click(s, x, y, i),
        }
    }
}

proof fn lemma_rows_in_range(items: Seq<PlaceItem>, q: Seq<char>)
    requires
        items.len() <= usize::MAX,
    ensures
        forall|r: int| 0 <= r < rows_of(items, q).len() ==> (#[trigger] rows_of(items, q)[r] matches ListRow::Item(k) ==> k < items.len()),
{
    let n = items.len() as int;
    lemma_group_indices_in_range(items, PlaceGroup::Bookmarks, q, n);
    lemma_group_indices_in_range(items, PlaceGroup::Devices, q, n);
    lemma_group_indices_in_range(items, PlaceGroup::Volumes, q, n);
    lemma_group_indices_in_range(items, PlaceGroup::Network, q, n);
    lemma_group_indices_in_range(items, PlaceGroup::Standard, q, n);
    assert forall|g: PlaceGroup, r: int| 0 <= r < group_rows(group_indices(items, g, q, n), g).len()
        implies (#[trigger] group_rows(group_indices(items, g, q, n), g)[r] matches ListRow::Item(k) ==> k < items.len()) by {
        lemma_group_indices_in_range(items, g, q, n);
        let idx = group_indices(items, g, q, n);
        if r > 0 {
            assert(group_rows(idx, g)[r] == ListRow::Item(idx[r - 1] as usize));
        }
    }
}

fn position_of_index(f: &Vec<usize>, index: usize) -> (r: Option<usize>)
    ensures
        match r {
            Some(j) => crate::text::first_index(as_ints(f@), index as int) == Some(j as int),
            None => crate::text::first_index(as_ints(f@), index as int) is None,
        },
{
    let ghost fi = as_ints(f@);
    let mut j: usize = 0;
    while j < f.len()
        invariant
            fi == as_ints(f@),
            j <= f@.len(),
            forall|q: int| 0 <= q < j ==> fi[q] != index as int,
        decreases f@.len() - j,
    {
        if f[j] == index {
            proof {
                crate::text::lemma_first_index_is(fi, index as int, j as int);
            }
            return Some(j);
        }
        j = j + 1;
    }
    proof {
        crate::text::lemma_first_index_none(fi, index as int);
    }
    None
}

impl Places {
    /// A click at `(x, y)` in `area`.
    pub fn click(&mut self, x: u16, y: u16, area: Rect) -> (a: PlaceAction)
        requires
            old(self).wf(),
            area.in_range(),
            old(self).state().scroll + u16::MAX <= usize::MAX,
        ensures
            final(self).wf(),
            (final(self).state(), action_view(a)) == click_step(old(self).state(), x as int, y as int, area),
            final(self).status_view() == old(self).status_view(),
    {
        let rr = rect(area);
        if !crate::geometry::inside(rr, x, y) {
            return PlaceAction::Close;
        }
        let i = inner(rr);
        let mut m = Mode::Browse;
        std::mem::swap(&mut m, &mut self.mode);
        match m {
            Mode::Details => return PlaceAction::Consumed,
            Mode::Edit { path, input, rename, error } => {
                self.mode = Mode::Edit { path, input, rename, error };
                return PlaceAction::Consumed;
            },
            Mode::ConfirmRemove { path, name } => {
                match confirm_hit(i, x, y, 8) {
                    Some(true) => return PlaceAction::RemoveBookmark(path),
                    Some(false) => return PlaceAction::Consumed,
                    None => {
                        self.mode = Mode::ConfirmRemove { path, name };
                        return PlaceAction::Consumed;
                    },
                }
            },
            Mode::ConfirmUnmount { path, source, name } => {
                match confirm_hit(i, x, y, 9) {
                    Some(true) => return PlaceAction::Unmount { path, source },
                    Some(false) => return PlaceAction::Consumed,
                    None => {
                        self.mode = Mode::ConfirmUnmount { path, source, name };
                        return PlaceAction::Consumed;
                    },
                }
            },
            Mode::Browse => {},
        }
        let actions_y = i.y + if i.height >= 1 { i.height - 1 } else { 0 };
        if y == actions_y {
            let left = if x > i.x { x - i.x } else { 0 };
            if left <= 6 {
                self.start_rename();
                return PlaceAction::Consumed;
            } else if 9 <= left && left <= 18 {
                self.start_remove();
                return PlaceAction::Consumed;
            } else if 21 <= left && left <= 27 {
                return PlaceAction::Refresh;
            } else if 30 <= left && left <= 39 {
                self.start_unmount();
                return PlaceAction::Consumed;
            } else if 42 <= left && left <= 48 {
                self.mode = Mode::Details;
                return PlaceAction::Consumed;
            } else {
                return PlaceAction::Consumed;
            }
        }
        let list = Places::list_rect(i);
        if !crate::geometry::inside(list, x, y) {
            return PlaceAction::Consumed;
        }
        let rows = self.rows();
        let r = self.scroll + (y - list.y) as usize;
        if r >= rows.len() {
            return PlaceAction::Consumed;
        }
        let index = match rows[r] {
            ListRow::Item(k) => k,
            ListRow::Heading(_) => return PlaceAction::Consumed,
        };
        let n_items = self.items.len();
        let n_rows = rows.len();
        proof {
            lemma_rows_in_range(self.items@, lowercase_of(self.search.text_view()));
            assert(rows@[r as int] matches ListRow::Item(k) && k == index);
        }
        let path = self.items[index].path.clone();
        let f = self.filtered_items();
        match position_of_index(&f, index) {
            Some(j) => self.selected = j,
            None => {},
        }
        if self.items[index].unmount_source.is_some() && list.width >= 20 && x >= list.x + list.width - 9 {
            self.start_unmount();
            return PlaceAction::Consumed;
        }
        PlaceAction::Open(path)
    }
}

fn confirm_hit(inner: Rect, x: u16, y: u16, yes_len: u16) -> (r: Option<bool>)
    requires
        yes_len <= 9,
    ensures
        r == confirm_click(inner, x as int, y as int, yes_len as int),
{
    let row = inner.y.saturating_add(2);
    if y != row {
        return None;
    }
    let left = if x > inner.x { x - inner.x } else { 0 };
    let yes_w = if yes_len < inner.width { yes_len } else { inner.width };
    let no_start = yes_len + 3;
    let no_end = if no_start + 6 < inner.width { no_start + 6 } else { inner.width };
    if x >= inner.x && left < yes_w {
        Some(true)
    } else if left >= no_start && left < no_end {
        Some(false)
    } else {
        None
    }
}

} // verus!

verus! {

/// The colour a piece of the picker is drawn in.
#[derive(Debug, Clone, Copy, PartialEq, Eq, Structural)]
pub enum Ink {
    Accent,
    Dim,
    Body,
    Error,
    Progress,
}

/// A piece of text at a cell.
#[derive(Debug, Clone)]
pub struct Stroke {
    pub x: u16,
    pub y: u16,
    pub text: Vec<char>,
    pub ink: Ink,
}

/// One drawn line of the list: where, which row, whether it is the
/// selected place, and its texts by column.
#[derive(Debug, Clone)]
pub struct PickerRow {
    pub y: u16,
    pub row: ListRow,
    pub selected: bool,
    pub cells: Vec<(u16, Vec<char>)>,
}

/// What the picker shows in an area: its box and footer, the texts, where
/// the text field and the selected place's details go, and the list.
#[derive(Debug, Clone)]
pub struct PickerPicture {
    pub frame: Rect,
    pub inner: Rect,
    pub footer: Vec<char>,
    pub strokes: Vec<Stroke>,
    /// Where the search field or the name being edited draws.
    pub field: Option<Rect>,
    /// Where the selected place's details draw, a divider `│` two columns
    /// to their left down the list's rows.
    pub detail: Option<Rect>,
    pub rows: Vec<PickerRow>,
}

/// The views of strokes.
pub open spec fn stroke_views(v: Seq<Stroke>) -> Seq<(u16, u16, Seq<char>, Ink)> {
    v.map_values(|s: Stroke| (s.x, s.y, s.text@, s.ink))
}

/// The views of cells.
pub open spec fn cell_views(v: Seq<(u16, Vec<char>)>) -> Seq<(u16, Seq<char>)> {
    v.map_values(|c: (u16, Vec<char>)| (c.0, c.1@))
}

/// The views of drawn lines.
pub open spec fn picker_row_views(v: Seq<PickerRow>) -> Seq<(u16, ListRow, bool, Seq<(u16, Seq<char>)>)> {
    v.map_values(|r: PickerRow| (r.y, r.row, r.selected, cell_views(r.cells@)))
}

/// The picker's box and its inside in `area`, unless either is too small
/// to draw in.
pub open spec fn picture_frame(area: Rect) -> Option<(Rect, Rect)> {
    let rr = picker_box(area);
    let i = inner_of(rr);
    if rr.width < 8 || rr.height < 5 || i.width == 0 || i.height == 0 { None } else { Some((rr, i)) }
}

/// The keys the footer names for a mode, fewer in a narrow box.
pub open spec fn footer_of(mode: ModeV, width: int) -> Seq<char> {
    match mode {
        ModeV::Browse => if width < 70 {
            "enter open \u{b7} F3 info \u{b7} F6 unmount \u{b7} esc close"@
        } else {
            "enter open \u{b7} F2 rename \u{b7} F3 info \u{b7} del remove \u{b7} F5 refresh \u{b7} F6 unmount \u{b7} esc close"@
        },
        ModeV::Details => "enter open \u{b7} esc back"@,
        ModeV::Edit { .. } => "enter save \u{b7} esc back"@,
        ModeV::ConfirmRemove { .. } => "y remove \u{b7} n keep"@,
        ModeV::ConfirmUnmount { .. } => "y unmount \u{b7} n keep"@,
    }
}

/// The name of the first place at `path`, or `volume`.
pub open spec fn name_at(items: Seq<PlaceItem>, path: Seq<char>) -> Seq<char>
    decreases items.len(),
{
    if items.len() == 0 {
        "volume"@
    } else if same_path(items[0].path@, path) {
        items[0].name@
    } else {
        name_at(items.drop_first(), path)
    }
}

/// The line under the search: the unmount under way, else the last error,
/// else that the worker is busy, else how to search.
pub open spec fn status_line(s: PlacesV, st: (Option<Seq<char>>, Seq<char>, Option<Seq<char>>)) -> (Seq<char>, Ink) {
    match st.0 {
        Some(u) => (st.1 + " Unmounting "@ + name_at(s.items, u) + "\u{2026}"@, Ink::Progress),
        None => match st.2 {
            Some(e) => (e, Ink::Error),
            None => if s.loading {
                ("Working with mounted locations\u{2026}"@, Ink::Dim)
            } else {
                ("Type to search names and paths"@, Ink::Dim)
            },
        },
    }
}

/// The texts of the picker other than the list.
pub open spec fn strokes_of(s: PlacesV, st: (Option<Seq<char>>, Seq<char>, Option<Seq<char>>), i: Rect) -> Seq<(u16, u16, Seq<char>, Ink)> {
    let w = i.width as int;
    match s.mode {
        ModeV::Details => Seq::empty(),
        ModeV::Edit { path, rename, error, .. } => {
            seq![(i.x, i.y, fitted(if rename { "RENAME BOOKMARK"@ } else { "BOOKMARK DIRECTORY"@ }, w), Ink::Accent)]
                + (if i.height > 1 { seq![(i.x, (i.y + 1) as u16, elided_middle(path, w), Ink::Dim)] } else { Seq::empty() })
                + (match error {
                Some(e) => if i.height > 4 { seq![(i.x, (i.y + 4) as u16, fitted(e, w), Ink::Error)] } else { Seq::empty() },
                None => Seq::empty(),
            })
        },
        ModeV::ConfirmRemove { path, name } => confirm_strokes(i, "REMOVE BOOKMARK?"@, name, path, "y remove"@),
        ModeV::ConfirmUnmount { path, name, .. } => confirm_strokes(i, "UNMOUNT VOLUME?"@, name, path, "y unmount"@),
        ModeV::Browse => {
            let list = list_box(i);
            let (status, ink) = status_line(s, st);
            seq![(i.x, i.y, fitted("Search:"@, w), Ink::Dim)]
                + (if i.height > 1 { seq![(i.x, (i.y + 1) as u16, fitted(status, w), ink)] } else { Seq::empty() })
                + (if rows_of(s.items, lowercase_of(s.search)).len() == 0 && list.height > 0 {
                seq![(list.x, list.y, fitted("No matching places"@, list.width as int), Ink::Dim)]
            } else {
                Seq::empty()
            }) + seq![(i.x, (i.y + i.height - 1) as u16, fitted("F2 edit  del remove  F5 scan  F6 unmount  F3 info"@, w), Ink::Dim)]
        },
    }
}

/// A confirmation's three lines: the question, the place, the answers.
pub open spec fn confirm_strokes(i: Rect, question: Seq<char>, name: Seq<char>, path: Seq<char>, yes: Seq<char>) -> Seq<(u16, u16, Seq<char>, Ink)> {
    let w = i.width as int;
    seq![(i.x, i.y, fitted(question, w), Ink::Error)]
        + (if i.height > 1 { seq![(i.x, (i.y + 1) as u16, fitted(name + "  "@ + path, w), Ink::Body)] } else { Seq::empty() })
        + (if i.height > 2 { seq![(i.x, (i.y + 2) as u16, fitted(yes + "   "@ + "n keep"@, w), Ink::Accent)] } else { Seq::empty() })
}

/// Where the text field draws: the search beside its label, the name being
/// edited on the fourth row.
pub open spec fn field_of(s: PlacesV, i: Rect) -> Option<Rect> {
    match s.mode {
        ModeV::Browse => if i.width > 8 {
            Some(Rect { x: (i.x + 8) as u16, y: i.y, width: (i.width - 8) as u16, height: 1 })
        } else {
            None
        },
        ModeV::Edit { .. } => if i.height > 3 { Some(Rect { x: i.x, y: (i.y + 3) as u16, width: i.width, height: 1 }) } else { None },
        _ => None,
    }
}

/// Where the selected place's details draw: the whole inside on the
/// details page; beside the list while browsing, when the list leaves room.
pub open spec fn detail_of(s: PlacesV, i: Rect) -> Option<Rect> {
    let list = list_box(i);
    match s.mode {
        ModeV::Details => Some(i),
        ModeV::Browse => if list.width < i.width {
            Some(Rect {
                x: (list.x + list.width + 2) as u16,
                y: (i.y + 2) as u16,
                width: (if i.width > list.width + 2 { i.width - list.width - 2 } else { 0 }) as u16,
                height: (if i.height > 3 { i.height - 3 } else { 0 }) as u16,
            })
        } else {
            None
        },
        _ => None,
    }
}

/// A heading's texts: the group's title, and over drives the column titles.
pub open spec fn heading_cells(l: Rect, g: PlaceGroup) -> Seq<(u16, Seq<char>)> {
    seq![(l.x, fitted(group_title(g), l.width as int))] + (if (g == PlaceGroup::Devices || g == PlaceGroup::Volumes) && l.width >= 44 {
        let off: int = if g == PlaceGroup::Devices { 32 } else { 22 };
        seq![((l.x + l.width - off) as u16, "CAPACITY"@), ((l.x + l.width - off + 10) as u16, "DEVICE"@)]
    } else {
        Seq::empty()
    })
}

/// A column, held inside the cell space.
pub open spec fn clipped(v: int) -> u16 {
    if v > u16::MAX { u16::MAX } else { v as u16 }
}

fn clip(v: u32) -> (r: u16)
    ensures
        r == clipped(v as int),
{
    if v > 65535 { 65535 } else { v as u16 }
}

/// A place's texts: the `> ` marker when selected; a drive's name,
/// capacity and device, or another place's name and path; and `[unmount]`,
/// or `[ busy ]` while it unmounts, when it can be unmounted and there is
/// room.
pub open spec fn item_cells(l: Rect, item: PlaceItem, selected: bool, unmounting: Option<Seq<char>>) -> Seq<(u16, Seq<char>)> {
    let has_unmount = item.unmount_source is Some && l.width >= 20;
    let cw: int = l.width - (if has_unmount { 10int } else { 0int });
    let main = match item.info {
        Some(info) => {
            let nw: int = if cw > 24 { cw - 24 } else { 0 };
            let cap = match info.capacity {
                Some(c) => crate::panels::preview::size_text(c as nat),
                None => "\u{2014}"@,
            };
            seq![
                (clipped(l.x + 2), fitted(item.name@, nw)),
                (clipped(l.x + 2 + nw), fitted(cap, 10)),
                (clipped(l.x + 2 + nw + 10), elided_middle(info.source@, 12)),
            ]
        },
        None => {
            let av: int = if cw > 2 { cw - 2 } else { 0 };
            let third: int = if av / 3 > 14 { av / 3 } else { 14 };
            let nw: int = if av < third { av } else { third };
            let pw: int = if cw > 2 + nw { cw - 2 - nw } else { 0 };
            seq![(clipped(l.x + 2), fitted(item.name@, nw))] + (if pw > 0 {
                seq![(clipped(l.x + 2 + nw), elided_middle(item.path@, pw))]
            } else {
                Seq::empty()
            })
        },
    };
    seq![(l.x, if selected { "> "@ } else { "  "@ })] + main + (if has_unmount {
        seq![((l.x + l.width - 9) as u16, if (unmounting matches Some(u) && same_path(u, item.path@)) { "[ busy ]"@ } else { "[unmount]"@ })]
    } else {
        Seq::empty()
    })
}

/// The row of the list the selected place is on.
pub open spec fn selected_row(s: PlacesV, rows: Seq<ListRow>) -> Option<int> {
    match selected_index(s) {
        Some(i) => row_of(rows, s.items, i, 0),
        None => None,
    }
}

/// How many lines of the list are drawn: the rows from the scroll on, as
/// many as the list is high.
pub open spec fn drawn_count(rows: Seq<ListRow>, scroll: int, height: int) -> int {
    let left = if rows.len() > scroll { rows.len() - scroll } else { 0 };
    if left < height { left } else { height }
}

/// The list's drawn lines, from the scroll on.
pub open spec fn rows_picture(s: PlacesV, st: (Option<Seq<char>>, Seq<char>, Option<Seq<char>>), i: Rect) -> Seq<(u16, ListRow, bool, Seq<(u16, Seq<char>)>)> {
    match s.mode {
        ModeV::Browse => {
            let l = list_box(i);
            let rows = rows_of(s.items, lowercase_of(s.search));
            let sel = selected_row(s, rows);
            Seq::new(drawn_count(rows, s.scroll, l.height as int) as nat, |k: int| {
                let row = rows[s.scroll + k];
                let selected = sel == Some(s.scroll + k);
                (
                    (l.y + k) as u16,
                    row,
                    selected,
                    match row {
                        ListRow::Heading(g) => heading_cells(l, g),
                        ListRow::Item(n) => item_cells(l, s.items[n as int], selected, st.0),
                    },
                )
            })
        },
        _ => Seq::empty(),
    }
}

/// A click on a drawn line of the list lands on the place that line shows:
/// it selects that place and opens it, or, on its `[unmount]`, selects it
/// and asks to unmount it.
pub proof fn law_a_click_lands_on_the_row_drawn_there(s: PlacesV, st: (Option<Seq<char>>, Seq<char>, Option<Seq<char>>), area: Rect, k: int, x: int)
    requires
        area.in_range(),
        s.mode == ModeV::Browse,
        s.scroll >= 0,
        picture_frame(area) matches Some((rr, i)) && {
            let l = list_box(i);
            &&& 0 <= k < rows_picture(s, st, i).len()
            &&& l.x <= x < l.x + l.width
        },
        rows_of(s.items, lowercase_of(s.search))[s.scroll + k] is Item,
    ensures
        ({
            let (rr, i) = picture_frame(area)->0;
            let l = list_box(i);
            let line = rows_picture(s, st, i)[k];
            let n = line.1->Item_0 as int;
            let sel = match crate::text::first_index(filtered(s), n) {
                Some(j) => j,
                None => s.selected,
            };
            &&& line.1 == rows_of(s.items, lowercase_of(s.search))[s.scroll + k]
            &&& click_step(s, x, line.0 as int, area) == (if s.items[n].unmount_source is Some && l.width >= 20
                && x >= l.x + l.width - 9 {
                (unmount_step(select(s, sel)), PlaceActionV::Consumed)
            } else {
                (select(s, sel), PlaceActionV::Open(s.items[n].path@))
            })
        }),
{
    let (rr, i) = picture_frame(area)->0;
    let l = list_box(i);
    let rows = rows_of(s.items, lowercase_of(s.search));
    let line = rows_picture(s, st, i)[k];
    assert(line.0 == (l.y + k) as u16);
    assert(line.1 == rows[s.scroll + k]);
    assert(rr.holds(x, line.0 as int));
    assert(l.holds(x, line.0 as int));
}


fn join_chars(a: &[char], b: &[char]) -> (out: Vec<char>)
    ensures
        out@ == a@ + b@,
{
    let mut out = copy_range(a, 0, a.len());
    let mut k: usize = 0;
    let ghost front = out@;
    while k < b.len()
        invariant
            k <= b@.len(),
            out@ == front + b@.take(k as int),
            front == a@.subrange(0, a@.len() as int),
        decreases b@.len() - k,
    {
        out.push(b[k]);
        assert(b@.take(k + 1) =~= b@.take(k as int).push(b@[k as int]));
        k = k + 1;
    }
    assert(b@.take(b@.len() as int) =~= b@);
    assert(a@.subrange(0, a@.len() as int) =~= a@);
    out
}

fn name_at_exec(items: &Vec<PlaceItem>, path: &[char]) -> (r: Vec<char>)
    ensures
        r@ == name_at(items@, path@),
{
    let mut j: usize = 0;
    assert(items@.skip(0) =~= items@);
    while j < items.len()
        invariant
            j <= items@.len(),
            name_at(items@, path@) == name_at(items@.skip(j as int), path@),
        decreases items@.len() - j,
    {
        assert(items@.skip(j as int)[0] == items@[j as int]);
        assert(items@.skip(j as int).drop_first() =~= items@.skip(j + 1));
        let p = path_of(&items[j]);
        if path_eq(p.as_slice(), path) {
            return chars_of(items[j].name.as_str());
        }
        j = j + 1;
    }
    assert(items@.skip(j as int).len() == 0);
    chars_of("volume")
}

fn cells_push(out: &mut Vec<(u16, Vec<char>)>, x: u16, text: Vec<char>)
    ensures
        cell_views(final(out)@) == cell_views(old(out)@).push((x, text@)),
{
    out.push((x, text));
    assert(cell_views(final(out)@) =~= cell_views(old(out)@).push((x, text@)));
}

fn heading_cells_exec(l: Rect, g: PlaceGroup) -> (r: Vec<(u16, Vec<char>)>)
    requires
        l.x + l.width <= u16::MAX,
    ensures
        cell_views(r@) == heading_cells(l, g),
{
    let mut r: Vec<(u16, Vec<char>)> = Vec::new();
    let t = chars_of(g.title());
    cells_push(&mut r, l.x, fit(t.as_slice(), l.width));
    let drive = match g {
        PlaceGroup::Devices => true,
        PlaceGroup::Volumes => true,
        _ => false,
    };
    if drive && l.width >= 44 {
        let off: u16 = match g {
            PlaceGroup::Devices => 32,
            _ => 22,
        };
        cells_push(&mut r, l.x + l.width - off, chars_of("CAPACITY"));
        cells_push(&mut r, l.x + l.width - off + 10, chars_of("DEVICE"));
    }
    assert(cell_views(r@) =~= heading_cells(l, g));
    r
}

fn item_cells_exec(l: Rect, item: &PlaceItem, selected: bool, unmounting: &Option<String>) -> (r: Vec<(u16, Vec<char>)>)
    requires
        l.x + l.width <= u16::MAX,
    ensures
        cell_views(r@) == item_cells(l, *item, selected, opt_view(*unmounting)),
{
    let mut r: Vec<(u16, Vec<char>)> = Vec::new();
    cells_push(&mut r, l.x, if selected { chars_of("> ") } else { chars_of("  ") });
    let ghost first = cell_views(r@);
    let has_unmount = item.unmount_source.is_some() && l.width >= 20;
    let cw: u16 = l.width - if has_unmount { 10 } else { 0 };
    let name = chars_of(item.name.as_str());
    match &item.info {
        Some(info) => {
            let nw: u16 = if cw > 24 { cw - 24 } else { 0 };
            let cap = match info.capacity {
                Some(c) => chars_of(crate::panels::preview::size(c).as_str()),
                None => chars_of("\u{2014}"),
            };
            let src = chars_of(info.source.as_str());
            cells_push(&mut r, clip(l.x as u32 + 2), fit(name.as_slice(), nw));
            cells_push(&mut r, clip(l.x as u32 + 2 + nw as u32), fit(cap.as_slice(), 10));
            cells_push(&mut r, clip(l.x as u32 + 2 + nw as u32 + 10), crate::panels::elide_middle(src.as_slice(), 12));
        },
        None => {
            let av: u16 = if cw > 2 { cw - 2 } else { 0 };
            let third: u16 = if av / 3 > 14 { av / 3 } else { 14 };
            let nw: u16 = if av < third { av } else { third };
            let pw: u16 = if cw > 2 + nw { cw - 2 - nw } else { 0 };
            cells_push(&mut r, clip(l.x as u32 + 2), fit(name.as_slice(), nw));
            if pw > 0 {
                let path = path_of(item);
                cells_push(&mut r, clip(l.x as u32 + 2 + nw as u32), crate::panels::elide_middle(path.as_slice(), pw));
            }
        },
    }
    if has_unmount {
        let busy = match unmounting {
            Some(u) => {
                let uc = chars_of(u.as_str());
                let p = path_of(item);
                path_eq(uc.as_slice(), p.as_slice())
            },
            None => false,
        };
        cells_push(&mut r, l.x + l.width - 9, if busy { chars_of("[ busy ]") } else { chars_of("[unmount]") });
    }
    assert(cell_views(r@) =~= item_cells(l, *item, selected, opt_view(*unmounting)));
    r
}

fn strokes_push(out: &mut Vec<Stroke>, x: u16, y: u16, text: Vec<char>, ink: Ink)
    ensures
        stroke_views(final(out)@) == stroke_views(old(out)@).push((x, y, text@, ink)),
{
    out.push(Stroke { x, y, text, ink });
    assert(stroke_views(final(out)@) =~= stroke_views(old(out)@).push((x, y, text@, ink)));
}

fn confirm_strokes_exec(i: Rect, question: &str, name: &String, path: &String, yes: &str) -> (r: Vec<Stroke>)
    requires
        i.y + i.height <= u16::MAX,
    ensures
        stroke_views(r@) == confirm_strokes(i, question@, name@, path@, yes@),
{
    let mut r: Vec<Stroke> = Vec::new();
    strokes_push(&mut r, i.x, i.y, fit(chars_of(question).as_slice(), i.width), Ink::Error);
    if i.height > 1 {
        let mut t = chars_of(name.as_str());
        push_str(&mut t, "  ");
        let t2 = join_chars(t.as_slice(), chars_of(path.as_str()).as_slice());
        strokes_push(&mut r, i.x, i.y + 1, fit(t2.as_slice(), i.width), Ink::Body);
    }
    if i.height > 2 {
        let mut a = chars_of(yes);
        push_str(&mut a, "   ");
        push_str(&mut a, "n keep");
        strokes_push(&mut r, i.x, i.y + 2, fit(a.as_slice(), i.width), Ink::Accent);
    }
    assert(stroke_views(r@) =~= confirm_strokes(i, question@, name@, path@, yes@));
    r
}


impl Places {
    fn status_line_exec(&self) -> (r: (Vec<char>, Ink))
        ensures
            r.0@ == status_line(self.state(), self.status_view()).0,
            r.1 == status_line(self.state(), self.status_view()).1,
    {
        match &self.unmounting {
            Some(u) => {
                let mut t = chars_of(self.spinner);
                push_str(&mut t, " Unmounting ");
                let n = name_at_exec(&self.items, chars_of(u.as_str()).as_slice());
                let mut t2 = join_chars(t.as_slice(), n.as_slice());
                push_str(&mut t2, "\u{2026}");
                (t2, Ink::Progress)
            },
            None => match &self.error {
                Some(e) => (chars_of(e.as_str()), Ink::Error),
                None => if self.loading {
                    (chars_of("Working with mounted locations\u{2026}"), Ink::Dim)
                } else {
                    (chars_of("Type to search names and paths"), Ink::Dim)
                },
            },
        }
    }

    fn footer_exec(&self, width: u16) -> (r: Vec<char>)
        ensures
            r@ == footer_of(self.state().mode, width as int),
    {
        match &self.mode {
            Mode::Browse => if width < 70 {
                chars_of("enter open \u{b7} F3 info \u{b7} F6 unmount \u{b7} esc close")
            } else {
                chars_of("enter open \u{b7} F2 rename \u{b7} F3 info \u{b7} del remove \u{b7} F5 refresh \u{b7} F6 unmount \u{b7} esc close")
            },
            Mode::Details => chars_of("enter open \u{b7} esc back"),
            Mode::Edit { .. } => chars_of("enter save \u{b7} esc back"),
            Mode::ConfirmRemove { .. } => chars_of("y remove \u{b7} n keep"),
            Mode::ConfirmUnmount { .. } => chars_of("y unmount \u{b7} n keep"),
        }
    }

    /// The list's drawn lines.
    fn drawn_rows(&self, rows: &Vec<ListRow>, list: Rect, i: Rect) -> (r: Vec<PickerRow>)
        requires
            self.state().mode == ModeV::Browse,
            list == list_box(i),
            rows@ == rows_of(self.state().items, lowercase_of(self.state().search)),
            list.x + list.width <= u16::MAX,
            list.y + list.height <= u16::MAX,
        ensures
            picker_row_views(r@) == rows_picture(self.state(), self.status_view(), i),
    {
        let ghost s = self.state();
        let ghost want = rows_picture(s, self.status_view(), i);
        let sel: Option<usize> = match self.selected_item() {
            Some(n) => find_row(rows, &self.items, n),
            None => None,
        };
        assert(match sel { Some(a) => selected_row(s, rows@) == Some(a as int), None => selected_row(s, rows@) is None });
        let left: usize = if rows.len() > self.scroll { rows.len() - self.scroll } else { 0 };
        let count: usize = if left < list.height as usize { left } else { list.height as usize };
        assert(count == drawn_count(rows@, s.scroll, list.height as int));
        let n_items = self.items.len();
        let n_rows = rows.len();
        proof {
            lemma_rows_in_range(s.items, lowercase_of(s.search));
        }
        let mut out: Vec<PickerRow> = Vec::new();
        let mut k: usize = 0;
        while k < count
            invariant
                s == self.state(),
                want == rows_picture(s, self.status_view(), i),
                s.mode == ModeV::Browse,
                list == list_box(i),
                rows@ == rows_of(s.items, lowercase_of(s.search)),
                list.x + list.width <= u16::MAX,
                list.y + list.height <= u16::MAX,
                count == drawn_count(rows@, s.scroll, list.height as int),
                count <= list.height,
                count > 0 ==> self.scroll + count <= rows@.len(),
                n_rows == rows@.len(),
                match sel { Some(a) => selected_row(s, rows@) == Some(a as int), None => selected_row(s, rows@) is None },
                forall|r: int| 0 <= r < rows@.len() ==> (#[trigger] rows@[r] matches ListRow::Item(q) ==> q < s.items.len()),
                k <= count,
                picker_row_views(out@) == want.take(k as int),
            decreases count - k,
        {
            let at = self.scroll + k;
            let row = rows[at];
            let selected = match sel {
                Some(a) => a == at,
                None => false,
            };
            let cells = match row {
                ListRow::Heading(g) => heading_cells_exec(list, g),
                ListRow::Item(n) => item_cells_exec(list, &self.items[n], selected, &self.unmounting),
            };
            let y: u16 = list.y + k as u16;
            out.push(PickerRow { y, row, selected, cells });
            proof {
                assert(want[k as int].0 == y);
                assert(want.take(k + 1) =~= want.take(k as int).push(want[k as int]));
                assert(picker_row_views(out@) =~= picker_row_views(out@.drop_last()).push(picker_row_views(out@)[k as int]));
            }
            k = k + 1;
        }
        assert(want.take(count as int) =~= want);
        out
    }

    /// What the picker shows in `area`. Browsing, the selected place is
    /// first scrolled into view, as drawing the list does.
    pub fn picture(&mut self, area: Rect) -> (r: Option<PickerPicture>)
        requires
            old(self).wf(),
            area.in_range(),
        ensures
            final(self).wf(),
            final(self).status_view() == old(self).status_view(),
            match picture_frame(area) {
                None => r is None && final(self).state() == old(self).state(),
                Some((rr, i)) => {
                    &&& final(self).state() == (if old(self).state().mode == ModeV::Browse {
                        PlacesV {
                            scroll: visible_scroll(old(self).state(), rows_of(old(self).state().items,
                                lowercase_of(old(self).state().search)), list_box(i).height as int),
                            ..old(self).state()
                        }
                    } else {
                        old(self).state()
                    })
                    &&& r matches Some(p) && {
                        &&& p.frame == rr
                        &&& p.inner == i
                        &&& p.footer@ == footer_of(final(self).state().mode, rr.width as int)
                        &&& stroke_views(p.strokes@) == strokes_of(final(self).state(), final(self).status_view(), i)
                        &&& p.field == field_of(final(self).state(), i)
                        &&& p.detail == detail_of(final(self).state(), i)
                        &&& picker_row_views(p.rows@) == rows_picture(final(self).state(), final(self).status_view(), i)
                    }
                },
            },
    {
        let rr = rect(area);
        let i = inner(rr);
        if rr.width < 8 || rr.height < 5 || i.width == 0 || i.height == 0 {
            return None;
        }
        let footer = self.footer_exec(rr.width);
        let ghost s0 = self.state();
        match &self.mode {
            Mode::Details => {
                let p = PickerPicture { frame: rr, inner: i, footer, strokes: Vec::new(), field: None, detail: Some(i), rows: Vec::new() };
                assert(stroke_views(p.strokes@) =~= strokes_of(s0, self.status_view(), i));
                assert(picker_row_views(p.rows@) =~= rows_picture(s0, self.status_view(), i));
                return Some(p);
            },
            Mode::Edit { path, rename, error, .. } => {
                let mut st: Vec<Stroke> = Vec::new();
                let label = if *rename { chars_of("RENAME BOOKMARK") } else { chars_of("BOOKMARK DIRECTORY") };
                strokes_push(&mut st, i.x, i.y, fit(label.as_slice(), i.width), Ink::Accent);
                if i.height > 1 {
                    strokes_push(&mut st, i.x, i.y + 1, elide_middle(chars_of(path.as_str()).as_slice(), i.width), Ink::Dim);
                }
                match error {
                    Some(e) => if i.height > 4 {
                        strokes_push(&mut st, i.x, i.y + 4, fit(chars_of(e).as_slice(), i.width), Ink::Error);
                    },
                    None => {},
                }
                let field = if i.height > 3 { Some(Rect { x: i.x, y: i.y + 3, width: i.width, height: 1 }) } else { None };
                let p = PickerPicture { frame: rr, inner: i, footer, strokes: st, field, detail: None, rows: Vec::new() };
                assert(stroke_views(p.strokes@) =~= strokes_of(s0, self.status_view(), i));
                assert(picker_row_views(p.rows@) =~= rows_picture(s0, self.status_view(), i));
                return Some(p);
            },
            Mode::ConfirmRemove { path, name } => {
                let st = confirm_strokes_exec(i, "REMOVE BOOKMARK?", name, path, "y remove");
                let p = PickerPicture { frame: rr, inner: i, footer, strokes: st, field: None, detail: None, rows: Vec::new() };
                assert(picker_row_views(p.rows@) =~= rows_picture(s0, self.status_view(), i));
                return Some(p);
            },
            Mode::ConfirmUnmount { path, name, .. } => {
                let st = confirm_strokes_exec(i, "UNMOUNT VOLUME?", name, path, "y unmount");
                let p = PickerPicture { frame: rr, inner: i, footer, strokes: st, field: None, detail: None, rows: Vec::new() };
                assert(picker_row_views(p.rows@) =~= rows_picture(s0, self.status_view(), i));
                return Some(p);
            },
            Mode::Browse => {},
        }
        let rows = self.rows();
        let list = Places::list_rect(i);
        self.keep_selected_visible(&rows, list.height as usize);
        let ghost s = self.state();
        let mut st: Vec<Stroke> = Vec::new();
        strokes_push(&mut st, i.x, i.y, fit(chars_of("Search:").as_slice(), i.width), Ink::Dim);
        if i.height > 1 {
            let (text, ink) = self.status_line_exec();
            strokes_push(&mut st, i.x, i.y + 1, fit(text.as_slice(), i.width), ink);
        }
        if rows.len() == 0 && list.height > 0 {
            strokes_push(&mut st, list.x, list.y, fit(chars_of("No matching places").as_slice(), list.width), Ink::Dim);
        }
        strokes_push(&mut st, i.x, i.y + i.height - 1,
            fit(chars_of("F2 edit  del remove  F5 scan  F6 unmount  F3 info").as_slice(), i.width), Ink::Dim);
        assert(stroke_views(st@) =~= strokes_of(s, self.status_view(), i));
        let field = if i.width > 8 { Some(Rect { x: i.x + 8, y: i.y, width: i.width - 8, height: 1 }) } else { None };
        let detail = if list.width < i.width {
            Some(Rect {
                x: list.x + list.width + 2,
                y: i.y + 2,
                width: if i.width > list.width + 2 { i.width - list.width - 2 } else { 0 },
                height: if i.height > 3 { i.height - 3 } else { 0 },
            })
        } else {
            None
        };
        let drawn = self.drawn_rows(&rows, list, i);
        Some(PickerPicture { frame: rr, inner: i, footer, strokes: st, field, detail, rows: drawn })
    }
}


/// The search ignores case: a place is in the filtered list exactly when
/// the search is empty, or its name or its path, lower-cased, holds the
/// search lower-cased.
pub proof fn law_the_search_ignores_case(s: PlacesV, i: int)
    requires
        0 <= i < s.items.len(),
    ensures
        filtered(s).contains(i) <==> (lowercase_of(s.search).len() == 0
            || occurs(lowercase_of(s.items[i].name@), lowercase_of(s.search))
            || occurs(lowercase_of(s.items[i].path@), lowercase_of(s.search))),
{
    law_the_search_keeps_what_matches(s.items, lowercase_of(s.search), i);
}

} // verus!
