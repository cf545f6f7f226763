//! How many terminal columns text takes, and where it may be cut. Text is
//! cut only between grapheme clusters, so a wide character or a letter with
//! its accents is kept or dropped whole.
use vstd::prelude::*;
use unicode_segmentation::UnicodeSegmentation;
use unicode_width::UnicodeWidthStr;
use crate::text::row_views;

verus! {

/// The extended grapheme clusters of a text, as `unicode-segmentation`
/// splits it.
pub uninterp spec fn grapheme_clusters(text: Seq<char>) -> Seq<Seq<char>>;

/// The columns a text takes on a terminal, as `unicode-width` measures it.
pub uninterp spec fn text_columns(text: Seq<char>) -> nat;

/// The extended grapheme clusters of `text`.
///
/// Trusted: calls `UnicodeSegmentation::graphemes(text, true)`; claims that
/// the clusters come back in order as [`grapheme_clusters`] names them, that
/// none is empty, and that together they are the text.
#[verifier::external_body]
pub(crate) fn clusters(text: &[char]) -> (r: Vec<Vec<char>>)
    ensures
        row_views(r@) == grapheme_clusters(text@),
        concat_all(row_views(r@)) == text@,
        forall|k: int| 0 <= k < r@.len() ==> (#[trigger] r@[k])@.len() > 0,
{
    let s: String = text.iter().collect();
    s.graphemes(true).map(|g| g.chars().collect()).collect()
}

/// The columns `text` takes.
///
/// Trusted: calls `UnicodeWidthStr::width`; claims that the result is what
/// [`text_columns`] names, and that printable ASCII takes one column a
/// character.
#[verifier::external_body]
pub fn width_of(text: &[char]) -> (w: usize)
    ensures
        w == text_columns(text@),
        printable_ascii(text@) ==> w == text@.len(),
{
    let s: String = text.iter().collect();
    s.width()
}

/// Whether every character of `t` is printable ASCII, a space to `~`.
pub open spec fn printable_ascii(t: Seq<char>) -> bool {
    forall|k: int| 0 <= k < t.len() ==> ' ' <= #[trigger] t[k] && t[k] <= '~'
}

/// The texts of `cs` one after another.
pub open spec fn concat_all(cs: Seq<Seq<char>>) -> Seq<char>
    decreases cs.len(),
{
    if cs.len() == 0 { Seq::empty() } else { concat_all(cs.drop_last()) + cs.last() }
}

/// The columns of the clusters `cs` together.
pub open spec fn cells(cs: Seq<Seq<char>>) -> int
    decreases cs.len(),
{
    if cs.len() == 0 { 0 } else { cells(cs.drop_last()) + text_columns(cs.last()) }
}

/// The clusters from the front of `cs` that fit in `room` columns; the
/// first one that does not fit ends them.
pub open spec fn front_fitting(cs: Seq<Seq<char>>, room: int) -> Seq<Seq<char>>
    decreases cs.len(),
{
    if cs.len() == 0 || text_columns(cs[0]) > room {
        Seq::empty()
    } else {
        seq![cs[0]] + front_fitting(cs.drop_first(), room - text_columns(cs[0]))
    }
}

/// The clusters from the back of `cs` that fit in `room` columns; the
/// first one that does not fit ends them.
pub open spec fn back_fitting(cs: Seq<Seq<char>>, room: int) -> Seq<Seq<char>>
    decreases cs.len(),
{
    if cs.len() == 0 || text_columns(cs.last()) > room {
        Seq::empty()
    } else {
        back_fitting(cs.drop_last(), room - text_columns(cs.last())).push(cs.last())
    }
}

proof fn lemma_concat_push(cs: Seq<Seq<char>>, c: Seq<char>)
    ensures
        concat_all(cs.push(c)) == concat_all(cs) + c,
{
    assert(cs.push(c).drop_last() =~= cs);
}

proof fn lemma_cells_push(cs: Seq<Seq<char>>, c: Seq<char>)
    ensures
        cells(cs.push(c)) == cells(cs) + text_columns(c),
{
    assert(cs.push(c).drop_last() =~= cs);
}

proof fn lemma_cells_prepend(c: Seq<char>, cs: Seq<Seq<char>>)
    ensures
        cells(seq![c] + cs) == text_columns(c) + cells(cs),
    decreases cs.len(),
{
    if cs.len() == 0 {
        assert(seq![c] + cs =~= seq![c]);
        assert(seq![c].drop_last() =~= Seq::<Seq<char>>::empty());
        assert(seq![c].last() == c);
        assert(cells(Seq::<Seq<char>>::empty()) == 0);
    } else {
        lemma_cells_prepend(c, cs.drop_last());
        assert((seq![c] + cs).drop_last() =~= seq![c] + cs.drop_last());
    }
}

/// What fits from the front never takes more than the room.
pub proof fn lemma_front_fitting_fits(cs: Seq<Seq<char>>, room: int)
    requires
        room >= 0,
    ensures
        cells(front_fitting(cs, room)) <= room,
    decreases cs.len(),
{
    if cs.len() == 0 || text_columns(cs[0]) > room {
    } else {
        lemma_front_fitting_fits(cs.drop_first(), room - text_columns(cs[0]));
        lemma_cells_prepend(cs[0], front_fitting(cs.drop_first(), room - text_columns(cs[0])));
    }
}

/// What fits from the back never takes more than the room.
pub proof fn lemma_back_fitting_fits(cs: Seq<Seq<char>>, room: int)
    requires
        room >= 0,
    ensures
        cells(back_fitting(cs, room)) <= room,
    decreases cs.len(),
{
    if cs.len() == 0 || text_columns(cs.last()) > room {
    } else {
        lemma_back_fitting_fits(cs.drop_last(), room - text_columns(cs.last()));
        lemma_cells_push(back_fitting(cs.drop_last(), room - text_columns(cs.last())), cs.last());
    }
}


proof fn lemma_concat_append(a: Seq<Seq<char>>, b: Seq<Seq<char>>)
    ensures
        concat_all(a + b) == concat_all(a) + concat_all(b),
    decreases b.len(),
{
    if b.len() == 0 {
        assert(a + b =~= a);
        assert(concat_all(a) + Seq::<char>::empty() =~= concat_all(a));
    } else {
        lemma_concat_append(a, b.drop_last());
        assert((a + b).drop_last() =~= a + b.drop_last());
        assert((a + b).last() == b.last());
        assert(concat_all(a) + concat_all(b.drop_last()) + b.last() =~= concat_all(a) + (concat_all(b.drop_last()) + b.last()));
    }
}

/// The texts of `cs[from..to]` one after another.
fn concat_range(cs: &Vec<Vec<char>>, from: usize, to: usize) -> (out: Vec<char>)
    requires
        from <= to <= cs@.len(),
    ensures
        out@ == concat_all(row_views(cs@).subrange(from as int, to as int)),
{
    let ghost v = row_views(cs@);
    let mut out: Vec<char> = Vec::new();
    let mut i: usize = from;
    assert(v.subrange(from as int, from as int) =~= Seq::<Seq<char>>::empty());
    while i < to
        invariant
            from <= i <= to <= cs@.len(),
            v == row_views(cs@),
            out@ == concat_all(v.subrange(from as int, i as int)),
        decreases to - i,
    {
        let c = &cs[i];
        let ghost before = out@;
        let mut k: usize = 0;
        while k < c.len()
            invariant
                k <= c@.len(),
                out@ == before + c@.take(k as int),
            decreases c@.len() - k,
        {
            out.push(c[k]);
            assert(c@.take(k + 1) =~= c@.take(k as int).push(c@[k as int]));
            k = k + 1;
        }
        assert(c@.take(c@.len() as int) =~= c@);
        proof {
            assert(v.subrange(from as int, i + 1) =~= v.subrange(from as int, i as int).push(v[i as int]));
            lemma_concat_push(v.subrange(from as int, i as int), v[i as int]);
        }
        i = i + 1;
    }
    out
}

/// How many clusters from the front of `cs` fit in `room`.
pub fn front_count(cs: &Vec<Vec<char>>, room: usize) -> (n: usize)
    ensures
        n == front_fitting(row_views(cs@), room as int).len(),
        front_fitting(row_views(cs@), room as int).len() <= cs@.len(),
        front_fitting(row_views(cs@), room as int) == row_views(cs@).take(front_fitting(row_views(cs@), room as int).len() as int),
        forall|k: int| 0 <= k < front_fitting(row_views(cs@), room as int).len() ==> (printable_ascii(
            #[trigger] row_views(cs@)[k]) ==> text_columns(row_views(cs@)[k]) == row_views(cs@)[k].len()),
{
    let ghost v = row_views(cs@);
    let mut i: usize = 0;
    let mut used: usize = 0;
    assert(v.skip(0) =~= v);
    assert(v.take(0) + front_fitting(v, room as int) =~= front_fitting(v, room as int));
    while i < cs.len()
        invariant_except_break
            i <= cs@.len(),
            used <= room,
            v == row_views(cs@),
            front_fitting(v, room as int) == v.take(i as int) + front_fitting(v.skip(i as int), room - used),
            forall|k: int| 0 <= k < i ==> (printable_ascii(#[trigger] v[k]) ==> text_columns(v[k]) == v[k].len()),
        ensures
            i <= cs@.len(),
            front_fitting(v, room as int) == v.take(i as int),
            forall|k: int| 0 <= k < i ==> (printable_ascii(#[trigger] v[k]) ==> text_columns(v[k]) == v[k].len()),
        decreases cs@.len() - i,
    {
        let w = width_of(cs[i].as_slice());
        if w > room - used {
            proof {
                assert(v.skip(i as int)[0] == v[i as int]);
                assert(v.take(i as int) + Seq::<Seq<char>>::empty() =~= v.take(i as int));
            }
            break;
        }
        proof {
            let s = v.skip(i as int);
            assert(s[0] == v[i as int]);
            assert(s.drop_first() =~= v.skip(i + 1));
            assert(v.take(i + 1) =~= v.take(i as int) + seq![v[i as int]]);
            assert(v.take(i as int) + (seq![v[i as int]] + front_fitting(v.skip(i + 1), room - used - w))
                =~= v.take(i + 1) + front_fitting(v.skip(i + 1), room - (used + w)));
        }
        used = used + w;
        i = i + 1;
    }
    proof {
        assert(front_fitting(v, room as int).len() == i);
        if i == cs.len() {
            assert(v.skip(i as int) =~= Seq::<Seq<char>>::empty());
            assert(v.take(i as int) + Seq::<Seq<char>>::empty() =~= v.take(i as int));
        }
        assert(v.take(i as int) =~= v.subrange(0, i as int));
    }
    i
}

/// The text of the clusters from the front of `cs` that fit in `room`.
pub fn front_fit(cs: &Vec<Vec<char>>, room: usize) -> (out: Vec<char>)
    ensures
        out@ == concat_all(front_fitting(row_views(cs@), room as int)),
{
    let n = front_count(cs, room);
    assert(row_views(cs@).take(n as int) =~= row_views(cs@).subrange(0, n as int));
    concat_range(cs, 0, n)
}

/// The first `n` clusters of `cs`, fewer while together they measure wider
/// than `room`: what is kept never measures wider, whatever the clusters'
/// own widths add up to.
pub open spec fn trimmed(cs: Seq<Seq<char>>, n: int, room: int) -> Seq<Seq<char>>
    decreases n,
{
    if n <= 0 {
        Seq::empty()
    } else if text_columns(concat_all(cs.take(n))) <= room {
        cs.take(n)
    } else {
        trimmed(cs, n - 1, room)
    }
}

/// What [`trimmed`] keeps, unless it keeps nothing, measures no wider than
/// the room.
pub proof fn lemma_trimmed_fits(cs: Seq<Seq<char>>, n: int, room: int)
    ensures
        trimmed(cs, n, room).len() > 0 ==> text_columns(concat_all(trimmed(cs, n, room))) <= room,
        0 <= n <= cs.len() ==> exists|k: int| 0 <= k <= n && #[trigger] trimmed(cs, n, room) == cs.take(k),
    decreases n,
{
    if n <= 0 {
        if 0 <= n {
            assert(cs.take(0) =~= Seq::<Seq<char>>::empty());
            assert(trimmed(cs, n, room) == cs.take(0));
        }
    } else if text_columns(concat_all(cs.take(n))) <= room {
    } else {
        lemma_trimmed_fits(cs, n - 1, room);
        if n <= cs.len() {
            let k = choose|k: int| 0 <= k <= n - 1 && #[trigger] trimmed(cs, n - 1, room) == cs.take(k);
            assert(trimmed(cs, n, room) == cs.take(k));
        }
    }
}

/// The first `n` clusters of `cs`, trimmed until they measure no wider
/// than `room`.
pub fn trim_fit(cs: &Vec<Vec<char>>, n: usize, room: usize) -> (out: Vec<char>)
    requires
        n <= cs@.len(),
    ensures
        out@ == concat_all(trimmed(row_views(cs@), n as int, room as int)),
        text_columns(out@) <= room,
{
    let ghost v = row_views(cs@);
    let mut k: usize = n;
    while k > 0
        invariant
            k <= n <= cs@.len(),
            v == row_views(cs@),
            trimmed(v, n as int, room as int) == trimmed(v, k as int, room as int),
        decreases k,
    {
        let out = concat_range(cs, 0, k);
        assert(v.subrange(0, k as int) =~= v.take(k as int));
        let w = width_of(out.as_slice());
        if w <= room {
            return out;
        }
        k = k - 1;
    }
    let out: Vec<char> = Vec::new();
    assert(concat_all(Seq::<Seq<char>>::empty()) == out@);
    let w = width_of(out.as_slice());
    assert(printable_ascii(out@));
    out
}

/// A text of printable ASCII keeps printing as ASCII whatever prefix of its
/// clusters is kept.
pub proof fn lemma_printable_prefix(cs: Seq<Seq<char>>, i: int)
    requires
        0 <= i <= cs.len(),
        printable_ascii(concat_all(cs)),
    ensures
        printable_ascii(concat_all(cs.take(i))),
{
    assert(cs =~= cs.take(i) + cs.skip(i));
    lemma_concat_append(cs.take(i), cs.skip(i));
    let t = concat_all(cs);
    let a = concat_all(cs.take(i));
    assert forall|k: int| 0 <= k < a.len() implies ' ' <= #[trigger] a[k] && a[k] <= '~' by {
        assert(t[k] == a[k]);
    }
}

/// The text of the clusters from the back of `cs` that fit in `room`.
pub fn back_fit(cs: &Vec<Vec<char>>, room: usize) -> (out: Vec<char>)
    ensures
        out@ == concat_all(back_fitting(row_views(cs@), room as int)),
{
    let ghost v = row_views(cs@);
    let mut j: usize = cs.len();
    let mut used: usize = 0;
    assert(v.take(v.len() as int) =~= v);
    assert(back_fitting(v, room as int) + v.skip(v.len() as int) =~= back_fitting(v, room as int));
    while j > 0
        invariant_except_break
            j <= cs@.len(),
            used <= room,
            v == row_views(cs@),
            back_fitting(v, room as int) == back_fitting(v.take(j as int), room - used) + v.skip(j as int),
        ensures
            j <= cs@.len(),
            back_fitting(v, room as int) == v.skip(j as int),
        decreases j,
    {
        let w = width_of(cs[j - 1].as_slice());
        if w > room - used {
            proof {
                assert(v.take(j as int).last() == v[j - 1]);
                assert(Seq::<Seq<char>>::empty() + v.skip(j as int) =~= v.skip(j as int));
            }
            break;
        }
        proof {
            let t = v.take(j as int);
            assert(t.last() == v[j - 1]);
            assert(t.drop_last() =~= v.take(j - 1));
            assert(v.skip(j - 1) =~= seq![v[j - 1]] + v.skip(j as int));
            assert(back_fitting(v.take(j - 1), room - used - w).push(v[j - 1]) + v.skip(j as int)
                =~= back_fitting(v.take(j - 1), room - (used + w)) + v.skip(j - 1));
        }
        used = used + w;
        j = j - 1;
    }
    proof {
        if j == 0 {
            assert(v.take(0) =~= Seq::<Seq<char>>::empty());
            assert(Seq::<Seq<char>>::empty() + v.skip(0) =~= v.skip(0));
        }
        assert(v.skip(j as int) =~= v.subrange(j as int, v.len() as int));
    }
    concat_range(cs, j, cs.len())
}

} // verus!
