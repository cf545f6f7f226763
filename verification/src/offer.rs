//! The walk behind an outgoing drag: which item the terminal asked for,
//! the items still to send, breadth first, and the directory handles that
//! number the directories for the whole drag. Reading the files and writing
//! the escapes is the caller's; every decision about what comes next, and
//! under which metadata, is made here.
use vstd::prelude::*;
use crate::dnd::{item_meta, item_meta_text};
use crate::remote::{join, join_path, views};
use crate::text::{chars_of, push_signed, signed_decimal, string_of};

verus! {

/// Byte strings in the order a file name sorts in: byte by byte, a prefix
/// before what it starts.
pub open spec fn bytes_le(a: Seq<u8>, b: Seq<u8>) -> bool
    decreases a.len(),
{
    if a.len() == 0 {
        true
    } else if b.len() == 0 {
        false
    } else if a[0] != b[0] {
        a[0] < b[0]
    } else {
        bytes_le(a.skip(1), b.skip(1))
    }
}

/// Any two byte strings are ordered one way or the other.
pub proof fn lemma_bytes_le_total(a: Seq<u8>, b: Seq<u8>)
    ensures
        bytes_le(a, b) || bytes_le(b, a),
    decreases a.len(),
{
    if a.len() > 0 && b.len() > 0 && a[0] == b[0] {
        lemma_bytes_le_total(a.skip(1), b.skip(1));
    }
}

/// The order is transitive.
pub proof fn lemma_bytes_le_trans(a: Seq<u8>, b: Seq<u8>, c: Seq<u8>)
    requires
        bytes_le(a, b),
        bytes_le(b, c),
    ensures
        bytes_le(a, c),
    decreases a.len(),
{
    if a.len() > 0 && b.len() > 0 && c.len() > 0 && a[0] == b[0] && b[0] == c[0] {
        lemma_bytes_le_trans(a.skip(1), b.skip(1), c.skip(1));
    }
}

/// Whether `a` sorts no later than `b`.
pub fn bytes_le_exec(a: &[u8], b: &[u8]) -> (r: bool)
    ensures
        r == bytes_le(a@, b@),
{
    let mut i: usize = 0;
    assert(a@.skip(0) =~= a@);
    assert(b@.skip(0) =~= b@);
    while i < a.len() && i < b.len() && a[i] == b[i]
        invariant
            i <= a@.len(),
            i <= b@.len(),
            bytes_le(a@.skip(i as int), b@.skip(i as int)) == bytes_le(a@, b@),
        decreases a@.len() - i,
    {
        assert(a@.skip(i as int).skip(1) =~= a@.skip(i + 1));
        assert(b@.skip(i as int).skip(1) =~= b@.skip(i + 1));
        i = i + 1;
    }
    if i == a.len() {
        assert(a@.skip(i as int).len() == 0);
        true
    } else if i == b.len() {
        false
    } else {
        assert(a@.skip(i as int)[0] == a@[i as int]);
        assert(b@.skip(i as int)[0] == b@[i as int]);
        a[i] < b[i]
    }
}

/// `x` put into `s` after the last name that sorts no later than it.
pub open spec fn insert_sorted(s: Seq<Seq<u8>>, x: Seq<u8>) -> Seq<Seq<u8>>
    decreases s.len(),
{
    if s.len() == 0 {
        seq![x]
    } else if bytes_le(s.last(), x) {
        s.push(x)
    } else {
        insert_sorted(s.drop_last(), x).push(s.last())
    }
}

/// `s` sorted by name, one insertion at a time.
pub open spec fn sorted_names(s: Seq<Seq<u8>>) -> Seq<Seq<u8>>
    decreases s.len(),
{
    if s.len() == 0 {
        s
    } else {
        insert_sorted(sorted_names(s.drop_last()), s.last())
    }
}

/// Whether `s` is in name order.
pub open spec fn is_sorted(s: Seq<Seq<u8>>) -> bool {
    forall|i: int, j: int| 0 <= i < j < s.len() ==> bytes_le(#[trigger] s[i], #[trigger] s[j])
}

proof fn lemma_insert_sorted(s: Seq<Seq<u8>>, x: Seq<u8>)
    requires
        is_sorted(s),
    ensures
        is_sorted(insert_sorted(s, x)),
        insert_sorted(s, x).len() == s.len() + 1,
        insert_sorted(s, x).to_multiset() =~= s.to_multiset().insert(x),
    decreases s.len(),
{
    broadcast use vstd::seq_lib::group_to_multiset_ensures;
    if s.len() == 0 {
        assert(seq![x] =~= Seq::<Seq<u8>>::empty().push(x));
    } else if bytes_le(s.last(), x) {
        let t = s.push(x);
        assert forall|i: int, j: int| 0 <= i < j < t.len() implies bytes_le(#[trigger] t[i], #[trigger] t[j]) by {
            if j == s.len() && i < s.len() - 1 {
                lemma_bytes_le_trans(s[i], s.last(), x);
            }
        }
    } else {
        let r = s.drop_last();
        let last = s.last();
        assert(is_sorted(r));
        lemma_insert_sorted(r, x);
        let ri = insert_sorted(r, x);
        let t = ri.push(last);
        lemma_bytes_le_total(last, x);
        assert forall|i: int| 0 <= i < ri.len() implies bytes_le(#[trigger] ri[i], last) by {
            let e = ri[i];
            assert(ri.contains(e));
            assert(ri.to_multiset().count(e) > 0);
            if e != x {
                assert(r.to_multiset().count(e) > 0);
                assert(r.contains(e));
                let k = choose|k: int| 0 <= k < r.len() && r[k] == e;
                assert(s[k] == e);
                assert(bytes_le(s[k], s[s.len() - 1]));
            }
        }
        assert forall|i: int, j: int| 0 <= i < j < t.len() implies bytes_le(#[trigger] t[i], #[trigger] t[j]) by {
            if j == ri.len() {
                assert(t[i] == ri[i]);
            } else {
                assert(t[i] == ri[i] && t[j] == ri[j]);
            }
        }
        assert(s =~= r.push(last));
    }
}

/// The names come out in name order, each as often as it went in.
pub proof fn law_sorted_names_are_sorted(s: Seq<Seq<u8>>)
    ensures
        is_sorted(sorted_names(s)),
        sorted_names(s).to_multiset() =~= s.to_multiset(),
    decreases s.len(),
{
    broadcast use vstd::seq_lib::group_to_multiset_ensures;
    if s.len() > 0 {
        law_sorted_names_are_sorted(s.drop_last());
        lemma_insert_sorted(sorted_names(s.drop_last()), s.last());
        assert(s =~= s.drop_last().push(s.last()));
    }
}

proof fn lemma_insert_at(s: Seq<Seq<u8>>, x: Seq<u8>, p: int)
    requires
        0 <= p <= s.len(),
        forall|j: int| p <= j < s.len() ==> !bytes_le(#[trigger] s[j], x),
        p > 0 ==> bytes_le(s[p - 1], x),
    ensures
        insert_sorted(s, x) == s.insert(p, x),
    decreases s.len(),
{
    if s.len() == 0 {
        assert(s.insert(p, x) =~= seq![x]);
    } else if bytes_le(s.last(), x) {
        assert(p == s.len());
        assert(s.insert(p, x) =~= s.push(x));
    } else {
        let r = s.drop_last();
        assert(p < s.len());
        lemma_insert_at(r, x, p);
        assert(s.insert(p, x) =~= r.insert(p, x).push(s.last()));
    }
}

/// `names` in name order.
pub fn sort_names(names: &Vec<Vec<u8>>) -> (out: Vec<Vec<u8>>)
    ensures
        views(out@) == sorted_names(views(names@)),
{
    let mut out: Vec<Vec<u8>> = Vec::new();
    let mut k: usize = 0;
    while k < names.len()
        invariant
            k <= names@.len(),
            views(out@) == sorted_names(views(names@).take(k as int)),
        decreases names@.len() - k,
    {
        let x = crate::text::copy_range(names[k].as_slice(), 0, names[k].len());
        assert(x@ =~= names@[k as int]@);
        let mut p = out.len();
        while p > 0 && !bytes_le_exec(out[p - 1].as_slice(), x.as_slice())
            invariant
                p <= out@.len(),
                forall|j: int| p <= j < out@.len() ==> !bytes_le(#[trigger] views(out@)[j], x@),
            decreases p,
        {
            p = p - 1;
        }
        proof {
            lemma_insert_at(views(out@), x@, p as int);
            assert(views(names@).take(k + 1).drop_last() =~= views(names@).take(k as int));
            assert(views(names@).take(k + 1).last() == x@);
        }
        let ghost before = views(out@);
        out.insert(p, x);
        assert(views(out@) =~= before.insert(p as int, x@));
        k = k + 1;
    }
    assert(views(names@).take(names@.len() as int) =~= views(names@));
    out
}

/// The names of a directory listing as sent: each name and a NUL after it.
pub open spec fn nul_joined(s: Seq<Seq<u8>>) -> Seq<u8>
    decreases s.len(),
{
    if s.len() == 0 {
        Seq::empty()
    } else {
        nul_joined(s.drop_last()) + s.last() + seq![0u8]
    }
}

/// One item of an outgoing drag still to send: where it is, the dropped
/// item (1-based) it belongs to, and, below the top level, its directory's
/// handle and its 1-based number in that directory's listing.
#[derive(Debug)]
pub struct OfferItem {
    pub path: Vec<u8>,
    pub root: usize,
    pub parent: Option<(i32, usize)>,
}

/// An item as values.
pub open spec fn item_view(i: OfferItem) -> (Seq<u8>, usize, Option<(i32, usize)>) {
    (i.path@, i.root, i.parent)
}

/// The items waiting, as values.
pub open spec fn queue_view(q: Seq<OfferItem>) -> Seq<(Seq<u8>, usize, Option<(i32, usize)>)> {
    q.map_values(|i: OfferItem| item_view(i))
}

/// The items a directory's listing adds, in name order, each numbered from
/// one under the directory's handle.
pub open spec fn children_of(dir: Seq<u8>, root: usize, handle: i32, sorted: Seq<Seq<u8>>) -> Seq<(Seq<u8>, usize, Option<(i32, usize)>)> {
    Seq::new(sorted.len(), |i: int| (join(dir, sorted[i]), root, Some((handle, (i + 1) as usize))))
}

/// The metadata of an item with its type field: `X=1` for a link, the
/// handle for a directory.
pub open spec fn typed_meta_text(root: usize, parent: Option<(i32, usize)>, x: i32) -> Seq<char> {
    item_meta_text(root, parent) + ":X="@ + signed_decimal(x as int)
}

/// The walk of an outgoing drag: the items still to send, breadth first,
/// and the handle the next directory gets. Handles number the directories
/// of the whole drag, across requests, from 2 up; 0 and 1 mean a file and a
/// link.
#[derive(Debug)]
pub struct OfferWalk {
    pub queue: Vec<OfferItem>,
    pub next_handle: i32,
}

impl OfferWalk {
    pub open spec fn wf(&self) -> bool {
        self.next_handle >= 2
    }

    /// Nothing asked for yet.
    pub fn new() -> (w: OfferWalk)
        ensures
            w.wf(),
            w.queue@.len() == 0,
            w.next_handle == 2,
    {
        OfferWalk { queue: Vec::new(), next_handle: 2 }
    }

    /// The terminal asks for dropped item `index`, counted from one: queued
    /// at the top level when there is such an item, refused otherwise.
    pub fn request(&mut self, index: usize, sources: &Vec<Vec<u8>>) -> (ok: bool)
        ensures
            ok == (1 <= index <= sources@.len()),
            final(self).next_handle == old(self).next_handle,
            ok ==> queue_view(final(self).queue@) == queue_view(old(self).queue@).push((sources@[index - 1]@, index, None)),
            !ok ==> queue_view(final(self).queue@) == queue_view(old(self).queue@),
    {
        if index == 0 || index > sources.len() {
            return false;
        }
        let path = crate::text::copy_range(sources[index - 1].as_slice(), 0, sources[index - 1].len());
        assert(path@ =~= sources@[index - 1]@);
        let ghost before = queue_view(self.queue@);
        self.queue.push(OfferItem { path, root: index, parent: None });
        assert(queue_view(self.queue@) =~= before.push((sources@[index - 1]@, index, None)));
        true
    }

    /// The next item to send, first in first out.
    pub fn next(&mut self) -> (r: Option<OfferItem>)
        ensures
            final(self).next_handle == old(self).next_handle,
            old(self).queue@.len() == 0 ==> r is None && final(self).queue@.len() == 0,
            old(self).queue@.len() > 0 ==> (r matches Some(item) && item_view(item) == queue_view(old(self).queue@)[0]
                && queue_view(final(self).queue@) == queue_view(old(self).queue@).skip(1)),
    {
        if self.queue.len() == 0 {
            return None;
        }
        let ghost before = queue_view(self.queue@);
        let item = self.queue.remove(0);
        assert(queue_view(self.queue@) =~= before.skip(1));
        Some(item)
    }

    /// A directory item's listing arrived: the directory takes the next
    /// handle, its entries join the end of the queue in name order, and
    /// what to send is its metadata with the handle and the names, each
    /// ended by a NUL. Nothing when the handles have run out.
    pub fn directory(&mut self, item: &OfferItem, children: &Vec<Vec<u8>>) -> (r: Option<(String, Vec<u8>)>)
        requires
            old(self).wf(),
        ensures
            final(self).wf(),
            old(self).next_handle == i32::MAX ==> r is None && queue_view(final(self).queue@) == queue_view(old(self).queue@)
                && final(self).next_handle == old(self).next_handle,
            old(self).next_handle < i32::MAX ==> (r matches Some((meta, names)) && {
                let handle = old(self).next_handle;
                let sorted = sorted_names(views(children@));
                &&& final(self).next_handle == handle + 1
                &&& queue_view(final(self).queue@) == queue_view(old(self).queue@) + children_of(item.path@, item.root, handle, sorted)
                &&& meta@ == typed_meta_text(item.root, item.parent, handle)
                &&& names@ == nul_joined(sorted)
            }),
    {
        if self.next_handle == i32::MAX {
            return None;
        }
        let handle = self.next_handle;
        self.next_handle = handle + 1;
        let sorted = sort_names(children);
        let ghost sv = views(sorted@);
        let ghost before = queue_view(self.queue@);
        let mut names: Vec<u8> = Vec::new();
        let mut i: usize = 0;
        while i < sorted.len()
            invariant
                sv == views(sorted@),
                i <= sorted@.len(),
                names@ == nul_joined(sv.take(i as int)),
                queue_view(self.queue@) == before + children_of(item.path@, item.root, handle, sv).take(i as int),
                self.next_handle == handle + 1,
                handle >= 2,
            decreases sorted@.len() - i,
        {
            let name = &sorted[i];
            let mut k: usize = 0;
            let ghost start = names@;
            while k < name.len()
                invariant
                    k <= name@.len(),
                    names@ == start + name@.take(k as int),
                decreases name@.len() - k,
            {
                names.push(name[k]);
                assert(name@.take(k + 1) =~= name@.take(k as int).push(name@[k as int]));
                k = k + 1;
            }
            names.push(0u8);
            proof {
                assert(name@.take(name@.len() as int) =~= name@);
                assert(sv.take(i + 1).drop_last() =~= sv.take(i as int));
                assert(sv.take(i + 1).last() == name@);
                assert(names@ =~= nul_joined(sv.take(i + 1)));
            }
            let path = join_path(item.path.as_slice(), name.as_slice());
            let ghost q = queue_view(self.queue@);
            self.queue.push(OfferItem { path, root: item.root, parent: Some((handle, i + 1)) });
            assert(queue_view(self.queue@) =~= q.push((join(item.path@, sv[i as int]), item.root, Some((handle, (i + 1) as usize)))));
            assert(children_of(item.path@, item.root, handle, sv).take(i + 1)
                =~= children_of(item.path@, item.root, handle, sv).take(i as int).push((join(item.path@, sv[i as int]), item.root, Some((handle, (i + 1) as usize)))));
            i = i + 1;
        }
        assert(sv.take(sv.len() as int) =~= sv);
        assert(children_of(item.path@, item.root, handle, sv).take(sv.len() as int) =~= children_of(item.path@, item.root, handle, sv));
        Some((typed_meta(item.root, item.parent, handle), names))
    }
}

/// The metadata of an item with its type field.
pub fn typed_meta(root: usize, parent: Option<(i32, usize)>, x: i32) -> (s: String)
    ensures
        s@ == typed_meta_text(root, parent, x),
{
    let mut out = chars_of(item_meta(root, parent).as_str());
    crate::text::push_str(&mut out, ":X=");
    push_signed(&mut out, x as i64);
    string_of(out.as_slice())
}

} // verus!
