//! A remote drop, requested one item at a time.
//!
//! The terminal is asked for each dropped item in turn, a directory's
//! children after the directory itself, so nothing is buffered but a
//! directory's list of names or a symlink's target. Every item lands under
//! a staging directory, named only by names that cannot climb out of it.
//!
//! [`Remote`] makes every decision; what it asks for -- a request to send, a
//! file or directory to create, bytes to append, a symlink to make -- comes
//! back as [`Effect`]s, in order, for the caller to carry out.
use vstd::prelude::*;
use crate::dnd::{base64_padded, base64_unpadded, Message};
use crate::ops::OpKind;
use crate::text::{decimal, push_decimal, push_signed, push_str, signed_decimal, string_of};

verus! {

/// What stopped a remote drop.
#[derive(Debug, Clone, Copy, PartialEq, Eq, Structural)]
pub enum DropError {
    /// A dropped path has no final name to stage it under.
    NoFileName,
    /// A dropped or listed name is empty, `.`, `..`, or holds `/` or NUL.
    UnsafeName,
    /// Two dropped paths end in the same name.
    DuplicateName,
    /// The transfer was cancelled.
    Cancelled,
    /// Data arrived with no request outstanding.
    Unsolicited,
    /// The first reply to a request names a different item.
    Mismatch,
    /// An item's type changed between two of its chunks.
    TypeChanged,
    /// An item's type is not a file, a symlink or a directory.
    InvalidType,
    /// A chunk's payload is not base64.
    InvalidBase64,
    /// A symlink target or directory listing is over eight MiB.
    TooLarge,
    /// A directory listing repeats a name or holds an unsafe one.
    BadListing,
    /// A directory handle was used twice.
    ReusedHandle,
    /// An item names a directory handle that is not open.
    UnknownHandle,
}

/// One item to request: where it lands, which dropped root it belongs to,
/// and -- below the top level -- its directory handle and its 1-based
/// position in that directory's listing.
#[derive(Debug, PartialEq, Eq)]
pub struct Task {
    pub path: Vec<u8>,
    pub root_index: usize,
    pub parent: Option<(i32, usize)>,
}

#[verifier::ext_equal]
pub struct TaskV {
    pub path: Seq<u8>,
    pub root_index: usize,
    pub parent: Option<(i32, usize)>,
}

impl Task {
    pub open spec fn view(&self) -> TaskV {
        TaskV { path: self.path@, root_index: self.root_index, parent: self.parent }
    }
}

/// What the caller has to do, in order, for a decision to take effect.
#[derive(Debug, PartialEq, Eq)]
pub enum Effect {
    /// Send one OSC 72 request with this metadata and no payload.
    Send(String),
    /// Create this file, empty, as the item now being received.
    CreateFile(Vec<u8>),
    /// Create this directory.
    CreateDir(Vec<u8>),
    /// Append these bytes to the file being received; they count toward
    /// the drop's progress.
    Write(Vec<u8>),
    /// Make a symlink at `path` pointing at `target`.
    Symlink { target: Vec<u8>, path: Vec<u8> },
}

#[verifier::ext_equal]
pub enum EffectV {
    Send(Seq<char>),
    CreateFile(Seq<u8>),
    CreateDir(Seq<u8>),
    Write(Seq<u8>),
    Symlink(Seq<u8>, Seq<u8>),
}

impl Effect {
    pub open spec fn view(&self) -> EffectV {
        match self {
            Effect::Send(m) => EffectV::Send(m@),
            Effect::CreateFile(p) => EffectV::CreateFile(p@),
            Effect::CreateDir(p) => EffectV::CreateDir(p@),
            Effect::Write(d) => EffectV::Write(d@),
            Effect::Symlink { target, path } => EffectV::Symlink(target@, path@),
        }
    }
}

pub open spec fn effects_view(v: Seq<Effect>) -> Seq<EffectV> {
    v.map_values(|e: Effect| e.view())
}

/// A decision: the effects to carry out, then the outcome -- `Ok(true)`
/// once the whole tree has arrived.
pub struct Reply {
    pub effects: Vec<Effect>,
    pub outcome: Result<bool, DropError>,
}

/// The bookkeeping of a remote drop.
pub struct Remote {
    /// The staging directory every item lands under.
    pub stage: Vec<u8>,
    /// Where each dropped item lands, in the order they were dropped.
    pub roots: Vec<Vec<u8>>,
    pub mime_index: i32,
    pub waiting: Vec<Task>,
    pub current: Option<Task>,
    /// The type the current item's first chunk declared: `0` a file, `1` a
    /// symlink, a directory handle `>= 2` for a directory.
    pub current_kind: Option<i32>,
    /// Whether the current item's file has been created.
    pub file_open: bool,
    /// A symlink target or a directory listing, as it arrives.
    pub small_data: Vec<u8>,
    /// Open directory handles and how many of their children are still to
    /// arrive.
    pub remaining: Vec<(i32, usize)>,
}

/// The state a decision reads and writes.
#[verifier::ext_equal]
pub struct RemoteV {
    pub waiting: Seq<TaskV>,
    pub current: Option<TaskV>,
    pub kind: Option<i32>,
    pub file_open: bool,
    pub small: Seq<u8>,
    pub remaining: Seq<(i32, usize)>,
}

/// The limit on a symlink target or a directory listing.
pub open spec fn small_limit() -> int {
    8388608int
}

/// A name that stays inside the directory it is joined to.
pub open spec fn is_safe_name(b: Seq<u8>) -> bool {
    &&& b.len() > 0
    &&& b != seq![0x2eu8]
    &&& b != seq![0x2eu8, 0x2eu8]
    &&& !b.contains(0x2fu8)
    &&& !b.contains(0u8)
}

/// `dir` joined with a relative `name`, as `Path::join` does: a `/` between
/// them unless `dir` is empty or already ends in one.
pub open spec fn join(dir: Seq<u8>, name: Seq<u8>) -> Seq<u8> {
    if dir.len() == 0 || dir.last() == 0x2fu8 {
        dir + name
    } else {
        dir.push(0x2fu8) + name
    }
}

/// The request for a top-level item.
pub open spec fn root_request(mime: i32, root: usize) -> Seq<char> {
    seq!['t', '=', 'r', ':', 'x', '='] + signed_decimal(mime as int) + seq![':', 'y', '=']
        + decimal(root as nat) + seq![':', 'i', '=', '1']
}

/// The request for one child of an open directory.
pub open spec fn child_request(handle: i32, index: usize) -> Seq<char> {
    seq!['t', '=', 'r', ':', 'Y', '='] + signed_decimal(handle as int) + seq![':', 'x', '=']
        + decimal(index as nat) + seq![':', 'i', '=', '1']
}

/// The message that closes a directory handle.
pub open spec fn close_request(handle: i32) -> Seq<char> {
    seq!['t', '=', 'r', ':', 'Y', '='] + signed_decimal(handle as int) + seq![':', 'i', '=', '1']
}

/// Where `h` sits among the open handles.
pub open spec fn handle_at(rem: Seq<(i32, usize)>, h: i32, i: int) -> bool {
    &&& 0 <= i < rem.len()
    &&& rem[i].0 == h
    &&& forall|j: int| 0 <= j < i ==> rem[j].0 != h
}

pub open spec fn handle_index(rem: Seq<(i32, usize)>, h: i32) -> Option<int> {
    if exists|i: int| handle_at(rem, h, i) {
        Some(choose|i: int| handle_at(rem, h, i))
    } else {
        None
    }
}

/// The pieces of `parts` that are not empty, in order.
pub open spec fn nonempty(parts: Seq<Seq<u8>>) -> Seq<Seq<u8>>
    decreases parts.len(),
{
    if parts.len() == 0 {
        Seq::empty()
    } else if parts.last().len() > 0 {
        nonempty(parts.drop_last()).push(parts.last())
    } else {
        nonempty(parts.drop_last())
    }
}

/// The listing of a directory: its NUL-separated names, empty pieces
/// dropped.
pub open spec fn listing_names(bytes: Seq<u8>) -> Seq<Seq<u8>> {
    nonempty(crate::text::split_on(bytes, 0u8))
}

/// A listing is usable when every name is safe and no name repeats.
pub open spec fn listing_ok(names: Seq<Seq<u8>>) -> bool {
    &&& forall|i: int| 0 <= i < names.len() ==> is_safe_name(#[trigger] names[i])
    &&& forall|i: int, j: int| 0 <= i < j < names.len() ==> names[i] != names[j]
}

/// Ask for the next waiting item, or report that none is left.
pub open spec fn request_next_step(s: RemoteV, mime: i32) -> (RemoteV, Seq<EffectV>, bool) {
    if s.waiting.len() > 0 {
        let t = s.waiting[0];
        let meta = match t.parent {
            Some((h, i)) => child_request(h, i),
            None => root_request(mime, t.root_index),
        };
        (RemoteV {
            waiting: s.waiting.skip(1),
            current: Some(t),
            kind: None,
            file_open: false,
            small: Seq::empty(),
            remaining: s.remaining,
        }, seq![EffectV::Send(meta)], false)
    } else {
        (s, Seq::empty(), true)
    }
}

/// Whether a first reply answers the request for `t`.
pub open spec fn answers(m: Message, t: TaskV, mime: i32) -> bool {
    match t.parent {
        Some((h, i)) => m.number_of(seq!['Y']) == Some(h) && m.number_of(seq!['x']) == Some(i as i32),
        None => m.number_of(seq!['x']) == Some(mime) && m.number_of(seq!['y']) == Some(t.root_index as i32),
    }
}

/// The bytes a message's payload decodes to.
pub open spec fn payload_bytes(m: Message) -> Option<Seq<u8>> {
    match base64_padded(m.payload@) {
        Some(d) => Some(d),
        None => base64_unpadded(m.payload@),
    }
}

/// Receiving one chunk, up to where the item's type is known: a first
/// chunk must answer the request and names the type; a later one may not
/// change it. A file is created with its first chunk, a directory made.
pub open spec fn begin_step(s: RemoteV, m: Message, mime: i32) -> Result<(RemoteV, Seq<EffectV>), DropError> {
    let t = s.current.unwrap();
    match s.kind {
        Some(old) => match m.number_of(seq!['X']) {
            Some(k) => if k != old {
                Err(DropError::TypeChanged)
            } else {
                Ok((s, Seq::empty()))
            },
            None => Ok((s, Seq::empty())),
        },
        None => if !answers(m, t, mime) {
            Err(DropError::Mismatch)
        } else {
            let kind = match m.number_of(seq!['X']) {
                Some(k) => k,
                None => 0i32,
            };
            if kind == 0 && !s.file_open {
                Ok((RemoteV { kind: Some(kind), file_open: true, ..s }, seq![EffectV::CreateFile(t.path)]))
            } else if kind >= 2 {
                Ok((RemoteV { kind: Some(kind), ..s }, seq![EffectV::CreateDir(t.path)]))
            } else if kind != 1 && kind != 0 {
                Err(DropError::InvalidType)
            } else {
                Ok((RemoteV { kind: Some(kind), ..s }, Seq::empty()))
            }
        },
    }
}

/// Taking in one chunk's bytes: a file's are written straight out, a
/// symlink's or a listing's kept, up to the limit.
pub open spec fn data_step(s: RemoteV, data: Seq<u8>) -> Result<(RemoteV, Seq<EffectV>), DropError> {
    if s.kind == Some(0i32) {
        Ok((s, seq![EffectV::Write(data)]))
    } else if s.small.len() + data.len() > small_limit() {
        Err(DropError::TooLarge)
    } else {
        Ok((RemoteV { small: s.small + data, ..s }, Seq::empty()))
    }
}

/// The children of directory `t`, handle `h`, named by `names`.
pub open spec fn child_tasks(t: TaskV, h: i32, names: Seq<Seq<u8>>) -> Seq<TaskV> {
    Seq::new(names.len(), |i: int| TaskV { path: join(t.path, names[i]), root_index: t.root_index, parent: Some((h, (i + 1) as usize)) })
}

/// After an item's last chunk: a symlink is made; a directory's listing
/// queues its children and opens its handle, closed at once when it is
/// empty; and the item counts toward its own parent's handle, which closes
/// when the last child is in.
pub open spec fn finish_step(s: RemoteV, t: TaskV, kind: i32) -> Result<(RemoteV, Seq<EffectV>), DropError> {
    let base = RemoteV { current: None, file_open: false, ..s };
    let made: Result<(RemoteV, Seq<EffectV>), DropError> = if kind == 1 {
        Ok((RemoteV { small: Seq::empty(), ..base }, seq![EffectV::Symlink(s.small, t.path)]))
    } else if kind >= 2 {
        let names = listing_names(s.small);
        if !listing_ok(names) {
            Err(DropError::BadListing)
        } else if handle_index(s.remaining, kind) is Some {
            Err(DropError::ReusedHandle)
        } else if names.len() == 0 {
            Ok((RemoteV { waiting: s.waiting + child_tasks(t, kind, names), ..base }, seq![EffectV::Send(close_request(kind))]))
        } else {
            Ok((RemoteV {
                waiting: s.waiting + child_tasks(t, kind, names),
                remaining: s.remaining.push((kind, names.len() as usize)),
                ..base
            }, Seq::empty()))
        }
    } else {
        Ok((base, Seq::empty()))
    };
    match made {
        Err(e) => Err(e),
        Ok((s2, fx)) => match t.parent {
            None => Ok((s2, fx)),
            Some((h, _)) => match handle_index(s2.remaining, h) {
                None => Err(DropError::UnknownHandle),
                Some(i) => {
                    let left = (s2.remaining[i].1 - 1) as usize;
                    if left == 0 {
                        Ok((RemoteV { remaining: s2.remaining.remove(i), ..s2 }, fx.push(EffectV::Send(close_request(h)))))
                    } else {
                        Ok((RemoteV { remaining: s2.remaining.update(i, (h, left)), ..s2 }, fx))
                    }
                },
            },
        },
    }
}

impl Remote {
    pub open spec fn state(&self) -> RemoteV {
        RemoteV {
            waiting: self.waiting@.map_values(|t: Task| t.view()),
            current: match self.current {
                Some(t) => Some(t.view()),
                None => None,
            },
            kind: self.current_kind,
            file_open: self.file_open,
            small: self.small_data@,
            remaining: self.remaining@,
        }
    }

    /// What every state of a drop keeps: a file being received has been
    /// created, and every open handle still waits for at least one child.
    pub open spec fn wf(&self) -> bool {
        &&& (self.current is Some && self.current_kind == Some(0i32)) ==> self.file_open
        &&& forall|i: int| 0 <= i < self.remaining@.len() ==> (#[trigger] self.remaining@[i]).1 > 0
        &&& self.small_data@.len() <= small_limit()
    }
}

} // verus!

verus! {

/// The last piece of `parts` that is neither empty nor `.`.
pub open spec fn last_named(parts: Seq<Seq<u8>>) -> Option<Seq<u8>>
    decreases parts.len(),
{
    if parts.len() == 0 {
        None
    } else if parts.last().len() > 0 && parts.last() != seq![0x2eu8] {
        Some(parts.last())
    } else {
        last_named(parts.drop_last())
    }
}

/// A path's final name, as `Path::file_name` reads it on Unix: the last
/// component that is not empty or `.`, and none when that is `..` or there
/// is no such component.
pub open spec fn path_file_name(path: Seq<u8>) -> Option<Seq<u8>> {
    match last_named(crate::text::split_on(path, 0x2fu8)) {
        Some(n) => if n == seq![0x2eu8, 0x2eu8] {
            None
        } else {
            Some(n)
        },
        None => None,
    }
}

/// The final name of a path.
pub fn file_name(path: &[u8]) -> (r: Option<Vec<u8>>)
    ensures
        r matches Some(n) ==> path_file_name(path@) == Some(n@),
        r is None ==> path_file_name(path@) is None,
{
    let parts = split_slash(path);
    let ghost pv = crate::text::split_on(path@, 0x2fu8);
    let mut i = parts.len();
    assert(pv.take(i as int) =~= pv);
    while i > 0
        invariant
            i <= parts@.len(),
            pv == crate::text::split_on(path@, 0x2fu8),
            parts@.len() == pv.len(),
            forall|q: int| 0 <= q < parts@.len() ==> (#[trigger] parts@[q])@ == pv[q],
            last_named(pv) == last_named(pv.take(i as int)),
        decreases i,
    {
        let p = &parts[i - 1];
        assert(pv.take(i as int).last() == p@);
        assert(pv.take(i as int).drop_last() =~= pv.take(i - 1));
        let dot = p.len() == 1 && p[0] == 0x2e;
        assert(dot == (p@ == seq![0x2eu8])) by {
            if p@ == seq![0x2eu8] {
                assert(p@[0] == 0x2eu8);
            }
            if dot {
                assert(p@ =~= seq![0x2eu8]);
            }
        }
        if p.len() > 0 && !dot {
            assert(pv.take(i as int).len() > 0);
            assert(last_named(pv.take(i as int)) == Some(p@));
            assert(last_named(pv) == Some(p@));
            if p.len() == 2 && p[0] == 0x2e && p[1] == 0x2e {
                assert(p@ =~= seq![0x2eu8, 0x2eu8]);
                return None;
            }
            assert(p@ != seq![0x2eu8, 0x2eu8]) by {
                if p@.len() == 2 {
                    assert(!(p@[0] == 0x2eu8 && p@[1] == 0x2eu8));
                }
            }
            let out = crate::text::copy_range(p, 0, p.len());
            assert(out@ =~= p@);
            return Some(out);
        }
        i = i - 1;
    }
    assert(pv.take(0) =~= Seq::<Seq<u8>>::empty());
    None
}

/// `s` cut at every `/`.
fn split_slash(s: &[u8]) -> (parts: Vec<Vec<u8>>)
    ensures
        parts@.len() == crate::text::split_on(s@, 0x2fu8).len(),
        forall|q: int| 0 <= q < parts@.len() ==> (#[trigger] parts@[q])@ == crate::text::split_on(s@, 0x2fu8)[q],
{
    let mut parts: Vec<Vec<u8>> = Vec::new();
    let mut cur: Vec<u8> = Vec::new();
    let mut i: usize = 0;
    while i < s.len()
        invariant
            i <= s@.len(),
            parts@.len() + 1 == crate::text::split_on(s@.take(i as int), 0x2fu8).len(),
            forall|q: int| 0 <= q < parts@.len() ==> (#[trigger] parts@[q])@ == crate::text::split_on(s@.take(i as int), 0x2fu8)[q],
            cur@ == crate::text::split_on(s@.take(i as int), 0x2fu8).last(),
        decreases s@.len() - i,
    {
        let c = s[i];
        proof {
            assert(s@.take(i + 1).drop_last() =~= s@.take(i as int));
            assert(s@.take(i + 1).last() == c);
        }
        if c == 0x2f {
            parts.push(cur);
            cur = Vec::new();
            assert(cur@ =~= Seq::<u8>::empty());
        } else {
            cur.push(c);
        }
        i = i + 1;
    }
    assert(s@.take(s@.len() as int) =~= s@);
    parts.push(cur);
    parts
}

/// Whether two byte strings are the same.
pub fn same_bytes(a: &[u8], b: &[u8]) -> (r: bool)
    ensures
        r == (a@ == b@),
{
    if a.len() != b.len() {
        return false;
    }
    let mut i: usize = 0;
    while i < a.len()
        invariant
            a@.len() == b@.len(),
            i <= a@.len(),
            forall|j: int| 0 <= j < i ==> a@[j] == b@[j],
        decreases a@.len() - i,
    {
        if a[i] != b[i] {
            return false;
        }
        i = i + 1;
    }
    assert(a@ =~= b@);
    true
}

/// Whether `name` stays inside the directory it is joined to.
pub fn safe_name(name: &[u8]) -> (b: bool)
    ensures
        b == is_safe_name(name@),
{
    let n = name.len();
    if n == 0 {
        return false;
    }
    if n == 1 && name[0] == 0x2e {
        assert(name@ =~= seq![0x2eu8]);
        return false;
    }
    if n == 2 && name[0] == 0x2e && name[1] == 0x2e {
        assert(name@ =~= seq![0x2eu8, 0x2eu8]);
        return false;
    }
    let mut i: usize = 0;
    while i < n
        invariant
            n == name@.len(),
            i <= n,
            forall|j: int| 0 <= j < i ==> name@[j] != 0x2fu8 && name@[j] != 0u8,
        decreases n - i,
    {
        if name[i] == 0x2f || name[i] == 0 {
            assert(name@[i as int] == 0x2fu8 || name@[i as int] == 0u8);
            return false;
        }
        i = i + 1;
    }
    assert(!name@.contains(0x2fu8));
    assert(!name@.contains(0u8));
    assert(name@ != seq![0x2eu8]) by {
        if n == 1 {
            assert(name@[0] != 0x2eu8);
        }
    }
    assert(name@ != seq![0x2eu8, 0x2eu8]) by {
        if n == 2 {
            assert(!(name@[0] == 0x2eu8 && name@[1] == 0x2eu8));
        }
    }
    true
}

/// `dir` joined with `name`.
pub fn join_path(dir: &[u8], name: &[u8]) -> (out: Vec<u8>)
    ensures
        out@ == join(dir@, name@),
{
    let mut out: Vec<u8> = Vec::new();
    let mut i: usize = 0;
    while i < dir.len()
        invariant
            i <= dir@.len(),
            out@ == dir@.take(i as int),
        decreases dir@.len() - i,
    {
        out.push(dir[i]);
        assert(dir@.take(i + 1) =~= dir@.take(i as int).push(dir@[i as int]));
        i = i + 1;
    }
    assert(dir@.take(dir@.len() as int) =~= dir@);
    if dir.len() > 0 && dir[dir.len() - 1] != 0x2f {
        out.push(0x2f);
    }
    let ghost head = out@;
    let mut j: usize = 0;
    while j < name.len()
        invariant
            j <= name@.len(),
            out@ == head + name@.take(j as int),
        decreases name@.len() - j,
    {
        out.push(name[j]);
        assert(name@.take(j + 1) =~= name@.take(j as int).push(name@[j as int]));
        j = j + 1;
    }
    assert(name@.take(name@.len() as int) =~= name@);
    out
}

proof fn lemma_nonempty_add(a: Seq<Seq<u8>>, b: Seq<Seq<u8>>)
    ensures
        nonempty(a + b) == nonempty(a) + nonempty(b),
    decreases b.len(),
{
    if b.len() == 0 {
        assert(a + b =~= a);
        assert(nonempty(a) + nonempty(b) =~= nonempty(a));
    } else {
        assert((a + b).drop_last() =~= a + b.drop_last());
        lemma_nonempty_add(a, b.drop_last());
        if b.last().len() > 0 {
            assert(nonempty(a) + nonempty(b.drop_last()).push(b.last()) =~= (nonempty(a) + nonempty(b.drop_last())).push(b.last()));
        }
    }
}

/// `bytes` cut at every NUL.
fn split_nul(s: &[u8]) -> (parts: Vec<Vec<u8>>)
    ensures
        parts@.len() == crate::text::split_on(s@, 0u8).len(),
        forall|q: int| 0 <= q < parts@.len() ==> (#[trigger] parts@[q])@ == crate::text::split_on(s@, 0u8)[q],
{
    let mut parts: Vec<Vec<u8>> = Vec::new();
    let mut cur: Vec<u8> = Vec::new();
    let mut i: usize = 0;
    while i < s.len()
        invariant
            i <= s@.len(),
            parts@.len() + 1 == crate::text::split_on(s@.take(i as int), 0u8).len(),
            forall|q: int| 0 <= q < parts@.len() ==> (#[trigger] parts@[q])@ == crate::text::split_on(s@.take(i as int), 0u8)[q],
            cur@ == crate::text::split_on(s@.take(i as int), 0u8).last(),
        decreases s@.len() - i,
    {
        let c = s[i];
        proof {
            assert(s@.take(i + 1).drop_last() =~= s@.take(i as int));
            assert(s@.take(i + 1).last() == c);
        }
        if c == 0 {
            parts.push(cur);
            cur = Vec::new();
            assert(cur@ =~= Seq::<u8>::empty());
        } else {
            cur.push(c);
        }
        i = i + 1;
    }
    assert(s@.take(s@.len() as int) =~= s@);
    parts.push(cur);
    parts
}

pub open spec fn views(v: Seq<Vec<u8>>) -> Seq<Seq<u8>> {
    v.map_values(|p: Vec<u8>| p@)
}

/// A directory listing's names, refused when one is unsafe or repeats.
pub fn split_names(bytes: &[u8]) -> (r: Result<Vec<Vec<u8>>, DropError>)
    ensures
        r matches Ok(names) ==> listing_ok(listing_names(bytes@)) && views(names@) == listing_names(bytes@),
        r matches Err(e) ==> !listing_ok(listing_names(bytes@)) && e == DropError::BadListing,
{
    let parts = split_nul(bytes);
    let ghost pv = crate::text::split_on(bytes@, 0u8);
    assert(views(parts@) =~= pv);
    let mut names: Vec<Vec<u8>> = Vec::new();
    let mut i: usize = 0;
    while i < parts.len()
        invariant
            i <= parts@.len(),
            pv == crate::text::split_on(bytes@, 0u8),
            views(parts@) == pv,
            views(names@) == nonempty(pv.take(i as int)),
            listing_ok(views(names@)),
        decreases parts@.len() - i,
    {
        let ghost before = views(names@);
        assert(pv.take(i + 1).drop_last() =~= pv.take(i as int));
        assert(pv.take(i + 1).last() == parts@[i as int]@);
        if parts[i].len() > 0 {
            let name = &parts[i];
            let ok = safe_name(name);
            let mut dup = false;
            let mut k: usize = 0;
            while k < names.len()
                invariant
                    k <= names@.len(),
                    !dup ==> forall|q: int| 0 <= q < k ==> names@[q]@ != name@,
                    dup ==> exists|q: int| 0 <= q < names@.len() && names@[q]@ == name@,
                decreases names@.len() - k,
            {
                if same_bytes(&names[k], name) {
                    dup = true;
                }
                k = k + 1;
            }
            let ghost after = before.push(name@);
            assert(after == nonempty(pv.take(i + 1)));
            proof {
                lemma_nonempty_add(pv.take(i + 1), pv.skip(i + 1));
                assert(pv.take(i + 1) + pv.skip(i + 1) =~= pv);
            }
            let ghost whole = listing_names(bytes@);
            if !ok {
                assert(whole[i as int - i as int + before.len()] == name@) by {
                    assert(whole == after + nonempty(pv.skip(i + 1)));
                }
                return Err(DropError::BadListing);
            }
            if dup {
                let ghost q = choose|q: int| 0 <= q < names@.len() && names@[q]@ == name@;
                assert(whole == after + nonempty(pv.skip(i + 1)));
                assert(whole[q] == before[q]);
                assert(whole[before.len() as int] == name@);
                return Err(DropError::BadListing);
            }
            names.push(parts[i].clone());
            assert(views(names@) =~= after);
        }
        i = i + 1;
    }
    assert(pv.take(parts@.len() as int) =~= pv);
    Ok(names)
}

} // verus!

verus! {

/// Where each dropped path lands under `stage`, or why it cannot: every
/// path needs a safe final name, and no two may share one.
pub open spec fn staged_roots(stage: Seq<u8>, sources: Seq<Seq<u8>>) -> Result<Seq<Seq<u8>>, DropError>
    decreases sources.len(),
{
    if sources.len() == 0 {
        Ok(Seq::empty())
    } else {
        match staged_roots(stage, sources.drop_last()) {
            Err(e) => Err(e),
            Ok(r) => match path_file_name(sources.last()) {
                None => Err(DropError::NoFileName),
                Some(n) => if !is_safe_name(n) {
                    Err(DropError::UnsafeName)
                } else if r.contains(join(stage, n)) {
                    Err(DropError::DuplicateName)
                } else {
                    Ok(r.push(join(stage, n)))
                },
            },
        }
    }
}

proof fn lemma_staged_err_stays(stage: Seq<u8>, sources: Seq<Seq<u8>>, i: int, e: DropError)
    requires
        0 <= i <= sources.len(),
        staged_roots(stage, sources.take(i)) == Err::<Seq<Seq<u8>>, DropError>(e),
    ensures
        staged_roots(stage, sources) == Err::<Seq<Seq<u8>>, DropError>(e),
    decreases sources.len() - i,
{
    if i < sources.len() {
        assert(sources.take(i + 1).drop_last() =~= sources.take(i));
        lemma_staged_err_stays(stage, sources, i + 1, e);
    } else {
        assert(sources.take(i) =~= sources);
    }
}

fn push_literal(out: &mut Vec<char>, s: &str)
    ensures
        final(out)@ == old(out)@ + s@,
{
    crate::text::push_str(out, s);
}

/// The metadata of a request for a top-level item.
fn root_request_text(mime: i32, root: usize) -> (r: String)
    ensures
        r@ == root_request(mime, root),
{
    let mut out: Vec<char> = Vec::new();
    proof {
        reveal_strlit("t=r:x=");
        reveal_strlit(":y=");
        reveal_strlit(":i=1");
    }
    push_literal(&mut out, "t=r:x=");
    push_signed(&mut out, mime as i64);
    push_literal(&mut out, ":y=");
    push_decimal(&mut out, root as u64);
    push_literal(&mut out, ":i=1");
    assert(out@ =~= root_request(mime, root));
    string_of(&out)
}

/// The metadata of a request for one child of an open directory.
fn child_request_text(handle: i32, index: usize) -> (r: String)
    ensures
        r@ == child_request(handle, index),
{
    let mut out: Vec<char> = Vec::new();
    proof {
        reveal_strlit("t=r:Y=");
        reveal_strlit(":x=");
        reveal_strlit(":i=1");
    }
    push_literal(&mut out, "t=r:Y=");
    push_signed(&mut out, handle as i64);
    push_literal(&mut out, ":x=");
    push_decimal(&mut out, index as u64);
    push_literal(&mut out, ":i=1");
    assert(out@ =~= child_request(handle, index));
    string_of(&out)
}

/// The metadata that closes a directory handle.
fn close_request_text(handle: i32) -> (r: String)
    ensures
        r@ == close_request(handle),
{
    let mut out: Vec<char> = Vec::new();
    proof {
        reveal_strlit("t=r:Y=");
        reveal_strlit(":i=1");
    }
    push_literal(&mut out, "t=r:Y=");
    push_signed(&mut out, handle as i64);
    push_literal(&mut out, ":i=1");
    assert(out@ =~= close_request(handle));
    string_of(&out)
}

/// Where handle `h` is among the open handles.
fn find_handle(rem: &Vec<(i32, usize)>, h: i32) -> (r: Option<usize>)
    ensures
        r matches Some(i) ==> handle_index(rem@, h) == Some(i as int) && i < rem@.len(),
        r is None ==> handle_index(rem@, h) is None,
{
    let mut i: usize = 0;
    while i < rem.len()
        invariant
            i <= rem@.len(),
            forall|j: int| 0 <= j < i ==> rem@[j].0 != h,
        decreases rem@.len() - i,
    {
        if rem[i].0 == h {
            assert(handle_at(rem@, h, i as int));
            proof {
                let c = choose|c: int| handle_at(rem@, h, c);
                assert(c == i as int) by {
                    if c < i {
                        assert(rem@[c].0 != h);
                    } else if c > i {
                        assert(rem@[i as int].0 == h);
                    }
                }
            }
            return Some(i);
        }
        i = i + 1;
    }
    None
}

/// Whether `path` is already one of `roots`.
fn contains_path(roots: &Vec<Vec<u8>>, path: &Vec<u8>) -> (b: bool)
    ensures
        b == views(roots@).contains(path@),
{
    let mut k: usize = 0;
    while k < roots.len()
        invariant
            k <= roots@.len(),
            forall|q: int| 0 <= q < k ==> roots@[q]@ != path@,
        decreases roots@.len() - k,
    {
        if same_bytes(&roots[k], path) {
            assert(views(roots@)[k as int] == path@);
            return true;
        }
        k = k + 1;
    }
    assert(!views(roots@).contains(path@)) by {
        if views(roots@).contains(path@) {
            let q = choose|q: int| 0 <= q < views(roots@).len() && views(roots@)[q] == path@;
            assert(roots@[q]@ == path@);
        }
    }
    false
}

impl Remote {
    /// A drop of `sources` into `stage`, requested with the MIME index the
    /// terminal offered. Nothing has been requested yet: call
    /// [`Remote::request_next`] next.
    pub fn new(stage: Vec<u8>, sources: &Vec<Vec<u8>>, mime_index: i32) -> (r: Result<Remote, DropError>)
        ensures
            r matches Ok(remote) ==> {
                &&& staged_roots(stage@, views(sources@)) == Ok::<Seq<Seq<u8>>, DropError>(views(remote.roots@))
                &&& remote.stage@ == stage@
                &&& remote.mime_index == mime_index
                &&& remote.state() == RemoteV {
                    waiting: Seq::new(sources@.len(), |i: int| TaskV { path: views(remote.roots@)[i], root_index: (i + 1) as usize, parent: None }),
                    current: None,
                    kind: None,
                    file_open: false,
                    small: Seq::empty(),
                    remaining: Seq::empty(),
                }
                &&& remote.wf()
            },
            r matches Err(e) ==> staged_roots(stage@, views(sources@)) == Err::<Seq<Seq<u8>>, DropError>(e),
    {
        let ghost sv = views(sources@);
        let mut roots: Vec<Vec<u8>> = Vec::new();
        let mut waiting: Vec<Task> = Vec::new();
        let mut i: usize = 0;
        assert(sv.take(0) =~= Seq::<Seq<u8>>::empty());
        assert(views(roots@) =~= Seq::<Seq<u8>>::empty());
        while i < sources.len()
            invariant
                i <= sources@.len(),
                sv == views(sources@),
                staged_roots(stage@, sv.take(i as int)) == Ok::<Seq<Seq<u8>>, DropError>(views(roots@)),
                waiting@.len() == i,
                roots@.len() == i,
                forall|q: int| #![trigger waiting@[q]] 0 <= q < i ==> waiting@[q].view() == (TaskV { path: roots@[q]@, root_index: (q + 1) as usize, parent: None }),
            decreases sources@.len() - i,
        {
            assert(sv.take(i + 1).drop_last() =~= sv.take(i as int));
            assert(sv.take(i + 1).last() == sources@[i as int]@);
            let name = match file_name(&sources[i]) {
                Some(n) => n,
                None => {
                    proof {
                        lemma_staged_err_stays(stage@, sv, i + 1, DropError::NoFileName);
                    }
                    return Err(DropError::NoFileName);
                }
            };
            if !safe_name(&name) {
                proof {
                    lemma_staged_err_stays(stage@, sv, i + 1, DropError::UnsafeName);
                }
                return Err(DropError::UnsafeName);
            }
            let path = join_path(&stage, &name);
            if contains_path(&roots, &path) {
                proof {
                    lemma_staged_err_stays(stage@, sv, i + 1, DropError::DuplicateName);
                }
                return Err(DropError::DuplicateName);
            }
            let copy = crate::text::copy_range(&path, 0, path.len());
            assert(copy@ =~= path@);
            let ghost before = views(roots@);
            roots.push(path);
            assert(views(roots@) =~= before.push(copy@));
            waiting.push(Task { path: copy, root_index: i + 1, parent: None });
            i = i + 1;
        }
        assert(sv.take(sources@.len() as int) =~= sv);
        let remote = Remote {
            stage,
            roots,
            mime_index,
            waiting,
            current: None,
            current_kind: None,
            file_open: false,
            small_data: Vec::new(),
            remaining: Vec::new(),
        };
        assert(remote.state().waiting =~= Seq::new(sources@.len(), |i: int| TaskV { path: views(remote.roots@)[i], root_index: (i + 1) as usize, parent: None }));
        assert(remote.state().small =~= Seq::<u8>::empty());
        assert(remote.state().remaining =~= Seq::<(i32, usize)>::empty());
        assert(remote.state() =~= RemoteV {
            waiting: Seq::new(sources@.len(), |i: int| TaskV { path: views(remote.roots@)[i], root_index: (i + 1) as usize, parent: None }),
            current: None,
            kind: None,
            file_open: false,
            small: Seq::empty(),
            remaining: Seq::empty(),
        });
        assert(staged_roots(stage@, views(sources@)) == Ok::<Seq<Seq<u8>>, DropError>(views(remote.roots@)));
        assert(remote.wf());
        Ok(remote)
    }
}

} // verus!

verus! {

/// One message of a remote drop, from the state before it to the state
/// after, with the effects to carry out and the outcome. An error ends the
/// drop: the caller abandons it and cleans up the stage.
pub open spec fn receive_step(s: RemoteV, m: Message, mime: i32, cancelled: bool) -> (RemoteV, Seq<EffectV>, Result<bool, DropError>) {
    if cancelled {
        (s, Seq::empty(), Err(DropError::Cancelled))
    } else if s.current is None {
        (s, Seq::empty(), Err(DropError::Unsolicited))
    } else {
        match begin_step(s, m, mime) {
            Err(e) => (s, Seq::empty(), Err(e)),
            Ok((s1, fx1)) => match payload_bytes(m) {
                None => (s1, fx1, Err(DropError::InvalidBase64)),
                Some(d) => match data_step(s1, d) {
                    Err(e) => (s1, fx1, Err(e)),
                    Ok((s2, fx2)) => if !m.spec_end_of_data() {
                        (s2, fx1 + fx2, Ok(false))
                    } else {
                        match finish_step(s2, s2.current.unwrap(), s2.kind.unwrap()) {
                            Err(e) => (s2, fx1 + fx2, Err(e)),
                            Ok((s3, fx3)) => {
                                let (s4, fx4, done) = request_next_step(s3, mime);
                                (s4, fx1 + fx2 + fx3 + fx4, Ok(done))
                            },
                        }
                    },
                },
            },
        }
    }
}

fn copy_bytes(v: &Vec<u8>) -> (out: Vec<u8>)
    ensures
        out@ == v@,
{
    let out = crate::text::copy_range(v, 0, v.len());
    assert(out@ =~= v@);
    out
}

impl Remote {
    pub open spec fn same_drop(&self, other: &Remote) -> bool {
        &&& self.stage@ == other.stage@
        &&& views(self.roots@) == views(other.roots@)
        &&& self.mime_index == other.mime_index
    }

    /// Send the next request, or report that the whole tree has arrived.
    pub fn request_next(&mut self) -> (reply: Reply)
        requires
            old(self).wf(),
        ensures
            final(self).wf(),
            final(self).same_drop(old(self)),
            ({
                let (s, fx, done) = request_next_step(old(self).state(), old(self).mime_index);
                &&& final(self).state() == s
                &&& effects_view(reply.effects@) == fx
                &&& reply.outcome == Ok::<bool, DropError>(done)
            }),
    {
        if self.waiting.len() == 0 {
            let effects: Vec<Effect> = Vec::new();
            assert(effects_view(effects@) =~= Seq::<EffectV>::empty());
            return Reply { effects, outcome: Ok(true) };
        }
        let ghost pre = self.state();
        let task = self.waiting.remove(0);
        assert(task.view() == pre.waiting[0]);
        let meta = match task.parent {
            Some((h, i)) => child_request_text(h, i),
            None => root_request_text(self.mime_index, task.root_index),
        };
        self.current = Some(task);
        self.current_kind = None;
        self.file_open = false;
        self.small_data.clear();
        let mut effects: Vec<Effect> = Vec::new();
        effects.push(Effect::Send(meta));
        let ghost want = request_next_step(pre, self.mime_index);
        assert(self.state().waiting =~= pre.waiting.skip(1));
        assert(self.state().small =~= Seq::<u8>::empty());
        assert(self.state() =~= want.0);
        assert(effects_view(effects@) =~= want.1);
        Reply { effects, outcome: Ok(false) }
    }

    /// The part of a chunk that settles the item's type.
    fn begin(&mut self, m: &Message) -> (r: Result<Vec<Effect>, DropError>)
        requires
            old(self).wf(),
            old(self).current is Some,
        ensures
            final(self).same_drop(old(self)),
            final(self).current is Some,
            match begin_step(old(self).state(), *m, old(self).mime_index) {
                Ok((s1, fx1)) => r matches Ok(fx) && final(self).state() == s1 && effects_view(fx@) == fx1 && final(self).wf(),
                Err(e) => r == Err::<Vec<Effect>, DropError>(e) && final(self).state() == old(self).state() && final(self).wf(),
            },
    {
        proof {
            reveal_strlit("X");
            reveal_strlit("Y");
            reveal_strlit("x");
            reveal_strlit("y");
        }
        let ghost pre = self.state();
        let x_kind = m.number("X");
        assert("X"@ =~= seq!['X']);
        let mut effects: Vec<Effect> = Vec::new();
        assert(effects_view(effects@) =~= Seq::<EffectV>::empty());
        match self.current_kind {
            Some(old) => {
                if let Some(k) = x_kind {
                    if k != old {
                        return Err(DropError::TypeChanged);
                    }
                }
                Ok(effects)
            }
            None => {
                let t = self.current.as_ref().unwrap();
                let matching = match t.parent {
                    Some((h, i)) => {
                        let yy = m.number("Y");
                        let xx = m.number("x");
                        assert("Y"@ =~= seq!['Y']);
                        assert("x"@ =~= seq!['x']);
                        yy == Some(h) && xx == Some(i as i32)
                    }
                    None => {
                        let xx = m.number("x");
                        let yy = m.number("y");
                        assert("x"@ =~= seq!['x']);
                        assert("y"@ =~= seq!['y']);
                        xx == Some(self.mime_index) && yy == Some(t.root_index as i32)
                    }
                };
                assert(matching == answers(*m, t.view(), self.mime_index));
                if !matching {
                    return Err(DropError::Mismatch);
                }
                let kind = match x_kind {
                    Some(k) => k,
                    None => 0,
                };
                let path = copy_bytes(&t.path);
                if kind == 0 && !self.file_open {
                    self.current_kind = Some(kind);
                    self.file_open = true;
                    effects.push(Effect::CreateFile(path));
                } else if kind >= 2 {
                    self.current_kind = Some(kind);
                    effects.push(Effect::CreateDir(path));
                } else if kind != 1 && kind != 0 {
                    return Err(DropError::InvalidType);
                } else {
                    self.current_kind = Some(kind);
                }
                assert(effects_view(effects@) =~= begin_step(pre, *m, self.mime_index).unwrap().1);
                assert(self.state() =~= begin_step(pre, *m, self.mime_index).unwrap().0);
                Ok(effects)
            }
        }
    }
}

} // verus!

verus! {

impl Remote {
    /// The part of a chunk that takes in its bytes.
    fn take_data(&mut self, data: Vec<u8>) -> (r: Result<Vec<Effect>, DropError>)
        requires
            old(self).wf(),
            old(self).current is Some,
        ensures
            final(self).same_drop(old(self)),
            final(self).current is Some,
            final(self).current_kind == old(self).current_kind,
            match data_step(old(self).state(), data@) {
                Ok((s2, fx2)) => r matches Ok(fx) && final(self).state() == s2 && effects_view(fx@) == fx2 && final(self).wf(),
                Err(e) => r == Err::<Vec<Effect>, DropError>(e) && final(self).state() == old(self).state() && final(self).wf(),
            },
    {
        let ghost pre = self.state();
        let mut effects: Vec<Effect> = Vec::new();
        if self.current_kind == Some(0i32) {
            let ghost d = data@;
            effects.push(Effect::Write(data));
            assert(effects_view(effects@) =~= seq![EffectV::Write(d)]);
            return Ok(effects);
        }
        if data.len() > 8388608 - self.small_data.len() {
            return Err(DropError::TooLarge);
        }
        let mut i: usize = 0;
        while i < data.len()
            invariant
                i <= data@.len(),
                self.small_data@ == pre.small + data@.take(i as int),
                pre.small.len() + data@.len() <= small_limit(),
                self.stage == old(self).stage,
                self.roots == old(self).roots,
                self.mime_index == old(self).mime_index,
                self.waiting == old(self).waiting,
                self.current == old(self).current,
                self.current_kind == old(self).current_kind,
                self.file_open == old(self).file_open,
                self.remaining == old(self).remaining,
                pre == old(self).state(),
            decreases data@.len() - i,
        {
            self.small_data.push(data[i]);
            assert(data@.take(i + 1) =~= data@.take(i as int).push(data@[i as int]));
            i = i + 1;
        }
        assert(data@.take(data@.len() as int) =~= data@);
        assert(self.state() =~= data_step(pre, data@).unwrap().0);
        assert(effects_view(effects@) =~= Seq::<EffectV>::empty());
        Ok(effects)
    }
}

} // verus!

verus! {

impl Remote {
    /// After an item's last chunk.
    #[verifier::rlimit(60)]
    #[verifier::spinoff_prover]
    fn finish(&mut self) -> (r: Result<Vec<Effect>, DropError>)
        requires
            old(self).wf(),
            old(self).current is Some,
            old(self).current_kind is Some,
        ensures
            final(self).same_drop(old(self)),
            match finish_step(old(self).state(), old(self).state().current.unwrap(), old(self).current_kind.unwrap()) {
                Ok((s3, fx3)) => r matches Ok(fx) && final(self).state() == s3 && effects_view(fx@) == fx3 && final(self).wf(),
                Err(e) => r == Err::<Vec<Effect>, DropError>(e) && final(self).state() == old(self).state() && final(self).wf(),
            },
    {
        let ghost pre = self.state();
        let kind = self.current_kind.unwrap();
        let (tpath, troot, tparent) = match &self.current {
            Some(t) => (copy_bytes(&t.path), t.root_index, t.parent),
            None => {
                return Err(DropError::Unsolicited);
            }
        };
        let ghost t = pre.current.unwrap();
        assert(tpath@ == t.path && troot == t.root_index && tparent == t.parent);
        let mut effects: Vec<Effect> = Vec::new();
        let mut children: Vec<Task> = Vec::new();
        let mut rem = crate::text::copy_range(&self.remaining, 0, self.remaining.len());
        assert(rem@ =~= pre.remaining);
        let mut clear_small = false;
        let ghost base = RemoteV { current: None, file_open: false, ..pre };
        let ghost made: (RemoteV, Seq<EffectV>);
        if kind == 1 {
            let target = copy_bytes(&self.small_data);
            effects.push(Effect::Symlink { target, path: copy_bytes(&tpath) });
            clear_small = true;
            proof {
                made = (RemoteV { small: Seq::empty(), ..base }, seq![EffectV::Symlink(pre.small, t.path)]);
                assert(effects_view(effects@) =~= made.1);
            }
        } else if kind >= 2 {
            let names = match split_names(&self.small_data) {
                Ok(n) => n,
                Err(e) => {
                    return Err(e);
                }
            };
            let ghost nv = listing_names(pre.small);
            if find_handle(&rem, kind).is_some() {
                return Err(DropError::ReusedHandle);
            }
            let mut i: usize = 0;
            while i < names.len()
                invariant
                    i <= names@.len(),
                    views(names@) == nv,
                    children@.len() == i,
                    forall|q: int| #![trigger children@[q]] 0 <= q < i ==> children@[q].view() == child_tasks(t, kind, nv)[q],
                    tpath@ == t.path,
                    troot == t.root_index,
                decreases names@.len() - i,
            {
                let p = join_path(&tpath, &names[i]);
                children.push(Task { path: p, root_index: troot, parent: Some((kind, i + 1)) });
                i = i + 1;
            }
            if names.len() == 0 {
                effects.push(Effect::Send(close_request_text(kind)));
                proof {
                    made = (RemoteV { waiting: pre.waiting + child_tasks(t, kind, nv), ..base }, seq![EffectV::Send(close_request(kind))]);
                    assert(effects_view(effects@) =~= made.1);
                }
            } else {
                rem.push((kind, names.len()));
                proof {
                    made = (RemoteV {
                        waiting: pre.waiting + child_tasks(t, kind, nv),
                        remaining: pre.remaining.push((kind, nv.len() as usize)),
                        ..base
                    }, Seq::empty());
                    assert(effects_view(effects@) =~= made.1);
                }
            }
        } else {
            proof {
                made = (base, Seq::empty());
                assert(effects_view(effects@) =~= made.1);
            }
        }
        assert(rem@ == made.0.remaining);
        assert(forall|q: int| 0 <= q < rem@.len() ==> (#[trigger] rem@[q]).1 > 0);
        let ghost fx_before = effects_view(effects@);
        let ghost done: (RemoteV, Seq<EffectV>);
        match tparent {
            None => {
                proof {
                    done = made;
                }
            }
            Some((h, _)) => {
                match find_handle(&rem, h) {
                    None => {
                        return Err(DropError::UnknownHandle);
                    }
                    Some(i) => {
                        let left = rem[i].1 - 1;
                        if left == 0 {
                            rem.remove(i);
                            effects.push(Effect::Send(close_request_text(h)));
                            proof {
                                done = (RemoteV { remaining: made.0.remaining.remove(i as int), ..made.0 }, made.1.push(EffectV::Send(close_request(h))));
                                assert(effects_view(effects@) =~= done.1);
                            }
                        } else {
                            rem.set(i, (h, left));
                            proof {
                                done = (RemoteV { remaining: made.0.remaining.update(i as int, (h, left)), ..made.0 }, made.1);
                                assert(effects_view(effects@) =~= done.1);
                            }
                        }
                    }
                }
            }
        }
        assert(rem@ == done.0.remaining);
        let ghost old_waiting = self.waiting@;
        self.waiting.append(&mut children);
        self.remaining = rem;
        if clear_small {
            self.small_data.clear();
        }
        self.current = None;
        self.file_open = false;
        assert(self.state().waiting =~= done.0.waiting);
        assert(self.state().small =~= done.0.small);
        assert(self.state() =~= done.0);
        Ok(effects)
    }
}

} // verus!

verus! {

impl Remote {
    /// Take one message of the drop. `cancelled` is whether the transfer was
    /// cancelled meanwhile.
    pub fn receive(&mut self, m: &Message, cancelled: bool) -> (reply: Reply)
        requires
            old(self).wf(),
        ensures
            final(self).wf(),
            final(self).same_drop(old(self)),
            ({
                let (s, fx, outcome) = receive_step(old(self).state(), *m, old(self).mime_index, cancelled);
                &&& final(self).state() == s
                &&& effects_view(reply.effects@) == fx
                &&& reply.outcome == outcome
            }),
    {
        let ghost pre = self.state();
        let ghost mime = self.mime_index;
        let empty: Vec<Effect> = Vec::new();
        assert(effects_view(empty@) =~= Seq::<EffectV>::empty());
        if cancelled {
            return Reply { effects: empty, outcome: Err(DropError::Cancelled) };
        }
        if self.current.is_none() {
            return Reply { effects: empty, outcome: Err(DropError::Unsolicited) };
        }
        let mut effects = match self.begin(m) {
            Ok(fx) => fx,
            Err(e) => {
                return Reply { effects: empty, outcome: Err(e) };
            }
        };
        let ghost s1 = self.state();
        let ghost fx1 = effects_view(effects@);
        assert(self.current_kind is Some) by {
            match pre.kind {
                Some(_) => {}
                None => {}
            }
        }
        let data = match m.data() {
            Some(d) => d,
            None => {
                return Reply { effects, outcome: Err(DropError::InvalidBase64) };
            }
        };
        assert(payload_bytes(*m) == Some(data@));
        let mut more = match self.take_data(data) {
            Ok(fx) => fx,
            Err(e) => {
                return Reply { effects, outcome: Err(e) };
            }
        };
        let ghost fx2 = effects_view(more@);
        let ghost s2 = self.state();
        effects.append(&mut more);
        assert(effects_view(effects@) =~= fx1 + fx2);
        if !m.end_of_data() {
            return Reply { effects, outcome: Ok(false) };
        }
        let mut fin = match self.finish() {
            Ok(fx) => fx,
            Err(e) => {
                return Reply { effects, outcome: Err(e) };
            }
        };
        let ghost fx3 = effects_view(fin@);
        effects.append(&mut fin);
        assert(effects_view(effects@) =~= fx1 + fx2 + fx3);
        let mut next = self.request_next();
        let ghost fx4 = effects_view(next.effects@);
        effects.append(&mut next.effects);
        assert(effects_view(effects@) =~= fx1 + fx2 + fx3 + fx4);
        Reply { effects, outcome: next.outcome }
    }
}

} // verus!

verus! {

/// Whether `p` is `stage`, a `/`, and one or more safe names joined by
/// `/`: a path that cannot leave `stage`.
pub open spec fn under(stage: Seq<u8>, p: Seq<u8>) -> bool
    decreases p.len(),
{
    match crate::text::last_index(p, 0x2fu8) {
        None => false,
        Some(i) => {
            let name = p.skip(i + 1);
            is_safe_name(name) && (p == join(stage, name) || (0 <= i < p.len() && under(stage, p.take(i))))
        },
    }
}

proof fn lemma_last_index_at(s: Seq<u8>, c: u8)
    ensures
        crate::text::last_index(s, c) matches Some(i) ==> crate::text::last_at(s, c, i),
{
}

proof fn lemma_under_ends_in_a_name(stage: Seq<u8>, p: Seq<u8>)
    requires
        under(stage, p),
    ensures
        p.len() > 0,
        p.last() != 0x2fu8,
{
    lemma_last_index_at(p, 0x2fu8);
    let i = crate::text::last_index(p, 0x2fu8).unwrap();
    let name = p.skip(i + 1);
    assert(name.len() > 0);
    assert(p.last() == name.last());
    assert(name.contains(name.last())) by {
        assert(name[name.len() - 1] == name.last());
    }
}

proof fn lemma_joined_name(q: Seq<u8>, n: Seq<u8>)
    requires
        is_safe_name(n),
    ensures
        crate::text::last_index(q.push(0x2fu8) + n, 0x2fu8) == Some(q.len() as int),
        (q.push(0x2fu8) + n).skip(q.len() as int + 1) == n,
        (q.push(0x2fu8) + n).take(q.len() as int) == q,
{
    let p = q.push(0x2fu8) + n;
    assert forall|j: int| q.len() < j < p.len() implies p[j] != 0x2fu8 by {
        assert(p[j] == n[j - q.len() - 1]);
        if n[j - q.len() - 1] == 0x2fu8 {
            assert(n.contains(0x2fu8));
        }
    }
    crate::text::lemma_last_index_is(p, 0x2fu8, q.len() as int);
    assert(p.skip(q.len() as int + 1) =~= n);
    assert(p.take(q.len() as int) =~= q);
}

proof fn lemma_under_join_stage(stage: Seq<u8>, n: Seq<u8>)
    requires
        stage.len() > 0,
        is_safe_name(n),
    ensures
        under(stage, join(stage, n)),
{
    if stage.last() == 0x2fu8 {
        let q = stage.drop_last();
        assert(stage == q.push(0x2fu8));
        assert(join(stage, n) == q.push(0x2fu8) + n);
        lemma_joined_name(q, n);
    } else {
        lemma_joined_name(stage, n);
    }
}

proof fn lemma_under_join(stage: Seq<u8>, q: Seq<u8>, n: Seq<u8>)
    requires
        under(stage, q),
        is_safe_name(n),
    ensures
        under(stage, join(q, n)),
{
    lemma_under_ends_in_a_name(stage, q);
    lemma_joined_name(q, n);
    assert(join(q, n) == q.push(0x2fu8) + n);
}

/// Every task of a drop state lies under `stage`.
pub open spec fn tasks_under(stage: Seq<u8>, s: RemoteV) -> bool {
    &&& forall|i: int| 0 <= i < s.waiting.len() ==> under(stage, #[trigger] s.waiting[i].path)
    &&& s.current matches Some(t) ==> under(stage, t.path)
}

/// Whether an effect makes something under `stage`, when it makes
/// anything.
pub open spec fn effect_under(stage: Seq<u8>, e: EffectV) -> bool {
    match e {
        EffectV::CreateFile(p) => under(stage, p),
        EffectV::CreateDir(p) => under(stage, p),
        EffectV::Symlink(_, p) => under(stage, p),
        _ => true,
    }
}

/// Whether every effect makes what it makes under `stage`.
pub open spec fn effects_under(stage: Seq<u8>, fx: Seq<EffectV>) -> bool {
    forall|i: int| 0 <= i < fx.len() ==> effect_under(stage, #[trigger] fx[i])
}

proof fn lemma_effects_concat(stage: Seq<u8>, a: Seq<EffectV>, b: Seq<EffectV>)
    requires
        effects_under(stage, a),
        effects_under(stage, b),
    ensures
        effects_under(stage, a + b),
{
    assert forall|i: int| 0 <= i < (a + b).len() implies effect_under(stage, #[trigger] (a + b)[i]) by {
        if i < a.len() {
            assert((a + b)[i] == a[i]);
        } else {
            assert((a + b)[i] == b[i - a.len()]);
        }
    }
}

/// Every item a drop stages lands directly under the stage.
pub proof fn law_dropped_items_land_in_the_stage(stage: Seq<u8>, sources: Seq<Seq<u8>>)
    requires
        stage.len() > 0,
    ensures
        staged_roots(stage, sources) matches Ok(r) ==> forall|i: int| 0 <= i < r.len() ==> under(stage, #[trigger] r[i]),
    decreases sources.len(),
{
    if sources.len() > 0 {
        law_dropped_items_land_in_the_stage(stage, sources.drop_last());
        if let Ok(r) = staged_roots(stage, sources.drop_last()) {
            if let Some(n) = path_file_name(sources.last()) {
                if is_safe_name(n) {
                    lemma_under_join_stage(stage, n);
                }
            }
        }
    }
}

proof fn lemma_request_next_under(stage: Seq<u8>, s: RemoteV, mime: i32)
    requires
        tasks_under(stage, s),
    ensures
        tasks_under(stage, request_next_step(s, mime).0),
        effects_under(stage, request_next_step(s, mime).1),
{
    if s.waiting.len() > 0 {
        let t = request_next_step(s, mime).0;
        assert forall|i: int| 0 <= i < t.waiting.len() implies under(stage, #[trigger] t.waiting[i].path) by {
            assert(t.waiting[i] == s.waiting[i + 1]);
        }
    }
}

proof fn lemma_finish_under(stage: Seq<u8>, s: RemoteV, t: TaskV, kind: i32)
    requires
        tasks_under(stage, s),
        under(stage, t.path),
    ensures
        finish_step(s, t, kind) matches Ok((s2, fx)) ==> tasks_under(stage, s2) && effects_under(stage, fx),
{
    if kind >= 2 {
        let names = listing_names(s.small);
        if listing_ok(names) {
            let kids = child_tasks(t, kind, names);
            assert forall|i: int| 0 <= i < kids.len() implies under(stage, #[trigger] kids[i].path) by {
                assert(is_safe_name(names[i]));
                lemma_under_join(stage, t.path, names[i]);
            }
            let w = s.waiting + kids;
            assert forall|i: int| 0 <= i < w.len() implies under(stage, #[trigger] w[i].path) by {
                if i < s.waiting.len() {
                    assert(w[i] == s.waiting[i]);
                } else {
                    assert(w[i] == kids[i - s.waiting.len()]);
                }
            }
        }
    }
}

/// A remote drop never makes anything outside its stage: when every item
/// it holds lies under the stage, so does every item after a message, and
/// every file, directory and link the message makes lies under the stage
/// too. Asking for the next item keeps the same.
pub proof fn law_a_drop_never_leaves_its_stage(stage: Seq<u8>, s: RemoteV, m: Message, mime: i32, cancelled: bool)
    requires
        tasks_under(stage, s),
    ensures
        tasks_under(stage, receive_step(s, m, mime, cancelled).0),
        effects_under(stage, receive_step(s, m, mime, cancelled).1),
        tasks_under(stage, request_next_step(s, mime).0),
        effects_under(stage, request_next_step(s, mime).1),
{
    lemma_request_next_under(stage, s, mime);
    if !cancelled && s.current is Some {
        let t = s.current.unwrap();
        match begin_step(s, m, mime) {
            Err(_) => {},
            Ok((s1, fx1)) => {
                assert(effects_under(stage, fx1));
                assert(tasks_under(stage, s1));
                match payload_bytes(m) {
                    None => {},
                    Some(d) => match data_step(s1, d) {
                        Err(_) => {},
                        Ok((s2, fx2)) => {
                            assert(effects_under(stage, fx2));
                            assert(tasks_under(stage, s2));
                            lemma_effects_concat(stage, fx1, fx2);
                            if m.spec_end_of_data() {
                                let t2 = s2.current.unwrap();
                                lemma_finish_under(stage, s2, t2, s2.kind.unwrap());
                                match finish_step(s2, t2, s2.kind.unwrap()) {
                                    Err(_) => {},
                                    Ok((s3, fx3)) => {
                                        lemma_request_next_under(stage, s3, mime);
                                        lemma_effects_concat(stage, fx1 + fx2, fx3);
                                        lemma_effects_concat(stage, fx1 + fx2 + fx3, request_next_step(s3, mime).1);
                                    },
                                }
                            }
                        },
                    },
                }
            },
        }
    }
}

} // verus!

verus! {

/// The most a dropped URI list may hold: eight MiB.
pub open spec fn uri_list_limit() -> int {
    8388608int
}

/// What one more chunk of a dropped URI list led to.
#[derive(Debug, PartialEq, Eq)]
pub enum UriStep {
    /// More is to come.
    More,
    /// The list is complete: the paths it names.
    Done(Vec<Vec<u8>>),
    /// The chunk did not decode, the list grew past the limit, or the
    /// complete list names no file.
    Failed,
}

/// One chunk of a URI list arriving: its bytes, checked against the limit,
/// join what came before; the empty closing message ends the list, which
/// then has to name at least one file.
pub fn receive_uri_chunk(received: &mut Vec<u8>, m: &Message) -> (r: UriStep)
    ensures
        match payload_bytes(*m) {
            None => r == UriStep::Failed && final(received)@ == old(received)@,
            Some(d) => if old(received)@.len() + d.len() > uri_list_limit() {
                r == UriStep::Failed && final(received)@ == old(received)@
            } else {
                &&& final(received)@ == old(received)@ + d
                &&& !m.spec_end_of_data() ==> r == UriStep::More
                &&& m.spec_end_of_data() ==> match crate::uri::uri_list_of(old(received)@ + d) {
                    Some(paths) => r matches UriStep::Done(v) && views(v@) == paths,
                    None => r == UriStep::Failed,
                }
            },
        },
{
    let data = match m.data() {
        Some(d) => d,
        None => return UriStep::Failed,
    };
    if data.len() > 8388608 || received.len() > 8388608 - data.len() {
        return UriStep::Failed;
    }
    let ghost before = received@;
    let mut i: usize = 0;
    while i < data.len()
        invariant
            i <= data@.len(),
            received@ == before + data@.take(i as int),
        decreases data@.len() - i,
    {
        received.push(data[i]);
        assert(data@.take(i + 1) =~= data@.take(i as int).push(data@[i as int]));
        i = i + 1;
    }
    assert(data@.take(data@.len() as int) =~= data@);
    if !m.end_of_data() {
        return UriStep::More;
    }
    match crate::uri::uri_list(received.as_slice()) {
        Some(paths) => {
            assert(views(paths@) =~= paths@.map_values(|p: Vec<u8>| p@));
            UriStep::Done(paths)
        },
        None => UriStep::Failed,
    }
}


/// A URI-list message with `X=1` says the drop comes from another machine.
pub fn marks_remote(m: &Message) -> (b: bool)
    ensures
        b == (m.number_of("X"@) == Some(1i32)),
{
    match m.number("X") {
        Some(n) => n == 1,
        None => false,
    }
}

/// What becomes of a complete URI list.
#[derive(Debug, Clone, Copy, PartialEq, Eq)]
pub enum UriOutcome {
    /// From another machine: its files are asked for by the MIME type
    /// offered at this index, into the destination.
    Import { mime_index: usize },
    /// Local paths: queued as a copy, the operation then shown as `result`.
    Queue { result: OpKind },
    /// From another machine, but no MIME type was chosen to ask by.
    Failed,
}

/// What a complete URI list leads to: a remote drop is imported by the
/// chosen MIME type, which it needs; a local one is queued as a copy and
/// shown as the operation the drop asked for, a copy when it asked none.
pub open spec fn uri_outcome_of(remote: bool, mime_index: Option<usize>, result_kind: Option<OpKind>) -> UriOutcome {
    if remote {
        match mime_index {
            Some(i) => UriOutcome::Import { mime_index: i },
            None => UriOutcome::Failed,
        }
    } else {
        UriOutcome::Queue { result: match result_kind { Some(k) => k, None => OpKind::Copy } }
    }
}

/// What a complete URI list leads to.
pub fn uri_outcome(remote: bool, mime_index: Option<usize>, result_kind: Option<OpKind>) -> (r: UriOutcome)
    ensures
        r == uri_outcome_of(remote, mime_index, result_kind),
{
    if remote {
        match mime_index {
            Some(i) => UriOutcome::Import { mime_index: i },
            None => UriOutcome::Failed,
        }
    } else {
        UriOutcome::Queue { result: match result_kind { Some(k) => k, None => OpKind::Copy } }
    }
}


/// When a directory's listing is in, each child it names is queued to be
/// asked for by its 1-based place in the listing and staged under the
/// directory by its own name: the reply to index `k + 1` is written to the
/// path of the `k`th name.
pub proof fn law_a_child_is_asked_for_by_its_place_in_the_listing(s: RemoteV, t: TaskV, kind: i32, k: int)
    requires
        kind >= 2,
        0 <= k < listing_names(s.small).len(),
        finish_step(s, t, kind) is Ok,
    ensures
        ({
            let s2 = finish_step(s, t, kind)->Ok_0.0;
            let names = listing_names(s.small);
            &&& s2.waiting.len() == s.waiting.len() + names.len()
            &&& s2.waiting.take(s.waiting.len() as int) == s.waiting
            &&& s2.waiting[s.waiting.len() + k] == (TaskV {
                path: join(t.path, names[k]),
                root_index: t.root_index,
                parent: Some((kind, (k + 1) as usize)),
            })
        }),
{
    let s2 = finish_step(s, t, kind)->Ok_0.0;
    let names = listing_names(s.small);
    assert((s.waiting + child_tasks(t, kind, names)).take(s.waiting.len() as int) =~= s.waiting);
}


/// The items are asked for first in, first out: the next request names the
/// first waiting item, by its handle and place for a child and by the MIME
/// type and root index for a dropped item, and that item becomes the one
/// being received; with nothing waiting the drop is done.
pub proof fn law_the_next_request_asks_for_the_first_waiting_item(s: RemoteV, mime: i32)
    ensures
        ({
            let (s2, fx, done) = request_next_step(s, mime);
            &&& done <==> s.waiting.len() == 0
            &&& s.waiting.len() > 0 ==> {
                &&& s2.current == Some(s.waiting[0])
                &&& s2.waiting == s.waiting.skip(1)
                &&& fx == seq![EffectV::Send(match s.waiting[0].parent {
                    Some((h, i)) => seq!['t', '=', 'r', ':', 'Y', '='] + signed_decimal(h as int) + seq![':', 'x', '=']
                        + decimal(i as nat) + seq![':', 'i', '=', '1'],
                    None => seq!['t', '=', 'r', ':', 'x', '='] + signed_decimal(mime as int) + seq![':', 'y', '=']
                        + decimal(s.waiting[0].root_index as nat) + seq![':', 'i', '=', '1'],
                })]
            }
        }),
{
}

/// A reply is taken only for the item asked for: a child's first chunk must
/// carry its handle as `Y` and its place as `x`, a dropped item's the MIME
/// type as `x` and its root index as `y`; a file's first chunk creates the
/// file at the item's own path, a directory's makes the directory there.
pub proof fn law_a_reply_lands_at_the_path_asked_for(s: RemoteV, m: Message, mime: i32)
    requires
        s.current is Some,
        s.kind is None,
    ensures
        ({
            let t = s.current->0;
            let r = begin_step(s, m, mime);
            &&& (match t.parent {
                Some((h, i)) => !(m.number_of(seq!['Y']) == Some(h) && m.number_of(seq!['x']) == Some(i as i32)),
                None => !(m.number_of(seq!['x']) == Some(mime) && m.number_of(seq!['y']) == Some(t.root_index as i32)),
            }) ==> r == Err::<(RemoteV, Seq<EffectV>), DropError>(DropError::Mismatch)
            &&& (r is Ok && r->Ok_0.1.len() > 0) ==> (r->Ok_0.1 == seq![EffectV::CreateFile(t.path)]
                || r->Ok_0.1 == seq![EffectV::CreateDir(t.path)])
        }),
{
}

} // verus!
