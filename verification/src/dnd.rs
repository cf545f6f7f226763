//! Kitty's OSC 72 drag-and-drop wire format: one escape's fields and payload,
//! the file URIs a drop carries, and the bookkeeping of a remote drop that
//! is requested one item at a time.
//!
//! Nothing here touches the filesystem or the terminal. A remote drop
//! answers each message with the effects the caller has to carry out, in
//! order, and the caller reports back the next message.
use vstd::prelude::*;
use vstd::string::*;
use crate::text::{chars_of, copy_range, find_char, first_index, lemma_split_on_nonempty, parse_i32, parse_i32_chars, split_on, split_once, split_parts, string_of};
use base64::Engine;
use crate::ops::{OpId, OpKind, OpStatus};

verus! {

/// Decode standard base64 with `=` padding.
///
/// Trusted: `base64::engine::general_purpose::STANDARD.decode`, which
/// decodes the payload or refuses it; its result depends on the payload
/// alone, and padded standard base64 comes back as the bytes it was
/// written from.
#[verifier::external_body]
fn decode_padded(payload: &str) -> (r: Option<Vec<u8>>)
    ensures
        r matches Some(v) ==> base64_padded(payload@) == Some(v@),
        r is None ==> base64_padded(payload@) is None,
        r is None ==> !(exists|b: Seq<u8>| base64_padded_text(b) == payload@),
        r matches Some(v) ==> (forall|b: Seq<u8>| base64_padded_text(b) == payload@ ==> v@ == b),
{
    base64::engine::general_purpose::STANDARD.decode(payload).ok()
}

/// Decode standard base64 without padding.
///
/// Trusted: `base64::engine::general_purpose::STANDARD_NO_PAD.decode`, the
/// same alphabet as [`decode_padded`], refusing `=` padding; its result
/// depends on the payload alone, and what [`encode_unpadded`] wrote comes
/// back as the bytes it was written from.
#[verifier::external_body]
fn decode_unpadded(payload: &str) -> (r: Option<Vec<u8>>)
    ensures
        r matches Some(v) ==> base64_unpadded(payload@) == Some(v@),
        r is None ==> base64_unpadded(payload@) is None,
        r is None ==> !(exists|b: Seq<u8>| base64_text(b) == payload@),
        r matches Some(v) ==> (forall|b: Seq<u8>| base64_text(b) == payload@ ==> v@ == b),
{
    base64::engine::general_purpose::STANDARD_NO_PAD.decode(payload).ok()
}

/// What the padded standard base64 decoder makes of a payload.
pub uninterp spec fn base64_padded(payload: Seq<char>) -> Option<Seq<u8>>;

/// What the unpadded standard base64 decoder makes of a payload.
pub uninterp spec fn base64_unpadded(payload: Seq<char>) -> Option<Seq<u8>>;

/// One `key=value` field, or nothing if the piece is not one: a field has
/// an `=`, a key before it, and no `ESC` or `BEL` in its value.
pub open spec fn field_of(part: Seq<char>) -> Option<(Seq<char>, Seq<char>)> {
    match split_once(part, '=') {
        Some((k, v)) => if k.len() == 0 || v.contains('\x1b') || v.contains('\x07') {
            None
        } else {
            Some((k, v))
        },
        None => None,
    }
}

/// An escape split at its first `;`: the metadata before, the payload after
/// (empty when there is no `;`).
pub open spec fn meta_and_payload(raw: Seq<char>) -> (Seq<char>, Seq<char>) {
    match split_once(raw, ';') {
        Some(p) => p,
        None => (raw, Seq::empty()),
    }
}

/// The fields of one escape, without its `ESC ] 72 ;` framing, and its
/// payload: every `:`-separated piece of the metadata must be a field, and
/// there must be at least one.
pub open spec fn parse_message(raw: Seq<char>) -> Option<(Seq<(Seq<char>, Seq<char>)>, Seq<char>)> {
    let (meta, payload) = meta_and_payload(raw);
    let parts = split_on(meta, ':');
    if parts.len() > 0 && forall|k: int| 0 <= k < parts.len() ==> (#[trigger] field_of(parts[k])) is Some {
        Some((parts.map_values(|p: Seq<char>| field_of(p).unwrap()), payload))
    } else {
        None
    }
}

/// Where `key` is first found among `fields`.
pub open spec fn key_first_at(fields: Seq<(Seq<char>, Seq<char>)>, key: Seq<char>, i: int) -> bool {
    &&& 0 <= i < fields.len()
    &&& fields[i].0 == key
    &&& forall|j: int| 0 <= j < i ==> fields[j].0 != key
}

/// The value of the first field named `key`.
pub open spec fn lookup(fields: Seq<(Seq<char>, Seq<char>)>, key: Seq<char>) -> Option<Seq<char>> {
    if exists|i: int| key_first_at(fields, key, i) {
        Some(fields[choose|i: int| key_first_at(fields, key, i)].1)
    } else {
        None
    }
}

/// A whole OSC 72 escape without its framing.
#[derive(Debug, Clone, PartialEq, Eq)]
pub struct Message {
    pub metadata: Vec<(String, String)>,
    pub payload: String,
}

impl Message {
    pub open spec fn fields(&self) -> Seq<(Seq<char>, Seq<char>)> {
        self.metadata@.map_values(|p: (String, String)| (p.0@, p.1@))
    }

    /// The field `key`, read as a number.
    pub open spec fn number_of(&self, key: Seq<char>) -> Option<i32> {
        match lookup(self.fields(), key) {
            Some(v) => parse_i32(v),
            None => None,
        }
    }

    /// Split `raw` into its fields and payload; `None` when it is not a
    /// well-formed OSC 72 message.
    pub fn parse(raw: &str) -> (r: Option<Message>)
        ensures
            r matches Some(m) ==> parse_message(raw@) == Some((m.fields(), m.payload@)),
            r is None ==> parse_message(raw@) is None,
    {
        let chars = chars_of(raw);
        let n = chars.len();
        let (meta, payload) = match find_char(&chars, ';') {
            Some(i) => (copy_range(&chars, 0, i), copy_range(&chars, i + 1, n)),
            None => (copy_range(&chars, 0, n), Vec::new()),
        };
        assert(chars@.subrange(0, chars@.len() as int) =~= chars@);
        assert((meta@, payload@) == meta_and_payload(raw@)) by {
            if let Some(i) = first_index(chars@, ';') {
                assert(chars@.take(i) =~= chars@.subrange(0, i));
                assert(chars@.skip(i + 1) =~= chars@.subrange(i + 1, chars@.len() as int));
            }
        }
        assert(meta@ == meta_and_payload(raw@).0);
        assert(payload@ == meta_and_payload(raw@).1);
        let parts = split_parts(&meta, ':');
        let ghost spec_parts = split_on(meta@, ':');
        assert(spec_parts == split_on(meta_and_payload(raw@).0, ':'));
        let mut metadata: Vec<(String, String)> = Vec::new();
        let mut k: usize = 0;
        while k < parts.len()
            invariant
                k <= parts@.len(),
                spec_parts == split_on(meta_and_payload(raw@).0, ':'),
                parts@.len() == spec_parts.len(),
                forall|q: int| 0 <= q < parts@.len() ==> (#[trigger] parts@[q])@ == spec_parts[q],
                metadata@.len() == k,
                forall|q: int| 0 <= q < k ==> field_of(#[trigger] spec_parts[q]) is Some,
                forall|q: int| #![trigger metadata@[q]] 0 <= q < k
                    ==> (metadata@[q].0@, metadata@[q].1@) == field_of(spec_parts[q]).unwrap(),
            decreases parts@.len() - k,
        {
            match field(&parts[k]) {
                Some((key, value)) => {
                    metadata.push((string_of(&key), string_of(&value)));
                }
                None => {
                    assert(field_of(spec_parts[k as int]) is None);
                    assert(!(forall|q: int| 0 <= q < spec_parts.len() ==> (#[trigger] field_of(spec_parts[q])) is Some));
                    return None;
                }
            }
            k = k + 1;
        }
        proof {
            lemma_split_on_nonempty(meta@, ':');
        }
        let m = Message { metadata, payload: string_of(&payload) };
        assert(m.fields() =~= spec_parts.map_values(|p: Seq<char>| field_of(p).unwrap()));
        Some(m)
    }

    /// The value of the first field named `key`.
    pub fn get(&self, key: &str) -> (r: Option<String>)
        ensures
            r matches Some(v) ==> lookup(self.fields(), key@) == Some(v@),
            r is None ==> lookup(self.fields(), key@) is None,
    {
        let want = key.to_owned();
        let mut i: usize = 0;
        while i < self.metadata.len()
            invariant
                i <= self.metadata@.len(),
                want@ == key@,
                forall|j: int| 0 <= j < i ==> (#[trigger] self.fields()[j]).0 != key@,
            decreases self.metadata@.len() - i,
        {
            if self.metadata[i].0 == want {
                assert(key_first_at(self.fields(), key@, i as int));
                proof {
                    let c = choose|c: int| key_first_at(self.fields(), key@, c);
                    assert(c == i as int) by {
                        if c < i {
                            assert(self.fields()[c].0 != key@);
                        } else if c > i {
                            assert(self.fields()[i as int].0 == key@);
                        }
                    }
                }
                return Some(self.metadata[i].1.clone());
            }
            assert(self.fields()[i as int].0 != key@);
            i = i + 1;
        }
        None
    }

    /// The field `key`, read as a number.
    pub fn number(&self, key: &str) -> (r: Option<i32>)
        ensures
            r == self.number_of(key@),
    {
        match self.get(key) {
            Some(v) => {
                let c = chars_of(v.as_str());
                parse_i32_chars(&c)
            }
            None => None,
        }
    }

    /// The payload's bytes: standard base64, with or without padding.
    pub fn data(&self) -> (r: Option<Vec<u8>>)
        ensures
            r matches Some(v) ==> Some(v@) == (match base64_padded(self.payload@) {
                Some(d) => Some(d),
                None => base64_unpadded(self.payload@),
            }),
            r is None ==> base64_padded(self.payload@) is None && base64_unpadded(self.payload@) is None,
    {
        match decode_padded(self.payload.as_str()) {
            Some(d) => Some(d),
            None => decode_unpadded(self.payload.as_str()),
        }
    }

    /// Kitty can mark a nonempty chunk `m=0` and still send a separate empty
    /// message to close the stream; only the empty message ends the data.
    pub open spec fn spec_end_of_data(&self) -> bool {
        &&& self.payload@.len() == 0
        &&& (match self.number_of(seq!['m']) {
            Some(n) => n == 0,
            None => true,
        })
    }

    pub fn end_of_data(&self) -> (b: bool)
        ensures
            b == self.spec_end_of_data(),
    {
        let empty = self.payload.as_str().unicode_len() == 0;
        proof {
            reveal_strlit("m");
        }
        let m = self.number("m");
        assert("m"@ =~= seq!['m']);
        empty && match m {
            Some(n) => n == 0,
            None => true,
        }
    }
}

/// `part` read as one field.
fn field(part: &Vec<char>) -> (r: Option<(Vec<char>, Vec<char>)>)
    ensures
        r matches Some(p) ==> field_of(part@) == Some((p.0@, p.1@)),
        r is None ==> field_of(part@) is None,
{
    let n = part.len();
    match find_char(part, '=') {
        Some(e) => {
            assert(e < n);
            let key = copy_range(part, 0, e);
            let value = copy_range(part, e + 1, n);
            assert(key@ =~= part@.take(e as int));
            assert(value@ =~= part@.skip(e + 1));
            if key.len() == 0 {
                return None;
            }
            let esc = find_char(&value, '\x1b');
            let bel = find_char(&value, '\x07');
            if esc.is_some() || bel.is_some() {
                proof {
                    if let Some(j) = esc {
                        assert(value@[j as int] == '\x1b');
                    }
                    if let Some(j) = bel {
                        assert(value@[j as int] == '\x07');
                    }
                }
                return None;
            }
            assert(!value@.contains('\x1b'));
            assert(!value@.contains('\x07'));
            Some((key, value))
        }
        None => None,
    }
}

} // verus!

verus! {

/// Encode bytes as standard base64 without padding.
///
/// Trusted: `base64::engine::general_purpose::STANDARD_NO_PAD.encode`, which
/// writes each three bytes as four characters of the standard alphabet and
/// a last one or two bytes as two or three, with no `=` at the end.
#[verifier::external_body]
fn encode_unpadded(bytes: &[u8]) -> (s: String)
    ensures
        s@ == base64_text(bytes@),
{
    base64::engine::general_purpose::STANDARD_NO_PAD.encode(bytes)
}

/// Standard base64 with `=` padding to a multiple of four characters.
pub open spec fn base64_padded_text(b: Seq<u8>) -> Seq<char> {
    base64_text(b) + (if b.len() % 3 == 1 { "=="@ } else if b.len() % 3 == 2 { "="@ } else { Seq::empty() })
}

/// The character of the standard base64 alphabet for a six-bit value.
pub open spec fn sextet_char(v: int) -> char {
    if v < 26 {
        (65 + v) as char
    } else if v < 52 {
        (97 + v - 26) as char
    } else if v < 62 {
        (48 + v - 52) as char
    } else if v == 62 {
        '+'
    } else {
        '/'
    }
}

/// Standard base64 without padding: each three bytes as four characters,
/// six bits at a time, and a last one or two bytes as two or three.
pub open spec fn base64_text(b: Seq<u8>) -> Seq<char>
    decreases b.len(),
{
    if b.len() == 0 {
        Seq::empty()
    } else if b.len() == 1 {
        seq![sextet_char((b[0] as int) / 4), sextet_char(((b[0] as int) % 4) * 16)]
    } else if b.len() == 2 {
        seq![sextet_char((b[0] as int) / 4), sextet_char(((b[0] as int) % 4) * 16 + (b[1] as int) / 16), sextet_char(((b[1] as int) % 16) * 4)]
    } else {
        seq![
            sextet_char((b[0] as int) / 4),
            sextet_char(((b[0] as int) % 4) * 16 + (b[1] as int) / 16),
            sextet_char(((b[1] as int) % 16) * 4 + (b[2] as int) / 64),
            sextet_char((b[2] as int) % 64),
        ] + base64_text(b.skip(3))
    }
}

/// One escape to write to the terminal: its metadata and, for a data
/// message, its payload.
#[derive(Debug, Clone, PartialEq, Eq)]
pub struct Outgoing {
    pub meta: String,
    pub payload: Option<String>,
}

/// The largest piece of raw data one message carries: 3072 bytes, 4096 in
/// base64, the protocol's limit.
pub const RAW_CHUNK: usize = 3072;

/// The escape that carries `meta` and, when there is one, `payload`:
/// `ESC ] 72 ; meta [; payload] ESC \`.
pub open spec fn escape_text(meta: Seq<char>, payload: Option<Seq<char>>) -> Seq<char> {
    seq!['\x1b', ']', '7', '2', ';'] + meta + match payload {
        Some(p) => seq![';'] + p,
        None => Seq::empty(),
    } + seq!['\x1b', '\\']
}

/// The escape that carries `meta` and `payload`.
pub fn escape(meta: &str, payload: Option<&str>) -> (s: String)
    ensures
        s@ == escape_text(meta@, match payload {
            Some(p) => Some(p@),
            None => None,
        }),
{
    let mut out: Vec<char> = vec!['\x1b', ']', '7', '2', ';'];
    crate::text::push_str(&mut out, meta);
    match payload {
        Some(p) => {
            out.push(';');
            crate::text::push_str(&mut out, p);
        },
        None => {},
    }
    out.push('\x1b');
    out.push('\\');
    proof {
        match payload {
            Some(p) => assert(out@ =~= escape_text(meta@, Some(p@))),
            None => assert(out@ =~= escape_text(meta@, None)),
        }
    }
    string_of(out.as_slice())
}

/// The pieces `bytes` is sent in: `RAW_CHUNK` bytes each, the last one
/// shorter.
pub open spec fn chunked(bytes: Seq<u8>) -> Seq<Seq<u8>>
    decreases bytes.len(),
{
    if bytes.len() == 0 {
        Seq::empty()
    } else if bytes.len() <= RAW_CHUNK {
        seq![bytes]
    } else {
        seq![bytes.take(RAW_CHUNK as int)] + chunked(bytes.skip(RAW_CHUNK as int))
    }
}

/// The view of a message.
pub open spec fn outgoing_view(o: Outgoing) -> (Seq<char>, Option<Seq<char>>) {
    (o.meta@, match o.payload {
        Some(p) => Some(p@),
        None => None,
    })
}

/// The messages that send `bytes` under `meta`: each piece with `:m=1`
/// after the metadata and the piece in base64, then an empty `:m=0`
/// message that ends the stream.
pub open spec fn data_frames_of(meta: Seq<char>, bytes: Seq<u8>) -> Seq<(Seq<char>, Option<Seq<char>>)> {
    chunked(bytes).map_values(|c: Seq<u8>| (meta + ":m=1"@, Some(base64_text(c))))
        .push((meta + ":m=0"@, Some(Seq::<char>::empty())))
}

/// One piece of a file's data under `meta`: `:m=1` after the metadata and
/// the piece in base64.
pub fn chunk_frame(meta: &str, piece: &[u8]) -> (o: Outgoing)
    ensures
        outgoing_view(o) == (meta@ + ":m=1"@, Some(base64_text(piece@))),
{
    let mut m: Vec<char> = chars_of(meta);
    crate::text::push_str(&mut m, ":m=1");
    Outgoing { meta: string_of(m.as_slice()), payload: Some(encode_unpadded(piece)) }
}

/// The empty `:m=0` message that ends an item's data under `meta`.
pub fn end_frame(meta: &str) -> (o: Outgoing)
    ensures
        outgoing_view(o) == (meta@ + ":m=0"@, Some(Seq::<char>::empty())),
{
    let mut m: Vec<char> = chars_of(meta);
    crate::text::push_str(&mut m, ":m=0");
    Outgoing { meta: string_of(m.as_slice()), payload: Some(String::new()) }
}

/// The messages that send `bytes` under `meta`.
pub fn data_frames(meta: &str, bytes: &[u8]) -> (r: Vec<Outgoing>)
    ensures
        r@.map_values(|o: Outgoing| outgoing_view(o)) == data_frames_of(meta@, bytes@),
{
    let mut more: Vec<char> = chars_of(meta);
    crate::text::push_str(&mut more, ":m=1");
    let mut last: Vec<char> = chars_of(meta);
    crate::text::push_str(&mut last, ":m=0");
    let mut out: Vec<Outgoing> = Vec::new();
    let mut at: usize = 0;
    let n = bytes.len();
    let ghost want = chunked(bytes@).map_values(|c: Seq<u8>| (meta@ + ":m=1"@, Some(base64_text(c))));
    assert(bytes@.skip(0) =~= bytes@);
    while at < n
        invariant
            n == bytes@.len(),
            at <= n,
            more@ == meta@ + ":m=1"@,
            out@.map_values(|o: Outgoing| outgoing_view(o)) + chunked(bytes@.skip(at as int)).map_values(|c: Seq<u8>| (meta@ + ":m=1"@, Some(base64_text(c))))
                == want,
        decreases n - at,
    {
        let end = if n - at > RAW_CHUNK { at + RAW_CHUNK } else { n };
        let piece = copy_range(bytes, at, end);
        let ghost rest = bytes@.skip(at as int);
        proof {
            if rest.len() <= RAW_CHUNK {
                assert(piece@ =~= rest);
                assert(bytes@.skip(end as int).len() == 0);
                assert(chunked(bytes@.skip(end as int)) =~= Seq::<Seq<u8>>::empty());
                assert(chunked(rest) == seq![rest]);
            } else {
                assert(piece@ =~= rest.take(RAW_CHUNK as int));
                assert(rest.skip(RAW_CHUNK as int) =~= bytes@.skip(end as int));
            }
        }
        let ghost before = out@.map_values(|o: Outgoing| outgoing_view(o));
        let text = encode_unpadded(piece.as_slice());
        out.push(Outgoing { meta: string_of(more.as_slice()), payload: Some(text) });
        proof {
            let f = |c: Seq<u8>| (meta@ + ":m=1"@, Some(base64_text(c)));
            assert(out@.map_values(|o: Outgoing| outgoing_view(o)) =~= before.push(f(piece@)));
            assert(chunked(rest).map_values(f) =~= seq![f(piece@)] + chunked(bytes@.skip(end as int)).map_values(f));
            assert(before.push(f(piece@)) + chunked(bytes@.skip(end as int)).map_values(f) =~= before + chunked(rest).map_values(f));
        }
        at = end;
    }
    proof {
        assert(bytes@.skip(n as int).len() == 0);
        assert(chunked(bytes@.skip(n as int)) =~= Seq::<Seq<u8>>::empty());
        assert(out@.map_values(|o: Outgoing| outgoing_view(o)) =~= want);
    }
    let ghost before = out@.map_values(|o: Outgoing| outgoing_view(o));
    out.push(Outgoing { meta: string_of(last.as_slice()), payload: Some(String::new()) });
    assert(out@.map_values(|o: Outgoing| outgoing_view(o)) =~= before.push((meta@ + ":m=0"@, Some(Seq::<char>::empty()))));
    out
}

} // verus!

verus! {

/// Files offered from here to a drag that left the window.
#[derive(Debug, Clone)]
pub struct Offer {
    pub sources: Vec<Vec<u8>>,
    pub uri_text: String,
}

/// Where a drop landed and what the drag allows.
#[derive(Debug, Clone)]
pub struct Choice {
    pub dest: Vec<u8>,
    /// The files, when the drag started in this window.
    pub own_sources: Option<Vec<Vec<u8>>>,
    /// The operations the source allows: `1` copy, `2` move.
    pub allowed: i32,
    pub mime_index: Option<i32>,
    pub remote: bool,
}

/// A drop whose operation is queued, and what to tell the source once it
/// finishes.
#[derive(Debug, Clone, Copy, PartialEq, Eq, Structural)]
pub struct Active {
    pub op: OpId,
    pub result_operation: OpKind,
}

/// Whether a drag that allows `allowed` lets the drop be `kind`: a move
/// needs bit `2`, a copy bit `1`; any other kind is not refused here.
pub open spec fn allows_spec(allowed: i32, kind: OpKind) -> bool {
    !((kind == OpKind::Move && allowed & 2 == 0) || (kind == OpKind::Copy && allowed & 1 == 0))
}

/// Whether a drag that allows `allowed` lets the drop be `kind`.
pub fn allows(allowed: i32, kind: OpKind) -> (b: bool)
    ensures
        b == allows_spec(allowed, kind),
{
    let refused = match kind {
        OpKind::Move => allowed & 2 == 0,
        OpKind::Copy => allowed & 1 == 0,
        _ => false,
    };
    !refused
}

/// What the drop's source is told once the queued operation ends: `2` for
/// a move that moved everything, `1` for a copy or a move that skipped
/// something, `0` for a failure, a cancellation or an operation gone from
/// the queue; nothing yet while it has not finished.
pub open spec fn drop_result(status: Option<(OpStatus, usize)>, intended: OpKind) -> Option<i32> {
    match status {
        Some((OpStatus::Done, skipped)) => Some(if intended == OpKind::Move && skipped == 0 { 2i32 } else { 1i32 }),
        Some((OpStatus::Failed, _)) => Some(0),
        Some((OpStatus::Cancelled, _)) => Some(0),
        None => Some(0),
        _ => None,
    }
}

/// What the drop's source is told once the queued operation ends.
pub fn final_drop_operation(status: Option<(OpStatus, usize)>, intended: OpKind) -> (r: Option<i32>)
    ensures
        r == drop_result(status, intended),
{
    match status {
        Some((OpStatus::Done, skipped)) => Some(if intended == OpKind::Move && skipped == 0 { 2 } else { 1 }),
        Some((OpStatus::Failed, _)) | Some((OpStatus::Cancelled, _)) | None => Some(0),
        _ => None,
    }
}

/// A move the source is told about removes the desktop's copy only when
/// nothing was skipped: any skipped file keeps the source.
pub proof fn law_a_skipped_move_keeps_the_source(skipped: usize)
    requires
        skipped > 0,
    ensures
        drop_result(Some((OpStatus::Done, skipped)), OpKind::Move) == Some(1i32),
        drop_result(Some((OpStatus::Done, 0)), OpKind::Move) == Some(2i32),
{
}

/// The SHA-256 digest of some bytes.
///
/// Trusted: `sha2::Sha256::digest` (through `sha2::Digest`), which hashes
/// the bytes into 32 bytes; the digest depends on the bytes alone.
#[verifier::external_body]
fn sha256(data: &[u8]) -> (d: Vec<u8>)
    ensures
        d@ == sha256_digest(data@),
        d@.len() == 32,
{
    <sha2::Sha256 as sha2::Digest>::digest(data).to_vec()
}

/// What SHA-256 makes of some bytes.
pub uninterp spec fn sha256_digest(data: Seq<u8>) -> Seq<u8>;

/// The key machine IDs are keyed with, `tty-dnd-protocol-machine-id`.
pub open spec fn id_key() -> Seq<u8> {
    seq![116u8, 116, 121, 45, 100, 110, 100, 45, 112, 114, 111, 116, 111, 99, 111, 108, 45, 109, 97, 99, 104, 105, 110, 101, 45, 105, 100]
}

/// The key in a 64-byte block, each byte XORed with `x`: HMAC's inner pad
/// for `0x36`, its outer pad for `0x5c`.
pub open spec fn pad(x: u8) -> Seq<u8> {
    Seq::new(64, |i: int| (if i < id_key().len() { id_key()[i] } else { 0u8 }) ^ x)
}

/// HMAC-SHA256 of `raw` under the machine-ID key.
pub open spec fn machine_digest(raw: Seq<u8>) -> Seq<u8> {
    sha256_digest(pad(0x5c) + sha256_digest(pad(0x36) + raw))
}

/// A lower-case hexadecimal digit.
pub open spec fn hex_lower(n: int) -> char {
    if n < 10 { ((n + 48) as u8) as char } else { ((n + 87) as u8) as char }
}

/// Bytes in lower-case hexadecimal, two digits each.
pub open spec fn hex_text(bytes: Seq<u8>) -> Seq<char>
    decreases bytes.len(),
{
    if bytes.len() == 0 {
        Seq::empty()
    } else {
        hex_text(bytes.drop_last()) + seq![hex_lower(bytes.last() as int / 16), hex_lower(bytes.last() as int % 16)]
    }
}

/// The machine ID sent to the terminal for the OS machine ID `raw`:
/// `1:` and the HMAC in hexadecimal, so the OS ID itself is never exposed.
pub open spec fn machine_id_text(raw: Seq<u8>) -> Seq<char> {
    seq!['1', ':'] + hex_text(machine_digest(raw))
}

fn padded(x: u8) -> (out: Vec<u8>)
    ensures
        out@ == pad(x),
{
    let key: [u8; 27] = [116, 116, 121, 45, 100, 110, 100, 45, 112, 114, 111, 116, 111, 99, 111, 108, 45, 109, 97, 99, 104, 105, 110, 101, 45, 105, 100];
    assert(key@ =~= id_key());
    let mut out: Vec<u8> = Vec::new();
    let mut i: usize = 0;
    while i < 64
        invariant
            key@ == id_key(),
            i <= 64,
            out@ == pad(x).take(i as int),
        decreases 64 - i,
    {
        let k: u8 = if i < 27 { key[i] } else { 0 };
        out.push(k ^ x);
        assert(out@ =~= pad(x).take(i + 1));
        i = i + 1;
    }
    assert(pad(x).take(64) =~= pad(x));
    out
}

fn hex_char_lower(n: u8) -> (c: char)
    requires
        n < 16,
    ensures
        c == hex_lower(n as int),
{
    if n < 10 { (n + 48) as char } else { (n + 87) as char }
}

/// The machine ID for the OS machine ID `raw`.
pub fn machine_id_of(raw: &str) -> (s: String)
    ensures
        s@ == machine_id_text(raw.spec_bytes()),
{
    let mut inner_in = padded(0x36);
    let ghost ip = inner_in@;
    let bytes = raw.as_bytes();
    let mut i: usize = 0;
    while i < bytes.len()
        invariant
            i <= bytes@.len(),
            inner_in@ == ip + bytes@.take(i as int),
        decreases bytes@.len() - i,
    {
        inner_in.push(bytes[i]);
        assert(bytes@.take(i + 1) =~= bytes@.take(i as int).push(bytes@[i as int]));
        i = i + 1;
    }
    assert(bytes@.take(bytes@.len() as int) =~= bytes@);
    let inner = sha256(inner_in.as_slice());
    let mut outer_in = padded(0x5c);
    let ghost op = outer_in@;
    let mut j: usize = 0;
    while j < inner.len()
        invariant
            j <= inner@.len(),
            outer_in@ == op + inner@.take(j as int),
        decreases inner@.len() - j,
    {
        outer_in.push(inner[j]);
        assert(inner@.take(j + 1) =~= inner@.take(j as int).push(inner@[j as int]));
        j = j + 1;
    }
    assert(inner@.take(inner@.len() as int) =~= inner@);
    let digest = sha256(outer_in.as_slice());
    let mut out: Vec<char> = vec!['1', ':'];
    let mut k: usize = 0;
    while k < digest.len()
        invariant
            k <= digest@.len(),
            out@ == seq!['1', ':'] + hex_text(digest@.take(k as int)),
        decreases digest@.len() - k,
    {
        let b = digest[k];
        out.push(hex_char_lower(b / 16));
        out.push(hex_char_lower(b % 16));
        assert(digest@.take(k + 1).drop_last() =~= digest@.take(k as int));
        assert(out@ =~= seq!['1', ':'] + hex_text(digest@.take(k + 1)));
        k = k + 1;
    }
    assert(digest@.take(digest@.len() as int) =~= digest@);
    string_of(out.as_slice())
}

/// The metadata of one item of an outgoing drag: the item's root, and the
/// directory handle and entry number when it is inside a directory.
pub open spec fn item_meta_text(root: usize, parent: Option<(i32, usize)>) -> Seq<char> {
    "t=k:x="@ + crate::text::decimal(root as nat) + ":i=1"@ + match parent {
        Some((h, n)) => ":Y="@ + crate::text::signed_decimal(h as int) + ":y="@ + crate::text::decimal(n as nat),
        None => Seq::empty(),
    }
}

/// The metadata of one item of an outgoing drag.
pub fn item_meta(root: usize, parent: Option<(i32, usize)>) -> (s: String)
    ensures
        s@ == item_meta_text(root, parent),
{
    let mut out: Vec<char> = Vec::new();
    crate::text::push_str(&mut out, "t=k:x=");
    crate::text::push_decimal(&mut out, root as u64);
    crate::text::push_str(&mut out, ":i=1");
    match parent {
        Some((h, n)) => {
            crate::text::push_str(&mut out, ":Y=");
            crate::text::push_signed(&mut out, h as i64);
            crate::text::push_str(&mut out, ":y=");
            crate::text::push_decimal(&mut out, n as u64);
        },
        None => {},
    }
    assert(out@ =~= item_meta_text(root, parent));
    string_of(out.as_slice())
}


/// The platform's UUID in a listing of the platform device, as the
/// `IOPlatformUUID` line gives it: on the first line naming the key that
/// holds a quote, the text before its last quote back to the quote before.
pub open spec fn platform_uuid_of(lines: Seq<Seq<char>>) -> Option<Seq<char>>
    decreases lines.len(),
{
    if lines.len() == 0 {
        None
    } else {
        let parts = crate::text::split_on(lines[0], '"');
        if crate::places::occurs(lines[0], "IOPlatformUUID"@) && parts.len() >= 2 {
            Some(parts[parts.len() - 2])
        } else {
            platform_uuid_of(lines.drop_first())
        }
    }
}

/// The platform's UUID in a listing of the platform device.
pub fn platform_uuid(listing: &str) -> (r: Option<String>)
    ensures
        match r {
            Some(u) => platform_uuid_of(crate::text::split_on(listing@, '\n')) == Some(u@),
            None => platform_uuid_of(crate::text::split_on(listing@, '\n')) is None,
        },
{
    let chars = crate::text::chars_of(listing);
    let lines = crate::text::split_parts(&chars, '\n');
    let ghost ls = crate::text::split_on(listing@, '\n');
    let key = crate::text::chars_of("IOPlatformUUID");
    let mut i: usize = 0;
    assert(ls.skip(0) =~= ls);
    while i < lines.len()
        invariant
            ls == crate::text::split_on(listing@, '\n'),
            lines@.len() == ls.len(),
            forall|q: int| 0 <= q < lines@.len() ==> (#[trigger] lines@[q])@ == ls[q],
            key@ == "IOPlatformUUID"@,
            i <= lines@.len(),
            platform_uuid_of(ls) == platform_uuid_of(ls.skip(i as int)),
        decreases lines@.len() - i,
    {
        assert(ls.skip(i as int)[0] == ls[i as int]);
        assert(ls.skip(i as int).drop_first() =~= ls.skip(i + 1));
        let line = &lines[i];
        if crate::places::contains_text(line.as_slice(), key.as_slice()) {
            let parts = crate::text::split_parts(line, '"');
            if parts.len() >= 2 {
                proof {
                    assert(line@ == ls[i as int]);
                    let sp = crate::text::split_on(ls[i as int], '"');
                    assert(parts@[parts@.len() - 2]@ == sp[sp.len() - 2]);
                    let rest = ls.skip(i as int);
                    assert(rest[0] == ls[i as int]);
                    assert(crate::places::occurs(rest[0], "IOPlatformUUID"@));
                    assert(crate::text::split_on(rest[0], '"').len() >= 2);
                    assert(platform_uuid_of(rest) == Some(sp[sp.len() - 2]));
                    assert(platform_uuid_of(crate::text::split_on(listing@, '\n')) == Some(sp[sp.len() - 2]));
                }
                let u = crate::text::string_of(parts[parts.len() - 2].as_slice());
                assert(u@ == parts@[parts@.len() - 2]@);
                return Some(u);
            }
        }
        i = i + 1;
    }
    assert(ls.skip(i as int).len() == 0);
    None
}

} // verus!
