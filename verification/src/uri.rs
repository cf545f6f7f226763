//! `file://` URIs, as a drop carries them in a `text/uri-list`.
//!
//! The list is ASCII on the wire. Controls, bytes outside ASCII, and the
//! delimiters `%`, space, `#` and `?` are written as `%XX`, so a Unix file
//! name that is not valid UTF-8 survives the trip.
use vstd::prelude::*;
use vstd::string::*;
use vstd::utf8::{decode_utf8, encode_scalar, encode_utf8, valid_utf8};
use crate::text::{chars_of, find_byte, first_at, first_index, lemma_split_on_nonempty, push_char, split_on, string_of};

verus! {

/// Whether a byte has to be written as `%XX` in a URI path.
pub open spec fn escaped(b: u8) -> bool {
    b < 0x20 || b >= 0x7f || b == 0x25 || b == 0x20 || b == 0x23 || b == 0x3f
}

/// The upper-case hex digit for `n`, which is below 16.
pub open spec fn hex_digit(n: int) -> char {
    if n < 10 {
        ((n + 48) as u8) as char
    } else {
        ((n + 55) as u8) as char
    }
}

/// One byte of a path as it appears in a URI.
pub open spec fn encode_byte(b: u8) -> Seq<char> {
    if escaped(b) {
        seq!['%', hex_digit(b as int / 16), hex_digit(b as int % 16)]
    } else {
        seq![b as char]
    }
}

/// A path's bytes as they appear in a URI.
pub open spec fn percent_encoded(bytes: Seq<u8>) -> Seq<char>
    decreases bytes.len(),
{
    if bytes.len() == 0 {
        Seq::empty()
    } else {
        encode_byte(bytes[0]) + percent_encoded(bytes.skip(1))
    }
}

/// The value of a hex digit, either case, or `None`.
pub open spec fn hex_value(b: u8) -> Option<u8> {
    if 0x30 <= b <= 0x39 {
        Some((b - 0x30) as u8)
    } else if 0x41 <= b <= 0x46 {
        Some((b - 0x41 + 10) as u8)
    } else if 0x61 <= b <= 0x66 {
        Some((b - 0x61 + 10) as u8)
    } else {
        None
    }
}

/// Every `%XX` with two hex digits becomes the byte it names; everything
/// else, a stray `%` included, stays as it is.
pub open spec fn percent_decoded(bytes: Seq<u8>) -> Seq<u8>
    decreases bytes.len(),
{
    if bytes.len() == 0 {
        Seq::empty()
    } else if bytes.len() >= 3 && bytes[0] == 0x25 && hex_value(bytes[1]) is Some && hex_value(bytes[2]) is Some {
        seq![(hex_value(bytes[1]).unwrap() * 16 + hex_value(bytes[2]).unwrap()) as u8] + percent_decoded(bytes.skip(3))
    } else {
        seq![bytes[0]] + percent_decoded(bytes.skip(1))
    }
}

/// `file://` and a path, for an absolute path.
pub open spec fn file_uri_of(path: Seq<u8>) -> Option<Seq<char>> {
    if path.len() > 0 && path[0] == 0x2f {
        Some(seq!['f', 'i', 'l', 'e', ':', '/', '/'] + percent_encoded(path))
    } else {
        None
    }
}

pub open spec fn file_prefix() -> Seq<u8> {
    seq![0x66u8, 0x69, 0x6c, 0x65, 0x3a, 0x2f, 0x2f]
}

/// The path a `file://` URI names, given the URI's bytes: any authority
/// between `file://` and the path is dropped, and a path holding a NUL
/// byte is refused.
pub open spec fn path_of_uri(uri: Seq<u8>) -> Option<Seq<u8>> {
    if uri.len() >= 7 && uri.take(7) == file_prefix() {
        let rest = uri.skip(7);
        let path = if rest.len() > 0 && rest[0] == 0x2f {
            Some(rest)
        } else {
            match first_index(rest, 0x2fu8) {
                Some(i) => Some(rest.skip(i)),
                None => None,
            }
        };
        match path {
            Some(p) => {
                let bytes = percent_decoded(p);
                if bytes.contains(0u8) {
                    None
                } else {
                    Some(bytes)
                }
            }
            None => None,
        }
    } else {
        None
    }
}

fn hex_char(n: u8) -> (c: char)
    requires
        n < 16,
    ensures
        c == hex_digit(n as int),
{
    if n < 10 {
        ((n + 48) as u8) as char
    } else {
        ((n + 55) as u8) as char
    }
}

/// The URI for an absolute path; `None` for a relative one.
pub fn file_uri(path: &[u8]) -> (r: Option<String>)
    ensures
        r matches Some(u) ==> file_uri_of(path@) == Some(u@),
        r is None ==> file_uri_of(path@) is None,
{
    if path.len() == 0 || path[0] != 0x2f {
        return None;
    }
    let mut out: Vec<char> = Vec::new();
    out.push('f');
    out.push('i');
    out.push('l');
    out.push('e');
    out.push(':');
    out.push('/');
    out.push('/');
    let ghost head = out@;
    assert(head =~= seq!['f', 'i', 'l', 'e', ':', '/', '/']);
    assert(path@.skip(0) =~= path@);
    let mut i: usize = 0;
    while i < path.len()
        invariant
            i <= path@.len(),
            head =~= seq!['f', 'i', 'l', 'e', ':', '/', '/'],
            head + percent_encoded(path@) == out@ + percent_encoded(path@.skip(i as int)),
        decreases path@.len() - i,
    {
        let b = path[i];
        let ghost rest = path@.skip(i as int);
        assert(rest.skip(1) =~= path@.skip(i + 1));
        assert(rest[0] == b);
        if b < 0x20 || b >= 0x7f || b == 0x25 || b == 0x20 || b == 0x23 || b == 0x3f {
            out.push('%');
            out.push(hex_char(b / 16));
            out.push(hex_char(b % 16));
        } else {
            out.push(b as char);
        }
        proof {
            assert(percent_encoded(rest) == encode_byte(b) + percent_encoded(rest.skip(1)));
        }
        assert(out@ + percent_encoded(path@.skip(i + 1)) =~= head + percent_encoded(path@)) by {
            let prev = out@.take(out@.len() - encode_byte(b).len());
            assert(out@ =~= prev + encode_byte(b));
        }
        i = i + 1;
    }
    assert(path@.skip(path@.len() as int) =~= Seq::<u8>::empty());
    assert(out@ =~= head + percent_encoded(path@));
    Some(string_of(&out))
}

/// The bytes a byte of a path is written as in a URI.
pub open spec fn encoded_byte_bytes(b: u8) -> Seq<u8> {
    if escaped(b) {
        seq![0x25u8, hex_digit(b as int / 16) as u8, hex_digit(b as int % 16) as u8]
    } else {
        seq![b]
    }
}

/// The bytes a path is written as in a URI.
pub open spec fn percent_encoded_bytes(bytes: Seq<u8>) -> Seq<u8>
    decreases bytes.len(),
{
    if bytes.len() == 0 {
        Seq::empty()
    } else {
        encoded_byte_bytes(bytes[0]) + percent_encoded_bytes(bytes.skip(1))
    }
}

proof fn lemma_encode_utf8_concat(a: Seq<char>, b: Seq<char>)
    ensures
        encode_utf8(a + b) == encode_utf8(a) + encode_utf8(b),
    decreases a.len(),
{
    if a.len() == 0 {
        assert(a + b =~= b);
        assert(encode_utf8(a) =~= Seq::<u8>::empty());
        assert(encode_utf8(a) + encode_utf8(b) =~= encode_utf8(b));
    } else {
        lemma_encode_utf8_concat(a.drop_first(), b);
        assert((a + b).drop_first() =~= a.drop_first() + b);
        assert((a + b)[0] == a[0]);
        assert(encode_utf8(a + b) =~= encode_scalar(a[0] as u32) + (encode_utf8(a.drop_first()) + encode_utf8(b)));
    }
}

proof fn lemma_encode_ascii_char(c: char)
    requires
        (c as u32) < 0x80,
    ensures
        encode_utf8(seq![c]) == seq![(c as u32) as u8],
{
    let v = c as u32;
    assert(v & 0x7F == v) by (bit_vector)
        requires
            v < 0x80,
    ;
    assert(seq![c].drop_first() =~= Seq::<char>::empty());
    assert(seq![c][0] == c);
    assert(encode_utf8(seq![c]) =~= encode_scalar(v) + encode_utf8(Seq::<char>::empty()));
}

proof fn lemma_encode_ascii_chars3(a: char, b: char, c: char)
    requires
        (a as u32) < 0x80,
        (b as u32) < 0x80,
        (c as u32) < 0x80,
    ensures
        encode_utf8(seq![a, b, c]) == seq![(a as u32) as u8, (b as u32) as u8, (c as u32) as u8],
{
    lemma_encode_ascii_char(a);
    lemma_encode_ascii_char(b);
    lemma_encode_ascii_char(c);
    lemma_encode_utf8_concat(seq![a], seq![b]);
    lemma_encode_utf8_concat(seq![a] + seq![b], seq![c]);
    assert(seq![a] + seq![b] + seq![c] =~= seq![a, b, c]);
    assert(seq![(a as u32) as u8] + seq![(b as u32) as u8] + seq![(c as u32) as u8] =~= seq![(a as u32) as u8, (b as u32) as u8, (c as u32) as u8]);
}

proof fn lemma_hex_digit(n: int)
    requires
        0 <= n < 16,
    ensures
        (hex_digit(n) as u32) < 0x80,
        hex_value((hex_digit(n) as u32) as u8) == Some(n as u8),
        hex_digit(n) as u8 == (hex_digit(n) as u32) as u8,
{
}

proof fn lemma_percent_encoded_bytes(bytes: Seq<u8>)
    ensures
        encode_utf8(percent_encoded(bytes)) == percent_encoded_bytes(bytes),
    decreases bytes.len(),
{
    if bytes.len() > 0 {
        let b = bytes[0];
        lemma_percent_encoded_bytes(bytes.skip(1));
        lemma_encode_utf8_concat(encode_byte(b), percent_encoded(bytes.skip(1)));
        if escaped(b) {
            lemma_hex_digit(b as int / 16);
            lemma_hex_digit(b as int % 16);
            lemma_encode_ascii_chars3('%', hex_digit(b as int / 16), hex_digit(b as int % 16));
        } else {
            assert(((b as char) as u32) == b as u32);
            lemma_encode_ascii_char(b as char);
        }
    }
}

proof fn lemma_decode_encoded(bytes: Seq<u8>)
    ensures
        percent_decoded(percent_encoded_bytes(bytes)) == bytes,
    decreases bytes.len(),
{
    if bytes.len() > 0 {
        let b = bytes[0];
        let rest = percent_encoded_bytes(bytes.skip(1));
        lemma_decode_encoded(bytes.skip(1));
        let e = percent_encoded_bytes(bytes);
        assert(e =~= encoded_byte_bytes(b) + rest);
        if escaped(b) {
            lemma_hex_digit(b as int / 16);
            lemma_hex_digit(b as int % 16);
            assert(e[0] == 0x25u8);
            assert(e[1] == hex_digit(b as int / 16) as u8);
            assert(e[2] == hex_digit(b as int % 16) as u8);
            assert(e.skip(3) =~= rest);
            assert((b as int / 16) * 16 + b as int % 16 == b as int);
        } else {
            assert(e[0] == b);
            assert(e.skip(1) =~= rest);
        }
        assert(bytes =~= seq![b] + bytes.skip(1));
    }
}

/// A file's URI names the file again: for an absolute path with no NUL
/// byte, `file_uri` gives a URI and `parse_file_uri` reads that URI back
/// to the same bytes, whatever they are.
pub proof fn law_a_file_uri_names_its_path(path: Seq<u8>)
    requires
        path.len() > 0,
        path[0] == 0x2fu8,
        !path.contains(0u8),
    ensures
        file_uri_of(path) is Some,
        path_of_uri(encode_utf8(file_uri_of(path).unwrap())) == Some(path),
{
    let head = seq!['f', 'i', 'l', 'e', ':', '/', '/'];
    let u = head + percent_encoded(path);
    lemma_encode_utf8_concat(head, percent_encoded(path));
    lemma_percent_encoded_bytes(path);
    lemma_encode_ascii_chars3('f', 'i', 'l');
    lemma_encode_ascii_chars3('e', ':', '/');
    lemma_encode_ascii_char('/');
    lemma_encode_utf8_concat(seq!['f', 'i', 'l'], seq!['e', ':', '/']);
    lemma_encode_utf8_concat(seq!['f', 'i', 'l'] + seq!['e', ':', '/'], seq!['/']);
    assert(seq!['f', 'i', 'l'] + seq!['e', ':', '/'] + seq!['/'] =~= head);
    assert(encode_utf8(head) =~= file_prefix());
    let bytes = file_prefix() + percent_encoded_bytes(path);
    assert(encode_utf8(u) == bytes);
    assert(bytes.take(7) =~= file_prefix());
    let rest = bytes.skip(7);
    assert(rest =~= percent_encoded_bytes(path));
    assert(!escaped(path[0]));
    assert(rest[0] == 0x2fu8);
    lemma_decode_encoded(path);
}

fn hex_of(b: u8) -> (r: Option<u8>)
    ensures
        r == hex_value(b),
{
    if 0x30 <= b && b <= 0x39 {
        Some(b - 0x30)
    } else if 0x41 <= b && b <= 0x46 {
        Some(b - 0x41 + 10)
    } else if 0x61 <= b && b <= 0x66 {
        Some(b - 0x61 + 10)
    } else {
        None
    }
}

/// `%XX` sequences turned back into bytes.
pub fn percent_decode(bytes: &[u8], from: usize) -> (out: Vec<u8>)
    requires
        from <= bytes@.len(),
    ensures
        out@ == percent_decoded(bytes@.skip(from as int)),
{
    let mut out: Vec<u8> = Vec::new();
    let mut i = from;
    assert(out@ + percent_decoded(bytes@.skip(from as int)) =~= percent_decoded(bytes@.skip(from as int)));
    while i < bytes.len()
        invariant
            from <= i <= bytes@.len(),
            percent_decoded(bytes@.skip(from as int)) == out@ + percent_decoded(bytes@.skip(i as int)),
        decreases bytes@.len() - i,
    {
        let ghost rest = bytes@.skip(i as int);
        let b = bytes[i];
        assert(rest[0] == b);
        if b == 0x25 && bytes.len() - i > 2 {
            let h = hex_of(bytes[i + 1]);
            let l = hex_of(bytes[i + 2]);
            assert(rest[1] == bytes@[i + 1]);
            assert(rest[2] == bytes@[i + 2]);
            if let (Some(h), Some(l)) = (h, l) {
                out.push(h * 16 + l);
                assert(rest.skip(3) =~= bytes@.skip(i + 3));
                i = i + 3;
                continue;
            }
        }
        out.push(b);
        assert(rest.skip(1) =~= bytes@.skip(i + 1));
        i = i + 1;
    }
    assert(bytes@.skip(i as int) =~= Seq::<u8>::empty());
    assert(out@ =~= out@ + Seq::<u8>::empty());
    out
}

/// Where `c` first occurs in `s` at or after `from`.
fn find_byte_after(s: &[u8], from: usize, c: u8) -> (r: Option<usize>)
    requires
        from <= s@.len(),
    ensures
        r matches Some(i) ==> from <= i < s@.len() && first_index(s@.skip(from as int), c) == Some(i - from),
        r is None ==> first_index(s@.skip(from as int), c) is None,
{
    let ghost t = s@.skip(from as int);
    let mut i = from;
    while i < s.len()
        invariant
            from <= i <= s@.len(),
            t == s@.skip(from as int),
            forall|j: int| 0 <= j < i - from ==> t[j] != c,
        decreases s@.len() - i,
    {
        if s[i] == c {
            proof {
                assert(t[i - from] == c);
                crate::text::lemma_first_index_is(t, c, i - from);
            }
            return Some(i);
        }
        assert(t[i - from] == s@[i as int]);
        i = i + 1;
    }
    proof {
        crate::text::lemma_first_index_none(t, c);
    }
    None
}

/// The path a `file://` URI names.
pub fn parse_file_uri(uri: &str) -> (r: Option<Vec<u8>>)
    ensures
        r matches Some(p) ==> path_of_uri(encode_utf8(uri@)) == Some(p@),
        r is None ==> path_of_uri(encode_utf8(uri@)) is None,
{
    let b = uri.as_bytes();
    let n = b.len();
    if n < 7 || b[0] != 0x66 || b[1] != 0x69 || b[2] != 0x6c || b[3] != 0x65 || b[4] != 0x3a
        || b[5] != 0x2f || b[6] != 0x2f {
        proof {
            if n >= 7 {
                assert(b@.take(7) != file_prefix()) by {
                    if b@.take(7) == file_prefix() {
                        assert(b@.take(7)[0] == b@[0]);
                        assert(b@.take(7)[1] == b@[1]);
                        assert(b@.take(7)[2] == b@[2]);
                        assert(b@.take(7)[3] == b@[3]);
                        assert(b@.take(7)[4] == b@[4]);
                        assert(b@.take(7)[5] == b@[5]);
                        assert(b@.take(7)[6] == b@[6]);
                    }
                }
            }
        }
        return None;
    }
    assert(b@.take(7) =~= file_prefix());
    let ghost rest = b@.skip(7);
    let start = if n > 7 && b[7] == 0x2f {
        7
    } else {
        match find_byte_after(b, 7, 0x2f) {
            Some(i) => i,
            None => {
                return None;
            }
        }
    };
    assert(b@.subrange(7, n as int) =~= rest);
    let bytes = percent_decode(b, start);
    proof {
        assert(b@.skip(start as int) =~= rest.skip(start - 7));
        if start == 7 {
            assert(rest.skip(0) =~= rest);
        }
    }
    match find_byte(&bytes, 0) {
        Some(j) => {
            assert(bytes@[j as int] == 0u8);
            None
        }
        None => {
            assert(!bytes@.contains(0u8));
            Some(bytes)
        }
    }
}

} // verus!

verus! {

/// `payload` as text, when it is valid UTF-8.
///
/// Trusted: `std::str::from_utf8`, which succeeds exactly on valid UTF-8
/// and then holds the characters the bytes encode.
#[verifier::external_body]
fn utf8_text(bytes: &[u8]) -> (r: Option<&str>)
    ensures
        r matches Some(s) ==> valid_utf8(bytes@) && s@ == decode_utf8(bytes@),
        r is None ==> !valid_utf8(bytes@),
{
    std::str::from_utf8(bytes).ok()
}

/// Unicode's `White_Space` characters, which `char::is_whitespace` and so
/// `str::trim_end` go by.
pub open spec fn is_white_space(c: char) -> bool {
    ||| '\t' <= c <= '\r'
    ||| c == ' '
    ||| c == '\u{85}'
    ||| c == '\u{a0}'
    ||| c == '\u{1680}'
    ||| '\u{2000}' <= c <= '\u{200a}'
    ||| c == '\u{2028}'
    ||| c == '\u{2029}'
    ||| c == '\u{202f}'
    ||| c == '\u{205f}'
    ||| c == '\u{3000}'
}

pub(crate) fn white_space(c: char) -> (b: bool)
    ensures
        b == is_white_space(c),
{
    ('\t' <= c && c <= '\r') || c == ' ' || c == '\u{85}' || c == '\u{a0}' || c == '\u{1680}'
        || ('\u{2000}' <= c && c <= '\u{200a}') || c == '\u{2028}' || c == '\u{2029}'
        || c == '\u{202f}' || c == '\u{205f}' || c == '\u{3000}'
}

/// `s` without the white space at its end.
pub open spec fn trim_end(s: Seq<char>) -> Seq<char>
    decreases s.len(),
{
    if s.len() > 0 && is_white_space(s.last()) {
        trim_end(s.drop_last())
    } else {
        s
    }
}

/// The lines of `text` as `str::lines` splits them: at each `\n`, with no
/// empty line after a final `\n`.
pub open spec fn text_lines(text: Seq<char>) -> Seq<Seq<char>> {
    let parts = split_on(text, '\n');
    if parts.last().len() == 0 {
        parts.drop_last()
    } else {
        parts
    }
}

/// Whether a trimmed line of a URI list names a file rather than being
/// blank or a `#` comment.
pub open spec fn names_a_file(line: Seq<char>) -> bool {
    line.len() > 0 && line[0] != '#'
}

/// The paths named by the first lines of a list, or `None` as soon as one
/// line is not a `file://` URI.
pub open spec fn paths_of_lines(lines: Seq<Seq<char>>) -> Option<Seq<Seq<u8>>>
    decreases lines.len(),
{
    if lines.len() == 0 {
        Some(Seq::empty())
    } else {
        match paths_of_lines(lines.drop_last()) {
            None => None,
            Some(r) => {
                let line = trim_end(lines.last());
                if !names_a_file(line) {
                    Some(r)
                } else {
                    match path_of_uri(encode_utf8(line)) {
                        Some(p) => Some(r.push(p)),
                        None => None,
                    }
                }
            }
        }
    }
}

/// The paths of a `text/uri-list` payload: UTF-8 text, one URI a line,
/// blank lines and `#` comments skipped, every other line a `file://` URI,
/// and at least one of them.
pub open spec fn uri_list_of(payload: Seq<u8>) -> Option<Seq<Seq<u8>>> {
    if !valid_utf8(payload) {
        None
    } else {
        match paths_of_lines(text_lines(decode_utf8(payload))) {
            Some(r) => if r.len() > 0 {
                Some(r)
            } else {
                None
            },
            None => None,
        }
    }
}

proof fn lemma_paths_none_stays(lines: Seq<Seq<char>>, i: int)
    requires
        0 <= i <= lines.len(),
        paths_of_lines(lines.take(i)) is None,
    ensures
        paths_of_lines(lines) is None,
    decreases lines.len() - i,
{
    if i < lines.len() {
        assert(lines.take(i + 1).drop_last() =~= lines.take(i));
        lemma_paths_none_stays(lines, i + 1);
    } else {
        assert(lines.take(i) =~= lines);
    }
}

fn trimmed(line: &Vec<char>) -> (out: Vec<char>)
    ensures
        out@ == trim_end(line@),
{
    let mut n = line.len();
    assert(line@.take(n as int) =~= line@);
    while n > 0 && white_space(line[n - 1])
        invariant
            n <= line@.len(),
            trim_end(line@) == trim_end(line@.take(n as int)),
        decreases n,
    {
        assert(line@.take(n as int).drop_last() =~= line@.take(n - 1));
        n = n - 1;
    }
    assert(line@.take(n as int) =~= line@.subrange(0, n as int));
    crate::text::copy_range(line, 0, n)
}

/// The paths a `text/uri-list` payload names.
pub fn uri_list(payload: &[u8]) -> (r: Option<Vec<Vec<u8>>>)
    ensures
        r matches Some(v) ==> uri_list_of(payload@) == Some(v@.map_values(|p: Vec<u8>| p@)),
        r is None ==> uri_list_of(payload@) is None,
{
    let text = match utf8_text(payload) {
        Some(t) => t,
        None => {
            return None;
        }
    };
    let chars = chars_of(text);
    assert(chars@ == decode_utf8(payload@));
    let parts = split_chars(&chars);
    let ghost lines = text_lines(chars@);
    proof {
        lemma_split_on_nonempty(chars@, '\n');
    }
    let count = if parts[parts.len() - 1].len() == 0 { parts.len() - 1 } else { parts.len() };
    assert(lines.len() == count);
    let mut paths: Vec<Vec<u8>> = Vec::new();
    let mut i: usize = 0;
    while i < count
        invariant
            i <= count <= parts@.len(),
            lines == text_lines(chars@),
            chars@ == decode_utf8(payload@),
            valid_utf8(payload@),
            lines.len() == count,
            forall|q: int| 0 <= q < count ==> (#[trigger] parts@[q])@ == lines[q],
            paths_of_lines(lines.take(i as int)) == Some(paths@.map_values(|p: Vec<u8>| p@)),
        decreases count - i,
    {
        let line = trimmed(&parts[i]);
        assert(lines.take(i + 1).drop_last() =~= lines.take(i as int));
        assert(lines.take(i + 1).last() == lines[i as int]);
        if line.len() > 0 && line[0] != '#' {
            let s = string_of(&line);
            match parse_file_uri(s.as_str()) {
                Some(p) => {
                    let ghost before = paths@.map_values(|p: Vec<u8>| p@);
                    paths.push(p);
                    assert(paths@.map_values(|p: Vec<u8>| p@) =~= before.push(p@));
                }
                None => {
                    proof {
                        assert(trim_end(lines.take(i + 1).last()) == line@);
                        assert(paths_of_lines(lines.take(i + 1)) is None);
                        lemma_paths_none_stays(lines, i + 1);
                        assert(paths_of_lines(text_lines(decode_utf8(payload@))) is None);
                    }
                    return None;
                }
            }
        }
        i = i + 1;
    }
    assert(lines.take(count as int) =~= lines);
    if paths.len() == 0 {
        None
    } else {
        Some(paths)
    }
}

/// `s` cut at every `\n`.
fn split_chars(s: &Vec<char>) -> (parts: Vec<Vec<char>>)
    ensures
        parts@.len() == split_on(s@, '\n').len(),
        forall|q: int| 0 <= q < parts@.len() ==> (#[trigger] parts@[q])@ == split_on(s@, '\n')[q],
{
    let mut parts: Vec<Vec<char>> = Vec::new();
    let mut cur: Vec<char> = Vec::new();
    let mut i: usize = 0;
    while i < s.len()
        invariant
            i <= s@.len(),
            parts@.len() + 1 == split_on(s@.take(i as int), '\n').len(),
            forall|q: int| 0 <= q < parts@.len() ==> (#[trigger] parts@[q])@ == split_on(s@.take(i as int), '\n')[q],
            cur@ == split_on(s@.take(i as int), '\n').last(),
        decreases s@.len() - i,
    {
        let c = s[i];
        proof {
            assert(s@.take(i + 1).drop_last() =~= s@.take(i as int));
            assert(s@.take(i + 1).last() == c);
        }
        if c == '\n' {
            parts.push(cur);
            cur = Vec::new();
            assert(cur@ =~= Seq::<char>::empty());
        } else {
            cur.push(c);
        }
        i = i + 1;
    }
    assert(s@.take(s@.len() as int) =~= s@);
    parts.push(cur);
    parts
}

} // verus!
