//! Small string helpers shared by the rest of the crate: moving between a
//! `String` and the characters it holds, finding a separator, and reading a
//! decimal number the way `str::parse::<i32>` does.
use vstd::prelude::*;
use vstd::string::*;

verus! {

/// Append one character to a string.
///
/// Trusted: `String::push`, which appends `c` to the end of the string and
/// changes nothing else.
#[verifier::external_body]
pub(crate) fn push_char(s: &mut String, c: char)
    ensures
        final(s)@ == old(s)@.push(c),
{
    s.push(c)
}

/// The characters of `s`, in order.
pub fn chars_of(s: &str) -> (out: Vec<char>)
    ensures
        out@ == s@,
{
    let n = s.unicode_len();
    let mut out: Vec<char> = Vec::new();
    let mut i: usize = 0;
    while i < n
        invariant
            n == s@.len(),
            i <= n,
            out@ == s@.subrange(0, i as int),
        decreases n - i,
    {
        out.push(s.get_char(i));
        i = i + 1;
    }
    assert(s@.subrange(0, n as int) =~= s@);
    out
}

/// A string holding exactly `chars`.
pub fn string_of(chars: &[char]) -> (out: String)
    ensures
        out@ == chars@,
{
    let mut out = String::new();
    let mut i: usize = 0;
    while i < chars.len()
        invariant
            i <= chars@.len(),
            out@ == chars@.subrange(0, i as int),
        decreases chars@.len() - i,
    {
        push_char(&mut out, chars[i]);
        proof {
            assert(chars@.subrange(0, i as int).push(chars@[i as int]) =~= chars@.subrange(0, i + 1));
        }
        i = i + 1;
    }
    assert(chars@.subrange(0, chars@.len() as int) =~= chars@);
    out
}

/// `i` is where `c` first occurs in `s`.
pub open spec fn first_at<T>(s: Seq<T>, c: T, i: int) -> bool {
    &&& 0 <= i < s.len()
    &&& s[i] == c
    &&& forall|j: int| 0 <= j < i ==> s[j] != c
}

/// Where `c` first occurs in `s`, if it does.
pub open spec fn first_index<T>(s: Seq<T>, c: T) -> Option<int> {
    if exists|i: int| first_at(s, c, i) {
        Some(choose|i: int| first_at(s, c, i))
    } else {
        None
    }
}

/// `s` cut at the first `c`, the `c` itself dropped: `str::split_once`.
pub open spec fn split_once<T>(s: Seq<T>, c: T) -> Option<(Seq<T>, Seq<T>)> {
    match first_index(s, c) {
        Some(i) => Some((s.take(i), s.skip(i + 1))),
        None => None,
    }
}

pub proof fn lemma_first_at_unique<T>(s: Seq<T>, c: T, i: int, j: int)
    requires
        first_at(s, c, i),
        first_at(s, c, j),
    ensures
        i == j,
{
}

pub proof fn lemma_first_index_is<T>(s: Seq<T>, c: T, i: int)
    requires
        first_at(s, c, i),
    ensures
        first_index(s, c) == Some(i),
{
    let k = choose|k: int| first_at(s, c, k);
    lemma_first_at_unique(s, c, i, k);
}

pub proof fn lemma_first_index_none<T>(s: Seq<T>, c: T)
    requires
        forall|j: int| 0 <= j < s.len() ==> s[j] != c,
    ensures
        first_index(s, c) is None,
{
}

/// Where `c` first occurs in `s`.
pub fn find_char(s: &[char], c: char) -> (r: Option<usize>)
    ensures
        r matches Some(i) ==> first_index(s@, c) == Some(i as int) && first_at(s@, c, i as int),
        r is None ==> first_index(s@, c) is None,
        r is None ==> forall|j: int| 0 <= j < s@.len() ==> s@[j] != c,
{
    let mut i: usize = 0;
    while i < s.len()
        invariant
            i <= s@.len(),
            forall|j: int| 0 <= j < i ==> s@[j] != c,
        decreases s@.len() - i,
    {
        if s[i] == c {
            proof {
                lemma_first_index_is(s@, c, i as int);
            }
            return Some(i);
        }
        i = i + 1;
    }
    proof {
        lemma_first_index_none(s@, c);
    }
    None
}

/// Where `c` first occurs in `s`.
pub fn find_byte(s: &[u8], c: u8) -> (r: Option<usize>)
    ensures
        r matches Some(i) ==> first_index(s@, c) == Some(i as int) && first_at(s@, c, i as int),
        r is None ==> first_index(s@, c) is None,
        r is None ==> forall|j: int| 0 <= j < s@.len() ==> s@[j] != c,
{
    let mut i: usize = 0;
    while i < s.len()
        invariant
            i <= s@.len(),
            forall|j: int| 0 <= j < i ==> s@[j] != c,
        decreases s@.len() - i,
    {
        if s[i] == c {
            proof {
                lemma_first_index_is(s@, c, i as int);
            }
            return Some(i);
        }
        i = i + 1;
    }
    proof {
        lemma_first_index_none(s@, c);
    }
    None
}

/// The pieces of `s` between the `sep`s, as `str::split` gives them: one
/// piece more than there are separators, each possibly empty.
pub open spec fn split_on<T>(s: Seq<T>, sep: T) -> Seq<Seq<T>>
    decreases s.len(),
{
    if s.len() == 0 {
        seq![Seq::empty()]
    } else {
        let f = split_on(s.drop_last(), sep);
        if s.last() == sep {
            f.push(Seq::empty())
        } else {
            f.update(f.len() - 1, f.last().push(s.last()))
        }
    }
}

pub proof fn lemma_split_on_nonempty<T>(s: Seq<T>, sep: T)
    ensures
        split_on(s, sep).len() >= 1,
    decreases s.len(),
{
    if s.len() > 0 {
        lemma_split_on_nonempty(s.drop_last(), sep);
    }
}

/// The value of a run of decimal digits.
pub open spec fn digits_value(s: Seq<char>) -> int
    decreases s.len(),
{
    if s.len() == 0 {
        0
    } else {
        digits_value(s.drop_last()) * 10 + (s.last() as int - '0' as int)
    }
}

pub open spec fn is_digit(c: char) -> bool {
    '0' <= c <= '9'
}

pub open spec fn all_digits(s: Seq<char>) -> bool {
    forall|i: int| 0 <= i < s.len() ==> is_digit(#[trigger] s[i])
}

pub open spec fn in_i32(v: int) -> bool {
    i32::MIN <= v <= i32::MAX
}

/// What `str::parse::<i32>` gives: an optional `+` or `-`, then at least
/// one digit and nothing else, and a value that fits.
pub open spec fn parse_i32(s: Seq<char>) -> Option<i32> {
    let signed = s.len() > 0 && (s[0] == '-' || s[0] == '+');
    let digits = if signed { s.skip(1) } else { s };
    let v = if signed && s[0] == '-' { -digits_value(digits) } else { digits_value(digits) };
    if digits.len() > 0 && all_digits(digits) && in_i32(v) {
        Some(v as i32)
    } else {
        None
    }
}

pub proof fn lemma_digits_value_nonneg(s: Seq<char>)
    requires
        all_digits(s),
    ensures
        digits_value(s) >= 0,
    decreases s.len(),
{
    if s.len() > 0 {
        assert(all_digits(s.drop_last()));
        lemma_digits_value_nonneg(s.drop_last());
        assert(is_digit(s[s.len() - 1]));
    }
}

/// `str::parse::<i32>`, over characters.
pub fn parse_i32_chars(s: &[char]) -> (r: Option<i32>)
    ensures
        r == parse_i32(s@),
{
    let n = s.len();
    let signed = n > 0 && (s[0] == '-' || s[0] == '+');
    let negative = signed && s[0] == '-';
    let start: usize = if signed { 1 } else { 0 };
    let ghost digits = if signed { s@.skip(1) } else { s@ };
    if start >= n {
        assert(digits.len() == 0);
        return None;
    }
    let mut acc: i64 = 0;
    let mut big = false;
    let mut i = start;
    while i < n
        invariant
            start <= i <= n,
            n == s@.len(),
            start == (if signed { 1int } else { 0int }),
            signed == (s@.len() > 0 && (s@[0] == '-' || s@[0] == '+')),
            negative == (signed && s@[0] == '-'),
            digits == (if signed { s@.skip(1) } else { s@ }),
            digits == s@.skip(start as int),
            all_digits(digits.take(i - start)),
            !big ==> acc as int == digits_value(digits.take(i - start)),
            !big ==> 0 <= acc <= 2147483648,
            big ==> digits_value(digits.take(i - start)) > 2147483648,
        decreases n - i,
    {
        let c = s[i];
        let ghost pre = digits.take(i - start);
        assert(digits.take(i + 1 - start) =~= pre.push(c));
        assert(digits.take(i + 1 - start).drop_last() =~= pre);
        if !('0' <= c && c <= '9') {
            assert(!is_digit(digits[i - start]));
            assert(!all_digits(digits));
            return None;
        }
        proof {
            lemma_digits_value_nonneg(pre);
            assert(all_digits(pre.push(c)));
        }
        let d = (c as u32 - '0' as u32) as i64;
        if !big {
            let next = acc * 10 + d;
            if next > 2147483648 {
                big = true;
            } else {
                acc = next;
            }
        } else {
            assert(digits_value(pre.push(c)) >= digits_value(pre) * 10);
        }
        i = i + 1;
    }
    assert(digits.take(n - start) =~= digits);
    if big {
        return None;
    }
    if negative {
        Some((0 - acc) as i32)
    } else if acc <= 2147483647 {
        Some(acc as i32)
    } else {
        None
    }
}

} // verus!

verus! {

/// A copy of `v[from..to]`.
pub fn copy_range<T: Copy>(v: &[T], from: usize, to: usize) -> (out: Vec<T>)
    requires
        from <= to <= v@.len(),
    ensures
        out@ == v@.subrange(from as int, to as int),
{
    let mut out: Vec<T> = Vec::new();
    let mut i = from;
    while i < to
        invariant
            from <= i <= to <= v@.len(),
            out@ == v@.subrange(from as int, i as int),
        decreases to - i,
    {
        out.push(v[i]);
        proof {
            assert(v@.subrange(from as int, i as int).push(v@[i as int]) =~= v@.subrange(from as int, i + 1));
        }
        i = i + 1;
    }
    out
}

/// Whether two runs of characters are the same.
pub fn same_chars(a: &[char], b: &[char]) -> (r: bool)
    ensures
        r == (a@ == b@),
{
    if a.len() != b.len() {
        return false;
    }
    let mut i: usize = 0;
    while i < a.len()
        invariant
            a@.len() == b@.len(),
            i <= a@.len(),
            forall|j: int| 0 <= j < i ==> a@[j] == b@[j],
        decreases a@.len() - i,
    {
        if a[i] != b[i] {
            return false;
        }
        i = i + 1;
    }
    assert(a@ =~= b@);
    true
}

} // verus!

verus! {

/// The digit character for `d`, which is below ten.
pub open spec fn digit_char(d: int) -> char {
    ((d + 48) as u8) as char
}

/// `n` written in decimal.
pub open spec fn decimal(n: nat) -> Seq<char>
    decreases n,
{
    if n < 10 {
        seq![digit_char(n as int)]
    } else {
        decimal(n / 10).push(digit_char((n % 10) as int))
    }
}

/// `n` written in decimal, with a `-` in front when it is negative.
pub open spec fn signed_decimal(n: int) -> Seq<char> {
    if n < 0 {
        seq!['-'] + decimal((-n) as nat)
    } else {
        decimal(n as nat)
    }
}

/// Append `n` in decimal.
pub fn push_decimal(out: &mut Vec<char>, n: u64)
    ensures
        final(out)@ == old(out)@ + decimal(n as nat),
    decreases n,
{
    if n < 10 {
        out.push(((n as u8) + 48) as char);
        assert(old(out)@.push(digit_char(n as int)) =~= old(out)@ + decimal(n as nat));
    } else {
        push_decimal(out, n / 10);
        out.push((((n % 10) as u8) + 48) as char);
        assert(decimal(n as nat) == decimal((n / 10) as nat).push(digit_char((n % 10) as int)));
        assert(old(out)@ + decimal((n / 10) as nat) + seq![digit_char((n % 10) as int)] =~= old(out)@ + decimal(n as nat));
    }
}

/// Append `n` in decimal, with a `-` in front when it is negative.
pub fn push_signed(out: &mut Vec<char>, n: i64)
    ensures
        final(out)@ == old(out)@ + signed_decimal(n as int),
{
    if n < 0 {
        out.push('-');
        let m: u64 = if n == i64::MIN { 9223372036854775808u64 } else { (0 - n) as u64 };
        push_decimal(out, m);
        assert(old(out)@.push('-') + decimal(m as nat) =~= old(out)@ + (seq!['-'] + decimal(m as nat)));
    } else {
        push_decimal(out, n as u64);
    }
}

/// Append the characters of `s`.
pub fn push_str(out: &mut Vec<char>, s: &str)
    ensures
        final(out)@ == old(out)@ + s@,
{
    let c = chars_of(s);
    let mut i: usize = 0;
    while i < c.len()
        invariant
            i <= c@.len(),
            c@ == s@,
            out@ == old(out)@ + c@.take(i as int),
        decreases c@.len() - i,
    {
        out.push(c[i]);
        assert(c@.take(i + 1) =~= c@.take(i as int).push(c@[i as int]));
        i = i + 1;
    }
    assert(c@.take(c@.len() as int) =~= c@);
}

} // verus!

verus! {

/// Whether `s` ends with `suffix`.
pub open spec fn has_suffix(s: Seq<char>, suffix: Seq<char>) -> bool {
    s.len() >= suffix.len() && s.subrange(s.len() - suffix.len(), s.len() as int) == suffix
}

/// Whether `s` ends with the characters of `suffix`.
pub fn ends_with(s: &[char], suffix: &str) -> (b: bool)
    ensures
        b == has_suffix(s@, suffix@),
{
    let suf = chars_of(suffix);
    if suf.len() > s.len() {
        return false;
    }
    let start = s.len() - suf.len();
    let mut i: usize = 0;
    while i < suf.len()
        invariant
            suf@ == suffix@,
            start == s@.len() - suf@.len(),
            suf@.len() <= s@.len(),
            s@.len() <= usize::MAX,
            i <= suf@.len(),
            forall|j: int| 0 <= j < i ==> s@[start + j] == suf@[j],
        decreases suf@.len() - i,
    {
        if s[start + i] != suf[i] {
            assert(s@.subrange(start as int, s@.len() as int)[i as int] != suf@[i as int]);
            return false;
        }
        i = i + 1;
    }
    assert(s@.subrange(start as int, s@.len() as int) =~= suf@);
    true
}

} // verus!

verus! {

/// The characters of each string, in order.
pub open spec fn string_views(v: Seq<String>) -> Seq<Seq<char>> {
    v.map_values(|s: String| s@)
}

/// The characters of each row, in order.
pub open spec fn row_views(v: Seq<Vec<char>>) -> Seq<Seq<char>> {
    v.map_values(|r: Vec<char>| r@)
}

/// `line` cut into rows of `width` characters, the last row holding what is
/// left; a line that already fits is one row, even when it is empty.
pub open spec fn chunks(line: Seq<char>, width: nat) -> Seq<Seq<char>>
    decreases line.len(),
{
    if width == 0 || line.len() <= width {
        seq![line]
    } else {
        seq![line.take(width as int)] + chunks(line.skip(width as int), width)
    }
}

/// Every row of [`chunks`] fits in `width` once `width` is not zero, and
/// the rows joined back together are the line.
pub proof fn lemma_chunks(line: Seq<char>, width: nat)
    requires
        width > 0,
    ensures
        forall|i: int| 0 <= i < chunks(line, width).len() ==> #[trigger] chunks(line, width)[i].len() <= width,
        chunks(line, width).len() >= 1,
    decreases line.len(),
{
    if line.len() > width {
        lemma_chunks(line.skip(width as int), width);
        let rest = chunks(line.skip(width as int), width);
        assert forall|i: int| 0 <= i < chunks(line, width).len() implies #[trigger] chunks(line, width)[i].len() <= width by {
            if i > 0 {
                assert(chunks(line, width)[i] == rest[i - 1]);
            }
        }
    }
}

/// Append the rows of `chunks(line, width)` to `rows`.
pub fn push_chunks(rows: &mut Vec<Vec<char>>, line: &[char], width: usize)
    ensures
        row_views(final(rows)@) == row_views(old(rows)@) + chunks(line@, width as nat),
{
    let mut start: usize = 0;
    let n = line.len();
    if width == 0 || n <= width {
        rows.push(copy_range(line, 0, n));
        assert(line@.subrange(0, n as int) =~= line@);
        assert(row_views(final(rows)@) =~= row_views(old(rows)@) + chunks(line@, width as nat));
        return;
    }
    assert(line@.skip(0) =~= line@);
    while n - start > width
        invariant
            width > 0,
            n == line@.len(),
            start <= n,
            row_views(rows@) + chunks(line@.skip(start as int), width as nat)
                == row_views(old(rows)@) + chunks(line@, width as nat),
        decreases n - start,
    {
        let ghost before = row_views(rows@);
        let ghost rest = line@.skip(start as int);
        rows.push(copy_range(line, start, start + width));
        proof {
            assert(line@.subrange(start as int, start + width) =~= rest.take(width as int));
            assert(rest.skip(width as int) =~= line@.skip(start + width));
            assert(row_views(rows@) =~= before.push(rest.take(width as int)));
            assert(chunks(rest, width as nat) == seq![rest.take(width as int)] + chunks(rest.skip(width as int), width as nat));
            assert(before.push(rest.take(width as int)) + chunks(line@.skip(start + width), width as nat)
                =~= before + chunks(rest, width as nat));
        }
        start = start + width;
    }
    let ghost before = row_views(rows@);
    rows.push(copy_range(line, start, n));
    proof {
        let rest = line@.skip(start as int);
        assert(line@.subrange(start as int, n as int) =~= rest);
        assert(chunks(rest, width as nat) == seq![rest]);
        assert(row_views(rows@) =~= before + chunks(rest, width as nat));
    }
}

} // verus!

verus! {

/// Each line cut by [`chunks`], the rows of all the lines in order.
pub open spec fn wrap_all(lines: Seq<Seq<char>>, width: nat) -> Seq<Seq<char>>
    decreases lines.len(),
{
    if lines.len() == 0 {
        Seq::empty()
    } else {
        wrap_all(lines.drop_last(), width) + chunks(lines.last(), width)
    }
}

/// No row of [`wrap_all`] is wider than `width`.
pub proof fn lemma_wrap_all_fits(lines: Seq<Seq<char>>, width: nat)
    requires
        width > 0,
    ensures
        forall|i: int| 0 <= i < wrap_all(lines, width).len() ==> #[trigger] wrap_all(lines, width)[i].len() <= width,
    decreases lines.len(),
{
    if lines.len() > 0 {
        lemma_wrap_all_fits(lines.drop_last(), width);
        lemma_chunks(lines.last(), width);
        let a = wrap_all(lines.drop_last(), width);
        let b = chunks(lines.last(), width);
        assert forall|i: int| 0 <= i < wrap_all(lines, width).len() implies #[trigger] wrap_all(lines, width)[i].len() <= width by {
            if i >= a.len() {
                assert(wrap_all(lines, width)[i] == b[i - a.len()]);
            } else {
                assert(wrap_all(lines, width)[i] == a[i]);
            }
        }
    }
}

/// The rows of `wrap_all`, as strings.
pub fn wrap_strings(lines: &Vec<String>, width: usize) -> (rows: Vec<String>)
    ensures
        string_views(rows@) == wrap_all(string_views(lines@), width as nat),
{
    let ghost ls = string_views(lines@);
    let mut cut: Vec<Vec<char>> = Vec::new();
    let mut i: usize = 0;
    while i < lines.len()
        invariant
            i <= lines@.len(),
            ls == string_views(lines@),
            row_views(cut@) == wrap_all(ls.take(i as int), width as nat),
        decreases lines@.len() - i,
    {
        let l = chars_of(lines[i].as_str());
        push_chunks(&mut cut, l.as_slice(), width);
        proof {
            assert(ls.take(i + 1).drop_last() =~= ls.take(i as int));
            assert(ls.take(i + 1).last() == ls[i as int]);
        }
        i = i + 1;
    }
    assert(ls.take(lines@.len() as int) =~= ls);
    let mut rows: Vec<String> = Vec::new();
    let mut j: usize = 0;
    while j < cut.len()
        invariant
            j <= cut@.len(),
            rows@.len() == j,
            string_views(rows@) == row_views(cut@).take(j as int),
        decreases cut@.len() - j,
    {
        let ghost before = rows@;
        let s = string_of(cut[j].as_slice());
        assert(s@ == cut@[j as int]@);
        rows.push(s);
        assert(rows@ == before.push(s));
        assert(string_views(rows@) =~= row_views(cut@).take(j + 1)) by {
            assert forall|k: int| 0 <= k < j + 1 implies #[trigger] string_views(rows@)[k] == row_views(cut@).take(j + 1)[k] by {
                if k < j {
                    assert(rows@[k] == before[k]);
                }
            }
        }
        j = j + 1;
    }
    assert(row_views(cut@).take(cut@.len() as int) =~= row_views(cut@));
    rows
}

} // verus!

verus! {

/// `i` is where `c` last occurs in `s`.
pub open spec fn last_at<T>(s: Seq<T>, c: T, i: int) -> bool {
    &&& 0 <= i < s.len()
    &&& s[i] == c
    &&& forall|j: int| i < j < s.len() ==> s[j] != c
}

/// Where `c` last occurs in `s`, if it does.
pub open spec fn last_index<T>(s: Seq<T>, c: T) -> Option<int> {
    if exists|i: int| last_at(s, c, i) {
        Some(choose|i: int| last_at(s, c, i))
    } else {
        None
    }
}

pub proof fn lemma_last_index_is<T>(s: Seq<T>, c: T, i: int)
    requires
        last_at(s, c, i),
    ensures
        last_index(s, c) == Some(i),
{
    let k = choose|k: int| last_at(s, c, k);
    assert(last_at(s, c, k));
    if k < i {
        assert(s[i] != c);
    }
    if i < k {
        assert(s[k] != c);
    }
}

/// Where `c` last occurs in `s`.
pub fn rfind_char(s: &[char], c: char) -> (r: Option<usize>)
    ensures
        match r {
            Some(i) => last_at(s@, c, i as int) && last_index(s@, c) == Some(i as int),
            None => last_index(s@, c) is None && forall|j: int| 0 <= j < s@.len() ==> s@[j] != c,
        },
{
    let mut i: usize = s.len();
    while i > 0
        invariant
            i <= s@.len(),
            forall|j: int| i <= j < s@.len() ==> s@[j] != c,
        decreases i,
    {
        if s[i - 1] == c {
            proof {
                lemma_last_index_is(s@, c, i - 1);
            }
            return Some(i - 1);
        }
        i = i - 1;
    }
    None
}

} // verus!

verus! {

/// A copy of `v`, string for string.
pub fn clone_strings(v: &Vec<String>) -> (out: Vec<String>)
    ensures
        out@ == v@,
{
    let mut out: Vec<String> = Vec::new();
    let mut i: usize = 0;
    while i < v.len()
        invariant
            i <= v@.len(),
            out@ == v@.take(i as int),
        decreases v@.len() - i,
    {
        out.push(v[i].clone());
        assert(v@.take(i + 1) =~= v@.take(i as int).push(v@[i as int]));
        i = i + 1;
    }
    assert(v@.take(v@.len() as int) =~= v@);
    out
}

} // verus!

verus! {

/// `s` cut at every `sep`.
pub fn split_parts(s: &Vec<char>, sep: char) -> (parts: Vec<Vec<char>>)
    ensures
        parts@.len() == split_on(s@, sep).len(),
        forall|q: int| 0 <= q < parts@.len() ==> (#[trigger] parts@[q])@ == split_on(s@, sep)[q],
{
    let mut parts: Vec<Vec<char>> = Vec::new();
    let mut cur: Vec<char> = Vec::new();
    let mut i: usize = 0;
    while i < s.len()
        invariant
            i <= s@.len(),
            parts@.len() + 1 == split_on(s@.take(i as int), sep).len(),
            forall|q: int| 0 <= q < parts@.len() ==> (#[trigger] parts@[q])@ == split_on(s@.take(i as int), sep)[q],
            cur@ == split_on(s@.take(i as int), sep).last(),
        decreases s@.len() - i,
    {
        let c = s[i];
        proof {
            assert(s@.take(i + 1).drop_last() =~= s@.take(i as int));
            assert(s@.take(i + 1).last() == c);
        }
        if c == sep {
            parts.push(cur);
            cur = Vec::new();
            assert(cur@ =~= Seq::<char>::empty());
        } else {
            cur.push(c);
        }
        i = i + 1;
    }
    assert(s@.take(s@.len() as int) =~= s@);
    parts.push(cur);
    parts
}

} // verus!

verus! {

/// Whether `s` starts with `prefix`.
pub open spec fn has_prefix(s: Seq<char>, prefix: Seq<char>) -> bool {
    s.len() >= prefix.len() && s.take(prefix.len() as int) == prefix
}

/// Whether `s` starts with the characters of `prefix`.
pub fn starts_with_text(s: &[char], prefix: &str) -> (b: bool)
    ensures
        b == has_prefix(s@, prefix@),
{
    let p = chars_of(prefix);
    if p.len() > s.len() {
        return false;
    }
    let mut i: usize = 0;
    while i < p.len()
        invariant
            p@ == prefix@,
            p@.len() <= s@.len(),
            i <= p@.len(),
            forall|j: int| 0 <= j < i ==> s@[j] == p@[j],
        decreases p@.len() - i,
    {
        if s[i] != p[i] {
            assert(s@.take(p@.len() as int)[i as int] != p@[i as int]);
            return false;
        }
        i = i + 1;
    }
    assert(s@.take(p@.len() as int) =~= p@);
    true
}

} // verus!
