//! Character-level text helpers with their mathematical meaning.

use vstd::prelude::*;

verus! {

broadcast use vstd::string::group_string_axioms;

/// `needle` occurs in `hay` as a contiguous run of characters.
#[verifier::opaque]
pub open spec fn has_sub(hay: Seq<char>, needle: Seq<char>) -> bool {
    exists|i: int|
        0 <= i && i + needle.len() <= hay.len() && #[trigger] hay.subrange(i, i + needle.len())
            == needle
}

/// `s` begins with `p`.
pub open spec fn has_prefix(s: Seq<char>, p: Seq<char>) -> bool {
    p.len() <= s.len() && s.subrange(0, p.len() as int) == p
}

/// `s` ends with `p`.
pub open spec fn has_suffix(s: Seq<char>, p: Seq<char>) -> bool {
    p.len() <= s.len() && s.subrange(s.len() - p.len(), s.len() as int) == p
}

/// The characters of `s`, in order.
pub fn chars_of(s: &str) -> (r: Vec<char>)
    ensures
        r@ == s@,
{
    let mut v: Vec<char> = Vec::new();
    for c in it: s.chars()
        invariant
            v@ == it.seq().take(it.index() as int),
    {
        v.push(c);
    }
    v
}

/// Whether `needle` occurs in `hay`.
pub fn contains(hay: &str, needle: &str) -> (r: bool)
    ensures
        r == has_sub(hay@, needle@),
{
    reveal(has_sub);
    let h = chars_of(hay);
    let n = chars_of(needle);
    if n.len() > h.len() {
        return false;
    }
    let last: usize = h.len() - n.len();
    let mut i: usize = 0;
    while i <= last
        invariant
            h@ == hay@,
            n@ == needle@,
            last == h.len() - n.len(),
            n.len() <= h.len(),
            forall|k: int| 0 <= k < i ==> #[trigger] h@.subrange(k, k + n.len()) != n@,
        decreases last + 1 - i,
    {
        let mut j: usize = 0;
        while j < n.len() && h[i + j] == n[j]
            invariant
                i <= last,
                last == h.len() - n.len(),
                j <= n.len(),
                forall|t: int| 0 <= t < j ==> h@[i + t] == n@[t],
            decreases n.len() - j,
        {
            j = j + 1;
        }
        if j == n.len() {
            assert(h@.subrange(i as int, i + n.len()) =~= n@);
            assert(has_sub(hay@, needle@)) by {
                reveal(has_sub);
            }
            return true;
        }
        assert(h@.subrange(i as int, i + n.len())[j as int] != n@[j as int]);
        i = i + 1;
    }
    proof {
        reveal(has_sub);
        assert forall|k: int|
            0 <= k && k + n@.len() <= h@.len() implies #[trigger] h@.subrange(k, k + n@.len())
            != n@ by {
            assert(k < i);
        }
    }
    false
}

/// Whether two texts hold the same characters.
pub fn same_text(a: &str, b: &str) -> (r: bool)
    ensures
        r == (a@ == b@),
{
    let x = chars_of(a);
    let y = chars_of(b);
    if x.len() != y.len() {
        return false;
    }
    let mut j: usize = 0;
    while j < x.len()
        invariant
            x@ == a@,
            y@ == b@,
            x.len() == y.len(),
            j <= x.len(),
            forall|t: int| 0 <= t < j ==> x@[t] == y@[t],
        decreases x.len() - j,
    {
        if x[j] != y[j] {
            return false;
        }
        j = j + 1;
    }
    assert(x@ =~= y@);
    true
}

/// Whether `s` begins with `p`.
pub fn starts_with(s: &str, p: &str) -> (r: bool)
    ensures
        r == has_prefix(s@, p@),
{
    let a = chars_of(s);
    let b = chars_of(p);
    if b.len() > a.len() {
        return false;
    }
    let mut j: usize = 0;
    while j < b.len()
        invariant
            a@ == s@,
            b@ == p@,
            b.len() <= a.len(),
            j <= b.len(),
            forall|t: int| 0 <= t < j ==> a@[t] == b@[t],
        decreases b.len() - j,
    {
        if a[j] != b[j] {
            assert(a@.subrange(0, b.len() as int)[j as int] != b@[j as int]);
            return false;
        }
        j = j + 1;
    }
    assert(a@.subrange(0, b.len() as int) =~= b@);
    true
}

/// Whether `s` ends with `p`.
pub fn ends_with(s: &str, p: &str) -> (r: bool)
    ensures
        r == has_suffix(s@, p@),
{
    let a = chars_of(s);
    let b = chars_of(p);
    if b.len() > a.len() {
        return false;
    }
    let off: usize = a.len() - b.len();
    let mut j: usize = 0;
    while j < b.len()
        invariant
            a@ == s@,
            b@ == p@,
            b.len() <= a.len(),
            off == a.len() - b.len(),
            j <= b.len(),
            forall|t: int| 0 <= t < j ==> a@[off + t] == b@[t],
        decreases b.len() - j,
    {
        if a[off + j] != b[j] {
            assert(a@.subrange(off as int, a.len() as int)[j as int] != b@[j as int]);
            return false;
        }
        j = j + 1;
    }
    assert(a@.subrange(off as int, a.len() as int) =~= b@);
    true
}

/// The lowercase form of a text, as `str::to_lowercase` computes it.
pub uninterp spec fn lower_of(s: Seq<char>) -> Seq<char>;

/// A text without its leading and trailing whitespace, as `str::trim` computes it.
pub uninterp spec fn trim_of(s: Seq<char>) -> Seq<char>;

/// Relies on `str::to_lowercase`: the result depends on the characters alone.
#[verifier::external_body]
pub(crate) fn lowercase(s: &str) -> (r: String)
    ensures
        r@ == lower_of(s@),
{
    s.to_lowercase()
}

/// Relies on `str::trim`: the result depends on the characters alone.
#[verifier::external_body]
pub(crate) fn trim(s: &str) -> (r: String)
    ensures
        r@ == trim_of(s@),
{
    s.trim().to_string()
}

/// Index of the first line feed at or after `from`, or the length of `s`.
pub open spec fn next_newline(s: Seq<char>, from: int) -> int
    decreases s.len() - from,
{
    if from >= s.len() {
        s.len() as int
    } else if s[from] == '\n' {
        from
    } else {
        next_newline(s, from + 1)
    }
}

/// A line's text without the carriage return of a `\r\n` ending.
pub open spec fn strip_cr(line: Seq<char>) -> Seq<char> {
    if line.len() > 0 && line.last() == '\r' {
        line.drop_last()
    } else {
        line
    }
}

/// The lines of `s` from position `from` on: pieces between line feeds, a
/// `\r` before a line feed dropped, and no empty piece after a final line feed.
pub open spec fn lines_from(s: Seq<char>, from: int) -> Seq<Seq<char>>
    decreases s.len() - from,
{
    let end = next_newline(s, from);
    if from < 0 || from >= s.len() || end < from || end > s.len() {
        Seq::empty()
    } else if end == s.len() {
        seq![s.subrange(from, end)]
    } else {
        seq![strip_cr(s.subrange(from, end))] + lines_from(s, end + 1)
    }
}

/// The lines of `s`, in the sense of `str::lines`.
pub open spec fn lines_of(s: Seq<char>) -> Seq<Seq<char>> {
    lines_from(s, 0)
}

proof fn lemma_next_newline_bounds(s: Seq<char>, from: int)
    requires
        0 <= from <= s.len(),
    ensures
        from <= next_newline(s, from) <= s.len(),
        next_newline(s, from) < s.len() ==> s[next_newline(s, from)] == '\n',
        forall|k: int| from <= k < next_newline(s, from) ==> s[k] != '\n',
    decreases s.len() - from,
{
    if from < s.len() && s[from] != '\n' {
        lemma_next_newline_bounds(s, from + 1);
    }
}

/// The lines of `s`, split as `str::lines` splits them.
pub fn lines(s: &str) -> (r: Vec<String>)
    ensures
        r.deep_view() == lines_of(s@),
{
    let c = chars_of(s);
    let mut out: Vec<String> = Vec::new();
    let mut pos: usize = 0;
    while pos < c.len()
        invariant
            c@ == s@,
            pos <= c.len(),
            lines_of(s@) == out.deep_view() + lines_from(s@, pos as int),
        decreases c.len() - pos,
    {
        let mut end: usize = pos;
        while end < c.len() && c[end] != '\n'
            invariant
                c@ == s@,
                pos <= end <= c.len(),
                next_newline(s@, pos as int) == next_newline(s@, end as int),
            decreases c.len() - end,
        {
            end = end + 1;
        }
        let mut stop: usize = end;
        if end < c.len() && end > pos && c[end - 1] == '\r' {
            stop = end - 1;
        }
        let piece = s.substring_char(pos, stop).to_string();
        proof {
            let line = if end < c.len() {
                strip_cr(s@.subrange(pos as int, end as int))
            } else {
                s@.subrange(pos as int, end as int)
            };
            lemma_next_newline_bounds(s@, pos as int);
            assert(piece@ =~= line);
            assert(lines_from(s@, pos as int) == seq![line] + lines_from(s@, end + 1));
            assert(out.deep_view().push(piece@) + lines_from(s@, end + 1) =~= out.deep_view()
                + lines_from(s@, pos as int));
        }
        let ghost before = out.deep_view();
        out.push(piece);
        proof {
            assert(out.deep_view() =~= before.push(piece@));
        }
        pos = if end < c.len() { end + 1 } else { end };
    }
    assert(out.deep_view() + lines_from(s@, pos as int) =~= out.deep_view());
    out
}

/// The decimal digit `d`.
pub open spec fn digit_text(d: nat) -> Seq<char> {
    if d == 0 {
        "0"@
    } else if d == 1 {
        "1"@
    } else if d == 2 {
        "2"@
    } else if d == 3 {
        "3"@
    } else if d == 4 {
        "4"@
    } else if d == 5 {
        "5"@
    } else if d == 6 {
        "6"@
    } else if d == 7 {
        "7"@
    } else if d == 8 {
        "8"@
    } else {
        "9"@
    }
}

/// The decimal notation of `n`, without leading zeros.
pub open spec fn decimal_of(n: nat) -> Seq<char>
    decreases n,
{
    if n < 10 {
        digit_text(n)
    } else {
        decimal_of(n / 10) + digit_text(n % 10)
    }
}

fn digit(d: u128) -> (r: &'static str)
    requires
        d < 10,
    ensures
        r@ == digit_text(d as nat),
{
    if d == 0 {
        "0"
    } else if d == 1 {
        "1"
    } else if d == 2 {
        "2"
    } else if d == 3 {
        "3"
    } else if d == 4 {
        "4"
    } else if d == 5 {
        "5"
    } else if d == 6 {
        "6"
    } else if d == 7 {
        "7"
    } else if d == 8 {
        "8"
    } else {
        "9"
    }
}

/// The decimal notation of `n`.
pub fn decimal_text(n: u128) -> (r: String)
    ensures
        r@ == decimal_of(n as nat),
    decreases n,
{
    if n < 10 {
        digit(n).to_owned()
    } else {
        decimal_text(n / 10).concat(digit(n % 10))
    }
}

} // verus!
