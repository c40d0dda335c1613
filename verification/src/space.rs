//! White space: blank lines, trimming, padding, and splitting into lines.

use vstd::prelude::*;
use crate::search::{find_at, find_from};
use crate::text::copy_range;

verus! {

/// The characters with the Unicode property `White_Space`.
pub open spec fn is_space(c: char) -> bool {
    let u: u32 = c as u32;
    ||| 0x09 <= u <= 0x0D
    ||| u == 0x20
    ||| u == 0x85
    ||| u == 0xA0
    ||| u == 0x1680
    ||| 0x2000 <= u <= 0x200A
    ||| u == 0x2028
    ||| u == 0x2029
    ||| u == 0x202F
    ||| u == 0x205F
    ||| u == 0x3000
}

/// Every character of `s` is white space; the empty text is blank.
pub open spec fn is_blank(s: Seq<char>) -> bool {
    forall|i: int| 0 <= i < s.len() ==> is_space(#[trigger] s[i])
}

/// `s` without its leading white space.
pub open spec fn trim_start_of(s: Seq<char>) -> Seq<char>
    decreases s.len(),
{
    if s.len() > 0 && is_space(s[0]) {
        trim_start_of(s.drop_first())
    } else {
        s
    }
}

/// `s` without its trailing white space.
pub open spec fn trim_end_of(s: Seq<char>) -> Seq<char>
    decreases s.len(),
{
    if s.len() > 0 && is_space(s.last()) {
        trim_end_of(s.drop_last())
    } else {
        s
    }
}

/// `s` without its leading and trailing white space.
pub open spec fn trim_of(s: Seq<char>) -> Seq<char> {
    trim_end_of(trim_start_of(s))
}

/// `n` spaces.
pub open spec fn spaces(n: nat) -> Seq<char> {
    Seq::new(n, |i: int| ' ')
}

/// `s` followed by the spaces that bring it to `width` characters; `s` itself
/// where it is that long already.
pub open spec fn pad_right(s: Seq<char>, width: nat) -> Seq<char> {
    if s.len() >= width {
        s
    } else {
        s + spaces((width - s.len()) as nat)
    }
}

/// `line` without one trailing carriage return.
pub open spec fn strip_cr(line: Seq<char>) -> Seq<char> {
    if line.len() > 0 && line.last() == '\r' {
        line.drop_last()
    } else {
        line
    }
}

/// The lines of `s` from index `start` on: the text between line feeds, each
/// without a carriage return that stood before its line feed. A line feed at
/// the very end opens no further line.
pub open spec fn lines_from(s: Seq<char>, start: int) -> Seq<Seq<char>>
    decreases s.len() - start,
{
    if start < 0 || start >= s.len() {
        seq![]
    } else {
        match find_from(s, seq!['\n'], start) {
            Some(i) => if start <= i < s.len() {
                seq![strip_cr(s.subrange(start, i))] + lines_from(s, i + 1)
            } else {
                seq![]
            },
            None => seq![s.skip(start)],
        }
    }
}

/// The lines of `s`.
pub open spec fn lines_of(s: Seq<char>) -> Seq<Seq<char>> {
    lines_from(s, 0)
}

/// The texts that a vector of texts holds.
pub open spec fn views(v: Seq<Vec<char>>) -> Seq<Seq<char>> {
    v.map_values(|t: Vec<char>| t@)
}

/// A blank text trims to nothing, and only a blank text does.
pub proof fn lemma_blank_iff_trim_empty(s: Seq<char>)
    ensures
        is_blank(s) <==> trim_of(s).len() == 0,
    decreases s.len(),
{
    lemma_trim_start_blank(s);
    let t = trim_start_of(s);
    if t.len() > 0 {
        lemma_trim_end_keeps_nonspace_head(t);
    }
}

/// Trimming the start leaves nothing exactly of a blank text; what it leaves
/// otherwise begins with a character that is no white space.
pub proof fn lemma_trim_start_blank(s: Seq<char>)
    ensures
        is_blank(s) <==> trim_start_of(s).len() == 0,
        trim_start_of(s).len() > 0 ==> !is_space(trim_start_of(s)[0]),
    decreases s.len(),
{
    if s.len() > 0 && is_space(s[0]) {
        let r = s.drop_first();
        lemma_trim_start_blank(r);
        if is_blank(r) {
            assert forall|i: int| 0 <= i < s.len() implies is_space(#[trigger] s[i]) by {
                if i > 0 {
                    assert(s[i] == r[i - 1]);
                }
            }
        } else {
            let j = choose|j: int| 0 <= j < r.len() && !is_space(#[trigger] r[j]);
            assert(s[j + 1] == r[j]);
        }
    } else if s.len() > 0 {
        assert(!is_space(s[0]));
    }
}

/// Trimming the end of a text that begins with a character that is no white
/// space leaves that character in place.
pub proof fn lemma_trim_end_keeps_nonspace_head(t: Seq<char>)
    requires
        t.len() > 0,
        !is_space(t[0]),
    ensures
        trim_end_of(t).len() > 0,
    decreases t.len(),
{
    if is_space(t.last()) {
        assert(t.len() > 1);
        assert(t.drop_last()[0] == t[0]);
        lemma_trim_end_keeps_nonspace_head(t.drop_last());
    }
}

/// Whether `c` is white space.
pub fn is_whitespace(c: char) -> (r: bool)
    ensures
        r == is_space(c),
{
    let u: u32 = c as u32;
    (0x09 <= u && u <= 0x0D) || u == 0x20 || u == 0x85 || u == 0xA0 || u == 0x1680 || (0x2000 <= u
        && u <= 0x200A) || u == 0x2028 || u == 0x2029 || u == 0x202F || u == 0x205F || u == 0x3000
}

/// Whether `s` holds nothing but white space.
pub fn blank(s: &[char]) -> (r: bool)
    ensures
        r == is_blank(s@),
{
    let mut i: usize = 0;
    while i < s.len()
        invariant
            i <= s.len(),
            forall|k: int| 0 <= k < i ==> is_space(#[trigger] s@[k]),
        decreases s.len() - i,
    {
        if !is_whitespace(s[i]) {
            return false;
        }
        i += 1;
    }
    true
}

/// `s` without its leading white space.
pub fn trim_start(s: &[char]) -> (out: Vec<char>)
    ensures
        out@ == trim_start_of(s@),
{
    let mut i: usize = 0;
    assert(s@.skip(0) == s@);
    while i < s.len() && is_whitespace(s[i])
        invariant
            i <= s.len(),
            trim_start_of(s@) == trim_start_of(s@.skip(i as int)),
        decreases s.len() - i,
    {
        assert(s@.skip(i as int)[0] == s@[i as int]);
        assert(s@.skip(i as int).drop_first() == s@.skip(i + 1));
        i += 1;
    }
    assert(i < s.len() ==> s@.skip(i as int)[0] == s@[i as int]);
    assert(s@.skip(i as int) == s@.subrange(i as int, s.len() as int));
    copy_range(s, i, s.len())
}

/// `s` without its trailing white space.
pub fn trim_end(s: &[char]) -> (out: Vec<char>)
    ensures
        out@ == trim_end_of(s@),
{
    let mut n: usize = s.len();
    assert(s@.take(n as int) == s@);
    while n > 0 && is_whitespace(s[n - 1])
        invariant
            n <= s.len(),
            trim_end_of(s@) == trim_end_of(s@.take(n as int)),
        decreases n,
    {
        assert(s@.take(n as int).last() == s@[n - 1]);
        assert(s@.take(n as int).drop_last() == s@.take(n - 1));
        n -= 1;
    }
    assert(n > 0 ==> s@.take(n as int).last() == s@[n - 1]);
    assert(s@.take(n as int) == s@.subrange(0, n as int));
    copy_range(s, 0, n)
}

/// `s` without its leading and trailing white space.
pub fn trim(s: &[char]) -> (out: Vec<char>)
    ensures
        out@ == trim_of(s@),
{
    let head = trim_start(s);
    trim_end(head.as_slice())
}

/// `s` padded with spaces on the right to `width` characters.
pub fn pad(s: &[char], width: usize) -> (out: Vec<char>)
    ensures
        out@ == pad_right(s@, width as nat),
{
    let mut out = copy_range(s, 0, s.len());
    assert(out@ == s@);
    while out.len() < width
        invariant
            s.len() <= out.len(),
            out.len() <= width || out.len() == s.len(),
            out@ == s@ + spaces((out.len() - s.len()) as nat),
        decreases width - out.len(),
    {
        out.push(' ');
    }
    out
}

/// The lines of `s`.
pub fn lines(s: &[char]) -> (out: Vec<Vec<char>>)
    ensures
        views(out@) == lines_of(s@),
{
    let mut out: Vec<Vec<char>> = Vec::new();
    let feed: Vec<char> = vec!['\n'];
    let mut start: usize = 0;
    assert(views(out@) == Seq::<Seq<char>>::empty());
    while start < s.len()
        invariant
            start <= s.len(),
            feed@ == seq!['\n'],
            lines_of(s@) == views(out@) + lines_from(s@, start as int),
        decreases s.len() - start,
    {
        let ghost before = out@;
        match find_at(s, feed.as_slice(), start) {
            Some(i) => {
                proof {
                    crate::search::lemma_find_from_is_least(s@, feed@, start as int);
                }
                let end: usize = if i > start && s[i - 1] == '\r' {
                    i - 1
                } else {
                    i
                };
                let line = copy_range(s, start, end);
                assert(line@ == strip_cr(s@.subrange(start as int, i as int))) by {
                    let full = s@.subrange(start as int, i as int);
                    if i > start {
                        assert(full.last() == s@[i - 1]);
                        assert(full.drop_last() == s@.subrange(start as int, i - 1));
                    }
                }
                out.push(line);
                assert(views(out@) == views(before) + seq![line@]);
                start = i + 1;
            },
            None => {
                let line = copy_range(s, start, s.len());
                assert(line@ == s@.skip(start as int));
                out.push(line);
                assert(views(out@) == views(before) + seq![line@]);
                start = s.len();
            },
        }
    }
    out
}

} // verus!
