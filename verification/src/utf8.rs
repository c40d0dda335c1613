//! Byte offsets into the UTF-8 form of a text.
//!
//! A column of a table is found by its byte offset in the header line, and a
//! row is cut at the same byte offsets. Inside the library a text is a
//! sequence of characters, so an offset is the number of bytes that the
//! characters before it take.

use vstd::prelude::*;
use vstd::utf8::{encode_scalar, encode_utf8};
use crate::text::copy_range;

verus! {

/// The number of bytes that `c` takes in UTF-8.
pub open spec fn utf8_width(c: char) -> nat {
    let u: u32 = c as u32;
    if u <= 0x7F {
        1
    } else if u <= 0x7FF {
        2
    } else if u <= 0xFFFF {
        3
    } else {
        4
    }
}

/// The number of bytes that `s` takes in UTF-8.
pub open spec fn utf8_len(s: Seq<char>) -> nat
    decreases s.len(),
{
    if s.len() == 0 {
        0
    } else {
        utf8_len(s.drop_last()) + utf8_width(s.last())
    }
}

/// The byte offset at which the character of index `k` begins.
pub open spec fn byte_offset(s: Seq<char>, k: int) -> nat {
    utf8_len(s.take(k))
}

/// The index of the character that begins at byte offset `off`, sought from
/// index `k` on; the length of `s` where `off` is its end. `None` where `off`
/// falls inside a character or beyond the end.
pub open spec fn seek_byte(s: Seq<char>, k: int, off: int) -> Option<int>
    decreases s.len() - k,
{
    if k < 0 || k > s.len() {
        None
    } else if byte_offset(s, k) == off {
        Some(k)
    } else if byte_offset(s, k) < off && k < s.len() {
        seek_byte(s, k + 1, off)
    } else {
        None
    }
}

/// The characters of `s` between the byte offsets `from` and `to`, where both
/// fall on character boundaries and `from` does not lie after `to`.
pub open spec fn byte_slice(s: Seq<char>, from: int, to: int) -> Option<Seq<char>> {
    match (seek_byte(s, 0, from), seek_byte(s, 0, to)) {
        (Some(i), Some(j)) => if i <= j {
            Some(s.subrange(i, j))
        } else {
            None
        },
        _ => None,
    }
}

/// The characters of `s` from the byte offset `from` to the end.
pub open spec fn byte_tail(s: Seq<char>, from: int) -> Option<Seq<char>> {
    match seek_byte(s, 0, from) {
        Some(i) => Some(s.skip(i)),
        None => None,
    }
}

/// One more character adds its width.
pub proof fn lemma_byte_offset_step(s: Seq<char>, k: int)
    requires
        0 <= k < s.len(),
    ensures
        byte_offset(s, k + 1) == byte_offset(s, k) + utf8_width(s[k]),
{
    assert(s.take(k + 1).drop_last() == s.take(k));
}

/// Byte offsets grow with the index.
pub proof fn lemma_byte_offset_monotonic(s: Seq<char>, i: int, j: int)
    requires
        0 <= i <= j <= s.len(),
    ensures
        byte_offset(s, i) <= byte_offset(s, j),
        i < j ==> byte_offset(s, i) < byte_offset(s, j),
    decreases j - i,
{
    if i < j {
        lemma_byte_offset_monotonic(s, i, j - 1);
        lemma_byte_offset_step(s, j - 1);
    }
}

/// The bytes of two texts in a row are the bytes of the first and of the second.
pub proof fn lemma_utf8_len_concat(a: Seq<char>, b: Seq<char>)
    ensures
        utf8_len(a + b) == utf8_len(a) + utf8_len(b),
    decreases b.len(),
{
    if b.len() == 0 {
        assert(a + b == a);
    } else {
        assert((a + b).drop_last() == a + b.drop_last());
        lemma_utf8_len_concat(a, b.drop_last());
    }
}

/// `utf8_len` counts the bytes of the encoding that `vstd` defines, which is
/// what a `str` holds.
pub proof fn lemma_utf8_len_is_encoded_len(s: Seq<char>)
    ensures
        utf8_len(s) == encode_utf8(s).len(),
    decreases s.len(),
{
    if s.len() > 0 {
        let head = seq![s[0]];
        let rest = s.drop_first();
        lemma_utf8_len_is_encoded_len(rest);
        assert(s == head + rest);
        lemma_utf8_len_concat(head, rest);
        assert(utf8_len(head) == utf8_width(s[0])) by {
            assert(head.drop_last().len() == 0);
            assert(utf8_len(head.drop_last()) == 0);
            assert(head.last() == s[0]);
        }
        vstd::utf8::char_is_scalar(s[0]);
        assert(encode_scalar(s[0] as u32).len() == utf8_width(s[0]));
    }
}

/// `seek_byte` finds the index whose byte offset is `off`, if there is one.
pub proof fn lemma_seek_byte_finds(s: Seq<char>, k: int, off: int)
    requires
        0 <= k <= s.len(),
    ensures
        match seek_byte(s, k, off) {
            Some(i) => k <= i <= s.len() && byte_offset(s, i) == off,
            None => forall|i: int| k <= i <= s.len() ==> byte_offset(s, i) != off,
        },
    decreases s.len() - k,
{
    if byte_offset(s, k) == off {
    } else if byte_offset(s, k) < off && k < s.len() {
        lemma_seek_byte_finds(s, k + 1, off);
    } else {
        assert forall|i: int| k <= i <= s.len() implies byte_offset(s, i) != off by {
            lemma_byte_offset_monotonic(s, k, i);
        }
    }
}

/// The number of bytes that `c` takes in UTF-8.
pub fn char_width(c: char) -> (w: usize)
    ensures
        w == utf8_width(c),
        1 <= w <= 4,
{
    let u: u32 = c as u32;
    if u <= 0x7F {
        1
    } else if u <= 0x7FF {
        2
    } else if u <= 0xFFFF {
        3
    } else {
        4
    }
}

/// The number of bytes that a string takes.
pub fn str_byte_len(s: &str) -> (n: usize)
    ensures
        n == utf8_len(s@),
{
    proof {
        lemma_utf8_len_is_encoded_len(s@);
    }
    s.as_bytes().len()
}

/// The byte offset at which the character of index `k` of `s` begins.
pub fn offset_of(s: &[char], k: usize) -> (off: usize)
    requires
        k <= s.len(),
        utf8_len(s@) <= usize::MAX,
    ensures
        off == byte_offset(s@, k as int),
{
    let mut off: usize = 0;
    let mut i: usize = 0;
    assert(s@.take(0).len() == 0);
    while i < k
        invariant
            i <= k <= s.len(),
            off == byte_offset(s@, i as int),
            utf8_len(s@) <= usize::MAX,
        decreases k - i,
    {
        proof {
            lemma_byte_offset_step(s@, i as int);
            lemma_byte_offset_monotonic(s@, i + 1, s.len() as int);
            assert(s@.take(s.len() as int) == s@);
        }
        off += char_width(s[i]);
        i += 1;
    }
    off
}

/// The index of the character of `s` that begins at byte offset `off`.
pub fn index_at(s: &[char], off: usize) -> (r: Option<usize>)
    ensures
        match r {
            Some(i) => seek_byte(s@, 0, off as int) == Some(i as int) && i <= s.len(),
            None => seek_byte(s@, 0, off as int) is None,
        },
{
    let mut at: usize = 0;
    let mut i: usize = 0;
    assert(s@.take(0).len() == 0);
    while at < off && i < s.len()
        invariant
            i <= s.len(),
            at <= off,
            at == byte_offset(s@, i as int),
            seek_byte(s@, 0, off as int) == seek_byte(s@, i as int, off as int),
        decreases s.len() - i,
    {
        let w: usize = char_width(s[i]);
        proof {
            lemma_byte_offset_step(s@, i as int);
        }
        if w > off - at {
            assert(seek_byte(s@, i + 1, off as int) is None);
            return None;
        }
        at += w;
        i += 1;
    }
    if at == off {
        Some(i)
    } else {
        None
    }
}

/// The characters of `s` between two byte offsets.
pub fn slice_bytes(s: &[char], from: usize, to: usize) -> (r: Option<Vec<char>>)
    ensures
        match r {
            Some(t) => byte_slice(s@, from as int, to as int) == Some(t@),
            None => byte_slice(s@, from as int, to as int) is None,
        },
{
    match index_at(s, from) {
        Some(i) => match index_at(s, to) {
            Some(j) => if i <= j {
                Some(copy_range(s, i, j))
            } else {
                None
            },
            None => None,
        },
        None => None,
    }
}

/// The characters of `s` from a byte offset to the end.
pub fn tail_bytes(s: &[char], from: usize) -> (r: Option<Vec<char>>)
    ensures
        match r {
            Some(t) => byte_tail(s@, from as int) == Some(t@),
            None => byte_tail(s@, from as int) is None,
        },
{
    match index_at(s, from) {
        Some(i) => {
            assert(s@.skip(i as int) == s@.subrange(i as int, s.len() as int));
            Some(copy_range(s, i, s.len()))
        },
        None => None,
    }
}

} // verus!
