//! Searching and replacing inside a text.

use vstd::prelude::*;
use crate::text::{copy_range, push_all};

verus! {

/// `needle` stands in `hay` at index `i`.
pub open spec fn occurs_at(hay: Seq<char>, needle: Seq<char>, i: int) -> bool {
    &&& 0 <= i
    &&& i + needle.len() <= hay.len()
    &&& hay.subrange(i, i + needle.len()) == needle
}

/// The first index at or after `start` at which `needle` stands in `hay`.
pub open spec fn find_from(hay: Seq<char>, needle: Seq<char>, start: int) -> Option<int>
    decreases hay.len() - start,
{
    if start < 0 || start + needle.len() > hay.len() {
        None
    } else if occurs_at(hay, needle, start) {
        Some(start)
    } else if start < hay.len() {
        find_from(hay, needle, start + 1)
    } else {
        None
    }
}

/// The first index at which `needle` stands in `hay`.
pub open spec fn find_first(hay: Seq<char>, needle: Seq<char>) -> Option<int> {
    find_from(hay, needle, 0)
}

/// `needle` stands somewhere in `hay`.
pub open spec fn has_sub(hay: Seq<char>, needle: Seq<char>) -> bool {
    find_first(hay, needle) is Some
}

/// `hay` begins with `needle`.
pub open spec fn has_prefix(hay: Seq<char>, needle: Seq<char>) -> bool {
    occurs_at(hay, needle, 0)
}

/// The last index at which the character `c` stands in `s`.
pub open spec fn last_index_of(s: Seq<char>, c: char) -> Option<int>
    decreases s.len(),
{
    if s.len() == 0 {
        None
    } else if s.last() == c {
        Some(s.len() - 1)
    } else {
        last_index_of(s.drop_last(), c)
    }
}

/// `s` with every occurrence of `from` replaced by `to`, taken from the left
/// and without overlap. An empty `from` stands before every character and at
/// the end.
pub open spec fn replace_all(s: Seq<char>, from: Seq<char>, to: Seq<char>) -> Seq<char>
    decreases s.len(),
{
    if s.len() == 0 {
        if from.len() == 0 {
            to
        } else {
            s
        }
    } else if from.len() == 0 {
        to + seq![s[0]] + replace_all(s.drop_first(), from, to)
    } else if occurs_at(s, from, 0) {
        to + replace_all(s.skip(from.len() as int), from, to)
    } else {
        seq![s[0]] + replace_all(s.drop_first(), from, to)
    }
}

/// What `find_first` finds is the least index of an occurrence.
pub proof fn lemma_find_from_is_least(hay: Seq<char>, needle: Seq<char>, start: int)
    requires
        0 <= start,
    ensures
        match find_from(hay, needle, start) {
            Some(i) => start <= i && occurs_at(hay, needle, i) && forall|j: int|
                start <= j < i ==> !occurs_at(hay, needle, j),
            None => forall|j: int| start <= j ==> !occurs_at(hay, needle, j),
        },
    decreases hay.len() - start,
{
    if start + needle.len() > hay.len() {
    } else if occurs_at(hay, needle, start) {
    } else if start < hay.len() {
        lemma_find_from_is_least(hay, needle, start + 1);
    } else {
        assert(hay.subrange(start, start + needle.len()) == needle);
    }
}

/// The least index of an occurrence at or after `start` is what `find_from`
/// finds.
pub proof fn lemma_find_from_finds(hay: Seq<char>, needle: Seq<char>, start: int, i: int)
    requires
        0 <= start <= i,
        occurs_at(hay, needle, i),
        forall|j: int| start <= j < i ==> !occurs_at(hay, needle, j),
    ensures
        find_from(hay, needle, start) == Some(i),
    decreases i - start,
{
    if start < i {
        lemma_find_from_finds(hay, needle, start + 1, i);
    }
}

/// A single character stands at an index exactly where the text holds it
/// there.
pub proof fn lemma_char_occurs(hay: Seq<char>, c: char, i: int)
    ensures
        occurs_at(hay, seq![c], i) <==> (0 <= i < hay.len() && hay[i] == c),
{
    if 0 <= i < hay.len() {
        if hay[i] == c {
            assert(hay.subrange(i, i + 1) == seq![c]);
        } else {
            assert(hay.subrange(i, i + 1)[0] == hay[i]);
        }
    }
}

/// Whether `needle` stands in `hay` at index `i`.
pub fn stands_at(hay: &[char], needle: &[char], i: usize) -> (r: bool)
    ensures
        r == occurs_at(hay@, needle@, i as int),
{
    if needle.len() > hay.len() || i > hay.len() - needle.len() {
        return false;
    }
    let mut k: usize = 0;
    while k < needle.len()
        invariant
            k <= needle.len(),
            i + needle.len() <= hay.len(),
            hay@.subrange(i as int, i + k) == needle@.take(k as int),
        decreases needle.len() - k,
    {
        if hay[i + k] != needle[k] {
            assert(hay@.subrange(i as int, i + needle.len())[k as int] != needle@[k as int]);
            return false;
        }
        assert(hay@.subrange(i as int, i + k + 1) == hay@.subrange(i as int, i + k).push(
            hay@[i + k],
        ));
        assert(needle@.take(k + 1) == needle@.take(k as int).push(needle@[k as int]));
        k += 1;
    }
    assert(needle@.take(needle.len() as int) == needle@);
    true
}

/// The first index at or after `start` at which `needle` stands in `hay`.
pub fn find_at(hay: &[char], needle: &[char], start: usize) -> (r: Option<usize>)
    ensures
        match r {
            Some(i) => find_from(hay@, needle@, start as int) == Some(i as int) && i
                + needle.len() <= hay.len(),
            None => find_from(hay@, needle@, start as int) is None,
        },
{
    if needle.len() > hay.len() {
        return None;
    }
    let last: usize = hay.len() - needle.len();
    let mut i: usize = start;
    while i <= last
        invariant
            start <= i,
            last == hay.len() - needle.len(),
            needle.len() <= hay.len(),
            find_from(hay@, needle@, start as int) == find_from(hay@, needle@, i as int),
        decreases last + 1 - i,
    {
        if stands_at(hay, needle, i) {
            return Some(i);
        }
        if i == last {
            assert(find_from(hay@, needle@, i + 1) is None);
            return None;
        }
        i += 1;
    }
    None
}

/// The first index at which `needle` stands in `hay`.
pub fn find(hay: &[char], needle: &[char]) -> (r: Option<usize>)
    ensures
        match r {
            Some(i) => find_first(hay@, needle@) == Some(i as int) && i + needle.len()
                <= hay.len(),
            None => find_first(hay@, needle@) is None,
        },
{
    find_at(hay, needle, 0)
}

/// Whether `needle` stands somewhere in `hay`.
pub fn contains(hay: &[char], needle: &[char]) -> (r: bool)
    ensures
        r == has_sub(hay@, needle@),
{
    find(hay, needle).is_some()
}

/// Whether `hay` begins with `needle`.
pub fn starts_with(hay: &[char], needle: &[char]) -> (r: bool)
    ensures
        r == has_prefix(hay@, needle@),
{
    stands_at(hay, needle, 0)
}

/// The first index at which the character `c` stands in `s`.
pub fn find_char(s: &[char], c: char) -> (r: Option<usize>)
    ensures
        match r {
            Some(i) => find_first(s@, seq![c]) == Some(i as int) && i < s.len(),
            None => find_first(s@, seq![c]) is None,
        },
{
    let mut i: usize = 0;
    while i < s.len()
        invariant
            i <= s.len(),
            find_first(s@, seq![c]) == find_from(s@, seq![c], i as int),
        decreases s.len() - i,
    {
        if s[i] == c {
            assert(s@.subrange(i as int, i + 1) == seq![c]);
            return Some(i);
        }
        assert(s@.subrange(i as int, i + 1)[0] != seq![c][0]);
        i += 1;
    }
    None
}

/// The last index at which the character `c` stands in `s`.
pub fn rfind_char(s: &[char], c: char) -> (r: Option<usize>)
    ensures
        match r {
            Some(i) => last_index_of(s@, c) == Some(i as int) && i < s.len(),
            None => last_index_of(s@, c) is None,
        },
{
    let mut i: usize = s.len();
    assert(s@.take(s.len() as int) == s@);
    while i > 0
        invariant
            i <= s.len(),
            last_index_of(s@, c) == last_index_of(s@.take(i as int), c),
        decreases i,
    {
        if s[i - 1] == c {
            return Some(i - 1);
        }
        assert(s@.take(i as int).drop_last() == s@.take(i - 1));
        i -= 1;
    }
    None
}

/// `s` with every occurrence of `from` replaced by `to`.
pub fn replace(s: &[char], from: &[char], to: &[char]) -> (out: Vec<char>)
    ensures
        out@ == replace_all(s@, from@, to@),
{
    let mut out: Vec<char> = Vec::new();
    let mut i: usize = 0;
    assert(s@.skip(0) == s@);
    while i < s.len()
        invariant
            i <= s.len(),
            replace_all(s@, from@, to@) == out@ + replace_all(s@.skip(i as int), from@, to@),
        decreases s.len() - i,
    {
        let ghost rest = s@.skip(i as int);
        assert(rest.len() > 0);
        assert(rest[0] == s@[i as int]);
        if from.len() == 0 {
            push_all(&mut out, to);
            out.push(s[i]);
            assert(rest.drop_first() == s@.skip(i + 1));
            i += 1;
        } else if stands_at(s, from, i) {
            assert(occurs_at(rest, from@, 0)) by {
                assert(rest.subrange(0, from.len() as int) == s@.subrange(
                    i as int,
                    i + from.len(),
                ));
            }
            push_all(&mut out, to);
            assert(rest.skip(from.len() as int) == s@.skip(i + from.len()));
            i += from.len();
        } else {
            assert(!occurs_at(rest, from@, 0)) by {
                if i + from.len() <= s.len() {
                    assert(rest.subrange(0, from.len() as int) == s@.subrange(
                        i as int,
                        i + from.len(),
                    ));
                }
            }
            out.push(s[i]);
            assert(rest.drop_first() == s@.skip(i + 1));
            i += 1;
        }
    }
    assert(s@.skip(s.len() as int).len() == 0);
    if from.len() == 0 {
        push_all(&mut out, to);
    }
    out
}

/// The part of `s` before the first `sep`, and the part after it.
pub open spec fn split_first(s: Seq<char>, sep: char) -> Option<(Seq<char>, Seq<char>)> {
    match find_first(s, seq![sep]) {
        Some(i) => Some((s.take(i), s.skip(i + 1))),
        None => None,
    }
}

/// Splits `s` at its first `sep`.
pub fn split_once(s: &[char], sep: char) -> (r: Option<(Vec<char>, Vec<char>)>)
    ensures
        match r {
            Some(p) => split_first(s@, sep) == Some((p.0@, p.1@)),
            None => split_first(s@, sep) is None,
        },
{
    match find_char(s, sep) {
        Some(i) => {
            let head = copy_range(s, 0, i);
            let tail = copy_range(s, i + 1, s.len());
            assert(s@.take(i as int) == s@.subrange(0, i as int));
            assert(s@.skip(i + 1) == s@.subrange(i + 1, s.len() as int));
            Some((head, tail))
        },
        None => None,
    }
}

/// The parts of `s` between the separators `sep`, from index `start` on. A
/// text without a separator is one part; a separator at the end is followed
/// by an empty part.
pub open spec fn split_from(s: Seq<char>, sep: char, start: int) -> Seq<Seq<char>>
    decreases s.len() - start,
{
    if start < 0 || start > s.len() {
        seq![]
    } else {
        match find_from(s, seq![sep], start) {
            Some(i) => if start <= i < s.len() {
                seq![s.subrange(start, i)] + split_from(s, sep, i + 1)
            } else {
                seq![s.skip(start)]
            },
            None => seq![s.skip(start)],
        }
    }
}

/// The parts of `s` between the separators `sep`.
pub open spec fn split_on(s: Seq<char>, sep: char) -> Seq<Seq<char>> {
    split_from(s, sep, 0)
}

/// The texts that a vector of texts holds.
pub open spec fn parts_of(v: Seq<Vec<char>>) -> Seq<Seq<char>> {
    v.map_values(|t: Vec<char>| t@)
}

/// The parts of `s` between the separators `sep`.
pub fn split(s: &[char], sep: char) -> (out: Vec<Vec<char>>)
    ensures
        parts_of(out@) == split_on(s@, sep),
        out@.len() >= 1,
{
    let mut out: Vec<Vec<char>> = Vec::new();
    let needle: Vec<char> = vec![sep];
    assert(needle@ == seq![sep]);
    let mut start: usize = 0;
    assert(parts_of(out@) == Seq::<Seq<char>>::empty());
    loop
        invariant_except_break
            start <= s.len(),
            needle@ == seq![sep],
            split_on(s@, sep) == parts_of(out@) + split_from(s@, sep, start as int),
        ensures
            parts_of(out@) == split_on(s@, sep),
            out@.len() >= 1,
        decreases s.len() - start,
    {
        let ghost before = out@;
        match find_at(s, needle.as_slice(), start) {
            Some(i) => {
                proof {
                    lemma_find_from_is_least(s@, needle@, start as int);
                }
                let part = copy_range(s, start, i);
                out.push(part);
                assert(parts_of(out@) == parts_of(before) + seq![part@]);
                start = i + 1;
            },
            None => {
                let part = copy_range(s, start, s.len());
                assert(part@ == s@.skip(start as int));
                out.push(part);
                assert(parts_of(out@) == parts_of(before) + seq![part@]);
                break;
            },
        }
    }
    out
}

} // verus!
