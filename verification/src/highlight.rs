//! Regular expressions of the user: highlighting what they match, and
//! telling whether they match at all.

use vstd::prelude::*;
use regex::Regex;
use crate::style::{paint, painted, Style};
use crate::text::{chars_of, copy_range, push_all, push_str, string_of};
use crate::utf8::{index_at, seek_byte};

verus! {

/// A compiled regular expression of `regex`.
#[verifier::external_type_specification]
#[verifier::external_body]
pub struct ExRegex(regex::Regex);

/// The pattern that a regular expression was compiled from.
pub uninterp spec fn regex_source(re: Regex) -> Seq<char>;

/// Whether `regex` accepts `pattern` as a regular expression.
pub uninterp spec fn regex_compiles(pattern: Seq<char>) -> bool;

/// Whether the regular expression `pattern` matches somewhere in `text`.
pub uninterp spec fn regex_matches(pattern: Seq<char>, text: Seq<char>) -> bool;

/// The matches of the regular expression `pattern` in `text`, from the left
/// and without overlap, each as the byte offsets of its start and its end.
pub uninterp spec fn regex_spans(pattern: Seq<char>, text: Seq<char>) -> Seq<(usize, usize)>;

/// `Regex::new`: the compiled expression, `None` where the pattern is
/// refused. `Regex::as_str` gives the pattern back.
#[verifier::external_body]
pub(crate) fn compile(pattern: &str) -> (r: Option<Regex>)
    ensures
        match r {
            Some(re) => regex_compiles(pattern@) && regex_source(re) == pattern@,
            None => !regex_compiles(pattern@),
        },
{
    Regex::new(pattern).ok()
}

/// `Regex::is_match`.
#[verifier::external_body]
pub(crate) fn is_match(re: &Regex, text: &str) -> (r: bool)
    ensures
        r == regex_matches(regex_source(*re), text@),
{
    re.is_match(text)
}

/// `Regex::find_iter`: the successive matches, each as `Match::start` and
/// `Match::end`.
#[verifier::external_body]
pub(crate) fn find_spans(re: &Regex, text: &str) -> (r: Vec<(usize, usize)>)
    ensures
        r@ == regex_spans(regex_source(*re), text@),
{
    re.find_iter(text).map(|m| (m.start(), m.end())).collect()
}

/// `text` from the character index `cursor` on, with each stretch that a
/// span marks painted with `style`. A span is given in byte offsets. One
/// that falls inside a character, beyond the text, or before the end of the
/// span before it marks nothing.
pub open spec fn wrap_from(
    text: Seq<char>,
    spans: Seq<(usize, usize)>,
    cursor: int,
    style: Style,
) -> Seq<char>
    decreases spans.len(),
{
    if spans.len() == 0 {
        text.skip(cursor)
    } else {
        let rest = spans.drop_first();
        match (seek_byte(text, 0, spans[0].0 as int), seek_byte(text, 0, spans[0].1 as int)) {
            (Some(i), Some(j)) => if cursor <= i <= j {
                text.subrange(cursor, i) + painted(text.subrange(i, j), style) + wrap_from(
                    text,
                    rest,
                    j,
                    style,
                )
            } else {
                wrap_from(text, rest, cursor, style)
            },
            _ => wrap_from(text, rest, cursor, style),
        }
    }
}

/// `text` with each stretch that a span marks painted with `style`.
pub open spec fn wrapped(text: Seq<char>, spans: Seq<(usize, usize)>, style: Style) -> Seq<char> {
    wrap_from(text, spans, 0, style)
}

/// The regular expression that a pattern of the user is compiled as: the
/// pattern as a group of its own.
pub open spec fn grouped(pattern: Seq<char>) -> Seq<char> {
    "(?P<r>"@ + pattern + ")"@
}

/// The patterns and styles of a list of rules.
pub open spec fn rules_of(rules: Seq<(String, Style)>) -> Seq<(Seq<char>, Style)> {
    rules.map_values(|r: (String, Style)| (r.0@, r.1))
}

/// `text` after one rule: what the pattern matches is painted with the style.
/// A pattern that does not compile changes nothing.
pub open spec fn rule_applied(text: Seq<char>, pattern: Seq<char>, style: Style) -> Seq<char> {
    if regex_compiles(grouped(pattern)) {
        wrapped(text, regex_spans(grouped(pattern), text), style)
    } else {
        text
    }
}

/// `text` after the rules, one after the other: each works on what the rules
/// before it have made of the text.
pub open spec fn highlighted(text: Seq<char>, rules: Seq<(Seq<char>, Style)>) -> Seq<char>
    decreases rules.len(),
{
    if rules.len() == 0 {
        text
    } else {
        rule_applied(highlighted(text, rules.drop_last()), rules.last().0, rules.last().1)
    }
}

/// `text` after the rules; `text` itself where nothing is painted.
pub open spec fn highlight_of(
    text: Seq<char>,
    rules: Seq<(Seq<char>, Style)>,
    plain: bool,
) -> Seq<char> {
    if plain {
        text
    } else {
        highlighted(text, rules)
    }
}

/// Without rules a text stays as it is.
pub proof fn lemma_no_rules_no_change(text: Seq<char>, plain: bool)
    ensures
        highlight_of(text, Seq::empty(), plain) == text,
{
}

/// Without spans a text stays as it is.
pub proof fn lemma_no_spans_no_change(text: Seq<char>, style: Style)
    ensures
        wrapped(text, Seq::empty(), style) == text,
{
    assert(text.skip(0) == text);
}

/// Paints the stretches of `text` that `spans` marks with `style`.
pub fn wrap_spans(text: &str, spans: &Vec<(usize, usize)>, style: &Style) -> (r: String)
    ensures
        r@ == wrapped(text@, spans@, *style),
{
    let chars = chars_of(text);
    let chars = chars.as_slice();
    let mut out: Vec<char> = Vec::new();
    let mut cursor: usize = 0;
    let mut k: usize = 0;
    assert(spans@.skip(0) == spans@);
    while k < spans.len()
        invariant
            k <= spans.len(),
            cursor <= chars.len(),
            chars@ == text@,
            wrapped(text@, spans@, *style) == out@ + wrap_from(
                text@,
                spans@.skip(k as int),
                cursor as int,
                *style,
            ),
        decreases spans.len() - k,
    {
        let span = spans[k];
        let ghost left = spans@.skip(k as int);
        assert(left[0] == span);
        assert(left.drop_first() == spans@.skip(k + 1));
        let from = index_at(chars, span.0);
        let to = index_at(chars, span.1);
        match (from, to) {
            (Some(i), Some(j)) => {
                if cursor <= i && i <= j {
                    let gap = copy_range(chars, cursor, i);
                    let hit = copy_range(chars, i, j);
                    let drawn = paint(hit.as_slice(), style);
                    push_all(&mut out, gap.as_slice());
                    push_all(&mut out, drawn.as_slice());
                    cursor = j;
                }
            },
            _ => {},
        }
        k += 1;
    }
    let tail = copy_range(chars, cursor, chars.len());
    assert(tail@ == text@.skip(cursor as int));
    push_all(&mut out, tail.as_slice());
    string_of(out.as_slice())
}

/// Applies one rule to `text`.
pub fn apply_rule(text: String, pattern: &str, style: &Style) -> (r: String)
    ensures
        r@ == rule_applied(text@, pattern@, *style),
{
    let mut source = chars_of("(?P<r>");
    push_str(&mut source, pattern);
    push_str(&mut source, ")");
    let source = string_of(source.as_slice());
    match compile(source.as_str()) {
        Some(re) => {
            let spans = find_spans(&re, text.as_str());
            wrap_spans(text.as_str(), &spans, style)
        },
        None => text,
    }
}

/// Paints in `msg` what the patterns of `regexps` match, each with its style
/// and one rule after the other. A pattern that is no regular expression is
/// passed over. Where `disable_coloring` holds nothing is painted, and `msg`
/// comes back as it is.
pub fn apply_regexps(regexps: &Vec<(String, Style)>, msg: String, disable_coloring: bool) -> (r:
    String)
    ensures
        r@ == highlight_of(msg@, rules_of(regexps@), disable_coloring),
        regexps@.len() == 0 ==> r@ == msg@,
{
    if disable_coloring {
        return msg;
    }
    let mut ret = msg;
    let mut k: usize = 0;
    assert(rules_of(regexps@).take(0) == Seq::<(Seq<char>, Style)>::empty());
    while k < regexps.len()
        invariant
            k <= regexps.len(),
            ret@ == highlighted(msg@, rules_of(regexps@).take(k as int)),
        decreases regexps.len() - k,
    {
        proof {
            let done = rules_of(regexps@).take(k + 1);
            assert(done.drop_last() == rules_of(regexps@).take(k as int));
            assert(done.last() == (regexps@[k as int].0@, regexps@[k as int].1));
        }
        ret = apply_rule(ret, regexps[k].0.as_str(), &regexps[k].1);
        k += 1;
    }
    assert(rules_of(regexps@).take(regexps.len() as int) == rules_of(regexps@));
    ret
}

} // verus!
