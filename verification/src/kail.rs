//! The envelope that Kail puts around a line: `namespace/pod[container]: `
//! before the line itself.

use vstd::prelude::*;
use crate::config::Config;
use crate::search::{
    find_at, find_first, find_from, lemma_char_occurs, lemma_find_from_finds,
    lemma_find_from_is_least, occurs_at, replace, replace_all, stands_at,
};
use crate::text::{chars_of, copy_range, string_of};

verus! {

/// The parts of an enveloped line.
pub struct Envelope {
    /// What stands before the first slash.
    pub namespace: Vec<char>,
    /// What stands between that slash and the first opening bracket after it.
    pub pod: Vec<char>,
    /// What stands between that bracket and the first closing bracket after it.
    pub container: Vec<char>,
    /// The line itself: what follows the closing bracket, a colon and a space.
    pub line: Vec<char>,
}

/// The parts of an enveloped line, as texts.
pub struct EnvelopeView {
    pub namespace: Seq<char>,
    pub pod: Seq<char>,
    pub container: Seq<char>,
    pub line: Seq<char>,
}

impl View for Envelope {
    type V = EnvelopeView;

    open spec fn view(&self) -> EnvelopeView {
        EnvelopeView {
            namespace: self.namespace@,
            pod: self.pod@,
            container: self.container@,
            line: self.line@,
        }
    }
}

/// A text in an envelope: the four parts with their separators between them.
pub open spec fn enveloped(e: EnvelopeView) -> Seq<char> {
    e.namespace + seq!['/'] + e.pod + seq!['['] + e.container + "]: "@ + e.line
}

/// The envelope of `raw`. A line has one where a slash stands in it, an
/// opening bracket after that slash, a closing bracket after that bracket,
/// and a colon and a space right behind the first such closing bracket.
pub open spec fn envelope_of(raw: Seq<char>) -> Option<EnvelopeView> {
    match find_first(raw, seq!['/']) {
        Some(i) => match find_from(raw, seq!['['], i + 1) {
            Some(j) => match find_from(raw, seq![']'], j + 1) {
                Some(k) => if occurs_at(raw, "]: "@, k) {
                    Some(
                        EnvelopeView {
                            namespace: raw.subrange(0, i),
                            pod: raw.subrange(i + 1, j),
                            container: raw.subrange(j + 1, k),
                            line: raw.skip(k + 3),
                        },
                    )
                } else {
                    None
                },
                None => None,
            },
            None => None,
        },
        None => None,
    }
}

/// The prefix that an envelope is shown as: `format` with `{namespace}`,
/// `{pod}` and `{container}` replaced, in this order, by the envelope's parts,
/// and then each backslash followed by `n` replaced by a line feed.
pub open spec fn prefix_of(format: Seq<char>, e: EnvelopeView) -> Seq<char> {
    replace_all(
        replace_all(
            replace_all(replace_all(format, "{namespace}"@, e.namespace), "{pod}"@, e.pod),
            "{container}"@,
            e.container,
        ),
        "\\n"@,
        "\n"@,
    )
}

/// What `envelope_of` finds are the parts of the line: put together again
/// they are the line, and no part holds the separator that ends it.
pub proof fn lemma_envelope_parts(raw: Seq<char>)
    requires
        envelope_of(raw) is Some,
    ensures
        enveloped(envelope_of(raw)->0) == raw,
        !envelope_of(raw)->0.namespace.contains('/'),
        !envelope_of(raw)->0.pod.contains('['),
        !envelope_of(raw)->0.container.contains(']'),
{
    let e = envelope_of(raw)->0;
    let i: int = find_first(raw, seq!['/'])->0;
    lemma_find_from_is_least(raw, seq!['/'], 0);
    let j: int = find_from(raw, seq!['['], i + 1)->0;
    lemma_find_from_is_least(raw, seq!['['], i + 1);
    let k: int = find_from(raw, seq![']'], j + 1)->0;
    lemma_find_from_is_least(raw, seq![']'], j + 1);
    reveal_strlit("]: ");
    lemma_char_occurs(raw, '/', i);
    lemma_char_occurs(raw, '[', j);
    lemma_char_occurs(raw, ']', k);
    assert(raw.subrange(k, k + 3) == "]: "@);
    assert(enveloped(e) == raw);
    assert forall|a: int| 0 <= a < e.namespace.len() implies e.namespace[a] != '/' by {
        lemma_char_occurs(raw, '/', a);
    }
    assert forall|a: int| 0 <= a < e.pod.len() implies e.pod[a] != '[' by {
        lemma_char_occurs(raw, '[', i + 1 + a);
    }
    assert forall|a: int| 0 <= a < e.container.len() implies e.container[a] != ']' by {
        lemma_char_occurs(raw, ']', j + 1 + a);
    }
}

/// Every line that is put together from four parts, none of the first three
/// holding the separator that ends it, has these parts as its envelope.
pub proof fn lemma_envelope_of_enveloped(e: EnvelopeView)
    requires
        !e.namespace.contains('/'),
        !e.pod.contains('['),
        !e.container.contains(']'),
    ensures
        envelope_of(enveloped(e)) == Some(e),
{
    let raw = enveloped(e);
    let i: int = e.namespace.len() as int;
    let j: int = i + 1 + e.pod.len();
    let k: int = j + 1 + e.container.len();
    reveal_strlit("]: ");
    assert(raw.len() == k + 3 + e.line.len());
    assert(raw[i] == '/');
    assert(raw[j] == '[');
    assert(raw[k] == ']');
    assert forall|a: int| 0 <= a < i implies !occurs_at(raw, seq!['/'], a) by {
        lemma_char_occurs(raw, '/', a);
        assert(raw[a] == e.namespace[a]);
    }
    lemma_char_occurs(raw, '/', i);
    lemma_find_from_finds(raw, seq!['/'], 0, i);
    assert forall|a: int| i + 1 <= a < j implies !occurs_at(raw, seq!['['], a) by {
        lemma_char_occurs(raw, '[', a);
        assert(raw[a] == e.pod[a - i - 1]);
    }
    lemma_char_occurs(raw, '[', j);
    lemma_find_from_finds(raw, seq!['['], i + 1, j);
    assert forall|a: int| j + 1 <= a < k implies !occurs_at(raw, seq![']'], a) by {
        lemma_char_occurs(raw, ']', a);
        assert(raw[a] == e.container[a - j - 1]);
    }
    lemma_char_occurs(raw, ']', k);
    lemma_find_from_finds(raw, seq![']'], j + 1, k);
    assert(raw.subrange(k, k + 3) == "]: "@);
    assert(raw.subrange(0, i) == e.namespace);
    assert(raw.subrange(i + 1, j) == e.pod);
    assert(raw.subrange(j + 1, k) == e.container);
    assert(raw.skip(k + 3) == e.line);
}

/// Takes a line out of its envelope.
pub fn open_envelope(raw: &[char]) -> (r: Option<Envelope>)
    ensures
        match r {
            Some(e) => envelope_of(raw@) == Some(e@),
            None => envelope_of(raw@) is None,
        },
{
    let slash: Vec<char> = vec!['/'];
    let open: Vec<char> = vec!['['];
    let close: Vec<char> = vec![']'];
    assert(slash@ == seq!['/']);
    assert(open@ == seq!['[']);
    assert(close@ == seq![']']);
    let i: usize = match find_at(raw, slash.as_slice(), 0) {
        Some(i) => i,
        None => {
            return None;
        },
    };
    let j: usize = match find_at(raw, open.as_slice(), i + 1) {
        Some(j) => j,
        None => {
            return None;
        },
    };
    let k: usize = match find_at(raw, close.as_slice(), j + 1) {
        Some(k) => k,
        None => {
            return None;
        },
    };
    proof {
        lemma_find_from_is_least(raw@, seq!['['], i + 1);
        lemma_find_from_is_least(raw@, seq![']'], j + 1);
    }
    let end = chars_of("]: ");
    proof {
        reveal_strlit("]: ");
    }
    if !stands_at(raw, end.as_slice(), k) {
        return None;
    }
    let namespace = copy_range(raw, 0, i);
    let pod = copy_range(raw, i + 1, j);
    let container = copy_range(raw, j + 1, k);
    let line = copy_range(raw, k + 3, raw.len());
    assert(line@ == raw@.skip(k + 3));
    Some(Envelope { namespace, pod, container, line })
}

/// The prefix that the envelope `e` is shown as under `format`.
pub fn format_prefix(format: &str, e: &Envelope) -> (r: Vec<char>)
    ensures
        r@ == prefix_of(format@, e@),
{
    let template = chars_of(format);
    let a = chars_of("{namespace}");
    let b = chars_of("{pod}");
    let c = chars_of("{container}");
    let d = chars_of("\\n");
    let feed = chars_of("\n");
    let step = replace(template.as_slice(), a.as_slice(), e.namespace.as_slice());
    let step = replace(step.as_slice(), b.as_slice(), e.pod.as_slice());
    let step = replace(step.as_slice(), c.as_slice(), e.container.as_slice());
    replace(step.as_slice(), d.as_slice(), feed.as_slice())
}

/// The prefix of the envelope around `rawline`, in the format that `config`
/// sets; `None` where the line has no envelope.
pub fn parse_kail_lines(config: &Config, rawline: &str) -> (r: Option<String>)
    ensures
        match r {
            Some(p) => envelope_of(rawline@) matches Some(e) && p@ == prefix_of(
                config.kail_prefix_format@,
                e,
            ),
            None => envelope_of(rawline@) is None,
        },
{
    let raw = chars_of(rawline);
    match open_envelope(raw.as_slice()) {
        Some(e) => {
            let prefix = format_prefix(config.kail_prefix_format.as_str(), &e);
            Some(string_of(prefix.as_slice()))
        },
        None => None,
    }
}

} // verus!
