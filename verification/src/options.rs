//! From the words of a command line to a configuration: the highlighting
//! rules with their colours, and the names of the JSON fields.

use vstd::prelude::*;
use yansi::Color;
use crate::case::{lower_of, to_lower};
use crate::config::{distinct_names, Coloring, Config, KailPrefix, LevelSymbols, LogLevel};
use crate::number::{byte_value, parse_byte};
use crate::search::{
    contains, find_char, find_first, has_prefix, has_sub, parts_of, replace, replace_all, split,
    split_first, split_on, starts_with,
};
use crate::style::Style;
use crate::text::{chars_of, copy_range, is_str, same_text, string_of};

verus! {

/// Why a command line gives no configuration.
#[derive(Debug, Clone, Copy, PartialEq, Eq, Structural)]
pub enum OptionError {
    /// A colour of three parts is not three numbers from 0 to 255.
    BadColor,
    /// A JSON key is not a name, an equals sign and a pointer.
    BadJsonKey,
    /// JSON keys are given, but not three of them.
    IncompleteJsonKeys,
}

/// The colour that a lower-case name stands for; `default` for a name that
/// is none of the known ones.
pub open spec fn named_color(name: Seq<char>, default: Color) -> Color {
    if name == "yellow"@ {
        Color::Yellow
    } else if name == "cyan"@ {
        Color::Cyan
    } else if name == "red"@ {
        Color::Red
    } else if name == "magenta"@ {
        Color::Magenta
    } else if name == "blue"@ {
        Color::Blue
    } else if name == "green"@ {
        Color::Green
    } else if name == "white"@ {
        Color::White
    } else if name == "black"@ {
        Color::Black
    } else if name == "grey"@ {
        Color::Rgb(128, 128, 128)
    } else {
        default
    }
}

/// The colour of three decimal parts; none where a part is no number from 0
/// to 255.
pub open spec fn rgb_of(parts: Seq<Seq<char>>) -> Option<Color> {
    match (byte_value(parts[0]), byte_value(parts[1]), byte_value(parts[2])) {
        (Some(r), Some(g), Some(b)) => Some(Color::Rgb(r, g, b)),
        _ => None,
    }
}

/// The colour that a text stands for: three decimal parts between commas are
/// red, green and blue; one number from 0 to 255 is a colour of the palette;
/// anything else is a name, in any case of letters, and stands for `default`
/// where it is unknown.
pub open spec fn color_of(text: Seq<char>, default: Color) -> Result<Color, OptionError> {
    if split_on(text, ',').len() == 3 {
        match rgb_of(split_on(text, ',')) {
            Some(c) => Ok(c),
            None => Err(OptionError::BadColor),
        }
    } else {
        match byte_value(text) {
            Some(n) => Ok(Color::Fixed(n)),
            None => Ok(named_color(lower_of(text), default)),
        }
    }
}

/// The colour that the name `color` stands for, in any case of letters.
pub fn match_color(color: &str, default: Color) -> (c: Color)
    ensures
        c == named_color(lower_of(color@), default),
{
    let lowered = to_lower(color);
    let name = chars_of(lowered.as_str());
    let name = name.as_slice();
    if is_str(name, "yellow") {
        Color::Yellow
    } else if is_str(name, "cyan") {
        Color::Cyan
    } else if is_str(name, "red") {
        Color::Red
    } else if is_str(name, "magenta") {
        Color::Magenta
    } else if is_str(name, "blue") {
        Color::Blue
    } else if is_str(name, "green") {
        Color::Green
    } else if is_str(name, "white") {
        Color::White
    } else if is_str(name, "black") {
        Color::Black
    } else if is_str(name, "grey") {
        Color::Rgb(128, 128, 128)
    } else {
        default
    }
}

fn color_from(text: &[char], default: Color) -> (r: Result<Color, OptionError>)
    ensures
        r == color_of(text@, default),
{
    let parts = split(text, ',');
    if parts.len() == 3 {
        let r = parse_byte(parts[0].as_slice());
        let g = parse_byte(parts[1].as_slice());
        let b = parse_byte(parts[2].as_slice());
        assert(parts_of(parts@)[0] == parts@[0]@);
        assert(parts_of(parts@)[1] == parts@[1]@);
        assert(parts_of(parts@)[2] == parts@[2]@);
        match (r, g, b) {
            (Some(r), Some(g), Some(b)) => Ok(Color::Rgb(r, g, b)),
            _ => Err(OptionError::BadColor),
        }
    } else {
        match parse_byte(text) {
            Some(n) => Ok(Color::Fixed(n)),
            None => {
                let name = string_of(text);
                Ok(match_color(name.as_str(), default))
            },
        }
    }
}

/// The colour that `color` stands for; the terminal's own colour for an
/// unknown name.
pub fn parse_color(color: &str) -> (r: Result<Color, OptionError>)
    ensures
        r == color_of(color@, Color::Primary),
{
    let text = chars_of(color);
    color_from(text.as_slice(), Color::Primary)
}

/// The colour that a rule without a colour of its own is given: the colours
/// cyan, yellow, red, magenta and blue in turn, by the rule's place.
pub open spec fn turn_color(index: int) -> Color {
    let turn: int = index % 5;
    if turn == 0 {
        Color::Cyan
    } else if turn == 1 {
        Color::Yellow
    } else if turn == 2 {
        Color::Red
    } else if turn == 3 {
        Color::Magenta
    } else {
        Color::Blue
    }
}

/// What stands before the first colon of a rule: the whole rule where it
/// holds no colon.
pub open spec fn color_part(rule: Seq<char>) -> Seq<char> {
    match find_first(rule, seq![':']) {
        Some(i) => rule.take(i),
        None => rule,
    }
}

/// The value of a part that sets a colour: what follows `key`.
pub open spec fn setting(part: Seq<char>, key: Seq<char>) -> Option<Seq<char>> {
    if has_prefix(part, key) {
        Some(part.skip(key.len() as int))
    } else {
        None
    }
}

/// A pair of colours after one part of a colour setting: `bg=` sets the
/// background, `fg=` the foreground, any other part nothing.
pub open spec fn after_part(
    pair: (Color, Option<Color>),
    part: Seq<char>,
) -> Result<(Color, Option<Color>), OptionError> {
    match setting(part, "bg="@) {
        Some(v) => match color_of(v, Color::Primary) {
            Ok(c) => Ok((pair.0, Some(c))),
            Err(e) => Err(e),
        },
        None => match setting(part, "fg="@) {
            Some(v) => match color_of(v, Color::Primary) {
                Ok(c) => Ok((c, pair.1)),
                Err(e) => Err(e),
            },
            None => Ok(pair),
        },
    }
}

/// The foreground and the background that the colour part of a rule sets.
/// A part with `bg=` and `fg=` in it and one comma sets each colour by its
/// name; any other part is one colour, the foreground, and stands for
/// `default` where it names no colour.
pub open spec fn colors_of(part: Seq<char>, default: Color) -> Result<
    (Color, Option<Color>),
    OptionError,
> {
    let pieces = split_on(part, ',');
    if has_sub(part, "bg="@) && has_sub(part, "fg="@) && pieces.len() == 2 {
        match after_part((default, None), pieces[0]) {
            Ok(pair) => after_part(pair, pieces[1]),
            Err(e) => Err(e),
        }
    } else {
        match color_of(part, default) {
            Ok(c) => Ok((c, None)),
            Err(e) => Err(e),
        }
    }
}

/// The pattern of a rule: the rule without its colour part and the colon
/// behind it, wherever the two stand in the rule.
pub open spec fn pattern_of(rule: Seq<char>) -> Seq<char> {
    replace_all(rule, color_part(rule) + seq![':'], Seq::empty())
}

/// The pattern and the style that the rule at place `index` stands for.
pub open spec fn rule_of(rule: Seq<char>, index: int) -> Result<(Seq<char>, Style), OptionError> {
    match colors_of(color_part(rule), turn_color(index)) {
        Ok(pair) => Ok(
            (pattern_of(rule), Style { fg: Some(pair.0), bg: pair.1, bold: false, italic: false }),
        ),
        Err(e) => Err(e),
    }
}

/// The place of the first of `names` that is `key`.
pub open spec fn place_of(names: Seq<Seq<char>>, key: Seq<char>) -> Option<int>
    decreases names.len(),
{
    if names.len() == 0 {
        None
    } else {
        match place_of(names.drop_last(), key) {
            Some(i) => Some(i),
            None => if names.last() == key {
                Some(names.len() - 1)
            } else {
                None
            },
        }
    }
}

/// The keys of a list of entries.
pub open spec fn names_of<T>(entries: Seq<(Seq<char>, T)>) -> Seq<Seq<char>> {
    entries.map_values(|e: (Seq<char>, T)| e.0)
}

/// `entries` with `value` under `key`: in place of the first entry that
/// stood under `key`, or as a new last entry.
pub open spec fn with_entry<T>(entries: Seq<(Seq<char>, T)>, key: Seq<char>, value: T) -> Seq<
    (Seq<char>, T),
> {
    match place_of(names_of(entries), key) {
        Some(i) => entries.update(i, (key, value)),
        None => entries.push((key, value)),
    }
}

/// No key stands twice in `entries`.
pub open spec fn distinct_keys<T>(entries: Seq<(Seq<char>, T)>) -> bool {
    forall|i: int, j: int|
        0 <= i < j < entries.len() ==> (#[trigger] entries[i]).0 != (#[trigger] entries[j]).0
}

/// The rules that the words of a command line stand for, each under its
/// pattern; a later rule takes the place of an earlier one with the same
/// pattern. The first word that stands for no rule gives its error.
pub open spec fn rules_from(words: Seq<Seq<char>>) -> Result<
    Seq<(Seq<char>, Style)>,
    OptionError,
>
    decreases words.len(),
{
    if words.len() == 0 {
        Ok(Seq::empty())
    } else {
        match rules_from(words.drop_last()) {
            Ok(rules) => match rule_of(words.last(), words.len() - 1) {
                Ok(r) => Ok(with_entry(rules, r.0, r.1)),
                Err(e) => Err(e),
            },
            Err(e) => Err(e),
        }
    }
}

/// The name and the pointer of a JSON key: what stands before its first
/// equals sign, and what stands behind it.
pub open spec fn key_of(word: Seq<char>) -> Result<(Seq<char>, Seq<char>), OptionError> {
    match split_first(word, '=') {
        Some(p) => Ok(p),
        None => Err(OptionError::BadJsonKey),
    }
}

/// The JSON keys that the words of a command line stand for, each under its
/// name; a later key takes the place of an earlier one with the same name.
pub open spec fn keys_from(words: Seq<Seq<char>>) -> Result<
    Seq<(Seq<char>, Seq<char>)>,
    OptionError,
>
    decreases words.len(),
{
    if words.len() == 0 {
        Ok(Seq::empty())
    } else {
        match keys_from(words.drop_last()) {
            Ok(keys) => match key_of(words.last()) {
                Ok(k) => Ok(with_entry(keys, k.0, k.1)),
                Err(e) => Err(e),
            },
            Err(e) => Err(e),
        }
    }
}

/// The texts of a list of strings.
pub open spec fn words_of(words: Seq<String>) -> Seq<Seq<char>> {
    words.map_values(|w: String| w@)
}

/// The texts of the names under which a list of entries stands.
pub open spec fn entry_names<T>(entries: Seq<(String, T)>) -> Seq<Seq<char>> {
    entries.map_values(|e: (String, T)| e.0@)
}

/// What `place_of` finds is the least place at which `key` stands.
pub proof fn lemma_place_of_is_first(names: Seq<Seq<char>>, key: Seq<char>)
    ensures
        match place_of(names, key) {
            Some(i) => 0 <= i < names.len() && names[i] == key && forall|j: int|
                0 <= j < i ==> names[j] != key,
            None => forall|j: int| 0 <= j < names.len() ==> names[j] != key,
        },
    decreases names.len(),
{
    if names.len() > 0 {
        lemma_place_of_is_first(names.drop_last(), key);
        assert(forall|j: int|
            0 <= j < names.len() - 1 ==> names.drop_last()[j] == names[j]);
    }
}

fn find_name<T>(entries: &Vec<(String, T)>, key: &[char]) -> (r: Option<usize>)
    ensures
        match r {
            Some(i) => place_of(entry_names(entries@), key@) == Some(i as int) && i
                < entries.len(),
            None => place_of(entry_names(entries@), key@) is None,
        },
{
    let ghost names = entry_names(entries@);
    let mut i: usize = 0;
    while i < entries.len()
        invariant
            i <= entries.len(),
            names == entry_names(entries@),
            forall|j: int| 0 <= j < i ==> names[j] != key@,
        decreases entries.len() - i,
    {
        let name = chars_of(entries[i].0.as_str());
        if same_text(name.as_slice(), key) {
            proof {
                assert(names[i as int] == key@);
                lemma_place_of_is_first(names, key@);
            }
            return Some(i);
        }
        i += 1;
    }
    proof {
        lemma_place_of_is_first(names, key@);
    }
    None
}

fn colors_from(part: &[char], default: Color) -> (r: Result<(Color, Option<Color>), OptionError>)
    ensures
        r == colors_of(part@, default),
{
    let bg = chars_of("bg=");
    let fg = chars_of("fg=");
    let pieces = split(part, ',');
    if contains(part, bg.as_slice()) && contains(part, fg.as_slice()) && pieces.len() == 2 {
        assert(parts_of(pieces@)[0] == pieces@[0]@);
        assert(parts_of(pieces@)[1] == pieces@[1]@);
        let first = part_from((default, None), pieces[0].as_slice())?;
        part_from(first, pieces[1].as_slice())
    } else {
        let c = color_from(part, default)?;
        Ok((c, None))
    }
}

fn part_from(pair: (Color, Option<Color>), part: &[char]) -> (r: Result<
    (Color, Option<Color>),
    OptionError,
>)
    ensures
        r == after_part(pair, part@),
{
    let bg = chars_of("bg=");
    let fg = chars_of("fg=");
    proof {
        reveal_strlit("bg=");
        reveal_strlit("fg=");
    }
    if starts_with(part, bg.as_slice()) {
        let value = copy_range(part, 3, part.len());
        assert(value@ == part@.skip(3));
        let c = color_from(value.as_slice(), Color::Primary)?;
        Ok((pair.0, Some(c)))
    } else if starts_with(part, fg.as_slice()) {
        let value = copy_range(part, 3, part.len());
        assert(value@ == part@.skip(3));
        let c = color_from(value.as_slice(), Color::Primary)?;
        Ok((c, pair.1))
    } else {
        Ok(pair)
    }
}

fn turn(index: usize) -> (c: Color)
    ensures
        c == turn_color(index as int),
{
    let t: usize = index % 5;
    if t == 0 {
        Color::Cyan
    } else if t == 1 {
        Color::Yellow
    } else if t == 2 {
        Color::Red
    } else if t == 3 {
        Color::Magenta
    } else {
        Color::Blue
    }
}

/// The pattern and the style that the rule `rule` at place `index` stands
/// for.
pub fn parse_rule(rule: &str, index: usize) -> (r: Result<(String, Style), OptionError>)
    ensures
        match r {
            Ok(p) => rule_of(rule@, index as int) == Ok::<_, OptionError>((p.0@, p.1)),
            Err(e) => rule_of(rule@, index as int) == Err::<(Seq<char>, Style), _>(e),
        },
{
    let text = chars_of(rule);
    let text = text.as_slice();
    let mut part = match find_char(text, ':') {
        Some(i) => {
            assert(text@.take(i as int) == text@.subrange(0, i as int));
            copy_range(text, 0, i)
        },
        None => {
            assert(text@ == text@.subrange(0, text.len() as int));
            copy_range(text, 0, text.len())
        },
    };
    let pair = colors_from(part.as_slice(), turn(index))?;
    part.push(':');
    let nothing: Vec<char> = Vec::new();
    assert(nothing@ == Seq::<char>::empty());
    assert(part@ == color_part(rule@) + seq![':']);
    let pattern = replace(text, part.as_slice(), nothing.as_slice());
    Ok(
        (
            string_of(pattern.as_slice()),
            Style { fg: Some(pair.0), bg: pair.1, bold: false, italic: false },
        ),
    )
}

/// The highlighting rules that the words `regexps` stand for, in the order
/// of the words. Each word is a pattern, or a colour, a colon and a pattern.
pub fn regexp_colorize(regexps: &[String]) -> (r: Result<Vec<(String, Style)>, OptionError>)
    ensures
        match r {
            Ok(rules) => rules_from(words_of(regexps@)) == Ok::<_, OptionError>(
                crate::highlight::rules_of(rules@),
            ) && distinct_keys(crate::highlight::rules_of(rules@)),
            Err(e) => rules_from(words_of(regexps@)) == Err::<Seq<(Seq<char>, Style)>, _>(e),
        },
{
    let mut rules: Vec<(String, Style)> = Vec::new();
    let mut i: usize = 0;
    assert(words_of(regexps@).take(0) == Seq::<Seq<char>>::empty());
    assert(crate::highlight::rules_of(rules@) == Seq::<(Seq<char>, Style)>::empty());
    while i < regexps.len()
        invariant
            i <= regexps.len(),
            rules_from(words_of(regexps@).take(i as int)) == Ok::<_, OptionError>(
                crate::highlight::rules_of(rules@),
            ),
            distinct_keys(crate::highlight::rules_of(rules@)),
        decreases regexps.len() - i,
    {
        let ghost done = words_of(regexps@).take(i + 1);
        let ghost before = crate::highlight::rules_of(rules@);
        proof {
            assert(done.drop_last() == words_of(regexps@).take(i as int));
            assert(done.last() == regexps@[i as int]@);
            assert(done.len() - 1 == i);
            assert(names_of(before) == entry_names(rules@));
        }
        match parse_rule(regexps[i].as_str(), i) {
            Ok(rule) => {
                let key = chars_of(rule.0.as_str());
                let ghost entry = (rule.0@, rule.1);
                proof {
                    lemma_place_of_is_first(names_of(before), entry.0);
                }
                match find_name(&rules, key.as_slice()) {
                    Some(at) => {
                        rules.set(at, rule);
                        assert(crate::highlight::rules_of(rules@) == before.update(
                            at as int,
                            entry,
                        ));
                        proof {
                            lemma_update_keeps_distinct(before, at as int, entry);
                        }
                    },
                    None => {
                        rules.push(rule);
                        assert(crate::highlight::rules_of(rules@) == before.push(entry));
                        proof {
                            lemma_push_keeps_distinct(before, entry);
                        }
                    },
                }
            },
            Err(e) => {
                proof {
                    lemma_rules_error_stays(words_of(regexps@), i + 1);
                }
                return Err(e);
            },
        }
        i += 1;
    }
    assert(words_of(regexps@).take(regexps.len() as int) == words_of(regexps@));
    Ok(rules)
}

/// A new value under a key that stands in the list leaves the keys distinct.
pub proof fn lemma_update_keeps_distinct<T>(
    entries: Seq<(Seq<char>, T)>,
    at: int,
    entry: (Seq<char>, T),
)
    requires
        distinct_keys(entries),
        0 <= at < entries.len(),
        names_of(entries)[at] == entry.0,
    ensures
        distinct_keys(entries.update(at, entry)),
{
    let after = entries.update(at, entry);
    assert(entries[at].0 == entry.0);
    assert forall|i: int, j: int| 0 <= i < j < after.len() implies (#[trigger] after[i]).0 != (
    #[trigger] after[j]).0 by {
        assert(entries[i].0 != entries[j].0);
    }
}

/// An entry under a key that does not stand in the list leaves the keys
/// distinct.
pub proof fn lemma_push_keeps_distinct<T>(entries: Seq<(Seq<char>, T)>, entry: (Seq<char>, T))
    requires
        distinct_keys(entries),
        forall|j: int| 0 <= j < entries.len() ==> names_of(entries)[j] != entry.0,
    ensures
        distinct_keys(entries.push(entry)),
{
    let after = entries.push(entry);
    assert forall|i: int, j: int| 0 <= i < j < after.len() implies (#[trigger] after[i]).0 != (
    #[trigger] after[j]).0 by {
        if j < entries.len() {
            assert(entries[i].0 != entries[j].0);
        } else {
            assert(names_of(entries)[i] == entries[i].0);
        }
    }
}

/// Entries whose keys are distinct as texts stand under distinct names.
pub proof fn lemma_distinct_names<T, U>(entries: Seq<(String, T)>, keyed: Seq<(Seq<char>, U)>)
    requires
        keyed.len() == entries.len(),
        forall|i: int| 0 <= i < entries.len() ==> (#[trigger] keyed[i]).0 == entries[i].0@,
        distinct_keys(keyed),
    ensures
        distinct_names(entries),
{
    assert forall|i: int, j: int| 0 <= i < j < entries.len() implies (#[trigger] entries[i]).0@
        != (#[trigger] entries[j]).0@ by {
        assert(keyed[i].0 != keyed[j].0);
    }
}

/// An error among the first words is the error of all the words.
pub proof fn lemma_rules_error_stays(words: Seq<Seq<char>>, k: int)
    requires
        0 <= k <= words.len(),
        rules_from(words.take(k)) is Err,
    ensures
        rules_from(words) == rules_from(words.take(k)),
    decreases words.len() - k,
{
    if k < words.len() {
        assert(words.take(k + 1).drop_last() == words.take(k));
        lemma_rules_error_stays(words, k + 1);
    } else {
        assert(words.take(k) == words);
    }
}

/// An error among the first keys is the error of all the keys.
pub proof fn lemma_keys_error_stays(words: Seq<Seq<char>>, k: int)
    requires
        0 <= k <= words.len(),
        keys_from(words.take(k)) is Err,
    ensures
        keys_from(words) == keys_from(words.take(k)),
    decreases words.len() - k,
{
    if k < words.len() {
        assert(words.take(k + 1).drop_last() == words.take(k));
        lemma_keys_error_stays(words, k + 1);
    } else {
        assert(words.take(k) == words);
    }
}

/// The JSON keys that the words `json_keys` stand for: each word is a name,
/// an equals sign and a JSON pointer.
pub fn make_json_keys(json_keys: &[String]) -> (r: Result<Vec<(String, String)>, OptionError>)
    ensures
        match r {
            Ok(keys) => keys_from(words_of(json_keys@)) == Ok::<_, OptionError>(
                crate::extract::keys_of(keys@),
            ) && distinct_keys(crate::extract::keys_of(keys@)),
            Err(e) => e == OptionError::BadJsonKey && keys_from(words_of(json_keys@)) == Err::<
                Seq<(Seq<char>, Seq<char>)>,
                _,
            >(e),
        },
{
    let mut keys: Vec<(String, String)> = Vec::new();
    let mut i: usize = 0;
    assert(words_of(json_keys@).take(0) == Seq::<Seq<char>>::empty());
    assert(crate::extract::keys_of(keys@) == Seq::<(Seq<char>, Seq<char>)>::empty());
    while i < json_keys.len()
        invariant
            i <= json_keys.len(),
            keys_from(words_of(json_keys@).take(i as int)) == Ok::<_, OptionError>(
                crate::extract::keys_of(keys@),
            ),
            distinct_keys(crate::extract::keys_of(keys@)),
        decreases json_keys.len() - i,
    {
        let ghost done = words_of(json_keys@).take(i + 1);
        let ghost before = crate::extract::keys_of(keys@);
        proof {
            assert(done.drop_last() == words_of(json_keys@).take(i as int));
            assert(done.last() == json_keys@[i as int]@);
            assert(names_of(before) == entry_names(keys@));
        }
        let word = chars_of(json_keys[i].as_str());
        match crate::search::split_once(word.as_slice(), '=') {
            Some(pair) => {
                proof {
                    lemma_place_of_is_first(names_of(before), pair.0@);
                }
                let entry = (string_of(pair.0.as_slice()), string_of(pair.1.as_slice()));
                match find_name(&keys, pair.0.as_slice()) {
                    Some(at) => {
                        keys.set(at, entry);
                        assert(crate::extract::keys_of(keys@) == before.update(
                            at as int,
                            (pair.0@, pair.1@),
                        ));
                        proof {
                            lemma_update_keeps_distinct(before, at as int, (pair.0@, pair.1@));
                        }
                    },
                    None => {
                        keys.push(entry);
                        assert(crate::extract::keys_of(keys@) == before.push((pair.0@, pair.1@)));
                        proof {
                            lemma_push_keeps_distinct(before, (pair.0@, pair.1@));
                        }
                    },
                }
            },
            None => {
                proof {
                    lemma_keys_error_stays(words_of(json_keys@), i + 1);
                }
                return Err(OptionError::BadJsonKey);
            },
        }
        i += 1;
    }
    assert(words_of(json_keys@).take(json_keys.len() as int) == words_of(json_keys@));
    Ok(keys)
}

/// The words of a command line, each under the option that it was given to.
#[derive(Debug)]
pub struct Options {
    /// Highlighting rules: a pattern, or a colour, a colon and a pattern.
    pub regexp: Vec<String>,
    /// Patterns of messages that are not shown.
    pub skip_line_regexp: Vec<String>,
    /// The levels that are shown.
    pub filter_levels: Vec<LogLevel>,
    /// When escape sequences are written.
    pub color: Coloring,
    /// The format of time stamps.
    pub time_format: String,
    /// The time zone of time stamps.
    pub timezone: Option<String>,
    /// The format of the prefix of a Kail envelope.
    pub kail_prefix_format: String,
    /// Whether that prefix is hidden.
    pub kail_no_prefix: bool,
    /// Whether levels are drawn as symbols.
    pub level_symbols: bool,
    /// JSON keys: a name, an equals sign and a pointer.
    pub json_keys: Vec<String>,
    /// The pattern that starts the action command.
    pub action_regexp: Option<String>,
    /// The action command.
    pub action_command: Option<String>,
    /// Whether stack traces are hidden.
    pub hide_stacktrace: bool,
    /// The files to read.
    pub files: Option<Vec<String>>,
}

/// Why `o` gives no configuration, if it gives none: JSON keys are given but
/// not three of them; else the first highlighting rule that is none; else
/// the first JSON key that is none.
pub open spec fn option_error(o: Options) -> Option<OptionError> {
    if o.json_keys@.len() != 0 && o.json_keys@.len() != 3 {
        Some(OptionError::IncompleteJsonKeys)
    } else {
        match rules_from(words_of(o.regexp@)) {
            Err(e) => Some(e),
            Ok(_) => match keys_from(words_of(o.json_keys@)) {
                Err(e) => Some(e),
                Ok(_) => None,
            },
        }
    }
}

/// Whether `c` is the configuration that `o` stands for.
pub open spec fn configures(o: Options, c: Config) -> bool {
    &&& rules_from(words_of(o.regexp@)) == Ok::<_, OptionError>(
        crate::highlight::rules_of(c.regexp_colours@),
    )
    &&& keys_from(words_of(o.json_keys@)) == Ok::<_, OptionError>(
        crate::extract::keys_of(c.json_keys@),
    )
    &&& c.level_symbols == if o.level_symbols {
        LevelSymbols::Emoji
    } else {
        LevelSymbols::Text
    }
    &&& c.kail_prefix == if o.kail_no_prefix {
        KailPrefix::Hide
    } else {
        KailPrefix::Show
    }
    &&& c.kail_prefix_format == o.kail_prefix_format
    &&& c.time_format == o.time_format
    &&& c.timezone == o.timezone
    &&& c.skip_line_regexp == o.skip_line_regexp
    &&& c.filter_levels == o.filter_levels
    &&& c.action_command == o.action_command
    &&& c.action_regexp == o.action_regexp
    &&& c.files == o.files
    &&& c.hide_stacktrace == o.hide_stacktrace
    &&& c.coloring == o.color
    &&& c.well_formed()
}

/// The configuration that the words of a command line stand for.
pub fn config_from(options: Options) -> (r: Result<Config, OptionError>)
    ensures
        match r {
            Ok(c) => option_error(options) is None && configures(options, c),
            Err(e) => option_error(options) == Some(e),
        },
{
    if options.json_keys.len() != 0 && options.json_keys.len() != 3 {
        return Err(OptionError::IncompleteJsonKeys);
    }
    let regexp_colours = match regexp_colorize(options.regexp.as_slice()) {
        Ok(rules) => rules,
        Err(e) => {
            return Err(e);
        },
    };
    let json_keys = match make_json_keys(options.json_keys.as_slice()) {
        Ok(keys) => keys,
        Err(e) => {
            return Err(e);
        },
    };
    proof {
        lemma_distinct_names(regexp_colours@, crate::highlight::rules_of(regexp_colours@));
        lemma_distinct_names(json_keys@, crate::extract::keys_of(json_keys@));
    }
    Ok(
        Config {
            level_symbols: if options.level_symbols {
                LevelSymbols::Emoji
            } else {
                LevelSymbols::Text
            },
            kail_prefix_format: options.kail_prefix_format,
            kail_prefix: if options.kail_no_prefix {
                KailPrefix::Hide
            } else {
                KailPrefix::Show
            },
            time_format: options.time_format,
            timezone: options.timezone,
            skip_line_regexp: options.skip_line_regexp,
            filter_levels: options.filter_levels,
            action_command: options.action_command,
            action_regexp: options.action_regexp,
            files: options.files,
            regexp_colours,
            json_keys,
            hide_stacktrace: options.hide_stacktrace,
            coloring: options.color,
        },
    )
}

} // verus!
