//! One line at a time: what is written for it, what is started for it, and
//! what the stream remembers of it.

use vstd::prelude::*;
use crate::case::lower_of;
use crate::config::{has_level, level_of, normalize_level, Config};
use crate::events::{
    columns_after, columns_of, event_row_in, format_event_row, format_events_header, header_drawn,
    is_events_header, is_kubectl_events_header, parse_kubectl_event_line, row_drawn, ParseState,
};
use crate::extract::{extract_info, extracted};
use crate::fields::{nothing_found, text_of, Fields, FieldsView};
use crate::highlight::{
    apply_regexps, compile, find_spans, highlight_of, is_match, regex_compiles, regex_matches,
    regex_spans, rules_of,
};
use crate::record::{
    build_info, format_info, info_of, info_text, or_empty, str_or_empty, Info, InfoView,
};
use crate::search::{replace, replace_all};
use crate::space::{blank, is_blank};
use crate::text::{chars_of, push_str, string_of};
use crate::utf8::{byte_slice, slice_bytes};

verus! {

/// A command to start for a line.
#[derive(Debug)]
pub struct Action {
    /// What the action's regular expression matched.
    pub matched: String,
    /// The command: the configured one with `{}` replaced by what was matched.
    pub command: String,
}

/// A command to start, as texts.
pub struct ActionView {
    pub matched: Seq<char>,
    pub command: Seq<char>,
}

impl View for Action {
    type V = ActionView;

    open spec fn view(&self) -> ActionView {
        ActionView { matched: self.matched@, command: self.command@ }
    }
}

/// What became of a line. The caller starts `action`, writes `echo` as a
/// line of its own, and writes the record `info`; each where it is there.
#[derive(Debug)]
pub struct Processed {
    /// The command to start for this line. It is started and not waited for.
    pub action: Option<Action>,
    /// A line that is written as it stands: the header or a row of an events
    /// table, or a line without structure, highlighted.
    pub echo: Option<String>,
    /// The record of a structured line.
    pub info: Option<Info>,
}

/// What became of a line, as texts.
pub struct ProcessedView {
    pub action: Option<ActionView>,
    pub echo: Option<Seq<char>>,
    pub info: Option<InfoView>,
}

impl View for Processed {
    type V = ProcessedView;

    open spec fn view(&self) -> ProcessedView {
        ProcessedView {
            action: match self.action {
                Some(a) => Some(a@),
                None => None,
            },
            echo: text_of(self.echo),
            info: match self.info {
                Some(i) => Some(i@),
                None => None,
            },
        }
    }
}

/// Nothing to start and nothing to write.
pub open spec fn nothing() -> ProcessedView {
    ProcessedView { action: None, echo: None, info: None }
}

/// What the first span marks in `text`.
pub open spec fn first_match(text: Seq<char>, spans: Seq<(usize, usize)>) -> Option<Seq<char>> {
    if spans.len() == 0 {
        None
    } else {
        byte_slice(text, spans[0].0 as int, spans[0].1 as int)
    }
}

/// The command for what was matched.
pub open spec fn action_for(matched: Seq<char>, command: Seq<char>) -> ActionView {
    ActionView { matched, command: replace_all(command, "{}"@, matched) }
}

/// The command to start for `line`: there is one where an action pattern
/// and a command are configured, the pattern is a regular expression, and it
/// matches in `line`.
pub open spec fn action_of(config: Config, line: Seq<char>) -> Option<ActionView> {
    match (text_of(config.action_regexp), text_of(config.action_command)) {
        (Some(pattern), Some(command)) => if regex_compiles(pattern) {
            match first_match(line, regex_spans(pattern, line)) {
                Some(m) => Some(action_for(m, command)),
                None => None,
            }
        } else {
            None
        },
        _ => None,
    }
}

/// Whether one of the patterns is a regular expression that matches in `msg`.
pub open spec fn any_matches(patterns: Seq<String>, msg: Seq<char>) -> bool
    decreases patterns.len(),
{
    if patterns.len() == 0 {
        false
    } else {
        any_matches(patterns.drop_last(), msg) || (regex_compiles(patterns.last()@)
            && regex_matches(patterns.last()@, msg))
    }
}

/// Whether a record is dropped for its message: it has a message, and a skip
/// pattern matches in it.
pub open spec fn is_skipped(config: Config, f: FieldsView) -> bool {
    match f.msg {
        Some(m) => any_matches(config.skip_line_regexp@, m),
        None => false,
    }
}

/// Whether a record is dropped for its level: levels are configured, and the
/// level that the record's level stands for, in lower case, is none of them.
pub open spec fn is_filtered(config: Config, f: FieldsView) -> bool {
    config.filter_levels@.len() > 0 && !config.filter_levels@.contains(
        level_of(lower_of(or_empty(f.level))),
    )
}

/// What becomes of a line of an events table: the header is drawn, a row is
/// drawn with its message highlighted, and a line that is no row is dropped.
pub open spec fn table_line(config: Config, line: Seq<char>, state: ParseState) -> ProcessedView {
    if is_events_header(line) {
        ProcessedView { action: None, echo: Some(header_drawn(config.is_plain())), info: None }
    } else {
        match event_row_in(line, state) {
            Some(row) => ProcessedView {
                action: None,
                echo: Some(
                    row_drawn(
                        row.0,
                        row.1,
                        row.2,
                        row.3,
                        highlight_of(row.4, rules_of(config.regexp_colours@), config.is_plain()),
                        config.is_plain(),
                    ),
                ),
                info: None,
            },
            None => nothing(),
        }
    }
}

/// What becomes of a line outside an events table. A line in which no field
/// is found is written as it is, highlighted. A record is dropped for its
/// message or its level; any other is drawn with its message highlighted. The
/// command is started in each case.
pub open spec fn log_line(config: Config, line: Seq<char>) -> ProcessedView {
    let f = extracted(line, config);
    let rules = rules_of(config.regexp_colours@);
    let plain = config.is_plain();
    if nothing_found(f) {
        ProcessedView {
            action: action_of(config, line),
            echo: Some(highlight_of(line, rules, plain)),
            info: None,
        }
    } else if is_skipped(config, f) || is_filtered(config, f) {
        ProcessedView { action: action_of(config, line), echo: None, info: None }
    } else {
        ProcessedView {
            action: action_of(config, line),
            echo: None,
            info: Some(
                info_of(
                    f,
                    highlight_of(or_empty(f.msg), rules, plain),
                    config.level_symbols,
                    plain,
                ),
            ),
        }
    }
}

/// What becomes of `line` in a stream that is in the state `state`.
pub open spec fn processed(config: Config, line: Seq<char>, state: ParseState) -> ProcessedView {
    if is_blank(line) {
        nothing()
    } else if is_events_header(line) || state.kubectl_events_mode {
        table_line(config, line, state)
    } else {
        log_line(config, line)
    }
}

/// All that is written for a line: the line that is written as it stands,
/// ended by a line feed, and the text of the record.
pub open spec fn written(p: ProcessedView, hide_stacktrace: bool, plain: bool) -> Seq<char> {
    (match p.echo {
        Some(e) => e + seq!['\n'],
        None => Seq::empty(),
    }) + (match p.info {
        Some(i) => info_text(i, hide_stacktrace, plain),
        None => Seq::empty(),
    })
}

/// Whether a stream is an events table after `line`: it stays one, and the
/// header of a table makes it one.
pub open spec fn mode_after(line: Seq<char>, state: ParseState) -> bool {
    state.kubectl_events_mode || (!is_blank(line) && is_events_header(line))
}

/// The columns that a stream holds after `line`: a blank line changes
/// nothing; else those it held, or those of `line` where it is a header and
/// none were held.
pub open spec fn cols_after(line: Seq<char>, state: ParseState) -> Option<
    (nat, nat, nat, nat, nat),
> {
    if is_blank(line) {
        columns_of(state)
    } else {
        columns_after(state.kubectl_events_cols, line)
    }
}

/// A blank line gives nothing, so that nothing is written for it, and leaves
/// the stream as it was.
pub proof fn lemma_blank_line_gives_nothing(config: Config, line: Seq<char>, state: ParseState)
    requires
        is_blank(line),
    ensures
        processed(config, line, state) == nothing(),
        written(processed(config, line, state), config.hide_stacktrace, config.is_plain()).len()
            == 0,
        mode_after(line, state) == state.kubectl_events_mode,
        cols_after(line, state) == columns_of(state),
{
}

/// At most one thing is written for a line: a line as it stands or a record.
/// A line of an events table starts no command.
pub proof fn lemma_one_outcome(config: Config, line: Seq<char>, state: ParseState)
    ensures
        processed(config, line, state).echo is None || processed(config, line, state).info is None,
        is_events_header(line) || state.kubectl_events_mode ==> processed(
            config,
            line,
            state,
        ).action is None,
{
}

/// After the header of an events table the stream is such a table, and it
/// stays one: whatever the line, no record is made of it and no command is
/// started, and what is written is the header, a row cut at the columns, or
/// nothing.
pub proof fn lemma_table_stays_table(config: Config, line: Seq<char>, state: ParseState)
    ensures
        !is_blank(line) && is_events_header(line) ==> mode_after(line, state),
        state.kubectl_events_mode ==> mode_after(line, state),
        state.kubectl_events_mode ==> processed(config, line, state).info is None && processed(
            config,
            line,
            state,
        ).action is None,
        state.kubectl_events_mode && !is_blank(line) ==> processed(config, line, state)
            == table_line(config, line, state),
        state.kubectl_events_cols is Some ==> cols_after(line, state) == columns_of(state),
{
}

/// A line that is no JSON document, outside an events table, is written as
/// it is but for what the highlighting rules paint; without rules, or
/// without colours, it is written unchanged.
pub proof fn lemma_plain_text_passes_through(config: Config, line: Seq<char>, state: ParseState)
    requires
        !is_blank(line),
        !is_events_header(line),
        !state.kubectl_events_mode,
        crate::json::json_parsed(crate::extract::unwrapped(line)) is None,
    ensures
        processed(config, line, state).info is None,
        processed(config, line, state).echo == Some(
            highlight_of(line, rules_of(config.regexp_colours@), config.is_plain()),
        ),
        config.regexp_colours@.len() == 0 || config.is_plain() ==> processed(
            config,
            line,
            state,
        ).echo == Some(line),
{
    crate::extract::lemma_no_document_no_fields(line, config);
    assert(rules_of(config.regexp_colours@).len() == config.regexp_colours@.len());
}

/// The command for the first of `spans` in `line`, from the configured
/// command `command`.
pub fn action_from_spans(line: &str, spans: &Vec<(usize, usize)>, command: &str) -> (r: Option<
    Action,
>)
    ensures
        match r {
            Some(a) => first_match(line@, spans@) matches Some(m) && a@ == action_for(m, command@),
            None => first_match(line@, spans@) is None,
        },
{
    if spans.len() == 0 {
        return None;
    }
    let chars = chars_of(line);
    match slice_bytes(chars.as_slice(), spans[0].0, spans[0].1) {
        Some(m) => {
            let template = chars_of(command);
            let hole = chars_of("{}");
            let filled = replace(template.as_slice(), hole.as_slice(), m.as_slice());
            Some(
                Action {
                    matched: string_of(m.as_slice()),
                    command: string_of(filled.as_slice()),
                },
            )
        },
        None => None,
    }
}

/// The command to start for `line`, where the action pattern of `config`
/// matches in it. The command is returned, not started.
pub fn action_on_regexp(config: &Config, line: &str) -> (r: Option<Action>)
    ensures
        match r {
            Some(a) => action_of(*config, line@) == Some(a@),
            None => action_of(*config, line@) is None,
        },
{
    let pattern = match &config.action_regexp {
        Some(p) => p,
        None => {
            return None;
        },
    };
    let command = match &config.action_command {
        Some(c) => c,
        None => {
            return None;
        },
    };
    match compile(pattern.as_str()) {
        Some(re) => {
            let spans = find_spans(&re, line);
            action_from_spans(line, &spans, command.as_str())
        },
        None => None,
    }
}

/// Whether one of `patterns` is a regular expression that matches in `msg`.
pub fn matches_any(patterns: &Vec<String>, msg: &str) -> (r: bool)
    ensures
        r == any_matches(patterns@, msg@),
{
    let mut k: usize = 0;
    while k < patterns.len()
        invariant
            k <= patterns.len(),
            !any_matches(patterns@.take(k as int), msg@),
        decreases patterns.len() - k,
    {
        proof {
            let done = patterns@.take(k + 1);
            assert(done.drop_last() == patterns@.take(k as int));
            assert(done.last() == patterns@[k as int]);
        }
        let hit = match compile(patterns[k].as_str()) {
            Some(re) => is_match(&re, msg),
            None => false,
        };
        if hit {
            proof {
                lemma_any_matches_grows(patterns@, k + 1, msg@);
            }
            return true;
        }
        k += 1;
    }
    assert(patterns@.take(patterns.len() as int) == patterns@);
    false
}

/// A match among the first patterns is a match among all of them.
pub proof fn lemma_any_matches_grows(patterns: Seq<String>, k: int, msg: Seq<char>)
    requires
        0 <= k <= patterns.len(),
        any_matches(patterns.take(k), msg),
    ensures
        any_matches(patterns, msg),
    decreases patterns.len() - k,
{
    if k < patterns.len() {
        assert(patterns.take(k + 1).drop_last() == patterns.take(k));
        lemma_any_matches_grows(patterns, k + 1, msg);
    } else {
        assert(patterns.take(k) == patterns);
    }
}

/// Whether the record with the fields `fields` is dropped for its message.
pub fn skipped(config: &Config, fields: &Fields) -> (r: bool)
    ensures
        r == is_skipped(*config, fields@),
{
    match &fields.msg {
        Some(m) => matches_any(&config.skip_line_regexp, m.as_str()),
        None => false,
    }
}

/// Whether the record with the fields `fields` is dropped for its level.
pub fn filtered(config: &Config, fields: &Fields) -> (r: bool)
    ensures
        r == is_filtered(*config, fields@),
{
    if config.filter_levels.len() == 0 {
        return false;
    }
    let level = normalize_level(str_or_empty(&fields.level));
    !has_level(&config.filter_levels, level)
}

/// All that is to be written for a line that `do_line` has taken.
pub fn format_output(done: &Processed, config: &Config) -> (r: String)
    ensures
        r@ == written(done@, config.hide_stacktrace, config.is_plain()),
{
    let mut out: Vec<char> = Vec::new();
    match &done.echo {
        Some(e) => {
            push_str(&mut out, e.as_str());
            out.push('\n');
        },
        None => {},
    }
    match &done.info {
        Some(i) => {
            let text = format_info(i, config);
            push_str(&mut out, text.as_str());
        },
        None => {},
    }
    string_of(out.as_slice())
}

fn do_table_line(config: &Config, line: &str, state: &ParseState, header: bool) -> (r: Processed)
    requires
        header == is_events_header(line@),
    ensures
        r@ == table_line(*config, line@, *state),
{
    let plain = config.plain();
    if header {
        return Processed { action: None, echo: Some(format_events_header(plain)), info: None };
    }
    match parse_kubectl_event_line(line, state) {
        Some(row) => {
            let message = apply_regexps(&config.regexp_colours, row.4, plain);
            let drawn = format_event_row(
                row.0.as_str(),
                row.1.as_str(),
                row.2.as_str(),
                row.3.as_str(),
                message.as_str(),
                plain,
            );
            Processed { action: None, echo: Some(drawn), info: None }
        },
        None => Processed { action: None, echo: None, info: None },
    }
}

fn do_log_line(config: &Config, line: &str) -> (r: Processed)
    ensures
        r@ == log_line(*config, line@),
{
    let plain = config.plain();
    let action = action_on_regexp(config, line);
    let fields = extract_info(line, config);
    if fields.is_empty() {
        let echo = apply_regexps(&config.regexp_colours, line.to_owned(), plain);
        return Processed { action, echo: Some(echo), info: None };
    }
    if skipped(config, &fields) || filtered(config, &fields) {
        return Processed { action, echo: None, info: None };
    }
    let msg = apply_regexps(&config.regexp_colours, str_or_empty(&fields.msg).to_owned(), plain);
    let info = build_info(&fields, msg, config);
    Processed { action, echo: None, info: Some(info) }
}

/// Takes one line of a stream.
///
/// A blank line gives nothing. The header of an events table turns the
/// stream into such a table for good; in a table every line is a header, a
/// row or nothing, and no line is read as JSON or starts a command. Any other
/// line may start the configured command; it is written as it is where no
/// field is found in it, and becomes a record, unless it is dropped, where
/// one is.
pub fn do_line(config: &Config, line: &str, state: &mut ParseState) -> (r: Processed)
    ensures
        r@ == processed(*config, line@, *old(state)),
        final(state).kubectl_events_mode == mode_after(line@, *old(state)),
        columns_of(*final(state)) == cols_after(line@, *old(state)),
        is_blank(line@) ==> r@ == nothing() && *final(state) == *old(state),
        old(state).kubectl_events_mode ==> final(state).kubectl_events_mode && r@.info is None
            && r@.action is None,
        old(state).kubectl_events_cols is Some ==> final(state).kubectl_events_cols == old(
            state,
        ).kubectl_events_cols,
{
    let chars = chars_of(line);
    if blank(chars.as_slice()) {
        return Processed { action: None, echo: None, info: None };
    }
    let header = is_kubectl_events_header(line, state);
    if header {
        state.kubectl_events_mode = true;
    }
    if header || state.kubectl_events_mode {
        do_table_line(config, line, state, header)
    } else {
        do_log_line(config, line)
    }
}

} // verus!
