//! The record that a structured line becomes, and the text it is written as.

use vstd::prelude::*;
use yansi::Color;
use crate::config::{Config, LevelSymbols};
use crate::fields::{text_of, Fields, FieldsView};
use crate::level::{color_by_level, label_of, level_symbols, symbol_of};
use crate::stack::{format_stacktrace, stack_block};
use crate::style::{tint, tinted, Style};
use crate::text::{chars_of, push_all, push_str, string_of};

verus! {

/// A line ready to be written: every part already drawn.
#[derive(Debug)]
pub struct Info {
    /// The level, as a symbol or as a padded word.
    pub level: String,
    /// The message, highlighted.
    pub msg: String,
    /// The time stamp, painted; empty where the line had none.
    pub timestamp: String,
    /// The annotation that stands before the message, after a space; empty
    /// where there is none.
    pub others: String,
    /// The stack trace as the line held it.
    pub stacktrace: Option<String>,
}

/// A record as texts.
pub struct InfoView {
    pub level: Seq<char>,
    pub msg: Seq<char>,
    pub timestamp: Seq<char>,
    pub others: Seq<char>,
    pub stacktrace: Option<Seq<char>>,
}

impl View for Info {
    type V = InfoView;

    open spec fn view(&self) -> InfoView {
        InfoView {
            level: self.level@,
            msg: self.msg@,
            timestamp: self.timestamp@,
            others: self.others@,
            stacktrace: text_of(self.stacktrace),
        }
    }
}

/// The text of an optional field; empty where the field is not there.
pub open spec fn or_empty(s: Option<Seq<char>>) -> Seq<char> {
    match s {
        Some(t) => t,
        None => Seq::empty(),
    }
}

/// The style of a time stamp.
pub open spec fn stamp_style() -> Style {
    Style { fg: Some(Color::Fixed(13)), bg: None, bold: false, italic: false }
}

/// The style of an annotation.
pub open spec fn note_style() -> Style {
    Style { fg: Some(Color::Cyan), bg: None, bold: false, italic: true }
}

/// A level, drawn as a symbol or as a padded word.
pub open spec fn level_drawn(level: Seq<char>, symbols: LevelSymbols, plain: bool) -> Seq<char> {
    match symbols {
        LevelSymbols::Emoji => symbol_of(level),
        LevelSymbols::Text => label_of(level, plain),
    }
}

/// The record of a line with the fields `f` and the highlighted message
/// `msg`. A line without a level is drawn as one with an empty level; one
/// without a time stamp or an annotation has an empty text there.
pub open spec fn info_of(
    f: FieldsView,
    msg: Seq<char>,
    symbols: LevelSymbols,
    plain: bool,
) -> InfoView {
    InfoView {
        level: level_drawn(or_empty(f.level), symbols, plain),
        msg,
        timestamp: match f.ts {
            Some(ts) => tinted(ts, stamp_style(), plain),
            None => Seq::empty(),
        },
        others: match f.others {
            Some(o) => seq![' '] + tinted(o, note_style(), plain),
            None => Seq::empty(),
        },
        stacktrace: f.stacktrace,
    }
}

/// The line that a record is written as: level, time stamp, and annotation
/// with message, a space between them, and a line feed.
pub open spec fn info_line(info: InfoView) -> Seq<char> {
    info.level + seq![' '] + info.timestamp + seq![' '] + info.others + info.msg + seq!['\n']
}

/// All that is written for a record: its line and, unless stack traces are
/// hidden, the block of its stack trace.
pub open spec fn info_text(info: InfoView, hide_stacktrace: bool, plain: bool) -> Seq<char> {
    match info.stacktrace {
        Some(stack) => if hide_stacktrace {
            info_line(info)
        } else {
            info_line(info) + stack_block(stack, plain)
        },
        None => info_line(info),
    }
}

/// The string inside an optional string, or the empty string.
pub fn str_or_empty(s: &Option<String>) -> (r: &str)
    ensures
        r@ == or_empty(text_of(*s)),
{
    proof {
        reveal_strlit("");
        assert(""@ == Seq::<char>::empty());
    }
    match s {
        Some(t) => t.as_str(),
        None => "",
    }
}

/// Draws the record of a line from its fields and its highlighted message.
pub fn build_info(fields: &Fields, msg: String, config: &Config) -> (info: Info)
    ensures
        info@ == info_of(fields@, msg@, config.level_symbols, config.is_plain()),
{
    let plain = config.plain();
    let name = str_or_empty(&fields.level);
    let level = match config.level_symbols {
        LevelSymbols::Emoji => level_symbols(name),
        LevelSymbols::Text => color_by_level(name, plain),
    };
    let timestamp = match &fields.ts {
        Some(ts) => {
            let style = Style { fg: Some(Color::Fixed(13)), bg: None, bold: false, italic: false };
            let text = chars_of(ts.as_str());
            string_of(tint(text.as_slice(), &style, plain).as_slice())
        },
        None => String::new(),
    };
    let others = match &fields.others {
        Some(o) => {
            let style = Style { fg: Some(Color::Cyan), bg: None, bold: false, italic: true };
            let text = chars_of(o.as_str());
            let drawn = tint(text.as_slice(), &style, plain);
            let mut out: Vec<char> = vec![' '];
            assert(out@ == seq![' ']);
            push_all(&mut out, drawn.as_slice());
            string_of(out.as_slice())
        },
        None => String::new(),
    };
    let stacktrace = match &fields.stacktrace {
        Some(s) => Some(s.clone()),
        None => None,
    };
    Info { level, msg, timestamp, others, stacktrace }
}

/// All that is written for `info`: its line, and the block of its stack
/// trace unless `config` hides stack traces.
pub fn format_info(info: &Info, config: &Config) -> (r: String)
    ensures
        r@ == info_text(info@, config.hide_stacktrace, config.is_plain()),
{
    let mut out = chars_of(info.level.as_str());
    out.push(' ');
    push_str(&mut out, info.timestamp.as_str());
    out.push(' ');
    push_str(&mut out, info.others.as_str());
    push_str(&mut out, info.msg.as_str());
    out.push('\n');
    assert(out@ == info_line(info@));
    match &info.stacktrace {
        Some(stack) => {
            if !config.hide_stacktrace {
                let block = format_stacktrace(stack.as_str(), config.plain());
                push_str(&mut out, block.as_str());
            }
        },
        None => {},
    }
    string_of(out.as_slice())
}

} // verus!
