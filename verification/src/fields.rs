//! What was found in one line, by name.

use vstd::prelude::*;
use crate::level::{convert_pac_provider_to_fa_icon, icon_of};
use crate::space::{trim, trim_of};
use crate::style::{tint, tinted, Style};
use crate::text::{chars_of, is_str, push_str, string_of};
use yansi::Color;

verus! {

/// What one line yielded. A line that yielded nothing has no structure that
/// the library knows.
#[derive(Debug)]
pub struct Fields {
    /// The message.
    pub msg: Option<String>,
    /// The level, as the line names it.
    pub level: Option<String>,
    /// The time stamp, written in the configured format.
    pub ts: Option<String>,
    /// An annotation that is shown before the message.
    pub others: Option<String>,
    /// The stack trace.
    pub stacktrace: Option<String>,
    /// What was found under configured names other than these five, each
    /// with its name, in the order in which it was found.
    pub more: Vec<(String, String)>,
}

/// The characters of an optional string.
pub open spec fn text_of(s: Option<String>) -> Option<Seq<char>> {
    match s {
        Some(t) => Some(t@),
        None => None,
    }
}

/// The fields of a line as texts.
pub struct FieldsView {
    pub msg: Option<Seq<char>>,
    pub level: Option<Seq<char>>,
    pub ts: Option<Seq<char>>,
    pub others: Option<Seq<char>>,
    pub stacktrace: Option<Seq<char>>,
    pub more: Seq<(Seq<char>, Seq<char>)>,
}

impl View for Fields {
    type V = FieldsView;

    open spec fn view(&self) -> FieldsView {
        FieldsView {
            msg: text_of(self.msg),
            level: text_of(self.level),
            ts: text_of(self.ts),
            others: text_of(self.others),
            stacktrace: text_of(self.stacktrace),
            more: self.more@.map_values(|p: (String, String)| (p.0@, p.1@)),
        }
    }
}

/// No field at all.
pub open spec fn no_fields() -> FieldsView {
    FieldsView {
        msg: None,
        level: None,
        ts: None,
        others: None,
        stacktrace: None,
        more: Seq::empty(),
    }
}

/// Whether nothing was found.
pub open spec fn nothing_found(f: FieldsView) -> bool {
    &&& f.msg is None
    &&& f.level is None
    &&& f.ts is None
    &&& f.others is None
    &&& f.stacktrace is None
    &&& f.more.len() == 0
}

/// `f` with `value` under `name`: in the field of that name, in place of what
/// the field held; among the further values where `name` is none of the five.
pub open spec fn with_field(f: FieldsView, name: Seq<char>, value: Seq<char>) -> FieldsView {
    if name == "msg"@ {
        FieldsView { msg: Some(value), ..f }
    } else if name == "level"@ {
        FieldsView { level: Some(value), ..f }
    } else if name == "ts"@ {
        FieldsView { ts: Some(value), ..f }
    } else if name == "others"@ {
        FieldsView { others: Some(value), ..f }
    } else if name == "stacktrace"@ {
        FieldsView { stacktrace: Some(value), ..f }
    } else {
        FieldsView { more: f.more.push((name, value)), ..f }
    }
}

/// The value under `name` among the further values: the last one that was put
/// there.
pub open spec fn last_of(more: Seq<(Seq<char>, Seq<char>)>, name: Seq<char>) -> Option<Seq<char>>
    decreases more.len(),
{
    if more.len() == 0 {
        None
    } else if more.last().0 == name {
        Some(more.last().1)
    } else {
        last_of(more.drop_last(), name)
    }
}

/// The value under `name`.
pub open spec fn field_of(f: FieldsView, name: Seq<char>) -> Option<Seq<char>> {
    if name == "msg"@ {
        f.msg
    } else if name == "level"@ {
        f.level
    } else if name == "ts"@ {
        f.ts
    } else if name == "others"@ {
        f.others
    } else if name == "stacktrace"@ {
        f.stacktrace
    } else {
        last_of(f.more, name)
    }
}

/// `f` after a line of the first schema: the level, the message without the
/// white space around it, the time stamp, and the provider's glyph followed
/// by a space as the annotation. Without a provider the annotation stays.
pub open spec fn with_pac(
    f: FieldsView,
    level: Seq<char>,
    message: Seq<char>,
    ts: Seq<char>,
    provider: Option<Seq<char>>,
) -> FieldsView {
    FieldsView {
        msg: Some(trim_of(message)),
        level: Some(level),
        ts: Some(ts),
        others: match provider {
            Some(p) => Some(icon_of(p) + seq![' ']),
            None => f.others,
        },
        ..f
    }
}

/// `f` after a line of the second schema: the level, the message without the
/// white space around it, and the time stamp where the line has one.
pub open spec fn with_knative(
    f: FieldsView,
    level: Seq<char>,
    msg: Seq<char>,
    ts: Option<Seq<char>>,
) -> FieldsView {
    FieldsView {
        msg: Some(trim_of(msg)),
        level: Some(level),
        ts: match ts {
            Some(t) => Some(t),
            None => f.ts,
        },
        ..f
    }
}

/// `f` with the stack trace `stack`, where `f` holds none yet.
pub open spec fn with_stack(f: FieldsView, stack: Option<Seq<char>>) -> FieldsView {
    match (f.stacktrace, stack) {
        (None, Some(s)) => FieldsView { stacktrace: Some(s), ..f },
        _ => f,
    }
}

/// The style of a Kail prefix.
pub open spec fn prefix_style() -> Style {
    Style { fg: Some(Color::Blue), bg: None, bold: false, italic: false }
}

/// `f` with the prefix and a space before its message. Nothing changes where
/// the prefix is hidden or empty, or where there is no message.
pub open spec fn with_prefix(
    f: FieldsView,
    prefix: Seq<char>,
    show: bool,
    plain: bool,
) -> FieldsView {
    match f.msg {
        Some(m) => if show && prefix.len() > 0 {
            FieldsView { msg: Some(tinted(prefix, prefix_style(), plain) + seq![' '] + m), ..f }
        } else {
            f
        },
        None => f,
    }
}

impl Fields {
    /// No field at all.
    pub fn new() -> (f: Fields)
        ensures
            f@ == no_fields(),
    {
        let f = Fields {
            msg: None,
            level: None,
            ts: None,
            others: None,
            stacktrace: None,
            more: Vec::new(),
        };
        assert(f@.more == Seq::<(Seq<char>, Seq<char>)>::empty());
        f
    }

    /// Whether nothing was found.
    pub fn is_empty(&self) -> (r: bool)
        ensures
            r == nothing_found(self@),
    {
        self.msg.is_none() && self.level.is_none() && self.ts.is_none() && self.others.is_none()
            && self.stacktrace.is_none() && self.more.len() == 0
    }

    /// Puts `value` under `name`.
    pub fn put(&mut self, name: &str, value: String)
        ensures
            final(self)@ == with_field(old(self)@, name@, value@),
    {
        let key = chars_of(name);
        let key = key.as_slice();
        if is_str(key, "msg") {
            self.msg = Some(value);
        } else if is_str(key, "level") {
            self.level = Some(value);
        } else if is_str(key, "ts") {
            self.ts = Some(value);
        } else if is_str(key, "others") {
            self.others = Some(value);
        } else if is_str(key, "stacktrace") {
            self.stacktrace = Some(value);
        } else {
            let ghost before = self.more@;
            let ghost pair = (name@, value@);
            self.more.push((name.to_owned(), value));
            assert(self@.more == old(self)@.more.push(pair));
        }
    }

    /// The value under `name`.
    pub fn get(&self, name: &str) -> (r: Option<&String>)
        ensures
            match r {
                Some(v) => field_of(self@, name@) == Some(v@),
                None => field_of(self@, name@) is None,
            },
    {
        let key = chars_of(name);
        let key = key.as_slice();
        if is_str(key, "msg") {
            self.msg.as_ref()
        } else if is_str(key, "level") {
            self.level.as_ref()
        } else if is_str(key, "ts") {
            self.ts.as_ref()
        } else if is_str(key, "others") {
            self.others.as_ref()
        } else if is_str(key, "stacktrace") {
            self.stacktrace.as_ref()
        } else {
            let mut i: usize = self.more.len();
            assert(self@.more.take(i as int) == self@.more);
            while i > 0
                invariant
                    i <= self.more.len(),
                    key@ == name@,
                    field_of(self@, name@) == last_of(self@.more, name@),
                    last_of(self@.more, name@) == last_of(self@.more.take(i as int), name@),
                decreases i,
            {
                let ghost part = self@.more.take(i as int);
                assert(part.last() == (self.more@[i - 1].0@, self.more@[i - 1].1@));
                assert(part.drop_last() == self@.more.take(i - 1));
                let entry = chars_of(self.more[i - 1].0.as_str());
                if is_str(entry.as_slice(), name) {
                    return Some(&self.more[i - 1].1);
                }
                i -= 1;
            }
            None
        }
    }

    /// Whether there is a value under `name`.
    pub fn contains_key(&self, name: &str) -> (r: bool)
        ensures
            r == field_of(self@, name@) is Some,
    {
        self.get(name).is_some()
    }

    /// Records a line of the first schema.
    pub fn record_pac(&mut self, level: String, message: &str, ts: String, provider: Option<&str>)
        ensures
            final(self)@ == with_pac(
                old(self)@,
                level@,
                message@,
                ts@,
                crate::timestamp::opt_text(provider),
            ),
    {
        let text = chars_of(message);
        let trimmed = trim(text.as_slice());
        self.msg = Some(string_of(trimmed.as_slice()));
        self.level = Some(level);
        self.ts = Some(ts);
        match provider {
            Some(p) => {
                let mut icon = chars_of(convert_pac_provider_to_fa_icon(p));
                icon.push(' ');
                assert(icon@ == icon_of(p@) + seq![' ']);
                self.others = Some(string_of(icon.as_slice()));
            },
            None => {},
        }
    }

    /// Records a line of the second schema.
    pub fn record_knative(&mut self, level: String, msg: &str, ts: Option<String>)
        ensures
            final(self)@ == with_knative(old(self)@, level@, msg@, text_of(ts)),
    {
        let text = chars_of(msg);
        let trimmed = trim(text.as_slice());
        self.msg = Some(string_of(trimmed.as_slice()));
        self.level = Some(level);
        match ts {
            Some(t) => {
                self.ts = Some(t);
            },
            None => {},
        }
    }

    /// Records a stack trace, unless one is recorded already.
    pub fn record_stacktrace(&mut self, stack: Option<&str>)
        ensures
            final(self)@ == with_stack(old(self)@, crate::timestamp::opt_text(stack)),
    {
        if self.stacktrace.is_none() {
            match stack {
                Some(s) => {
                    self.stacktrace = Some(s.to_owned());
                },
                None => {},
            }
        }
    }

    /// Puts the prefix of a Kail envelope before the message, painted blue
    /// unless `plain` holds.
    pub fn prepend_prefix(&mut self, prefix: &str, show: bool, plain: bool)
        ensures
            final(self)@ == with_prefix(old(self)@, prefix@, show, plain),
    {
        let text = chars_of(prefix);
        if show && text.len() > 0 {
            let style = Style { fg: Some(Color::Blue), bg: None, bold: false, italic: false };
            let joined = match &self.msg {
                Some(m) => {
                    let mut out = tint(text.as_slice(), &style, plain);
                    out.push(' ');
                    push_str(&mut out, m.as_str());
                    assert(out@ == tinted(prefix@, prefix_style(), plain) + seq![' '] + m@);
                    Some(string_of(out.as_slice()))
                },
                None => None,
            };
            if joined.is_some() {
                self.msg = joined;
            }
        }
    }
}

} // verus!
