//! Finding the fields of a line: under the configured JSON pointers, and in
//! the two schemas that the library knows.

use vstd::prelude::*;
use serde_json::Value;
use crate::case::{to_upper, upper_of};
use crate::config::{Config, KailPrefix};
use crate::fields::{
    no_fields, nothing_found, text_of, with_field, with_knative, with_pac, with_prefix,
    with_stack, Fields, FieldsView,
};
use crate::json::{
    json_as_str, json_at, json_get, json_member, json_parsed, json_pointer, json_seconds,
    json_string, json_text, json_to_string, parse_json,
};
use crate::kail::{envelope_of, format_prefix, open_envelope, prefix_of};
use crate::search::{replace, replace_all};
use crate::text::{chars_of, is_str, string_of};
use crate::timestamp::{
    convert_str_to_ts, convert_ts_float_or_str, opt_text, string_stamp, value_stamp,
};

verus! {

/// The characters of the member `key` of the object `doc`, where that member
/// is a string.
pub open spec fn member_string(doc: Seq<char>, key: Seq<char>) -> Option<Seq<char>> {
    match json_member(doc, key) {
        Some(m) => json_string(m),
        None => None,
    }
}

/// Names and pointers as texts.
pub open spec fn keys_of(keys: Seq<(String, String)>) -> Seq<(Seq<char>, Seq<char>)> {
    keys.map_values(|k: (String, String)| (k.0@, k.1@))
}

/// Whether a configured name stands for a time stamp.
pub open spec fn names_time(name: Seq<char>) -> bool {
    name == "ts"@ || name == "timestamp"@ || name == "date"@
}

/// What is recorded for the value with the compact text `target` under the
/// configured name `name`: the time stamp that it holds, written under
/// `format`, where the name stands for a time stamp; else its compact text
/// without the double quotes.
pub open spec fn custom_value(
    target: Seq<char>,
    name: Seq<char>,
    format: Seq<char>,
    zone: Option<Seq<char>>,
) -> Seq<char> {
    if names_time(name) {
        value_stamp(json_string(target), json_seconds(target), format, zone)
    } else {
        replace_all(target, seq!['"'], Seq::empty())
    }
}

/// `f` after the configured names, one after the other: each one whose
/// pointer leads to a value in `doc` is recorded.
pub open spec fn after_keys(
    f: FieldsView,
    doc: Seq<char>,
    keys: Seq<(Seq<char>, Seq<char>)>,
    format: Seq<char>,
    zone: Option<Seq<char>>,
) -> FieldsView
    decreases keys.len(),
{
    if keys.len() == 0 {
        f
    } else {
        let before = after_keys(f, doc, keys.drop_last(), format, zone);
        match json_at(doc, keys.last().1) {
            Some(target) => with_field(
                before,
                keys.last().0,
                custom_value(target, keys.last().0, format, zone),
            ),
            None => before,
        }
    }
}

/// `f` after the first schema: an object whose members `severity`,
/// `timestamp`, `caller` and `message` are strings gives the level in upper
/// case, the message, the time stamp and, where its member `provider` is a
/// string, the annotation. Any other document leaves `f` as it is.
pub open spec fn after_pac(
    f: FieldsView,
    doc: Seq<char>,
    format: Seq<char>,
    zone: Option<Seq<char>>,
) -> FieldsView {
    match (
        member_string(doc, "severity"@),
        member_string(doc, "timestamp"@),
        member_string(doc, "caller"@),
        member_string(doc, "message"@),
    ) {
        (Some(severity), Some(timestamp), Some(_), Some(message)) => with_pac(
            f,
            upper_of(severity),
            message,
            string_stamp(timestamp, format, zone),
            member_string(doc, "provider"@),
        ),
        _ => f,
    }
}

/// The time stamp of the member `ts` of the object `doc`, where it has one.
pub open spec fn member_stamp(doc: Seq<char>, format: Seq<char>, zone: Option<Seq<char>>) -> Option<
    Seq<char>,
> {
    match json_member(doc, "ts"@) {
        Some(t) => Some(value_stamp(json_string(t), json_seconds(t), format, zone)),
        None => None,
    }
}

/// `f` after the second schema: an object whose members `level` and `msg`
/// are strings gives the level in upper case, the message and, where it has a
/// member `ts`, the time stamp. Any other document leaves `f` as it is.
pub open spec fn after_knative(
    f: FieldsView,
    doc: Seq<char>,
    format: Seq<char>,
    zone: Option<Seq<char>>,
) -> FieldsView {
    match (member_string(doc, "level"@), member_string(doc, "msg"@)) {
        (Some(level), Some(msg)) => with_knative(
            f,
            upper_of(level),
            msg,
            member_stamp(doc, format, zone),
        ),
        _ => f,
    }
}

/// The fields of the document `doc`: those under the configured names, then
/// those of the first schema, then those of the second, each in place of what
/// was found before under the same name; and the member `stacktrace`, where
/// it is a string and no stack trace was found before.
pub open spec fn fields_of_doc(
    doc: Seq<char>,
    keys: Seq<(Seq<char>, Seq<char>)>,
    format: Seq<char>,
    zone: Option<Seq<char>>,
) -> FieldsView {
    with_stack(
        after_knative(
            after_pac(after_keys(no_fields(), doc, keys, format, zone), doc, format, zone),
            doc,
            format,
            zone,
        ),
        member_string(doc, "stacktrace"@),
    )
}

/// The fields of a text that may be a JSON document; none where it is not.
pub open spec fn fields_of_text(
    text: Seq<char>,
    keys: Seq<(Seq<char>, Seq<char>)>,
    format: Seq<char>,
    zone: Option<Seq<char>>,
) -> FieldsView {
    match json_parsed(text) {
        Some(doc) => fields_of_doc(doc, keys, format, zone),
        None => no_fields(),
    }
}

/// The prefix of the envelope around `raw`; empty where there is none.
pub open spec fn kail_prefix_in(raw: Seq<char>, format: Seq<char>) -> Seq<char> {
    match envelope_of(raw) {
        Some(e) => prefix_of(format, e),
        None => Seq::empty(),
    }
}

/// `raw` without its envelope.
pub open spec fn unwrapped(raw: Seq<char>) -> Seq<char> {
    match envelope_of(raw) {
        Some(e) => e.line,
        None => raw,
    }
}

/// What a raw line yields under a configuration: the fields of the line
/// inside the envelope, with the envelope's prefix before the message.
pub open spec fn extracted(raw: Seq<char>, config: Config) -> FieldsView {
    with_prefix(
        fields_of_text(
            unwrapped(raw),
            keys_of(config.json_keys@),
            config.time_format@,
            text_of(config.timezone),
        ),
        kail_prefix_in(raw, config.kail_prefix_format@),
        config.kail_prefix == KailPrefix::Show,
        config.is_plain(),
    )
}

/// What `custom_json_match` yields: the fields under the configured names,
/// with the prefix before the message.
pub open spec fn custom_match(
    line: Seq<char>,
    config: Config,
    format: Seq<char>,
    prefix: Seq<char>,
) -> FieldsView {
    with_prefix(
        match json_parsed(line) {
            Some(doc) => after_keys(
                no_fields(),
                doc,
                keys_of(config.json_keys@),
                format,
                text_of(config.timezone),
            ),
            None => no_fields(),
        },
        prefix,
        config.kail_prefix == KailPrefix::Show,
        config.is_plain(),
    )
}

/// A document of the first schema gives its severity in upper case as the
/// level and its message without the white space around it.
pub proof fn lemma_pac_level_and_message(
    f: FieldsView,
    doc: Seq<char>,
    format: Seq<char>,
    zone: Option<Seq<char>>,
)
    requires
        member_string(doc, "severity"@) is Some,
        member_string(doc, "timestamp"@) is Some,
        member_string(doc, "caller"@) is Some,
        member_string(doc, "message"@) is Some,
    ensures
        after_pac(f, doc, format, zone).level == Some(
            upper_of(member_string(doc, "severity"@)->0),
        ),
        after_pac(f, doc, format, zone).msg == Some(
            crate::space::trim_of(member_string(doc, "message"@)->0),
        ),
{
}

/// A line of the first schema, and not of the second, yields its severity in
/// upper case as the level and, where no prefix is shown, its message without
/// the white space around it.
pub proof fn lemma_pac_line(raw: Seq<char>, config: Config)
    requires
        json_parsed(unwrapped(raw)) is Some,
        member_string(json_parsed(unwrapped(raw))->0, "severity"@) is Some,
        member_string(json_parsed(unwrapped(raw))->0, "timestamp"@) is Some,
        member_string(json_parsed(unwrapped(raw))->0, "caller"@) is Some,
        member_string(json_parsed(unwrapped(raw))->0, "message"@) is Some,
        member_string(json_parsed(unwrapped(raw))->0, "level"@) is None || member_string(
            json_parsed(unwrapped(raw))->0,
            "msg"@,
        ) is None,
    ensures
        extracted(raw, config).level == Some(
            upper_of(member_string(json_parsed(unwrapped(raw))->0, "severity"@)->0),
        ),
        config.kail_prefix == KailPrefix::Hide || envelope_of(raw) is None ==> extracted(
            raw,
            config,
        ).msg == Some(
            crate::space::trim_of(
                member_string(json_parsed(unwrapped(raw))->0, "message"@)->0,
            ),
        ),
{
}

/// A text that is no JSON document yields no field, whatever the envelope.
pub proof fn lemma_no_document_no_fields(raw: Seq<char>, config: Config)
    requires
        json_parsed(unwrapped(raw)) is None,
    ensures
        nothing_found(extracted(raw, config)),
{
}

/// The string inside an optional string.
pub fn as_opt_str(s: &Option<String>) -> (r: Option<&str>)
    ensures
        opt_text(r) == text_of(*s),
{
    match s {
        Some(t) => Some(t.as_str()),
        None => None,
    }
}

fn string_member<'a>(doc: &'a Value, key: &str) -> (r: Option<&'a str>)
    ensures
        opt_text(r) == member_string(json_text(*doc), key@),
{
    match json_get(doc, key) {
        Some(m) => json_as_str(m),
        None => None,
    }
}

fn is_time_name(name: &str) -> (r: bool)
    ensures
        r == names_time(name@),
{
    let n = chars_of(name);
    let n = n.as_slice();
    is_str(n, "ts") || is_str(n, "timestamp") || is_str(n, "date")
}

fn value_for(target: &Value, name: &str, time_format: &str, timezone: Option<&str>) -> (r: String)
    ensures
        r@ == custom_value(json_text(*target), name@, time_format@, opt_text(timezone)),
{
    if is_time_name(name) {
        convert_ts_float_or_str(target, time_format, timezone)
    } else {
        let text = json_to_string(target);
        let chars = chars_of(text.as_str());
        let quote: Vec<char> = vec!['"'];
        let nothing: Vec<char> = Vec::new();
        assert(quote@ == seq!['"']);
        assert(nothing@ == Seq::<char>::empty());
        let bare = replace(chars.as_slice(), quote.as_slice(), nothing.as_slice());
        string_of(bare.as_slice())
    }
}

/// Records in `fields` what the configured names lead to in `doc`.
pub fn read_keys(
    fields: &mut Fields,
    doc: &Value,
    keys: &Vec<(String, String)>,
    time_format: &str,
    timezone: Option<&str>,
)
    ensures
        final(fields)@ == after_keys(
            old(fields)@,
            json_text(*doc),
            keys_of(keys@),
            time_format@,
            opt_text(timezone),
        ),
{
    let mut k: usize = 0;
    assert(keys_of(keys@).take(0) == Seq::<(Seq<char>, Seq<char>)>::empty());
    while k < keys.len()
        invariant
            k <= keys.len(),
            fields@ == after_keys(
                old(fields)@,
                json_text(*doc),
                keys_of(keys@).take(k as int),
                time_format@,
                opt_text(timezone),
            ),
        decreases keys.len() - k,
    {
        proof {
            let done = keys_of(keys@).take(k + 1);
            assert(done.drop_last() == keys_of(keys@).take(k as int));
            assert(done.last() == (keys@[k as int].0@, keys@[k as int].1@));
        }
        let name = keys[k].0.as_str();
        match json_pointer(doc, keys[k].1.as_str()) {
            Some(target) => {
                let value = value_for(target, name, time_format, timezone);
                fields.put(name, value);
            },
            None => {},
        }
        k += 1;
    }
    assert(keys_of(keys@).take(keys.len() as int) == keys_of(keys@));
}

/// Records in `fields` what `doc` holds under the first schema.
pub fn read_pac(fields: &mut Fields, doc: &Value, time_format: &str, timezone: Option<&str>)
    ensures
        final(fields)@ == after_pac(
            old(fields)@,
            json_text(*doc),
            time_format@,
            opt_text(timezone),
        ),
{
    let severity = string_member(doc, "severity");
    let timestamp = string_member(doc, "timestamp");
    let caller = string_member(doc, "caller");
    let message = string_member(doc, "message");
    match (severity, timestamp, caller, message) {
        (Some(severity), Some(timestamp), Some(_), Some(message)) => {
            let level = to_upper(severity);
            let ts = convert_str_to_ts(timestamp, time_format, timezone);
            let provider = string_member(doc, "provider");
            fields.record_pac(level, message, ts, provider);
        },
        _ => {},
    }
}

/// Records in `fields` what `doc` holds under the second schema.
pub fn read_knative(fields: &mut Fields, doc: &Value, time_format: &str, timezone: Option<&str>)
    ensures
        final(fields)@ == after_knative(
            old(fields)@,
            json_text(*doc),
            time_format@,
            opt_text(timezone),
        ),
{
    let level = string_member(doc, "level");
    let msg = string_member(doc, "msg");
    match (level, msg) {
        (Some(level), Some(msg)) => {
            let level = to_upper(level);
            let ts = match json_get(doc, "ts") {
                Some(t) => Some(convert_ts_float_or_str(t, time_format, timezone)),
                None => None,
            };
            fields.record_knative(level, msg, ts);
        },
        _ => {},
    }
}

/// The fields of the document `doc`.
pub fn read_document(
    doc: &Value,
    keys: &Vec<(String, String)>,
    time_format: &str,
    timezone: Option<&str>,
) -> (fields: Fields)
    ensures
        fields@ == fields_of_doc(json_text(*doc), keys_of(keys@), time_format@, opt_text(timezone)),
{
    let mut fields = Fields::new();
    read_keys(&mut fields, doc, keys, time_format, timezone);
    read_pac(&mut fields, doc, time_format, timezone);
    read_knative(&mut fields, doc, time_format, timezone);
    let stack = string_member(doc, "stacktrace");
    fields.record_stacktrace(stack);
    fields
}

/// Finds the fields of `rawline`: takes the line out of a Kail envelope,
/// reads it as a JSON document, and puts the envelope's prefix before the
/// message. A line that is no JSON document, or one in which nothing is
/// found, yields no field.
pub fn extract_info(rawline: &str, config: &Config) -> (fields: Fields)
    ensures
        fields@ == extracted(rawline@, *config),
{
    let raw = chars_of(rawline);
    let timezone = as_opt_str(&config.timezone);
    let (prefix, line) = match open_envelope(raw.as_slice()) {
        Some(e) => {
            let prefix = format_prefix(config.kail_prefix_format.as_str(), &e);
            (string_of(prefix.as_slice()), string_of(e.line.as_slice()))
        },
        None => (String::new(), rawline.to_owned()),
    };
    let mut fields = match parse_json(line.as_str()) {
        Some(doc) => read_document(&doc, &config.json_keys, config.time_format.as_str(), timezone),
        None => Fields::new(),
    };
    fields.prepend_prefix(prefix.as_str(), config.kail_prefix == KailPrefix::Show, config.plain());
    fields
}

/// Finds in `line` the fields under the names that `config` sets, each under
/// its JSON pointer, and puts `kail_msg_prefix` before the message. Time
/// stamps are written under `time_format`.
pub fn custom_json_match(
    config: &Config,
    time_format: &str,
    kail_msg_prefix: &str,
    line: &str,
) -> (fields: Fields)
    ensures
        fields@ == custom_match(line@, *config, time_format@, kail_msg_prefix@),
{
    let timezone = as_opt_str(&config.timezone);
    let mut fields = Fields::new();
    match parse_json(line) {
        Some(doc) => {
            read_keys(&mut fields, &doc, &config.json_keys, time_format, timezone);
        },
        None => {},
    }
    fields.prepend_prefix(kail_msg_prefix, config.kail_prefix == KailPrefix::Show, config.plain());
    fields
}

} // verus!
