use snazy::config::{
    level_from_str, normalize_level, Coloring, Config, KailPrefix, LevelSymbols, LogLevel,
};
use snazy::events::{is_kubectl_events_header, ParseState};
use snazy::extract::{custom_json_match, extract_info};
use snazy::options::{config_from, OptionError, Options};
use snazy::process::{do_line, format_output};

fn options(color: Coloring) -> Options {
    Options {
        regexp: vec![],
        skip_line_regexp: vec![],
        filter_levels: vec![],
        color,
        time_format: String::from("%H:%M:%S"),
        timezone: None,
        kail_prefix_format: String::from("{namespace}/{pod}[{container}]"),
        kail_no_prefix: false,
        level_symbols: false,
        json_keys: vec![],
        action_regexp: None,
        action_command: None,
        hide_stacktrace: false,
        files: None,
    }
}

fn run_with(config: &Config, input: &str) -> String {
    let mut state = ParseState::default();
    let mut out = String::new();
    for line in input.lines() {
        let done = do_line(config, line, &mut state);
        out.push_str(&format_output(&done, config));
    }
    out
}

fn run(options: Options, input: &str) -> String {
    run_with(&config_from(options).unwrap(), input)
}

fn words(list: &[&str]) -> Vec<String> {
    list.iter().map(|w| w.to_string()).collect()
}

#[test]
fn simple_parsing() {
    assert_eq!(
        run(options(Coloring::Never), r#"{"level":"info","msg":"foo"}"#),
        "INFO                 foo\n"
    );
}

#[test]
fn simple_date() {
    assert_eq!(
        run(
            options(Coloring::Never),
            r#"{"level":"info", "ts": "2022-04-25T14:20:32.505637358Z", "msg":"foo"}"#
        ),
        "INFO                14:20:32 foo\n"
    );
}

#[test]
fn floated_date() {
    assert_eq!(
        run(
            options(Coloring::Never),
            r#"{"level":"info", "ts": 1650602040.6289625, "msg":"foo"}"#
        ),
        "INFO                04:34:00 foo\n"
    );
}

#[test]
fn raw_non_json() {
    assert_eq!(run(options(Coloring::Never), "Hello Moto"), "Hello Moto\n");
}

#[test]
fn raw_non_json_is_not_painted_without_colors() {
    let o = Options { regexp: words(&["Hello"]), ..options(Coloring::Never) };
    assert_eq!(run(o, "Hello Moto"), "Hello Moto\n");
}

#[test]
fn regexp_raw_json() {
    let o = Options { regexp: words(&["Hello"]), ..options(Coloring::Always) };
    assert_eq!(run(o, "Hello Moto"), "\x1b[36mHello\x1b[0m Moto\n");
}

#[test]
fn regexp_color_fg_bg() {
    let o = Options {
        regexp: words(&["fg=yellow,bg=black:YellowOnBlack"]),
        ..options(Coloring::Always)
    };
    assert_eq!(run(o, "YellowOnBlack"), "\u{1b}[40;33mYellowOnBlack\u{1b}[0m\n");
}

#[test]
fn regexp_rgb_colored() {
    let o = Options {
        regexp: words(&["yellow:Hello", "88,48,235:Moto"]),
        ..options(Coloring::Always)
    };
    assert_eq!(
        run(o, "Hello Moto"),
        "\u{1b}[33mHello\u{1b}[0m \u{1b}[38;2;88;48;235mMoto\u{1b}[0m\n"
    );
}

#[test]
fn multiple_regexp_raw_json() {
    let o = Options { regexp: words(&["Hello", "Moto"]), ..options(Coloring::Always) };
    assert_eq!(
        run(o, "Hello Moto"),
        "\u{1b}[36mHello\u{1b}[0m \u{1b}[33mMoto\u{1b}[0m\n"
    );
}

#[test]
fn every_match_is_painted_by_itself() {
    let o = Options { regexp: words(&["b.ue"]), ..options(Coloring::Always) };
    assert_eq!(
        run(o, "blue bxue"),
        "\u{1b}[36mblue\u{1b}[0m \u{1b}[36mbxue\u{1b}[0m\n"
    );
}

#[test]
fn kail_log_and_regexp() {
    let o = Options { regexp: words(&["Hello", "Moto"]), ..options(Coloring::Always) };
    assert_eq!(
        run(o, r#"ns/pod[container]: {"level":"INFO","msg":"Hello Moto"}"#),
        "\u{1b}[32mINFO\u{1b}[0m        \u{1b}[34mns/pod[container]\u{1b}[0m \u{1b}[36mHello\u{1b}[0m \u{1b}[33mMoto\u{1b}[0m\n"
    );
}

#[test]
fn kail_prefix_is_shown_before_the_message() {
    assert_eq!(
        run(
            options(Coloring::Never),
            r#"ns/pod[container]: {"level":"INFO","msg":"Hello Moto"}"#
        ),
        "INFO                 ns/pod[container] Hello Moto\n"
    );
}

#[test]
fn kail_custom_format() {
    let o = Options {
        kail_prefix_format: String::from("{namespace}::{pod}|{container}"),
        ..options(Coloring::Never)
    };
    assert!(run(o, r#"ns/pod[container]: {"level":"INFO","msg":"Hello Moto"}"#)
        .contains("ns::pod|container"));
}

#[test]
fn kail_no_prefix() {
    let o = Options { kail_no_prefix: true, ..options(Coloring::Never) };
    assert_eq!(
        run(o, r#"ns/pod[container]: {"level":"INFO","msg":"Hello Moto"}"#),
        "INFO                 Hello Moto\n"
    );
}

#[test]
fn kail_envelope_around_plain_text_is_passed_through() {
    assert_eq!(
        run(options(Coloring::Never), "ns/pod[container]: plain text"),
        "ns/pod[container]: plain text\n"
    );
}

#[test]
fn pac_output_github() {
    assert_eq!(
        run(
            options(Coloring::Never),
            r#"{"severity":"INFO","timestamp":"2022-04-25T14:20:32.505637358Z","logger":"pipelinesascode","caller":"pipelineascode/status.go:59","message":" github","provider":"github","event":"8b400490-c4a1-11ec-9219-63bc5bbc8228"}"#
        ),
        "INFO                14:20:32  \u{f09b} github\n"
    );
}

#[test]
fn pac_output_gitlab() {
    assert_eq!(
        run(
            options(Coloring::Never),
            r#"{"severity":"INFO","timestamp":"2022-04-25T14:20:32.505637358Z","logger":"pipelinesascode","caller":"pipelineascode/status.go:59","message":" gitlab","provider":"gitlab","event":"8b400490-c4a1-11ec-9219-63bc5bbc8228"}"#
        ),
        "INFO                14:20:32  \u{f296} gitlab\n"
    );
}

#[test]
fn pac_output_bitbucket_cloud() {
    assert_eq!(
        run(
            options(Coloring::Never),
            r#"{"severity":"INFO","timestamp":"2022-04-25T14:20:32.505637358Z","logger":"pipelinesascode","caller":"pipelineascode/status.go:59","message":" bitbucket-cloud","provider":"bitbucket-cloud","event":"8b400490-c4a1-11ec-9219-63bc5bbc8228"}"#
        ),
        "INFO                14:20:32  \u{f171} bitbucket-cloud\n"
    );
}

#[test]
fn pac_output_fallback_ts() {
    assert_eq!(
        run(
            options(Coloring::Never),
            r#"{"severity":"INFO","timestamp":"2022-04-25:FOO","logger":"pipelinesascode","caller":"pipelineascode/status.go:59","message":" bitbucket-cloud","provider":"bitbucket-cloud","event":"8b400490-c4a1-11ec-9219-63bc5bbc8228"}"#
        ),
        "INFO                2022-04-25:FOO  \u{f171} bitbucket-cloud\n"
    );
}

#[test]
fn pac_output_bitbucket_server() {
    assert_eq!(
        run(
            options(Coloring::Never),
            r#"{"severity":"INFO","timestamp":"2022-04-25T14:20:32.505637358Z","logger":"pipelinesascode","caller":"pipelineascode/status.go:59","message":" bitbucket-server","provider":"bitbucket-server","event":"8b400490-c4a1-11ec-9219-63bc5bbc8228"}"#
        ),
        "INFO                14:20:32  \u{f171}S bitbucket-server\n"
    );
}

#[test]
fn pac_level_is_the_severity_in_upper_case() {
    assert_eq!(
        run(
            options(Coloring::Never),
            r#"{"severity":"error","timestamp":"x","caller":"c","message":"  spaced out \t"}"#
        ),
        "ERROR              x spaced out\n"
    );
}

#[test]
fn level_symbols() {
    let o = Options { level_symbols: true, ..options(Coloring::Auto) };
    let input = r#"{"level":"info","msg":"INFO"}
    {"level":"warn","msg":"warn"}
    {"level":"error","msg":"error"}
    {"level":"fatal","msg":"fatal"}
    "#;
    assert_eq!(run(o, input), "💡  INFO\n∙  warn\n🚨  error\n💀  fatal\n");
}

#[test]
fn filter_level_info() {
    let o = Options { filter_levels: vec![LogLevel::Info], ..options(Coloring::Never) };
    assert_eq!(run(o, r#"{"level":"info", "msg":"INFO"}"#), "INFO                 INFO\n");
}

#[test]
fn filter_level_warning() {
    let o = Options { filter_levels: vec![LogLevel::Warning], ..options(Coloring::Never) };
    assert_eq!(run(o, r#"{"level":"warning", "msg":"warn"}"#), "WARN                 warn\n");
}

#[test]
fn filter_level_drops_the_other_levels() {
    let o = Options {
        filter_levels: vec![LogLevel::Warning, LogLevel::Error],
        ..options(Coloring::Never)
    };
    let input = r#"{"level":"info","msg":"a"}
{"level":"WARN","msg":"b"}
{"level":"Err","msg":"c"}
{"level":"debug","msg":"d"}
{"level":"fatal","msg":"e"}
{"level":"odd","msg":"f"}"#;
    assert_eq!(run(o, input), "WARN                 b\nERR                  c\n");
}

#[test]
fn skip_lines() {
    let o = Options { skip_line_regexp: words(&["yolo"]), ..options(Coloring::Auto) };
    assert_eq!(run(o, r#"{"level":"info","msg":"yolo"}"#), "");
}

#[test]
fn skip_pattern_that_is_no_regexp_skips_nothing() {
    let o = Options { skip_line_regexp: words(&["[yolo", "nothing"]), ..options(Coloring::Never) };
    assert_eq!(run(o, r#"{"level":"info","msg":"yolo"}"#), "INFO                 yolo\n");
}

#[test]
fn skip_pattern_looks_at_the_message_only() {
    let o = Options { skip_line_regexp: words(&["info"]), ..options(Coloring::Never) };
    assert_eq!(run(o, r#"{"level":"info","msg":"yolo"}"#), "INFO                 yolo\n");
}

#[test]
fn custom_level_info() {
    let o = Options { level_symbols: true, ..options(Coloring::Never) };
    assert_eq!(
        run(o, r#"{"level":"info", "ts": "2022-04-25T14:20:32.505637358Z", "msg":"message"}"#),
        "💡 14:20:32 message\n"
    );
}

#[test]
fn custom_level_debug() {
    let o = Options { level_symbols: true, ..options(Coloring::Never) };
    assert_eq!(
        run(o, r#"{"level":"debug", "ts": 1650602040.0, "msg":"anotherone"}"#),
        "🐛 04:34:00 anotherone\n"
    );
}

#[test]
fn timezone_parsing() {
    assert_eq!(
        run(
            options(Coloring::Never),
            r#"{"level":"info", "ts": "2022-04-25T06:56:22.505637358Z", "msg":"timezone test"}"#
        ),
        "INFO                06:56:22 timezone test\n"
    );
}

#[test]
fn timezone_shifts_the_time_stamp() {
    let o = Options { timezone: Some(String::from("Europe/Paris")), ..options(Coloring::Never) };
    assert_eq!(
        run(o, r#"{"level":"info", "ts": "2022-04-25T06:56:22.505637358Z", "msg":"timezone test"}"#),
        "INFO                08:56:22 timezone test\n"
    );
}

#[test]
fn stacktrace_default_display() {
    let out = run(
        options(Coloring::Auto),
        r#"{"level":"error","ts":"2022-04-25T14:20:32.505637358Z","msg":"Something went wrong","stacktrace":"github.com/example/app.Function\n\tat app.go:42\n\tat main.go:15"}"#,
    );
    assert!(out.contains("Stacktrace"));
}

#[test]
fn stacktrace_hidden() {
    let o = Options { hide_stacktrace: true, ..options(Coloring::Never) };
    assert_eq!(
        run(o, r#"{"level":"error", "ts": "2022-04-25T14:20:32.505637358Z", "msg":"Something went wrong", "stacktrace": "hidden"}"#),
        "ERROR              14:20:32 Something went wrong\n"
    );
}

#[test]
fn stacktrace_block_without_colors() {
    let rule = "─".repeat(80);
    let out = run(
        options(Coloring::Never),
        r#"{"level":"error","msg":"boom","stacktrace":"github.com/example/app.Function\n\t/home/user/app.go:42 +0x2a\nplain"}"#,
    );
    assert_eq!(
        out,
        format!(
            "ERROR               boom\n\n{rule}\n Stacktrace:\n   github.com/example/app.Function\n   \t/home/user/app.go:42 +0x2a\n   plain\n{rule}\n\n"
        )
    );
}

#[test]
fn stacktrace_block_with_colors() {
    let rule = format!("\u{1b}[38;5;8m{}\u{1b}[0m", "─".repeat(80));
    let config = Config { coloring: Coloring::Always, action_regexp: None, ..Config::default() };
    let out = run_with(
        &config,
        r#"{"level":"error","msg":"boom","stacktrace":"github.com/example/app.Function\n\t/home/user/app.go:42 +0x2a\nplain"}"#,
    );
    assert_eq!(
        out,
        format!(
            "\u{1b}[31mERROR\u{1b}[0m      boom\n\n{rule}\n\u{1b}[1;31m Stacktrace:\u{1b}[0m\n   \u{1b}[38;5;15mgithub.com/example/app.\u{1b}[0m\u{1b}[1;36mFunction\u{1b}[0m\n   \u{1b}[38;5;15m\t/home/user/\u{1b}[0m\u{1b}[1;33mapp.go\u{1b}[0m\u{1b}[32m:42 +0x2a\u{1b}[0m\n   \u{1b}[38;5;15mplain\u{1b}[0m\n{rule}\n\n"
        )
    );
}

#[test]
fn blank_lines_give_nothing() {
    let config = Config::default();
    for line in ["", " ", "\t", "   \t  ", "\u{a0}\u{2003}", "\r"] {
        let mut state = ParseState::default();
        let done = do_line(&config, line, &mut state);
        assert!(done.action.is_none());
        assert!(done.echo.is_none());
        assert!(done.info.is_none());
        assert!(!state.kubectl_events_mode);
        assert!(state.kubectl_events_cols.is_none());
    }
}

#[test]
fn a_line_that_is_json_but_of_no_schema_is_passed_through() {
    assert_eq!(run(options(Coloring::Never), r#"{"foo":"bar"}"#), "{\"foo\":\"bar\"}\n");
    assert_eq!(run(options(Coloring::Never), "[1,2]"), "[1,2]\n");
    assert_eq!(run(options(Coloring::Never), r#"{"level":5,"msg":"x"}"#), "{\"level\":5,\"msg\":\"x\"}\n");
}

#[test]
fn a_line_of_both_schemas_is_read_as_the_second() {
    assert_eq!(
        run(
            options(Coloring::Never),
            r#"{"severity":"info","timestamp":"2022-04-25T14:20:32.505637358Z","caller":"c","message":"first","level":"debug","msg":"second"}"#
        ),
        "DEBUG               14:20:32 second\n"
    );
}

#[test]
fn a_stack_trace_alone_is_a_record() {
    let out = run(options(Coloring::Never), r#"{"stacktrace":"a.b"}"#);
    assert!(out.starts_with("                     \n"));
    assert!(out.contains(" Stacktrace:\n   a.b\n"));
}

#[test]
fn custom_keys_and_schema() {
    let o = Options {
        json_keys: words(&["msg=/text", "level=/lvl", "ts=/when"]),
        ..options(Coloring::Never)
    };
    assert_eq!(
        run(o, r#"{"text":"hello","lvl":"INFO","when":1650602040}"#),
        "INFO                04:34:00 hello\n"
    );
}

#[test]
fn custom_keys_copy_values_without_quotes() {
    let o = Options {
        json_keys: words(&["msg=/a/b", "level=/n", "ts=/t"]),
        ..options(Coloring::Never)
    };
    assert_eq!(
        run(o, r#"{"a":{"b":{"k":"v w","l":[1,"x"]}},"n":42}"#),
        "42                   {k:v w,l:[1,x]}\n"
    );
}

#[test]
fn events_table() {
    let input = "LAST SEEN   TYPE      REASON      OBJECT        MESSAGE
119m        Warning   Unhealthy   pod/foo-bar   Readiness probe failed
5s          Normal    Pulled      job/x         {\"level\":\"info\",\"msg\":\"json\"}
short
2m          Other     Why         thing         done";
    assert_eq!(
        run(options(Coloring::Never), input),
        "LAST SEEN TYPE REASON OBJECT MESSAGE
119m     Warning  Unhealthy          pod/foo-bar                                          Readiness probe failed
5s       Normal   Pulled             job/x                                                {\"level\":\"info\",\"msg\":\"json\"}
2m       Other    Why                thing                                                done
"
    );
}

#[test]
fn events_table_with_colors() {
    let input = "LAST SEEN   TYPE      REASON      OBJECT        MESSAGE
119m        Warning   Unhealthy   pod/foo-bar   Readiness probe failed";
    let o = Options { regexp: words(&["probe"]), ..options(Coloring::Always) };
    assert_eq!(
        run(o, input),
        "\u{1b}[1mLAST SEEN\u{1b}[0m \u{1b}[1mTYPE\u{1b}[0m \u{1b}[1mREASON\u{1b}[0m \u{1b}[1mOBJECT\u{1b}[0m \u{1b}[1mMESSAGE\u{1b}[0m
\u{1b}[1m119m    \u{1b}[0m \u{1b}[1;31mWarning \u{1b}[0m \u{1b}[1;33mUnhealthy         \u{1b}[0m \u{1b}[1;35mpod\u{1b}[0m/foo-bar                                          Readiness \u{1b}[36mprobe\u{1b}[0m failed
"
    );
}

#[test]
fn events_table_stays_a_table() {
    let config = Config { action_regexp: Some(String::from("x")), action_command: Some(String::from("true {}")), ..Config::default() };
    let mut state = ParseState::default();
    let header = "  LAST SEEN   TYPE      REASON   OBJECT   MESSAGE";
    assert!(do_line(&config, header, &mut state).echo.is_some());
    assert!(state.kubectl_events_mode);
    assert_eq!(state.kubectl_events_cols, Some((0, 12, 22, 31, 40)));
    for line in [
        r#"{"level":"info","msg":"x"}"#,
        "x",
        "1m          Normal    x        pod/x    x marks the spot",
        "LAST SEEN TYPE REASON",
        "",
    ] {
        let done = do_line(&config, line, &mut state);
        assert!(done.info.is_none());
        assert!(done.action.is_none());
        assert!(state.kubectl_events_mode);
        assert_eq!(state.kubectl_events_cols, Some((0, 12, 22, 31, 40)));
    }
}

#[test]
fn a_row_cut_inside_a_character_is_dropped() {
    let config = Config::default();
    let mut state = ParseState::default();
    do_line(&config, "LAST SEEN   TYPE      REASON   OBJECT   MESSAGE", &mut state);
    let done = do_line(&config, "1m         é Normal   x        pod/x    fine", &mut state);
    assert!(done.echo.is_none());
    let done = do_line(&config, "1m        é Normal    x        pod/x   fine", &mut state);
    assert_eq!(
        done.echo.unwrap(),
        "\u{1b}[1m1m        é\u{1b}[0m \u{1b}[1;32mNormal  \u{1b}[0m \u{1b}[1;33mx                 \u{1b}[0m \u{1b}[1;35mpod\u{1b}[0m/x                                                fine"
    );
}

#[test]
fn action_is_started_for_a_match() {
    let config = Config {
        action_regexp: Some(String::from(r"HELLO\s\w+")),
        action_command: Some(String::from("notify '{}' and again '{}'")),
        coloring: Coloring::Never,
        ..Config::default()
    };
    let mut state = ParseState::default();
    let done = do_line(&config, "un HELLO MOTO nono HELLO YOU", &mut state);
    let action = done.action.unwrap();
    assert_eq!(action.matched, "HELLO MOTO");
    assert_eq!(action.command, "notify 'HELLO MOTO' and again 'HELLO MOTO'");
    assert_eq!(done.echo.unwrap(), "un HELLO MOTO nono HELLO YOU");
    let done = do_line(&config, r#"{"level":"info","msg":"no match"}"#, &mut state);
    assert!(done.action.is_none());
    assert!(done.info.is_some());
}

#[test]
fn action_without_a_command_or_with_a_bad_pattern_is_none() {
    let config = Config {
        action_regexp: Some(String::from("x")),
        action_command: None,
        ..Config::default()
    };
    let mut state = ParseState::default();
    assert!(do_line(&config, "x", &mut state).action.is_none());
    let config = Config {
        action_regexp: Some(String::from("(x")),
        action_command: Some(String::from("true")),
        ..Config::default()
    };
    assert!(do_line(&config, "x", &mut state).action.is_none());
}

#[test]
fn all_json_keys_need_to_be_given() {
    let o = Options { json_keys: words(&["msg=/foo"]), ..options(Coloring::Never) };
    assert_eq!(config_from(o).unwrap_err(), OptionError::IncompleteJsonKeys);
    let o = Options { json_keys: words(&["msg=/foo", "level", "ts=/t"]), ..options(Coloring::Never) };
    assert_eq!(config_from(o).unwrap_err(), OptionError::BadJsonKey);
    let o = Options { regexp: words(&["1,2,300:x"]), ..options(Coloring::Never) };
    assert_eq!(config_from(o).unwrap_err(), OptionError::BadColor);
}

#[test]
fn kail_format_with_an_escaped_line_feed() {
    let o = Options {
        kail_prefix_format: String::from("{pod}\\n"),
        ..options(Coloring::Never)
    };
    assert_eq!(
        run(o, r#"ns/pod[container]: {"level":"INFO","msg":"Hello Moto"}"#),
        "INFO                 pod\n Hello Moto\n"
    );
}

#[test]
fn kail_parts_may_hold_the_tokens_of_later_parts() {
    let o = Options {
        kail_prefix_format: String::from("<{namespace}|{pod}|{container}>"),
        ..options(Coloring::Never)
    };
    assert_eq!(
        run(o, r#"{pod}/{container}[c]: {"level":"INFO","msg":"m"}"#),
        "INFO                 <c|c|c> m\n"
    );
}

#[test]
fn kail_envelope_needs_all_its_separators() {
    for line in [
        r#"ns-pod[container]: {"level":"INFO","msg":"m"}"#,
        r#"ns/pod(container): {"level":"INFO","msg":"m"}"#,
        r#"ns/pod[container] {"level":"INFO","msg":"m"}"#,
        r#"ns/pod[container]:{"level":"INFO","msg":"m"}"#,
        r#"ns/pod[a]b]: {"level":"INFO","msg":"m"}"#,
    ] {
        assert_eq!(run(options(Coloring::Never), line), format!("{line}\n"));
    }
    assert_eq!(
        run(options(Coloring::Never), r#"/[]: {"level":"INFO","msg":"m"}"#),
        "INFO                 /[] m\n"
    );
    assert_eq!(
        run(options(Coloring::Never), r#"a/b/c[x[y]: {"level":"INFO","msg":"m"}"#),
        "INFO                 a/b/c[x[y] m\n"
    );
}

#[test]
fn an_empty_prefix_is_not_shown() {
    let o = Options { kail_prefix_format: String::new(), ..options(Coloring::Never) };
    assert_eq!(
        run(o, r#"ns/pod[container]: {"level":"INFO","msg":"m"}"#),
        "INFO                 m\n"
    );
}

#[test]
fn an_unknown_provider_is_shown_by_its_name() {
    assert_eq!(
        run(
            options(Coloring::Never),
            r#"{"severity":"INFO","timestamp":"x","caller":"c","message":"m","provider":"forge"}"#
        ),
        "INFO                x  forge m\n"
    );
    assert_eq!(
        run(
            options(Coloring::Never),
            r#"{"severity":"INFO","timestamp":"x","caller":"c","message":"m","provider":7}"#
        ),
        "INFO                x m\n"
    );
}

#[test]
fn annotation_and_time_stamp_are_painted() {
    let config = Config { coloring: Coloring::Always, action_regexp: None, ..Config::default() };
    assert_eq!(
        run_with(
            &config,
            r#"{"severity":"INFO","timestamp":"x","caller":"c","message":"m","provider":"github"}"#
        ),
        "\u{1b}[32mINFO\u{1b}[0m       \u{1b}[38;5;13mx\u{1b}[0m  \u{1b}[3;36m\u{f09b} \u{1b}[0mm\n"
    );
}

#[test]
fn a_schema_needs_all_its_members_as_strings() {
    for line in [
        r#"{"severity":"INFO","timestamp":"x","caller":"c"}"#,
        r#"{"severity":"INFO","timestamp":"x","message":"m"}"#,
        r#"{"severity":"INFO","caller":"c","message":"m"}"#,
        r#"{"timestamp":"x","caller":"c","message":"m"}"#,
        r#"{"severity":"INFO","timestamp":1,"caller":"c","message":"m"}"#,
        r#"{"level":"INFO"}"#,
        r#"{"msg":"m"}"#,
        r#"{"level":null,"msg":"m"}"#,
        r#"[{"level":"INFO","msg":"m"}]"#,
        r#""level""#,
        "12",
        "null",
    ] {
        assert_eq!(run(options(Coloring::Never), line), format!("{line}\n"));
    }
}

#[test]
fn custom_names_for_time_stamps() {
    let config = Config {
        json_keys: vec![
            (String::from("date"), String::from("/d")),
            (String::from("timestamp"), String::from("/t")),
            (String::from("extra"), String::from("/e/0")),
            (String::from("stacktrace"), String::from("/s")),
        ],
        coloring: Coloring::Never,
        ..Config::default()
    };
    let line = r#"{"d":1650602040,"t":"2022-04-22T04:34:00.628550164Z","e":["quo\"ted"],"s":"own","stacktrace":"top"}"#;
    let fields = extract_info(line, &config);
    assert_eq!(fields.get("date").unwrap(), "04:34:00");
    assert_eq!(fields.get("timestamp").unwrap(), "04:34:00");
    assert_eq!(fields.get("extra").unwrap(), "quo\\ted");
    assert_eq!(fields.get("stacktrace").unwrap(), "own");
    assert!(fields.get("msg").is_none());
    assert!(fields.get("other").is_none());
    assert!(!fields.is_empty());
    let fields = custom_json_match(&config, "%Y", "prefix", line);
    assert_eq!(fields.get("date").unwrap(), "2022");
    assert!(fields.get("msg").is_none());
    let fields = custom_json_match(&config, "%Y", "prefix", "no json");
    assert!(fields.is_empty());
    let config = Config {
        json_keys: vec![(String::from("msg"), String::from("/m"))],
        coloring: Coloring::Never,
        ..Config::default()
    };
    let fields = custom_json_match(&config, "%Y", "prefix", r#"{"m":"text"}"#);
    assert_eq!(fields.get("msg").unwrap(), "prefix text");
}

#[test]
fn the_top_level_stack_trace_is_recorded_where_none_was_found() {
    let config = Config { coloring: Coloring::Never, ..Config::default() };
    let fields = extract_info(r#"{"level":"error","msg":"m","stacktrace":"top"}"#, &config);
    assert_eq!(fields.get("stacktrace").unwrap(), "top");
    let fields = extract_info(r#"{"level":"error","msg":"m","stacktrace":["no string"]}"#, &config);
    assert!(fields.get("stacktrace").is_none());
}

#[test]
fn the_header_of_a_table_is_found_by_its_titles() {
    for (line, is_header) in [
        ("LAST SEEN   TYPE   REASON", true),
        ("   \tLAST SEEN REASON TYPE", true),
        ("LAST SEENTYPEREASON", true),
        ("LAST SEEN   TYPE", false),
        ("LAST SEEN   REASON", false),
        ("x LAST SEEN   TYPE   REASON", false),
        ("last seen   type   reason", false),
        ("", false),
    ] {
        let mut state = ParseState::default();
        assert_eq!(is_kubectl_events_header(line, &mut state), is_header, "{:?}", line);
        assert_eq!(state.kubectl_events_cols.is_some(), is_header);
        assert!(!state.kubectl_events_mode);
    }
    let mut state = ParseState::default();
    assert!(is_kubectl_events_header("  LAST SEEN é TYPE ü REASON", &mut state));
    assert_eq!(state.kubectl_events_cols, Some((0, 13, 21, 0, 0)));
    assert!(is_kubectl_events_header("LAST SEEN TYPE REASON OBJECT MESSAGE", &mut state));
    assert_eq!(state.kubectl_events_cols, Some((0, 13, 21, 0, 0)));
}

#[test]
fn levels_are_known_in_any_case() {
    for (raw, level) in [
        ("debug", LogLevel::Debug),
        ("DEBUG", LogLevel::Debug),
        ("warn", LogLevel::Warning),
        ("Warning", LogLevel::Warning),
        ("err", LogLevel::Error),
        ("ERROR", LogLevel::Error),
        ("fatal", LogLevel::Fatal),
        ("info", LogLevel::Info),
        ("", LogLevel::Info),
        ("panic", LogLevel::Info),
        ("warnings", LogLevel::Info),
    ] {
        assert_eq!(normalize_level(raw), level, "{:?}", raw);
    }
    for (raw, level) in [
        ("WARN", LogLevel::Warning),
        ("Warning", LogLevel::Warning),
        ("ERROR", LogLevel::Error),
        ("Err", LogLevel::Error),
        ("Debug", LogLevel::Debug),
        ("debug", LogLevel::Debug),
        ("FATAL", LogLevel::Fatal),
        ("Info", LogLevel::Info),
        ("Trace", LogLevel::Info),
    ] {
        assert_eq!(level_from_str(raw), &level, "{:?}", raw);
    }
}

#[test]
fn the_default_configuration() {
    let c = Config::default();
    assert_eq!(c.files, Some(vec![]));
    assert_eq!(c.kail_prefix_format, "{namespace}/{pod}[{container}]");
    assert_eq!(c.kail_prefix, KailPrefix::Show);
    assert_eq!(c.time_format, "%H:%M:%S");
    assert_eq!(c.timezone, None);
    assert!(c.filter_levels.is_empty());
    assert!(c.regexp_colours.is_empty());
    assert!(c.json_keys.is_empty());
    assert_eq!(c.level_symbols, LevelSymbols::Text);
    assert_eq!(c.action_regexp, Some(String::new()));
    assert_eq!(c.action_command, Some(String::new()));
    assert!(c.skip_line_regexp.is_empty());
    assert!(!c.hide_stacktrace);
    assert_eq!(c.coloring, Coloring::Auto);
    let s = ParseState::default();
    assert!(!s.kubectl_events_mode);
    assert_eq!(s.kubectl_events_cols, None);
}

#[test]
fn options_become_a_configuration() {
    let o = Options {
        regexp: words(&["red:a"]),
        skip_line_regexp: words(&["s"]),
        filter_levels: vec![LogLevel::Fatal],
        color: Coloring::Always,
        time_format: String::from("%s"),
        timezone: Some(String::from("UTC")),
        kail_prefix_format: String::from("{pod}"),
        kail_no_prefix: true,
        level_symbols: true,
        json_keys: words(&["a=/a", "b=/b", "c=/c"]),
        action_regexp: Some(String::from("x")),
        action_command: Some(String::from("y")),
        hide_stacktrace: true,
        files: Some(words(&["f"])),
    };
    let c = config_from(o).unwrap();
    assert_eq!(c.regexp_colours.len(), 1);
    assert_eq!(c.regexp_colours[0].0, "a");
    assert_eq!(c.skip_line_regexp, words(&["s"]));
    assert_eq!(c.filter_levels, vec![LogLevel::Fatal]);
    assert_eq!(c.coloring, Coloring::Always);
    assert_eq!(c.time_format, "%s");
    assert_eq!(c.timezone, Some(String::from("UTC")));
    assert_eq!(c.kail_prefix_format, "{pod}");
    assert_eq!(c.kail_prefix, KailPrefix::Hide);
    assert_eq!(c.level_symbols, LevelSymbols::Emoji);
    assert_eq!(c.json_keys.len(), 3);
    assert_eq!(c.action_regexp, Some(String::from("x")));
    assert_eq!(c.action_command, Some(String::from("y")));
    assert!(c.hide_stacktrace);
    assert_eq!(c.files, Some(words(&["f"])));
}

const ODD_LINES: [&str; 22] = [
    "\u{0}", "{", "}", "[[[[[[[[[[", "{\"level\":", "/[]: ", "/[]:", "a/b[c]: \n", "é/ü[ö]: ñ",
    "{\"level\":\"info\",\"msg\":\"m\",\"ts\":1e308}",
    "{\"level\":\"info\",\"msg\":\"m\",\"ts\":-1e308}",
    "{\"level\":\"info\",\"msg\":\"m\",\"ts\":18446744073709551615}",
    "{\"level\":\"info\",\"msg\":\"m\",\"ts\":-9223372036854775808}",
    "{\"level\":\"info\",\"msg\":\"m\",\"ts\":9223372036854775807}",
    "{\"level\":\"info\",\"msg\":\"m\",\"ts\":253402300800}",
    "{\"level\":\"info\",\"msg\":\"m\",\"ts\":\"2022-06-30T23:59:60.5Z\"}",
    "{\"level\":\"info\",\"msg\":\"m\",\"ts\":\"+262142-12-31T23:59:59.999999999Z\"}",
    "{\"level\":\"info\",\"msg\":\"m\",\"ts\":\"-262143-01-01T00:00:00.0Z\"}",
    "{\"level\":\"info\",\"msg\":\"m\",\"ts\":{}}",
    "{\"level\":\"\u{130}\",\"msg\":\"\u{feff}\"}",
    "LAST SEEN TYPE REASON",
    "x",
];

fn take_all(o: Options) {
    let config = config_from(o).unwrap();
    let mut state = ParseState::default();
    for line in ODD_LINES {
        let done = do_line(&config, line, &mut state);
        let _ = format_output(&done, &config);
    }
}

#[test]
fn nothing_panics_on_odd_formats_and_zones() {
    let formats = ["", "%", "%%", "%-", "%H", "%Q", "%+", "%c", "%Z %z %:z", "%s", "%.3f", "%E", "é%Y"];
    let zones = [None, Some("UTC"), Some("Europe/Paris"), Some(""), Some("nowhere"), Some("Asia/Kolkata")];
    for format in formats {
        for zone in zones {
            take_all(Options {
                time_format: String::from(format),
                timezone: zone.map(String::from),
                json_keys: words(&["ts=/ts", "msg=", "level=/~1/~0"]),
                ..options(Coloring::Always)
            });
        }
    }
}

#[test]
fn nothing_panics_on_odd_patterns() {
    let patterns = ["", ".", ".*", "(", "a|", "$", "^", "\\b", "(?i)M", "[", "x*", "\\p{L}+", "(a*)*b"];
    for pattern in patterns {
        take_all(Options {
            regexp: words(&[pattern, "red:m"]),
            skip_line_regexp: words(&[pattern]),
            action_regexp: Some(String::from(pattern)),
            action_command: Some(String::from("{}{}")),
            ..options(Coloring::Always)
        });
    }
}
