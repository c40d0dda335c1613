use snazy::config::{Coloring, Config, KailPrefix, LevelSymbols};
use snazy::events::{
    colorize_object_type, is_kubectl_events_header, parse_kubectl_event_line, ParseState,
};
use snazy::extract::extract_info;
use snazy::highlight::apply_regexps;
use snazy::process::{action_on_regexp, do_line};
use snazy::record::format_info;
use snazy::stack::format_stack_line;
use snazy::style::Style;
use yansi::{Color, Paint};

#[test]
fn test_extract_info_pac() {
    let line = "{\"severity\":\"INFO\",\"timestamp\":\"2022-04-25T10:24:30.155404234Z\",\"caller\":\"foo.rs:1\",\"message\":\"hello moto\"}";
    let config = Config::default();
    let info = extract_info(line, &config);
    assert_eq!(info.get("msg").cloned().unwrap_or_default(), "hello moto");
    assert_eq!(info.get("level").cloned().unwrap_or_default(), "INFO");
    assert!(info.get("ts").is_some_and(|v| !v.is_empty()));
}

#[test]
fn test_extract_info_knative() {
    let line = "{\"level\":\"DEBUG\",\"msg\":\"knative log\",\"ts\":1650602040.0}";
    let config = Config::default();
    let info = extract_info(line, &config);
    assert_eq!(info.get("msg").cloned().unwrap_or_default(), "knative log");
    assert_eq!(info.get("level").cloned().unwrap_or_default(), "DEBUG");
    assert!(info.get("ts").is_some_and(|v| !v.is_empty()));
}

#[test]
fn test_do_line_level_symbols() {
    let config = Config {
        level_symbols: LevelSymbols::Emoji,
        ..Config::default()
    };
    let line = "{\"level\":\"INFO\",\"msg\":\"symbol test\",\"timestamp\":\"2022-04-25T10:24:30.155404234Z\"}";
    let mut state = ParseState::default();
    let result = do_line(&config, line, &mut state).info;
    if result.is_none() {
        println!("DEBUG: do_line returned None for input: {line}");
    }
    assert!(result.is_some());
    assert_eq!(result.unwrap().level, "💡");
}

#[test]
fn test_format_stack_line_coloring_toggle() {
    let line = "/foo/bar.rs:42";
    let colored = format_stack_line(line, false);
    assert!(
        colored.contains("\x1b["),
        "Expected ANSI color codes in output"
    );
    let plain = format_stack_line(line, true);
    assert!(
        !plain.contains("\x1b["),
        "Expected no ANSI color codes in output"
    );
    assert!(plain.contains("/foo/bar.rs:42"));
}

#[test]
fn test_kail_prefix_coloring_toggle() {
    let config = Config {
        kail_prefix_format: "{namespace}/{pod}[{container}]".to_string(),
        ..Config::default()
    };
    let line = "ns/pod[container]: {\"msg\":\"foo\",\"level\":\"INFO\"}";
    let mut config_colored = config.clone();
    config_colored.coloring = Coloring::Always;
    let info_colored = extract_info(line, &config_colored);
    assert!(
        info_colored.get("msg").unwrap().contains("\x1b["),
        "Expected ANSI color codes in prefix"
    );
    let mut config_plain = config.clone();
    config_plain.coloring = Coloring::Never;
    let info_plain = extract_info(line, &config_plain);
    assert!(
        !info_plain.get("msg").unwrap().contains("\x1b["),
        "Expected no ANSI color codes in prefix"
    );
    assert!(info_plain
        .get("msg")
        .unwrap()
        .contains("ns/pod[container] foo"));
}

#[test]
fn test_kubectl_events_parsing_and_formatting() {
    let header = "LAST SEEN   TYPE      REASON              OBJECT                                               MESSAGE";
    let event_line = "119m        Warning   Unhealthy           pod/pipelines-as-code-controller-76d86f74bb-vxjtd    Readiness probe failed: Get \"http://10.128.0.97:8082/live\": dial tcp 10.128.0.97:8082: connect: connection refused";
    let mut state = ParseState::default();
    assert!(is_kubectl_events_header(header, &mut state));
    let parsed = parse_kubectl_event_line(event_line, &state);
    assert!(parsed.is_some());
    let (last_seen, type_, reason, object, message) = parsed.unwrap();
    assert_eq!(last_seen, "119m");
    assert_eq!(type_, "Warning");
    assert_eq!(reason, "Unhealthy");
    assert_eq!(object, "pod/pipelines-as-code-controller-76d86f74bb-vxjtd");
    assert!(message.contains("Readiness probe failed:"));
}

#[test]
fn test_kubectl_events_object_type_coloring() {
    let pod = "pod/foo";
    let replicaset = "replicaset/bar";
    let deployment = "deployment/baz";
    let service = "service/qux";
    let job = "job/quux";
    let daemonset = "daemonset/quuz";
    let statefulset = "statefulset/corge";
    let configmap = "configmap/grault";
    let secret = "secret/garply";
    let unknown = "foobar/xyz";

    let pod_colored = colorize_object_type(pod, false);
    let replicaset_colored = colorize_object_type(replicaset, false);
    let deployment_colored = colorize_object_type(deployment, false);
    let service_colored = colorize_object_type(service, false);
    let job_colored = colorize_object_type(job, false);
    let daemonset_colored = colorize_object_type(daemonset, false);
    let statefulset_colored = colorize_object_type(statefulset, false);
    let configmap_colored = colorize_object_type(configmap, false);
    let secret_colored = colorize_object_type(secret, false);
    let unknown_colored = colorize_object_type(unknown, false);

    for colored in [
        &pod_colored,
        &replicaset_colored,
        &deployment_colored,
        &service_colored,
        &job_colored,
        &daemonset_colored,
        &statefulset_colored,
        &configmap_colored,
        &secret_colored,
        &unknown_colored,
    ] {
        assert!(
            colored.contains("\x1b["),
            "Expected ANSI color codes in object type coloring: {colored}"
        );
    }
    assert_ne!(pod_colored, replicaset_colored);
    let pod2_colored = colorize_object_type("pod/bar", false);
    assert_eq!(
        pod_colored.split('/').next().unwrap(),
        pod2_colored.split('/').next().unwrap()
    );
}

#[test]
fn test_get_line() {
    let line = r#"{"severity":"INFO","timestamp":"2022-04-25T10:24:30.155404234Z","logger":"pipelinesascode","caller":"kubeinteraction/secrets.go:114","message":"hello moto"}"#;
    let msg = extract_info(
        line,
        &Config {
            ..Config::default()
        },
    );
    assert_eq!(msg.get("msg").unwrap(), "hello moto");
}

#[test]
fn test_kail_prefix() {
    let line = r#"ns/pod[container]: {"severity":"INFO","timestamp":"2022-04-25T14:20:32.505637358Z","logger":"pipelinesascode","caller":"pipelineascode/status.go:59","message":"updated","provider":"github","event":"8b400490-c4a1-11ec-9219-63bc5bbc8228"}"#;
    let msg = extract_info(
        line,
        &Config {
            kail_prefix: KailPrefix::Show,
            ..Config::default()
        },
    );
    assert!(msg.get("msg").unwrap().contains("ns/pod[container]"));
    assert!(msg.get("msg").unwrap().contains("updated"));
}

#[test]
fn test_kail_newline() {
    let line = r#"ns/pod[container]: {"severity":"INFO","timestamp":"2022-04-25T14:20:32.505637358Z","logger":"pipelinesascode","caller":"pipelineascode/status.go:59","message":"updated","provider":"github","event":"8b400490-c4a1-11ec-9219-63bc5bbc8228"}"#;
    let msg = extract_info(
        line,
        &Config {
            kail_prefix: KailPrefix::Show,
            kail_prefix_format: String::from("{container}\n"),
            ..Config::default()
        },
    );
    assert!(msg.get("msg").unwrap().contains("container\n"));
}

#[test]
fn test_skip_lines() {
    let line = r#"{"level":"INFO","msg":"yolo"}"#;
    let mut state = ParseState::default();
    let msg = do_line(
        &Config {
            skip_line_regexp: vec![String::from("yolo")],
            ..Config::default()
        },
        line,
        &mut state,
    );
    assert!(msg.info.is_none());
    assert!(msg.echo.is_none());
}

#[test]
fn test_kail_no_prefix() {
    let line = r#"ns/pod[container]: {"severity":"INFO","timestamp":"2022-04-25T14:20:32.505637358Z","logger":"pipelinesascode","caller":"pipelineascode/status.go:59","message":" updated","provider":"github","event":"8b400490-c4a1-11ec-9219-63bc5bbc8228"}"#;
    let msg = extract_info(
        line,
        &Config {
            kail_prefix: KailPrefix::Hide,
            ..Config::default()
        },
    );
    assert_eq!(msg.get("msg").unwrap(), "updated");
}

#[test]
fn test_pac_provider_icon() {
    let line = r#"ns/pod[container]: {"severity":"INFO","timestamp":"2022-04-25T14:20:32.505637358Z","logger":"pipelinesascode","caller":"pipelineascode/status.go:59","message":" github","provider":"github","event":"8b400490-c4a1-11ec-9219-63bc5bbc8228"}"#;
    let msg = extract_info(
        line,
        &Config {
            kail_prefix: KailPrefix::Show,
            ..Config::default()
        },
    );
    assert!(msg.contains_key("others"));
    assert!(msg.get("others").unwrap().contains("\u{f09b} "));
}

#[test]
fn test_apply_regexps() {
    let line = String::from("red blue normal");
    let regexp = regex::Regex::new(r"\b(b.ue)\b").unwrap();
    let map = vec![
        (String::from("red"), Style::colored(Color::Red)),
        (regexp.to_string(), Style::colored(Color::Blue)),
    ];
    let ret = apply_regexps(&map, line, false);
    assert_eq!(ret, format!("{} {} normal", "red".red(), "blue".blue()));
}

#[test]
fn test_config_json_keys() {
    let keys = vec![
        (String::from("msg"), String::from("/foo")),
        (String::from("level"), String::from("/bar")),
    ];
    let config = Config {
        json_keys: keys,
        ..Config::default()
    };
    let line = r#"{"foo": "Bar", "bar": "info"}"#;
    let info = extract_info(line, &config);
    assert_eq!(info.get("msg").unwrap(), "Bar");
    assert_eq!(info.get("level").unwrap(), "info");
}

#[test]
fn test_config_json_timestamp_float() {
    let keys = vec![(String::from("ts"), String::from("/bar"))];
    let config = Config {
        json_keys: keys,
        ..Config::default()
    };
    let line = r#"{"bar": 1650602040.6289625}"#;
    let info = extract_info(line, &config);
    assert_eq!(info.get("ts").unwrap(), "04:34:00");
}

#[test]
fn test_custom_json_match() {
    let keys = vec![
        (String::from("ts"), String::from("/bar")),
        (String::from("msg"), String::from("/foo")),
        (String::from("level"), String::from("/level")),
    ];
    let config = Config {
        json_keys: keys,
        ..Config::default()
    };
    let line =
        r#"{"bar": "2022-04-22T04:34:00.628550164Z", "foo": "hello", "level": "lelevel"}"#;
    let info = extract_info(line, &config);
    assert_eq!(info.get("ts").unwrap(), "04:34:00");
    assert_eq!(info.get("msg").unwrap(), "hello");
    assert_eq!(info.get("level").unwrap(), "lelevel");

    let line = r#"{"bar": 1650992726.6289625, "foo": "hello", "level": "lelevel"}"#;
    let info = extract_info(line, &config);
    assert_eq!(info.get("ts").unwrap(), "17:05:26");
}

#[test]
fn test_action_on_regexp() {
    let config = Config {
        action_regexp: Some(String::from(r"HELLO\s\w+")),
        action_command: Some(String::from("echo \"you said {}\" > /tmp/out")),
        ..Config::default()
    };
    let line = r"un HELLO MOTO nono el petiot roboto";
    let action = action_on_regexp(&config, line).unwrap();
    assert_eq!(action.matched, "HELLO MOTO");
    assert_eq!(action.command, "echo \"you said HELLO MOTO\" > /tmp/out");
}

#[test]
fn test_read_from_file() {
    let line = r#"{"level":"INFO","ts":"2022-04-25T14:20:32.505637358Z", "msg":"hello world"}
{"level":"DEBUG","ts":"2022-04-25T14:20:32.505637358Z", "msg":"debug"}"#;
    let config = Config::default();
    let mut state = ParseState::default();
    let mut output = String::new();
    for l in line.lines() {
        if let Some(info) = do_line(&config, l, &mut state).info {
            output.push_str(&format_info(&info, &config));
        }
    }
    let re_info = regex::Regex::new(r"INFO.*14:20:32.*hello world").unwrap();
    let re_debug = regex::Regex::new(r"DEBUG.*14:20:32.*debug").unwrap();
    assert!(
        re_info.is_match(&output),
        "INFO log line not found or formatted incorrectly: {}",
        output
    );
    assert!(
        re_debug.is_match(&output),
        "DEBUG log line not found or formatted incorrectly: {}",
        output
    );
}

#[test]
fn test_hide_stacktrace() {
    let stacktrace = r"goroutine 1 [running]:
github.com/example/app.Function1(0x123456)
        /home/user/app.go:42 +0x2a
github.com/example/app.Function2(0x123456)
        /home/user/main.go:15 +0x1b";
    let line = format!(
        r#"{{"level":"ERROR","ts":"2022-04-25T14:20:32.505637358Z", "msg":"Error occurred", "stacktrace":{stacktrace:?}}}"#
    );
    let config = Config {
        hide_stacktrace: false,
        action_regexp: None,
        action_command: None,
        ..Config::default()
    };
    let mut state = ParseState::default();
    let info = do_line(&config, &line, &mut state).info.unwrap();
    let output_with_stacktrace = format_info(&info, &config);
    assert!(output_with_stacktrace.contains("Stacktrace"));
    assert!(output_with_stacktrace.contains("app.go"));

    let config = Config {
        hide_stacktrace: true,
        action_regexp: None,
        action_command: None,
        ..Config::default()
    };
    let mut state = ParseState::default();
    let info = do_line(&config, &line, &mut state).info.unwrap();
    let output_without_stacktrace = format_info(&info, &config);
    assert!(!output_without_stacktrace.contains("Stacktrace"));
    assert!(!output_without_stacktrace.contains("app.go"));
    assert!(output_without_stacktrace.contains("Error occurred"));
}

#[test]
fn test_read_from_malformed_json() {
    let line = "{this is not valid json}";
    let config = Config::default();
    let mut state = ParseState::default();
    let done = do_line(&config, line, &mut state);
    assert!(done.info.is_none());
    assert_eq!(done.echo.unwrap(), "{this is not valid json}");
}
