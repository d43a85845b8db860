use std::cmp::Ordering;

use hiboard::cli::{push_step, PushAction, PushArgs, PushEvent, PushState};
use hiboard::compat::{check_compatibility, HW_DEFAULT_SERVICE_URL, HW_MAX_CONTENT_LENGTH};
use hiboard::config::{set_value, Config, DEFAULT_SERVICE_URL};
use hiboard::num::{decimal_chars, parse_u64_chars};
use hiboard::template::{interpolate, parse_vars};
use hiboard::text::{chars_of, is_blank};
use hiboard::validator::{validate_content, MAX_CONTENT_LENGTH};
use hiboard::version::{compare_versions, is_newer_than, parse_version};

#[test]
fn comparing_the_other_way_reverses() {
    let pairs = [("1.0.17", "1.0.9"), ("2", "1.9.9"), ("v1.2", "1.2.0"), ("0.1", "0.10")];
    for (a, b) in pairs {
        let ab = compare_versions(a, b).unwrap();
        let ba = compare_versions(b, a).unwrap();
        assert_eq!(ab, ba.reverse());
        assert_eq!(compare_versions(a, a), Some(Ordering::Equal));
    }
}

#[test]
fn newer_is_a_strict_order() {
    assert!(!is_newer_than("1.2.3", "1.2.3"));
    assert!(is_newer_than("1.3", "1.2.9"));
    assert!(!is_newer_than("1.2.9", "1.3"));
    assert!(is_newer_than("1.2.9", "1.2"));
    assert!(is_newer_than("1.3", "1.2"));
}

#[test]
fn version_text_round_trip() {
    for v in [vec![1u64, 0, 17], vec![0], vec![u64::MAX, 7]] {
        let text = v.iter().map(|n| n.to_string()).collect::<Vec<_>>().join(".");
        assert_eq!(parse_version(&text), Some(v));
    }
}

#[test]
fn decimal_round_trip() {
    for n in [0u64, 5, 1234567890, u64::MAX] {
        assert_eq!(parse_u64_chars(&decimal_chars(n)), Some(n));
    }
}

#[test]
fn field_order_does_not_matter() {
    let a = check_compatibility(&None, "required_fields = ['summary', 'msgId', 'x']");
    let b = check_compatibility(&None, "required_fields = ['x', 'summary', 'msgId']");
    assert_eq!(a.fields.matched, b.fields.matched);
    assert_eq!(a.fields.skill_value, b.fields.skill_value);
    assert_eq!(a.fields.hwpush_value, b.fields.hwpush_value);
}

#[test]
fn compatible_exactly_without_diffs() {
    let all = "required_fields = ['source', 'summary', 'result', 'msgId', 'content', 'scheduleTaskName', 'taskFinishTime', 'scheduleTaskId']";
    let c = check_compatibility(&None, all);
    assert_eq!(c.fields.matched, Some(true));
    assert_eq!(c.is_compatible(), c.diffs().is_empty());
    assert_eq!(c.diffs().len(), 2);
}

#[test]
fn date_given_by_argument_wins() {
    let vars = parse_vars(&vec!["date=yesterday".to_string()], "today".into(), "now".into());
    assert!(vars.contains(&("date".to_string(), "yesterday".to_string())));
    assert!(vars.contains(&("time".to_string(), "now".to_string())));
    let plain = parse_vars(&vec![], "today".into(), "now".into());
    assert!(plain.contains(&("date".to_string(), "today".to_string())));
}

#[test]
fn text_without_placeholders_is_unchanged() {
    let vars = vec![("a".to_string(), "x".to_string())];
    assert_eq!(interpolate("no {placeholders} {{b}} here", &vars), "no {placeholders} {{b}} here");
}

#[test]
fn validation_passes_exactly_for_good_requests() {
    assert!(validate_content("body", "name").is_ok());
    assert_eq!(validate_content(" ", "name").is_ok(), !is_blank(" "));
    assert!(validate_content(&"y".repeat(MAX_CONTENT_LENGTH + 1), "name").is_err());
}

#[test]
fn timeout_written_in_decimal_reads_back() {
    let mut cfg = Config::default();
    let text: String = decimal_chars(86400).into_iter().collect();
    assert!(set_value(&mut cfg, "push.timeout_secs", &text));
    assert_eq!(cfg.push.timeout_secs, 86400);
    assert!(set_value(&mut cfg, "push.service_url", "https://example.com"));
    assert_eq!(cfg.push.service_url, "https://example.com");
    assert_eq!(cfg.push.timeout_secs, 86400);
}

#[test]
fn limits_agree() {
    assert_eq!(HW_MAX_CONTENT_LENGTH, MAX_CONTENT_LENGTH as u64);
    assert_eq!(HW_DEFAULT_SERVICE_URL, DEFAULT_SERVICE_URL);
    assert_eq!(chars_of(HW_DEFAULT_SERVICE_URL), chars_of(DEFAULT_SERVICE_URL));
}

#[test]
fn a_dry_run_never_sends_or_records() {
    let cfg = Config::default();
    let args = PushArgs {
        name: "日报".into(),
        file: Some("report.md".into()),
        template: None,
        var: vec![],
        result: Some("完成".into()),
        schedule_id: None,
        dry_run: true,
    };
    let mut state = PushState::Start;
    let mut event = PushEvent::Begin;
    let mut steps = 0;
    loop {
        let (next, action) = push_step(&args, &cfg, state, event);
        assert!(!matches!(action, PushAction::Send(_) | PushAction::Record { .. }));
        steps += 1;
        event = match action {
            PushAction::ReadContent(_) => PushEvent::ContentRead("# 日报".into()),
            PushAction::ReadKeychain => PushEvent::Keychain(Some("code".into())),
            PushAction::ReadEnv => PushEvent::Env(None),
            PushAction::ReadClock => PushEvent::Clock(5, 0),
            PushAction::PrintDryRun(p) => {
                assert_eq!(p.data.msg_content[0].result, "完成");
                PushEvent::Printed
            }
            PushAction::Finish(out) => {
                assert!(out.is_ok());
                break;
            }
            _ => panic!("unexpected step"),
        };
        state = next;
    }
    assert_eq!(steps, 5);
}
