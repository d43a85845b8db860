use hiboard::cli::skill_check_report;
use hiboard::cli::{compatible_field, push_step, PushAction, PushEvent, PushState};
use hiboard::compat::compatibility_from_fetch;
use hiboard::cli::{
    check_push_content, content_source, evaluate_update, push_outcome, select_auth_code,
    skill_check_baseline, update_compatible, CliError, ContentSource, PushArgs, SkillCheckArgs,
};
use hiboard::compat::{
    check_compatibility, file_url, parse_required_fields, truncate, versions_url, SkillConfigFile,
};
use hiboard::config::{
    config_path_in, db_path_in, default_result, default_retry, default_source, default_timeout,
    join_path_exec, set_value, storage_dir_in, template_dir_in, Config,
};
use hiboard::num::{decimal_chars, hex_chars, parse_u64_chars, signed_decimal_chars};
use hiboard::payload::{build_payload, msg_id_at, trace_id_at, PushResponse};
use hiboard::template::{
    default_template_content, front_matter_description, interpolate, merge_templates,
    parse_vars, render, strip_front_matter, template_file_name, template_stem,
    TemplateInfo,
};
use hiboard::text::{chars_of, is_blank, is_whitespace_char, string_of, trim_chars};
use hiboard::validator::{validate_content, ValidationError};
use hiboard::version::{compare_versions, is_newer_than, parse_version, SkillVersion};

fn s(v: &[char]) -> String {
    v.iter().collect()
}

#[test]
fn whitespace_agrees_with_std() {
    for u in 0u32..=0x10FFFF {
        if let Some(c) = char::from_u32(u) {
            assert_eq!(is_whitespace_char(c), c.is_whitespace(), "{u:#x}");
        }
    }
}

#[test]
fn trim_agrees_with_std() {
    for t in ["", "   ", " a ", "\u{3000}中文\t\n", "x", "\u{85}a b\u{2029}"] {
        assert_eq!(s(&trim_chars(&chars_of(t))), t.trim());
        assert_eq!(is_blank(t), t.trim().is_empty());
    }
}

#[test]
fn decimal_and_hex_agree_with_std() {
    for n in [0u64, 1, 9, 10, 99, 100, 12345, u64::MAX] {
        assert_eq!(s(&decimal_chars(n)), n.to_string());
        assert_eq!(s(&hex_chars(n)), format!("{n:x}"));
    }
    for n in [0i64, -1, 42, i64::MIN, i64::MAX] {
        assert_eq!(s(&signed_decimal_chars(n)), n.to_string());
    }
}

#[test]
fn u64_parse_agrees_with_std() {
    for t in [
        "0", "+7", "-7", "+", "", "18446744073709551615", "18446744073709551616", "12a", " 1",
        "007", "99999999999999999999x",
    ] {
        assert_eq!(parse_u64_chars(&chars_of(t)), t.parse::<u64>().ok(), "{t}");
    }
}

#[test]
fn version_edge_cases() {
    assert_eq!(parse_version("  vV2.3 "), Some(vec![2, 3]));
    assert_eq!(parse_version("1..2"), None);
    assert_eq!(parse_version("v"), None);
    assert_eq!(parse_version("1.+2"), Some(vec![1, 2]));
    assert_eq!(compare_versions("1.0.0", "1"), Some(std::cmp::Ordering::Equal));
    assert!(!is_newer_than("x", "1.0"));
    assert!(!is_newer_than("2.0", "x"));
}

#[test]
fn required_fields_edge_cases() {
    assert_eq!(
        parse_required_fields("required_fields = [\"a\", 'b']"),
        Some(vec!["a".to_string(), "b".to_string()])
    );
    // an item that is never closed spoils the list
    assert_eq!(parse_required_fields("required_fields = ['a', 'b]"), None);
    // no bracket after the name
    assert_eq!(parse_required_fields("required_fields = "), None);
    // the first mention decides where the search starts
    assert_eq!(
        parse_required_fields("x = ['q'] required_fields ['r']"),
        Some(vec!["r".to_string()])
    );
}

#[test]
fn compatibility_values() {
    let config = Some(SkillConfigFile {
        push_service_url: "https://new-domain.example.com/upload".into(),
        max_content_length: 10000,
        default_result: String::new(),
        timeout: 30,
    });
    let compat = check_compatibility(&config, "required_fields = ['summary', 'msgId']");
    assert_eq!(compat.service_url.skill_value, "https://new-domain.example.com/upload");
    assert_eq!(compat.fields.skill_value, "msgId, summary");
    assert_eq!(
        compat.fields.hwpush_value,
        "content, msgId, result, scheduleTaskId, scheduleTaskName, source, summary, taskFinishTime"
    );
    assert_eq!(compat.max_length.skill_value, "10000");
    assert_eq!(compat.max_length.hwpush_value, "5000");
    let none = check_compatibility(&None, "");
    assert_eq!(none.service_url.skill_value, "(config.json 解析失败)");
    assert_eq!(none.fields.skill_value, "(task_pusher.py 未找到 required_fields)");
    assert_eq!(
        none.fields.hwpush_value,
        "msgId, scheduleTaskId, scheduleTaskName, summary, result, content, source, taskFinishTime"
    );
    assert_eq!(compat.is_compatible(), compat.diffs().is_empty());
    assert!(!update_compatible(&None));
    assert!(!update_compatible(&Some(compat)));
}

#[test]
fn urls_and_truncation() {
    assert_eq!(
        versions_url("https://clawhub.com//"),
        "https://clawhub.com/api/v1/skills/today-task/versions?limit=50"
    );
    assert_eq!(
        file_url("https://clawhub.com", "config.json"),
        "https://clawhub.com/api/v1/skills/today-task/file?path=config.json"
    );
    assert_eq!(truncate("短文本", 5), "短文本");
    assert_eq!(truncate("abcdef", 3), "abc…");
}

#[test]
fn validation_messages() {
    assert_eq!(
        ValidationError::ContentTooLong(5001).message(),
        "内容超出最大长度限制（5000 字符），当前长度: 5001"
    );
    // the limit is in bytes: 1667 three-byte characters are too long
    let wide = "中".repeat(1667);
    assert!(matches!(validate_content(&wide, "n"), Err(ValidationError::ContentTooLong(5001))));
    assert!(matches!(validate_content("", ""), Err(ValidationError::NameEmpty)));
    assert!(validate_content(&"x".repeat(5000), "n").is_ok());
}

#[test]
fn payload_at_fixed_time() {
    let p = build_payload("code", "任务", "正文", "结果", &Some("id".into()), 1700000000123, 1700000000);
    let m = &p.data.msg_content[0];
    assert_eq!(m.msg_id, "hiboard_1700000000123");
    assert_eq!(m.task_finish_time, 1700000000);
    assert_eq!(msg_id_at(0), "hiboard_0");
    assert_eq!(trace_id_at(255), "hwpush_ff");
    assert_eq!(msg_id_at(-5), "hiboard_-5");
    assert_eq!(trace_id_at(-1), format!("hwpush_{:x}", -1i64));
    let ok = PushResponse { code: "0000000000".into(), message: String::new() };
    let bad = PushResponse { code: "0000900034".into(), message: "auth".into() };
    assert!(ok.success());
    assert!(!bad.success());
    assert!(push_outcome(&ok).is_ok());
    match push_outcome(&bad) {
        Err(CliError::Push(m)) => assert_eq!(m, "auth"),
        _ => panic!("expected a push error"),
    }
}

#[test]
fn config_defaults_and_set_value() {
    let mut cfg = Config::default();
    assert_eq!(cfg.push.timeout_secs, 30);
    assert_eq!(cfg.push.retry_count, 3);
    assert_eq!(cfg.defaults.result, "任务已完成");
    assert_eq!(cfg.defaults.source, "OpenClaw");
    assert!(cfg.storage.history_db_path.ends_with("hiboard/history.db"));
    assert!(hiboard::config::StorageConfig::default().history_db_path.ends_with("hiboard/history.db"));
    assert_eq!(default_timeout(), 30);
    assert_eq!(default_retry(), 3);
    assert_eq!(default_result(), "任务已完成");
    assert_eq!(default_source(), "OpenClaw");
    assert!(set_value(&mut cfg, "push.timeout_secs", "45"));
    assert_eq!(cfg.push.timeout_secs, 45);
    assert!(set_value(&mut cfg, "push.timeout_secs", "abc"));
    assert_eq!(cfg.push.timeout_secs, 30);
    assert!(set_value(&mut cfg, "push.retry_count", "4294967296"));
    assert_eq!(cfg.push.retry_count, 3);
    assert!(set_value(&mut cfg, "push.dry_run", "true"));
    assert!(cfg.push.dry_run);
    assert!(set_value(&mut cfg, "defaults.result", "完成"));
    assert_eq!(cfg.defaults.result, "完成");
    assert!(!set_value(&mut cfg, "no.such.key", "1"));
    assert_eq!(cfg.defaults.result, "完成");
}

#[test]
fn default_paths() {
    assert_eq!(
        config_path_in(Some(b"/home/u/.config".to_vec())),
        b"/home/u/.config/hiboard/config.toml".to_vec()
    );
    assert_eq!(config_path_in(None), b"~/.config/hiboard/config.toml".to_vec());
    assert_eq!(template_dir_in(Some(b"/c/".to_vec())), b"/c/hiboard/templates".to_vec());
    assert_eq!(storage_dir_in(None), b"~/.local/share/hiboard".to_vec());
    assert_eq!(db_path_in(None), b"~/.local/share/hiboard/history.db".to_vec());
    // bytes that are not UTF-8 are kept as they are
    assert_eq!(
        config_path_in(Some(vec![b'/', 0xff, b'x'])),
        vec![b'/', 0xff, b'x', b'/', b'h', b'i', b'b', b'o', b'a', b'r', b'd', b'/', b'c', b'o', b'n', b'f', b'i', b'g', b'.', b't', b'o', b'm', b'l']
    );
    assert_eq!(join_path_exec(&Vec::new(), "a"), b"a".to_vec());
    assert_eq!(
        hiboard::config::StorageConfig::with_data_dir(Some(b"/d".to_vec())).history_db_path,
        "/d/hiboard/history.db"
    );
}

#[test]
fn vars_and_rendering() {
    let args = vec![
        "project=hiboard".to_string(),
        "bad".to_string(),
        "k=a=b".to_string(),
        "project=again".to_string(),
        "date=2020-01-01".to_string(),
    ];
    let vars = parse_vars(&args, "D".into(), "T".into());
    assert_eq!(
        vars,
        vec![
            ("project".to_string(), "again".to_string()),
            ("k".to_string(), "a=b".to_string()),
            ("date".to_string(), "2020-01-01".to_string()),
            ("time".to_string(), "T".to_string()),
        ]
    );
    let plain = parse_vars(&Vec::new(), "2024-05-01".into(), "08:00:00".into());
    assert_eq!(
        plain,
        vec![
            ("date".to_string(), "2024-05-01".to_string()),
            ("time".to_string(), "08:00:00".to_string()),
        ]
    );
    let raw = "---\nname: daily\ndescription: 日报\n---\n\n# {{project}} {{k}} {{missing}}";
    assert_eq!(render(raw, &vars), "# again a=b {{missing}}");
    assert_eq!(strip_front_matter("no front matter"), "no front matter");
    assert_eq!(strip_front_matter("---only one marker"), "---only one marker");
    assert_eq!(interpolate("{{a}}{{a}}", &vec![("a".into(), "x".into())]), "xx");
}

#[test]
fn front_matter_descriptions() {
    assert_eq!(
        front_matter_description("---\nname: d\ndescription: \"日报模板\"\n---\nbody"),
        Some("日报模板".to_string())
    );
    assert_eq!(front_matter_description("---\ndescription: \"\"\n---\n"), None);
    assert_eq!(front_matter_description("---\nname: x\n---\ndescription: late"), None);
    assert_eq!(front_matter_description("description: x"), None);
    assert_eq!(
        front_matter_description("---\r\ndescription:  spaced \r\n---"),
        Some("spaced".to_string())
    );
}

#[test]
fn template_files() {
    assert_eq!(template_stem("daily.md"), Some("daily".to_string()));
    assert_eq!(template_stem("a.b.md"), Some("a.b".to_string()));
    assert_eq!(template_stem(".md"), None);
    assert_eq!(template_stem("notes.txt"), None);
    assert_eq!(template_stem("md"), None);
    assert_eq!(template_file_name("daily"), "daily.md");
    let user = vec![TemplateInfo { name: "daily".into(), description: None, path: "/u/daily.md".into() }];
    let builtin = vec![
        TemplateInfo { name: "daily".into(), description: Some("b".into()), path: "/b/daily.md".into() },
        TemplateInfo { name: "news".into(), description: None, path: "/b/news.md".into() },
    ];
    let all = merge_templates(user, builtin);
    let names: Vec<_> = all.iter().map(|t| t.name.as_str()).collect();
    assert_eq!(names, vec!["daily", "news"]);
    assert_eq!(all[0].path, "/u/daily.md");
    let text = default_template_content("weekly");
    assert!(text.starts_with("---\nname: weekly\n"));
    assert!(text.contains("# {{name}} 任务报告"));
}

#[test]
fn push_decisions() {
    let mut args = PushArgs {
        name: "任务".into(),
        file: Some("a.md".into()),
        template: Some("daily".into()),
        var: vec![],
        result: None,
        schedule_id: None,
        dry_run: false,
    };
    assert!(matches!(content_source(&args), ContentSource::File(f) if f == "a.md"));
    args.file = None;
    assert!(matches!(content_source(&args), ContentSource::Template(t) if t == "daily"));
    args.template = None;
    assert!(matches!(content_source(&args), ContentSource::Stdin));
    match check_push_content("  ", "") {
        Err(e) => assert_eq!(e.message(), "推送错误: 内容为空"),
        _ => panic!("blank content must be refused"),
    }
    match check_push_content("x", " ") {
        Err(e) => assert_eq!(e.message(), "推送错误: 任务名称不能为空"),
        _ => panic!("blank name must be refused"),
    }
    assert!(check_push_content("x", "n").is_ok());
    assert_eq!(select_auth_code(Some("k".into()), Some("e".into())).unwrap(), "k");
    assert_eq!(select_auth_code(None, Some("e".into())).unwrap(), "e");
    assert!(matches!(select_auth_code(None, None), Err(CliError::Push(_))));
}

#[test]
fn update_decisions() {
    let cfg = Config::default();
    let args = SkillCheckArgs { registry: "r".into(), synced_version: None, mark_synced: false, json: false };
    assert_eq!(skill_check_baseline(&args, &cfg), "");
    let versions = vec![
        SkillVersion { version: "1.0.18".into(), changelog: "c".into(), changelog_source: "user".into() },
        SkillVersion { version: "1.0.17".into(), changelog: String::new(), changelog_source: String::new() },
    ];
    let u = evaluate_update("1.0.17", &versions).unwrap();
    assert_eq!(u.latest.version, "1.0.18");
    assert!(u.has_update);
    assert_eq!(u.newer.len(), 1);
    let none = evaluate_update("2.0", &versions).unwrap();
    assert!(!none.has_update);
    match evaluate_update("1.0", &Vec::new()) {
        Err(e) => assert_eq!(e.message(), "检查更新错误: 仓库未返回任何版本信息"),
        _ => panic!("an empty list must be refused"),
    }
}

#[test]
fn strings_round_trip() {
    assert_eq!(string_of(&chars_of("héllo 世界")), "héllo 世界");
}

#[test]
fn comparison_from_fetched_files() {
    let py = "required_fields = ['msgId']".to_string();
    assert!(compatibility_from_fetch(Err("HTTP 404".into()), Ok(py.clone())).is_none());
    assert!(compatibility_from_fetch(Ok(None), Err("HTTP 404".into())).is_none());
    let c = compatibility_from_fetch(Ok(None), Ok(py)).unwrap();
    assert_eq!(c.service_url.matched, None);
    assert_eq!(c.fields.matched, Some(false));
}

#[test]
fn skill_check_text_report() {
    let versions = vec![
        SkillVersion { version: "1.0.18".into(), changelog: "  修复问题\n".into(), changelog_source: "user".into() },
        SkillVersion { version: "1.0.17".into(), changelog: String::new(), changelog_source: String::new() },
    ];
    let up_to_date = evaluate_update("1.0.18", &versions).unwrap();
    assert_eq!(
        skill_check_report("https://clawhub.com", "1.0.18", &up_to_date, &None, false),
        vec![
            "🔍 检查 today-task 更新（仓库: https://clawhub.com）".to_string(),
            "   当前同步版本: v1.0.18".to_string(),
            "   仓库最新版本: v1.0.18".to_string(),
            "✅ 已是最新版本，无更新".to_string(),
        ]
    );
    let update = evaluate_update("1.0.16", &versions).unwrap();
    let unverified = skill_check_report("r", "1.0.16", &update, &None, true);
    assert_eq!(
        unverified[3..],
        [
            "ℹ️ 有更新（v1.0.16 → v1.0.18），但无法验证格式兼容性（拉取文件失败），请手动核对".to_string(),
            String::new(),
            "📦 v1.0.18".to_string(),
            "-".repeat(30),
            "修复问题".to_string(),
            String::new(),
            "📦 v1.0.17".to_string(),
            "-".repeat(30),
            "（无更新说明）".to_string(),
            String::new(),
            "已记录已同步版本：v1.0.18（写入配置）".to_string(),
        ]
    );
    let compat = Some(check_compatibility(&None, "required_fields = ['msgId']"));
    let attention = skill_check_report("r", "1.0.16", &update, &compat, false);
    assert_eq!(attention[3], "🚨 检测到需要关注的变更：v1.0.16 → v1.0.18");
    assert_eq!(attention[5], "❓ 无法验证：service_url");
    assert_eq!(attention[8], "⚠️ 不一致：fields");
    assert_eq!(attention[9], "     skill 最新版: msgId");
    assert_eq!(attention[11], "❓ 无法验证：max_length");
    assert_eq!(
        attention.last().unwrap(),
        "提示：修改 hwpush 实现后，可运行 `hwpush skill-check --mark-synced` 记录已同步版本"
    );
}

#[test]
fn push_steps_in_order() {
    let cfg = Config::default();
    let args = PushArgs {
        name: "任务".into(),
        file: None,
        template: None,
        var: vec![],
        result: None,
        schedule_id: Some("w1".into()),
        dry_run: false,
    };
    let (s, a) = push_step(&args, &cfg, PushState::Start, PushEvent::Begin);
    assert!(matches!(a, PushAction::ReadContent(ContentSource::Stdin)));
    let (s, a) = push_step(&args, &cfg, s, PushEvent::ContentRead("# 正文".into()));
    assert!(matches!(a, PushAction::ReadKeychain));
    let (s, a) = push_step(&args, &cfg, s, PushEvent::Keychain(None));
    assert!(matches!(a, PushAction::ReadEnv));
    let (s, a) = push_step(&args, &cfg, s, PushEvent::Env(Some("code".into())));
    assert!(matches!(a, PushAction::ReadClock));
    let (s, a) = push_step(&args, &cfg, s, PushEvent::Clock(1000, 1));
    match a {
        PushAction::Send(p) => {
            assert_eq!(p.data.auth_code, "code");
            assert_eq!(p.data.msg_content[0].result, "任务已完成");
            assert_eq!(p.data.msg_content[0].msg_id, "hiboard_1000");
        }
        _ => panic!("expected a send"),
    }
    let resp = PushResponse { code: "0200100004".into(), message: "service".into() };
    let (s, a) = push_step(&args, &cfg, s, PushEvent::Sent(Ok(resp)));
    match a {
        PushAction::Record { task_name, task_id, code } => {
            assert_eq!((task_name.as_str(), task_id.as_str(), code.as_str()), ("任务", "w1", "0200100004"));
        }
        _ => panic!("expected a record"),
    }
    let (s, a) = push_step(&args, &cfg, s, PushEvent::Recorded);
    assert!(matches!(a, PushAction::Report(_)));
    let (_, a) = push_step(&args, &cfg, s, PushEvent::Reported);
    match a {
        PushAction::Finish(Err(e)) => assert_eq!(e.message(), "推送错误: service"),
        _ => panic!("expected a failure"),
    }
    // a dry run shows the request and sends nothing
    let dry = PushArgs { dry_run: true, ..args };
    let (_, a) = push_step(&dry, &cfg, PushState::AwaitClock { content: "x".into(), auth_code: "c".into() }, PushEvent::Clock(1, 1));
    assert!(matches!(a, PushAction::PrintDryRun(_)));
    let (_, a) = push_step(&dry, &cfg, PushState::AwaitPrinted, PushEvent::Printed);
    assert!(matches!(a, PushAction::Finish(Ok(()))));
    // blank content stops before the key chain is asked
    let (_, a) = push_step(&dry, &cfg, PushState::AwaitContent, PushEvent::ContentRead(" ".into()));
    assert!(matches!(a, PushAction::Finish(Err(CliError::Push(_)))));
}

#[test]
fn json_compatible_field() {
    let versions = vec![SkillVersion { version: "2.0".into(), changelog: String::new(), changelog_source: String::new() }];
    let newer = evaluate_update("1.0", &versions).unwrap();
    let same = evaluate_update("2.0", &versions).unwrap();
    assert_eq!(compatible_field(&same, &None), None);
    assert_eq!(compatible_field(&newer, &None), Some(false));
}
