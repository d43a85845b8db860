use std::cmp::Ordering;

use hiboard::compat::{check_compatibility, parse_required_fields, SkillConfigFile};
use hiboard::version::{compare_versions, is_newer_than, newer_versions, parse_version, SkillVersion};

#[test]
fn test_parse_version() {
    assert_eq!(parse_version("1.0.17"), Some(vec![1, 0, 17]));
    assert_eq!(parse_version("v1.0.17"), Some(vec![1, 0, 17]));
    assert_eq!(parse_version("2.0"), Some(vec![2, 0]));
    assert_eq!(parse_version("1"), Some(vec![1]));
    assert_eq!(parse_version(""), None);
    assert_eq!(parse_version("abc"), None);
    assert_eq!(parse_version("1.0.x"), None);
}

#[test]
fn test_compare_versions() {
    assert_eq!(compare_versions("1.0.17", "1.0.17"), Some(Ordering::Equal));
    assert_eq!(compare_versions("1.0.17", "1.0.9"), Some(Ordering::Greater));
    assert_eq!(compare_versions("1.0.9", "1.0.17"), Some(Ordering::Less));
    assert_eq!(compare_versions("1.0.17", "1.0"), Some(Ordering::Greater));
    assert_eq!(compare_versions("2.0", "1.9.9"), Some(Ordering::Greater));
    assert_eq!(compare_versions("v1.0.17", "1.0.16"), Some(Ordering::Greater));
    assert_eq!(compare_versions("1.0.17", "x"), None);
}

#[test]
fn test_is_newer_than() {
    assert!(is_newer_than("1.0.18", "1.0.17"));
    assert!(!is_newer_than("1.0.17", "1.0.17"));
    assert!(!is_newer_than("1.0.16", "1.0.17"));
}

#[test]
fn test_newer_versions() {
    let versions = vec![
        SkillVersion {
            version: "1.0.18".into(),
            changelog: "c3".into(),
            changelog_source: "user".into(),
        },
        SkillVersion {
            version: "1.0.17".into(),
            changelog: "c2".into(),
            changelog_source: "user".into(),
        },
        SkillVersion {
            version: "1.0.16".into(),
            changelog: "c1".into(),
            changelog_source: "user".into(),
        },
    ];
    let newer = newer_versions("1.0.17", &versions);
    assert_eq!(newer.len(), 1);
    assert_eq!(newer[0].version, "1.0.18");
    assert!(newer_versions("9.9.9", &versions).is_empty());
}

#[test]
fn test_parse_required_fields() {
    let py = r#"
def validate_push_data(self, push_data):
    if 'authCode' not in push_data:
        return False, "缺少authCode字段"
    msg_content = push_data['msgContent']
    required_fields = ['msgId', 'scheduleTaskId', 'scheduleTaskName', 'summary', 'result', 'content', 'source', 'taskFinishTime']
    for field in required_fields:
        if field not in msg_content[0]:
            return False, f"缺少字段: {field}"
"#;
    let fields = parse_required_fields(py).unwrap();
    assert_eq!(
        fields,
        vec![
            "msgId",
            "scheduleTaskId",
            "scheduleTaskName",
            "summary",
            "result",
            "content",
            "source",
            "taskFinishTime"
        ]
    );
    assert!(parse_required_fields("no such list here").is_none());
    assert!(parse_required_fields("required_fields = []").is_none());
}

#[test]
fn test_check_compatibility_match() {
    // config.json: pushServiceUrl = the default address, max_content_length = 5000,
    // timeout = 30, default_result = "任务已完成"
    let config = Some(SkillConfigFile {
        push_service_url:
            "https://hiboard-claw-drcn.ai.dbankcloud.cn/distribution/message/cloud/claw/msg/upload"
                .into(),
        max_content_length: 5000,
        default_result: "任务已完成".into(),
        timeout: 30,
    });
    let py = "required_fields = ['taskFinishTime', 'msgId', 'content', 'scheduleTaskName', 'summary', 'source', 'result', 'scheduleTaskId']";
    let compat = check_compatibility(&config, py);
    assert!(compat.is_compatible());
    assert!(compat.diffs().is_empty());
}

#[test]
fn test_check_compatibility_diff() {
    // config.json: another address, max_content_length = 10000, timeout = 30
    let config = Some(SkillConfigFile {
        push_service_url: "https://new-domain.example.com/upload".into(),
        max_content_length: 10000,
        default_result: String::new(),
        timeout: 30,
    });
    let py = "required_fields = ['msgId', 'scheduleTaskId', 'summary', 'result', 'content', 'source']";
    let compat = check_compatibility(&config, py);
    assert!(!compat.is_compatible());
    let diffs = compat.diffs();
    assert_eq!(diffs.len(), 3);
    let keys: Vec<_> = diffs.iter().map(|d| d.key).collect();
    assert!(keys.contains(&"service_url"));
    assert!(keys.contains(&"fields"));
    assert!(keys.contains(&"max_length"));
    assert_eq!(compat.fields.matched, Some(false));
}

#[test]
fn test_check_compatibility_unparseable() {
    // "not json" does not parse as config.json
    let compat = check_compatibility(&None, "no required fields here");
    assert!(!compat.is_compatible());
    assert_eq!(compat.service_url.matched, None);
    assert_eq!(compat.fields.matched, None);
    assert_eq!(compat.max_length.matched, None);
}
