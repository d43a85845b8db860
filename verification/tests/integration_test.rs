use hiboard::payload::build_payload;
use hiboard::template::{interpolate, strip_front_matter};
use hiboard::validator::validate_content;

#[test]
fn test_build_payload_fields() {
    let auth_code = "test_auth_code_123";
    let name = "测试任务";
    let content = "# 测试内容\n\n这是 Markdown 正文。";
    let result = "已完成";
    let schedule_id = Some("weekly_test".into());

    let millis = chrono::Utc::now().timestamp_millis();
    let secs = chrono::Utc::now().timestamp();
    let payload = build_payload(auth_code, name, content, result, &schedule_id, millis, secs);
    let msg = &payload.data.msg_content[0];

    assert_eq!(payload.data.auth_code, "test_auth_code_123");
    assert_eq!(msg.schedule_task_name, "测试任务");
    assert_eq!(msg.summary, "测试任务");
    assert_eq!(msg.content, "# 测试内容\n\n这是 Markdown 正文。");
    assert_eq!(msg.result, "已完成");
    assert_eq!(msg.schedule_task_id, "weekly_test");
    assert_eq!(msg.source, "OpenClaw");
    assert!(msg.task_finish_time > 0);
    assert!(msg.msg_id.starts_with("hiboard_"));
}

#[test]
fn test_build_payload_no_schedule_id() {
    let millis = chrono::Utc::now().timestamp_millis();
    let secs = chrono::Utc::now().timestamp();
    let payload = build_payload("code", "任务", "内容", "结果", &None, millis, secs);
    let msg = &payload.data.msg_content[0];
    assert_eq!(msg.schedule_task_id, "");
}

#[test]
fn test_validate_content_valid() {
    validate_content("# 有效内容", "测试任务").unwrap();
}

#[test]
fn test_validate_content_empty_name() {
    let err = validate_content("内容", "").unwrap_err().message();
    assert!(err.contains("名称") || err.contains("empty"));
}

#[test]
fn test_validate_content_empty_content() {
    let err = validate_content("", "任务").unwrap_err().message();
    assert!(err.contains("内容") || err.contains("empty"));
}

#[test]
fn test_validate_content_too_long() {
    let long_content = "x".repeat(5001);
    let err = validate_content(&long_content, "任务").unwrap_err().message();
    assert!(err.contains("5000") || err.contains("长度"));
}

#[test]
fn test_template_interpolation() {
    let template = "# {{project}} 日报\n\n状态: {{status}}";
    let vars = vec![
        ("project".to_string(), "hiboard".to_string()),
        ("status".to_string(), "已完成".to_string()),
    ];
    let result = interpolate(template, &vars);
    assert_eq!(result, "# hiboard 日报\n\n状态: 已完成");
}

#[test]
fn test_template_strip_front_matter() {
    let template = "---\nname: test\ndescription: \"测试\"\n---\n\n# 正文内容";
    let result = strip_front_matter(template);
    assert_eq!(result, "# 正文内容");
}
