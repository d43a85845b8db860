use vstd::prelude::*;
use crate::text::{chars_of, string_of, owned, append_str, all_white, is_blank};
use crate::validator::{validate_content, validate_spec, validation_message};
use crate::payload::{PushPayload, PushResponse, payload_matches, opt_view, build_payload, success_code};
use crate::config::Config;
use crate::version::{SkillVersion, newer_versions, newer_spec};
use crate::compat::{Compatibility, DiffItem};

verus! {

/// Why a command failed.
#[derive(Debug)]
pub enum CliError {
    Config(String),
    Push(String),
    Template(String),
    Keychain(String),
    SkillCheck(String),
}

/// The message shown for an error.
pub open spec fn cli_error_message(e: CliError) -> Seq<char> {
    match e {
        CliError::Config(s) => "配置错误: "@ + s@,
        CliError::Push(s) => "推送错误: "@ + s@,
        CliError::Template(s) => "模板错误: "@ + s@,
        CliError::Keychain(s) => "Keychain 错误: "@ + s@,
        CliError::SkillCheck(s) => "检查更新错误: "@ + s@,
    }
}

fn prefixed(prefix: &str, s: &String) -> (r: String)
    ensures
        r@ == prefix@ + s@,
{
    let mut v = chars_of(prefix);
    append_str(&mut v, s.as_str());
    string_of(&v)
}

impl CliError {
    /// The message shown for this error.
    pub fn message(&self) -> (r: String)
        ensures
            r@ == cli_error_message(*self),
    {
        match self {
            CliError::Config(s) => prefixed("配置错误: ", s),
            CliError::Push(s) => prefixed("推送错误: ", s),
            CliError::Template(s) => prefixed("模板错误: ", s),
            CliError::Keychain(s) => prefixed("Keychain 错误: ", s),
            CliError::SkillCheck(s) => prefixed("检查更新错误: ", s),
        }
    }
}

/// The options of `push`.
pub struct PushArgs {
    pub name: String,
    pub file: Option<String>,
    pub template: Option<String>,
    pub var: Vec<String>,
    pub result: Option<String>,
    pub schedule_id: Option<String>,
    pub dry_run: bool,
}

/// Where the content of a push comes from.
pub enum ContentSource {
    /// A Markdown file at this path.
    File(String),
    /// The template of this name, rendered with the `--var` arguments.
    Template(String),
    /// Standard input.
    Stdin,
}

/// Where the content of a push comes from: a file when one is named,
/// otherwise a template when one is named, otherwise standard input.
pub fn content_source(args: &PushArgs) -> (r: ContentSource)
    ensures
        match args.file {
            Some(f) => r == ContentSource::File(f),
            None => match args.template {
                Some(t) => r == ContentSource::Template(t),
                None => r == ContentSource::Stdin,
            },
        },
{
    match &args.file {
        Some(f) => ContentSource::File(f.clone()),
        None => match &args.template {
            Some(t) => ContentSource::Template(t.clone()),
            None => ContentSource::Stdin,
        },
    }
}

/// What is decided of the content of a push before it is sent.
pub open spec fn check_push_content_spec(content: Seq<char>, name: Seq<char>) -> Result<(), Seq<char>> {
    if all_white(content) {
        Err("内容为空"@)
    } else {
        match validate_spec(content, name) {
            Ok(()) => Ok(()),
            Err(e) => Err(validation_message(e)),
        }
    }
}

/// Checks the content and the task name of a push: blank content is refused
/// first, then the checks of `validate_content` apply.
pub fn check_push_content(content: &str, name: &str) -> (r: Result<(), CliError>)
    ensures
        match check_push_content_spec(content@, name@) {
            Ok(()) => r is Ok,
            Err(m) => r matches Err(CliError::Push(s)) && s@ == m,
        },
{
    if is_blank(content) {
        return Err(CliError::Push(owned("内容为空")));
    }
    match validate_content(content, name) {
        Ok(()) => Ok(()),
        Err(e) => Err(CliError::Push(e.message())),
    }
}

/// The message given when no authorisation code is found.
pub open spec fn missing_auth_message() -> Seq<char> {
    "未找到认证码。请运行 `hiboard config auth` 或设置 HIBOARD_AUTH_CODE 环境变量。"@
}

/// The authorisation code to use: the one in the key chain, else the one in
/// the environment; an error when there is neither.
pub fn select_auth_code(keychain: Option<String>, env: Option<String>) -> (r: Result<String, CliError>)
    ensures
        match (keychain, env) {
            (Some(k), _) => r == Ok::<String, CliError>(k),
            (None, Some(e)) => r == Ok::<String, CliError>(e),
            (None, None) => r matches Err(CliError::Push(s)) && s@ == missing_auth_message(),
        },
{
    match keychain {
        Some(k) => Ok(k),
        None => match env {
            Some(e) => Ok(e),
            None => Err(CliError::Push(owned("未找到认证码。请运行 `hiboard config auth` 或设置 HIBOARD_AUTH_CODE 环境变量。"))),
        },
    }
}

/// The result text of a push: the one given, else the configured default.
pub open spec fn push_result_spec(args: &PushArgs, cfg: &Config) -> Seq<char> {
    match args.result {
        Some(r) => r@,
        None => cfg@.result,
    }
}

/// Builds the request for a checked push sent at `millis` milliseconds and
/// `secs` seconds after the epoch.
pub fn prepare_payload(args: &PushArgs, content: &str, auth_code: &str, cfg: &Config, millis: i64, secs: i64) -> (p: PushPayload)
    ensures
        payload_matches(
            p,
            auth_code@,
            args.name@,
            content@,
            push_result_spec(args, cfg),
            opt_view(args.schedule_id),
            millis,
            secs,
        ),
{
    let result = match &args.result {
        Some(r) => r.clone(),
        None => cfg.defaults.result.clone(),
    };
    build_payload(auth_code, args.name.as_str(), content, result.as_str(), &args.schedule_id, millis, secs)
}

/// What the answer of the service means for the command: accepted, or an
/// error carrying the service's message.
pub fn push_outcome(resp: &PushResponse) -> (r: Result<(), CliError>)
    ensures
        resp.code@ == success_code() ==> r is Ok,
        resp.code@ != success_code() ==> r == Err::<(), CliError>(CliError::Push(resp.message)),
{
    if resp.success() {
        Ok(())
    } else {
        Err(CliError::Push(resp.message.clone()))
    }
}

/// The options of `skill-check`.
pub struct SkillCheckArgs {
    pub registry: String,
    pub synced_version: Option<String>,
    pub mark_synced: bool,
    pub json: bool,
}

/// The version that the reference skill is compared against: the one given,
/// else the one recorded in the configuration.
pub fn skill_check_baseline(args: &SkillCheckArgs, cfg: &Config) -> (r: String)
    ensures
        r@ == match args.synced_version {
            Some(v) => v@,
            None => cfg@.synced_version,
        },
{
    match &args.synced_version {
        Some(v) => v.clone(),
        None => cfg.skill.synced_version.clone(),
    }
}

/// What the registry's list of versions says about updates.
pub struct UpdateCheck {
    /// The newest version (first in the list).
    pub latest: SkillVersion,
    /// The versions newer than the baseline, newest first.
    pub newer: Vec<SkillVersion>,
    /// Whether there is any.
    pub has_update: bool,
}

/// Reads the registry's list of versions (newest first) against `baseline`.
pub fn evaluate_update(baseline: &str, versions: &Vec<SkillVersion>) -> (r: Result<UpdateCheck, CliError>)
    ensures
        versions@.len() == 0 ==> (r matches Err(CliError::SkillCheck(s)) && s@ == "仓库未返回任何版本信息"@),
        versions@.len() > 0 ==> (r matches Ok(u) && u.latest == versions@[0] && u.newer@ == versions@.filter(
            |x: SkillVersion| newer_spec(x.version@, baseline@),
        ) && u.has_update == (u.newer@.len() > 0)),
{
    if versions.len() == 0 {
        return Err(CliError::SkillCheck(owned("仓库未返回任何版本信息")));
    }
    let latest = versions[0].clone();
    let refs = newer_versions(baseline, versions.as_slice());
    let mut newer: Vec<SkillVersion> = Vec::new();
    let mut i: usize = 0;
    while i < refs.len()
        invariant
            i <= refs.len(),
            newer@ == refs@.map_values(|x: &SkillVersion| *x).take(i as int),
        decreases refs.len() - i,
    {
        newer.push(refs[i].clone());
        assert(newer@ =~= refs@.map_values(|x: &SkillVersion| *x).take(i + 1));
        i += 1;
    }
    assert(refs@.map_values(|x: &SkillVersion| *x).take(i as int) =~= refs@.map_values(|x: &SkillVersion| *x));
    let has_update = newer.len() > 0;
    Ok(UpdateCheck { latest, newer, has_update })
}

/// Whether an update is known to keep the payload format: the newest
/// release could be compared and every point agrees.
pub fn update_compatible(compat: &Option<Compatibility>) -> (r: bool)
    ensures
        r == match compat {
            Some(c) => c.service_url.matched == Some(true) && c.fields.matched == Some(true)
                && c.max_length.matched == Some(true),
            None => false,
        },
{
    match compat {
        Some(c) => c.is_compatible(),
        None => false,
    }
}

/// Records `latest` as the version this tool is in line with.
pub fn mark_synced(cfg: &mut Config, latest: &SkillVersion)
    ensures
        final(cfg)@ == (crate::config::ConfigView { synced_version: latest.version@, ..old(cfg)@ }),
{
    cfg.skill.synced_version = latest.version.clone();
}

} // verus!

verus! {

/// The view of one point of comparison.
pub type DiffView = (Seq<char>, Option<bool>, Seq<char>, Seq<char>);

/// The three report lines of one point that needs attention: a point that
/// disagrees is marked `不一致`, one that could not be checked `无法验证`.
pub open spec fn diff_lines(d: DiffView) -> Seq<Seq<char>> {
    let head = if d.1 == Some(false) {
        "⚠️ 不一致"@
    } else {
        "❓ 无法验证"@
    };
    seq![head + "："@ + d.0, "     skill 最新版: "@ + d.2, "     hwpush 当前值: "@ + d.3]
}

/// The report lines of the points that need attention, in order.
pub open spec fn diff_block(ds: Seq<DiffView>) -> Seq<Seq<char>>
    decreases ds.len(),
{
    if ds.len() == 0 {
        Seq::empty()
    } else {
        diff_block(ds.drop_last()) + diff_lines(ds.last())
    }
}

/// The report lines of one newer version: its number, a rule, its release
/// notes trimmed (or `（无更新说明）` when there are none) and an empty line.
pub open spec fn version_lines(v: SkillVersion) -> Seq<Seq<char>> {
    let notes = crate::text::trim_spec(v.changelog@);
    seq![
        "📦 v"@ + v.version@,
        "------------------------------"@,
        if notes.len() == 0 { "（无更新说明）"@ } else { notes },
        Seq::<char>::empty(),
    ]
}

/// The report lines of the newer versions, in order.
pub open spec fn newer_block(vs: Seq<SkillVersion>) -> Seq<Seq<char>>
    decreases vs.len(),
{
    if vs.len() == 0 {
        Seq::empty()
    } else {
        newer_block(vs.drop_last()) + version_lines(vs.last())
    }
}

/// The points of a comparison that need attention.
pub open spec fn attention(c: Compatibility) -> Seq<DiffView> {
    seq![c.service_url@, c.fields@, c.max_length@].filter(|d: DiffView| d.1 != Some(true))
}

/// Every point agrees.
pub open spec fn all_agree(c: Compatibility) -> bool {
    c.service_url.matched == Some(true) && c.fields.matched == Some(true) && c.max_length.matched
        == Some(true)
}

/// The text report of `skill-check`, line by line.
pub open spec fn report_spec(
    registry: Seq<char>,
    baseline: Seq<char>,
    u: UpdateCheck,
    compat: Option<Compatibility>,
    mark_synced: bool,
) -> Seq<Seq<char>> {
    let latest = u.latest.version@;
    let header = seq![
        "🔍 检查 "@ + crate::compat::SKILL_SLUG@ + " 更新（仓库: "@ + registry + "）"@,
        "   当前同步版本: v"@ + baseline,
        "   仓库最新版本: v"@ + latest,
    ];
    let body = if u.has_update {
        match compat {
            Some(c) => if all_agree(c) {
                seq!["✅ 有更新（v"@ + baseline + " → v"@ + latest + "），但负载格式与 hwpush 完全兼容，无需修改代码"@]
            } else {
                seq!["🚨 检测到需要关注的变更：v"@ + baseline + " → v"@ + latest, Seq::<char>::empty()]
                    + diff_block(attention(c)) + seq![Seq::<char>::empty()] + newer_block(u.newer@)
                    + seq!["提示：修改 hwpush 实现后，可运行 `hwpush skill-check --mark-synced` 记录已同步版本"@]
            },
            None => seq![
                "ℹ️ 有更新（v"@ + baseline + " → v"@ + latest + "），但无法验证格式兼容性（拉取文件失败），请手动核对"@,
                Seq::<char>::empty(),
            ] + newer_block(u.newer@),
        }
    } else {
        seq!["✅ 已是最新版本，无更新"@]
    };
    let footer = if mark_synced {
        seq!["已记录已同步版本：v"@ + latest + "（写入配置）"@]
    } else {
        Seq::<Seq<char>>::empty()
    };
    header + body + footer
}

} // verus!

verus! {

fn text2(a: &str, b: &str) -> (r: String)
    ensures
        r@ == a@ + b@,
{
    let mut v = chars_of(a);
    append_str(&mut v, b);
    string_of(&v)
}

fn text3(a: &str, b: &str, c: &str) -> (r: String)
    ensures
        r@ == a@ + b@ + c@,
{
    let mut v = chars_of(a);
    append_str(&mut v, b);
    append_str(&mut v, c);
    string_of(&v)
}

fn text5(a: &str, b: &str, c: &str, d: &str, e: &str) -> (r: String)
    ensures
        r@ == a@ + b@ + c@ + d@ + e@,
{
    let mut v = chars_of(a);
    append_str(&mut v, b);
    append_str(&mut v, c);
    append_str(&mut v, d);
    append_str(&mut v, e);
    string_of(&v)
}

fn push_text(lines: &mut Vec<String>, s: String)
    ensures
        crate::text::string_views(final(lines)@) == crate::text::string_views(old(lines)@).push(s@),
{
    let ghost before = lines@;
    lines.push(s);
    assert(crate::text::string_views(lines@) =~= crate::text::string_views(before).push(s@));
}

/// Appends the report lines of the points that need attention.
fn push_diff_lines(lines: &mut Vec<String>, c: &Compatibility)
    ensures
        crate::text::string_views(final(lines)@) == crate::text::string_views(old(lines)@) + diff_block(
            attention(*c),
        ),
{
    let ds = c.diffs();
    let ghost dv = ds@.map_values(|d: &DiffItem| d@);
    let ghost pre = crate::text::string_views(lines@);
    assert(dv == attention(*c));
    let mut i: usize = 0;
    assert(dv.take(0) =~= Seq::<DiffView>::empty());
    assert(pre + diff_block(Seq::<DiffView>::empty()) =~= pre);
    while i < ds.len()
        invariant
            i <= ds.len(),
            dv == ds@.map_values(|d: &DiffItem| d@),
            crate::text::string_views(lines@) == pre + diff_block(dv.take(i as int)),
        decreases ds.len() - i,
    {
        let d = ds[i];
        assert(dv.take(i + 1).drop_last() =~= dv.take(i as int));
        assert(dv.take(i + 1).last() == d@);
        let head: &str = match d.matched {
            Some(false) => "⚠️ 不一致",
            _ => "❓ 无法验证",
        };
        let ghost l = diff_lines(d@);
        push_text(lines, text3(head, "：", d.key));
        push_text(lines, text2("     skill 最新版: ", d.skill_value.as_str()));
        push_text(lines, text2("     hwpush 当前值: ", d.hwpush_value.as_str()));
        assert(pre + diff_block(dv.take(i + 1)) =~= pre + diff_block(dv.take(i as int)) + l);
        assert(pre + diff_block(dv.take(i as int)) + l =~= pre + diff_block(dv.take(i as int)).push(l[0]).push(l[1]).push(l[2]));
        i += 1;
    }
    assert(dv.take(i as int) =~= dv);
}

/// Appends the report lines of the newer versions.
fn push_newer_lines(lines: &mut Vec<String>, newer: &Vec<SkillVersion>)
    ensures
        crate::text::string_views(final(lines)@) == crate::text::string_views(old(lines)@) + newer_block(newer@),
{
    let ghost pre = crate::text::string_views(lines@);
    let mut i: usize = 0;
    assert(newer@.take(0) =~= Seq::<SkillVersion>::empty());
    assert(pre + newer_block(Seq::<SkillVersion>::empty()) =~= pre);
    while i < newer.len()
        invariant
            i <= newer.len(),
            crate::text::string_views(lines@) == pre + newer_block(newer@.take(i as int)),
        decreases newer.len() - i,
    {
        let v = &newer[i];
        assert(newer@.take(i + 1).drop_last() =~= newer@.take(i as int));
        assert(newer@.take(i + 1).last() == *v);
        let ghost l = version_lines(*v);
        push_text(lines, text2("📦 v", v.version.as_str()));
        push_text(lines, owned("------------------------------"));
        let notes = crate::text::trim_chars(&chars_of(v.changelog.as_str()));
        if notes.len() == 0 {
            push_text(lines, owned("（无更新说明）"));
        } else {
            push_text(lines, string_of(&notes));
        }
        push_text(lines, String::new());
        assert(pre + newer_block(newer@.take(i + 1)) =~= pre + newer_block(newer@.take(i as int)) + l);
        assert(pre + newer_block(newer@.take(i as int)) + l =~= pre + newer_block(newer@.take(i as int)).push(l[0]).push(l[1]).push(l[2]).push(l[3]));
        i += 1;
    }
    assert(newer@.take(i as int) =~= newer@);
}

/// The text report of `skill-check`, line by line: the versions compared,
/// then whether there is an update and, for one that needs attention, the
/// points that disagree or could not be checked and the release notes of
/// the newer versions, then whether the version was recorded.
pub fn skill_check_report(
    registry: &str,
    baseline: &str,
    u: &UpdateCheck,
    compat: &Option<Compatibility>,
    mark_synced: bool,
) -> (r: Vec<String>)
    ensures
        crate::text::string_views(r@) == report_spec(registry@, baseline@, *u, *compat, mark_synced),
{
    let latest = u.latest.version.as_str();
    let mut lines: Vec<String> = Vec::new();
    push_text(&mut lines, text5("🔍 检查 ", crate::compat::SKILL_SLUG, " 更新（仓库: ", registry, "）"));
    push_text(&mut lines, text2("   当前同步版本: v", baseline));
    push_text(&mut lines, text2("   仓库最新版本: v", latest));
    if u.has_update {
        match compat {
            Some(c) => {
                if c.is_compatible() {
                    push_text(&mut lines, text5("✅ 有更新（v", baseline, " → v", latest, "），但负载格式与 hwpush 完全兼容，无需修改代码"));
                } else {
                    let mut first = chars_of("🚨 检测到需要关注的变更：v");
                    append_str(&mut first, baseline);
                    append_str(&mut first, " → v");
                    append_str(&mut first, latest);
                    push_text(&mut lines, string_of(&first));
                    push_text(&mut lines, String::new());
                    push_diff_lines(&mut lines, c);
                    push_text(&mut lines, String::new());
                    push_newer_lines(&mut lines, &u.newer);
                    push_text(&mut lines, owned("提示：修改 hwpush 实现后，可运行 `hwpush skill-check --mark-synced` 记录已同步版本"));
                }
            },
            None => {
                push_text(&mut lines, text5("ℹ️ 有更新（v", baseline, " → v", latest, "），但无法验证格式兼容性（拉取文件失败），请手动核对"));
                push_text(&mut lines, String::new());
                push_newer_lines(&mut lines, &u.newer);
            },
        }
    } else {
        push_text(&mut lines, owned("✅ 已是最新版本，无更新"));
    }
    if mark_synced {
        push_text(&mut lines, text3("已记录已同步版本：v", latest, "（写入配置）"));
    }
    proof {
        let spec = report_spec(registry@, baseline@, *u, *compat, mark_synced);
        assert(crate::text::string_views(lines@) =~= spec);
    }
    lines
}

} // verus!

verus! {

/// The `compatible` field of the JSON report: whether the update keeps the
/// payload format, given only when there is an update.
pub fn compatible_field(u: &UpdateCheck, compat: &Option<Compatibility>) -> (r: Option<bool>)
    ensures
        r == (if u.has_update {
            Some(
                match compat {
                    Some(c) => all_agree(*c),
                    None => false,
                },
            )
        } else {
            None
        }),
{
    if u.has_update {
        Some(update_compatible(compat))
    } else {
        None
    }
}

/// Where a push stands between two steps of outside work.
pub enum PushState {
    /// Nothing done yet.
    Start,
    /// The content is being read.
    AwaitContent,
    /// The content is checked; the key chain is being asked for the code.
    AwaitKeychain { content: String },
    /// The key chain had no code; the environment is being asked.
    AwaitEnv { content: String },
    /// The code is known; the clock is being read.
    AwaitClock { content: String, auth_code: String },
    /// A dry run's request is being shown.
    AwaitPrinted,
    /// The request is being sent.
    AwaitSent,
    /// The answer is being recorded in the history.
    AwaitRecorded { response: PushResponse },
    /// The answer is being shown.
    AwaitReported { response: PushResponse },
    /// The push is over.
    Done,
}

/// What the outside work of a push step gave.
pub enum PushEvent {
    /// The push starts.
    Begin,
    /// The content that was read.
    ContentRead(String),
    /// The code in the key chain, if any.
    Keychain(Option<String>),
    /// The code in the environment (`HIBOARD_AUTH_CODE`), if any.
    Env(Option<String>),
    /// The clock, in milliseconds and in seconds after the epoch.
    Clock(i64, i64),
    /// The dry run's request was shown.
    Printed,
    /// The service's answer, or why sending failed.
    Sent(Result<PushResponse, String>),
    /// The history was written to (whether or not that worked).
    Recorded,
    /// The answer was shown.
    Reported,
}

/// The outside work that a push step asks for.
pub enum PushAction {
    ReadContent(ContentSource),
    ReadKeychain,
    ReadEnv,
    ReadClock,
    PrintDryRun(PushPayload),
    Send(PushPayload),
    Record { task_name: String, task_id: String, code: String },
    Report(PushResponse),
    Finish(Result<(), CliError>),
}

/// The events that a push waits for in each state.
pub open spec fn push_expects(state: PushState, event: PushEvent) -> bool {
    match (state, event) {
        (PushState::Start, PushEvent::Begin) => true,
        (PushState::AwaitContent, PushEvent::ContentRead(_)) => true,
        (PushState::AwaitKeychain { .. }, PushEvent::Keychain(_)) => true,
        (PushState::AwaitEnv { .. }, PushEvent::Env(_)) => true,
        (PushState::AwaitClock { .. }, PushEvent::Clock(_, _)) => true,
        (PushState::AwaitPrinted, PushEvent::Printed) => true,
        (PushState::AwaitSent, PushEvent::Sent(_)) => true,
        (PushState::AwaitRecorded { .. }, PushEvent::Recorded) => true,
        (PushState::AwaitReported { .. }, PushEvent::Reported) => true,
        _ => false,
    }
}

/// Whether a push waits for `event` in `state`.
pub fn push_expects_exec(state: &PushState, event: &PushEvent) -> (r: bool)
    ensures
        r == push_expects(*state, *event),
{
    match (state, event) {
        (PushState::Start, PushEvent::Begin) => true,
        (PushState::AwaitContent, PushEvent::ContentRead(_)) => true,
        (PushState::AwaitKeychain { .. }, PushEvent::Keychain(_)) => true,
        (PushState::AwaitEnv { .. }, PushEvent::Env(_)) => true,
        (PushState::AwaitClock { .. }, PushEvent::Clock(_, _)) => true,
        (PushState::AwaitPrinted, PushEvent::Printed) => true,
        (PushState::AwaitSent, PushEvent::Sent(_)) => true,
        (PushState::AwaitRecorded { .. }, PushEvent::Recorded) => true,
        (PushState::AwaitReported { .. }, PushEvent::Reported) => true,
        _ => false,
    }
}

/// The history's task id of a push: its schedule id, or nothing.
pub open spec fn task_id_spec(args: &PushArgs) -> Seq<char> {
    match args.schedule_id {
        Some(s) => s@,
        None => Seq::<char>::empty(),
    }
}

/// What one step of `push` gives from `state` and `event`: see `push_step`.
pub open spec fn push_step_rel(args: &PushArgs, cfg: &Config, state: PushState, event: PushEvent, r: (PushState, PushAction)) -> bool {
    match (state, event) {
        (PushState::Start, PushEvent::Begin) => r.0 == PushState::AwaitContent && (match args.file {
            Some(f) => r.1 == PushAction::ReadContent(ContentSource::File(f)),
            None => match args.template {
                Some(t) => r.1 == PushAction::ReadContent(ContentSource::Template(t)),
                None => r.1 == PushAction::ReadContent(ContentSource::Stdin),
            },
        }),
        (PushState::AwaitContent, PushEvent::ContentRead(c)) => match check_push_content_spec(c@, args.name@) {
            Ok(()) => r == (PushState::AwaitKeychain { content: c }, PushAction::ReadKeychain),
            Err(m) => r.0 == PushState::Done && (r.1 matches PushAction::Finish(Err(CliError::Push(s))) && s@ == m),
        },
        (PushState::AwaitKeychain { content }, PushEvent::Keychain(k)) => match k {
            Some(code) => r == (PushState::AwaitClock { content, auth_code: code }, PushAction::ReadClock),
            None => r == (PushState::AwaitEnv { content }, PushAction::ReadEnv),
        },
        (PushState::AwaitEnv { content }, PushEvent::Env(e)) => match e {
            Some(code) => r == (PushState::AwaitClock { content, auth_code: code }, PushAction::ReadClock),
            None => r.0 == PushState::Done && (r.1 matches PushAction::Finish(Err(CliError::Push(s)))
                && s@ == missing_auth_message()),
        },
        (PushState::AwaitClock { content, auth_code }, PushEvent::Clock(millis, secs)) => {
            &&& r.0 == (if args.dry_run { PushState::AwaitPrinted } else { PushState::AwaitSent })
            &&& match r.1 {
                PushAction::PrintDryRun(p) => args.dry_run && payload_matches(p, auth_code@, args.name@, content@,
                    push_result_spec(args, cfg), opt_view(args.schedule_id), millis, secs),
                PushAction::Send(p) => !args.dry_run && payload_matches(p, auth_code@, args.name@, content@,
                    push_result_spec(args, cfg), opt_view(args.schedule_id), millis, secs),
                _ => false,
            }
        },
        (PushState::AwaitPrinted, PushEvent::Printed) => r == (PushState::Done, PushAction::Finish(Ok(()))),
        (PushState::AwaitSent, PushEvent::Sent(res)) => match res {
            Err(e) => r == (PushState::Done, PushAction::Finish(Err(CliError::Push(e)))),
            Ok(resp) => r.0 == (PushState::AwaitRecorded { response: resp }) && (r.1 matches PushAction::Record {
                task_name,
                task_id,
                code,
            } && task_name@ == args.name@ && task_id@ == task_id_spec(args) && code@ == resp.code@),
        },
        (PushState::AwaitRecorded { response }, PushEvent::Recorded) => r == (
            PushState::AwaitReported { response },
            PushAction::Report(response),
        ),
        (PushState::AwaitReported { response }, PushEvent::Reported) => r.0 == PushState::Done && (
        r.1 matches PushAction::Finish(out) && (response.code@ == success_code() ==> out is Ok) && (
        response.code@ != success_code() ==> out == Err::<(), CliError>(CliError::Push(response.message)))),
        _ => false,
    }
}

/// One step of `push`: from the state and what the last outside work gave,
/// the next state and the outside work to do. The content is checked before
/// the key chain is asked; the environment is asked only when the key chain
/// has no code; a dry run shows the request and sends nothing; a sent
/// request's answer is recorded, then shown, then decides the outcome.
pub fn push_step(args: &PushArgs, cfg: &Config, state: PushState, event: PushEvent) -> (r: (PushState, PushAction))
    requires
        push_expects(state, event),
    ensures
        push_step_rel(args, cfg, state, event, r),
{
    match state {
        PushState::Start => (PushState::AwaitContent, PushAction::ReadContent(content_source(args))),
        PushState::AwaitContent => match event {
            PushEvent::ContentRead(c) => match check_push_content(c.as_str(), args.name.as_str()) {
                Ok(()) => (PushState::AwaitKeychain { content: c }, PushAction::ReadKeychain),
                Err(e) => (PushState::Done, PushAction::Finish(Err(e))),
            },
            _ => (PushState::Done, PushAction::Finish(Ok(()))),
        },
        PushState::AwaitKeychain { content } => match event {
            PushEvent::Keychain(Some(code)) => (PushState::AwaitClock { content, auth_code: code }, PushAction::ReadClock),
            _ => (PushState::AwaitEnv { content }, PushAction::ReadEnv),
        },
        PushState::AwaitEnv { content } => match event {
            PushEvent::Env(env) => match select_auth_code(None, env) {
                Ok(code) => (PushState::AwaitClock { content, auth_code: code }, PushAction::ReadClock),
                Err(e) => (PushState::Done, PushAction::Finish(Err(e))),
            },
            _ => (PushState::Done, PushAction::Finish(Ok(()))),
        },
        PushState::AwaitClock { content, auth_code } => match event {
            PushEvent::Clock(millis, secs) => {
                let p = prepare_payload(args, content.as_str(), auth_code.as_str(), cfg, millis, secs);
                if args.dry_run {
                    (PushState::AwaitPrinted, PushAction::PrintDryRun(p))
                } else {
                    (PushState::AwaitSent, PushAction::Send(p))
                }
            },
            _ => (PushState::Done, PushAction::Finish(Ok(()))),
        },
        PushState::AwaitPrinted => (PushState::Done, PushAction::Finish(Ok(()))),
        PushState::AwaitSent => match event {
            PushEvent::Sent(Err(e)) => (PushState::Done, PushAction::Finish(Err(CliError::Push(e)))),
            PushEvent::Sent(Ok(resp)) => {
                let task_id = match &args.schedule_id {
                    Some(s) => s.clone(),
                    None => String::new(),
                };
                let code = resp.code.clone();
                (
                    PushState::AwaitRecorded { response: resp },
                    PushAction::Record { task_name: args.name.clone(), task_id, code },
                )
            },
            _ => (PushState::Done, PushAction::Finish(Ok(()))),
        },
        PushState::AwaitRecorded { response } => {
            let shown = response.clone();
            (PushState::AwaitReported { response }, PushAction::Report(shown))
        },
        PushState::AwaitReported { response } => {
            let out = push_outcome(&response);
            (PushState::Done, PushAction::Finish(out))
        },
        PushState::Done => (PushState::Done, PushAction::Finish(Ok(()))),
    }
}

/// The states of a push that come before any request is sent.
pub open spec fn before_send(state: PushState) -> bool {
    !(state is AwaitSent || state is AwaitRecorded || state is AwaitReported)
}

/// A dry run sends nothing and records nothing: from a state before any
/// request, a step of a dry run stays before any request and asks neither
/// to send nor to record.
pub proof fn lemma_dry_run_sends_nothing(
    args: &PushArgs,
    cfg: &Config,
    state: PushState,
    event: PushEvent,
    r: (PushState, PushAction),
)
    requires
        args.dry_run,
        before_send(state),
        push_expects(state, event),
        push_step_rel(args, cfg, state, event, r),
    ensures
        before_send(r.0),
        !(r.1 is Send),
        !(r.1 is Record),
{
}

/// The order of a push: the key chain is asked only once the content has
/// passed its check, and the history is written only for the answer to a
/// request that was sent.
pub proof fn lemma_push_order(
    args: &PushArgs,
    cfg: &Config,
    state: PushState,
    event: PushEvent,
    r: (PushState, PushAction),
)
    requires
        push_expects(state, event),
        push_step_rel(args, cfg, state, event, r),
    ensures
        r.1 is ReadKeychain ==> (state is AwaitContent && (event matches PushEvent::ContentRead(c)
            && check_push_content_spec(c@, args.name@) is Ok)),
        r.1 is Record ==> (state is AwaitSent && (event matches PushEvent::Sent(Ok(_)))),
        r.1 is Send ==> !args.dry_run,
{
}

} // verus!

verus! {

/// The line of the report that says there is no update.
pub open spec fn up_to_date_line() -> Seq<char> {
    "✅ 已是最新版本，无更新"@
}

/// After the three header lines, `skill-check` says "no update" exactly when
/// no newer version exists; when one exists and every point agrees, that
/// line calls the update compatible and names the baseline and the newest
/// version.
pub proof fn lemma_report_verdict(
    registry: Seq<char>,
    baseline: Seq<char>,
    u: UpdateCheck,
    compat: Option<Compatibility>,
    mark_synced: bool,
)
    ensures
        report_spec(registry, baseline, u, compat, mark_synced).len() >= 4,
        report_spec(registry, baseline, u, compat, mark_synced)[3] == up_to_date_line() <==> !u.has_update,
        u.has_update && compat is Some && all_agree(compat->0) ==> report_spec(
            registry,
            baseline,
            u,
            compat,
            mark_synced,
        )[3] == "✅ 有更新（v"@ + baseline + " → v"@ + u.latest.version@
            + "），但负载格式与 hwpush 完全兼容，无需修改代码"@,
        u.has_update && compat is Some && !all_agree(compat->0) ==> report_spec(
            registry,
            baseline,
            u,
            compat,
            mark_synced,
        )[3] == "🚨 检测到需要关注的变更：v"@ + baseline + " → v"@ + u.latest.version@,
        u.has_update && compat is None ==> report_spec(registry, baseline, u, compat, mark_synced)[3]
            == "ℹ️ 有更新（v"@ + baseline + " → v"@ + u.latest.version@
            + "），但无法验证格式兼容性（拉取文件失败），请手动核对"@,
        report_spec(registry, baseline, u, compat, mark_synced)[1] == "   当前同步版本: v"@ + baseline,
        report_spec(registry, baseline, u, compat, mark_synced)[2] == "   仓库最新版本: v"@ + u.latest.version@,
        mark_synced ==> report_spec(registry, baseline, u, compat, mark_synced).last() == "已记录已同步版本：v"@
            + u.latest.version@ + "（写入配置）"@,
{
    let r = report_spec(registry, baseline, u, compat, mark_synced);
    let latest = u.latest.version@;
    reveal_strlit("✅ 已是最新版本，无更新");
    reveal_strlit("✅ 有更新（v");
    reveal_strlit("🚨 检测到需要关注的变更：v");
    reveal_strlit("ℹ️ 有更新（v");
    let l = r[3];
    if u.has_update {
        match compat {
            Some(c) => {
                if all_agree(c) {
                    let a = "✅ 有更新（v"@ + baseline + " → v"@ + latest
                        + "），但负载格式与 hwpush 完全兼容，无需修改代码"@;
                    assert(l == a);
                    assert(a[2] == '有');
                    assert(up_to_date_line()[2] == '已');
                } else {
                    let a = "🚨 检测到需要关注的变更：v"@ + baseline + " → v"@ + latest;
                    assert(l == a);
                    assert(a[0] == '🚨');
                    assert(up_to_date_line()[0] == '✅');
                }
            },
            None => {
                let a = "ℹ️ 有更新（v"@ + baseline + " → v"@ + latest
                    + "），但无法验证格式兼容性（拉取文件失败），请手动核对"@;
                assert(l == a);
                assert(a[0] == 'ℹ');
                assert(up_to_date_line()[0] == '✅');
            },
        }
    }
}

} // verus!
