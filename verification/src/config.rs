use vstd::prelude::*;
use crate::text::{chars_of, string_of, owned, append_str, chars_equal};
use crate::num::{parse_u64_spec, parse_u64_chars};

verus! {

/// Push service settings.
pub struct PushConfig {
    pub service_url: String,
    pub timeout_secs: u64,
    pub retry_count: u32,
    pub dry_run: bool,
}

/// Values used when a push request leaves them out.
pub struct DefaultsConfig {
    pub result: String,
    pub source: String,
}

/// Where the push history is kept.
pub struct StorageConfig {
    pub history_db_path: String,
}

/// The reference skill release that this tool was last brought in line with.
pub struct SkillConfig {
    pub synced_version: String,
}

/// The whole configuration (`config.toml`).
pub struct Config {
    pub push: PushConfig,
    pub defaults: DefaultsConfig,
    pub storage: StorageConfig,
    pub skill: SkillConfig,
}

/// The configuration as plain values.
pub struct ConfigView {
    pub service_url: Seq<char>,
    pub timeout_secs: u64,
    pub retry_count: u32,
    pub dry_run: bool,
    pub result: Seq<char>,
    pub source: Seq<char>,
    pub history_db_path: Seq<char>,
    pub synced_version: Seq<char>,
}

impl View for Config {
    type V = ConfigView;

    open spec fn view(&self) -> ConfigView {
        ConfigView {
            service_url: self.push.service_url@,
            timeout_secs: self.push.timeout_secs,
            retry_count: self.push.retry_count,
            dry_run: self.push.dry_run,
            result: self.defaults.result@,
            source: self.defaults.source@,
            history_db_path: self.storage.history_db_path@,
            synced_version: self.skill.synced_version@,
        }
    }
}

/// The default push service address.
pub const DEFAULT_SERVICE_URL: &'static str = "https://hiboard-claw-drcn.ai.dbankcloud.cn/distribution/message/cloud/claw/msg/upload";

/// The time-out used when none is configured, in seconds.
pub fn default_timeout() -> (r: u64)
    ensures
        r == 30,
{
    30
}

/// The number of attempts used when none is configured.
pub fn default_retry() -> (r: u32)
    ensures
        r == 3,
{
    3
}

/// The result text used when none is configured.
pub fn default_result() -> (r: String)
    ensures
        r@ == "任务已完成"@,
{
    owned("任务已完成")
}

/// The message source used when none is configured.
pub fn default_source() -> (r: String)
    ensures
        r@ == "OpenClaw"@,
{
    owned("OpenClaw")
}

impl Default for PushConfig {
    fn default() -> (r: Self)
        ensures
            r.service_url@ == DEFAULT_SERVICE_URL@,
            r.timeout_secs == 30,
            r.retry_count == 3,
            r.dry_run == false,
    {
        PushConfig {
            service_url: owned(DEFAULT_SERVICE_URL),
            timeout_secs: default_timeout(),
            retry_count: default_retry(),
            dry_run: false,
        }
    }
}

impl Default for DefaultsConfig {
    fn default() -> (r: Self)
        ensures
            r.result@ == "任务已完成"@,
            r.source@ == "OpenClaw"@,
    {
        DefaultsConfig { result: default_result(), source: default_source() }
    }
}

impl Default for SkillConfig {
    fn default() -> (r: Self)
        ensures
            r.synced_version@ == Seq::<char>::empty(),
    {
        SkillConfig { synced_version: String::new() }
    }
}

/// The bytes of a text in UTF-8.
pub open spec fn utf8_of(s: Seq<char>) -> Seq<u8> {
    vstd::utf8::encode_utf8(s)
}

/// The bytes of `s`.
pub fn bytes_of(s: &str) -> (v: Vec<u8>)
    ensures
        v@ == utf8_of(s@),
{
    let b = s.as_bytes();
    let mut v: Vec<u8> = Vec::new();
    let mut i: usize = 0;
    while i < b.len()
        invariant
            i <= b@.len(),
            b@ == utf8_of(s@),
            v@ == b@.take(i as int),
        decreases b@.len() - i,
    {
        v.push(b[i]);
        assert(b@.take(i + 1) =~= b@.take(i as int).push(b@[i as int]));
        i += 1;
    }
    assert(b@.take(i as int) =~= b@);
    v
}

/// `comp` appended to the path `base` (both as bytes) as `PathBuf::push`
/// does for a relative component on Unix: a `/` goes between them unless
/// `base` is empty or already ends with one.
pub open spec fn join_path(base: Seq<u8>, comp: Seq<u8>) -> Seq<u8> {
    if base.len() == 0 || base.last() == 47u8 {
        base + comp
    } else {
        base + seq![47u8] + comp
    }
}

/// Appends the relative path component `comp` to `base`.
pub fn join_path_exec(base: &Vec<u8>, comp: &str) -> (r: Vec<u8>)
    ensures
        r@ == join_path(base@, utf8_of(comp@)),
{
    let mut v = base.clone();
    if v.len() > 0 && v[v.len() - 1] != 47u8 {
        v.push(47u8);
    }
    let mut c = bytes_of(comp);
    v.append(&mut c);
    v
}

/// A directory found in the environment, or `fallback` when there is none.
pub open spec fn base_or(dir: Option<Vec<u8>>, fallback: Seq<char>) -> Seq<u8> {
    match dir {
        Some(d) => d@,
        None => utf8_of(fallback),
    }
}

fn base_or_exec(dir: Option<Vec<u8>>, fallback: &str) -> (r: Vec<u8>)
    ensures
        r@ == base_or(dir, fallback@),
{
    match dir {
        Some(d) => d,
        None => bytes_of(fallback),
    }
}

/// The configuration file under the configuration directory `config_dir`.
pub open spec fn config_path_spec(config_dir: Option<Vec<u8>>) -> Seq<u8> {
    join_path(join_path(base_or(config_dir, "~/.config"@), utf8_of("hiboard"@)), utf8_of("config.toml"@))
}

/// The template directory under the configuration directory `config_dir`.
pub open spec fn template_dir_spec(config_dir: Option<Vec<u8>>) -> Seq<u8> {
    join_path(join_path(base_or(config_dir, "~/.config"@), utf8_of("hiboard"@)), utf8_of("templates"@))
}

/// The storage directory under the local data directory `data_dir`.
pub open spec fn storage_dir_spec(data_dir: Option<Vec<u8>>) -> Seq<u8> {
    join_path(base_or(data_dir, "~/.local/share"@), utf8_of("hiboard"@))
}

/// The history database under the local data directory `data_dir`.
pub open spec fn db_path_spec(data_dir: Option<Vec<u8>>) -> Seq<u8> {
    join_path(storage_dir_spec(data_dir), utf8_of("history.db"@))
}

/// The configuration file for the given configuration directory.
pub fn config_path_in(config_dir: Option<Vec<u8>>) -> (r: Vec<u8>)
    ensures
        r@ == config_path_spec(config_dir),
{
    let base = base_or_exec(config_dir, "~/.config");
    join_path_exec(&join_path_exec(&base, "hiboard"), "config.toml")
}

/// The template directory for the given configuration directory.
pub fn template_dir_in(config_dir: Option<Vec<u8>>) -> (r: Vec<u8>)
    ensures
        r@ == template_dir_spec(config_dir),
{
    let base = base_or_exec(config_dir, "~/.config");
    join_path_exec(&join_path_exec(&base, "hiboard"), "templates")
}

/// The storage directory for the given local data directory.
pub fn storage_dir_in(data_dir: Option<Vec<u8>>) -> (r: Vec<u8>)
    ensures
        r@ == storage_dir_spec(data_dir),
{
    let base = base_or_exec(data_dir, "~/.local/share");
    join_path_exec(&base, "hiboard")
}

/// The history database for the given local data directory.
pub fn db_path_in(data_dir: Option<Vec<u8>>) -> (r: Vec<u8>)
    ensures
        r@ == db_path_spec(data_dir),
{
    join_path_exec(&storage_dir_in(data_dir), "history.db")
}

/// The configuration file (`~/.config/hiboard/config.toml` on Linux), as the
/// bytes of the path.
pub fn default_config_path() -> (r: Vec<u8>)
    ensures
        exists|d: Option<Vec<u8>>| r@ == #[trigger] config_path_spec(d),
{
    config_path_in(crate::system::config_dir())
}

/// The directory of the user's templates, as the bytes of the path.
pub fn default_template_dir() -> (r: Vec<u8>)
    ensures
        exists|d: Option<Vec<u8>>| r@ == #[trigger] template_dir_spec(d),
{
    template_dir_in(crate::system::config_dir())
}

/// The directory of the push history, as the bytes of the path.
pub fn default_storage_dir() -> (r: Vec<u8>)
    ensures
        exists|d: Option<Vec<u8>>| r@ == #[trigger] storage_dir_spec(d),
{
    storage_dir_in(crate::system::data_local_dir())
}

/// The history database path kept in the configuration is text: where the
/// path's bytes are valid UTF-8, it is that text.
pub open spec fn db_text_matches(text: Seq<char>, data_dir: Option<Vec<u8>>) -> bool {
    vstd::utf8::valid_utf8(db_path_spec(data_dir)) ==> text == vstd::utf8::decode_utf8(
        db_path_spec(data_dir),
    )
}

impl StorageConfig {
    /// The default history database for the given local data directory.
    pub fn with_data_dir(data_dir: Option<Vec<u8>>) -> (r: Self)
        ensures
            r.history_db_path@ == crate::system::lossy_text(db_path_spec(data_dir)),
            db_text_matches(r.history_db_path@, data_dir),
    {
        let path = db_path_in(data_dir);
        StorageConfig { history_db_path: crate::system::utf8_lossy(&path) }
    }
}

impl Default for StorageConfig {
    fn default() -> (r: Self)
        ensures
            exists|d: Option<Vec<u8>>|
                r.history_db_path@ == crate::system::lossy_text(#[trigger] db_path_spec(d))
                    && db_text_matches(r.history_db_path@, d),
    {
        StorageConfig::with_data_dir(crate::system::data_local_dir())
    }
}

impl Default for Config {
    fn default() -> (r: Self)
        ensures
            r@.service_url == DEFAULT_SERVICE_URL@,
            r@.timeout_secs == 30,
            r@.retry_count == 3,
            r@.dry_run == false,
            r@.result == "任务已完成"@,
            r@.source == "OpenClaw"@,
            exists|d: Option<Vec<u8>>|
                r@.history_db_path == crate::system::lossy_text(#[trigger] db_path_spec(d))
                    && db_text_matches(r@.history_db_path, d),
            r@.synced_version == Seq::<char>::empty(),
    {
        let storage = StorageConfig::default();
        let r = Config {
            push: PushConfig::default(),
            defaults: DefaultsConfig::default(),
            storage,
            skill: SkillConfig::default(),
        };
        proof {
            let d = choose|d: Option<Vec<u8>>|
                r.storage.history_db_path@ == crate::system::lossy_text(#[trigger] db_path_spec(d))
                    && db_text_matches(r.storage.history_db_path@, d);
            assert(r@.history_db_path == crate::system::lossy_text(db_path_spec(d)));
        }
        r
    }
}

/// What `str::parse::<u32>` gives.
pub open spec fn parse_u32_spec(s: Seq<char>) -> Option<u32> {
    match parse_u64_spec(s) {
        Some(n) => if n <= u32::MAX { Some(n as u32) } else { None },
        None => None,
    }
}

/// The configuration after `config set key value`; the flag tells whether
/// `key` is one of the settable keys (an unknown key changes nothing).
pub open spec fn set_value_spec(c: ConfigView, key: Seq<char>, value: Seq<char>) -> (ConfigView, bool) {
    if key == "push.service_url"@ {
        (ConfigView { service_url: value, ..c }, true)
    } else if key == "push.timeout_secs"@ {
        (ConfigView { timeout_secs: match parse_u64_spec(value) { Some(n) => n, None => 30 }, ..c }, true)
    } else if key == "push.retry_count"@ {
        (ConfigView { retry_count: match parse_u32_spec(value) { Some(n) => n, None => 3 }, ..c }, true)
    } else if key == "push.dry_run"@ {
        (ConfigView { dry_run: value == "true"@, ..c }, true)
    } else if key == "defaults.result"@ {
        (ConfigView { result: value, ..c }, true)
    } else if key == "defaults.source"@ {
        (ConfigView { source: value, ..c }, true)
    } else if key == "storage.history_db_path"@ {
        (ConfigView { history_db_path: value, ..c }, true)
    } else {
        (c, false)
    }
}

fn is_key(k: &Vec<char>, name: &str) -> (r: bool)
    ensures
        r == (k@ == name@),
{
    chars_equal(k, &chars_of(name))
}

/// Sets one configuration value by its dotted key; numbers that do not parse
/// fall back to the defaults. Returns whether the key is known.
pub fn set_value(cfg: &mut Config, key: &str, value: &str) -> (known: bool)
    ensures
        (final(cfg)@, known) == set_value_spec(old(cfg)@, key@, value@),
{
    let k = chars_of(key);
    let v = chars_of(value);
    if is_key(&k, "push.service_url") {
        cfg.push.service_url = owned(value);
        true
    } else if is_key(&k, "push.timeout_secs") {
        cfg.push.timeout_secs = match parse_u64_chars(&v) {
            Some(n) => n,
            None => 30,
        };
        true
    } else if is_key(&k, "push.retry_count") {
        cfg.push.retry_count = match parse_u64_chars(&v) {
            Some(n) => if n <= u32::MAX as u64 {
                n as u32
            } else {
                3
            },
            None => 3,
        };
        true
    } else if is_key(&k, "push.dry_run") {
        cfg.push.dry_run = chars_equal(&v, &chars_of("true"));
        true
    } else if is_key(&k, "defaults.result") {
        cfg.defaults.result = owned(value);
        true
    } else if is_key(&k, "defaults.source") {
        cfg.defaults.source = owned(value);
        true
    } else if is_key(&k, "storage.history_db_path") {
        cfg.storage.history_db_path = owned(value);
        true
    } else {
        false
    }
}

} // verus!

verus! {

/// Setting an unknown key changes nothing.
pub proof fn lemma_set_unknown_key(c: ConfigView, key: Seq<char>, value: Seq<char>)
    requires
        !set_value_spec(c, key, value).1,
    ensures
        set_value_spec(c, key, value).0 == c,
{
}

/// A text setting reads back as the value that was set, and the other
/// settings stay as they were.
pub proof fn lemma_set_service_url(c: ConfigView, value: Seq<char>)
    ensures
        set_value_spec(c, "push.service_url"@, value) == (ConfigView { service_url: value, ..c }, true),
{
}

/// A time-out written in decimal reads back as that number.
pub proof fn lemma_set_timeout_decimal(c: ConfigView, n: u64)
    ensures
        set_value_spec(c, "push.timeout_secs"@, crate::num::decimal(n as nat)).0.timeout_secs == n,
{
    reveal_strlit("push.timeout_secs");
    reveal_strlit("push.service_url");
    assert("push.timeout_secs"@ != "push.service_url"@) by {
        assert("push.timeout_secs"@[5] != "push.service_url"@[5]);
    }
    crate::num::lemma_parse_decimal_u64(n);
}

} // verus!

verus! {

/// Each settable key sets the one setting that it names, which then reads
/// back as the value given (numbers falling back to their defaults when
/// they do not parse), and leaves every other setting as it was.
pub proof fn lemma_set_value_each_key(c: ConfigView, value: Seq<char>)
    ensures
        set_value_spec(c, "push.service_url"@, value) == (ConfigView { service_url: value, ..c }, true),
        set_value_spec(c, "push.timeout_secs"@, value) == (ConfigView {
            timeout_secs: match parse_u64_spec(value) {
                Some(n) => n,
                None => 30,
            },
            ..c
        }, true),
        set_value_spec(c, "push.retry_count"@, value) == (ConfigView {
            retry_count: match parse_u32_spec(value) {
                Some(n) => n,
                None => 3,
            },
            ..c
        }, true),
        set_value_spec(c, "push.dry_run"@, value) == (ConfigView { dry_run: value == "true"@, ..c }, true),
        set_value_spec(c, "defaults.result"@, value) == (ConfigView { result: value, ..c }, true),
        set_value_spec(c, "defaults.source"@, value) == (ConfigView { source: value, ..c }, true),
        set_value_spec(c, "storage.history_db_path"@, value) == (ConfigView { history_db_path: value, ..c }, true),
{
    reveal_strlit("push.service_url");
    reveal_strlit("push.timeout_secs");
    reveal_strlit("push.retry_count");
    reveal_strlit("push.dry_run");
    reveal_strlit("defaults.result");
    reveal_strlit("defaults.source");
    reveal_strlit("storage.history_db_path");
    assert("push.service_url"@.len() == 16);
    assert("push.timeout_secs"@.len() == 17);
    assert("push.retry_count"@.len() == 16);
    assert("push.dry_run"@.len() == 12);
    assert("defaults.result"@.len() == 15);
    assert("defaults.source"@.len() == 15);
    assert("storage.history_db_path"@.len() == 23);
    assert("push.timeout_secs"@ != "push.service_url"@) by {
        assert("push.timeout_secs"@[5] != "push.service_url"@[5]);
    }
    assert("push.retry_count"@ != "push.timeout_secs"@) by {
        assert("push.retry_count"@[5] != "push.timeout_secs"@[5]);
    }
    assert("push.retry_count"@ != "push.service_url"@) by {
        assert("push.retry_count"@[5] != "push.service_url"@[5]);
    }
    assert("defaults.source"@ != "defaults.result"@) by {
        assert("defaults.source"@[9] != "defaults.result"@[9]);
    }
}

/// Only the seven settable keys change anything: any other key leaves the
/// configuration as it was and is reported as unknown.
pub proof fn lemma_set_other_key(c: ConfigView, key: Seq<char>, value: Seq<char>)
    requires
        key != "push.service_url"@,
        key != "push.timeout_secs"@,
        key != "push.retry_count"@,
        key != "push.dry_run"@,
        key != "defaults.result"@,
        key != "defaults.source"@,
        key != "storage.history_db_path"@,
    ensures
        set_value_spec(c, key, value) == (c, false),
{
}

} // verus!
