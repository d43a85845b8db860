use vstd::prelude::*;
use crate::text::{
    chars_of, string_of, slice_chars, find_exec, find_char_exec, find_from, find_seq,
    find_char_spec, lemma_find_from, occurs_at, join_with, join_chars, lists_equal,
    trim_end_char, trim_end_char_exec, append_str, append_chars, owned, string_views,
    char_views, strings_of, chars_of_strings,
};
use crate::order::{lex_order, sort_chars};
use crate::num::{decimal, decimal_chars};

verus! {

/// `c` opens or closes a quoted item (`'` or `"`).
pub open spec fn is_quote(c: char) -> bool {
    c == '\'' || c == '"'
}

/// The first quote character at or after position `i` of `s`.
pub open spec fn first_quote_from(s: Seq<char>, i: int) -> Option<int>
    decreases s.len() - i,
{
    if i < 0 || i >= s.len() {
        None
    } else if is_quote(s[i]) {
        Some(i)
    } else {
        first_quote_from(s, i + 1)
    }
}

proof fn lemma_find_range(s: Seq<char>, p: Seq<char>, i: int)
    requires
        0 <= i,
    ensures
        find_from(s, p, i) matches Some(k) ==> i <= k && k + p.len() <= s.len(),
{
    lemma_find_from(s, p, i);
}

/// The items quoted in `c`, each opened by `'` or `"` and closed by the same
/// character; `None` when an item is never closed.
pub open spec fn quoted_items(c: Seq<char>) -> Option<Seq<Seq<char>>>
    decreases c.len(),
{
    match first_quote_from(c, 0) {
        None => Some(Seq::<Seq<char>>::empty()),
        Some(q) => if 0 <= q < c.len() {
            let after = c.skip(q + 1);
            match find_char_spec(after, c[q]) {
                None => None,
                Some(e) => if 0 <= e < after.len() {
                    match quoted_items(after.skip(e + 1)) {
                        None => None,
                        Some(rest) => Some(seq![after.take(e)] + rest),
                    }
                } else {
                    None
                },
            }
        } else {
            None
        },
    }
}

/// The field names listed in `required_fields = [...]` of the reference
/// skill's pusher script: the first `[` after the first mention of
/// `required_fields`, up to the next `]`, and the quoted items inside;
/// `None` when any of these is missing or the list is empty.
pub open spec fn required_fields_spec(src: Seq<char>) -> Option<Seq<Seq<char>>> {
    match find_seq(src, "required_fields"@) {
        None => None,
        Some(r) => {
            let rest = src.skip(r);
            match find_char_spec(rest, '[') {
                None => None,
                Some(o) => match find_char_spec(rest.skip(o), ']') {
                    None => None,
                    Some(e) => match quoted_items(rest.subrange(o + 1, o + e)) {
                        None => None,
                        Some(f) => if f.len() == 0 {
                            None
                        } else {
                            Some(f)
                        },
                    },
                },
            }
        },
    }
}

/// The first quote character at or after `start` in `v`.
fn find_quote(v: &Vec<char>, start: usize) -> (r: Option<usize>)
    requires
        start <= v.len(),
    ensures
        r matches Some(k) ==> start <= k < v.len() && first_quote_from(v@.skip(start as int), 0)
            == Some(k - start),
        r is None ==> first_quote_from(v@.skip(start as int), 0) is None,
{
    let ghost t = v@.skip(start as int);
    let mut i = start;
    while i < v.len()
        invariant
            start <= i <= v.len(),
            t == v@.skip(start as int),
            first_quote_from(t, 0) == first_quote_from(t, i - start),
        decreases v.len() - i,
    {
        assert(t[i - start] == v@[i as int]);
        if v[i] == '\'' || v[i] == '"' {
            return Some(i);
        }
        i += 1;
    }
    None
}

proof fn lemma_find_char_shift(s: Seq<char>, c: char, i: int)
    requires
        0 <= i <= s.len(),
    ensures
        match find_from(s, seq![c], i) {
            Some(k) => find_char_spec(s.skip(i), c) == Some(k - i),
            None => find_char_spec(s.skip(i), c) is None,
        },
{
    crate::text::lemma_find_shift(s, seq![c], i);
}

/// The quoted items of `v` (see `quoted_items`).
fn quoted_items_exec(v: &Vec<char>) -> (r: Option<Vec<Vec<char>>>)
    ensures
        r matches Some(x) ==> quoted_items(v@) == Some(x@.map_values(|w: Vec<char>| w@)),
        r is None ==> quoted_items(v@) is None,
{
    let mut items: Vec<Vec<char>> = Vec::new();
    let mut pos: usize = 0;
    assert(v@.skip(0) =~= v@);
    loop
        invariant
            pos <= v.len(),
            quoted_items(v@) == match quoted_items(v@.skip(pos as int)) {
                None => None,
                Some(rest) => Some(items@.map_values(|w: Vec<char>| w@) + rest),
            },
        decreases v.len() - pos,
    {
        let ghost cur = v@.skip(pos as int);
        let ghost before = items@.map_values(|w: Vec<char>| w@);
        match find_quote(v, pos) {
            None => {
                assert(quoted_items(cur) == Some(Seq::<Seq<char>>::empty()));
                assert(before + Seq::<Seq<char>>::empty() =~= before);
                return Some(items);
            },
            Some(q) => {
                let quote = v[q];
                let ghost qr = q - pos;
                assert(cur[qr] == quote);
                let ghost after = cur.skip(qr + 1);
                assert(after =~= v@.skip(q + 1));
                proof {
                    lemma_find_char_shift(v@, quote, q + 1);
                    lemma_find_range(v@, seq![quote], q + 1);
                }
                match find_char_exec(v, quote, q + 1) {
                    None => {
                        return None;
                    },
                    Some(e) => {
                        let ghost er = e - (q + 1);
                        assert(after.skip(er + 1) =~= v@.skip(e + 1));
                        assert(after.take(er) =~= v@.subrange(q + 1, e as int));
                        let item = slice_chars(v, q + 1, e);
                        items.push(item);
                        proof {
                            assert(items@.map_values(|w: Vec<char>| w@) =~= before.push(item@));
                            match quoted_items(v@.skip(e + 1)) {
                                None => {},
                                Some(rest) => {
                                    assert(before + (seq![item@] + rest) =~= before.push(item@) + rest);
                                },
                            }
                        }
                        pos = e + 1;
                    },
                }
            },
        }
    }
}

/// Extracts the `required_fields = [...]` list from the reference skill's
/// pusher script (the fields that the push API requires).
pub fn parse_required_fields(source: &str) -> (r: Option<Vec<String>>)
    ensures
        r matches Some(x) ==> required_fields_spec(source@) == Some(
            x@.map_values(|s: String| s@),
        ),
        r is None ==> required_fields_spec(source@) is None,
{
    let src = chars_of(source);
    let key = chars_of("required_fields");
    let r: usize = match find_exec(&src, &key, 0) {
        Some(r) => r,
        None => {
            return None;
        },
    };
    proof {
        lemma_find_range(src@, key@, 0);
    }
    let ghost rest = src@.skip(r as int);
    proof {
        lemma_find_char_shift(src@, '[', r as int);
        lemma_find_range(src@, seq!['['], r as int);
    }
    let o: usize = match find_char_exec(&src, '[', r) {
        Some(o) => o,
        None => {
            return None;
        },
    };
    let ghost orel = o - r;
    proof {
        lemma_find_from(src@, seq!['['], r as int);
        assert(src@.subrange(o as int, o + 1)[0] == src@[o as int]);
        lemma_find_char_shift(src@, ']', o as int);
        lemma_find_from(src@, seq![']'], o as int);
        assert(rest.skip(orel) =~= src@.skip(o as int));
    }
    let c: usize = match find_char_exec(&src, ']', o) {
        Some(c) => c,
        None => {
            return None;
        },
    };
    proof {
        assert(src@.subrange(c as int, c + 1)[0] == src@[c as int]);
        assert(c != o);
        assert(rest.subrange(orel + 1, orel + (c - o)) =~= src@.subrange(o + 1, c as int));
    }
    let inner = slice_chars(&src, o + 1, c);
    let items = match quoted_items_exec(&inner) {
        Some(items) => items,
        None => {
            return None;
        },
    };
    if items.len() == 0 {
        return None;
    }
    let mut out: Vec<String> = Vec::new();
    let mut i: usize = 0;
    while i < items.len()
        invariant
            i <= items.len(),
            out@.len() == i,
            out@.map_values(|s: String| s@) == items@.map_values(|w: Vec<char>| w@).take(i as int),
        decreases items.len() - i,
    {
        let s = string_of(&items[i]);
        let ghost before = out@;
        out.push(s);
        proof {
            let a = out@.map_values(|s: String| s@);
            let b = items@.map_values(|w: Vec<char>| w@).take(i + 1);
            assert(before.len() == i);
            assert(out@.len() == i + 1);
            assert(a.len() == i + 1);
            assert(b.len() == i + 1);
            assert forall|j: int| 0 <= j < a.len() implies a[j] == b[j] by {
                if j < i {
                    assert(out@[j] == before[j]);
                    assert(a[j] == before.map_values(|s: String| s@)[j]);
                } else {
                    assert(out@[j] == s);
                }
            }
            assert(a =~= b);
        }
        i += 1;
    }
    assert(items@.map_values(|w: Vec<char>| w@).take(i as int) =~= items@.map_values(|w: Vec<char>| w@));
    Some(out)
}

} // verus!

verus! {

/// Name of the reference skill that the registry is asked about.
pub const SKILL_SLUG: &'static str = "today-task";

/// The registry asked when no other is given.
pub const DEFAULT_REGISTRY: &'static str = "https://clawhub.com";

/// The push service address that this tool uses by default.
pub const HW_DEFAULT_SERVICE_URL: &'static str = crate::config::DEFAULT_SERVICE_URL;

/// The longest content this tool accepts, in bytes.
pub const HW_MAX_CONTENT_LENGTH: u64 = 5000;

/// The fields of a message in this tool's payload, as they are serialised.
pub open spec fn hw_msg_fields_spec() -> Seq<Seq<char>> {
    seq![
        "msgId"@,
        "scheduleTaskId"@,
        "scheduleTaskName"@,
        "summary"@,
        "result"@,
        "content"@,
        "source"@,
        "taskFinishTime"@,
    ]
}

/// The fields of a message in this tool's payload.
pub fn hw_msg_fields() -> (r: Vec<Vec<char>>)
    ensures
        r@.map_values(|w: Vec<char>| w@) == hw_msg_fields_spec(),
{
    let mut r: Vec<Vec<char>> = Vec::new();
    r.push(chars_of("msgId"));
    r.push(chars_of("scheduleTaskId"));
    r.push(chars_of("scheduleTaskName"));
    r.push(chars_of("summary"));
    r.push(chars_of("result"));
    r.push(chars_of("content"));
    r.push(chars_of("source"));
    r.push(chars_of("taskFinishTime"));
    assert(r@.map_values(|w: Vec<char>| w@) =~= hw_msg_fields_spec());
    r
}

/// The settings of the reference skill's `config.json` that matter here.
pub struct SkillConfigFile {
    /// Address of the push service.
    pub push_service_url: String,
    /// Longest content accepted.
    pub max_content_length: u64,
    /// Result text used when none is given.
    pub default_result: String,
    /// Time-out in seconds.
    pub timeout: u64,
}

/// One point on which the reference skill and this tool are compared.
pub struct DiffItem {
    /// What is compared: `service_url`, `fields` or `max_length`.
    pub key: &'static str,
    /// Whether both agree; `None` when the skill's side could not be read.
    pub matched: Option<bool>,
    /// The skill's value.
    pub skill_value: String,
    /// This tool's value.
    pub hwpush_value: String,
}

impl View for DiffItem {
    type V = (Seq<char>, Option<bool>, Seq<char>, Seq<char>);

    open spec fn view(&self) -> Self::V {
        (self.key@, self.matched, self.skill_value@, self.hwpush_value@)
    }
}

/// How the newest release of the reference skill compares with this tool.
pub struct Compatibility {
    pub service_url: DiffItem,
    pub fields: DiffItem,
    pub max_length: DiffItem,
}

/// The comparison of the push service address.
pub open spec fn service_url_view(cfg: Option<SkillConfigFile>) -> (Seq<char>, Option<bool>, Seq<char>, Seq<char>) {
    if cfg is Some && cfg->0.push_service_url@.len() > 0 {
        let url = cfg->0.push_service_url@;
        ("service_url"@, Some(url == HW_DEFAULT_SERVICE_URL@), url, HW_DEFAULT_SERVICE_URL@)
    } else {
        ("service_url"@, None, "(config.json 解析失败)"@, HW_DEFAULT_SERVICE_URL@)
    }
}

/// The comparison of the required message fields, order ignored.
pub open spec fn fields_view(py: Seq<char>) -> (Seq<char>, Option<bool>, Seq<char>, Seq<char>) {
    match required_fields_spec(py) {
        Some(f) => {
            let skill_sorted = f.sort_by(lex_order());
            let hw_sorted = hw_msg_fields_spec().sort_by(lex_order());
            (
                "fields"@,
                Some(skill_sorted == hw_sorted),
                join_with(skill_sorted, ", "@),
                join_with(hw_sorted, ", "@),
            )
        },
        None => (
            "fields"@,
            None,
            "(task_pusher.py 未找到 required_fields)"@,
            join_with(hw_msg_fields_spec(), ", "@),
        ),
    }
}

/// The comparison of the longest content accepted.
pub open spec fn max_length_view(cfg: Option<SkillConfigFile>) -> (Seq<char>, Option<bool>, Seq<char>, Seq<char>) {
    if cfg is Some && cfg->0.max_content_length > 0 {
        let n: u64 = cfg->0.max_content_length;
        ("max_length"@, Some(n == HW_MAX_CONTENT_LENGTH), decimal(n as nat), decimal(HW_MAX_CONTENT_LENGTH as nat))
    } else {
        ("max_length"@, None, "(config.json 解析失败)"@, decimal(HW_MAX_CONTENT_LENGTH as nat))
    }
}

impl Compatibility {
    /// Whether every point agrees and could be checked.
    pub fn is_compatible(&self) -> (r: bool)
        ensures
            r == (self.service_url.matched == Some(true) && self.fields.matched == Some(true)
                && self.max_length.matched == Some(true)),
    {
        matches!(self.service_url.matched, Some(true)) && matches!(self.fields.matched, Some(true))
            && matches!(self.max_length.matched, Some(true))
    }

    /// The points that need attention (those that do not agree or could not be checked),
    /// in the order service address, fields, length.
    pub fn diffs(&self) -> (r: Vec<&DiffItem>)
        ensures
            r@.map_values(|d: &DiffItem| d@) == seq![self.service_url@, self.fields@, self.max_length@].filter(
                |d: (Seq<char>, Option<bool>, Seq<char>, Seq<char>)| d.1 != Some(true),
            ),
    {
        let ghost all = seq![self.service_url@, self.fields@, self.max_length@];
        let ghost pred = |d: (Seq<char>, Option<bool>, Seq<char>, Seq<char>)| d.1 != Some(true);
        let mut r: Vec<&DiffItem> = Vec::new();
        proof {
            reveal_with_fuel(Seq::<_>::filter, 4);
            assert(all.take(1).drop_last() =~= all.take(0));
            assert(all.take(2).drop_last() =~= all.take(1));
            assert(all.take(3).drop_last() =~= all.take(2));
            assert(all.take(3) =~= all);
        }
        if !matches!(self.service_url.matched, Some(true)) {
            r.push(&self.service_url);
        }
        assert(r@.map_values(|d: &DiffItem| d@) =~= all.take(1).filter(pred));
        let ghost r1 = r@;
        if !matches!(self.fields.matched, Some(true)) {
            r.push(&self.fields);
        }
        assert(r@.map_values(|d: &DiffItem| d@) =~= all.take(2).filter(pred));
        if !matches!(self.max_length.matched, Some(true)) {
            r.push(&self.max_length);
        }
        assert(r@.map_values(|d: &DiffItem| d@) =~= all.take(3).filter(pred));
        r
    }
}

} // verus!

verus! {

/// Compares the newest release of the reference skill (its `config.json`
/// settings, `None` when that file could not be read as JSON, and the source
/// of its pusher script) with this tool.
pub fn check_compatibility(skill_cfg: &Option<SkillConfigFile>, task_pusher_py: &str) -> (r: Compatibility)
    ensures
        r.service_url@ == service_url_view(*skill_cfg),
        r.fields@ == fields_view(task_pusher_py@),
        r.max_length@ == max_length_view(*skill_cfg),
{
    // 1. Push service address.
    let service_url = match skill_cfg {
        Some(cfg) if !cfg.push_service_url.as_str().is_empty() => {
            let url = chars_of(cfg.push_service_url.as_str());
            let hw = chars_of(HW_DEFAULT_SERVICE_URL);
            DiffItem {
                key: "service_url",
                matched: Some(crate::text::chars_equal(&url, &hw)),
                skill_value: cfg.push_service_url.clone(),
                hwpush_value: owned(HW_DEFAULT_SERVICE_URL),
            }
        },
        _ => DiffItem {
            key: "service_url",
            matched: None,
            skill_value: owned("(config.json 解析失败)"),
            hwpush_value: owned(HW_DEFAULT_SERVICE_URL),
        },
    };
    // 2. Required fields of a message, compared without regard to order.
    let fields = match parse_required_fields(task_pusher_py) {
        Some(skill_fields) => {
            let skill_chars = chars_of_strings(&skill_fields);
            let skill_sorted = sort_chars(&skill_chars);
            let hw_sorted = sort_chars(&hw_msg_fields());
            DiffItem {
                key: "fields",
                matched: Some(lists_equal(&skill_sorted, &hw_sorted)),
                skill_value: string_of(&join_chars(&skill_sorted, ", ")),
                hwpush_value: string_of(&join_chars(&hw_sorted, ", ")),
            }
        },
        None => DiffItem {
            key: "fields",
            matched: None,
            skill_value: owned("(task_pusher.py 未找到 required_fields)"),
            hwpush_value: string_of(&join_chars(&hw_msg_fields(), ", ")),
        },
    };
    // 3. Longest content accepted.
    let max_length = match skill_cfg {
        Some(cfg) if cfg.max_content_length > 0 => DiffItem {
            key: "max_length",
            matched: Some(cfg.max_content_length == HW_MAX_CONTENT_LENGTH),
            skill_value: string_of(&decimal_chars(cfg.max_content_length)),
            hwpush_value: string_of(&decimal_chars(HW_MAX_CONTENT_LENGTH)),
        },
        _ => DiffItem {
            key: "max_length",
            matched: None,
            skill_value: owned("(config.json 解析失败)"),
            hwpush_value: string_of(&decimal_chars(HW_MAX_CONTENT_LENGTH)),
        },
    };
    Compatibility { service_url, fields, max_length }
}

} // verus!

verus! {

/// `s` cut to at most `max` characters, with `…` appended when anything was cut.
pub open spec fn truncate_spec(s: Seq<char>, max: nat) -> Seq<char> {
    if s.len() <= max {
        s
    } else {
        s.take(max as int) + seq!['…']
    }
}

/// Shortens a long text for an error message.
pub fn truncate(s: &str, max: usize) -> (r: String)
    ensures
        r@ == truncate_spec(s@, max as nat),
{
    let v = chars_of(s);
    if v.len() <= max {
        owned(s)
    } else {
        let mut t = slice_chars(&v, 0, max);
        t.push('…');
        assert(t@ =~= v@.take(max as int) + seq!['…']);
        string_of(&t)
    }
}

/// The address of the registry's list of versions of the skill.
pub open spec fn versions_url_spec(registry: Seq<char>) -> Seq<char> {
    trim_end_char(registry, '/') + "/api/v1/skills/"@ + SKILL_SLUG@ + "/versions?limit=50"@
}

/// The address of one file of the skill's newest release.
pub open spec fn file_url_spec(registry: Seq<char>, path: Seq<char>) -> Seq<char> {
    trim_end_char(registry, '/') + "/api/v1/skills/"@ + SKILL_SLUG@ + "/file?path="@ + path
}

/// The address of the registry's list of versions of the skill
/// (trailing `/` of the registry address dropped).
pub fn versions_url(registry: &str) -> (r: String)
    ensures
        r@ == versions_url_spec(registry@),
{
    let base = trim_end_char_exec(&chars_of(registry), '/');
    let mut out = base;
    append_str(&mut out, "/api/v1/skills/");
    append_str(&mut out, SKILL_SLUG);
    append_str(&mut out, "/versions?limit=50");
    string_of(&out)
}

/// The address of one file of the skill's newest release.
pub fn file_url(registry: &str, path: &str) -> (r: String)
    ensures
        r@ == file_url_spec(registry@, path@),
{
    let base = trim_end_char_exec(&chars_of(registry), '/');
    let mut out = base;
    append_str(&mut out, "/api/v1/skills/");
    append_str(&mut out, SKILL_SLUG);
    append_str(&mut out, "/file?path=");
    append_str(&mut out, path);
    string_of(&out)
}

/// All three points agree exactly when no point is listed as needing attention.
pub proof fn lemma_compatible_iff_no_diffs(c: Compatibility)
    ensures
        (c.service_url.matched == Some(true) && c.fields.matched == Some(true)
            && c.max_length.matched == Some(true)) <==> seq![c.service_url@, c.fields@, c.max_length@].filter(
            |d: (Seq<char>, Option<bool>, Seq<char>, Seq<char>)| d.1 != Some(true),
        ).len() == 0,
{
    let all = seq![c.service_url@, c.fields@, c.max_length@];
    let pred = |d: (Seq<char>, Option<bool>, Seq<char>, Seq<char>)| d.1 != Some(true);
    reveal_with_fuel(Seq::<_>::filter, 4);
    assert(all.drop_last().drop_last().drop_last() =~= Seq::<(Seq<char>, Option<bool>, Seq<char>, Seq<char>)>::empty());
    assert(all.drop_last().drop_last() =~= seq![c.service_url@]);
    assert(all.drop_last() =~= seq![c.service_url@, c.fields@]);
    all.lemma_filter_len_push(pred, c.max_length@);
    all.drop_last().lemma_filter_len_push(pred, c.fields@);
    assert(all.drop_last().push(c.max_length@) =~= all);
    assert(all.drop_last().drop_last().push(c.fields@) =~= all.drop_last());
}

/// The order in which the skill lists its required fields does not matter:
/// two lists with the same fields give the same comparison.
pub proof fn lemma_fields_order_insensitive(py1: Seq<char>, py2: Seq<char>)
    requires
        required_fields_spec(py1) is Some,
        required_fields_spec(py2) is Some,
        required_fields_spec(py1)->0.to_multiset() == required_fields_spec(py2)->0.to_multiset(),
    ensures
        fields_view(py1) == fields_view(py2),
{
    let f1 = required_fields_spec(py1)->0;
    let f2 = required_fields_spec(py2)->0;
    crate::order::lemma_lex_total_ordering();
    f1.lemma_sort_by_ensures(lex_order());
    f2.lemma_sort_by_ensures(lex_order());
    vstd::seq_lib::lemma_sorted_unique(f1.sort_by(lex_order()), f2.sort_by(lex_order()), lex_order());
}

/// When the skill requires exactly this tool's fields, in whatever order, the
/// fields agree.
pub proof fn lemma_same_fields_match(py: Seq<char>)
    requires
        required_fields_spec(py) is Some,
        required_fields_spec(py)->0.to_multiset() == hw_msg_fields_spec().to_multiset(),
    ensures
        fields_view(py).1 == Some(true),
{
    let f = required_fields_spec(py)->0;
    crate::order::lemma_lex_total_ordering();
    f.lemma_sort_by_ensures(lex_order());
    hw_msg_fields_spec().lemma_sort_by_ensures(lex_order());
    vstd::seq_lib::lemma_sorted_unique(f.sort_by(lex_order()), hw_msg_fields_spec().sort_by(lex_order()), lex_order());
}

} // verus!

verus! {

/// The limits compared with the reference skill are the ones this tool
/// applies: the service address of the default configuration and the
/// content limit of the validator.
pub proof fn lemma_limits_agree()
    ensures
        HW_MAX_CONTENT_LENGTH == crate::validator::MAX_CONTENT_LENGTH,
        HW_DEFAULT_SERVICE_URL@ == crate::config::DEFAULT_SERVICE_URL@,
{
}

} // verus!

verus! {

/// The comparison with the newest release from the outcomes of fetching its
/// two files (`config.json`, read as JSON where possible, and the pusher
/// script): nothing when either fetch failed, else `check_compatibility`.
pub fn compatibility_from_fetch(
    config: Result<Option<SkillConfigFile>, String>,
    task_pusher_py: Result<String, String>,
) -> (r: Option<Compatibility>)
    ensures
        match (config, task_pusher_py) {
            (Ok(cfg), Ok(py)) => (r matches Some(c) && c.service_url@ == service_url_view(cfg)
                && c.fields@ == fields_view(py@) && c.max_length@ == max_length_view(cfg)),
            _ => r is None,
        },
{
    let cfg = match config {
        Ok(cfg) => cfg,
        Err(_) => {
            return None;
        },
    };
    let py = match task_pusher_py {
        Ok(py) => py,
        Err(_) => {
            return None;
        },
    };
    Some(check_compatibility(&cfg, py.as_str()))
}

} // verus!

verus! {

/// The fields agree exactly when the skill's required fields are this
/// tool's message fields, order ignored: a renamed, missing or extra field
/// is a disagreement; and they cannot be checked exactly when the skill's
/// list cannot be read.
pub proof fn lemma_fields_match_iff_same_fields(py: Seq<char>)
    ensures
        fields_view(py).1 == Some(true) <==> (required_fields_spec(py) is Some
            && required_fields_spec(py)->0.to_multiset() == hw_msg_fields_spec().to_multiset()),
        fields_view(py).1 is None <==> required_fields_spec(py) is None,
{
    if required_fields_spec(py) is Some {
        let f = required_fields_spec(py)->0;
        crate::order::lemma_lex_total_ordering();
        f.lemma_sort_by_ensures(lex_order());
        hw_msg_fields_spec().lemma_sort_by_ensures(lex_order());
        if f.to_multiset() == hw_msg_fields_spec().to_multiset() {
            lemma_same_fields_match(py);
        }
    }
}

} // verus!

verus! {

/// The service address agrees exactly when the skill's `config.json` was
/// read and names this tool's address; it cannot be checked exactly when
/// the file could not be read or names no address. Likewise the content
/// limit agrees exactly when the skill's limit is this tool's, and cannot
/// be checked when the file could not be read or gives no limit.
pub proof fn lemma_config_points(cfg: Option<SkillConfigFile>)
    ensures
        service_url_view(cfg).1 == Some(true) <==> (cfg is Some && cfg->0.push_service_url@
            == HW_DEFAULT_SERVICE_URL@),
        service_url_view(cfg).1 is None <==> (cfg is None || cfg->0.push_service_url@.len() == 0),
        max_length_view(cfg).1 == Some(true) <==> (cfg is Some && cfg->0.max_content_length
            == HW_MAX_CONTENT_LENGTH),
        max_length_view(cfg).1 is None <==> (cfg is None || cfg->0.max_content_length == 0),
{
    reveal_strlit("https://hiboard-claw-drcn.ai.dbankcloud.cn/distribution/message/cloud/claw/msg/upload");
    assert(HW_DEFAULT_SERVICE_URL@.len() > 0);
}

} // verus!
