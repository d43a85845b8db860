use vstd::prelude::*;
use crate::text::{
    chars_of, string_of, slice_chars, owned, find_exec, find_char_exec, find_from, find_seq,
    find_char_spec, lemma_find_from, lemma_find_shift, occurs_at, starts_with,
    starts_with_exec, trim_spec, trim_chars, trim_char_exec, trim_start_char, trim_end_char,
    replace_all, replace_all_exec, append_str, append_chars, string_views,
};

verus! {

/// The text after a front-matter block: when `c` begins with `---` and a
/// second `---` follows, what comes after that second marker, trimmed;
/// otherwise `c` unchanged.
pub open spec fn strip_front_matter_spec(c: Seq<char>) -> Seq<char> {
    if starts_with(c, "---"@) {
        let body = c.skip(3);
        match find_seq(body, "---"@) {
            Some(e) => trim_spec(body.skip(e + 3)),
            None => c,
        }
    } else {
        c
    }
}

/// Removes the front-matter block of a template.
pub fn strip_front_matter(content: &str) -> (r: String)
    ensures
        r@ == strip_front_matter_spec(content@),
{
    let c = chars_of(content);
    let marker = chars_of("---");
    proof {
        reveal_strlit("---");
    }
    if !starts_with_exec(&c, &marker) {
        return owned(content);
    }
    let body = slice_chars(&c, 3, c.len());
    assert(body@ =~= content@.skip(3));
    match find_exec(&body, &marker, 0) {
        Some(e) => {
            proof {
                lemma_find_from(body@, marker@, 0);
            }
            let after = slice_chars(&body, e + 3, body.len());
            assert(after@ =~= body@.skip(e + 3));
            string_of(&trim_chars(&after))
        },
        None => owned(content),
    }
}

/// The placeholder that stands for the variable `key`: `{{key}}`.
pub open spec fn placeholder(key: Seq<char>) -> Seq<char> {
    seq!['{', '{'] + key + seq!['}', '}']
}

/// The views of a list of variables.
pub open spec fn vars_view(vars: Seq<(String, String)>) -> Seq<(Seq<char>, Seq<char>)> {
    vars.map_values(|p: (String, String)| (p.0@, p.1@))
}

/// Every placeholder of each variable replaced by its value, one variable
/// after the other in the order given.
pub open spec fn interpolate_spec(t: Seq<char>, vars: Seq<(Seq<char>, Seq<char>)>) -> Seq<char>
    decreases vars.len(),
{
    if vars.len() == 0 {
        t
    } else {
        interpolate_spec(replace_all(t, placeholder(vars[0].0), vars[0].1), vars.drop_first())
    }
}

/// Replaces each `{{key}}` in `template` by the value of `key`.
pub fn interpolate(template: &str, vars: &Vec<(String, String)>) -> (r: String)
    ensures
        r@ == interpolate_spec(template@, vars_view(vars@)),
{
    let ghost vv = vars_view(vars@);
    let mut cur = chars_of(template);
    let mut i: usize = 0;
    assert(vv.skip(0) =~= vv);
    while i < vars.len()
        invariant
            i <= vars.len(),
            vv == vars_view(vars@),
            interpolate_spec(template@, vv) == interpolate_spec(cur@, vv.skip(i as int)),
        decreases vars.len() - i,
    {
        let mut pat: Vec<char> = Vec::new();
        pat.push('{');
        pat.push('{');
        append_str(&mut pat, vars[i].0.as_str());
        pat.push('}');
        pat.push('}');
        let value = chars_of(vars[i].1.as_str());
        assert(vv.skip(i as int)[0] == vv[i as int]);
        assert(pat@ =~= placeholder(vv[i as int].0));
        assert(vv.skip(i as int).drop_first() =~= vv.skip(i + 1));
        cur = replace_all_exec(&cur, &pat, &value);
        i += 1;
    }
    assert(vv.skip(i as int) =~= Seq::<(Seq<char>, Seq<char>)>::empty());
    string_of(&cur)
}

/// Renders a template: its front matter removed and its variables filled in.
pub fn render(raw: &str, vars: &Vec<(String, String)>) -> (r: String)
    ensures
        r@ == interpolate_spec(strip_front_matter_spec(raw@), vars_view(vars@)),
{
    let body = strip_front_matter(raw);
    interpolate(body.as_str(), vars)
}

} // verus!

verus! {

/// A list of variables as (name, value) pairs.
pub type VarsView = Seq<(Seq<char>, Seq<char>)>;

/// The first position at or after `i` of the variable named `k`.
pub open spec fn key_index_from(m: VarsView, k: Seq<char>, i: int) -> Option<int>
    decreases m.len() - i,
{
    if i < 0 || i >= m.len() {
        None
    } else if m[i].0 == k {
        Some(i)
    } else {
        key_index_from(m, k, i + 1)
    }
}

/// The value of the variable named `k`.
pub open spec fn lookup(m: VarsView, k: Seq<char>) -> Option<Seq<char>> {
    match key_index_from(m, k, 0) {
        Some(i) => if 0 <= i < m.len() { Some(m[i].1) } else { None },
        None => None,
    }
}

/// No two variables share a name.
pub open spec fn distinct_keys(m: VarsView) -> bool {
    forall|i: int, j: int| 0 <= i < j < m.len() ==> m[i].0 != m[j].0
}

/// `m` with `k` set to `v`: its value replaced in place, or a new variable at the end.
pub open spec fn insert_var(m: VarsView, k: Seq<char>, v: Seq<char>) -> VarsView {
    match key_index_from(m, k, 0) {
        Some(i) => m.update(i, (k, v)),
        None => m.push((k, v)),
    }
}

/// `m` with `k` set to `v` only where `k` is not set yet.
pub open spec fn insert_if_absent(m: VarsView, k: Seq<char>, v: Seq<char>) -> VarsView {
    if key_index_from(m, k, 0) is Some {
        m
    } else {
        m.push((k, v))
    }
}

/// `m` with each `key=value` argument set in turn (the first `=` separates);
/// arguments without `=` are ignored.
pub open spec fn add_args(m: VarsView, args: Seq<Seq<char>>) -> VarsView
    decreases args.len(),
{
    if args.len() == 0 {
        m
    } else {
        let a = args[0];
        let m2 = match find_char_spec(a, '=') {
            Some(p) => insert_var(m, a.take(p), a.skip(p + 1)),
            None => m,
        };
        add_args(m2, args.drop_first())
    }
}

/// The template variables given by `key=value` arguments, with `date` and
/// `time` set to the given defaults unless an argument sets them.
pub open spec fn parse_vars_spec(args: Seq<Seq<char>>, date: Seq<char>, time: Seq<char>) -> VarsView {
    insert_if_absent(insert_if_absent(add_args(Seq::empty(), args), "date"@, date), "time"@, time)
}

proof fn lemma_key_index(m: VarsView, k: Seq<char>, i: int)
    requires
        0 <= i,
    ensures
        match key_index_from(m, k, i) {
            Some(j) => i <= j < m.len() && m[j].0 == k && forall|l: int| i <= l < j ==> m[l].0 != k,
            None => forall|l: int| i <= l < m.len() ==> m[l].0 != k,
        },
    decreases m.len() - i,
{
    if i < m.len() && m[i].0 != k {
        lemma_key_index(m, k, i + 1);
    }
}

/// Setting a variable keeps the names distinct, and afterwards the variable
/// has the value that was set.
pub proof fn lemma_insert_var(m: VarsView, k: Seq<char>, v: Seq<char>)
    requires
        distinct_keys(m),
    ensures
        distinct_keys(insert_var(m, k, v)),
        lookup(insert_var(m, k, v), k) == Some(v),
{
    lemma_key_index(m, k, 0);
    let r = insert_var(m, k, v);
    lemma_key_index(r, k, 0);
    match key_index_from(m, k, 0) {
        Some(i) => {
            assert(r[i].0 == k);
            match key_index_from(r, k, 0) {
                Some(j) => {
                    if j < i {
                        assert(r[j] == m[j]);
                    }
                    assert(j == i);
                },
                None => {},
            }
        },
        None => {
            assert(r[m.len() as int].0 == k);
            match key_index_from(r, k, 0) {
                Some(j) => {
                    if j < m.len() {
                        assert(r[j] == m[j]);
                    }
                },
                None => {},
            }
        },
    }
}

proof fn lemma_insert_if_absent(m: VarsView, k: Seq<char>, v: Seq<char>)
    requires
        distinct_keys(m),
    ensures
        distinct_keys(insert_if_absent(m, k, v)),
        lookup(insert_if_absent(m, k, v), k) == (if lookup(m, k) is Some { lookup(m, k) } else { Some(v) }),
{
    lemma_key_index(m, k, 0);
    let r = insert_if_absent(m, k, v);
    lemma_key_index(r, k, 0);
    if key_index_from(m, k, 0) is None {
        assert(r[m.len() as int].0 == k);
        match key_index_from(r, k, 0) {
            Some(j) => {
                if j < m.len() {
                    assert(r[j] == m[j]);
                }
            },
            None => {},
        }
    }
}

proof fn lemma_insert_if_absent_other(m: VarsView, k: Seq<char>, v: Seq<char>, k2: Seq<char>)
    requires
        k != k2,
    ensures
        lookup(insert_if_absent(m, k, v), k2) == lookup(m, k2),
{
    let r = insert_if_absent(m, k, v);
    lemma_key_index(m, k2, 0);
    lemma_key_index(r, k2, 0);
    if key_index_from(m, k, 0) is None {
        match key_index_from(m, k2, 0) {
            Some(i) => {
                assert(r[i] == m[i]);
                match key_index_from(r, k2, 0) {
                    Some(j) => {
                        if j < i {
                            assert(r[j] == m[j]);
                        }
                    },
                    None => {},
                }
            },
            None => {
                match key_index_from(r, k2, 0) {
                    Some(j) => {
                        if j < m.len() {
                            assert(r[j] == m[j]);
                        } else {
                            assert(r[j].0 == k);
                        }
                    },
                    None => {},
                }
            },
        }
    }
}

proof fn lemma_add_args_distinct(m: VarsView, args: Seq<Seq<char>>)
    requires
        distinct_keys(m),
    ensures
        distinct_keys(add_args(m, args)),
    decreases args.len(),
{
    if args.len() > 0 {
        let a = args[0];
        match find_char_spec(a, '=') {
            Some(p) => lemma_insert_var(m, a.take(p), a.skip(p + 1)),
            None => {},
        }
        let m2 = match find_char_spec(a, '=') {
            Some(p) => insert_var(m, a.take(p), a.skip(p + 1)),
            None => m,
        };
        lemma_add_args_distinct(m2, args.drop_first());
    }
}

/// The variables never hold a name twice, and `date` and `time` are always
/// set: to the defaults unless an argument gave them.
pub proof fn lemma_parse_vars(args: Seq<Seq<char>>, date: Seq<char>, time: Seq<char>)
    ensures
        distinct_keys(parse_vars_spec(args, date, time)),
        lookup(parse_vars_spec(args, date, time), "date"@) == (if lookup(add_args(Seq::empty(), args), "date"@) is Some {
            lookup(add_args(Seq::empty(), args), "date"@)
        } else {
            Some(date)
        }),
        lookup(parse_vars_spec(args, date, time), "time"@) == (if lookup(add_args(Seq::empty(), args), "time"@) is Some {
            lookup(add_args(Seq::empty(), args), "time"@)
        } else {
            Some(time)
        }),
{
    let m0 = add_args(Seq::empty(), args);
    lemma_add_args_distinct(Seq::empty(), args);
    lemma_insert_if_absent(m0, "date"@, date);
    let m1 = insert_if_absent(m0, "date"@, date);
    lemma_insert_if_absent(m1, "time"@, time);
    reveal_strlit("date");
    reveal_strlit("time");
    assert("date"@ != "time"@) by {
        assert("date"@[0] != "time"@[0]);
    }
    lemma_insert_if_absent_other(m0, "date"@, date, "time"@);
    lemma_key_index(m1, "date"@, 0);
    let m2 = insert_if_absent(m1, "time"@, time);
    lemma_key_index(m2, "date"@, 0);
    match key_index_from(m1, "date"@, 0) {
        Some(i) => {
            assert(m2[i] == m1[i]);
            match key_index_from(m2, "date"@, 0) {
                Some(j) => {
                    if j < i {
                        assert(m2[j] == m1[j]);
                    }
                    if j > i {
                        assert(m2[i].0 == "date"@);
                    }
                },
                None => {},
            }
        },
        None => {},
    }
}

/// The position of the variable named `k` in `m`.
fn find_key(m: &Vec<(String, String)>, k: &Vec<char>) -> (r: Option<usize>)
    ensures
        r matches Some(i) ==> key_index_from(vars_view(m@), k@, 0) == Some(i as int) && i < m.len(),
        r is None ==> key_index_from(vars_view(m@), k@, 0) is None,
{
    let ghost mv = vars_view(m@);
    let mut i: usize = 0;
    while i < m.len()
        invariant
            i <= m.len(),
            mv == vars_view(m@),
            key_index_from(mv, k@, 0) == key_index_from(mv, k@, i as int),
        decreases m.len() - i,
    {
        let name = chars_of(m[i].0.as_str());
        assert(mv[i as int].0 == m@[i as int].0@);
        if crate::text::chars_equal(&name, k) {
            return Some(i);
        }
        i += 1;
    }
    None
}

/// Sets the variable `k` to `v` in `m`.
fn set_var(m: &mut Vec<(String, String)>, k: String, v: String)
    ensures
        vars_view(final(m)@) == insert_var(vars_view(old(m)@), k@, v@),
{
    let kc = chars_of(k.as_str());
    match find_key(m, &kc) {
        Some(i) => {
            let ghost before = m@;
            m.set(i, (k, v));
            assert(vars_view(m@) =~= vars_view(before).update(i as int, (kc@, v@)));
        },
        None => {
            let ghost before = m@;
            m.push((k, v));
            assert(vars_view(m@) =~= vars_view(before).push((kc@, v@)));
        },
    }
}

/// Sets the variable `k` to `v` in `m` unless it is set already.
fn set_var_if_absent(m: &mut Vec<(String, String)>, k: String, v: String)
    ensures
        vars_view(final(m)@) == insert_if_absent(vars_view(old(m)@), k@, v@),
{
    let kc = chars_of(k.as_str());
    match find_key(m, &kc) {
        Some(_) => {},
        None => {
            let ghost before = m@;
            m.push((k, v));
            assert(vars_view(m@) =~= vars_view(before).push((kc@, v@)));
        },
    }
}

/// Reads `key=value` arguments into template variables and sets `date` and
/// `time` to the given values (the current local date and time, read by the
/// caller) unless an argument sets them.
pub fn parse_vars(var_args: &Vec<String>, date: String, time: String) -> (r: Vec<(String, String)>)
    ensures
        vars_view(r@) == parse_vars_spec(string_views(var_args@), date@, time@),
{
    let ghost args = var_args@.map_values(|s: String| s@);
    let mut m: Vec<(String, String)> = Vec::new();
    let mut i: usize = 0;
    assert(args.skip(0) =~= args);
    assert(vars_view(m@) =~= Seq::<(Seq<char>, Seq<char>)>::empty());
    while i < var_args.len()
        invariant
            i <= var_args.len(),
            args == var_args@.map_values(|s: String| s@),
            add_args(Seq::empty(), args) == add_args(vars_view(m@), args.skip(i as int)),
        decreases var_args.len() - i,
    {
        let a = chars_of(var_args[i].as_str());
        assert(args.skip(i as int)[0] == a@);
        assert(args.skip(i as int).drop_first() =~= args.skip(i + 1));
        proof {
            lemma_find_from(a@, seq!['='], 0);
        }
        match find_char_exec(&a, '=', 0) {
            Some(p) => {
                assert(occurs_at(a@, seq!['='], p as int));
                assert(seq!['='].len() == 1);
                assert(p < a.len());
                let key = string_of(&slice_chars(&a, 0, p));
                let value = string_of(&slice_chars(&a, p + 1, a.len()));
                assert(key@ =~= a@.take(p as int));
                assert(value@ =~= a@.skip(p + 1));
                set_var(&mut m, key, value);
            },
            None => {},
        }
        i += 1;
    }
    assert(args.skip(i as int) =~= Seq::<Seq<char>>::empty());
    set_var_if_absent(&mut m, owned("date"), date);
    set_var_if_absent(&mut m, owned("time"), time);
    m
}

} // verus!


verus! {

/// The value of a `description:` line: the rest of the line trimmed, then
/// stripped of surrounding `"`; `None` when nothing is left.
pub open spec fn description_value(rest: Seq<char>) -> Option<Seq<char>> {
    let d = trim_end_char(trim_start_char(trim_spec(rest), '"'), '"');
    if d.len() == 0 {
        None
    } else {
        Some(d)
    }
}

/// The description given by the first line of `front` that starts with
/// `description:`.
pub open spec fn description_in(front: Seq<char>) -> Option<Seq<char>>
    decreases front.len(),
{
    let end = find_char_spec(front, '\n');
    let line = match end {
        Some(k) => front.take(k),
        None => front,
    };
    if starts_with(line, "description:"@) {
        description_value(line.skip(12))
    } else {
        match end {
            Some(k) => if 0 <= k < front.len() {
                description_in(front.skip(k + 1))
            } else {
                None
            },
            None => None,
        }
    }
}

/// The description in a template's front matter (the block between a leading
/// `---` and the next `---`), if there is one.
pub open spec fn front_matter_description_spec(c: Seq<char>) -> Option<Seq<char>> {
    if starts_with(c, "---"@) {
        let body = c.skip(3);
        match find_seq(body, "---"@) {
            Some(e) => description_in(body.take(e)),
            None => None,
        }
    } else {
        None
    }
}

/// The description of the given `description:` line rest.
fn description_value_exec(rest: &Vec<char>) -> (r: Option<String>)
    ensures
        r matches Some(s) ==> description_value(rest@) == Some(s@),
        r is None ==> description_value(rest@) is None,
{
    let t = trim_chars(rest);
    let d = trim_char_exec(&t, '"');
    if d.len() == 0 {
        None
    } else {
        Some(string_of(&d))
    }
}

/// Reads the description from a template's front matter.
pub fn front_matter_description(content: &str) -> (r: Option<String>)
    ensures
        r matches Some(s) ==> front_matter_description_spec(content@) == Some(s@),
        r is None ==> front_matter_description_spec(content@) is None,
{
    let c = chars_of(content);
    let marker = chars_of("---");
    let key = chars_of("description:");
    proof {
        reveal_strlit("---");
        reveal_strlit("description:");
    }
    if !starts_with_exec(&c, &marker) {
        return None;
    }
    let body = slice_chars(&c, 3, c.len());
    assert(body@ =~= content@.skip(3));
    let e: usize = match find_exec(&body, &marker, 0) {
        Some(e) => e,
        None => {
            return None;
        },
    };
    proof {
        lemma_find_from(body@, marker@, 0);
    }
    let front = slice_chars(&body, 0, e);
    assert(front@ =~= body@.take(e as int));
    let mut pos: usize = 0;
    assert(front@.skip(0) =~= front@);
    loop
        invariant
            pos <= front.len(),
            key@ == "description:"@,
            key@.len() == 12,
            front_matter_description_spec(content@) == description_in(front@),
            description_in(front@) == description_in(front@.skip(pos as int)),
        decreases front.len() - pos,
    {
        let ghost cur = front@.skip(pos as int);
        proof {
            lemma_find_shift(front@, seq!['\n'], pos as int);
            lemma_find_from(front@, seq!['\n'], pos as int);
        }
        let found = find_char_exec(&front, '\n', pos);
        let line_end: usize = match found {
            Some(k) => k,
            None => front.len(),
        };
        proof {
            if found is Some {
                assert(occurs_at(front@, seq!['\n'], line_end as int));
                assert(cur.take(line_end - pos) =~= front@.subrange(pos as int, line_end as int));
            } else {
                assert(cur =~= front@.subrange(pos as int, line_end as int));
            }
        }
        let line = slice_chars(&front, pos, line_end);
        if starts_with_exec(&line, &key) {
            let rest = slice_chars(&line, 12, line.len());
            assert(rest@ =~= line@.skip(12));
            return description_value_exec(&rest);
        }
        match found {
            Some(k) => {
                assert(cur.skip(k - pos + 1) =~= front@.skip(k + 1));
                pos = k + 1;
            },
            None => {
                return None;
            },
        }
    }
}

/// The name of the template stored in the file `file_name`: the part before
/// the last `.` when the file name has the extension `md` (a name that only
/// starts with a dot has no extension).
pub open spec fn template_stem_spec(file_name: Seq<char>) -> Option<Seq<char>> {
    match last_dot(file_name) {
        Some(i) => if 0 < i < file_name.len() && file_name.skip(i + 1) == "md"@ {
            Some(file_name.take(i))
        } else {
            None
        },
        None => None,
    }
}

/// The position of the last `.` in `s`.
pub open spec fn last_dot(s: Seq<char>) -> Option<int>
    decreases s.len(),
{
    if s.len() == 0 {
        None
    } else if s.last() == '.' {
        Some(s.len() - 1)
    } else {
        last_dot(s.drop_last())
    }
}

/// The template name of a file in a template directory, or `None` when the
/// file is not a Markdown (`.md`) file.
pub fn template_stem(file_name: &str) -> (r: Option<String>)
    ensures
        r matches Some(s) ==> template_stem_spec(file_name@) == Some(s@),
        r is None ==> template_stem_spec(file_name@) is None,
{
    let v = chars_of(file_name);
    let mut i = v.len();
    assert(v@.take(i as int) =~= v@);
    while i > 0 && v[i - 1] != '.'
        invariant
            i <= v.len(),
            last_dot(v@) == last_dot(v@.take(i as int)),
        decreases i,
    {
        assert(v@.take(i as int).drop_last() =~= v@.take(i - 1));
        i -= 1;
    }
    if i <= 1 {
        proof {
            if i == 1 {
                assert(v@.take(1).last() == v@[0]);
            }
        }
        return None;
    }
    let dot: usize = i - 1;
    assert(v@.take(i as int).last() == v@[dot as int]);
    let ext = slice_chars(&v, dot + 1, v.len());
    let md = chars_of("md");
    assert(ext@ =~= v@.skip(dot + 1));
    if crate::text::chars_equal(&ext, &md) {
        let stem = slice_chars(&v, 0, dot);
        assert(stem@ =~= v@.take(dot as int));
        Some(string_of(&stem))
    } else {
        None
    }
}

/// A template: its name, its description and the file that holds it.
pub struct TemplateInfo {
    pub name: String,
    pub description: Option<String>,
    pub path: String,
}

impl Clone for TemplateInfo {
    fn clone(&self) -> (r: Self)
        ensures
            r == *self,
    {
        TemplateInfo {
            name: self.name.clone(),
            description: match &self.description {
                Some(d) => Some(d.clone()),
                None => None,
            },
            path: self.path.clone(),
        }
    }
}

/// The names of a list of templates.
pub open spec fn template_names(ts: Seq<TemplateInfo>) -> Seq<Seq<char>> {
    ts.map_values(|t: TemplateInfo| t.name@)
}

/// `acc` followed by each template of `rest` whose name is not taken yet.
pub open spec fn merge_spec(acc: Seq<TemplateInfo>, rest: Seq<TemplateInfo>) -> Seq<TemplateInfo>
    decreases rest.len(),
{
    if rest.len() == 0 {
        acc
    } else if template_names(acc).contains(rest[0].name@) {
        merge_spec(acc, rest.drop_first())
    } else {
        merge_spec(acc.push(rest[0]), rest.drop_first())
    }
}

/// Whether a template named `name` is in `ts`.
fn has_template(ts: &Vec<TemplateInfo>, name: &String) -> (r: bool)
    ensures
        r == template_names(ts@).contains(name@),
{
    let n = chars_of(name.as_str());
    let mut i: usize = 0;
    while i < ts.len()
        invariant
            i <= ts.len(),
            n@ == name@,
            forall|j: int| 0 <= j < i ==> template_names(ts@)[j] != name@,
        decreases ts.len() - i,
    {
        let t = chars_of(ts[i].name.as_str());
        assert(template_names(ts@)[i as int] == ts@[i as int].name@);
        if crate::text::chars_equal(&t, &n) {
            assert(template_names(ts@)[i as int] == name@);
            return true;
        }
        i += 1;
    }
    proof {
        if template_names(ts@).contains(name@) {
            let j = choose|j: int| 0 <= j < template_names(ts@).len() && template_names(ts@)[j] == name@;
            assert(false);
        }
    }
    false
}

/// The templates of the user's directory followed by the built-in templates
/// that the user has not overridden by a template of the same name.
pub fn merge_templates(user: Vec<TemplateInfo>, builtin: Vec<TemplateInfo>) -> (r: Vec<TemplateInfo>)
    ensures
        r@ == merge_spec(user@, builtin@),
{
    let mut r = user;
    let mut i: usize = 0;
    assert(builtin@.skip(0) =~= builtin@);
    while i < builtin.len()
        invariant
            i <= builtin.len(),
            merge_spec(user@, builtin@) == merge_spec(r@, builtin@.skip(i as int)),
        decreases builtin.len() - i,
    {
        assert(builtin@.skip(i as int)[0] == builtin@[i as int]);
        assert(builtin@.skip(i as int).drop_first() =~= builtin@.skip(i + 1));
        if !has_template(&r, &builtin[i].name) {
            r.push(builtin[i].clone());
        }
        i += 1;
    }
    assert(builtin@.skip(i as int) =~= Seq::<TemplateInfo>::empty());
    r
}

/// The file name of the template `name`: `name.md`.
pub fn template_file_name(name: &str) -> (r: String)
    ensures
        r@ == name@ + ".md"@,
{
    let mut v = chars_of(name);
    append_str(&mut v, ".md");
    string_of(&v)
}

/// The text of a new template named `name`.
pub open spec fn default_template_spec(name: Seq<char>) -> Seq<char> {
    "---\nname: "@ + name
        + "\ndescription: \"\"\nvariables:\n  - name: content\n    description: 主要内容\n    required: true\n---\n\n# {{name}} 任务报告\n\n{{content}}\n\n---\n\n*生成时间: {{date}} {{time}}*\n"@
}

/// The text of a new template named `name`.
pub fn default_template_content(name: &str) -> (r: String)
    ensures
        r@ == default_template_spec(name@),
{
    let mut v = chars_of("---\nname: ");
    append_str(&mut v, name);
    append_str(
        &mut v,
        "\ndescription: \"\"\nvariables:\n  - name: content\n    description: 主要内容\n    required: true\n---\n\n# {{name}} 任务报告\n\n{{content}}\n\n---\n\n*生成时间: {{date}} {{time}}*\n",
    );
    string_of(&v)
}

} // verus!

verus! {

/// A text in which no variable's placeholder occurs is rendered unchanged.
pub proof fn lemma_interpolate_without_placeholders(t: Seq<char>, vars: VarsView)
    requires
        forall|k: int, i: int| 0 <= k < vars.len() ==> !#[trigger] occurs_at(t, placeholder(vars[k].0), i),
    ensures
        interpolate_spec(t, vars) == t,
    decreases vars.len(),
{
    if vars.len() > 0 {
        assert forall|i: int| !occurs_at(t, placeholder(vars[0].0), i) by {
            assert(!occurs_at(t, placeholder(vars[0].0), i));
        }
        crate::text::lemma_replace_absent(t, placeholder(vars[0].0), vars[0].1);
        assert forall|k: int, i: int| 0 <= k < vars.drop_first().len() implies !#[trigger] occurs_at(
            t,
            placeholder(vars.drop_first()[k].0),
            i,
        ) by {
            assert(vars.drop_first()[k] == vars[k + 1]);
        }
        lemma_interpolate_without_placeholders(t, vars.drop_first());
    }
}

/// The user's templates come first and unchanged, and no built-in template
/// that follows has the name of a user template: a user template overrides a
/// built-in one of the same name.
pub proof fn lemma_merge_user_first(acc: Seq<TemplateInfo>, rest: Seq<TemplateInfo>)
    ensures
        merge_spec(acc, rest).len() >= acc.len(),
        merge_spec(acc, rest).take(acc.len() as int) == acc,
        forall|j: int| acc.len() <= j < merge_spec(acc, rest).len() ==> !template_names(acc).contains(
            (#[trigger] merge_spec(acc, rest)[j]).name@,
        ),
    decreases rest.len(),
{
    if rest.len() == 0 {
        assert(acc.take(acc.len() as int) =~= acc);
    } else if template_names(acc).contains(rest[0].name@) {
        lemma_merge_user_first(acc, rest.drop_first());
    } else {
        let acc2 = acc.push(rest[0]);
        lemma_merge_user_first(acc2, rest.drop_first());
        let r = merge_spec(acc, rest);
        assert(r.take(acc2.len() as int) == acc2);
        assert(r.take(acc.len() as int) =~= acc) by {
            assert forall|j: int| 0 <= j < acc.len() implies r.take(acc.len() as int)[j] == acc[j] by {
                assert(r.take(acc2.len() as int)[j] == acc2[j]);
            }
        }
        assert forall|j: int| acc.len() <= j < r.len() implies !template_names(acc).contains(
            (#[trigger] r[j]).name@,
        ) by {
            if j == acc.len() {
                assert(r.take(acc2.len() as int)[j] == acc2[j]);
            } else {
                assert(!template_names(acc2).contains(r[j].name@));
                if template_names(acc).contains(r[j].name@) {
                    let l = choose|l: int| 0 <= l < template_names(acc).len() && template_names(acc)[l] == r[j].name@;
                    assert(template_names(acc2)[l] == template_names(acc)[l]);
                }
            }
        }
    }
}

} // verus!

verus! {

/// Front matter ends at the first `---` after the opening one: what follows
/// that marker, trimmed, is the body, and a later `---` in the body (a
/// horizontal rule) is kept.
pub proof fn lemma_strip_front_matter_first_marker(c: Seq<char>, e: int)
    requires
        starts_with(c, "---"@),
        occurs_at(c.skip(3), "---"@, e),
        forall|j: int| 0 <= j < e ==> !occurs_at(c.skip(3), "---"@, j),
    ensures
        strip_front_matter_spec(c) == trim_spec(c.skip(3).skip(e + 3)),
{
    reveal_strlit("---");
    let body = c.skip(3);
    lemma_find_from(body, "---"@, 0);
    match find_seq(body, "---"@) {
        Some(k) => {
            if k < e {
                assert(!occurs_at(body, "---"@, k));
            }
            if k > e {
                assert(!occurs_at(body, "---"@, e));
            }
        },
        None => {
            assert(!occurs_at(body, "---"@, e));
        },
    }
}

/// A text that does not open with `---`, or whose opening `---` is never
/// closed, has no front matter and is kept whole.
pub proof fn lemma_strip_front_matter_absent(c: Seq<char>)
    requires
        !starts_with(c, "---"@) || forall|j: int| !occurs_at(c.skip(3), "---"@, j),
    ensures
        strip_front_matter_spec(c) == c,
{
    reveal_strlit("---");
    lemma_find_from(c.skip(3), "---"@, 0);
    if starts_with(c, "---"@) {
        match find_seq(c.skip(3), "---"@) {
            Some(k) => {
                assert(!occurs_at(c.skip(3), "---"@, k));
            },
            None => {},
        }
    }
}

} // verus!

verus! {

proof fn lemma_add_args_push(m: VarsView, args: Seq<Seq<char>>, a: Seq<char>)
    ensures
        add_args(m, args.push(a)) == match find_char_spec(a, '=') {
            Some(p) => insert_var(add_args(m, args), a.take(p), a.skip(p + 1)),
            None => add_args(m, args),
        },
    decreases args.len(),
{
    if args.len() == 0 {
        assert(args.push(a).drop_first() =~= Seq::<Seq<char>>::empty());
        assert(args.push(a)[0] == a);
        let m2 = match find_char_spec(a, '=') {
            Some(p) => insert_var(m, a.take(p), a.skip(p + 1)),
            None => m,
        };
        assert(add_args(m2, Seq::<Seq<char>>::empty()) == m2);
        assert(add_args(m, args) == m);
    } else {
        let a0 = args[0];
        let m2 = match find_char_spec(a0, '=') {
            Some(p) => insert_var(m, a0.take(p), a0.skip(p + 1)),
            None => m,
        };
        assert(args.push(a)[0] == a0);
        assert(args.push(a).drop_first() =~= args.drop_first().push(a));
        lemma_add_args_push(m2, args.drop_first(), a);
    }
}

proof fn lemma_no_eq_sign(a: Seq<char>)
    ensures
        find_char_spec(a, '=') is None <==> !a.contains('='),
{
    lemma_find_from(a, seq!['='], 0);
    if a.contains('=') {
        let j = choose|j: int| 0 <= j < a.len() && a[j] == '=';
        assert(a.subrange(j, j + 1) =~= seq!['=']);
        assert(occurs_at(a, seq!['='], j));
    }
    match find_char_spec(a, '=') {
        Some(p) => {
            assert(occurs_at(a, seq!['='], p));
            assert(a.subrange(p, p + 1)[0] == a[p]);
        },
        None => {},
    }
}

proof fn lemma_insert_if_absent_keeps(m: VarsView, k: Seq<char>, v: Seq<char>, k2: Seq<char>)
    requires
        lookup(m, k2) is Some,
    ensures
        lookup(insert_if_absent(m, k, v), k2) == lookup(m, k2),
{
    if k != k2 {
        lemma_insert_if_absent_other(m, k, v, k2);
    } else {
        lemma_key_index(m, k, 0);
    }
}

/// An argument with no `=` sets nothing: the variables are those of the
/// other arguments.
pub proof fn lemma_parse_vars_ignores_bare(args: Seq<Seq<char>>, a: Seq<char>, date: Seq<char>, time: Seq<char>)
    requires
        !a.contains('='),
    ensures
        parse_vars_spec(args.push(a), date, time) == parse_vars_spec(args, date, time),
{
    lemma_no_eq_sign(a);
    lemma_add_args_push(Seq::empty(), args, a);
}

/// The last `key=value` argument for a name decides its value (the first
/// `=` separates, so the name holds no `=`), also for `date` and `time`,
/// whose defaults then do not apply.
pub proof fn lemma_parse_vars_last_wins(
    args: Seq<Seq<char>>,
    k: Seq<char>,
    v: Seq<char>,
    date: Seq<char>,
    time: Seq<char>,
)
    requires
        !k.contains('='),
    ensures
        lookup(parse_vars_spec(args.push(k + seq!['='] + v), date, time), k) == Some(v),
{
    let a = k + seq!['='] + v;
    let p = k.len() as int;
    lemma_find_from(a, seq!['='], 0);
    assert(a.subrange(p, p + 1) =~= seq!['=']);
    assert(occurs_at(a, seq!['='], p));
    match find_char_spec(a, '=') {
        Some(q) => {
            if q < p {
                assert(a.subrange(q, q + 1)[0] == a[q]);
                assert(a[q] == k[q]);
                assert(k.contains('='));
            }
            assert(q == p);
        },
        None => {},
    }
    assert(a.take(p) =~= k);
    assert(a.skip(p + 1) =~= v);
    lemma_add_args_push(Seq::empty(), args, a);
    let m0 = add_args(Seq::empty(), args);
    lemma_add_args_distinct(Seq::empty(), args);
    lemma_insert_var(m0, k, v);
    let m1 = insert_var(m0, k, v);
    lemma_insert_if_absent_keeps(m1, "date"@, date, k);
    lemma_insert_if_absent_keeps(insert_if_absent(m1, "date"@, date), "time"@, time, k);
}

} // verus!

verus! {

proof fn lemma_replace_single(a: Seq<char>, p: Seq<char>, r: Seq<char>, b: Seq<char>)
    requires
        p.len() > 0,
        forall|i: int| occurs_at(a + p + b, p, i) ==> i == a.len(),
    ensures
        replace_all(a + p + b, p, r) == a + r + b,
    decreases a.len(),
{
    let s = a + p + b;
    if a.len() == 0 {
        assert(s.take(p.len() as int) =~= p);
        assert(s.skip(p.len() as int) =~= b);
        assert forall|i: int| !occurs_at(b, p, i) by {
            if occurs_at(b, p, i) {
                assert(s.subrange(p.len() + i, p.len() + i + p.len()) =~= b.subrange(i, i + p.len()));
                assert(occurs_at(s, p, p.len() + i));
            }
        }
        crate::text::lemma_replace_absent(b, p, r);
        assert(a + r + b =~= r + b);
    } else {
        assert(s.subrange(0, p.len() as int) =~= s.take(p.len() as int));
        assert(!occurs_at(s, p, 0));
        let a2 = a.drop_first();
        assert(s.drop_first() =~= a2 + p + b);
        assert forall|i: int| occurs_at(a2 + p + b, p, i) implies i == a2.len() by {
            assert((a2 + p + b).subrange(i, i + p.len()) =~= s.subrange(i + 1, i + 1 + p.len()));
            assert(occurs_at(s, p, i + 1));
        }
        lemma_replace_single(a2, p, r, b);
        assert(seq![s[0]] + (a2 + r + b) =~= a + r + b);
    }
}

/// A text in which the placeholder `{{key}}` stands once is rendered with
/// the variable's value in its place and everything around it kept.
pub proof fn lemma_interpolate_single(a: Seq<char>, key: Seq<char>, value: Seq<char>, b: Seq<char>)
    requires
        forall|i: int| occurs_at(a + placeholder(key) + b, placeholder(key), i) ==> i == a.len(),
    ensures
        interpolate_spec(a + placeholder(key) + b, seq![(key, value)]) == a + value + b,
{
    let vars = seq![(key, value)];
    lemma_replace_single(a, placeholder(key), value, b);
    assert(vars.drop_first() =~= Seq::<(Seq<char>, Seq<char>)>::empty());
    let t2 = replace_all(a + placeholder(key) + b, placeholder(key), value);
    assert(interpolate_spec(t2, vars.drop_first()) == t2);
}

} // verus!
