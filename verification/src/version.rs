use vstd::prelude::*;
use std::cmp::Ordering;
use crate::text::{chars_of, trim_chars, slice_chars, split_char_exec, trim_spec, split_char, trim_start_spec, trim_end_spec, is_white_space, find_char_spec, find_from, occurs_at, lemma_find_from};
use crate::num::{parse_u64_spec, parse_u64_chars, decimal, is_digit, lemma_decimal_roundtrip, lemma_parse_decimal_u64};

verus! {

/// One release of the reference skill, as the registry lists it.
pub struct SkillVersion {
    /// The version number, such as `1.0.17`.
    pub version: String,
    /// The release notes of that version.
    pub changelog: String,
    /// Where the release notes come from (`user` or `auto`).
    pub changelog_source: String,
}

impl Clone for SkillVersion {
    fn clone(&self) -> (r: Self)
        ensures
            r == *self,
    {
        SkillVersion {
            version: self.version.clone(),
            changelog: self.changelog.clone(),
            changelog_source: self.changelog_source.clone(),
        }
    }
}

/// `s` with every leading `v` or `V` removed.
pub open spec fn trim_v_prefix(s: Seq<char>) -> Seq<char>
    decreases s.len(),
{
    if s.len() > 0 && (s[0] == 'v' || s[0] == 'V') {
        trim_v_prefix(s.drop_first())
    } else {
        s
    }
}

/// Every piece parsed as a 64-bit number, or `None` when one of them is not one.
pub open spec fn parse_parts(parts: Seq<Seq<char>>) -> Option<Seq<u64>>
    decreases parts.len(),
{
    if parts.len() == 0 {
        Some(Seq::<u64>::empty())
    } else {
        match parse_u64_spec(parts[0]) {
            None => None,
            Some(n) => match parse_parts(parts.drop_first()) {
                None => None,
                Some(rest) => Some(seq![n] + rest),
            },
        }
    }
}

/// The numeric components of a version string: surrounding white space and
/// any leading `v`/`V` are dropped, the rest is cut at each `.`, and every
/// piece must be a 64-bit decimal number.
pub open spec fn parse_version_spec(v: Seq<char>) -> Option<Seq<u64>> {
    let s = trim_v_prefix(trim_spec(v));
    if s.len() == 0 {
        None
    } else {
        parse_parts(split_char(s, '.'))
    }
}

/// Component-wise comparison from position `i` on, a missing component
/// counting as zero: -1, 0 or 1.
pub open spec fn version_order_from(a: Seq<u64>, b: Seq<u64>, i: int) -> int
    decreases a.len() + b.len() - i,
{
    if i < 0 || (i >= a.len() && i >= b.len()) {
        0
    } else {
        let x: u64 = if i < a.len() { a[i] } else { 0u64 };
        let y: u64 = if i < b.len() { b[i] } else { 0u64 };
        if x < y {
            -1
        } else if x > y {
            1
        } else {
            version_order_from(a, b, i + 1)
        }
    }
}

/// How `a` compares with `b` as versions: -1, 0 or 1.
pub open spec fn version_order(a: Seq<u64>, b: Seq<u64>) -> int {
    version_order_from(a, b, 0)
}

/// The version `a` is strictly newer than `b`; both must be valid versions.
pub open spec fn newer_spec(a: Seq<char>, b: Seq<char>) -> bool {
    match (parse_version_spec(a), parse_version_spec(b)) {
        (Some(x), Some(y)) => version_order(x, y) > 0,
        _ => false,
    }
}

/// Parses a version such as `1.0.17` or `v1.0.17` into its components.
pub fn parse_version(v: &str) -> (r: Option<Vec<u64>>)
    ensures
        r matches Some(x) ==> parse_version_spec(v@) == Some(x@),
        r is None ==> parse_version_spec(v@) is None,
{
    let chars = chars_of(v);
    let t = trim_chars(&chars);
    let mut k: usize = 0;
    assert(t@.skip(0) =~= t@);
    while k < t.len() && (t[k] == 'v' || t[k] == 'V')
        invariant
            k <= t.len(),
            trim_v_prefix(t@) == trim_v_prefix(t@.skip(k as int)),
        decreases t.len() - k,
    {
        assert(t@.skip(k as int).drop_first() =~= t@.skip(k + 1));
        k += 1;
    }
    let s = slice_chars(&t, k, t.len());
    assert(s@ =~= t@.skip(k as int));
    assert(trim_v_prefix(s@) == s@);
    if s.len() == 0 {
        return None;
    }
    let parts = split_char_exec(&s, '.');
    let ghost views = parts@.map_values(|w: Vec<char>| w@);
    let mut nums: Vec<u64> = Vec::new();
    let mut i: usize = 0;
    assert(views.skip(0) =~= views);
    while i < parts.len()
        invariant
            i <= parts.len(),
            views == parts@.map_values(|w: Vec<char>| w@),
            parse_version_spec(v@) == parse_parts(views),
            parse_parts(views) == match parse_parts(views.skip(i as int)) {
                None => None,
                Some(rest) => Some(nums@ + rest),
            },
        decreases parts.len() - i,
    {
        assert(views.skip(i as int)[0] == parts@[i as int]@);
        assert(views.skip(i as int).drop_first() =~= views.skip(i + 1));
        match parse_u64_chars(&parts[i]) {
            None => {
                assert(parse_parts(views.skip(i as int)) is None);
                return None;
            },
            Some(n) => {
                let ghost before = nums@;
                nums.push(n);
                proof {
                    match parse_parts(views.skip(i + 1)) {
                        None => {},
                        Some(rest) => {
                            assert(before + (seq![n] + rest) =~= nums@ + rest);
                        },
                    }
                }
            },
        }
        i += 1;
    }
    assert(views.skip(i as int) =~= Seq::<Seq<char>>::empty());
    assert(nums@ + Seq::<u64>::empty() =~= nums@);
    Some(nums)
}

/// Compares two component lists: -1, 0 or 1.
fn version_sign(a: &Vec<u64>, b: &Vec<u64>) -> (r: i8)
    ensures
        r == version_order(a@, b@),
{
    let n: usize = if a.len() > b.len() { a.len() } else { b.len() };
    let mut i: usize = 0;
    while i < n
        invariant
            n == (if a.len() > b.len() { a.len() } else { b.len() }),
            i <= n,
            version_order(a@, b@) == version_order_from(a@, b@, i as int),
        decreases n - i,
    {
        let x: u64 = if i < a.len() { a[i] } else { 0 };
        let y: u64 = if i < b.len() { b[i] } else { 0 };
        if x < y {
            return -1;
        }
        if x > y {
            return 1;
        }
        i += 1;
    }
    0
}

/// The ordering that a comparison result of -1, 0 or 1 stands for.
pub open spec fn ordering_of(sign: int) -> Ordering {
    if sign < 0 {
        Ordering::Less
    } else if sign == 0 {
        Ordering::Equal
    } else {
        Ordering::Greater
    }
}

/// Compares two version strings; `None` when either is not a valid version.
pub fn compare_versions(a: &str, b: &str) -> (r: Option<Ordering>)
    ensures
        r == match (parse_version_spec(a@), parse_version_spec(b@)) {
            (Some(x), Some(y)) => Some(ordering_of(version_order(x, y))),
            _ => None,
        },
{
    let x = match parse_version(a) {
        Some(x) => x,
        None => {
            return None;
        },
    };
    let y = match parse_version(b) {
        Some(y) => y,
        None => {
            return None;
        },
    };
    let s: i8 = version_sign(&x, &y);
    if s < 0 {
        Some(Ordering::Less)
    } else if s == 0 {
        Some(Ordering::Equal)
    } else {
        Some(Ordering::Greater)
    }
}

/// Whether `version` is strictly newer than `baseline`.
pub fn is_newer_than(version: &str, baseline: &str) -> (r: bool)
    ensures
        r == newer_spec(version@, baseline@),
{
    match compare_versions(version, baseline) {
        Some(Ordering::Greater) => true,
        _ => false,
    }
}

/// The versions strictly newer than `baseline`, in the order given
/// (the registry lists them newest first).
pub fn newer_versions<'a>(baseline: &str, versions: &'a [SkillVersion]) -> (r: Vec<&'a SkillVersion>)
    ensures
        r@.map_values(|x: &SkillVersion| *x) == versions@.filter(
            |x: SkillVersion| newer_spec(x.version@, baseline@),
        ),
{
    let ghost pred = |x: SkillVersion| newer_spec(x.version@, baseline@);
    let mut r: Vec<&'a SkillVersion> = Vec::new();
    let mut i: usize = 0;
    while i < versions.len()
        invariant
            i <= versions@.len(),
            pred == (|x: SkillVersion| newer_spec(x.version@, baseline@)),
            r@.map_values(|x: &SkillVersion| *x) == versions@.take(i as int).filter(pred),
        decreases versions@.len() - i,
    {
        reveal_with_fuel(Seq::<_>::filter, 1);
        assert(versions@.take(i + 1).drop_last() =~= versions@.take(i as int));
        let ghost before = r@;
        if is_newer_than(versions[i].version.as_str(), baseline) {
            r.push(&versions[i]);
            assert(r@.map_values(|x: &SkillVersion| *x) =~= before.map_values(|x: &SkillVersion| *x).push(versions@[i as int]));
        }
        i += 1;
    }
    assert(versions@.take(i as int) =~= versions@);
    r
}

} // verus!

verus! {

proof fn lemma_order_antisymmetric_from(a: Seq<u64>, b: Seq<u64>, i: int)
    ensures
        version_order_from(a, b, i) == -version_order_from(b, a, i),
    decreases a.len() + b.len() - i,
{
    if !(i < 0 || (i >= a.len() && i >= b.len())) {
        lemma_order_antisymmetric_from(a, b, i + 1);
    }
}

proof fn lemma_order_reflexive_from(a: Seq<u64>, i: int)
    ensures
        version_order_from(a, a, i) == 0,
    decreases a.len() + a.len() - i,
{
    if !(i < 0 || i >= a.len()) {
        lemma_order_reflexive_from(a, i + 1);
    }
}

proof fn lemma_order_transitive_from(a: Seq<u64>, b: Seq<u64>, c: Seq<u64>, i: int)
    requires
        i >= 0,
        version_order_from(a, b, i) > 0,
        version_order_from(b, c, i) > 0,
    ensures
        version_order_from(a, c, i) > 0,
    decreases a.len() + b.len() + c.len() - i,
{
    let x: u64 = if i < a.len() { a[i] } else { 0u64 };
    let y: u64 = if i < b.len() { b[i] } else { 0u64 };
    let z: u64 = if i < c.len() { c[i] } else { 0u64 };
    if x == y && y == z {
        lemma_order_transitive_from(a, b, c, i + 1);
    }
}

/// Comparing the other way round gives the opposite answer, and a valid
/// version equals itself.
pub proof fn lemma_compare_versions_reverse(a: Seq<char>, b: Seq<char>)
    ensures
        match (parse_version_spec(a), parse_version_spec(b)) {
            (Some(x), Some(y)) => version_order(x, y) == -version_order(y, x),
            _ => true,
        },
        match parse_version_spec(a) {
            Some(x) => version_order(x, x) == 0,
            None => true,
        },
{
    match (parse_version_spec(a), parse_version_spec(b)) {
        (Some(x), Some(y)) => lemma_order_antisymmetric_from(x, y, 0),
        _ => {},
    }
    match parse_version_spec(a) {
        Some(x) => lemma_order_reflexive_from(x, 0),
        None => {},
    }
}

/// No version is newer than itself.
pub proof fn lemma_newer_irreflexive(a: Seq<char>)
    ensures
        !newer_spec(a, a),
{
    lemma_compare_versions_reverse(a, a);
}

/// Of two versions at most one is newer than the other.
pub proof fn lemma_newer_asymmetric(a: Seq<char>, b: Seq<char>)
    requires
        newer_spec(a, b),
    ensures
        !newer_spec(b, a),
{
    lemma_compare_versions_reverse(a, b);
}

/// Being newer is transitive.
pub proof fn lemma_newer_transitive(a: Seq<char>, b: Seq<char>, c: Seq<char>)
    requires
        newer_spec(a, b),
        newer_spec(b, c),
    ensures
        newer_spec(a, c),
{
    let x = parse_version_spec(a)->0;
    let y = parse_version_spec(b)->0;
    let z = parse_version_spec(c)->0;
    lemma_order_transitive_from(x, y, z, 0);
}

/// Pieces joined with `.` between them.
pub open spec fn join_dots(parts: Seq<Seq<char>>) -> Seq<char>
    decreases parts.len(),
{
    if parts.len() == 0 {
        Seq::<char>::empty()
    } else if parts.len() == 1 {
        parts[0]
    } else {
        parts[0] + seq!['.'] + join_dots(parts.drop_first())
    }
}

/// The usual notation of a list of version components, such as `1.0.17`.
pub open spec fn version_text(v: Seq<u64>) -> Seq<char> {
    join_dots(v.map_values(|n: u64| decimal(n as nat)))
}

proof fn lemma_no_dot_in_decimal(n: nat)
    ensures
        forall|i: int| 0 <= i < decimal(n).len() ==> #[trigger] decimal(n)[i] != '.',
        forall|i: int| 0 <= i < decimal(n).len() ==> is_digit(#[trigger] decimal(n)[i]),
        decimal(n).len() >= 1,
{
    lemma_decimal_roundtrip(n);
}

proof fn lemma_split_join(parts: Seq<Seq<char>>)
    requires
        parts.len() >= 1,
        forall|k: int, i: int| 0 <= k < parts.len() && 0 <= i < parts[k].len() ==> #[trigger] parts[k][i] != '.',
    ensures
        split_char(join_dots(parts), '.') == parts,
    decreases parts.len(),
{
    let s = join_dots(parts);
    let p0 = parts[0];
    lemma_find_from(s, seq!['.'], 0);
    if parts.len() == 1 {
        assert forall|j: int| 0 <= j implies !occurs_at(s, seq!['.'], j) by {
            if occurs_at(s, seq!['.'], j) {
                assert(s.subrange(j, j + 1)[0] == s[j]);
                assert(p0[j] != '.');
            }
        }
        assert(split_char(s, '.') =~= seq![s]);
        assert(seq![s] =~= parts);
    } else {
        let rest = join_dots(parts.drop_first());
        assert(s =~= p0 + seq!['.'] + rest);
        assert(occurs_at(s, seq!['.'], p0.len() as int)) by {
            assert(s.subrange(p0.len() as int, p0.len() as int + 1) =~= seq!['.']);
        }
        assert forall|j: int| 0 <= j < p0.len() implies !occurs_at(s, seq!['.'], j) by {
            assert(s.subrange(j, j + 1)[0] == s[j]);
            assert(s[j] == p0[j]);
        }
        assert(find_char_spec(s, '.') == Some(p0.len() as int));
        assert(s.take(p0.len() as int) =~= p0);
        assert(s.skip(p0.len() as int + 1) =~= rest);
        lemma_split_join(parts.drop_first());
        assert(seq![p0] + parts.drop_first() =~= parts);
    }
}

proof fn lemma_parse_decimals(v: Seq<u64>)
    ensures
        parse_parts(v.map_values(|n: u64| decimal(n as nat))) == Some(v),
    decreases v.len(),
{
    let ds = v.map_values(|n: u64| decimal(n as nat));
    if v.len() > 0 {
        lemma_parse_decimal_u64(v[0]);
        lemma_parse_decimals(v.drop_first());
        assert(ds.drop_first() =~= v.drop_first().map_values(|n: u64| decimal(n as nat)));
        assert(seq![v[0]] + v.drop_first() =~= v);
    } else {
        assert(v =~= Seq::<u64>::empty());
    }
}

proof fn lemma_join_bounds(parts: Seq<Seq<char>>)
    requires
        parts.len() >= 1,
        forall|k: int| 0 <= k < parts.len() ==> (#[trigger] parts[k]).len() >= 1 && is_digit(parts[k][0])
            && is_digit(parts[k].last()),
    ensures
        join_dots(parts).len() >= 1,
        is_digit(join_dots(parts)[0]),
        is_digit(join_dots(parts).last()),
    decreases parts.len(),
{
    if parts.len() > 1 {
        lemma_join_bounds(parts.drop_first());
        assert(parts.drop_first()[0] == parts[1]);
        let s = join_dots(parts);
        assert(s =~= parts[0] + seq!['.'] + join_dots(parts.drop_first()));
        assert(s[0] == parts[0][0]);
    }
}

/// A non-empty list of components written in the usual notation parses back
/// to the same list.
pub proof fn lemma_version_text_roundtrip(v: Seq<u64>)
    requires
        v.len() >= 1,
    ensures
        parse_version_spec(version_text(v)) == Some(v),
{
    let ds = v.map_values(|n: u64| decimal(n as nat));
    let s = version_text(v);
    assert forall|k: int, i: int| 0 <= k < ds.len() && 0 <= i < ds[k].len() implies #[trigger] ds[k][i] != '.' by {
        lemma_no_dot_in_decimal(v[k] as nat);
    }
    assert forall|k: int| 0 <= k < ds.len() implies (#[trigger] ds[k]).len() >= 1 && is_digit(ds[k][0])
        && is_digit(ds[k].last()) by {
        lemma_no_dot_in_decimal(v[k] as nat);
    }
    lemma_join_bounds(ds);
    assert(!is_white_space(s[0]));
    assert(!is_white_space(s.last()));
    assert(trim_start_spec(s) == s);
    assert(trim_end_spec(s) == s);
    assert(trim_v_prefix(s) == s);
    lemma_split_join(ds);
    lemma_parse_decimals(v);
}

} // verus!
