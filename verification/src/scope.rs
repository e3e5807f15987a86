//! The scope registry: monitoring rules, directory-boundary-aware prefix
//! matching of paths against them, the relative-path fallback onto the
//! reported working directory, and the ignore-pattern test.

use vstd::prelude::*;

use crate::strutil::{contains_char, contains_str, contains_sub, pop, str_eq};

verus! {

/// One configured watch scope: a path prefix to monitor, descriptive labels
/// attached to every match, and substring patterns that suppress matches.
#[derive(Debug, PartialEq, Eq)]
pub struct Rule {
    pub path: String,
    pub labels: Vec<String>,
    pub ignore: Vec<String>,
}

/// The mathematical shape of a `Rule`.
#[verifier::ext_equal]
pub ghost struct RuleView {
    pub path: Seq<char>,
    pub labels: Seq<Seq<char>>,
    pub ignore: Seq<Seq<char>>,
}

impl View for Rule {
    type V = RuleView;

    open spec fn view(&self) -> RuleView {
        RuleView { path: self.path@, labels: self.labels.deep_view(), ignore: self.ignore.deep_view() }
    }
}

/// The views of a sequence of rules.
pub open spec fn rules_view(rs: Seq<Rule>) -> Seq<RuleView> {
    rs.map_values(|r: Rule| r@)
}

/// A path with one trailing `/` removed.
pub open spec fn norm_path(p: Seq<char>) -> Seq<char> {
    if p.len() > 0 && p.last() == '/' {
        p.drop_last()
    } else {
        p
    }
}

/// Directory-boundary-aware prefix match: after trailing-slash
/// normalization, the rule path either equals the effective path or is
/// followed in it by a `/`.
pub open spec fn path_match(effective: Seq<char>, rule_path: Seq<char>) -> bool {
    let e = norm_path(effective);
    let r = norm_path(rule_path);
    e == r || (r.len() < e.len() && e.subrange(0, r.len() as int) == r && e[r.len() as int] == '/')
}

/// A raw path that must be resolved against the reported working directory:
/// `.`, a path starting with `./`, or a bare name with no `/`.
pub open spec fn is_relative_path(raw: Seq<char>) -> bool {
    (raw.len() >= 2 && raw[0] == '.' && raw[1] == '/') || (raw.len() == 1 && raw[0] == '.')
        || !raw.contains('/')
}

/// The path a raw notification is matched on: the reported working directory
/// when the raw path is relative and a working directory was reported, the
/// raw path itself otherwise.
pub open spec fn effective_path(raw: Seq<char>, cwd: Seq<char>) -> Seq<char> {
    if cwd.len() > 0 && is_relative_path(raw) {
        cwd
    } else {
        raw
    }
}

/// Whether a rule's scope covers the notification `(raw, cwd)`.
pub open spec fn scope_matches(rv: RuleView, raw: Seq<char>, cwd: Seq<char>) -> bool {
    path_match(effective_path(raw, cwd), rv.path)
}

/// Whether a filename is suppressed by the rule's ignore list: true when any
/// ignore entry occurs in it as a literal substring.
pub open spec fn spec_is_ignored(rv: RuleView, filename: Seq<char>) -> bool {
    exists|i: int| 0 <= i < rv.ignore.len() && contains_sub(filename, #[trigger] rv.ignore[i])
}

/// `p` with one trailing `/` removed, as `norm_path`.
fn strip_trailing_slash(p: &str) -> (r: &str)
    ensures
        r@ == norm_path(p@),
{
    let len = p.unicode_len();
    if len > 0 && p.get_char(len - 1) == '/' {
        pop(p)
    } else {
        p
    }
}

/// Executable form of `path_match`.
pub fn match_path(raw_path: &str, compare_path: &str) -> (b: bool)
    ensures
        b == path_match(raw_path@, compare_path@),
{
    let e = strip_trailing_slash(raw_path);
    let r = strip_trailing_slash(compare_path);
    if str_eq(e, r) {
        return true;
    }
    let elen = e.unicode_len();
    let rlen = r.unicode_len();
    rlen < elen && str_eq(e.substring_char(0, rlen), r) && e.get_char(rlen) == '/'
}

/// Executable form of `is_relative_path`.
fn is_relative(raw: &str) -> (b: bool)
    ensures
        b == is_relative_path(raw@),
{
    let len = raw.unicode_len();
    if len >= 2 && raw.get_char(0) == '.' && raw.get_char(1) == '/' {
        true
    } else if len == 1 && raw.get_char(0) == '.' {
        true
    } else {
        !contains_char(raw, '/')
    }
}

/// The position of the first rule whose path prefix-matches the effective
/// path of `(raw_path, cwd)`, or `usize::MAX` when no rule matches.
/// Declaration order is the tie-break: every earlier rule fails to match.
pub fn resolve(raw_path: &str, cwd: &str, rules: &Vec<Rule>) -> (r: usize)
    requires
        rules@.len() < usize::MAX,
    ensures
        r == usize::MAX ==> forall|i: int|
            0 <= i < rules@.len() ==> !scope_matches(#[trigger] rules_view(rules@)[i], raw_path@, cwd@),
        r != usize::MAX ==> r < rules@.len() && scope_matches(rules_view(rules@)[r as int], raw_path@, cwd@)
            && forall|j: int|
            0 <= j < r ==> !scope_matches(#[trigger] rules_view(rules@)[j], raw_path@, cwd@),
{
    let eff: &str = if !cwd.is_empty() && is_relative(raw_path) {
        cwd
    } else {
        raw_path
    };
    proof {
        assert(eff@ == effective_path(raw_path@, cwd@));
    }
    let mut i: usize = 0;
    while i < rules.len()
        invariant
            rules@.len() < usize::MAX,
            i <= rules@.len(),
            eff@ == effective_path(raw_path@, cwd@),
            forall|j: int|
                0 <= j < i ==> !scope_matches(#[trigger] rules_view(rules@)[j], raw_path@, cwd@),
        decreases rules@.len() - i,
    {
        if match_path(eff, rules[i].path.as_str()) {
            proof {
                assert(rules_view(rules@)[i as int] == rules@[i as int]@);
            }
            return i;
        }
        proof {
            assert(rules_view(rules@)[i as int] == rules@[i as int]@);
        }
        i = i + 1;
    }
    usize::MAX
}

/// True when some rule's scope covers `(raw_path, cwd)`, with the same
/// effective-path derivation as `resolve`.
pub fn contains(raw_path: &str, cwd: &str, rules: &Vec<Rule>) -> (b: bool)
    requires
        rules@.len() < usize::MAX,
    ensures
        b == exists|i: int|
            0 <= i < rules@.len() && scope_matches(#[trigger] rules_view(rules@)[i], raw_path@, cwd@),
{
    let r = resolve(raw_path, cwd, rules);
    r != usize::MAX
}

/// True when `filename` contains any ignore pattern of the rule at `index`
/// as a literal substring. An empty ignore list never suppresses.
pub fn is_ignored(index: usize, filename: &str, rules: &Vec<Rule>) -> (b: bool)
    requires
        index < rules@.len(),
    ensures
        b == spec_is_ignored(rules_view(rules@)[index as int], filename@),
{
    proof {
        assert(rules_view(rules@)[index as int] == rules@[index as int]@);
    }
    let ig = &rules[index].ignore;
    let mut i: usize = 0;
    while i < ig.len()
        invariant
            index < rules@.len(),
            ig == &rules@[index as int].ignore,
            i <= ig@.len(),
            forall|j: int|
                0 <= j < i ==> !contains_sub(filename@, #[trigger] ig.deep_view()[j]),
        decreases ig@.len() - i,
    {
        if contains_str(filename, ig[i].as_str()) {
            proof {
                let rv = rules_view(rules@)[index as int];
                assert(rv.ignore == ig.deep_view());
                assert(ig.deep_view()[i as int] == ig@[i as int]@);
                assert(contains_sub(filename@, rv.ignore[i as int]));
            }
            return true;
        }
        i = i + 1;
    }
    false
}

/// A copy of a vector of strings, element for element.
pub fn clone_strings(v: &Vec<String>) -> (out: Vec<String>)
    ensures
        out@ == v@,
{
    let mut out: Vec<String> = Vec::new();
    let mut i: usize = 0;
    while i < v.len()
        invariant
            i <= v@.len(),
            out@ =~= v@.subrange(0, i as int),
        decreases v@.len() - i,
    {
        out.push(v[i].clone());
        i = i + 1;
    }
    proof {
        assert(out@ =~= v@);
    }
    out
}

/// The labels of the rule at `index`, copied at call time.
pub fn labels_for(index: usize, rules: &Vec<Rule>) -> (out: Vec<String>)
    requires
        index < rules@.len(),
    ensures
        out@ == rules@[index as int].labels@,
        out.deep_view() == rules_view(rules@)[index as int].labels,
{
    proof {
        assert(rules_view(rules@)[index as int] == rules@[index as int]@);
    }
    clone_strings(&rules[index].labels)
}

/// A copy of a vector of rules, rule view for rule view.
pub fn clone_rules(rs: &Vec<Rule>) -> (out: Vec<Rule>)
    ensures
        rules_view(out@) == rules_view(rs@),
{
    let mut out: Vec<Rule> = Vec::new();
    let mut i: usize = 0;
    while i < rs.len()
        invariant
            i <= rs@.len(),
            out@.len() == i,
            forall|j: int| 0 <= j < i ==> #[trigger] out@[j]@ == rs@[j]@,
        decreases rs@.len() - i,
    {
        let r = &rs[i];
        let copy = Rule {
            path: r.path.clone(),
            labels: clone_strings(&r.labels),
            ignore: clone_strings(&r.ignore),
        };
        proof {
            assert(copy@ =~= rs@[i as int]@);
        }
        out.push(copy);
        i = i + 1;
    }
    proof {
        assert(rules_view(out@) =~= rules_view(rs@));
    }
    out
}

/// Prefix matching respects directory boundaries: a normalized rule path
/// matches itself, itself with a trailing slash, and any path below it, and
/// fails on any longer normalized path whose next character is not `/`.
pub proof fn lemma_prefix_respects_boundaries(rule: Seq<char>, suffix: Seq<char>, other: Seq<char>)
    requires
        norm_path(rule) == rule,
        norm_path(other) == other,
    ensures
        path_match(rule, rule),
        path_match(rule.push('/'), rule),
        path_match(rule + seq!['/'] + suffix, rule),
        other.len() > rule.len() && other[rule.len() as int] != '/' ==> !path_match(other, rule),
{
    assert(norm_path(rule.push('/')) =~= rule);
    let e = rule + seq!['/'] + suffix;
    if suffix.len() == 0 {
        assert(norm_path(e) =~= rule);
    } else {
        let en = norm_path(e);
        assert(en.subrange(0, rule.len() as int) =~= rule);
        assert(en[rule.len() as int] == '/');
    }
    if other.len() > rule.len() && other[rule.len() as int] != '/' {
        assert(other != rule);
    }
}

/// The relative-path fallback: when the raw path is `.`, starts with `./`,
/// or has no `/`, and a working directory was reported, resolution is
/// computed against the working directory, not the raw path.
pub proof fn lemma_relative_fallback(raw: Seq<char>, cwd: Seq<char>, rv: RuleView)
    requires
        cwd.len() > 0,
        is_relative_path(raw),
    ensures
        effective_path(raw, cwd) == cwd,
        scope_matches(rv, raw, cwd) == path_match(cwd, rv.path),
{
}

} // verus!
