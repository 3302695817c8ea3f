//! Regex-driven file replacement engine: each rule names a file, a search
//! pattern, a replacement template and occurrence bounds.  The engine
//! validates the rule, counts pattern matches, and either reports the
//! rewritten contents or fails with the corresponding bound error — all
//! behind the dry-run/execute duality: the success or failure signal never
//! depends on dry-run, and a write is requested only in execute mode.

use vstd::prelude::*;
use crate::error::FatalError;
use crate::template::Template;
use crate::template::render_spec;

verus! {

/// One configured replacement rule.
#[derive(Debug)]
pub struct Replace {
    pub file: Option<String>,
    pub search: Option<String>,
    pub replace: Option<String>,
    pub min: usize,
    pub max: Option<usize>,
    pub prerelease: bool,
}

/// Whether the search pattern compiles as a regular expression.
pub uninterp spec fn regex_valid(pat: Seq<char>) -> bool;

/// The number of non-overlapping matches of the pattern in the text.
pub uninterp spec fn regex_count(pat: Seq<char>, text: Seq<char>) -> nat;

/// The text with its first `limit` matches (all of them when `limit` is
/// zero) replaced.
pub uninterp spec fn regex_replaced(pat: Seq<char>, text: Seq<char>, limit: nat, rep: Seq<char>) -> Seq<char>;

/// Relies on `regex::Regex::new` and `regex::Regex::find_iter`: whether
/// the pattern compiles, and how many non-overlapping matches it has in
/// the haystack; both are functions of pattern and haystack alone.
#[verifier::external_body]
fn regex_count_matches(pattern: &str, text: &str) -> (r: Result<usize, String>)
    ensures
        r is Ok <==> regex_valid(pattern@),
        r matches Ok(n) ==> n == regex_count(pattern@, text@),
{
    match regex::Regex::new(pattern) {
        Ok(re) => Ok(re.find_iter(text).count()),
        Err(e) => Err(e.to_string()),
    }
}

/// Relies on `regex::Regex::new` and `regex::Regex::replacen`: the
/// haystack with its first `limit` matches (all when zero) replaced, a
/// function of the arguments alone.
#[verifier::external_body]
fn regex_replacen(pattern: &str, text: &str, limit: usize, rep: &str) -> (r: Result<String, String>)
    ensures
        r is Ok <==> regex_valid(pattern@),
        r matches Ok(s) ==> s@ == regex_replaced(pattern@, text@, limit as nat, rep@),
{
    match regex::Regex::new(pattern) {
        Ok(re) => Ok(re.replacen(text, limit, rep).into_owned()),
        Err(e) => Err(e.to_string()),
    }
}

/// A rule with its file, search and replace fields all set.
pub open spec fn rule_complete(rule: Replace) -> bool {
    rule.file is Some && rule.search is Some && rule.replace is Some
}

/// A rule marked prerelease-only is skipped when the release is not a
/// prerelease.
pub open spec fn rule_skipped(rule: Replace, prerelease: bool) -> bool {
    rule.prerelease && !prerelease
}

/// The occurrence count lies within the rule's bounds.
pub open spec fn count_in_bounds(k: nat, min: nat, max: Option<usize>) -> bool {
    min <= k && (match max {
        Some(m) => k <= m,
        None => true,
    })
}

/// Success of one rule on given file contents; independent of dry-run.
pub open spec fn rule_succeeds(rule: Replace, contents: Option<Seq<char>>, prerelease: bool) -> bool {
    rule_complete(rule) && (rule_skipped(rule, prerelease) || (contents matches Some(c)
        && regex_valid(rule.search->0@) && count_in_bounds(
        regex_count(rule.search->0@, c),
        rule.min as nat,
        rule.max,
    )))
}

/// What one rule reports: skipped, or applied with the match count, the
/// rewritten contents, and whether a write is requested.
#[derive(Debug)]
pub enum RuleOutcome {
    Skipped,
    Applied { count: usize, new_contents: String, write: bool },
}

/// Occurrence-bound validation: succeeds exactly when the match count
/// lies within the configured bounds, and names the violated bound
/// otherwise.
pub fn check_occurrences(pattern: &String, k: usize, min: usize, max: Option<usize>) -> (r: Result<
    (),
    FatalError,
>)
    ensures
        r is Ok <==> count_in_bounds(k as nat, min as nat, max),
        k < min ==> (r matches Err(FatalError::ReplacerMinError(p, rq, ac)) && p@ == pattern@ && rq
            == min && ac == k),
        k >= min && (max matches Some(m) && k > m) ==> (r matches Err(
            FatalError::ReplacerMaxError(p, rq, ac),
        ) && p@ == pattern@ && ac == k && (max matches Some(m) && rq == m)),
{
    if k < min {
        Err(FatalError::ReplacerMinError(pattern.clone(), min, k))
    } else {
        match max {
            Some(m) => {
                if k > m {
                    Err(FatalError::ReplacerMaxError(pattern.clone(), m, k))
                } else {
                    Ok(())
                }
            },
            None => Ok(()),
        }
    }
}

/// Applies one rule to the contents of its file (`None` when the file
/// does not exist).  Succeeds exactly when [`rule_succeeds`] holds — the
/// same signal under dry-run and execute — and requests a write only in
/// execute mode.
pub fn apply_replace(
    rule: &Replace,
    template: &Template,
    contents: Option<&String>,
    prerelease: bool,
    dry_run: bool,
) -> (r: Result<RuleOutcome, FatalError>)
    ensures
        r is Ok <==> rule_succeeds(*rule, match contents {
            Some(c) => Some(c@),
            None => None,
        }, prerelease),
        !rule_complete(*rule) ==> r matches Err(FatalError::ReplacerConfigError),
        rule_complete(*rule) && rule_skipped(*rule, prerelease) ==> r == Ok::<
            RuleOutcome,
            FatalError,
        >(RuleOutcome::Skipped),
        rule_complete(*rule) && !rule_skipped(*rule, prerelease) && contents is None ==> (
        r matches Err(FatalError::FileNotFound(f)) && f@ == rule.file->0@),
        rule_complete(*rule) && !rule_skipped(*rule, prerelease) && contents is Some
            && !regex_valid(rule.search->0@) ==> r matches Err(FatalError::ReplacerRegexError(_)),
        rule_complete(*rule) && !rule_skipped(*rule, prerelease) && contents is Some
            && regex_valid(rule.search->0@) ==> {
            let k = regex_count(rule.search->0@, contents->0@);
            &&& k < rule.min ==> (r matches Err(FatalError::ReplacerMinError(_, rq, ac)) && rq
                == rule.min && ac == k)
            &&& k >= rule.min && (rule.max matches Some(m) && k > m) ==> (r matches Err(
                FatalError::ReplacerMaxError(_, _, ac),
            ) && ac == k)
            &&& count_in_bounds(k, rule.min as nat, rule.max) ==> (r matches Ok(
                RuleOutcome::Applied { count, new_contents, write },
            ) && count == k && write == !dry_run && new_contents@ == regex_replaced(
                rule.search->0@,
                contents->0@,
                0,
                render_spec(*template, rule.replace->0@),
            ))
        },
{
    let (file, search, replace) = match (&rule.file, &rule.search, &rule.replace) {
        (Some(f), Some(s), Some(p)) => (f, s, p),
        _ => {
            return Err(FatalError::ReplacerConfigError);
        },
    };
    if rule.prerelease && !prerelease {
        return Ok(RuleOutcome::Skipped);
    }
    let contents = match contents {
        Some(c) => c,
        None => {
            return Err(FatalError::FileNotFound(file.clone()));
        },
    };
    let count = match regex_count_matches(search.as_str(), contents.as_str()) {
        Ok(n) => n,
        Err(e) => {
            return Err(FatalError::ReplacerRegexError(e));
        },
    };
    match check_occurrences(search, count, rule.min, rule.max) {
        Ok(()) => {},
        Err(e) => {
            return Err(e);
        },
    }
    let rendered = template.render(replace.as_str());
    let new_contents = match regex_replacen(search.as_str(), contents.as_str(), 0, rendered.as_str()) {
        Ok(s) => s,
        Err(e) => {
            return Err(FatalError::ReplacerRegexError(e));
        },
    };
    Ok(RuleOutcome::Applied { count, new_contents, write: !dry_run })
}

/// The outcome reported for one rule agrees with [`apply_replace`]'s
/// success contract.
pub open spec fn outcome_ok(
    rule: Replace,
    template: Template,
    contents: Option<Seq<char>>,
    prerelease: bool,
    dry_run: bool,
    out: RuleOutcome,
) -> bool {
    if rule_skipped(rule, prerelease) {
        out is Skipped
    } else {
        out matches RuleOutcome::Applied { count, new_contents, write } && count == regex_count(
            rule.search->0@,
            contents->0,
        ) && write == !dry_run && new_contents@ == regex_replaced(
            rule.search->0@,
            contents->0,
            0,
            render_spec(template, rule.replace->0@),
        )
    }
}

/// Law: dry-run purity — for one rule on given file contents, dry-run
/// and execute agree on the whole outcome (the success signal, the match
/// count and the rewritten contents); only the write request differs,
/// and under dry-run no write is requested at all.
pub proof fn lemma_dry_run_purity(
    rule: Replace,
    template: Template,
    contents: Option<Seq<char>>,
    prerelease: bool,
    dry: RuleOutcome,
    wet: RuleOutcome,
)
    requires
        !rule_skipped(rule, prerelease),
        outcome_ok(rule, template, contents, prerelease, true, dry),
        outcome_ok(rule, template, contents, prerelease, false, wet),
    ensures
        dry matches RuleOutcome::Applied { count: c1, new_contents: n1, write: w1 } && (
        wet matches RuleOutcome::Applied { count: c2, new_contents: n2, write: w2 } && c1 == c2
            && n1@ == n2@ && !w1 && w2),
{
}

/// The view of the optional contents of each file slot.
pub open spec fn contents_view(contents: Seq<Option<String>>, i: int) -> Option<Seq<char>> {
    match contents[i] {
        Some(c) => Some(c@),
        None => None,
    }
}

/// Applies every rule, in configuration order, to the contents supplied
/// for it (`None` where its file does not exist).  All-or-nothing: the
/// first failing rule aborts the whole batch with its error and no
/// outcome is reported.  The success signal is independent of dry-run.
pub fn do_file_replacements(
    rules: &Vec<Replace>,
    template: &Template,
    contents: &Vec<Option<String>>,
    prerelease: bool,
    dry_run: bool,
) -> (r: Result<Vec<RuleOutcome>, FatalError>)
    requires
        rules@.len() == contents@.len(),
    ensures
        r is Ok <==> (forall|i: int|
            0 <= i < rules@.len() ==> rule_succeeds(
                rules@[i],
                contents_view(contents@, i),
                prerelease,
            )),
        r matches Ok(outs) ==> outs@.len() == rules@.len() && (forall|i: int|
            0 <= i < rules@.len() ==> outcome_ok(
                rules@[i],
                *template,
                contents_view(contents@, i),
                prerelease,
                dry_run,
                outs@[i],
            )),
        r is Err ==> (exists|i: int|
            0 <= i < rules@.len() && !rule_succeeds(
                rules@[i],
                contents_view(contents@, i),
                prerelease,
            )),
{
    let mut outs: Vec<RuleOutcome> = Vec::new();
    let n = rules.len();
    let mut i: usize = 0;
    while i < n
        invariant
            i <= n,
            n == rules@.len(),
            rules@.len() == contents@.len(),
            outs@.len() == i,
            forall|j: int|
                0 <= j < i ==> rule_succeeds(rules@[j], contents_view(contents@, j), prerelease),
            forall|j: int|
                0 <= j < i ==> outcome_ok(
                    rules@[j],
                    *template,
                    contents_view(contents@, j),
                    prerelease,
                    dry_run,
                    outs@[j],
                ),
        decreases n - i,
    {
        let c: Option<&String> = match &contents[i] {
            Some(c) => Some(c),
            None => None,
        };
        match apply_replace(&rules[i], template, c, prerelease, dry_run) {
            Ok(out) => {
                outs.push(out);
            },
            Err(e) => {
                return Err(e);
            },
        }
        i = i + 1;
    }
    Ok(outs)
}

} // verus!
