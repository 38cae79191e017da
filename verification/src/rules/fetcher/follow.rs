//! `# follow:` comments: reading the directive, and picking the commit it
//! leads to among the refs a remote lists.
use vstd::prelude::*;

use crate::rules::traits::{CheckWarning, CheckWarningView, warnings_view};
use crate::text::{chars_of, split_once, split_once_exec, string_of, trim, trim_exec};
use crate::utils::fetch::{
    opt_string_view, pairs_view, refs_view, sha_of_named, tag_pairs, GitFetcher, GitRef, RefKind,
};
use crate::utils::version::{version_body, version_order, VersionDetector};

verus! {

/// The error message of compiling `pattern` with the `regex` crate, or
/// `None` when it compiles.
pub uninterp spec fn regex_build(pattern: Seq<char>) -> Option<Seq<char>>;

/// Whether the regex compiled from `pattern` matches `text`.
pub uninterp spec fn regex_full_match(pattern: Seq<char>, text: Seq<char>) -> bool;

/// What `semver::VersionReq::parse(text)` gives: the requirement as it
/// displays, or the error message.
pub uninterp spec fn semver_req_parse(text: Seq<char>) -> Result<Seq<char>, Seq<char>>;

/// Whether `version` parses as a semver version that requirement `req`
/// accepts (`None` when it does not parse).
pub uninterp spec fn semver_tag_match(req: Seq<char>, version: Seq<char>) -> Option<bool>;

/// Whether `semver::Version::parse(text)` succeeds.
pub uninterp spec fn semver_parses(text: Seq<char>) -> bool;

/// Sign of the order of `a` and `b` as semver versions, when both parse.
pub uninterp spec fn semver_tag_order(a: Seq<char>, b: Seq<char>) -> Option<i8>;

/// Compiles `pattern` with `regex::Regex::new`: `None` when it compiles,
/// else the error's text. Claims only that the outcome is a function of the
/// pattern.
#[verifier::external_body]
fn regex_check(pattern: &str) -> (r: Option<String>)
    ensures
        opt_string_view(r) == regex_build(pattern@),
{
    match regex::Regex::new(pattern) {
        Ok(_) => None,
        Err(e) => Some(format!("{:#}", e)),
    }
}

/// `regex::Regex::is_match` of the regex compiled from `pattern`, which
/// compiles. Claims only that the answer is a function of the two texts.
#[verifier::external_body]
fn regex_is_match(pattern: &str, text: &str) -> (b: bool)
    requires
        regex_build(pattern@) is None,
    ensures
        b == regex_full_match(pattern@, text@),
{
    match regex::Regex::new(pattern) {
        Ok(re) => re.is_match(text),
        Err(_) => false,
    }
}

/// `semver::VersionReq::parse`: the requirement's display text, or the
/// error's text.
#[verifier::external_body]
fn semver_req_check(text: &str) -> (r: Result<String, String>)
    ensures
        match r {
            Ok(d) => semver_req_parse(text@) == Ok::<Seq<char>, Seq<char>>(d@),
            Err(e) => semver_req_parse(text@) == Err::<Seq<char>, Seq<char>>(e@),
        },
{
    match semver::VersionReq::parse(text) {
        Ok(req) => Ok(req.to_string()),
        Err(e) => Err(format!("{:#}", e)),
    }
}

/// `semver::VersionReq::matches` of the requirement `req` (which parses)
/// on `version` parsed with `semver::Version::parse`; `None` exactly when
/// the version does not parse.
#[verifier::external_body]
fn semver_matches(req: &str, version: &str) -> (r: Option<bool>)
    requires
        semver_req_parse(req@) is Ok,
    ensures
        r == semver_tag_match(req@, version@),
        r is Some <==> semver_parses(version@),
{
    let parsed = match semver::VersionReq::parse(req) {
        Ok(p) => p,
        Err(_) => return None,
    };
    match semver::Version::parse(version) {
        Ok(v) => Some(parsed.matches(&v)),
        Err(_) => None,
    }
}

/// The comparison of two tags as `semver::Version`s (`Version::cmp`) as
/// -1, 0 or 1, when both parse with `semver::Version::parse`; `None`
/// exactly when one does not. As `Ord` promises, comparing the other way
/// round gives the opposite, and a version at or below `a` is at or below
/// `b` when `a` is at or below `b`.
#[verifier::external_body]
fn semver_order(a: &str, b: &str) -> (r: Option<i8>)
    ensures
        r == semver_tag_order(a@, b@),
        r is Some <==> (semver_parses(a@) && semver_parses(b@)),
        r is Some ==> -1 <= r->Some_0 <= 1,
        r is Some ==> (semver_tag_order(b@, a@) is Some && semver_tag_order(b@, a@)->Some_0 == -r->Some_0),
        (r is Some && r->Some_0 <= 0) ==> (forall|c: Seq<char>|
            (#[trigger] semver_tag_order(c, a@) is Some && semver_tag_order(c, a@)->Some_0 <= 0) ==> (
            semver_tag_order(c, b@) is Some && semver_tag_order(c, b@)->Some_0 <= 0)),
{
    match (semver::Version::parse(a), semver::Version::parse(b)) {
        (Ok(va), Ok(vb)) => Some(match va.cmp(&vb) {
            std::cmp::Ordering::Less => -1,
            std::cmp::Ordering::Equal => 0,
            std::cmp::Ordering::Greater => 1,
        }),
        _ => None,
    }
}

/// A tag pattern of a `# follow: regex` comment, anchored to match whole
/// tags.
pub struct FollowRegex {
    pattern: String,
}

impl FollowRegex {
    #[verifier::type_invariant]
    spec fn compiles(self) -> bool {
        regex_build(self.pattern@) is None
    }

    pub closed spec fn view_pattern(self) -> Seq<char> {
        self.pattern@
    }

    /// The anchored pattern.
    pub fn as_str(&self) -> (r: &str)
        ensures
            r@ == self.view_pattern(),
    {
        self.pattern.as_str()
    }

    /// Whether a whole tag matches.
    pub fn is_match(&self, text: &str) -> (b: bool)
        ensures
            b == regex_full_match(self.view_pattern(), text@),
    {
        proof { use_type_invariant(self); }
        regex_is_match(self.pattern.as_str(), text)
    }
}

/// The version requirement of a `# follow: semver` comment.
pub struct FollowSemver {
    requirement: String,
}

impl FollowSemver {
    #[verifier::type_invariant]
    spec fn parses(self) -> bool {
        semver_req_parse(self.requirement@) is Ok
    }

    pub closed spec fn view_requirement(self) -> Seq<char> {
        self.requirement@
    }

    /// Whether `version`, parsed as a semver version, meets the
    /// requirement (`None` when it does not parse).
    pub fn matches(&self, version: &str) -> (r: Option<bool>)
        ensures
            r == semver_tag_match(self.view_requirement(), version@),
            r is Some <==> semver_parses(version@),
    {
        proof { use_type_invariant(self); }
        semver_matches(self.requirement.as_str(), version)
    }

    /// The requirement as the `semver` crate displays it.
    pub fn display(&self) -> (r: String)
        ensures
            semver_req_parse(self.view_requirement()) == Ok::<Seq<char>, Seq<char>>(r@),
    {
        proof { use_type_invariant(self); }
        match semver_req_check(self.requirement.as_str()) {
            Ok(d) => d,
            Err(_) => String::new(),
        }
    }
}

/// What a `# follow:` comment asks for.
pub enum FollowSpec {
    Branch(String),
    Regex(FollowRegex),
    Semver(FollowSemver),
}

pub enum FollowSpecView {
    Branch(Seq<char>),
    /// The anchored pattern.
    Regex(Seq<char>),
    Semver(Seq<char>),
}

impl View for FollowSpec {
    type V = FollowSpecView;

    open spec fn view(&self) -> FollowSpecView {
        match self {
            FollowSpec::Branch(b) => FollowSpecView::Branch(b@),
            FollowSpec::Regex(r) => FollowSpecView::Regex(r.view_pattern()),
            FollowSpec::Semver(s) => FollowSpecView::Semver(s.view_requirement()),
        }
    }
}

/// The regex a `regex` directive compiles: the pattern anchored at both
/// ends.
pub open spec fn anchored(rest: Seq<char>) -> Seq<char> {
    "^(?:"@ + rest + ")$"@
}

/// Reading a `# follow:` directive: `<kind> <rest>`, with `rest` trimmed
/// and not empty; `branch`, `regex` (which must compile) or `semver`
/// (which must parse). A pattern that fails gives a warning.
pub open spec fn spec_parse_follow(s: Seq<char>) -> (Option<FollowSpecView>, Seq<CheckWarningView>) {
    match split_once(s, " "@) {
        None => (None, Seq::empty()),
        Some((kind, r)) => {
            let rest = trim(r);
            if rest.len() == 0 {
                (None, Seq::empty())
            } else if kind == "branch"@ {
                (Some(FollowSpecView::Branch(rest)), Seq::empty())
            } else if kind == "regex"@ {
                match regex_build(anchored(rest)) {
                    None => (Some(FollowSpecView::Regex(anchored(rest))), Seq::empty()),
                    Some(e) => (
                        None,
                        seq![CheckWarningView::InvalidFollowDirective {
                            directive: s,
                            source: "invalid regex '"@ + rest + "': "@ + e,
                        }],
                    ),
                }
            } else if kind == "semver"@ {
                match semver_req_parse(rest) {
                    Ok(_) => (Some(FollowSpecView::Semver(rest)), Seq::empty()),
                    Err(e) => (
                        None,
                        seq![CheckWarningView::InvalidFollowDirective {
                            directive: s,
                            source: "invalid semver requirement '"@ + rest + "': "@ + e,
                        }],
                    ),
                }
            } else {
                (None, Seq::empty())
            }
        },
    }
}

pub open spec fn opt_follow_view(o: Option<FollowSpec>) -> Option<FollowSpecView> {
    match o {
        Some(f) => Some(f@),
        None => None,
    }
}

fn concat4(a: &str, b: &str, c: &str, d: &str) -> (r: String)
    ensures
        r@ == a@ + b@ + c@ + d@,
{
    let mut r = String::from_str(a);
    r.append(b);
    r.append(c);
    r.append(d);
    r
}

/// Reads a `# follow:` directive (see [`spec_parse_follow`]).
pub fn parse_follow_spec(s: &str) -> (r: (Option<FollowSpec>, Vec<CheckWarning>))
    ensures
        (opt_follow_view(r.0), warnings_view(r.1@)) == spec_parse_follow(s@),
{
    proof {
        reveal_strlit(" ");
        reveal_strlit("branch");
        reveal_strlit("regex");
        reveal_strlit("semver");
        reveal_strlit("^(?:");
        reveal_strlit("");
        reveal_strlit(")$");
        reveal_strlit("invalid regex '");
        reveal_strlit("invalid semver requirement '");
        reveal_strlit("': ");
    }
    let sv = chars_of(s);
    let space = chars_of(" ");
    let (kind, r) = match split_once_exec(&sv, &space) {
        Some(p) => p,
        None => {
            let w: Vec<CheckWarning> = Vec::new();
            assert(warnings_view(w@) =~= Seq::<CheckWarningView>::empty());
            return (None, w);
        },
    };
    let rest_chars = trim_exec(&r);
    let rest = string_of(&rest_chars);
    let mut warnings: Vec<CheckWarning> = Vec::new();
    assert(warnings_view(warnings@) =~= Seq::<CheckWarningView>::empty());
    if rest_chars.len() == 0 {
        return (None, warnings);
    }
    if crate::text::eq_str(&kind, "branch") {
        return (Some(FollowSpec::Branch(rest)), warnings);
    }
    if crate::text::eq_str(&kind, "regex") {
        let pattern = concat4("^(?:", rest.as_str(), ")$", "");
        assert(pattern@ =~= anchored(rest@));
        match regex_check(pattern.as_str()) {
            None => {
                return (Some(FollowSpec::Regex(FollowRegex { pattern })), warnings);
            },
            Some(e) => {
                let source = concat4("invalid regex '", rest.as_str(), "': ", e.as_str());
                warnings.push(CheckWarning::InvalidFollowDirective { directive: String::from_str(s), source });
                assert(warnings_view(warnings@) =~= spec_parse_follow(s@).1);
                return (None, warnings);
            },
        }
    }
    if crate::text::eq_str(&kind, "semver") {
        match semver_req_check(rest.as_str()) {
            Ok(_) => {
                return (Some(FollowSpec::Semver(FollowSemver { requirement: rest })), warnings);
            },
            Err(e) => {
                let source = concat4("invalid semver requirement '", rest.as_str(), "': ", e.as_str());
                warnings.push(CheckWarning::InvalidFollowDirective { directive: String::from_str(s), source });
                assert(warnings_view(warnings@) =~= spec_parse_follow(s@).1);
                return (None, warnings);
            },
        }
    }
    (None, warnings)
}

} // verus!

verus! {

/// Index of the pair that `Iterator::max_by` picks among the first `n`
/// pairs whose tag matches `pattern`, ordering tags as versions (the last
/// of equal maxima).
pub open spec fn best_regex_index(pairs: Seq<(Seq<char>, Seq<char>)>, pattern: Seq<char>, n: int) -> Option<int>
    decreases n,
{
    if n <= 0 {
        None
    } else {
        let prev = best_regex_index(pairs, pattern, n - 1);
        if regex_full_match(pattern, pairs[n - 1].0) {
            match prev {
                None => Some(n - 1),
                Some(j) => if version_order(pairs[j].0, pairs[n - 1].0) == 1 {
                    Some(j)
                } else {
                    Some(n - 1)
                },
            }
        } else {
            prev
        }
    }
}

/// Whether a tag meets a semver requirement: its body (without the
/// non-numeric prefix) parses as a version that the requirement accepts.
pub open spec fn tag_meets(req: Seq<char>, tag: Seq<char>) -> bool {
    semver_tag_match(req, version_body(tag)) == Some(true)
}

/// Index of the pair that `Iterator::max_by` picks among the first `n`
/// pairs whose tag meets `req`, ordering tag bodies as semver versions.
pub open spec fn best_semver_index(pairs: Seq<(Seq<char>, Seq<char>)>, req: Seq<char>, n: int) -> Option<int>
    decreases n,
{
    if n <= 0 {
        None
    } else {
        let prev = best_semver_index(pairs, req, n - 1);
        if tag_meets(req, pairs[n - 1].0) {
            match prev {
                None => Some(n - 1),
                Some(j) => if semver_tag_order(version_body(pairs[j].0), version_body(pairs[n - 1].0)) == Some(1i8) {
                    Some(j)
                } else {
                    Some(n - 1)
                },
            }
        } else {
            prev
        }
    }
}

pub proof fn lemma_best_regex_index(pairs: Seq<(Seq<char>, Seq<char>)>, pattern: Seq<char>, n: int)
    requires
        0 <= n <= pairs.len(),
    ensures
        best_regex_index(pairs, pattern, n) matches Some(j) ==> 0 <= j < n,
    decreases n,
{
    if n > 0 {
        lemma_best_regex_index(pairs, pattern, n - 1);
    }
}

pub proof fn lemma_best_semver_index(pairs: Seq<(Seq<char>, Seq<char>)>, req: Seq<char>, n: int)
    requires
        0 <= n <= pairs.len(),
    ensures
        best_semver_index(pairs, req, n) matches Some(j) ==> 0 <= j < n && tag_meets(req, pairs[j].0),
    decreases n,
{
    if n > 0 {
        lemma_best_semver_index(pairs, req, n - 1);
    }
}

/// The tag chosen among the first `n` orders above every matching tag that
/// comes after it in the list, as versions; the tags before it each lost a
/// comparison on the way.
pub proof fn law_best_regex_tag_beats_later(pairs: Seq<(Seq<char>, Seq<char>)>, pattern: Seq<char>, n: int)
    requires
        0 <= n <= pairs.len(),
    ensures
        best_regex_index(pairs, pattern, n) matches Some(j) ==> forall|k: int|
            j < k < n && #[trigger] regex_full_match(pattern, pairs[k].0) ==> version_order(pairs[j].0, pairs[k].0)
                == 1,
    decreases n,
{
    if n > 0 {
        law_best_regex_tag_beats_later(pairs, pattern, n - 1);
    }
}

/// The tag chosen among the first `n` that meet a requirement orders above
/// every such tag that comes after it in the list, as semver versions.
pub proof fn law_best_semver_tag_beats_later(pairs: Seq<(Seq<char>, Seq<char>)>, req: Seq<char>, n: int)
    requires
        0 <= n <= pairs.len(),
    ensures
        best_semver_index(pairs, req, n) matches Some(j) ==> forall|k: int|
            j < k < n && #[trigger] tag_meets(req, pairs[k].0) ==> semver_tag_order(
                version_body(pairs[j].0),
                version_body(pairs[k].0),
            ) == Some(1i8),
    decreases n,
{
    if n > 0 {
        law_best_semver_tag_beats_later(pairs, req, n - 1);
    }
}

/// The tag chosen among those that meet `req` orders at or above every
/// other one of them, as semver versions.
pub open spec fn semver_choice_is_greatest(pairs: Seq<(Seq<char>, Seq<char>)>, req: Seq<char>) -> bool {
    best_semver_index(pairs, req, pairs.len() as int) matches Some(j) ==> forall|i: int|
        0 <= i < pairs.len() && i != j && #[trigger] tag_meets(req, pairs[i].0) ==> (semver_tag_order(
            version_body(pairs[i].0),
            version_body(pairs[j].0),
        ) is Some && semver_tag_order(version_body(pairs[i].0), version_body(pairs[j].0))->Some_0 <= 0)
}

proof fn lemma_no_best_semver(pairs: Seq<(Seq<char>, Seq<char>)>, req: Seq<char>, n: int)
    requires
        0 <= n <= pairs.len(),
        best_semver_index(pairs, req, n) is None,
    ensures
        forall|i: int| 0 <= i < n ==> !tag_meets(req, pairs[i].0),
    decreases n,
{
    if n > 0 {
        lemma_no_best_semver(pairs, req, n - 1);
    }
}

/// The commit a follow directive leads to, given what listing the remote's
/// refs gave: the branch's head; or the commit of the greatest tag (as a
/// version, or as a semver version) among those the regex matches or that
/// meet the requirement. A failure to list, a missing branch or no matching
/// tag gives a warning and no commit.
pub open spec fn spec_resolve_follow(
    spec: FollowSpecView,
    git_url: Seq<char>,
    refs: Result<Seq<crate::utils::fetch::GitRefView>, Seq<char>>,
) -> (Option<Seq<char>>, Seq<CheckWarningView>) {
    match refs {
        Err(e) => (None, seq![CheckWarningView::FollowResolutionFailed { git_url, source: e }]),
        Ok(rs) => match spec {
            FollowSpecView::Branch(b) => match sha_of_named(rs, RefKind::Branch, b) {
                Some(sha) => (Some(sha), Seq::empty()),
                None => (None, seq![CheckWarningView::FollowBranchNotFound { git_url, branch: b }]),
            },
            FollowSpecView::Regex(p) => {
                let pairs = tag_pairs(rs);
                match best_regex_index(pairs, p, pairs.len() as int) {
                    Some(j) => (Some(pairs[j].1), Seq::empty()),
                    None => (None, seq![CheckWarningView::FollowRegexNoMatch { git_url, pattern: p }]),
                }
            },
            FollowSpecView::Semver(req) => {
                let pairs = tag_pairs(rs);
                match best_semver_index(pairs, req, pairs.len() as int) {
                    Some(j) => (Some(pairs[j].1), Seq::empty()),
                    None => (
                        None,
                        seq![CheckWarningView::FollowSemverNoMatch {
                            git_url,
                            requirement: semver_req_parse(req)->Ok_0,
                        }],
                    ),
                }
            },
        },
    }
}

pub open spec fn refs_result_view(r: Result<Vec<GitRef>, String>) -> Result<
    Seq<crate::utils::fetch::GitRefView>,
    Seq<char>,
> {
    match r {
        Ok(v) => Ok(refs_view(v@)),
        Err(e) => Err(e@),
    }
}

fn one_warning(w: CheckWarning) -> (r: Vec<CheckWarning>)
    ensures
        warnings_view(r@) == seq![w@],
{
    let mut v: Vec<CheckWarning> = Vec::new();
    v.push(w);
    assert(warnings_view(v@) =~= seq![w@]);
    v
}

fn no_warnings() -> (r: Vec<CheckWarning>)
    ensures
        warnings_view(r@) == Seq::<CheckWarningView>::empty(),
{
    let v: Vec<CheckWarning> = Vec::new();
    assert(warnings_view(v@) =~= Seq::<CheckWarningView>::empty());
    v
}

/// The commit a follow directive leads to (see [`spec_resolve_follow`]),
/// given the outcome of listing the remote's refs.
pub fn resolve_follow(spec: &FollowSpec, git_url: &str, refs: &Result<Vec<GitRef>, String>) -> (r: (
    Option<String>,
    Vec<CheckWarning>,
))
    ensures
        (opt_string_view(r.0), warnings_view(r.1@)) == spec_resolve_follow(spec@, git_url@, refs_result_view(*refs)),
        spec@ matches FollowSpecView::Semver(req) ==> (refs_result_view(*refs) matches Ok(rs)
            ==> semver_choice_is_greatest(tag_pairs(rs), req)),
{
    let rs = match refs {
        Err(e) => {
            return (
                None,
                one_warning(CheckWarning::FollowResolutionFailed { git_url: String::from_str(git_url), source: e.clone() }),
            );
        },
        Ok(rs) => rs,
    };
    match spec {
        FollowSpec::Branch(b) => match GitFetcher::get_latest_commit(rs.as_slice(), b.as_str()) {
            Some(sha) => (Some(sha), no_warnings()),
            None => (
                None,
                one_warning(CheckWarning::FollowBranchNotFound { git_url: String::from_str(git_url), branch: b.clone() }),
            ),
        },
        FollowSpec::Regex(re) => {
            let pairs = GitFetcher::list_tags(rs.as_slice());
            let ghost pv = pairs_view(pairs@);
            let mut best: Option<usize> = None;
            let mut k: usize = 0;
            while k < pairs.len()
                invariant
                    k <= pairs@.len(),
                    pv == pairs_view(pairs@),
                    pv.len() == pairs@.len(),
                    match best {
                        Some(j) => best_regex_index(pv, re.view_pattern(), k as int) == Some(j as int),
                        None => best_regex_index(pv, re.view_pattern(), k as int) is None,
                    },
                decreases pairs.len() - k,
            {
                proof { lemma_best_regex_index(pv, re.view_pattern(), k as int); }
                assert(pv[k as int].0 == pairs@[k as int].0@);
                if re.is_match(pairs[k].0.as_str()) {
                    best = match best {
                        None => Some(k),
                        Some(j) => {
                            assert(pv[j as int].0 == pairs@[j as int].0@);
                            if VersionDetector::order(pairs[j].0.as_str(), pairs[k].0.as_str()) == 1 {
                                Some(j)
                            } else {
                                Some(k)
                            }
                        },
                    };
                }
                k += 1;
            }
            proof { lemma_best_regex_index(pv, re.view_pattern(), pv.len() as int); }
            match best {
                Some(j) => {
                    assert(pv[j as int].1 == pairs@[j as int].1@);
                    (Some(pairs[j].1.clone()), no_warnings())
                },
                None => (
                    None,
                    one_warning(
                        CheckWarning::FollowRegexNoMatch {
                            git_url: String::from_str(git_url),
                            pattern: String::from_str(re.as_str()),
                        },
                    ),
                ),
            }
        },
        FollowSpec::Semver(req) => {
            let pairs = GitFetcher::list_tags(rs.as_slice());
            let ghost pv = pairs_view(pairs@);
            let mut best: Option<usize> = None;
            let mut k: usize = 0;
            while k < pairs.len()
                invariant
                    k <= pairs@.len(),
                    pv == pairs_view(pairs@),
                    pv.len() == pairs@.len(),
                    match best {
                        Some(j) => best_semver_index(pv, req.view_requirement(), k as int) == Some(j as int),
                        None => best_semver_index(pv, req.view_requirement(), k as int) is None,
                    },
                    forall|i: int|
                        0 <= i < k && #[trigger] tag_meets(req.view_requirement(), pv[i].0) ==> semver_parses(
                            version_body(pv[i].0),
                        ),
                    best matches Some(j) ==> forall|i: int|
                        0 <= i < k && i != j && #[trigger] tag_meets(req.view_requirement(), pv[i].0) ==> (
                        semver_tag_order(version_body(pv[i].0), version_body(pv[j as int].0)) is Some
                            && semver_tag_order(version_body(pv[i].0), version_body(pv[j as int].0))->Some_0 <= 0),
                decreases pairs.len() - k,
            {
                proof {
                    if best is None {
                        lemma_no_best_semver(pv, req.view_requirement(), k as int);
                    }
                }
                proof { lemma_best_semver_index(pv, req.view_requirement(), k as int); }
                assert(pv[k as int].0 == pairs@[k as int].0@);
                let body = VersionDetector::body(pairs[k].0.as_str());
                let ghost rq = req.view_requirement();
                if req.matches(body.as_str()) == Some(true) {
                    let ghost bk = version_body(pv[k as int].0);
                    assert(tag_meets(rq, pv[k as int].0));
                    best = match best {
                        None => Some(k),
                        Some(j) => {
                            assert(pv[j as int].0 == pairs@[j as int].0@);
                            let body_j = VersionDetector::body(pairs[j].0.as_str());
                            let ghost bj = version_body(pv[j as int].0);
                            assert(tag_meets(rq, pv[j as int].0));
                            let o = semver_order(body_j.as_str(), body.as_str());
                            let greater = match o {
                                Some(o) => o == 1,
                                None => false,
                            };
                            if greater {
                                proof {
                                    assert(semver_tag_order(bk, bj) == Some(-1i8));
                                }
                                Some(j)
                            } else {
                                proof {
                                    assert(o is Some);
                                    assert forall|i: int|
                                        0 <= i < k + 1 && i != k && #[trigger] tag_meets(rq, pv[i].0) implies (
                                        semver_tag_order(version_body(pv[i].0), bk) is Some && semver_tag_order(
                                            version_body(pv[i].0),
                                            bk,
                                        )->Some_0 <= 0) by {
                                        if i != j {
                                            assert(semver_tag_order(version_body(pv[i].0), bj) is Some);
                                        }
                                    }
                                }
                                Some(k)
                            }
                        },
                    };
                }
                k += 1;
            }
            proof {
                lemma_best_semver_index(pv, req.view_requirement(), pv.len() as int);
                assert(semver_choice_is_greatest(pv, req.view_requirement()));
            }
            match best {
                Some(j) => {
                    assert(pv[j as int].1 == pairs@[j as int].1@);
                    (Some(pairs[j].1.clone()), no_warnings())
                },
                None => (
                    None,
                    one_warning(
                        CheckWarning::FollowSemverNoMatch { git_url: String::from_str(git_url), requirement: req.display() },
                    ),
                ),
            }
        },
    }
}

} // verus!
