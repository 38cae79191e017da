//! Proposed edits of a Nix file and groups of edits applied together.
use vstd::prelude::*;

use crate::parser::TextRange;

verus! {

/// Replacing the text at `range` with `replacement`.
#[derive(Debug, Clone)]
pub struct Update {
    /// What is changed, e.g. `inputs.foo.ref`.
    pub field: String,
    pub replacement: String,
    pub range: TextRange,
    /// The rule that proposed the update.
    pub rule_name: String,
    /// What the update is about, e.g. `github.com/foo/bar`.
    pub target: Option<String>,
}

impl Update {
    /// An update with no rule name and no target yet.
    pub fn new(field: &str, replacement: &str, range: TextRange) -> (r: Self)
        ensures
            r.field@ == field@,
            r.replacement@ == replacement@,
            r.range == range,
            r.rule_name@ == Seq::<char>::empty(),
            r.target is None,
    {
        Update {
            field: String::from_str(field),
            replacement: String::from_str(replacement),
            range,
            rule_name: String::new(),
            target: None,
        }
    }

    /// The same update about `target`.
    pub fn with_target(self, target: &str) -> (r: Self)
        ensures
            r.field == self.field,
            r.replacement == self.replacement,
            r.range == self.range,
            r.rule_name == self.rule_name,
            r.target matches Some(t) && t@ == target@,
    {
        let mut s = self;
        s.target = Some(String::from_str(target));
        s
    }
}

/// What a proposed update stands for: the field, the new text and where it
/// goes.
pub struct UpdateView {
    pub field: Seq<char>,
    pub replacement: Seq<char>,
    pub range: TextRange,
}

impl View for Update {
    type V = UpdateView;

    open spec fn view(&self) -> UpdateView {
        UpdateView { field: self.field@, replacement: self.replacement@, range: self.range }
    }
}

pub open spec fn updates_view(v: Seq<Update>) -> Seq<UpdateView> {
    v.map_values(|u: Update| u@)
}

/// Updates that are applied together or not at all.
#[derive(Debug, Clone)]
pub struct UpdateGroup {
    pub updates: Vec<Update>,
    /// What the group is about, e.g. `github.com/foo/bar`.
    pub target: Option<String>,
}

impl UpdateGroup {
    pub fn new(updates: Vec<Update>) -> (r: Self)
        ensures
            r.updates == updates,
            r.target is None,
    {
        UpdateGroup { updates, target: None }
    }

    pub fn is_empty(&self) -> (b: bool)
        ensures
            b == (self.updates@.len() == 0),
    {
        self.updates.len() == 0
    }
}

/// Something a rule could not do, reported beside the updates it found.
#[derive(Debug, Clone)]
pub enum CheckWarning {
    /// A `# follow:` comment that names a pattern that does not compile.
    InvalidFollowDirective { directive: String, source: String },
    /// The branch a `# follow: branch` comment names is not on the remote.
    FollowBranchNotFound { git_url: String, branch: String },
    /// The remote's refs could not be listed.
    FollowResolutionFailed { git_url: String, source: String },
    /// No tag of the remote matches a `# follow: regex` pattern.
    FollowRegexNoMatch { git_url: String, pattern: String },
    /// No tag of the remote meets a `# follow: semver` requirement.
    FollowSemverNoMatch { git_url: String, requirement: String },
    /// A hash could not be computed.
    HashPrefetchFailed { url: String, rev: String, source: String },
}

pub enum CheckWarningView {
    InvalidFollowDirective { directive: Seq<char>, source: Seq<char> },
    FollowBranchNotFound { git_url: Seq<char>, branch: Seq<char> },
    FollowResolutionFailed { git_url: Seq<char>, source: Seq<char> },
    FollowRegexNoMatch { git_url: Seq<char>, pattern: Seq<char> },
    FollowSemverNoMatch { git_url: Seq<char>, requirement: Seq<char> },
    HashPrefetchFailed { url: Seq<char>, rev: Seq<char>, source: Seq<char> },
}

impl View for CheckWarning {
    type V = CheckWarningView;

    open spec fn view(&self) -> CheckWarningView {
        match self {
            CheckWarning::InvalidFollowDirective { directive, source } => CheckWarningView::InvalidFollowDirective {
                directive: directive@,
                source: source@,
            },
            CheckWarning::FollowBranchNotFound { git_url, branch } => CheckWarningView::FollowBranchNotFound {
                git_url: git_url@,
                branch: branch@,
            },
            CheckWarning::FollowResolutionFailed { git_url, source } => CheckWarningView::FollowResolutionFailed {
                git_url: git_url@,
                source: source@,
            },
            CheckWarning::FollowRegexNoMatch { git_url, pattern } => CheckWarningView::FollowRegexNoMatch {
                git_url: git_url@,
                pattern: pattern@,
            },
            CheckWarning::FollowSemverNoMatch { git_url, requirement } => CheckWarningView::FollowSemverNoMatch {
                git_url: git_url@,
                requirement: requirement@,
            },
            CheckWarning::HashPrefetchFailed { url, rev, source } => CheckWarningView::HashPrefetchFailed {
                url: url@,
                rev: rev@,
                source: source@,
            },
        }
    }
}

pub open spec fn warnings_view(v: Seq<CheckWarning>) -> Seq<CheckWarningView> {
    v.map_values(|w: CheckWarning| w@)
}

/// The text of a warning, for people.
pub open spec fn warning_text(w: CheckWarningView) -> Seq<char> {
    match w {
        CheckWarningView::InvalidFollowDirective { directive, source } => "invalid follow directive '"@ + directive
            + "': "@ + source,
        CheckWarningView::FollowBranchNotFound { git_url, branch } => "could not find branch '"@ + branch
            + "' for "@ + git_url,
        CheckWarningView::FollowResolutionFailed { git_url, source } => "could not list refs of "@ + git_url + ": "@
            + source,
        CheckWarningView::FollowRegexNoMatch { git_url, pattern } => "no tag of "@ + git_url + " matches regex '"@
            + pattern + "'"@,
        CheckWarningView::FollowSemverNoMatch { git_url, requirement } => "no tag of "@ + git_url
            + " meets semver requirement '"@ + requirement + "'"@,
        CheckWarningView::HashPrefetchFailed { url, rev, source } => "could not compute hash for "@ + url + " at '"@
            + rev + "': "@ + source,
    }
}

fn join3(a: &str, b: &str, c: &str) -> (r: String)
    ensures
        r@ == a@ + b@ + c@,
{
    let mut r = String::from_str(a);
    r.append(b);
    r.append(c);
    r
}

impl CheckWarning {
    /// The warning's text.
    pub fn message(&self) -> (r: String)
        ensures
            r@ == warning_text(self@),
    {
        proof {
            reveal_strlit("invalid follow directive '");
            reveal_strlit("': ");
            reveal_strlit("could not find branch '");
            reveal_strlit("' for ");
            reveal_strlit("could not list refs of ");
            reveal_strlit(": ");
            reveal_strlit("no tag of ");
            reveal_strlit(" matches regex '");
            reveal_strlit("'");
            reveal_strlit(" meets semver requirement '");
            reveal_strlit("could not compute hash for ");
            reveal_strlit(" at '");
        }
        match self {
            CheckWarning::InvalidFollowDirective { directive, source } => {
                let mut r = join3("invalid follow directive '", directive.as_str(), "': ");
                r.append(source.as_str());
                r
            },
            CheckWarning::FollowBranchNotFound { git_url, branch } => {
                let mut r = join3("could not find branch '", branch.as_str(), "' for ");
                r.append(git_url.as_str());
                r
            },
            CheckWarning::FollowResolutionFailed { git_url, source } => {
                let mut r = join3("could not list refs of ", git_url.as_str(), ": ");
                r.append(source.as_str());
                r
            },
            CheckWarning::FollowRegexNoMatch { git_url, pattern } => {
                let mut r = join3("no tag of ", git_url.as_str(), " matches regex '");
                r.append(pattern.as_str());
                r.append("'");
                r
            },
            CheckWarning::FollowSemverNoMatch { git_url, requirement } => {
                let mut r = join3("no tag of ", git_url.as_str(), " meets semver requirement '");
                r.append(requirement.as_str());
                r.append("'");
                r
            },
            CheckWarning::HashPrefetchFailed { url, rev, source } => {
                let mut r = join3("could not compute hash for ", url.as_str(), " at '");
                r.append(rev.as_str());
                r.append("': ");
                r.append(source.as_str());
                r
            },
        }
    }
}

/// What a rule found at a node: groups of updates, and warnings.
#[derive(Debug, Clone)]
pub struct CheckResult {
    pub groups: Vec<UpdateGroup>,
    pub warnings: Vec<CheckWarning>,
}

impl CheckResult {
    /// Nothing found.
    pub fn empty() -> (r: Self)
        ensures
            r.groups@.len() == 0,
            r.warnings@.len() == 0,
    {
        CheckResult { groups: Vec::new(), warnings: Vec::new() }
    }

    /// No updates, only `warnings`.
    pub fn with_warnings(warnings: Vec<CheckWarning>) -> (r: Self)
        ensures
            r.groups@.len() == 0,
            r.warnings == warnings,
    {
        CheckResult { groups: Vec::new(), warnings }
    }
}

} // verus!
