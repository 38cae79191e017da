//! The decisions of a git prefetch, as a machine that is told what came of
//! each step and answers with the next one: set up the repository, fetch
//! (shallow when it can), check out the revision (a tree through a commit
//! made from it), update submodules and LFS objects, clean up `.git`, and
//! hash.
use vstd::prelude::*;

use crate::prefetch::{Error, ErrorView, PrefetchResult, ResultView};
use crate::rules::fetcher::hashing::PrefetchArgs;
use crate::text::{chars_of, eq_str, join_exec, join_with, string_of, trim, trim_exec};
use crate::utils::fetch::opt_string_view;
use crate::utils::patch::{utf8_lossy, utf8_lossy_of};

verus! {

/// How a git command is run and what is made of it.
#[derive(Debug, Clone, Copy, PartialEq, Eq, Structural)]
pub enum GitMode {
    /// Its failure ends the prefetch.
    Checked,
    /// Only whether it succeeded matters; its output is discarded.
    Quiet,
    /// Its standard output is read; its failure ends the prefetch.
    Output,
}

/// The stages of a prefetch, in the order they can come.
#[derive(Debug, Clone, Copy, PartialEq, Eq, Structural)]
pub enum Stage {
    Init,
    AddRemote,
    GpgCommit,
    GpgTag,
    PartialFilter,
    Sparse,
    DeepFetch,
    ShallowFetch,
    FallbackFetch,
    UserEmail,
    UserName,
    FetchHead,
    CatFile,
    Checkout,
    CommitTree,
    CheckoutTree,
    RevParse,
    Submodules,
    LfsInstall,
    LfsPull,
    Cleanup,
    Hash,
    Finished,
}

/// What the caller does next.
#[derive(Debug)]
pub enum Step {
    /// Run `git` with these arguments in the checkout directory.
    Git { args: Vec<String>, mode: GitMode },
    /// Run `git sparse-checkout set --stdin` with this input.
    SparseSet(String),
    /// Make every `.git` directory under the checkout deterministic.
    MakeDeterministic,
    /// Remove every `.git` entry under the checkout.
    RemoveDotGit,
    /// Hash the checkout, or this subdirectory of it.
    Hash(Option<String>),
    /// The prefetch is over.
    Done(Result<PrefetchResult, Error>),
}

/// What came of a git command.
pub enum GitOutcome {
    /// It ran: whether it succeeded, and what it wrote.
    Ran { success: bool, stdout: Vec<u8>, stderr: Vec<u8> },
    /// It could not be run; the error's text.
    NotRun(String),
}

/// What came of hashing the checkout.
pub enum HashOutcome {
    /// The directory to hash does not exist; its path.
    Missing(String),
    /// Hashing failed.
    Failed(Error),
    /// The hash, in SRI form and in Nix's base32.
    Hashed { sri: String, nix32: String },
}

pub enum StepView {
    Git { args: Seq<Seq<char>>, mode: GitMode },
    SparseSet(Seq<char>),
    MakeDeterministic,
    RemoveDotGit,
    Hash(Option<Seq<char>>),
    Done(Result<ResultView, ErrorView>),
}

pub open spec fn strings_view(v: Seq<String>) -> Seq<Seq<char>> {
    v.map_values(|s: String| s@)
}

impl View for Step {
    type V = StepView;

    open spec fn view(&self) -> StepView {
        match self {
            Step::Git { args, mode } => StepView::Git { args: strings_view(args@), mode: *mode },
            Step::SparseSet(s) => StepView::SparseSet(s@),
            Step::MakeDeterministic => StepView::MakeDeterministic,
            Step::RemoveDotGit => StepView::RemoveDotGit,
            Step::Hash(d) => StepView::Hash(opt_string_view(*d)),
            Step::Done(r) => StepView::Done(
                match r {
                    Ok(v) => Ok(v@),
                    Err(e) => Err(e@),
                },
            ),
        }
    }
}

pub enum OutcomeView {
    Ran { success: bool, stdout: Seq<u8>, stderr: Seq<u8> },
    NotRun(Seq<char>),
}

impl View for GitOutcome {
    type V = OutcomeView;

    open spec fn view(&self) -> OutcomeView {
        match self {
            GitOutcome::Ran { success, stdout, stderr } => OutcomeView::Ran {
                success: *success,
                stdout: stdout@,
                stderr: stderr@,
            },
            GitOutcome::NotRun(e) => OutcomeView::NotRun(e@),
        }
    }
}

/// What a prefetch is asked to do, as plain values.
pub struct ArgsView {
    pub url: Seq<char>,
    pub rev: Seq<char>,
    pub fetch_submodules: bool,
    pub deep_clone: bool,
    pub leave_dot_git: bool,
    pub fetch_lfs: bool,
    pub branch_name: Option<Seq<char>>,
    pub root_dir: Option<Seq<char>>,
    pub sparse_checkout: Seq<Seq<char>>,
}

pub open spec fn args_view(a: PrefetchArgs) -> ArgsView {
    ArgsView {
        url: a.url@,
        rev: a.rev@,
        fetch_submodules: a.fetch_submodules,
        deep_clone: a.deep_clone,
        leave_dot_git: a.leave_dot_git,
        fetch_lfs: a.fetch_lfs,
        branch_name: opt_string_view(a.branch_name),
        root_dir: opt_string_view(a.root_dir),
        sparse_checkout: strings_view(a.sparse_checkout@),
    }
}

/// A prefetch under way: what it was asked, the checkout directory (as
/// errors name it), the stage whose outcome it waits for, what it learned
/// so far, and the git command it waits for.
pub struct Prefetch {
    pub args: PrefetchArgs,
    pub dir: String,
    pub stage: Stage,
    /// Whether the fetch was shallow.
    pub shallow: bool,
    /// What is checked out: the revision asked for, or what `FETCH_HEAD`
    /// resolved to.
    pub target: String,
    /// The commit made from a tree.
    pub commit: String,
    /// The commit the branch points to once checked out.
    pub full_rev: String,
    /// The arguments of the git command waited for.
    pub pending: Vec<String>,
}

pub struct PrefetchView {
    pub args: ArgsView,
    pub dir: Seq<char>,
    pub stage: Stage,
    pub shallow: bool,
    pub target: Seq<char>,
    pub commit: Seq<char>,
    pub full_rev: Seq<char>,
    pub pending: Seq<Seq<char>>,
}

impl View for Prefetch {
    type V = PrefetchView;

    open spec fn view(&self) -> PrefetchView {
        PrefetchView {
            args: args_view(self.args),
            dir: self.dir@,
            stage: self.stage,
            shallow: self.shallow,
            target: self.target@,
            commit: self.commit@,
            full_rev: self.full_rev@,
            pending: strings_view(self.pending@),
        }
    }
}

// ---------------------------------------------------------------------------
// Specification
// ---------------------------------------------------------------------------

/// The local branch checked out: `branchName`, or `fetchgit`.
pub open spec fn branch_of(a: ArgsView) -> Seq<char> {
    match a.branch_name {
        Some(b) => b,
        None => "fetchgit"@,
    }
}

/// The arguments of the git command of a stage.
pub open spec fn stage_command(st: Stage, p: PrefetchView) -> Seq<Seq<char>> {
    match st {
        Stage::Init => seq!["init"@, "--initial-branch=master"@],
        Stage::AddRemote => seq!["remote"@, "add"@, "origin"@, p.args.url],
        Stage::GpgCommit => seq!["config"@, "commit.gpgsign"@, "false"@],
        Stage::GpgTag => seq!["config"@, "tag.gpgsign"@, "false"@],
        Stage::PartialFilter => seq!["config"@, "remote.origin.partialclonefilter"@, "blob:none"@],
        Stage::DeepFetch => seq![
            "fetch"@,
            if p.args.leave_dot_git {
                "--tags"@
            } else {
                "--no-tags"@
            },
            "origin"@,
        ],
        Stage::ShallowFetch => seq!["fetch"@, "--no-tags"@, "--depth=1"@, "origin"@, p.args.rev],
        Stage::FallbackFetch => seq!["fetch"@, "--no-tags"@, "origin"@],
        Stage::UserEmail => seq!["config"@, "user.email"@, "nix-prefetch-git@localhost"@],
        Stage::UserName => seq!["config"@, "user.name"@, "nix-prefetch-git"@],
        Stage::FetchHead => seq!["rev-parse"@, "FETCH_HEAD"@],
        Stage::CatFile => seq!["cat-file"@, "-t"@, p.target],
        Stage::Checkout => seq!["checkout"@, "-b"@, branch_of(p.args), p.target],
        Stage::CommitTree => seq!["commit-tree"@, p.target, "-m"@, "Commit created from tree hash "@ + p.target],
        Stage::CheckoutTree => seq!["checkout"@, "-b"@, branch_of(p.args), p.commit],
        Stage::RevParse => seq!["rev-parse"@, "refs/heads/"@ + branch_of(p.args)],
        Stage::Submodules => if p.args.deep_clone || p.args.leave_dot_git {
            seq!["submodule"@, "update"@, "--init"@, "--recursive"@, "--checkout"@, "--progress"@]
        } else {
            seq!["submodule"@, "update"@, "--init"@, "--recursive"@, "--checkout"@, "--progress"@, "--depth=1"@]
        },
        Stage::LfsInstall => seq!["lfs"@, "install"@],
        Stage::LfsPull => seq!["lfs"@, "pull"@],
        _ => Seq::empty(),
    }
}

pub open spec fn stage_mode(st: Stage) -> GitMode {
    match st {
        Stage::ShallowFetch => GitMode::Quiet,
        Stage::FetchHead | Stage::CatFile | Stage::CommitTree | Stage::RevParse => GitMode::Output,
        _ => GitMode::Checked,
    }
}

/// Whether the machine waits for the outcome of a git command (the sparse
/// checkout's included).
pub open spec fn awaits_git(st: Stage) -> bool {
    !(st == Stage::Cleanup || st == Stage::Hash || st == Stage::Finished)
}

pub open spec fn fetch_stage(a: ArgsView) -> Stage {
    if a.deep_clone {
        Stage::DeepFetch
    } else {
        Stage::ShallowFetch
    }
}

pub open spec fn after_submodules(a: ArgsView) -> Stage {
    if a.fetch_lfs {
        Stage::LfsInstall
    } else {
        Stage::Cleanup
    }
}

/// The stage that follows `st` when it succeeds, as far as that does not
/// depend on what it printed.
pub open spec fn next_stage(st: Stage, p: PrefetchView) -> Stage {
    match st {
        Stage::Init => Stage::AddRemote,
        Stage::AddRemote => Stage::GpgCommit,
        Stage::GpgCommit => Stage::GpgTag,
        Stage::GpgTag => if p.args.sparse_checkout.len() > 0 {
            Stage::PartialFilter
        } else {
            fetch_stage(p.args)
        },
        Stage::PartialFilter => Stage::Sparse,
        Stage::Sparse => fetch_stage(p.args),
        Stage::DeepFetch | Stage::ShallowFetch | Stage::FallbackFetch => Stage::UserEmail,
        Stage::UserEmail => Stage::UserName,
        Stage::UserName => if p.shallow {
            Stage::FetchHead
        } else {
            Stage::CatFile
        },
        Stage::FetchHead => Stage::CatFile,
        Stage::CatFile => Stage::Checkout,
        Stage::Checkout => Stage::RevParse,
        Stage::CommitTree => Stage::CheckoutTree,
        Stage::CheckoutTree => Stage::RevParse,
        Stage::RevParse => if p.args.fetch_submodules {
            Stage::Submodules
        } else {
            after_submodules(p.args)
        },
        Stage::Submodules => after_submodules(p.args),
        Stage::LfsInstall => Stage::LfsPull,
        Stage::LfsPull => Stage::Cleanup,
        Stage::Cleanup => Stage::Hash,
        Stage::Hash | Stage::Finished => Stage::Finished,
    }
}

/// The state that waits for stage `st`, and the step that carries it out.
pub open spec fn enter(p: PrefetchView, st: Stage) -> (PrefetchView, StepView) {
    let q = PrefetchView { stage: st, pending: stage_command(st, p), ..p };
    let step = match st {
        Stage::Sparse => StepView::SparseSet(join_with(p.args.sparse_checkout, "\n"@)),
        Stage::Cleanup => if p.args.leave_dot_git {
            StepView::MakeDeterministic
        } else {
            StepView::RemoveDotGit
        },
        Stage::Hash => StepView::Hash(p.args.root_dir),
        _ => StepView::Git { args: stage_command(st, p), mode: stage_mode(st) },
    };
    (q, step)
}

/// The finished state, and the error it ends with.
pub open spec fn fail(p: PrefetchView, e: ErrorView) -> (PrefetchView, StepView) {
    (PrefetchView { stage: Stage::Finished, ..p }, StepView::Done(Err(e)))
}

/// What git printed, decoded and trimmed.
pub open spec fn printed(b: Seq<u8>) -> Seq<char> {
    trim(utf8_lossy_of(b))
}

/// Where a prefetch goes once the git command it waits for has run.
pub open spec fn spec_after_git(p: PrefetchView, o: OutcomeView) -> (PrefetchView, StepView) {
    match p.stage {
        Stage::ShallowFetch => if o matches OutcomeView::Ran { success: true, .. } {
            enter(PrefetchView { shallow: true, ..p }, Stage::UserEmail)
        } else {
            enter(p, Stage::FallbackFetch)
        },
        Stage::CatFile => {
            let ty = match o {
                OutcomeView::Ran { success: true, stdout, .. } => printed(stdout),
                _ => Seq::empty(),
            };
            if ty == "tree"@ {
                enter(p, Stage::CommitTree)
            } else {
                enter(p, Stage::Checkout)
            }
        },
        Stage::Sparse => match o {
            OutcomeView::NotRun(e) => fail(p, ErrorView::Io(e)),
            OutcomeView::Ran { success, .. } => if success {
                enter(p, next_stage(Stage::Sparse, p))
            } else {
                fail(p, ErrorView::SparseCheckout("git sparse-checkout set failed"@))
            },
        },
        _ => match o {
            OutcomeView::NotRun(e) => fail(p, ErrorView::Io(e)),
            OutcomeView::Ran { success, stdout, stderr } => if !success {
                if p.stage == Stage::FetchHead {
                    fail(p, ErrorView::FetchHead { directory: p.dir, stderr: printed(stderr) })
                } else {
                    fail(
                        p,
                        ErrorView::GitFailed {
                            command: join_with(p.pending, " "@),
                            directory: p.dir,
                            stderr: printed(stderr),
                        },
                    )
                }
            } else {
                match p.stage {
                    Stage::FetchHead => enter(PrefetchView { target: printed(stdout), ..p }, Stage::CatFile),
                    Stage::CommitTree => enter(PrefetchView { commit: printed(stdout), ..p }, Stage::CheckoutTree),
                    Stage::RevParse => enter(
                        PrefetchView { full_rev: printed(stdout), ..p },
                        next_stage(Stage::RevParse, p),
                    ),
                    _ => enter(p, next_stage(p.stage, p)),
                }
            },
        },
    }
}

/// Where a prefetch goes once `.git` was cleaned up, or failed to be.
pub open spec fn spec_after_cleanup(p: PrefetchView, r: Result<(), ErrorView>) -> (PrefetchView, StepView) {
    match r {
        Ok(_) => enter(p, Stage::Hash),
        Err(e) => fail(p, e),
    }
}

pub enum HashView {
    Missing(Seq<char>),
    Failed(ErrorView),
    Hashed { sri: Seq<char>, nix32: Seq<char> },
}

impl View for HashOutcome {
    type V = HashView;

    open spec fn view(&self) -> HashView {
        match self {
            HashOutcome::Missing(p) => HashView::Missing(p@),
            HashOutcome::Failed(e) => HashView::Failed(e@),
            HashOutcome::Hashed { sri, nix32 } => HashView::Hashed { sri: sri@, nix32: nix32@ },
        }
    }
}

/// How a prefetch ends once the checkout was hashed, or not.
pub open spec fn spec_after_hash(p: PrefetchView, h: HashView) -> (PrefetchView, StepView) {
    match h {
        HashView::Missing(path) => fail(p, ErrorView::CheckoutDir(path)),
        HashView::Failed(e) => fail(p, e),
        HashView::Hashed { sri, nix32 } => (
            PrefetchView { stage: Stage::Finished, ..p },
            StepView::Done(Ok(ResultView { sha256_nix: nix32, sri_hash: sri, rev: p.full_rev })),
        ),
    }
}

/// The state a prefetch starts from, before its first step.
pub open spec fn initial(a: ArgsView, dir: Seq<char>) -> PrefetchView {
    PrefetchView {
        args: a,
        dir,
        stage: Stage::Init,
        shallow: false,
        target: a.rev,
        commit: Seq::empty(),
        full_rev: Seq::empty(),
        pending: Seq::empty(),
    }
}

} // verus!

verus! {

// ---------------------------------------------------------------------------
// Implementation
// ---------------------------------------------------------------------------

fn s(x: &str) -> (r: String)
    ensures
        r@ == x@,
{
    String::from_str(x)
}

fn copy(x: &String) -> (r: String)
    ensures
        r@ == x@,
{
    String::from_str(x.as_str())
}

fn cat2(a: &str, b: &str) -> (r: String)
    ensures
        r@ == a@ + b@,
{
    let mut r = String::from_str(a);
    r.append(b);
    r
}

/// What git printed, decoded and trimmed (see [`printed`]).
pub fn git_printed(b: &Vec<u8>) -> (r: String)
    ensures
        r@ == printed(b@),
{
    let text = utf8_lossy(b.as_slice());
    string_of(&trim_exec(&chars_of(text.as_str())))
}

/// The error of a git command that failed, run with `args` in `dir`: the
/// arguments joined with spaces, the directory, and what it wrote to
/// standard error, trimmed.
pub fn git_failure(args: &Vec<String>, dir: &str, stderr: &Vec<u8>) -> (e: Error)
    ensures
        e@ == (ErrorView::GitFailed {
            command: join_with(strings_view(args@), " "@),
            directory: dir@,
            stderr: printed(stderr@),
        }),
{
    Error::GitFailed { command: join_exec(args, " "), directory: s(dir), stderr: git_printed(stderr) }
}

impl Prefetch {
    /// The branch checked out (see [`branch_of`]).
    fn branch(&self) -> (r: String)
        ensures
            r@ == branch_of(args_view(self.args)),
    {
        match &self.args.branch_name {
            Some(b) => copy(b),
            None => s("fetchgit"),
        }
    }

    /// The arguments of the git command of a stage (see [`stage_command`]).
    fn command(&self, st: Stage) -> (r: Vec<String>)
        ensures
            strings_view(r@) == stage_command(st, self@),
    {
        let r: Vec<String> = match st {
            Stage::Init => vec![s("init"), s("--initial-branch=master")],
            Stage::AddRemote => vec![s("remote"), s("add"), s("origin"), copy(&self.args.url)],
            Stage::GpgCommit => vec![s("config"), s("commit.gpgsign"), s("false")],
            Stage::GpgTag => vec![s("config"), s("tag.gpgsign"), s("false")],
            Stage::PartialFilter => vec![s("config"), s("remote.origin.partialclonefilter"), s("blob:none")],
            Stage::DeepFetch => vec![
                s("fetch"),
                if self.args.leave_dot_git {
                    s("--tags")
                } else {
                    s("--no-tags")
                },
                s("origin"),
            ],
            Stage::ShallowFetch => vec![s("fetch"), s("--no-tags"), s("--depth=1"), s("origin"), copy(&self.args.rev)],
            Stage::FallbackFetch => vec![s("fetch"), s("--no-tags"), s("origin")],
            Stage::UserEmail => vec![s("config"), s("user.email"), s("nix-prefetch-git@localhost")],
            Stage::UserName => vec![s("config"), s("user.name"), s("nix-prefetch-git")],
            Stage::FetchHead => vec![s("rev-parse"), s("FETCH_HEAD")],
            Stage::CatFile => vec![s("cat-file"), s("-t"), copy(&self.target)],
            Stage::Checkout => vec![s("checkout"), s("-b"), self.branch(), copy(&self.target)],
            Stage::CommitTree => vec![
                s("commit-tree"),
                copy(&self.target),
                s("-m"),
                cat2("Commit created from tree hash ", self.target.as_str()),
            ],
            Stage::CheckoutTree => vec![s("checkout"), s("-b"), self.branch(), copy(&self.commit)],
            Stage::RevParse => {
                let b = self.branch();
                vec![s("rev-parse"), cat2("refs/heads/", b.as_str())]
            },
            Stage::Submodules => {
                let mut v = vec![s("submodule"), s("update"), s("--init"), s("--recursive"), s("--checkout"), s("--progress")];
                if !(self.args.deep_clone || self.args.leave_dot_git) {
                    v.push(s("--depth=1"));
                }
                v
            },
            Stage::LfsInstall => vec![s("lfs"), s("install")],
            Stage::LfsPull => vec![s("lfs"), s("pull")],
            _ => Vec::new(),
        };
        assert(strings_view(r@) =~= stage_command(st, self@));
        r
    }

    fn mode(st: Stage) -> (m: GitMode)
        ensures
            m == stage_mode(st),
    {
        match st {
            Stage::ShallowFetch => GitMode::Quiet,
            Stage::FetchHead | Stage::CatFile | Stage::CommitTree | Stage::RevParse => GitMode::Output,
            _ => GitMode::Checked,
        }
    }

    fn next(&self, st: Stage) -> (r: Stage)
        ensures
            r == next_stage(st, self@),
    {
        let after_sub = if self.args.fetch_lfs {
            Stage::LfsInstall
        } else {
            Stage::Cleanup
        };
        let fetch = if self.args.deep_clone {
            Stage::DeepFetch
        } else {
            Stage::ShallowFetch
        };
        match st {
            Stage::Init => Stage::AddRemote,
            Stage::AddRemote => Stage::GpgCommit,
            Stage::GpgCommit => Stage::GpgTag,
            Stage::GpgTag => if self.args.sparse_checkout.len() > 0 {
                Stage::PartialFilter
            } else {
                fetch
            },
            Stage::PartialFilter => Stage::Sparse,
            Stage::Sparse => fetch,
            Stage::DeepFetch | Stage::ShallowFetch | Stage::FallbackFetch => Stage::UserEmail,
            Stage::UserEmail => Stage::UserName,
            Stage::UserName => if self.shallow {
                Stage::FetchHead
            } else {
                Stage::CatFile
            },
            Stage::FetchHead => Stage::CatFile,
            Stage::CatFile => Stage::Checkout,
            Stage::Checkout => Stage::RevParse,
            Stage::CommitTree => Stage::CheckoutTree,
            Stage::CheckoutTree => Stage::RevParse,
            Stage::RevParse => if self.args.fetch_submodules {
                Stage::Submodules
            } else {
                after_sub
            },
            Stage::Submodules => after_sub,
            Stage::LfsInstall => Stage::LfsPull,
            Stage::LfsPull => Stage::Cleanup,
            Stage::Cleanup => Stage::Hash,
            Stage::Hash | Stage::Finished => Stage::Finished,
        }
    }

    /// Waits for stage `st`, and gives the step that carries it out (see
    /// [`enter`]).
    fn enter(self, st: Stage) -> (r: (Prefetch, Step))
        ensures
            (r.0@, r.1@) == enter(self@, st),
    {
        let pending = self.command(st);
        let step = match st {
            Stage::Sparse => Step::SparseSet(join_exec(&self.args.sparse_checkout, "\n")),
            Stage::Cleanup => if self.args.leave_dot_git {
                Step::MakeDeterministic
            } else {
                Step::RemoveDotGit
            },
            Stage::Hash => Step::Hash(
                match &self.args.root_dir {
                    Some(d) => Some(copy(d)),
                    None => None,
                },
            ),
            _ => Step::Git { args: self.command(st), mode: Self::mode(st) },
        };
        let mut p = self;
        p.stage = st;
        p.pending = pending;
        (p, step)
    }

    fn fail(self, e: Error) -> (r: (Prefetch, Step))
        ensures
            (r.0@, r.1@) == fail(self@, e@),
    {
        let mut p = self;
        p.stage = Stage::Finished;
        (p, Step::Done(Err(e)))
    }

    /// Starts a prefetch of `args` in the checkout directory `dir` (named
    /// so in errors): its first step is `git init`.
    pub fn start(args: PrefetchArgs, dir: &str) -> (r: (Prefetch, Step))
        ensures
            (r.0@, r.1@) == enter(initial(args_view(args), dir@), Stage::Init),
    {
        let target = copy(&args.rev);
        let p = Prefetch {
            args,
            dir: s(dir),
            stage: Stage::Init,
            shallow: false,
            target,
            commit: String::new(),
            full_rev: String::new(),
            pending: Vec::new(),
        };
        assert(strings_view(p.pending@) =~= Seq::<Seq<char>>::empty());
        assert(p@ == initial(args_view(args), dir@));
        p.enter(Stage::Init)
    }

    /// The next step once the git command the prefetch waits for has run
    /// (see [`spec_after_git`]).
    pub fn after_git(self, outcome: GitOutcome) -> (r: (Prefetch, Step))
        requires
            awaits_git(self.stage),
        ensures
            (r.0@, r.1@) == spec_after_git(self@, outcome@),
    {
        match self.stage {
            Stage::ShallowFetch => {
                let ok = match &outcome {
                    GitOutcome::Ran { success, .. } => *success,
                    GitOutcome::NotRun(_) => false,
                };
                if ok {
                    let mut p = self;
                    p.shallow = true;
                    p.enter(Stage::UserEmail)
                } else {
                    self.enter(Stage::FallbackFetch)
                }
            },
            Stage::CatFile => {
                let ty = match &outcome {
                    GitOutcome::Ran { success: true, stdout, .. } => git_printed(stdout),
                    _ => String::new(),
                };
                if eq_str(&chars_of(ty.as_str()), "tree") {
                    self.enter(Stage::CommitTree)
                } else {
                    self.enter(Stage::Checkout)
                }
            },
            Stage::Sparse => match outcome {
                GitOutcome::NotRun(e) => self.fail(Error::Io(e)),
                GitOutcome::Ran { success, .. } => if success {
                    let st = self.next(Stage::Sparse);
                    self.enter(st)
                } else {
                    self.fail(Error::SparseCheckout(s("git sparse-checkout set failed")))
                },
            },
            _ => match outcome {
                GitOutcome::NotRun(e) => self.fail(Error::Io(e)),
                GitOutcome::Ran { success, stdout, stderr } => if !success {
                    if self.stage == Stage::FetchHead {
                        let e = Error::FetchHead { directory: copy(&self.dir), stderr: git_printed(&stderr) };
                        self.fail(e)
                    } else {
                        let e = git_failure(&self.pending, self.dir.as_str(), &stderr);
                        self.fail(e)
                    }
                } else {
                    match self.stage {
                        Stage::FetchHead => {
                            let mut p = self;
                            p.target = git_printed(&stdout);
                            p.enter(Stage::CatFile)
                        },
                        Stage::CommitTree => {
                            let mut p = self;
                            p.commit = git_printed(&stdout);
                            p.enter(Stage::CheckoutTree)
                        },
                        Stage::RevParse => {
                            let st = self.next(Stage::RevParse);
                            let mut p = self;
                            p.full_rev = git_printed(&stdout);
                            p.enter(st)
                        },
                        _ => {
                            let st = self.next(self.stage);
                            self.enter(st)
                        },
                    }
                },
            },
        }
    }

    /// The next step once `.git` was cleaned up, or failed to be (see
    /// [`spec_after_cleanup`]).
    pub fn after_cleanup(self, result: Result<(), Error>) -> (r: (Prefetch, Step))
        requires
            self.stage == Stage::Cleanup,
        ensures
            (r.0@, r.1@) == spec_after_cleanup(
                self@,
                match result {
                    Ok(_) => Ok(()),
                    Err(e) => Err(e@),
                },
            ),
    {
        match result {
            Ok(_) => self.enter(Stage::Hash),
            Err(e) => self.fail(e),
        }
    }

    /// How the prefetch ends once the checkout was hashed, or not (see
    /// [`spec_after_hash`]).
    pub fn after_hash(self, outcome: HashOutcome) -> (r: (Prefetch, Step))
        requires
            self.stage == Stage::Hash,
        ensures
            (r.0@, r.1@) == spec_after_hash(self@, outcome@),
    {
        match outcome {
            HashOutcome::Missing(path) => self.fail(Error::CheckoutDir(path)),
            HashOutcome::Failed(e) => self.fail(e),
            HashOutcome::Hashed { sri, nix32 } => {
                let rev = copy(&self.full_rev);
                let mut p = self;
                p.stage = Stage::Finished;
                (p, Step::Done(Ok(PrefetchResult { sha256_nix: nix32, sri_hash: sri, rev })))
            },
        }
    }
}

} // verus!

verus! {

// ---------------------------------------------------------------------------
// Laws
// ---------------------------------------------------------------------------

/// The position of a stage in the order stages come in.
pub open spec fn stage_rank(st: Stage) -> int {
    match st {
        Stage::Init => 0,
        Stage::AddRemote => 1,
        Stage::GpgCommit => 2,
        Stage::GpgTag => 3,
        Stage::PartialFilter => 4,
        Stage::Sparse => 5,
        Stage::DeepFetch => 6,
        Stage::ShallowFetch => 7,
        Stage::FallbackFetch => 8,
        Stage::UserEmail => 9,
        Stage::UserName => 10,
        Stage::FetchHead => 11,
        Stage::CatFile => 12,
        Stage::Checkout => 13,
        Stage::CommitTree => 14,
        Stage::CheckoutTree => 15,
        Stage::RevParse => 16,
        Stage::Submodules => 17,
        Stage::LfsInstall => 18,
        Stage::LfsPull => 19,
        Stage::Cleanup => 20,
        Stage::Hash => 21,
        Stage::Finished => 22,
    }
}

proof fn lemma_next_stage_later(st: Stage, p: PrefetchView)
    requires
        st != Stage::Finished,
    ensures
        stage_rank(next_stage(st, p)) > stage_rank(st),
{
}

/// Every answered step moves a prefetch to a later stage, so a prefetch
/// ends after at most as many steps as there are stages.
pub proof fn law_prefetch_moves_forward(p: PrefetchView, o: OutcomeView, c: Result<(), ErrorView>, h: HashView)
    ensures
        awaits_git(p.stage) ==> stage_rank(spec_after_git(p, o).0.stage) > stage_rank(p.stage),
        p.stage == Stage::Cleanup ==> stage_rank(spec_after_cleanup(p, c).0.stage) > stage_rank(p.stage),
        p.stage == Stage::Hash ==> stage_rank(spec_after_hash(p, h).0.stage) > stage_rank(p.stage),
{
    if awaits_git(p.stage) {
        lemma_next_stage_later(p.stage, p);
        lemma_next_stage_later(Stage::RevParse, p);
    }
}

/// The command a prefetch waits for is the command of its stage.
pub open spec fn pending_matches(p: PrefetchView) -> bool {
    awaits_git(p.stage) ==> p.pending == stage_command(p.stage, p)
}

proof fn lemma_enter_pending(p: PrefetchView, st: Stage)
    ensures
        pending_matches(enter(p, st).0),
{
    let q = enter(p, st).0;
    assert(stage_command(st, q) == stage_command(st, p));
}

/// Whatever a step answers, the prefetch still waits for the command of
/// its stage: the one named when that command fails.
pub proof fn law_pending_command_kept(p: PrefetchView, o: OutcomeView, c: Result<(), ErrorView>, h: HashView)
    requires
        pending_matches(p),
    ensures
        awaits_git(p.stage) ==> pending_matches(spec_after_git(p, o).0),
        p.stage == Stage::Cleanup ==> pending_matches(spec_after_cleanup(p, c).0),
        p.stage == Stage::Hash ==> pending_matches(spec_after_hash(p, h).0),
{
    lemma_enter_pending(p, Stage::UserEmail);
    lemma_enter_pending(PrefetchView { shallow: true, ..p }, Stage::UserEmail);
    lemma_enter_pending(p, Stage::FallbackFetch);
    lemma_enter_pending(p, Stage::CommitTree);
    lemma_enter_pending(p, Stage::Checkout);
    lemma_enter_pending(p, Stage::Hash);
    lemma_enter_pending(p, next_stage(p.stage, p));
    match o {
        OutcomeView::Ran { stdout, .. } => {
            lemma_enter_pending(PrefetchView { target: printed(stdout), ..p }, Stage::CatFile);
            lemma_enter_pending(PrefetchView { commit: printed(stdout), ..p }, Stage::CheckoutTree);
            lemma_enter_pending(PrefetchView { full_rev: printed(stdout), ..p }, next_stage(Stage::RevParse, p));
        },
        _ => {},
    }
}

/// A prefetch starts with `git init --initial-branch=master`, waiting for
/// it.
pub proof fn law_prefetch_starts_with_init(a: ArgsView, dir: Seq<char>)
    ensures
        enter(initial(a, dir), Stage::Init).1 == (StepView::Git {
            args: seq!["init"@, "--initial-branch=master"@],
            mode: GitMode::Checked,
        }),
        pending_matches(enter(initial(a, dir), Stage::Init).0),
{
    lemma_enter_pending(initial(a, dir), Stage::Init);
}

/// When a checked git command fails, the prefetch ends with an error that
/// names the command (its arguments joined with spaces), the directory,
/// and what git wrote to standard error, trimmed.
pub proof fn law_checked_failure_names_command(p: PrefetchView, stdout: Seq<u8>, stderr: Seq<u8>)
    requires
        pending_matches(p),
        awaits_git(p.stage),
        p.stage != Stage::Sparse,
        stage_mode(p.stage) == GitMode::Checked,
    ensures
        spec_after_git(p, OutcomeView::Ran { success: false, stdout, stderr }) == fail(
            p,
            ErrorView::GitFailed {
                command: join_with(stage_command(p.stage, p), " "@),
                directory: p.dir,
                stderr: printed(stderr),
            },
        ),
{
}

/// With a deep clone, a prefetch never tries a shallow fetch.
pub open spec fn never_shallow(p: PrefetchView) -> bool {
    p.args.deep_clone ==> (p.stage != Stage::ShallowFetch && p.stage != Stage::FallbackFetch && !p.shallow)
}

/// A deep clone stays deep: no step leads it to a shallow fetch.
pub proof fn law_deep_clone_never_shallow(p: PrefetchView, o: OutcomeView, c: Result<(), ErrorView>, h: HashView)
    requires
        never_shallow(p),
    ensures
        never_shallow(initial(p.args, p.dir)),
        awaits_git(p.stage) ==> never_shallow(spec_after_git(p, o).0),
        p.stage == Stage::Cleanup ==> never_shallow(spec_after_cleanup(p, c).0),
        p.stage == Stage::Hash ==> never_shallow(spec_after_hash(p, h).0),
{
}

} // verus!
