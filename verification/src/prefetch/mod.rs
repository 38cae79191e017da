//! Prefetching a git repository the way `nix-prefetch-git` does: clone,
//! make the checkout deterministic, and hash it. The git commands and the
//! file system work are carried out by the caller; the decisions between
//! them are taken by [`machine::Prefetch`].
use vstd::prelude::*;

pub mod machine;
pub mod repo;

pub use machine::{GitMode, GitOutcome, HashOutcome, Prefetch, Stage, Step};


verus! {

/// Why a prefetch failed. Errors of the operating system are carried as
/// their text.
#[derive(Debug, Clone)]
pub enum Error {
    /// `git` could not be run, or `git --version` failed.
    GitUnavailable(String),
    /// A git command exited with a failure.
    GitFailed {
        /// The command's arguments, joined with spaces (e.g. `fetch origin`).
        command: String,
        /// The directory it ran in.
        directory: String,
        /// What it wrote to standard error, trimmed.
        stderr: String,
    },
    /// An I/O error.
    Io(String),
    /// Hashing the checkout failed.
    NarHash {
        /// The path being hashed.
        path: String,
        /// The I/O error.
        source: String,
    },
    /// A temporary directory could not be created.
    TempDir(String),
    /// `FETCH_HEAD` could not be resolved after a shallow fetch.
    FetchHead {
        directory: String,
        stderr: String,
    },
    /// `git sparse-checkout set` failed.
    SparseCheckout(String),
    /// The directory to hash does not exist after the checkout.
    CheckoutDir(String),
}

pub enum ErrorView {
    GitUnavailable(Seq<char>),
    GitFailed { command: Seq<char>, directory: Seq<char>, stderr: Seq<char> },
    Io(Seq<char>),
    NarHash { path: Seq<char>, source: Seq<char> },
    TempDir(Seq<char>),
    FetchHead { directory: Seq<char>, stderr: Seq<char> },
    SparseCheckout(Seq<char>),
    CheckoutDir(Seq<char>),
}

impl View for Error {
    type V = ErrorView;

    open spec fn view(&self) -> ErrorView {
        match self {
            Error::GitUnavailable(e) => ErrorView::GitUnavailable(e@),
            Error::GitFailed { command, directory, stderr } => ErrorView::GitFailed {
                command: command@,
                directory: directory@,
                stderr: stderr@,
            },
            Error::Io(e) => ErrorView::Io(e@),
            Error::NarHash { path, source } => ErrorView::NarHash { path: path@, source: source@ },
            Error::TempDir(e) => ErrorView::TempDir(e@),
            Error::FetchHead { directory, stderr } => ErrorView::FetchHead { directory: directory@, stderr: stderr@ },
            Error::SparseCheckout(m) => ErrorView::SparseCheckout(m@),
            Error::CheckoutDir(p) => ErrorView::CheckoutDir(p@),
        }
    }
}

/// How an error reads.
pub open spec fn error_text(e: ErrorView) -> Seq<char> {
    match e {
        ErrorView::GitUnavailable(e) => "git is not available: "@ + e,
        ErrorView::GitFailed { command, directory, stderr } => "git "@ + command + " failed in "@ + directory + ": "@
            + stderr,
        ErrorView::Io(e) => "I/O error: "@ + e,
        ErrorView::NarHash { path, source } => "failed to compute NAR hash for "@ + path + ": "@ + source,
        ErrorView::TempDir(e) => "failed to create temporary directory: "@ + e,
        ErrorView::FetchHead { directory, stderr } => "failed to resolve FETCH_HEAD in "@ + directory + ": "@ + stderr,
        ErrorView::SparseCheckout(m) => "sparse checkout failed: "@ + m,
        ErrorView::CheckoutDir(p) => "checkout directory does not exist: "@ + p,
    }
}

fn join2(a: &str, b: &str) -> (r: String)
    ensures
        r@ == a@ + b@,
{
    let mut r = String::from_str(a);
    r.append(b);
    r
}

fn join4(a: &str, b: &str, c: &str, d: &str) -> (r: String)
    ensures
        r@ == a@ + b@ + c@ + d@,
{
    let mut r = String::from_str(a);
    r.append(b);
    r.append(c);
    r.append(d);
    r
}

impl Error {
    /// How the error reads (see [`error_text`]).
    pub fn message(&self) -> (r: String)
        ensures
            r@ == error_text(self@),
    {
        match self {
            Error::GitUnavailable(e) => join2("git is not available: ", e.as_str()),
            Error::GitFailed { command, directory, stderr } => {
                let mut r = join4("git ", command.as_str(), " failed in ", directory.as_str());
                r.append(": ");
                r.append(stderr.as_str());
                r
            },
            Error::Io(e) => join2("I/O error: ", e.as_str()),
            Error::NarHash { path, source } => join4(
                "failed to compute NAR hash for ",
                path.as_str(),
                ": ",
                source.as_str(),
            ),
            Error::TempDir(e) => join2("failed to create temporary directory: ", e.as_str()),
            Error::FetchHead { directory, stderr } => join4(
                "failed to resolve FETCH_HEAD in ",
                directory.as_str(),
                ": ",
                stderr.as_str(),
            ),
            Error::SparseCheckout(m) => join2("sparse checkout failed: ", m.as_str()),
            Error::CheckoutDir(p) => join2("checkout directory does not exist: ", p.as_str()),
        }
    }
}

/// What a prefetch gives: the hash of the checkout in two forms, and the
/// commit that was checked out.
#[derive(Debug, Clone)]
pub struct PrefetchResult {
    /// The SHA-256 hash in Nix's base32.
    pub sha256_nix: String,
    /// The SHA-256 hash in SRI form.
    pub sri_hash: String,
    /// The full commit hash.
    pub rev: String,
}

pub struct ResultView {
    pub sha256_nix: Seq<char>,
    pub sri_hash: Seq<char>,
    pub rev: Seq<char>,
}

impl View for PrefetchResult {
    type V = ResultView;

    open spec fn view(&self) -> ResultView {
        ResultView { sha256_nix: self.sha256_nix@, sri_hash: self.sri_hash@, rev: self.rev@ }
    }
}

} // verus!
