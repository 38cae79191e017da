//! Asking the `nix-prefetch-git` and `nix-prefetch-url` programs for a
//! hash: the arguments they are run with, and what their output means.
//! Running them is the caller's part.
use vstd::prelude::*;

pub use crate::prefetch::PrefetchResult;
use crate::prefetch::ResultView;
use crate::text::{chars_of, join_with, string_of, trim, trim_exec};
use crate::utils::fetch::opt_string_view;
use crate::utils::patch::{utf8_lossy, utf8_lossy_of};

verus! {

/// How `nix-prefetch-git` is asked to check out a repository.
#[derive(Debug, Default, Clone)]
pub struct GitPrefetchArgs {
    pub fetch_submodules: bool,
    pub deep_clone: bool,
    pub leave_dot_git: bool,
    pub fetch_lfs: bool,
    pub branch_name: Option<String>,
    pub root_dir: Option<String>,
    pub sparse_checkout: Vec<String>,
}

/// What came of running a program.
pub enum CommandOutput {
    /// It could not be started; the error's text.
    NotStarted(String),
    /// It ran: whether it succeeded, and what it wrote.
    Finished { success: bool, stdout: Vec<u8>, stderr: Vec<u8> },
}

/// Runs the prefetch programs of Nix.
pub struct NixPrefetcher;

pub open spec fn strings_view(v: Seq<String>) -> Seq<Seq<char>> {
    v.map_values(|s: String| s@)
}

/// The arguments `nix-prefetch-git` is run with.
pub open spec fn spec_git_command(url: Seq<char>, rev: Seq<char>, a: GitPrefetchArgs) -> Seq<Seq<char>> {
    let base = seq!["--url"@, url, "--rev"@, rev, "--quiet"@, "--no-add-path"@];
    let f1 = if a.fetch_submodules {
        seq!["--fetch-submodules"@]
    } else {
        Seq::empty()
    };
    let f2 = if a.deep_clone {
        seq!["--deepClone"@]
    } else {
        Seq::empty()
    };
    let f3 = if a.leave_dot_git {
        seq!["--leave-dotGit"@]
    } else {
        Seq::empty()
    };
    let f4 = if a.fetch_lfs {
        seq!["--fetch-lfs"@]
    } else {
        Seq::empty()
    };
    let b = match a.branch_name {
        Some(n) => seq!["--branch-name"@, n@],
        None => Seq::empty(),
    };
    let r = match a.root_dir {
        Some(d) => seq!["--root-dir"@, d@],
        None => Seq::empty(),
    };
    base + f1 + f2 + f3 + f4 + b + r + sparse_flags(strings_view(a.sparse_checkout@))
}

/// `--sparse-checkout` before each path.
pub open spec fn sparse_flags(paths: Seq<Seq<char>>) -> Seq<Seq<char>>
    decreases paths.len(),
{
    if paths.len() == 0 {
        Seq::empty()
    } else {
        sparse_flags(paths.drop_last()) + seq!["--sparse-checkout"@, paths.last()]
    }
}

/// How errors describe the prefetch: `(with submodules) ` when submodules
/// are fetched.
pub open spec fn spec_label(a: GitPrefetchArgs) -> Seq<char> {
    if a.fetch_submodules {
        "(with submodules) "@
    } else {
        Seq::empty()
    }
}

/// The string at `key` of the JSON object `json` as `serde_json` reads it:
/// `None` when `json` is not JSON; `Some(None)` when it is not an object,
/// lacks the key, or holds something else than a string there.
pub uninterp spec fn json_string_field(json: Seq<char>, key: Seq<char>) -> Option<Option<Seq<char>>>;

/// `serde_json::from_str::<serde_json::Value>`, then `Value::get(key)` and
/// `Value::as_str`. The contract names the result.
#[verifier::external_body]
fn json_str_field(json: &str, key: &str) -> (r: Option<Option<String>>)
    ensures
        match r {
            None => json_string_field(json@, key@) is None,
            Some(f) => json_string_field(json@, key@) == Some(opt_string_view(f)),
        },
{
    serde_json::from_str::<serde_json::Value>(json).ok().map(|v| v.get(key).and_then(|x| x.as_str()).map(String::from))
}

pub open spec fn or_empty(o: Option<Seq<char>>) -> Seq<char> {
    match o {
        Some(s) => s,
        None => Seq::empty(),
    }
}

/// What the JSON `nix-prefetch-git` printed says: its `sha256`, `hash` and
/// `rev` strings (empty when missing); an error when it is not JSON, or
/// when both hashes are empty.
pub open spec fn spec_parse_prefetch_json(json: Seq<char>) -> Result<ResultView, Seq<char>> {
    let a = json_string_field(json, "sha256"@);
    let b = json_string_field(json, "hash"@);
    let c = json_string_field(json, "rev"@);
    if a is None || b is None || c is None {
        Err("Failed to parse nix-prefetch-git JSON output"@)
    } else {
        let sha256 = or_empty(a->Some_0);
        let hash = or_empty(b->Some_0);
        if sha256.len() == 0 && hash.len() == 0 {
            Err("nix-prefetch-git output missing sha256 and hash fields"@)
        } else {
            Ok(ResultView { sha256_nix: sha256, sri_hash: hash, rev: or_empty(c->Some_0) })
        }
    }
}

pub open spec fn result_string_view(r: Result<PrefetchResult, String>) -> Result<ResultView, Seq<char>> {
    match r {
        Ok(v) => Ok(v@),
        Err(e) => Err(e@),
    }
}

fn field_or_empty(f: Option<String>) -> (r: String)
    ensures
        r@ == or_empty(opt_string_view(f)),
{
    match f {
        Some(s) => s,
        None => String::new(),
    }
}

/// Reads the JSON `nix-prefetch-git` printed (see
/// [`spec_parse_prefetch_json`]).
pub fn parse_prefetch_json(json: &str) -> (r: Result<PrefetchResult, String>)
    ensures
        result_string_view(r) == spec_parse_prefetch_json(json@),
{
    let a = json_str_field(json, "sha256");
    let b = json_str_field(json, "hash");
    let c = json_str_field(json, "rev");
    match (a, b, c) {
        (Some(a), Some(b), Some(c)) => {
            let sha256 = field_or_empty(a);
            let hash = field_or_empty(b);
            if sha256.unicode_len() == 0 && hash.unicode_len() == 0 {
                Err(String::from_str("nix-prefetch-git output missing sha256 and hash fields"))
            } else {
                Ok(PrefetchResult { sha256_nix: sha256, sri_hash: hash, rev: field_or_empty(c) })
            }
        },
        _ => Err(String::from_str("Failed to parse nix-prefetch-git JSON output")),
    }
}

/// The error of a `nix-prefetch-git` run that could not be started.
pub open spec fn git_not_started_text(url: Seq<char>, rev: Seq<char>, a: GitPrefetchArgs) -> Seq<char> {
    "Failed to execute nix-prefetch-git "@ + spec_label(a) + " for "@ + url + " @ "@ + rev
}

/// The error of a `nix-prefetch-git` run that failed: its standard error,
/// and its standard output on a line of its own when there is one, both
/// trimmed.
pub open spec fn git_failed_text(url: Seq<char>, rev: Seq<char>, a: GitPrefetchArgs, stdout: Seq<u8>, stderr: Seq<u8>) -> Seq<char> {
    let out = utf8_lossy_of(stdout);
    "nix-prefetch-git "@ + spec_label(a) + " failed for "@ + url + " @ "@ + rev + ": "@ + trim(utf8_lossy_of(stderr)) + if out.len()
        == 0 {
        Seq::empty()
    } else {
        "\n"@ + trim(out)
    }
}

pub open spec fn output_view(o: CommandOutput) -> Option<(bool, Seq<u8>, Seq<u8>)> {
    match o {
        CommandOutput::NotStarted(_) => None,
        CommandOutput::Finished { success, stdout, stderr } => Some((success, stdout@, stderr@)),
    }
}

/// What a `nix-prefetch-git` run means.
pub open spec fn spec_prefetch_git(url: Seq<char>, rev: Seq<char>, a: GitPrefetchArgs, o: Option<(bool, Seq<u8>, Seq<u8>)>) -> Result<ResultView, Seq<char>> {
    match o {
        None => Err(git_not_started_text(url, rev, a)),
        Some((success, stdout, stderr)) => if !success {
            Err(git_failed_text(url, rev, a, stdout, stderr))
        } else {
            spec_parse_prefetch_json(utf8_lossy_of(stdout))
        },
    }
}

/// The error of a `nix-prefetch-url` run that could not be started.
pub open spec fn archive_not_started_text(url: Seq<char>) -> Seq<char> {
    "Failed to execute nix-prefetch-url for "@ + url
}

/// What a `nix-prefetch-url --unpack` run means: its standard output
/// trimmed, or its standard error when it failed.
pub open spec fn spec_prefetch_archive(url: Seq<char>, o: Option<(bool, Seq<u8>, Seq<u8>)>) -> Result<Seq<char>, Seq<char>> {
    match o {
        None => Err(archive_not_started_text(url)),
        Some((success, stdout, stderr)) => if !success {
            Err("nix-prefetch-url --unpack failed: "@ + utf8_lossy_of(stderr))
        } else {
            Ok(trim(utf8_lossy_of(stdout)))
        },
    }
}

fn st(x: &str) -> (r: String)
    ensures
        r@ == x@,
{
    String::from_str(x)
}

fn copy(x: &String) -> (r: String)
    ensures
        r@ == x@,
{
    String::from_str(x.as_str())
}

fn push_str(v: &mut Vec<String>, x: String)
    ensures
        strings_view(final(v)@) == strings_view(old(v)@).push(x@),
{
    let ghost before = v@;
    v.push(x);
    assert(v@ == before.push(x));
    assert(strings_view(v@) =~= strings_view(before).push(x@));
}

fn flag(v: &mut Vec<String>, on: bool, name: &str)
    ensures
        strings_view(final(v)@) == strings_view(old(v)@) + if on {
            seq![name@]
        } else {
            Seq::empty()
        },
{
    let ghost before = strings_view(v@);
    if on {
        push_str(v, st(name));
        assert(before.push(name@) =~= before + seq![name@]);
    } else {
        assert(before + Seq::<Seq<char>>::empty() =~= before);
    }
}

fn option(v: &mut Vec<String>, o: &Option<String>, name: &str)
    ensures
        strings_view(final(v)@) == strings_view(old(v)@) + match *o {
            Some(x) => seq![name@, x@],
            None => Seq::empty(),
        },
{
    let ghost before = strings_view(v@);
    match o {
        Some(x) => {
            push_str(v, st(name));
            push_str(v, copy(x));
            assert(before.push(name@).push(x@) =~= before + seq![name@, x@]);
        },
        None => {
            assert(before + Seq::<Seq<char>>::empty() =~= before);
        },
    }
}

fn label(a: &GitPrefetchArgs) -> (r: String)
    ensures
        r@ == spec_label(*a),
{
    if a.fetch_submodules {
        st("(with submodules) ")
    } else {
        String::new()
    }
}

fn lossy_trimmed(b: &Vec<u8>) -> (r: String)
    ensures
        r@ == trim(utf8_lossy_of(b@)),
{
    let t = utf8_lossy(b.as_slice());
    string_of(&trim_exec(&chars_of(t.as_str())))
}

impl NixPrefetcher {
    /// The arguments `nix-prefetch-git` is run with to check out `rev` of
    /// `url` (see [`spec_git_command`]).
    pub fn prefetch_git_args(url: &str, rev: &str, git_args: &GitPrefetchArgs) -> (r: Vec<String>)
        ensures
            strings_view(r@) == spec_git_command(url@, rev@, *git_args),
    {
        let mut args: Vec<String> = Vec::new();
        push_str(&mut args, st("--url"));
        push_str(&mut args, st(url));
        push_str(&mut args, st("--rev"));
        push_str(&mut args, st(rev));
        push_str(&mut args, st("--quiet"));
        push_str(&mut args, st("--no-add-path"));
        assert(strings_view(args@) =~= seq!["--url"@, url@, "--rev"@, rev@, "--quiet"@, "--no-add-path"@]);
        flag(&mut args, git_args.fetch_submodules, "--fetch-submodules");
        flag(&mut args, git_args.deep_clone, "--deepClone");
        flag(&mut args, git_args.leave_dot_git, "--leave-dotGit");
        flag(&mut args, git_args.fetch_lfs, "--fetch-lfs");
        option(&mut args, &git_args.branch_name, "--branch-name");
        option(&mut args, &git_args.root_dir, "--root-dir");
        let ghost s6 = strings_view(args@);
        let ghost paths = strings_view(git_args.sparse_checkout@);
        let mut i: usize = 0;
        assert(sparse_flags(paths.subrange(0, 0)) =~= Seq::<Seq<char>>::empty());
        assert(s6 + Seq::<Seq<char>>::empty() =~= s6);
        while i < git_args.sparse_checkout.len()
            invariant
                i <= git_args.sparse_checkout@.len(),
                paths == strings_view(git_args.sparse_checkout@),
                strings_view(args@) == s6 + sparse_flags(paths.subrange(0, i as int)),
            decreases git_args.sparse_checkout.len() - i,
        {
            let ghost sub = paths.subrange(0, i + 1);
            assert(sub.drop_last() =~= paths.subrange(0, i as int));
            assert(sub.last() == git_args.sparse_checkout@[i as int]@);
            push_str(&mut args, st("--sparse-checkout"));
            push_str(&mut args, copy(&git_args.sparse_checkout[i]));
            assert(strings_view(args@) =~= s6 + sparse_flags(sub));
            i += 1;
        }
        assert(paths.subrange(0, paths.len() as int) =~= paths);
        args
    }

    /// The outcome of a `nix-prefetch-git` run made with
    /// [`NixPrefetcher::prefetch_git_args`] (see [`spec_prefetch_git`]).
    pub fn prefetch_git(url: &str, rev: &str, git_args: &GitPrefetchArgs, output: &CommandOutput) -> (r: Result<PrefetchResult, String>)
        ensures
            result_string_view(r) == spec_prefetch_git(url@, rev@, *git_args, output_view(*output)),
    {
        let l = label(git_args);
        match output {
            CommandOutput::NotStarted(_) => {
                let mut m = st("Failed to execute nix-prefetch-git ");
                m.append(l.as_str());
                m.append(" for ");
                m.append(url);
                m.append(" @ ");
                m.append(rev);
                assert(m@ =~= git_not_started_text(url@, rev@, *git_args));
                assert(output_view(*output) is None);
                assert(spec_prefetch_git(url@, rev@, *git_args, output_view(*output)) == Err::<ResultView, Seq<char>>(
                    m@,
                ));
                Err(m)
            },
            CommandOutput::Finished { success, stdout, stderr } => {
                if !*success {
                    let mut m = st("nix-prefetch-git ");
                    m.append(l.as_str());
                    m.append(" failed for ");
                    m.append(url);
                    m.append(" @ ");
                    m.append(rev);
                    m.append(": ");
                    let e = lossy_trimmed(stderr);
                    m.append(e.as_str());
                    let out = utf8_lossy(stdout.as_slice());
                    let ghost head = m@;
                    if out.unicode_len() > 0 {
                        m.append("\n");
                        let o = lossy_trimmed(stdout);
                        m.append(o.as_str());
                        assert(m@ =~= head + ("\n"@ + trim(utf8_lossy_of(stdout@))));
                    } else {
                        assert(m@ =~= head + Seq::<char>::empty());
                    }
                    assert(m@ =~= git_failed_text(url@, rev@, *git_args, stdout@, stderr@));
                    Err(m)
                } else {
                    let out = utf8_lossy(stdout.as_slice());
                    parse_prefetch_json(out.as_str())
                }
            },
        }
    }

    /// The arguments `nix-prefetch-url` is run with to hash the unpacked
    /// archive at `url`.
    pub fn prefetch_archive_args(url: &str) -> (r: Vec<String>)
        ensures
            strings_view(r@) == seq!["--unpack"@, url@],
    {
        let r = vec![st("--unpack"), st(url)];
        assert(strings_view(r@) =~= seq!["--unpack"@, url@]);
        r
    }

    /// The outcome of a `nix-prefetch-url` run made with
    /// [`NixPrefetcher::prefetch_archive_args`] (see
    /// [`spec_prefetch_archive`]).
    pub fn prefetch_archive(url: &str, output: &CommandOutput) -> (r: Result<String, String>)
        ensures
            match r {
                Ok(h) => spec_prefetch_archive(url@, output_view(*output)) == Ok::<Seq<char>, Seq<char>>(h@),
                Err(e) => spec_prefetch_archive(url@, output_view(*output)) == Err::<Seq<char>, Seq<char>>(e@),
            },
    {
        match output {
            CommandOutput::NotStarted(_) => {
                let mut m = st("Failed to execute nix-prefetch-url for ");
                m.append(url);
                Err(m)
            },
            CommandOutput::Finished { success, stdout, stderr } => {
                if !*success {
                    let mut m = st("nix-prefetch-url --unpack failed: ");
                    let e = utf8_lossy(stderr.as_slice());
                    m.append(e.as_str());
                    Err(m)
                } else {
                    Ok(lossy_trimmed(stdout))
                }
            },
        }
    }
}

} // verus!
