//! Flake inputs: parsing the flake URL forms that name a git repository
//! (`github:`, `gitlab:`, `sourcehut:`, `git+https://`, `git+ssh://`,
//! `git+http://`, `git+file://`), the `?ref=` they may carry, and rebuilding
//! a URL around a newer ref.
use vstd::prelude::*;

use crate::parser::TextRange;
use crate::rules::traits::Update;
use crate::text::{
    append_chars, chars_of, find, find_exec, has_char, lemma_find_char, lemma_find_char_after, lemma_find_from,
    lemma_find_from_is, lemma_has_char_concat, lemma_no_char_subrange, lemma_trim_end_at, lemma_trim_idempotent,
    lemma_trim_unchanged,
    lemma_trim_end_char_at, lemma_lead_white_from, occurs_at, slice_vec, split_once, split_once_exec,
    starts_with, starts_with_exec, strip_prefix, strip_prefix_exec, to_string, trim, trim_end, trim_end_at,
    trim_end_char, trim_end_char_at, trim_end_char_exec, trim_exec, is_white, lead_white_from,
};
use crate::utils::version::{is_version, version_order, VersionDetector};

verus! {

/// A flake URL that names a git repository.
#[derive(Debug, Clone)]
pub enum FlakeUrl {
    GitHub { owner: String, repo: String },
    GitLab { owner: String, repo: String },
    SourceHut { owner: String, repo: String },
    GitRemote { url: String },
    GitLocal { path: String },
}

/// The mathematical form of [`FlakeUrl`].
pub enum FlakeUrlView {
    GitHub { owner: Seq<char>, repo: Seq<char> },
    GitLab { owner: Seq<char>, repo: Seq<char> },
    SourceHut { owner: Seq<char>, repo: Seq<char> },
    GitRemote { url: Seq<char> },
    GitLocal { path: Seq<char> },
}

impl View for FlakeUrl {
    type V = FlakeUrlView;

    open spec fn view(&self) -> FlakeUrlView {
        match self {
            FlakeUrl::GitHub { owner, repo } => FlakeUrlView::GitHub { owner: owner@, repo: repo@ },
            FlakeUrl::GitLab { owner, repo } => FlakeUrlView::GitLab { owner: owner@, repo: repo@ },
            FlakeUrl::SourceHut { owner, repo } => FlakeUrlView::SourceHut { owner: owner@, repo: repo@ },
            FlakeUrl::GitRemote { url } => FlakeUrlView::GitRemote { url: url@ },
            FlakeUrl::GitLocal { path } => FlakeUrlView::GitLocal { path: path@ },
        }
    }
}

/// A parsed flake URL and the `ref` query parameter it carried, if any.
#[derive(Debug, Clone)]
pub struct ParsedFlakeUrl {
    pub flake_url: FlakeUrl,
    pub inline_ref: Option<String>,
}

pub open spec fn opt_view(o: Option<String>) -> Option<Seq<char>> {
    match o {
        Some(s) => Some(s@),
        None => None,
    }
}

impl View for ParsedFlakeUrl {
    type V = (FlakeUrlView, Option<Seq<char>>);

    open spec fn view(&self) -> (FlakeUrlView, Option<Seq<char>>) {
        (self.flake_url@, opt_view(self.inline_ref))
    }
}

pub open spec fn opt_parsed_view(o: Option<ParsedFlakeUrl>) -> Option<(FlakeUrlView, Option<Seq<char>>)> {
    match o {
        Some(p) => Some(p@),
        None => None,
    }
}

/// The value of the first `ref=` parameter among the `&`-separated
/// parameters of `query`.
pub open spec fn first_ref_param(query: Seq<char>) -> Option<Seq<char>>
    decreases query.len(),
{
    let i = find(query, seq!['&']);
    let param = if i >= 0 { query.subrange(0, i) } else { query };
    if starts_with(param, "ref="@) {
        Some(param.subrange(4, param.len() as int))
    } else if i >= 0 {
        proof { lemma_find_from(query, seq!['&'], 0); }
        first_ref_param(query.subrange(i + 1, query.len() as int))
    } else {
        None
    }
}

/// `rest` split at its first `?` into the part before it (without trailing
/// slashes when `trim_slash`) and the `ref` parameter of the query.
pub open spec fn split_ref_query(rest: Seq<char>, trim_slash: bool) -> (Seq<char>, Option<Seq<char>>) {
    let q = find(rest, seq!['?']);
    if q >= 0 {
        let base = rest.subrange(0, q);
        (
            if trim_slash { trim_end_char(base, '/') } else { base },
            first_ref_param(rest.subrange(q + 1, rest.len() as int)),
        )
    } else {
        (rest, None)
    }
}

/// `owner/repo` of a forge flake URL (without its query).
pub open spec fn owner_repo(rest: Seq<char>) -> Option<(Seq<char>, Option<Seq<char>>, Seq<char>, Seq<char>)> {
    let (base, r) = split_ref_query(rest, true);
    match split_once(base, seq!['/']) {
        Some((owner, repo)) => Some((base, r, owner, repo)),
        None => None,
    }
}

/// What [`FlakeInputRule::parse_flake_url`] returns for `url`.
pub open spec fn spec_parse_flake_url(url: Seq<char>) -> Option<(FlakeUrlView, Option<Seq<char>>)> {
    let u = trim(url);
    if starts_with(u, "github:"@) {
        match owner_repo(u.subrange(7, u.len() as int)) {
            Some((_, r, owner, repo)) => Some((FlakeUrlView::GitHub { owner, repo }, r)),
            None => None,
        }
    } else if starts_with(u, "gitlab:"@) {
        match owner_repo(u.subrange(7, u.len() as int)) {
            Some((_, r, owner, repo)) => Some((FlakeUrlView::GitLab { owner, repo }, r)),
            None => None,
        }
    } else if starts_with(u, "sourcehut:"@) {
        match owner_repo(u.subrange(10, u.len() as int)) {
            Some((_, r, owner, repo)) => Some((FlakeUrlView::SourceHut { owner, repo }, r)),
            None => None,
        }
    } else if starts_with(u, "git+https://"@) {
        let (c, r) = split_ref_query(u.subrange(12, u.len() as int), false);
        Some((FlakeUrlView::GitRemote { url: "https://"@ + c }, r))
    } else if starts_with(u, "git+ssh://"@) {
        let (c, r) = split_ref_query(u.subrange(10, u.len() as int), false);
        Some((FlakeUrlView::GitRemote { url: "ssh://"@ + c }, r))
    } else if starts_with(u, "git+file://"@) {
        let (c, r) = split_ref_query(u.subrange(11, u.len() as int), false);
        Some((FlakeUrlView::GitLocal { path: c }, r))
    } else if starts_with(u, "git+http://"@) {
        let (c, r) = split_ref_query(u.subrange(11, u.len() as int), false);
        Some((FlakeUrlView::GitRemote { url: "http://"@ + c }, r))
    } else {
        None
    }
}

/// `s` with every leading repetition of `p` removed (`str::trim_start_matches`).
pub open spec fn trim_start_str(s: Seq<char>, p: Seq<char>) -> Seq<char>
    decreases s.len(),
{
    if p.len() > 0 && starts_with(s, p) {
        trim_start_str(s.subrange(p.len() as int, s.len() as int), p)
    } else {
        s
    }
}

/// What [`FlakeInputRule::reconstruct_url`] returns for `original` and `new_ref`.
pub open spec fn spec_reconstruct_url(original: Seq<char>, new_ref: Seq<char>) -> Option<Seq<char>> {
    let u = trim(original);
    let q = "?ref="@ + new_ref;
    match spec_parse_flake_url(u) {
        None => None,
        Some((f, _)) => match f {
            FlakeUrlView::GitHub { owner, repo } => Some("github:"@ + owner + "/"@ + repo + q),
            FlakeUrlView::GitLab { owner, repo } => Some("gitlab:"@ + owner + "/"@ + repo + q),
            FlakeUrlView::SourceHut { owner, repo } => Some("sourcehut:"@ + owner + "/"@ + repo + q),
            FlakeUrlView::GitRemote { url } => {
                if starts_with(u, "git+https://"@) {
                    Some("git+https://"@ + trim_start_str(url, "https://"@) + q)
                } else if starts_with(u, "git+ssh://"@) {
                    Some("git+ssh://"@ + trim_start_str(url, "ssh://"@) + q)
                } else if starts_with(u, "git+http://"@) {
                    Some("git+http://"@ + trim_start_str(url, "http://"@) + q)
                } else {
                    None
                }
            },
            FlakeUrlView::GitLocal { path } => Some("git+file://"@ + path + q),
        },
    }
}

pub open spec fn spec_remote_url(f: FlakeUrlView) -> Seq<char> {
    match f {
        FlakeUrlView::GitHub { owner, repo } => "https://github.com/"@ + owner + "/"@ + repo,
        FlakeUrlView::GitLab { owner, repo } => "https://gitlab.com/"@ + owner + "/"@ + repo,
        FlakeUrlView::SourceHut { owner, repo } => "https://sr.ht/~"@ + owner + "/"@ + repo,
        FlakeUrlView::GitRemote { url } => url,
        FlakeUrlView::GitLocal { path } => path,
    }
}

pub open spec fn spec_display_short(f: FlakeUrlView) -> Seq<char> {
    match f {
        FlakeUrlView::GitHub { owner, repo } => owner + "/"@ + repo,
        FlakeUrlView::GitLab { owner, repo } => owner + "/"@ + repo,
        FlakeUrlView::SourceHut { owner, repo } => owner + "/"@ + repo,
        FlakeUrlView::GitRemote { url } => url,
        FlakeUrlView::GitLocal { path } => path,
    }
}

/// `a + b` as a new `String`.
fn join2(a: &Vec<char>, b: &Vec<char>) -> (r: String)
    ensures
        r@ == a@ + b@,
{
    let mut r = String::new();
    append_chars(&mut r, a);
    append_chars(&mut r, b);
    r
}

fn push_str(r: &mut String, s: &str)
    ensures
        final(r)@ == old(r)@ + s@,
{
    let v = chars_of(s);
    append_chars(r, &v);
}

impl FlakeUrl {
    /// The URL of the repository that `git ls-remote` is asked about.
    pub fn to_remote_url(&self) -> (r: Option<String>)
        ensures
            r matches Some(s) && s@ == spec_remote_url(self@),
    {
        let mut r = String::new();
        match self {
            FlakeUrl::GitHub { owner, repo } => {
                push_str(&mut r, "https://github.com/");
                r = r.concat(owner.as_str());
                push_str(&mut r, "/");
                r = r.concat(repo.as_str());
            },
            FlakeUrl::GitLab { owner, repo } => {
                push_str(&mut r, "https://gitlab.com/");
                r = r.concat(owner.as_str());
                push_str(&mut r, "/");
                r = r.concat(repo.as_str());
            },
            FlakeUrl::SourceHut { owner, repo } => {
                push_str(&mut r, "https://sr.ht/~");
                r = r.concat(owner.as_str());
                push_str(&mut r, "/");
                r = r.concat(repo.as_str());
            },
            FlakeUrl::GitRemote { url } => {
                r = r.concat(url.as_str());
            },
            FlakeUrl::GitLocal { path } => {
                r = r.concat(path.as_str());
            },
        }
        Some(r)
    }

    /// A short label for messages: `owner/repo`, or the URL or path.
    pub fn display_short(&self) -> (r: String)
        ensures
            r@ == spec_display_short(self@),
    {
        let mut r = String::new();
        match self {
            FlakeUrl::GitHub { owner, repo } | FlakeUrl::GitLab { owner, repo } | FlakeUrl::SourceHut {
                owner,
                repo,
            } => {
                r = r.concat(owner.as_str());
                push_str(&mut r, "/");
                r = r.concat(repo.as_str());
            },
            FlakeUrl::GitRemote { url } => {
                r = r.concat(url.as_str());
            },
            FlakeUrl::GitLocal { path } => {
                r = r.concat(path.as_str());
            },
        }
        r
    }
}

/// The rule that moves a flake input pinned to a version tag to the newest
/// tag of the same shape.
#[derive(Debug, Clone, Copy, Default)]
pub struct FlakeInputRule;

fn first_ref_param_exec(query: &Vec<char>) -> (r: Option<Vec<char>>)
    ensures
        opt_chars(r) == first_ref_param(query@),
    decreases query.len(),
{
    let amp = vec!['&'];
    assert(amp@ == seq!['&']);
    let prefix = chars_of("ref=");
    proof { reveal_strlit("ref="); }
    let i = find_exec(query, &amp);
    proof { lemma_find_from(query@, amp@, 0); }
    let param = match i {
        Some(i) => slice_vec(query, 0, i),
        None => slice_vec(query, 0, query.len()),
    };
    assert(query@.subrange(0, query.len() as int) == query@);
    if starts_with_exec(&param, &prefix) {
        proof { reveal_strlit("ref="); }
        Some(slice_vec(&param, 4, param.len()))
    } else {
        match i {
            Some(i) => {
                let rest = slice_vec(query, i + 1, query.len());
                first_ref_param_exec(&rest)
            },
            None => None,
        }
    }
}

pub open spec fn opt_chars(o: Option<Vec<char>>) -> Option<Seq<char>> {
    match o {
        Some(v) => Some(v@),
        None => None,
    }
}

impl FlakeInputRule {
    /// The rule's name.
    pub fn name(&self) -> (r: &'static str)
        ensures
            r@ == "flake-input"@,
    {
        "flake-input"
    }

    /// `rest` split at its first `?`: the part before it (trailing slashes
    /// removed when `trim_trailing_slash`) and the value of the first
    /// `ref=` parameter of the query.
    pub fn extract_ref_from_url(rest: &str, trim_trailing_slash: bool) -> (r: (String, Option<String>))
        ensures
            (r.0@, opt_view(r.1)) == split_ref_query(rest@, trim_trailing_slash),
    {
        let v = chars_of(rest);
        Self::extract_ref_chars(&v, trim_trailing_slash)
    }

    fn extract_ref_chars(v: &Vec<char>, trim_trailing_slash: bool) -> (r: (String, Option<String>))
        ensures
            (r.0@, opt_view(r.1)) == split_ref_query(v@, trim_trailing_slash),
    {
        let qm = vec!['?'];
        assert(qm@ == seq!['?']);
        match find_exec(v, &qm) {
            Some(q) => {
                proof { lemma_find_from(v@, qm@, 0); }
                assert(occurs_at(v@, qm@, q as int));
                assert(q + 1 <= v.len());
                let base0 = slice_vec(v, 0, q);
                let base = if trim_trailing_slash { trim_end_char_exec(&base0, '/') } else { base0 };
                let query = slice_vec(v, q + 1, v.len());
                let r = first_ref_param_exec(&query);
                let inline = match r {
                    Some(x) => Some(to_string(&x)),
                    None => None,
                };
                (to_string(&base), inline)
            },
            None => (to_string(v), None),
        }
    }

    fn forge_parts(rest: &Vec<char>) -> (r: Option<(String, String, Option<String>)>)
        ensures
            match r {
                Some((o, p, q)) => owner_repo(rest@) matches Some((_, rr, owner, repo)) && o@ == owner
                    && p@ == repo && opt_view(q) == rr,
                None => owner_repo(rest@) is None,
            },
    {
        let (base, inline) = Self::extract_ref_chars(rest, true);
        let bv = chars_of(base.as_str());
        let slash = vec!['/'];
        assert(slash@ == seq!['/']);
        match split_once_exec(&bv, &slash) {
            Some((o, p)) => Some((to_string(&o), to_string(&p), inline)),
            None => None,
        }
    }

    /// Parses a flake URL naming a git repository; `None` for any other form.
    pub fn parse_flake_url(url: &str) -> (r: Option<ParsedFlakeUrl>)
        ensures
            opt_parsed_view(r) == spec_parse_flake_url(url@),
    {
        let v = chars_of(url);
        Self::parse_chars(&v)
    }

    fn parse_chars(v0: &Vec<char>) -> (r: Option<ParsedFlakeUrl>)
        ensures
            opt_parsed_view(r) == spec_parse_flake_url(v0@),
    {
        let u = trim_exec(v0);
        proof {
            reveal_strlit("github:");
            reveal_strlit("gitlab:");
            reveal_strlit("sourcehut:");
            reveal_strlit("git+https://");
            reveal_strlit("git+ssh://");
            reveal_strlit("git+file://");
            reveal_strlit("git+http://");
        }
        if let Some(rest) = strip_prefix_exec(&u, &chars_of("github:")) {
            match Self::forge_parts(&rest) {
                Some((owner, repo, inline_ref)) => Some(
                    ParsedFlakeUrl { flake_url: FlakeUrl::GitHub { owner, repo }, inline_ref },
                ),
                None => None,
            }
        } else if let Some(rest) = strip_prefix_exec(&u, &chars_of("gitlab:")) {
            match Self::forge_parts(&rest) {
                Some((owner, repo, inline_ref)) => Some(
                    ParsedFlakeUrl { flake_url: FlakeUrl::GitLab { owner, repo }, inline_ref },
                ),
                None => None,
            }
        } else if let Some(rest) = strip_prefix_exec(&u, &chars_of("sourcehut:")) {
            match Self::forge_parts(&rest) {
                Some((owner, repo, inline_ref)) => Some(
                    ParsedFlakeUrl { flake_url: FlakeUrl::SourceHut { owner, repo }, inline_ref },
                ),
                None => None,
            }
        } else if let Some(rest) = strip_prefix_exec(&u, &chars_of("git+https://")) {
            let (c, inline_ref) = Self::extract_ref_chars(&rest, false);
            let mut url = String::new();
            push_str(&mut url, "https://");
            url = url.concat(c.as_str());
            Some(ParsedFlakeUrl { flake_url: FlakeUrl::GitRemote { url }, inline_ref })
        } else if let Some(rest) = strip_prefix_exec(&u, &chars_of("git+ssh://")) {
            let (c, inline_ref) = Self::extract_ref_chars(&rest, false);
            let mut url = String::new();
            push_str(&mut url, "ssh://");
            url = url.concat(c.as_str());
            Some(ParsedFlakeUrl { flake_url: FlakeUrl::GitRemote { url }, inline_ref })
        } else if let Some(rest) = strip_prefix_exec(&u, &chars_of("git+file://")) {
            let (path, inline_ref) = Self::extract_ref_chars(&rest, false);
            Some(ParsedFlakeUrl { flake_url: FlakeUrl::GitLocal { path }, inline_ref })
        } else if let Some(rest) = strip_prefix_exec(&u, &chars_of("git+http://")) {
            let (c, inline_ref) = Self::extract_ref_chars(&rest, false);
            let mut url = String::new();
            push_str(&mut url, "http://");
            url = url.concat(c.as_str());
            Some(ParsedFlakeUrl { flake_url: FlakeUrl::GitRemote { url }, inline_ref })
        } else {
            None
        }
    }
}


/// `s` with every leading repetition of `p` removed.
fn trim_start_str_exec(s: &Vec<char>, p: &str) -> (r: Vec<char>)
    ensures
        r@ == trim_start_str(s@, p@),
{
    let pv = chars_of(p);
    let mut cur = crate::text::copy_vec(s);
    while pv.len() > 0 && starts_with_exec(&cur, &pv)
        invariant
            pv@ == p@,
            trim_start_str(cur@, p@) == trim_start_str(s@, p@),
        decreases cur.len(),
    {
        cur = slice_vec(&cur, pv.len(), cur.len());
    }
    cur
}

impl FlakeInputRule {
    /// The flake URL `original_url` pointing at `new_ref`: the repository
    /// it names, with its query replaced by `?ref=new_ref`. `None` when the
    /// URL is not a form [`FlakeInputRule::parse_flake_url`] accepts.
    pub fn reconstruct_url(original_url: &str, new_ref: &str) -> (r: Option<String>)
        ensures
            opt_view(r) == spec_reconstruct_url(original_url@, new_ref@),
    {
        let u = trim_exec(&chars_of(original_url));
        let parsed = match Self::parse_chars(&u) {
            Some(p) => p,
            None => return None,
        };
        proof {
            reveal_strlit("github:");
            reveal_strlit("gitlab:");
            reveal_strlit("sourcehut:");
            reveal_strlit("git+https://");
            reveal_strlit("git+ssh://");
            reveal_strlit("git+http://");
            reveal_strlit("git+file://");
        }
        let mut r = String::new();
        match &parsed.flake_url {
            FlakeUrl::GitHub { owner, repo } => {
                push_str(&mut r, "github:");
                r = r.concat(owner.as_str());
                push_str(&mut r, "/");
                r = r.concat(repo.as_str());
            },
            FlakeUrl::GitLab { owner, repo } => {
                push_str(&mut r, "gitlab:");
                r = r.concat(owner.as_str());
                push_str(&mut r, "/");
                r = r.concat(repo.as_str());
            },
            FlakeUrl::SourceHut { owner, repo } => {
                push_str(&mut r, "sourcehut:");
                r = r.concat(owner.as_str());
                push_str(&mut r, "/");
                r = r.concat(repo.as_str());
            },
            FlakeUrl::GitRemote { url } => {
                let uv = chars_of(url.as_str());
                if starts_with_exec(&u, &chars_of("git+https://")) {
                    push_str(&mut r, "git+https://");
                    append_chars(&mut r, &trim_start_str_exec(&uv, "https://"));
                } else if starts_with_exec(&u, &chars_of("git+ssh://")) {
                    push_str(&mut r, "git+ssh://");
                    append_chars(&mut r, &trim_start_str_exec(&uv, "ssh://"));
                } else if starts_with_exec(&u, &chars_of("git+http://")) {
                    push_str(&mut r, "git+http://");
                    append_chars(&mut r, &trim_start_str_exec(&uv, "http://"));
                } else {
                    return None;
                }
            },
            FlakeUrl::GitLocal { path } => {
                push_str(&mut r, "git+file://");
                r = r.concat(path.as_str());
            },
        }
        push_str(&mut r, "?ref=");
        r = r.concat(new_ref);
        Some(r)
    }
}


// ---------------------------------------------------------------------------
// A rebuilt URL carries the new ref
// ---------------------------------------------------------------------------

/// A forge URL whose repository part is not made of slashes alone, so that
/// it survives the trailing-slash trim when the URL is parsed again.
pub open spec fn keeps_repo_name(f: FlakeUrlView) -> bool {
    match f {
        FlakeUrlView::GitHub { repo, .. } => exists|m: int| 0 <= m < repo.len() && repo[m] != '/',
        FlakeUrlView::GitLab { repo, .. } => exists|m: int| 0 <= m < repo.len() && repo[m] != '/',
        FlakeUrlView::SourceHut { repo, .. } => exists|m: int| 0 <= m < repo.len() && repo[m] != '/',
        _ => true,
    }
}

proof fn lemma_not_prefix(n: Seq<char>, p: Seq<char>, i: int)
    requires
        0 <= i < p.len(),
        i < n.len(),
        n[i] != p[i],
    ensures
        !starts_with(n, p),
{
    if starts_with(n, p) {
        assert(n.subrange(0, p.len() as int)[i] == n[i]);
    }
}

proof fn lemma_prefix_parts(p: Seq<char>, x: Seq<char>)
    ensures
        starts_with(p + x, p),
        (p + x).subrange(p.len() as int, (p + x).len() as int) == x,
{
    assert((p + x).subrange(0, p.len() as int) =~= p);
    assert((p + x).subrange(p.len() as int, (p + x).len() as int) =~= x);
}

proof fn lemma_ref_param(r: Seq<char>)
    requires
        !has_char(r, '&'),
    ensures
        first_ref_param("ref="@ + r) == Some(r),
{
    reveal_strlit("ref=");
    let q = "ref="@ + r;
    assert(!has_char("ref="@, '&')) by {
        if has_char("ref="@, '&') {
            let k = choose|k: int| 0 <= k < 4 && "ref="@[k] == '&';
        }
    }
    lemma_has_char_concat("ref="@, r, '&');
    lemma_find_char(q, '&');
    lemma_find_from(q, seq!['&'], 0);
    lemma_prefix_parts("ref="@, r);
}

/// The part before the first `?` has no `?`; neither has the whole when
/// there is no `?`.
proof fn lemma_split_ref_query_base(rest: Seq<char>, trim_slash: bool)
    ensures
        !has_char(split_ref_query(rest, trim_slash).0, '?'),
{
    let q = find(rest, seq!['?']);
    lemma_find_char(rest, '?');
    lemma_find_from(rest, seq!['?'], 0);
    if q >= 0 {
        let b0 = rest.subrange(0, q);
        assert(!has_char(b0, '?')) by {
            if has_char(b0, '?') {
                let k = choose|k: int| 0 <= k < b0.len() && b0[k] == '?';
                assert(rest[k] == '?');
            }
        }
        lemma_trim_end_char_at(b0, '/', b0.len() as int);
        lemma_no_char_subrange(b0, '?', 0, trim_end_char_at(b0, '/', b0.len() as int));
    }
}

/// What a forge URL's owner and repository cannot contain.
proof fn lemma_owner_repo_chars(rest: Seq<char>)
    ensures
        owner_repo(rest) matches Some((_, _, owner, repo)) ==> !has_char(owner, '?') && !has_char(owner, '/')
            && !has_char(repo, '?'),
{
    let base = split_ref_query(rest, true).0;
    lemma_split_ref_query_base(rest, true);
    let i = find(base, seq!['/']);
    lemma_find_char(base, '/');
    lemma_find_from(base, seq!['/'], 0);
    if i >= 0 {
        lemma_no_char_subrange(base, '?', 0, i);
        lemma_no_char_subrange(base, '?', i + 1, base.len() as int);
        let owner = base.subrange(0, i);
        assert(!has_char(owner, '/')) by {
            if has_char(owner, '/') {
                let k = choose|k: int| 0 <= k < owner.len() && owner[k] == '/';
                assert(base[k] == '/');
            }
        }
    }
}

/// Parsing `t?ref=r` without trimming gives back `t` and the ref `r`.
proof fn lemma_split_ref_query_plain(t: Seq<char>, r: Seq<char>)
    requires
        !has_char(t, '?'),
        !has_char(r, '&'),
    ensures
        split_ref_query(t + "?ref="@ + r, false) == (t, Some(r)),
{
    reveal_strlit("?ref=");
    reveal_strlit("ref=");
    let n = t + "?ref="@ + r;
    assert(n =~= t + seq!['?'] + ("ref="@ + r));
    lemma_find_char_after(t, '?', "ref="@ + r);
    assert(n.subrange(0, t.len() as int) =~= t);
    assert(n.subrange(t.len() + 1int, n.len() as int) =~= "ref="@ + r);
    lemma_ref_param(r);
}

/// Parsing `owner/repo?ref=r` as a forge URL again gives the ref `r`.
proof fn lemma_owner_repo_reparse(owner: Seq<char>, repo: Seq<char>, r: Seq<char>)
    requires
        !has_char(owner, '?'),
        !has_char(owner, '/'),
        !has_char(repo, '?'),
        !has_char(r, '&'),
        exists|m: int| 0 <= m < repo.len() && repo[m] != '/',
    ensures
        owner_repo(owner + "/"@ + repo + "?ref="@ + r) matches Some((_, rr, _, _)) && rr == Some(r),
        repo[repo.len() - 1] != '/' ==> (owner_repo(owner + "/"@ + repo + "?ref="@ + r) matches Some((_, _, o, p))
            && o == owner && p == repo),
{
    reveal_strlit("/");
    reveal_strlit("?ref=");
    reveal_strlit("ref=");
    let a = owner + seq!['/'] + repo;
    let n = owner + "/"@ + repo + "?ref="@ + r;
    assert(n =~= a + seq!['?'] + ("ref="@ + r));
    assert(!has_char(seq!['/'], '?')) by {
        if has_char(seq!['/'], '?') {
            let k = choose|k: int| 0 <= k < 1 && seq!['/'][k] == '?';
        }
    }
    lemma_has_char_concat(owner, seq!['/'], '?');
    lemma_has_char_concat(owner + seq!['/'], repo, '?');
    lemma_find_char_after(a, '?', "ref="@ + r);
    assert(n.subrange(0, a.len() as int) =~= a);
    assert(n.subrange(a.len() + 1int, n.len() as int) =~= "ref="@ + r);
    lemma_ref_param(r);
    let t = trim_end_char_at(a, '/', a.len() as int);
    lemma_trim_end_char_at(a, '/', a.len() as int);
    let m = choose|m: int| 0 <= m < repo.len() && repo[m] != '/';
    assert(a[owner.len() + 1 + m] == repo[m]);
    assert(t > owner.len() + 1 + m);
    let base = a.subrange(0, t);
    let tail = a.subrange(owner.len() + 1int, t);
    assert(base =~= owner + seq!['/'] + tail);
    lemma_find_char_after(owner, '/', tail);
    if repo[repo.len() - 1] != '/' {
        assert(a[a.len() - 1] == repo[repo.len() - 1]);
        assert(t == a.len());
        assert(tail =~= repo);
        assert(base.subrange(0, owner.len() as int) =~= owner);
    }
}

/// Leading copies of `p` removed from `s` leave no character `s` lacks.
proof fn lemma_trim_start_no_char(s: Seq<char>, p: Seq<char>, c: char)
    requires
        !has_char(s, c),
    ensures
        !has_char(trim_start_str(s, p), c),
    decreases s.len(),
{
    if p.len() > 0 && starts_with(s, p) {
        lemma_no_char_subrange(s, c, p.len() as int, s.len() as int);
        lemma_trim_start_no_char(s.subrange(p.len() as int, s.len() as int), p, c);
    }
}

proof fn lemma_no_char_lit(p: Seq<char>, c: char)
    requires
        forall|i: int| 0 <= i < p.len() ==> p[i] != c,
    ensures
        !has_char(p, c),
{
}

/// A rebuilt URL (a `g`-initial scheme, then the ref) is its own trim.
proof fn lemma_rebuilt_trim(p: Seq<char>, x: Seq<char>, r: Seq<char>)
    requires
        p.len() > 0,
        !is_white(p[0]),
        r.len() > 0 ==> !is_white(r[r.len() - 1]),
    ensures
        trim(p + x + "?ref="@ + r) == p + x + "?ref="@ + r,
{
    reveal_strlit("?ref=");
    let q = "?ref="@ + r;
    let n = p + x + q;
    assert(n[0] == p[0]);
    assert(n[n.len() - 1] == q[q.len() - 1]);
    if r.len() == 0 {
        assert(q[q.len() - 1] == '=');
    } else {
        assert(q[q.len() - 1] == r[r.len() - 1]);
    }
    lemma_trim_unchanged(n);
}

proof fn lemma_reparse_github(owner: Seq<char>, repo: Seq<char>, r: Seq<char>)
    requires
        !has_char(owner, '?'),
        !has_char(owner, '/'),
        !has_char(repo, '?'),
        !has_char(r, '&'),
        r.len() > 0 ==> !is_white(r[r.len() - 1]),
        exists|m: int| 0 <= m < repo.len() && repo[m] != '/',
    ensures
        spec_parse_flake_url("github:"@ + owner + "/"@ + repo + "?ref="@ + r) matches Some((_, rr)) && rr == Some(r),
        repo[repo.len() - 1] != '/' ==> spec_parse_flake_url("github:"@ + owner + "/"@ + repo + "?ref="@ + r) == Some(
            (FlakeUrlView::GitHub { owner, repo }, Some(r)),
        ),
{
    reveal_strlit("github:");
    let x = owner + "/"@ + repo;
    let n = "github:"@ + x + "?ref="@ + r;
    assert(n =~= "github:"@ + owner + "/"@ + repo + "?ref="@ + r);
    lemma_rebuilt_trim("github:"@, x, r);
    lemma_prefix_parts("github:"@, x + "?ref="@ + r);
    assert(n =~= "github:"@ + (x + "?ref="@ + r));
    lemma_owner_repo_reparse(owner, repo, r);
}

proof fn lemma_reparse_gitlab(owner: Seq<char>, repo: Seq<char>, r: Seq<char>)
    requires
        !has_char(owner, '?'),
        !has_char(owner, '/'),
        !has_char(repo, '?'),
        !has_char(r, '&'),
        r.len() > 0 ==> !is_white(r[r.len() - 1]),
        exists|m: int| 0 <= m < repo.len() && repo[m] != '/',
    ensures
        spec_parse_flake_url("gitlab:"@ + owner + "/"@ + repo + "?ref="@ + r) matches Some((_, rr)) && rr == Some(r),
        repo[repo.len() - 1] != '/' ==> spec_parse_flake_url("gitlab:"@ + owner + "/"@ + repo + "?ref="@ + r) == Some(
            (FlakeUrlView::GitLab { owner, repo }, Some(r)),
        ),
{
    reveal_strlit("github:");
    reveal_strlit("gitlab:");
    let x = owner + "/"@ + repo;
    let n = "gitlab:"@ + x + "?ref="@ + r;
    assert(n =~= "gitlab:"@ + owner + "/"@ + repo + "?ref="@ + r);
    lemma_rebuilt_trim("gitlab:"@, x, r);
    lemma_prefix_parts("gitlab:"@, x + "?ref="@ + r);
    assert(n =~= "gitlab:"@ + (x + "?ref="@ + r));
    lemma_not_prefix(n, "github:"@, 3);
    lemma_owner_repo_reparse(owner, repo, r);
}

proof fn lemma_reparse_sourcehut(owner: Seq<char>, repo: Seq<char>, r: Seq<char>)
    requires
        !has_char(owner, '?'),
        !has_char(owner, '/'),
        !has_char(repo, '?'),
        !has_char(r, '&'),
        r.len() > 0 ==> !is_white(r[r.len() - 1]),
        exists|m: int| 0 <= m < repo.len() && repo[m] != '/',
    ensures
        spec_parse_flake_url("sourcehut:"@ + owner + "/"@ + repo + "?ref="@ + r) matches Some((_, rr)) && rr == Some(r),
        repo[repo.len() - 1] != '/' ==> spec_parse_flake_url("sourcehut:"@ + owner + "/"@ + repo + "?ref="@ + r) == Some(
            (FlakeUrlView::SourceHut { owner, repo }, Some(r)),
        ),
{
    reveal_strlit("github:");
    reveal_strlit("gitlab:");
    reveal_strlit("sourcehut:");
    let x = owner + "/"@ + repo;
    let n = "sourcehut:"@ + x + "?ref="@ + r;
    assert(n =~= "sourcehut:"@ + owner + "/"@ + repo + "?ref="@ + r);
    lemma_rebuilt_trim("sourcehut:"@, x, r);
    lemma_prefix_parts("sourcehut:"@, x + "?ref="@ + r);
    assert(n =~= "sourcehut:"@ + (x + "?ref="@ + r));
    lemma_not_prefix(n, "github:"@, 1);
    lemma_not_prefix(n, "gitlab:"@, 1);
    lemma_owner_repo_reparse(owner, repo, r);
}

/// The flake URL that the git form `scheme` gives for the text `t` after it.
pub open spec fn git_form(scheme: Seq<char>, t: Seq<char>) -> FlakeUrlView {
    if scheme == "git+https://"@ {
        FlakeUrlView::GitRemote { url: "https://"@ + t }
    } else if scheme == "git+ssh://"@ {
        FlakeUrlView::GitRemote { url: "ssh://"@ + t }
    } else if scheme == "git+file://"@ {
        FlakeUrlView::GitLocal { path: t }
    } else {
        FlakeUrlView::GitRemote { url: "http://"@ + t }
    }
}

/// The schemes of the git forms, in the order the parser tries them.
proof fn lemma_reparse_git(scheme: Seq<char>, t: Seq<char>, r: Seq<char>)
    requires
        scheme == "git+https://"@ || scheme == "git+ssh://"@ || scheme == "git+file://"@ || scheme == "git+http://"@,
        !has_char(t, '?'),
        !has_char(r, '&'),
        r.len() > 0 ==> !is_white(r[r.len() - 1]),
    ensures
        spec_parse_flake_url(scheme + t + "?ref="@ + r) == Some((git_form(scheme, t), Some(r))),
{
    reveal_strlit("github:");
    reveal_strlit("gitlab:");
    reveal_strlit("sourcehut:");
    reveal_strlit("git+https://");
    reveal_strlit("git+ssh://");
    reveal_strlit("git+file://");
    reveal_strlit("git+http://");
    let n = scheme + t + "?ref="@ + r;
    lemma_rebuilt_trim(scheme, t, r);
    lemma_prefix_parts(scheme, t + "?ref="@ + r);
    assert(n =~= scheme + (t + "?ref="@ + r));
    lemma_split_ref_query_plain(t, r);
    lemma_not_prefix(n, "github:"@, 3);
    lemma_not_prefix(n, "gitlab:"@, 3);
    lemma_not_prefix(n, "sourcehut:"@, 0);
    if scheme == "git+ssh://"@ {
        lemma_not_prefix(n, "git+https://"@, 4);
    } else if scheme == "git+file://"@ {
        lemma_not_prefix(n, "git+https://"@, 4);
        lemma_not_prefix(n, "git+ssh://"@, 4);
    } else if scheme == "git+http://"@ {
        lemma_not_prefix(n, "git+https://"@, 8);
        lemma_not_prefix(n, "git+ssh://"@, 4);
        lemma_not_prefix(n, "git+file://"@, 4);
    }
}

/// A git remote URL with its scheme trimmed off has no `?`.
proof fn lemma_remote_no_query(scheme: Seq<char>, rest: Seq<char>)
    requires
        forall|i: int| 0 <= i < scheme.len() ==> scheme[i] != '?',
    ensures
        !has_char(trim_start_str(scheme + split_ref_query(rest, false).0, scheme), '?'),
{
    lemma_split_ref_query_base(rest, false);
    lemma_no_char_lit(scheme, '?');
    lemma_has_char_concat(scheme, split_ref_query(rest, false).0, '?');
    lemma_trim_start_no_char(scheme + split_ref_query(rest, false).0, scheme, '?');
}

/// A flake URL rebuilt around a new ref parses again, and carries that ref.
///
/// This holds for every URL the parser accepts, except a forge URL whose
/// repository part is only slashes (`github:owner/`), and for every ref
/// without `&` and without trailing whitespace.
pub proof fn reconstructed_url_carries_new_ref(url: Seq<char>, new_ref: Seq<char>)
    requires
        spec_parse_flake_url(url) matches Some((f, _)) && keeps_repo_name(f),
        !has_char(new_ref, '&'),
        new_ref.len() > 0 ==> !is_white(new_ref[new_ref.len() - 1]),
    ensures
        spec_reconstruct_url(url, new_ref) matches Some(n) && spec_parse_flake_url(n) matches Some((_, r))
            && r == Some(new_ref),
{
    reveal_strlit("github:");
    reveal_strlit("gitlab:");
    reveal_strlit("sourcehut:");
    reveal_strlit("git+https://");
    reveal_strlit("git+ssh://");
    reveal_strlit("git+file://");
    reveal_strlit("git+http://");
    reveal_strlit("https://");
    reveal_strlit("ssh://");
    reveal_strlit("http://");
    let u = trim(url);
    lemma_trim_idempotent(url);
    assert(trim(u) == u);
    assert(spec_parse_flake_url(u) == spec_parse_flake_url(url));
    let q = "?ref="@ + new_ref;
    let f = spec_parse_flake_url(url).unwrap().0;
    match f {
        FlakeUrlView::GitHub { owner, repo } => {
            lemma_owner_repo_chars(u.subrange(7, u.len() as int));
            assert("github:"@ + owner + "/"@ + repo + q =~= "github:"@ + owner + "/"@ + repo + "?ref="@ + new_ref);
            lemma_reparse_github(owner, repo, new_ref);
        },
        FlakeUrlView::GitLab { owner, repo } => {
            lemma_owner_repo_chars(u.subrange(7, u.len() as int));
            assert("gitlab:"@ + owner + "/"@ + repo + q =~= "gitlab:"@ + owner + "/"@ + repo + "?ref="@ + new_ref);
            lemma_reparse_gitlab(owner, repo, new_ref);
        },
        FlakeUrlView::SourceHut { owner, repo } => {
            lemma_owner_repo_chars(u.subrange(10, u.len() as int));
            assert("sourcehut:"@ + owner + "/"@ + repo + q =~= "sourcehut:"@ + owner + "/"@ + repo + "?ref="@
                + new_ref);
            lemma_reparse_sourcehut(owner, repo, new_ref);
        },
        FlakeUrlView::GitRemote { url: remote } => {
            if starts_with(u, "git+https://"@) {
                let t = trim_start_str(remote, "https://"@);
                lemma_remote_no_query("https://"@, u.subrange(12, u.len() as int));
                assert("git+https://"@ + t + q =~= "git+https://"@ + t + "?ref="@ + new_ref);
                lemma_reparse_git("git+https://"@, t, new_ref);
            } else if starts_with(u, "git+ssh://"@) {
                let t = trim_start_str(remote, "ssh://"@);
                lemma_remote_no_query("ssh://"@, u.subrange(10, u.len() as int));
                assert("git+ssh://"@ + t + q =~= "git+ssh://"@ + t + "?ref="@ + new_ref);
                lemma_reparse_git("git+ssh://"@, t, new_ref);
            } else {
                let t = trim_start_str(remote, "http://"@);
                lemma_remote_no_query("http://"@, u.subrange(11, u.len() as int));
                assert("git+http://"@ + t + q =~= "git+http://"@ + t + "?ref="@ + new_ref);
                lemma_reparse_git("git+http://"@, t, new_ref);
            }
        },
        FlakeUrlView::GitLocal { path } => {
            lemma_split_ref_query_base(u.subrange(11, u.len() as int), false);
            assert("git+file://"@ + path + q =~= "git+file://"@ + path + "?ref="@ + new_ref);
            lemma_reparse_git("git+file://"@, path, new_ref);
        },
    }
}

/// `s` starts with `p` twice over.
pub open spec fn doubled_prefix(s: Seq<char>, p: Seq<char>) -> bool {
    starts_with(s, p) && starts_with(s.subrange(p.len() as int, s.len() as int), p)
}

/// A parsed flake URL that rebuilding gives back exactly: a forge
/// repository that does not end in `/`, a git remote that does not repeat
/// its scheme.
pub open spec fn rebuilds_exactly(f: FlakeUrlView) -> bool {
    match f {
        FlakeUrlView::GitHub { repo, .. } => repo.len() > 0 && repo[repo.len() - 1] != '/',
        FlakeUrlView::GitLab { repo, .. } => repo.len() > 0 && repo[repo.len() - 1] != '/',
        FlakeUrlView::SourceHut { repo, .. } => repo.len() > 0 && repo[repo.len() - 1] != '/',
        FlakeUrlView::GitRemote { url } => !doubled_prefix(url, "https://"@) && !doubled_prefix(url, "ssh://"@)
            && !doubled_prefix(url, "http://"@),
        FlakeUrlView::GitLocal { .. } => true,
    }
}

/// Trimming the scheme off a remote that does not repeat it leaves the rest.
proof fn lemma_trim_scheme_once(p: Seq<char>, c: Seq<char>)
    requires
        p.len() > 0,
        !doubled_prefix(p + c, p),
    ensures
        trim_start_str(p + c, p) == c,
        !starts_with(c, p),
{
    lemma_prefix_parts(p, c);
    assert(trim_start_str(c, p) == c);
    assert(trim_start_str(p + c, p) == trim_start_str(c, p));
}

/// The git form a rebuilt URL starts with is the one the parser tries for it.
proof fn lemma_git_branch(scheme: Seq<char>, t: Seq<char>, r: Seq<char>)
    requires
        scheme == "git+https://"@ || scheme == "git+ssh://"@ || scheme == "git+http://"@,
    ensures
        starts_with(scheme + t + "?ref="@ + r, scheme),
        scheme != "git+https://"@ ==> !starts_with(scheme + t + "?ref="@ + r, "git+https://"@),
        scheme == "git+http://"@ ==> !starts_with(scheme + t + "?ref="@ + r, "git+ssh://"@),
{
    reveal_strlit("git+https://");
    reveal_strlit("git+ssh://");
    reveal_strlit("git+http://");
    let n = scheme + t + "?ref="@ + r;
    lemma_prefix_parts(scheme, t + "?ref="@ + r);
    assert(n =~= scheme + (t + "?ref="@ + r));
    if scheme == "git+ssh://"@ {
        lemma_not_prefix(n, "git+https://"@, 4);
    } else if scheme == "git+http://"@ {
        lemma_not_prefix(n, "git+https://"@, 8);
        lemma_not_prefix(n, "git+ssh://"@, 4);
    }
}

/// Rebuilding a flake URL around a new ref and parsing the result gives the
/// same repository, of the same kind, now with the new ref; rebuilding that
/// URL around the same ref gives it back unchanged.
///
/// This holds for every URL the parser accepts except a forge URL whose
/// repository part is empty or ends in `/` (`github:owner/repo/`) and a git
/// URL whose remote repeats its scheme (`git+https://https://host/repo`),
/// and for every ref without `&` and without trailing whitespace.
#[verifier::rlimit(60)]
pub proof fn reconstruct_url_round_trip(url: Seq<char>, new_ref: Seq<char>)
    requires
        spec_parse_flake_url(url) matches Some((f, _)) && rebuilds_exactly(f),
        !has_char(new_ref, '&'),
        new_ref.len() > 0 ==> !is_white(new_ref[new_ref.len() - 1]),
    ensures
        spec_reconstruct_url(url, new_ref) matches Some(n) && spec_parse_flake_url(n) == Some(
            (spec_parse_flake_url(url).unwrap().0, Some(new_ref)),
        ) && spec_reconstruct_url(n, new_ref) == Some(n),
{
    reveal_strlit("github:");
    reveal_strlit("gitlab:");
    reveal_strlit("sourcehut:");
    reveal_strlit("git+https://");
    reveal_strlit("git+ssh://");
    reveal_strlit("git+file://");
    reveal_strlit("git+http://");
    reveal_strlit("https://");
    reveal_strlit("ssh://");
    reveal_strlit("http://");
    let u = trim(url);
    lemma_trim_idempotent(url);
    assert(spec_parse_flake_url(u) == spec_parse_flake_url(url));
    let q = "?ref="@ + new_ref;
    let f = spec_parse_flake_url(url).unwrap().0;
    match f {
        FlakeUrlView::GitHub { owner, repo } => {
            lemma_owner_repo_chars(u.subrange(7, u.len() as int));
            let n = "github:"@ + owner + "/"@ + repo + "?ref="@ + new_ref;
            assert("github:"@ + owner + "/"@ + repo + q =~= n);
            lemma_reparse_github(owner, repo, new_ref);
            lemma_rebuilt_trim("github:"@, owner + "/"@ + repo, new_ref);
            assert(n =~= "github:"@ + (owner + "/"@ + repo) + "?ref="@ + new_ref);
        },
        FlakeUrlView::GitLab { owner, repo } => {
            lemma_owner_repo_chars(u.subrange(7, u.len() as int));
            let n = "gitlab:"@ + owner + "/"@ + repo + "?ref="@ + new_ref;
            assert("gitlab:"@ + owner + "/"@ + repo + q =~= n);
            lemma_reparse_gitlab(owner, repo, new_ref);
            lemma_rebuilt_trim("gitlab:"@, owner + "/"@ + repo, new_ref);
            assert(n =~= "gitlab:"@ + (owner + "/"@ + repo) + "?ref="@ + new_ref);
        },
        FlakeUrlView::SourceHut { owner, repo } => {
            lemma_owner_repo_chars(u.subrange(10, u.len() as int));
            let n = "sourcehut:"@ + owner + "/"@ + repo + "?ref="@ + new_ref;
            assert("sourcehut:"@ + owner + "/"@ + repo + q =~= n);
            lemma_reparse_sourcehut(owner, repo, new_ref);
            lemma_rebuilt_trim("sourcehut:"@, owner + "/"@ + repo, new_ref);
            assert(n =~= "sourcehut:"@ + (owner + "/"@ + repo) + "?ref="@ + new_ref);
        },
        FlakeUrlView::GitRemote { url: remote } => {
            if starts_with(u, "git+https://"@) {
                let c = split_ref_query(u.subrange(12, u.len() as int), false).0;
                lemma_trim_scheme_once("https://"@, c);
                lemma_remote_no_query("https://"@, u.subrange(12, u.len() as int));
                let n = "git+https://"@ + c + "?ref="@ + new_ref;
                assert("git+https://"@ + c + q =~= n);
                lemma_reparse_git("git+https://"@, c, new_ref);
                lemma_git_branch("git+https://"@, c, new_ref);
                lemma_rebuilt_trim("git+https://"@, c, new_ref);
            } else if starts_with(u, "git+ssh://"@) {
                let c = split_ref_query(u.subrange(10, u.len() as int), false).0;
                lemma_trim_scheme_once("ssh://"@, c);
                lemma_remote_no_query("ssh://"@, u.subrange(10, u.len() as int));
                let n = "git+ssh://"@ + c + "?ref="@ + new_ref;
                assert("git+ssh://"@ + c + q =~= n);
                lemma_reparse_git("git+ssh://"@, c, new_ref);
                lemma_git_branch("git+ssh://"@, c, new_ref);
                lemma_rebuilt_trim("git+ssh://"@, c, new_ref);
            } else {
                let c = split_ref_query(u.subrange(11, u.len() as int), false).0;
                lemma_trim_scheme_once("http://"@, c);
                lemma_remote_no_query("http://"@, u.subrange(11, u.len() as int));
                let n = "git+http://"@ + c + "?ref="@ + new_ref;
                assert("git+http://"@ + c + q =~= n);
                lemma_reparse_git("git+http://"@, c, new_ref);
                lemma_git_branch("git+http://"@, c, new_ref);
                lemma_rebuilt_trim("git+http://"@, c, new_ref);
            }
        },
        FlakeUrlView::GitLocal { path } => {
            lemma_split_ref_query_base(u.subrange(11, u.len() as int), false);
            let n = "git+file://"@ + path + "?ref="@ + new_ref;
            assert("git+file://"@ + path + q =~= n);
            lemma_reparse_git("git+file://"@, path, new_ref);
            lemma_rebuilt_trim("git+file://"@, path, new_ref);
        },
    }
}

} // verus!

verus! {

// ---------------------------------------------------------------------------
// Collecting the inputs of a flake
// ---------------------------------------------------------------------------

/// A string attribute of an input: its text and where its literal stands.
#[derive(Debug, Clone)]
pub struct SourceValue {
    pub value: String,
    pub range: TextRange,
}

/// What a flake says of one input.
#[derive(Debug, Clone)]
pub struct InputDef {
    pub name: String,
    pub url: Option<SourceValue>,
    pub ref_value: Option<SourceValue>,
    /// Whether the ref is the `?ref=` of the URL.
    pub inline_ref: bool,
    pub pinned: bool,
}

pub struct InputView {
    pub url: Option<(Seq<char>, TextRange)>,
    pub ref_value: Option<(Seq<char>, TextRange)>,
    pub inline_ref: bool,
    pub pinned: bool,
}

pub open spec fn sv_view(o: Option<SourceValue>) -> Option<(Seq<char>, TextRange)> {
    match o {
        Some(s) => Some((s.value@, s.range)),
        None => None,
    }
}

impl View for InputDef {
    type V = (Seq<char>, InputView);

    open spec fn view(&self) -> (Seq<char>, InputView) {
        (
            self.name@,
            InputView {
                url: sv_view(self.url),
                ref_value: sv_view(self.ref_value),
                inline_ref: self.inline_ref,
                pinned: self.pinned,
            },
        )
    }
}

/// The inputs found so far, by name, in the order they were first seen.
#[verifier::ext_equal]
pub struct InputsView {
    pub names: Seq<Seq<char>>,
    pub defs: Map<Seq<char>, InputView>,
}

/// One thing a binding does to the inputs.
pub enum InputOp {
    /// Defines an input, unless it is defined already.
    Define { name: Seq<char>, def: InputView },
    /// Sets the `url` or `ref` of an input (defining it, unpinned, first),
    /// when the value is a literal; pins it when the binding is pinned.
    SetAttr { name: Seq<char>, attr: Seq<char>, value: Option<(Seq<char>, TextRange)>, pinned: bool },
}

pub open spec fn or_insert(s: InputsView, name: Seq<char>, def: InputView) -> InputsView {
    if s.defs.contains_key(name) {
        s
    } else {
        InputsView { names: s.names.push(name), defs: s.defs.insert(name, def) }
    }
}

pub open spec fn apply_op(s: InputsView, op: InputOp) -> InputsView {
    match op {
        InputOp::Define { name, def } => or_insert(s, name, def),
        InputOp::SetAttr { name, attr, value, pinned } => {
            let s1 = match value {
                Some(v) => {
                    let s0 = or_insert(s, name, InputView { url: None, ref_value: None, inline_ref: false, pinned });
                    let d = s0.defs[name];
                    if attr == "url"@ {
                        InputsView { defs: s0.defs.insert(name, InputView { url: Some(v), ..d }), ..s0 }
                    } else if attr == "ref"@ {
                        InputsView { defs: s0.defs.insert(name, InputView { ref_value: Some(v), ..d }), ..s0 }
                    } else {
                        s0
                    }
                },
                None => s,
            };
            if pinned && s1.defs.contains_key(name) {
                InputsView { defs: s1.defs.insert(name, InputView { pinned: true, ..s1.defs[name] }), ..s1 }
            } else {
                s1
            }
        },
    }
}

pub open spec fn apply_ops(s: InputsView, ops: Seq<InputOp>) -> InputsView
    decreases ops.len(),
{
    if ops.len() == 0 {
        s
    } else {
        apply_op(apply_ops(s, ops.drop_last()), ops.last())
    }
}

/// The schema of an input's attribute set: `url` and `ref` strings.
pub open spec fn input_specs() -> Seq<(Seq<char>, crate::parser::AttrType)> {
    seq![("url"@, crate::parser::AttrType::String), ("ref"@, crate::parser::AttrType::String)]
}

/// The literal text of string node `v` with its range.
pub open spec fn literal_at(f: crate::parser::NixFile, v: int) -> Option<(Seq<char>, TextRange)> {
    match crate::parser::node::spec_pure_string(f, v) {
        Some(c) => Some((c, f.table().ranges[v])),
        None => None,
    }
}

/// The literal bound to `key` in a read input attribute set.
pub open spec fn model_literal(f: crate::parser::NixFile, m: crate::parser::attrs::AttrsModel, key: Seq<char>) -> Option<
    (Seq<char>, TextRange),
> {
    if m.string_nodes.contains_key(key) {
        literal_at(f, m.string_nodes[key])
    } else {
        None
    }
}

/// What binding `b` of input `name` to a whole value does: an attribute
/// set that reads defines the input with its `url` and `ref` literals
/// (pinned by a comment on the set or the binding); a string literal
/// defines it with that URL (pinned by a comment on the binding).
pub open spec fn define_ops(f: crate::parser::NixFile, b: int, name: Seq<char>) -> Seq<InputOp> {
    let t = f.table();
    match crate::parser::node::spec_attr_value(t, b) {
        None => Seq::empty(),
        Some(v) => if t.kinds[v] == crate::parser::NixKind::AttrSet {
            match crate::parser::attrs::spec_parse_attrs(f, v, input_specs(), None) {
                Err(_) => Seq::empty(),
                Ok(m) => seq![
                    InputOp::Define {
                        name,
                        def: InputView {
                            url: model_literal(f, m, "url"@),
                            ref_value: model_literal(f, m, "ref"@),
                            inline_ref: false,
                            pinned: crate::parser::node::spec_has_pin_comment(t, v)
                                || crate::parser::node::spec_has_pin_comment(t, b),
                        },
                    },
                ],
            }
        } else if t.kinds[v] == crate::parser::NixKind::String {
            match literal_at(f, v) {
                Some(u) => seq![
                    InputOp::Define {
                        name,
                        def: InputView {
                            url: Some(u),
                            ref_value: None,
                            inline_ref: false,
                            pinned: crate::parser::node::spec_has_pin_comment(t, b),
                        },
                    },
                ],
                None => Seq::empty(),
            }
        } else {
            Seq::empty()
        },
    }
}

/// What binding `b` of attribute `attr` of input `name` does.
pub open spec fn attr_op(f: crate::parser::NixFile, b: int, name: Seq<char>, attr: Seq<char>) -> InputOp {
    let t = f.table();
    let value = match crate::parser::node::spec_attr_value(t, b) {
        Some(v) => if t.kinds[v] == crate::parser::NixKind::String {
            literal_at(f, v)
        } else {
            None
        },
        None => None,
    };
    InputOp::SetAttr { name, attr, value, pinned: crate::parser::node::spec_has_pin_comment(t, b) }
}

/// What a binding inside `inputs = { ... }` does: `name = ...;` defines,
/// `name.attr = ...;` sets an attribute.
pub open spec fn entry_ops(f: crate::parser::NixFile, c: int) -> Seq<InputOp> {
    let t = f.table();
    let segs = crate::parser::node::spec_attrpath_segments(t, c);
    if t.kinds[c] != crate::parser::NixKind::AttrpathValue || segs.len() == 0 {
        Seq::empty()
    } else if segs.len() == 1 {
        define_ops(f, c, segs[0])
    } else if segs.len() == 2 {
        seq![attr_op(f, c, segs[0], segs[1])]
    } else {
        Seq::empty()
    }
}

/// What the first `n` bindings of attribute set `a` do.
pub open spec fn set_ops(f: crate::parser::NixFile, a: int, n: int) -> Seq<InputOp>
    decreases n,
{
    if n <= 0 || n > f.table().children[a].len() {
        Seq::empty()
    } else {
        set_ops(f, a, n - 1) + entry_ops(f, f.table().children[a][n - 1] as int)
    }
}

/// What node `j` does to the inputs: `inputs = { ... };` what its bindings
/// do; `inputs.name = ...;` defines; `inputs.name.attr = ...;` sets.
pub open spec fn node_ops(f: crate::parser::NixFile, j: int) -> Seq<InputOp> {
    let t = f.table();
    let segs = crate::parser::node::spec_attrpath_segments(t, j);
    if t.kinds[j] != crate::parser::NixKind::AttrpathValue || segs.len() == 0 || segs[0] != "inputs"@ {
        Seq::empty()
    } else if segs.len() == 1 {
        match crate::parser::node::spec_attr_value(t, j) {
            Some(v) => if t.kinds[v] == crate::parser::NixKind::AttrSet {
                set_ops(f, v, t.children[v].len() as int)
            } else {
                Seq::empty()
            },
            None => Seq::empty(),
        }
    } else if segs.len() == 2 {
        define_ops(f, j, segs[1])
    } else if segs.len() == 3 {
        seq![attr_op(f, j, segs[1], segs[2])]
    } else {
        Seq::empty()
    }
}

pub open spec fn empty_inputs() -> InputsView {
    InputsView { names: Seq::empty(), defs: Map::empty() }
}

/// The inputs that nodes `from..to` define, in document order.
pub open spec fn inputs_between(f: crate::parser::NixFile, from: int, to: int) -> InputsView
    decreases to - from,
{
    if to <= from {
        empty_inputs()
    } else {
        apply_ops(inputs_between(f, from, to - 1), node_ops(f, to - 1))
    }
}

/// An input after the last step: one without a `ref` whose URL carries a
/// `?ref=` takes that as its ref, at the URL's range.
pub open spec fn with_inline_ref(d: InputView) -> InputView {
    match (d.ref_value, d.url) {
        (None, Some((u, r))) => match spec_parse_flake_url(u) {
            Some((_, Some(ir))) => InputView { inline_ref: true, ref_value: Some((ir, r)), ..d },
            _ => d,
        },
        _ => d,
    }
}

/// The inputs of the flake rooted at node `root`, in the order they are
/// first seen, with inline refs taken up.
pub open spec fn spec_collect_inputs(f: crate::parser::NixFile, root: int) -> Seq<(Seq<char>, InputView)> {
    let s = inputs_between(f, root, f.table().ends[root] as int);
    s.names.map_values(|n: Seq<char>| (n, with_inline_ref(s.defs[n])))
}

} // verus!

verus! {

pub open spec fn defs_map(v: Seq<InputDef>, n: int) -> Map<Seq<char>, InputView>
    decreases n,
{
    if n <= 0 {
        Map::empty()
    } else {
        defs_map(v, n - 1).insert(v[n - 1]@.0, v[n - 1]@.1)
    }
}

pub open spec fn names_unique(v: Seq<InputDef>) -> bool {
    forall|i: int, j: int| 0 <= i < j < v.len() ==> v[i].name@ != v[j].name@
}

pub open spec fn inputs_view(v: Seq<InputDef>) -> InputsView {
    InputsView { names: v.map_values(|d: InputDef| d.name@), defs: defs_map(v, v.len() as int) }
}

proof fn lemma_defs_map(v: Seq<InputDef>, n: int)
    requires
        0 <= n <= v.len(),
        names_unique(v),
    ensures
        forall|k: Seq<char>| #[trigger] defs_map(v, n).contains_key(k) <==> exists|j: int| 0 <= j < n && v[j].name@ == k,
        forall|j: int| 0 <= j < n ==> #[trigger] defs_map(v, n)[v[j].name@] == v[j]@.1,
    decreases n,
{
    if n > 0 {
        lemma_defs_map(v, n - 1);
        assert forall|k: Seq<char>| #[trigger] defs_map(v, n).contains_key(k) <==> exists|j: int| 0 <= j < n && v[j].name@ == k by {
            if defs_map(v, n - 1).contains_key(k) {
                let j = choose|j: int| 0 <= j < n - 1 && v[j].name@ == k;
                assert(0 <= j < n && v[j].name@ == k);
            }
            if exists|j: int| 0 <= j < n && v[j].name@ == k {
                let j = choose|j: int| 0 <= j < n && v[j].name@ == k;
                if j < n - 1 {
                    assert(defs_map(v, n - 1).contains_key(k));
                }
            }
        }
        assert forall|j: int| 0 <= j < n implies #[trigger] defs_map(v, n)[v[j].name@] == v[j]@.1 by {
            if j < n - 1 {
                assert(v[j].name@ != v[n - 1].name@);
                assert(defs_map(v, n - 1)[v[j].name@] == v[j]@.1);
            }
        }
    }
}

proof fn lemma_defs_map_update(v: Seq<InputDef>, j: int, d: InputDef)
    requires
        0 <= j < v.len(),
        names_unique(v),
        d.name@ == v[j].name@,
    ensures
        names_unique(v.update(j, d)),
        defs_map(v.update(j, d), v.len() as int) == defs_map(v, v.len() as int).insert(d.name@, d@.1),
        v.update(j, d).map_values(|e: InputDef| e.name@) == v.map_values(|e: InputDef| e.name@),
{
    let w = v.update(j, d);
    assert(names_unique(w));
    lemma_defs_map(v, v.len() as int);
    lemma_defs_map(w, w.len() as int);
    let l = defs_map(w, v.len() as int);
    let r = defs_map(v, v.len() as int).insert(d.name@, d@.1);
    assert forall|k: Seq<char>| #[trigger] l.contains_key(k) <==> r.contains_key(k) by {
        if l.contains_key(k) {
            let q = choose|q: int| 0 <= q < w.len() && w[q].name@ == k;
            if q != j {
                assert(v[q].name@ == k);
            }
        }
        if r.contains_key(k) && k != d.name@ {
            let q = choose|q: int| 0 <= q < v.len() && v[q].name@ == k;
            assert(w[q].name@ == k);
        }
        if k == d.name@ {
            assert(w[j].name@ == k);
        }
    }
    assert forall|k: Seq<char>| #[trigger] l.contains_key(k) implies l[k] == r[k] by {
        let q = choose|q: int| 0 <= q < w.len() && w[q].name@ == k;
        assert(l[w[q].name@] == w[q]@.1);
        if q != j {
            assert(v[q].name@ == k);
            assert(defs_map(v, v.len() as int)[v[q].name@] == v[q]@.1);
        }
    }
    assert(l =~= r);
    assert(w.map_values(|e: InputDef| e.name@) =~= v.map_values(|e: InputDef| e.name@));
}

proof fn lemma_defs_map_push(v: Seq<InputDef>, d: InputDef)
    ensures
        defs_map(v.push(d), v.len() as int + 1) == defs_map(v, v.len() as int).insert(d.name@, d@.1),
{
    assert(defs_map(v.push(d), v.len() as int) == defs_map(v, v.len() as int)) by {
        lemma_defs_map_prefix(v, d, v.len() as int);
    }
}

proof fn lemma_defs_map_prefix(v: Seq<InputDef>, d: InputDef, n: int)
    requires
        0 <= n <= v.len(),
    ensures
        defs_map(v.push(d), n) == defs_map(v, n),
    decreases n,
{
    if n > 0 {
        lemma_defs_map_prefix(v, d, n - 1);
        assert(v.push(d)[n - 1] == v[n - 1]);
    }
}

/// Index of the input named `name`.
fn find_input(defs: &Vec<InputDef>, name: &str) -> (r: Option<usize>)
    requires
        names_unique(defs@),
    ensures
        match r {
            Some(j) => j < defs@.len() && defs@[j as int].name@ == name@,
            None => !inputs_view(defs@).defs.contains_key(name@),
        },
{
    proof { lemma_defs_map(defs@, defs@.len() as int); }
    let mut j: usize = 0;
    while j < defs.len()
        invariant
            j <= defs@.len(),
            forall|q: int| 0 <= q < j ==> defs@[q].name@ != name@,
        decreases defs.len() - j,
    {
        if crate::text::eq_str(&chars_of(defs[j].name.as_str()), name) {
            return Some(j);
        }
        j += 1;
    }
    None
}

fn copy_sv(o: &Option<SourceValue>) -> (r: Option<SourceValue>)
    ensures
        sv_view(r) == sv_view(*o),
{
    match o {
        Some(s) => Some(SourceValue { value: s.value.clone(), range: s.range }),
        None => None,
    }
}

/// Defines input `name` as `def`, unless it is defined already.
fn define_input(defs: &mut Vec<InputDef>, def: InputDef)
    requires
        names_unique(old(defs)@),
    ensures
        names_unique(final(defs)@),
        inputs_view(final(defs)@) == or_insert(inputs_view(old(defs)@), def.name@, def@.1),
{
    match find_input(defs, def.name.as_str()) {
        Some(j) => {
            proof { lemma_defs_map(defs@, defs@.len() as int); }
            assert(inputs_view(defs@).defs.contains_key(def.name@));
        },
        None => {
            let ghost before = defs@;
            defs.push(def);
            proof {
                lemma_defs_map_push(before, def);
                assert(names_unique(defs@)) by {
                    lemma_defs_map(before, before.len() as int);
                    assert forall|i: int, j: int| 0 <= i < j < defs@.len() implies defs@[i].name@ != defs@[j].name@ by {
                        if j == before.len() {
                            assert(defs@[i] == before[i]);
                            if before[i].name@ == def.name@ {
                                assert(defs_map(before, before.len() as int).contains_key(def.name@));
                            }
                        }
                    }
                }
                assert(defs@.map_values(|e: InputDef| e.name@) =~= before.map_values(|e: InputDef| e.name@).push(def.name@));
            }
        },
    }
}

/// Sets attribute `attr` of input `name` (see [`InputOp::SetAttr`]).
fn set_input_attr(defs: &mut Vec<InputDef>, name: &String, attr: &str, value: Option<SourceValue>, pinned: bool)
    requires
        names_unique(old(defs)@),
    ensures
        names_unique(final(defs)@),
        inputs_view(final(defs)@) == apply_op(
            inputs_view(old(defs)@),
            InputOp::SetAttr { name: name@, attr: attr@, value: sv_view(value), pinned },
        ),
{
    proof {
        reveal_strlit("url");
        reveal_strlit("ref");
    }
    let ghost s = inputs_view(defs@);
    match value {
        Some(v) => {
            define_input(
                defs,
                InputDef { name: name.clone(), url: None, ref_value: None, inline_ref: false, pinned },
            );
            let ghost s0 = inputs_view(defs@);
            let j = match find_input(defs, name.as_str()) {
                Some(j) => j,
                None => {
                    assert(false);
                    return;
                },
            };
            proof { lemma_defs_map(defs@, defs@.len() as int); }
            let is_url = crate::text::eq_str(&chars_of(attr), "url");
            let is_ref = crate::text::eq_str(&chars_of(attr), "ref");
            if is_url || is_ref {
                let old_def = &defs[j];
                let nd = InputDef {
                    name: old_def.name.clone(),
                    url: if is_url { Some(SourceValue { value: v.value.clone(), range: v.range }) } else { copy_sv(&old_def.url) },
                    ref_value: if is_ref && !is_url { Some(SourceValue { value: v.value.clone(), range: v.range }) } else { copy_sv(&old_def.ref_value) },
                    inline_ref: old_def.inline_ref,
                    pinned: old_def.pinned,
                };
                let ghost before = defs@;
                proof { lemma_defs_map_update(before, j as int, nd); }
                defs.set(j, nd);
                assert(inputs_view(defs@) =~= InputsView { defs: s0.defs.insert(name@, nd@.1), ..s0 });
            }
        },
        None => {},
    }
    let ghost s1 = inputs_view(defs@);
    if pinned {
        match find_input(defs, name.as_str()) {
            Some(j) => {
                proof { lemma_defs_map(defs@, defs@.len() as int); }
                let old_def = &defs[j];
                let nd = InputDef {
                    name: old_def.name.clone(),
                    url: copy_sv(&old_def.url),
                    ref_value: copy_sv(&old_def.ref_value),
                    inline_ref: old_def.inline_ref,
                    pinned: true,
                };
                let ghost before = defs@;
                proof { lemma_defs_map_update(before, j as int, nd); }
                defs.set(j, nd);
                assert(inputs_view(defs@) =~= InputsView { defs: s1.defs.insert(name@, nd@.1), ..s1 });
            },
            None => {},
        }
    }
}

} // verus!

verus! {

fn input_attr_specs() -> (r: Vec<crate::parser::AttrSpec>)
    ensures
        crate::forge::attrs_view(r@) == input_specs(),
{
    let r = vec![
        crate::parser::AttrSpec { key: "url", attr_type: crate::parser::AttrType::String },
        crate::parser::AttrSpec { key: "ref", attr_type: crate::parser::AttrType::String },
    ];
    assert(crate::forge::attrs_view(r@) =~= input_specs());
    r
}

/// The literal text of string node `v`, with its range.
fn literal_of(v: &crate::parser::NixNode) -> (r: Option<SourceValue>)
    requires
        v.wf(),
    ensures
        sv_view(r) == literal_at(*v.file, v.i()),
{
    match v.pure_string_content() {
        Some(c) => Some(SourceValue { value: c, range: v.text_range() }),
        None => None,
    }
}

/// The literal bound to `key` in read attributes.
fn parsed_literal(p: &crate::parser::ParsedAttrs, key: &str, Ghost(f): Ghost<crate::parser::NixFile>, Ghost(m): Ghost<crate::parser::attrs::AttrsModel>) -> (r: Option<SourceValue>)
    requires
        crate::parser::attrs::attrs_rel(*p, m, f),
    ensures
        sv_view(r) == model_literal(f, m, key@),
{
    match p.string_nodes.get(key) {
        Some(sv) => {
            assert(crate::parser::attrs::sv_matches(*sv, f, m.string_nodes[key@]));
            proof { crate::parser::attrs::lemma_node_parts_pure(f, m.string_nodes[key@]); }
            match sv.pure_string_content() {
                Some(c) => Some(SourceValue { value: c, range: sv.range }),
                None => None,
            }
        },
        None => None,
    }
}

/// Applies what binding `b` of input `name` to a whole value does (see
/// [`define_ops`]).
fn define_from_binding(defs: &mut Vec<InputDef>, b: &crate::parser::NixNode, name: &String)
    requires
        b.wf(),
        names_unique(old(defs)@),
    ensures
        names_unique(final(defs)@),
        inputs_view(final(defs)@) == apply_ops(inputs_view(old(defs)@), define_ops(*b.file, b.i(), name@)),
{
    let ghost f = *b.file;
    let ghost s = inputs_view(defs@);
    let v = match b.attr_value() {
        Some(v) => v,
        None => {
            assert(apply_ops(s, Seq::<InputOp>::empty()) == s);
            return;
        },
    };
    if v.kind() == crate::parser::NixKind::AttrSet {
        let specs = input_attr_specs();
        match v.parse_attrs(specs.as_slice(), None) {
            Err(_) => {
                assert(apply_ops(s, Seq::<InputOp>::empty()) == s);
            },
            Ok(p) => {
                let ghost m = crate::parser::attrs::spec_parse_attrs(f, v.i(), input_specs(), None)->Ok_0;
                assert(crate::parser::attrs::opt_map_view(None) == None::<Map<Seq<char>, Seq<char>>>);
                let url = parsed_literal(&p, "url", Ghost(f), Ghost(m));
                let rf = parsed_literal(&p, "ref", Ghost(f), Ghost(m));
                let pinned = v.has_pin_comment() || b.has_pin_comment();
                let def = InputDef { name: name.clone(), url, ref_value: rf, inline_ref: false, pinned };
                proof {
                    reveal_strlit("url");
                    reveal_strlit("ref");
                    assert(define_ops(f, b.i(), name@) =~= seq![InputOp::Define { name: name@, def: def@.1 }]);
                    lemma_apply_one(s, InputOp::Define { name: name@, def: def@.1 });
                }
                define_input(defs, def);
            },
        }
    } else if v.kind() == crate::parser::NixKind::String {
        match literal_of(&v) {
            Some(u) => {
                let def = InputDef { name: name.clone(), url: Some(u), ref_value: None, inline_ref: false, pinned: b.has_pin_comment() };
                proof {
                    assert(define_ops(f, b.i(), name@) =~= seq![InputOp::Define { name: name@, def: def@.1 }]);
                    lemma_apply_one(s, InputOp::Define { name: name@, def: def@.1 });
                }
                define_input(defs, def);
            },
            None => {
                assert(apply_ops(s, Seq::<InputOp>::empty()) == s);
            },
        }
    } else {
        assert(apply_ops(s, Seq::<InputOp>::empty()) == s);
    }
}

/// Applies what binding `b` of attribute `attr` of input `name` does.
fn attr_from_binding(defs: &mut Vec<InputDef>, b: &crate::parser::NixNode, name: &String, attr: &String)
    requires
        b.wf(),
        names_unique(old(defs)@),
    ensures
        names_unique(final(defs)@),
        inputs_view(final(defs)@) == apply_op(inputs_view(old(defs)@), attr_op(*b.file, b.i(), name@, attr@)),
{
    let value = match b.attr_value() {
        Some(v) => if v.kind() == crate::parser::NixKind::String {
            literal_of(&v)
        } else {
            None
        },
        None => None,
    };
    let pinned = b.has_pin_comment();
    set_input_attr(defs, name, attr.as_str(), value, pinned);
}

proof fn lemma_apply_ops_concat(s: InputsView, a: Seq<InputOp>, b: Seq<InputOp>)
    ensures
        apply_ops(s, a + b) == apply_ops(apply_ops(s, a), b),
    decreases b.len(),
{
    if b.len() == 0 {
        assert(a + b =~= a);
    } else {
        assert((a + b).drop_last() =~= a + b.drop_last());
        lemma_apply_ops_concat(s, a, b.drop_last());
    }
}

proof fn lemma_apply_one(s: InputsView, op: InputOp)
    ensures
        apply_ops(s, seq![op]) == apply_op(s, op),
{
    reveal_with_fuel(apply_ops, 2);
    assert(seq![op].drop_last() =~= Seq::<InputOp>::empty());
    assert(apply_ops(s, Seq::<InputOp>::empty()) == s);
}

/// Applies what a binding inside `inputs = { ... }` does (see
/// [`entry_ops`]).
fn entry_exec(defs: &mut Vec<InputDef>, c: &crate::parser::NixNode)
    requires
        c.wf(),
        names_unique(old(defs)@),
    ensures
        names_unique(final(defs)@),
        inputs_view(final(defs)@) == apply_ops(inputs_view(old(defs)@), entry_ops(*c.file, c.i())),
{
    let ghost s = inputs_view(defs@);
    if c.kind() != crate::parser::NixKind::AttrpathValue {
        assert(apply_ops(s, Seq::<InputOp>::empty()) == s);
        return;
    }
    let segs = c.attrpath_segments();
    assert(forall|q: int| 0 <= q < segs@.len() ==> crate::parser::tree::strings_view(segs@)[q] == segs@[q]@);
    if segs.len() == 0 {
        assert(apply_ops(s, Seq::<InputOp>::empty()) == s);
    } else if segs.len() == 1 {
        define_from_binding(defs, c, &segs[0]);
    } else if segs.len() == 2 {
        proof { lemma_apply_one(s, attr_op(*c.file, c.i(), segs@[0]@, segs@[1]@)); }
        attr_from_binding(defs, c, &segs[0], &segs[1]);
    } else {
        assert(apply_ops(s, Seq::<InputOp>::empty()) == s);
    }
}

/// Applies what the bindings of attribute set `a` do (see [`set_ops`]).
fn collect_from_attr_set(a: &crate::parser::NixNode, defs: &mut Vec<InputDef>)
    requires
        a.wf(),
        names_unique(old(defs)@),
    ensures
        names_unique(final(defs)@),
        inputs_view(final(defs)@) == apply_ops(
            inputs_view(old(defs)@),
            set_ops(*a.file, a.i(), a.t().children[a.i()].len() as int),
        ),
{
    let ghost s0 = inputs_view(defs@);
    let ghost cs = a.t().children[a.i()];
    let children = a.children();
    let mut k: usize = 0;
    assert(apply_ops(s0, set_ops(*a.file, a.i(), 0)) == s0);
    while k < children.len()
        invariant
            k <= children@.len(),
            children@.len() == cs.len(),
            cs == a.t().children[a.i()],
            a.wf(),
            forall|j: int|
                0 <= j < children@.len() ==> (#[trigger] children@[j]).wf() && children@[j].file == a.file
                    && children@[j].index == cs[j],
            names_unique(defs@),
            inputs_view(defs@) == apply_ops(s0, set_ops(*a.file, a.i(), k as int)),
        decreases children.len() - k,
    {
        let ghost before = inputs_view(defs@);
        entry_exec(defs, &children[k]);
        proof {
            lemma_apply_ops_concat(s0, set_ops(*a.file, a.i(), k as int), entry_ops(*a.file, cs[k as int] as int));
        }
        k += 1;
    }
}

/// Applies what node `j` does to the inputs (see [`node_ops`]).
fn node_exec(defs: &mut Vec<InputDef>, j: &crate::parser::NixNode)
    requires
        j.wf(),
        names_unique(old(defs)@),
    ensures
        names_unique(final(defs)@),
        inputs_view(final(defs)@) == apply_ops(inputs_view(old(defs)@), node_ops(*j.file, j.i())),
{
    proof { reveal_strlit("inputs"); }
    let ghost s = inputs_view(defs@);
    if j.kind() != crate::parser::NixKind::AttrpathValue {
        assert(apply_ops(s, Seq::<InputOp>::empty()) == s);
        return;
    }
    let segs = j.attrpath_segments();
    assert(forall|q: int| 0 <= q < segs@.len() ==> crate::parser::tree::strings_view(segs@)[q] == segs@[q]@);
    if segs.len() == 0 || !crate::text::eq_str(&chars_of(segs[0].as_str()), "inputs") {
        assert(apply_ops(s, Seq::<InputOp>::empty()) == s);
        return;
    }
    if segs.len() == 1 {
        match j.attr_value() {
            Some(v) => {
                if v.kind() == crate::parser::NixKind::AttrSet {
                    collect_from_attr_set(&v, defs);
                } else {
                    assert(apply_ops(s, Seq::<InputOp>::empty()) == s);
                }
            },
            None => {
                assert(apply_ops(s, Seq::<InputOp>::empty()) == s);
            },
        }
    } else if segs.len() == 2 {
        define_from_binding(defs, j, &segs[1]);
    } else if segs.len() == 3 {
        proof { lemma_apply_one(s, attr_op(*j.file, j.i(), segs@[1]@, segs@[2]@)); }
        attr_from_binding(defs, j, &segs[1], &segs[2]);
    } else {
        assert(apply_ops(s, Seq::<InputOp>::empty()) == s);
    }
}

} // verus!

verus! {

pub open spec fn defs_view(v: Seq<InputDef>) -> Seq<(Seq<char>, InputView)> {
    v.map_values(|d: InputDef| d@)
}

/// The input with its inline ref taken up (see [`with_inline_ref`]).
fn take_inline_ref(d: InputDef) -> (r: InputDef)
    ensures
        r@ == (d@.0, with_inline_ref(d@.1)),
{
    if d.ref_value.is_some() {
        return d;
    }
    let parsed = match &d.url {
        Some(u) => FlakeInputRule::parse_flake_url(u.value.as_str()),
        None => return d,
    };
    match parsed {
        Some(p) => match p.inline_ref {
            Some(ir) => {
                let range = match &d.url {
                    Some(u) => u.range,
                    None => {
                        assert(false);
                        return d;
                    },
                };
                InputDef { name: d.name, url: d.url, ref_value: Some(SourceValue { value: ir, range }), inline_ref: true, pinned: d.pinned }
            },
            None => d,
        },
        None => d,
    }
}

impl FlakeInputRule {
    /// The inputs of the flake whose top attribute set is `root`, in the
    /// order they are first seen (see [`spec_collect_inputs`]).
    pub fn collect_inputs_from_root(root: &crate::parser::NixNode) -> (r: Vec<InputDef>)
        requires
            root.wf(),
        ensures
            defs_view(r@) == spec_collect_inputs(*root.file, root.i()),
    {
        let ghost f = *root.file;
        let nodes = root.traverse();
        let mut defs: Vec<InputDef> = Vec::new();
        let mut k: usize = 0;
        assert(inputs_view(defs@) =~= empty_inputs());
        while k < nodes.len()
            invariant
                k <= nodes@.len(),
                nodes@.len() == root.t().ends[root.i()] - root.i(),
                forall|q: int|
                    0 <= q < nodes@.len() ==> (#[trigger] nodes@[q]).wf() && nodes@[q].file == root.file && nodes@[q].index
                        == root.i() + q,
                f == *root.file,
                names_unique(defs@),
                inputs_view(defs@) == inputs_between(f, root.i(), root.i() + k),
            decreases nodes.len() - k,
        {
            node_exec(&mut defs, &nodes[k]);
            k += 1;
        }
        let ghost s = inputs_view(defs@);
        proof { lemma_defs_map(defs@, defs@.len() as int); }
        let ghost snapshot = defs@;
        let mut out: Vec<InputDef> = Vec::new();
        let mut rest = defs;
        while rest.len() > 0
            invariant
                out@.len() + rest@.len() == snapshot.len(),
                rest@ == snapshot.subrange(out@.len() as int, snapshot.len() as int),
                forall|q: int| 0 <= q < out@.len() ==> #[trigger] out@[q]@ == (snapshot[q]@.0, with_inline_ref(snapshot[q]@.1)),
            decreases rest.len(),
        {
            let d = rest.remove(0);
            assert(d == snapshot[out@.len() as int]);
            out.push(take_inline_ref(d));
            assert(rest@ =~= snapshot.subrange(out@.len() as int, snapshot.len() as int));
        }
        proof {
            assert forall|q: int| 0 <= q < snapshot.len() implies #[trigger] s.defs[s.names[q]] == snapshot[q]@.1 by {
                assert(s.names[q] == snapshot[q].name@);
            }
            assert(defs_view(out@) =~= s.names.map_values(|n: Seq<char>| (n, with_inline_ref(s.defs[n]))));
        }
        out
    }
}

} // verus!

verus! {

/// The first attribute set at or below node `i`, in document order.
pub open spec fn find_attr_set(t: crate::parser::tree::Table, i: int) -> Option<int>
    decreases t.kinds.len() - i, 1int, 0int,
{
    if !(0 <= i < t.kinds.len()) {
        None
    } else if t.kinds[i] == crate::parser::NixKind::AttrSet {
        Some(i)
    } else {
        find_among(t, i, 0)
    }
}

/// The first attribute set among children `k..` of node `i` and below.
pub open spec fn find_among(t: crate::parser::tree::Table, i: int, k: int) -> Option<int>
    decreases t.kinds.len() - i, 0int, t.children[i].len() - k,
{
    if !(0 <= i < t.kinds.len()) || k < 0 || k >= t.children[i].len() {
        None
    } else {
        let c = t.children[i][k] as int;
        if !(i < c < t.kinds.len()) {
            find_among(t, i, k + 1)
        } else if t.kinds[c] == crate::parser::NixKind::AttrSet {
            Some(c)
        } else {
            match find_attr_set(t, c) {
                Some(x) => Some(x),
                None => find_among(t, i, k + 1),
            }
        }
    }
}

/// A quoted string.
pub open spec fn quoted_text(s: Seq<char>) -> Seq<char> {
    "\""@ + s + "\""@
}

/// The remote whose tags a flake input is checked against: that of its
/// URL, when it is not pinned, its ref is a version and its URL parses.
pub open spec fn spec_input_remote(d: InputView) -> Option<Seq<char>> {
    if d.pinned {
        None
    } else {
        match (d.ref_value, d.url) {
            (Some((rv, _)), Some((u, _))) => if !is_version(rv) {
                None
            } else {
                match spec_parse_flake_url(u) {
                    Some((fu, _)) => Some(spec_remote_url(fu)),
                    None => None,
                }
            },
            _ => None,
        }
    }
}

/// The update of input `name` given its remote's tags: to the latest tag
/// with the prefix of its ref, when that is a greater version; written into
/// the URL for an inline ref, else into the `ref` literal; about the
/// repository's short name. Listing failures give nothing.
pub open spec fn spec_input_update(name: Seq<char>, d: InputView, refs: Result<Seq<crate::utils::fetch::GitRefView>, Seq<char>>) -> Option<
    (crate::rules::traits::UpdateView, Seq<char>),
> {
    match spec_input_remote(d) {
        None => None,
        Some(_) => {
            let (rv, rr) = d.ref_value->Some_0;
            let (u, ur) = d.url->Some_0;
            let fu = spec_parse_flake_url(u)->Some_0.0;
            match refs {
                Err(_) => None,
                Ok(rs) => match crate::utils::fetch::spec_latest_tag(rs, Some(rv)) {
                    None => None,
                    Some(l) => if version_order(rv, l) != -1 {
                        None
                    } else if d.inline_ref {
                        match spec_reconstruct_url(u, l) {
                            Some(nu) => Some(
                                (
                                    crate::rules::traits::UpdateView {
                                        field: "inputs."@ + name + ".url"@,
                                        replacement: quoted_text(nu),
                                        range: ur,
                                    },
                                    spec_display_short(fu),
                                ),
                            ),
                            None => None,
                        }
                    } else {
                        Some(
                            (
                                crate::rules::traits::UpdateView {
                                    field: "inputs."@ + name + ".ref"@,
                                    replacement: quoted_text(l),
                                    range: rr,
                                },
                                spec_display_short(fu),
                            ),
                        )
                    },
                },
            }
        },
    }
}

pub open spec fn update_with_target(u: Update) -> Option<(crate::rules::traits::UpdateView, Seq<char>)> {
    match u.target {
        Some(t) => Some((u@, t@)),
        None => None,
    }
}

fn concat3(a: &str, b: &str, c: &str) -> (r: String)
    ensures
        r@ == a@ + b@ + c@,
{
    let mut r = String::from_str(a);
    r.append(b);
    r.append(c);
    r
}

impl FlakeInputRule {
    /// Whether the rule looks at `node`: the root of a file.
    pub fn matches(&self, node: &crate::parser::NixNode) -> (b: bool)
        requires
            node.wf(),
        ensures
            b == (node.t().kinds[node.i()] == crate::parser::NixKind::Root),
    {
        node.kind() == crate::parser::NixKind::Root
    }

    /// The first attribute set at or below `node` (see [`find_attr_set`]).
    pub fn find_root_attr_set<'a>(node: &crate::parser::NixNode<'a>) -> (r: Option<crate::parser::NixNode<'a>>)
        requires
            node.wf(),
        ensures
            match r {
                Some(a) => a.wf() && a.file == node.file && find_attr_set(node.t(), node.i()) == Some(a.i()),
                None => find_attr_set(node.t(), node.i()) is None,
            },
        decreases node.file.len() - node.i(), 1int,
    {
        if node.kind() == crate::parser::NixKind::AttrSet {
            return Some(crate::parser::NixNode { file: node.file, index: node.index });
        }
        Self::find_among_children(node, 0)
    }

    fn find_among_children<'a>(node: &crate::parser::NixNode<'a>, k: usize) -> (r: Option<crate::parser::NixNode<'a>>)
        requires
            node.wf(),
        ensures
            match r {
                Some(a) => a.wf() && a.file == node.file && find_among(node.t(), node.i(), k as int) == Some(a.i()),
                None => find_among(node.t(), node.i(), k as int) is None,
            },
        decreases node.file.len() - node.i(), 0int, node.file.children@[node.i()].len() - k,
    {
        let ghost t = node.t();
        let cs = &node.file.children[node.index];
        if k >= cs.len() {
            return None;
        }
        let c = cs[k];
        assert(t.children[node.i()][k as int] == c);
        if !(node.index < c && c < node.file.kinds.len()) {
            return Self::find_among_children(node, k + 1);
        }
        let child = crate::parser::NixNode { file: node.file, index: c };
        if child.kind() == crate::parser::NixKind::AttrSet {
            return Some(child);
        }
        match Self::find_root_attr_set(&child) {
            Some(x) => Some(x),
            None => Self::find_among_children(node, k + 1),
        }
    }

    /// The remote whose tags input `d` is checked against, if any (see
    /// [`spec_input_remote`]).
    pub fn input_remote(d: &InputDef) -> (r: Option<String>)
        ensures
            opt_view(r) == spec_input_remote(d@.1),
    {
        if d.pinned {
            return None;
        }
        let (rv, u) = match (&d.ref_value, &d.url) {
            (Some(rv), Some(u)) => (rv, u),
            _ => return None,
        };
        if !VersionDetector::is_version(rv.value.as_str()) {
            return None;
        }
        match Self::parse_flake_url(u.value.as_str()) {
            Some(p) => p.flake_url.to_remote_url(),
            None => None,
        }
    }

    /// The update of input `d` given what listing its remote's tags gave
    /// (see [`spec_input_update`]).
    pub fn input_update(d: &InputDef, refs: &Result<Vec<crate::utils::fetch::GitRef>, String>) -> (r: Option<Update>)
        ensures
            match r {
                Some(u) => u.target is Some && update_with_target(u) == spec_input_update(
                    d.name@,
                    d@.1,
                    crate::rules::fetcher::follow::refs_result_view(*refs),
                ),
                None => spec_input_update(d.name@, d@.1, crate::rules::fetcher::follow::refs_result_view(*refs)) is None,
            },
    {
        proof {
            reveal_strlit("inputs.");
            reveal_strlit(".url");
            reveal_strlit(".ref");
            reveal_strlit("\"");
        }
        if Self::input_remote(d).is_none() {
            return None;
        }
        let (rv, u) = match (&d.ref_value, &d.url) {
            (Some(rv), Some(u)) => (rv, u),
            _ => return None,
        };
        let parsed = match Self::parse_flake_url(u.value.as_str()) {
            Some(p) => p,
            None => return None,
        };
        let rs = match refs {
            Ok(rs) => rs,
            Err(_) => return None,
        };
        let latest = match crate::utils::fetch::GitFetcher::get_latest_tag_matching(rs.as_slice(), Some(rv.value.as_str())) {
            Some(l) => l,
            None => return None,
        };
        if VersionDetector::order(rv.value.as_str(), latest.as_str()) != -1 {
            return None;
        }
        let detail = parsed.flake_url.display_short();
        if d.inline_ref {
            match Self::reconstruct_url(u.value.as_str(), latest.as_str()) {
                Some(nu) => {
                    let field = concat3("inputs.", d.name.as_str(), ".url");
                    let q = concat3("\"", nu.as_str(), "\"");
                    Some(Update::new(field.as_str(), q.as_str(), u.range).with_target(detail.as_str()))
                },
                None => None,
            }
        } else {
            let field = concat3("inputs.", d.name.as_str(), ".ref");
            let q = concat3("\"", latest.as_str(), "\"");
            Some(Update::new(field.as_str(), q.as_str(), rv.range).with_target(detail.as_str()))
        }
    }
}

} // verus!

verus! {

/// The updates of the first `n` inputs, given what listing each one's
/// remote gave.
pub open spec fn spec_check_inputs(
    defs: Seq<(Seq<char>, InputView)>,
    refs: Seq<Result<Seq<crate::utils::fetch::GitRefView>, Seq<char>>>,
    n: int,
) -> Seq<(crate::rules::traits::UpdateView, Seq<char>)>
    decreases n,
{
    if n <= 0 {
        Seq::empty()
    } else {
        let prev = spec_check_inputs(defs, refs, n - 1);
        match spec_input_update(defs[n - 1].0, defs[n - 1].1, refs[n - 1]) {
            Some(u) => prev.push(u),
            None => prev,
        }
    }
}

/// The updates of a group, with their targets.
pub open spec fn group_targets(g: crate::rules::traits::UpdateGroup) -> Seq<Option<(crate::rules::traits::UpdateView, Seq<char>)>> {
    g.updates@.map_values(|u: Update| update_with_target(u))
}

pub open spec fn single_target(u: (crate::rules::traits::UpdateView, Seq<char>)) -> Seq<Option<(crate::rules::traits::UpdateView, Seq<char>)>> {
    seq![Some(u)]
}

pub open spec fn refs_results_view(v: Seq<Result<Vec<crate::utils::fetch::GitRef>, String>>) -> Seq<
    Result<Seq<crate::utils::fetch::GitRefView>, Seq<char>>,
> {
    v.map_values(|r: Result<Vec<crate::utils::fetch::GitRef>, String>| crate::rules::fetcher::follow::refs_result_view(r))
}

impl FlakeInputRule {
    /// The inputs of the flake at `root`: those of the first attribute set
    /// at or below it, none when there is no attribute set.
    pub fn inputs_of_root(root: &crate::parser::NixNode) -> (r: Vec<InputDef>)
        requires
            root.wf(),
        ensures
            defs_view(r@) == match find_attr_set(root.t(), root.i()) {
                Some(a) => spec_collect_inputs(*root.file, a),
                None => Seq::empty(),
            },
    {
        match Self::find_root_attr_set(root) {
            Some(a) => Self::collect_inputs_from_root(&a),
            None => {
                let v: Vec<InputDef> = Vec::new();
                assert(defs_view(v@) =~= Seq::empty());
                v
            },
        }
    }

    /// The updates of the inputs, given what listing each input's remote
    /// gave (at the same position; see [`Self::input_remote`]), each one in
    /// a group of its own about the repository it names.
    pub fn check_inputs(
        defs: &Vec<InputDef>,
        refs: &Vec<Result<Vec<crate::utils::fetch::GitRef>, String>>,
    ) -> (r: crate::rules::traits::CheckResult)
        requires
            defs@.len() == refs@.len(),
        ensures
            r.warnings@.len() == 0,
            r.groups@.map_values(|g: crate::rules::traits::UpdateGroup| group_targets(g))
                == spec_check_inputs(defs_view(defs@), refs_results_view(refs@), defs@.len() as int).map_values(
                |u: (crate::rules::traits::UpdateView, Seq<char>)| single_target(u),
            ),
    {
        let ghost dv = defs_view(defs@);
        let ghost rv = refs_results_view(refs@);
        let mut groups: Vec<crate::rules::traits::UpdateGroup> = Vec::new();
        let mut k: usize = 0;
        while k < defs.len()
            invariant
                k <= defs@.len(),
                defs@.len() == refs@.len(),
                dv == defs_view(defs@),
                rv == refs_results_view(refs@),
                groups@.map_values(|g: crate::rules::traits::UpdateGroup| group_targets(g))
                    == spec_check_inputs(dv, rv, k as int).map_values(
                    |u: (crate::rules::traits::UpdateView, Seq<char>)| single_target(u),
                ),
            decreases defs.len() - k,
        {
            assert(dv[k as int] == defs@[k as int]@);
            assert(rv[k as int] == crate::rules::fetcher::follow::refs_result_view(refs@[k as int]));
            let ghost before = groups@;
            match Self::input_update(&defs[k], &refs[k]) {
                Some(u) => {
                    let mut ups: Vec<Update> = Vec::new();
                    ups.push(u);
                    let g = crate::rules::traits::UpdateGroup::new(ups);
                    assert(group_targets(g) =~= seq![update_with_target(u)]);
                    let ghost sp = spec_input_update(dv[k as int].0, dv[k as int].1, rv[k as int]);
                    assert(update_with_target(u) == sp);
                    assert(spec_check_inputs(dv, rv, k + 1) == spec_check_inputs(dv, rv, k as int).push(sp->Some_0));
                    groups.push(g);
                    assert(groups@ == before.push(g));
                    proof {
                        let gt = |g: crate::rules::traits::UpdateGroup| group_targets(g);
                        let st = |u: (crate::rules::traits::UpdateView, Seq<char>)| single_target(u);
                        assert(groups@.map_values(gt) =~= before.map_values(gt).push(group_targets(g)));
                        assert(spec_check_inputs(dv, rv, k + 1).map_values(st) =~= spec_check_inputs(dv, rv, k as int).map_values(st).push(
                            single_target(sp->Some_0),
                        ));
                        assert(group_targets(g) =~= single_target(sp->Some_0));
                    }
                },
                None => {},
            }
            k += 1;
        }
        crate::rules::traits::CheckResult { groups, warnings: Vec::new() }
    }
}

/// An input marked `# pin` has no remote to list and never gives an update,
/// whether its ref is inline in the URL or a separate `ref` attribute, and
/// whatever the listing holds.
pub proof fn law_pinned_input_is_left_alone(
    name: Seq<char>,
    d: InputView,
    refs: Result<Seq<crate::utils::fetch::GitRefView>, Seq<char>>,
)
    requires
        d.pinned,
    ensures
        spec_input_remote(d) is None,
        spec_input_update(name, d, refs) is None,
{
}

/// What listing a pinned input's remote gives does not change the updates
/// of a flake: any listing in its place gives the same updates.
pub proof fn law_pinned_input_listing_is_ignored(
    defs: Seq<(Seq<char>, InputView)>,
    refs: Seq<Result<Seq<crate::utils::fetch::GitRefView>, Seq<char>>>,
    i: int,
    other: Result<Seq<crate::utils::fetch::GitRefView>, Seq<char>>,
    n: int,
)
    requires
        0 <= i < defs.len(),
        defs[i].1.pinned,
        defs.len() == refs.len(),
        0 <= n <= defs.len(),
    ensures
        spec_check_inputs(defs, refs.update(i, other), n) == spec_check_inputs(defs, refs, n),
    decreases n,
{
    if n > 0 {
        law_pinned_input_listing_is_ignored(defs, refs, i, other, n - 1);
        if n - 1 == i {
            law_pinned_input_is_left_alone(defs[i].0, defs[i].1, refs[i]);
            law_pinned_input_is_left_alone(defs[i].0, defs[i].1, other);
        } else {
            assert(refs.update(i, other)[n - 1] == refs[n - 1]);
        }
    }
}

} // verus!

