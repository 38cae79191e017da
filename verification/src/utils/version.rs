//! Recognising and ordering version-like tags (`v1.2.3`, `2025.01`, ...).
//!
//! A tag is split into a non-numeric prefix (everything before the first
//! ASCII digit) and the rest, which the `versions` crate parses. The crate's
//! parse and its ordering are named below; what this module decides on top
//! of them (which parses count as versions, how prefixes group tags, which
//! tag is the latest) is verified.
use std::cmp::Ordering;
use std::iter::once;
use versions::{Chunk, Last, MChunk, Versioning};
use vstd::prelude::*;

use crate::text::{chars_of, string_of_range};

verus! {

/// The kind of one chunk of a `versions::Version`.
#[derive(Debug, Clone, Copy, PartialEq, Eq, Structural)]
pub enum ChunkKind {
    Numeric,
    Alphanum,
}

/// The kind of one chunk of a `versions::Mess`.
#[derive(Debug, Clone, Copy, PartialEq, Eq, Structural)]
pub enum MChunkKind {
    Digits,
    Rev,
    Plain,
}

/// Which of its three forms `versions::Versioning` parsed a string into,
/// with the chunk kinds of the first section for the two looser forms.
#[derive(Debug)]
pub enum VersionShape {
    Ideal,
    General(Vec<ChunkKind>),
    Complex(Vec<MChunkKind>),
}

/// The mathematical counterpart of [`VersionShape`].
pub enum VersionShapeView {
    Ideal,
    General(Seq<ChunkKind>),
    Complex(Seq<MChunkKind>),
}

impl View for VersionShape {
    type V = VersionShapeView;

    open spec fn view(&self) -> VersionShapeView {
        match self {
            VersionShape::Ideal => VersionShapeView::Ideal,
            VersionShape::General(cs) => VersionShapeView::General(cs@),
            VersionShape::Complex(ms) => VersionShapeView::Complex(ms@),
        }
    }
}

/// The view of an optional shape.
pub open spec fn opt_shape_view(o: Option<VersionShape>) -> Option<VersionShapeView> {
    match o {
        Some(v) => Some(v@),
        None => None,
    }
}

/// The view of an optional string slice.
pub open spec fn opt_str_view(o: Option<&str>) -> Option<Seq<char>> {
    match o {
        Some(s) => Some(s@),
        None => None,
    }
}

/// What `versions::Versioning::new` makes of a string, as a shape.
pub uninterp spec fn versioning_shape_of(s: Seq<char>) -> Option<VersionShapeView>;

/// The sign (-1, 0 or 1) of `Versioning::new(a).cmp(&Versioning::new(b))`.
pub uninterp spec fn versioning_order(a: Seq<char>, b: Seq<char>) -> i8;

/// Parses `s` with `versions::Versioning::new` and reports the form it took
/// and the kinds of its chunks (for a `Version`, its main chunks followed by
/// its separately parsed last chunk). The contract only names the result.
#[verifier::external_body]
fn versioning_shape(s: &str) -> (r: Option<VersionShape>)
    ensures
        opt_shape_view(r) == versioning_shape_of(s@),
{
    Versioning::new(s).map(|v| match v {
        Versioning::Ideal(_) => VersionShape::Ideal,
        Versioning::General(g) => VersionShape::General(g.chunks.0.iter().map(|c| match c {
            Chunk::Numeric(_) => ChunkKind::Numeric,
            Chunk::Alphanum(_) => ChunkKind::Alphanum,
        }).chain(once(match g.last {
            Last::Numeric(_) => ChunkKind::Numeric,
            _ => ChunkKind::Alphanum,
        })).collect()),
        Versioning::Complex(m) => VersionShape::Complex(m.chunks.iter().map(|c| match c {
            MChunk::Digits(..) => MChunkKind::Digits,
            MChunk::Rev(..) => MChunkKind::Rev,
            MChunk::Plain(_) => MChunkKind::Plain,
        }).collect()),
    })
}

/// Compares the `versions::Versioning` parses of `a` and `b` (as
/// `Option<Versioning>`, so a failed parse orders first) and returns the
/// sign of the result. The contract names the sign and bounds it, and
/// states what `Ord` requires of `Versioning::cmp` (its impl orders unlike
/// forms by one comparison and its reverse): swapping the arguments
/// reverses the order, and a text compares equal to itself.
#[verifier::external_body]
fn versioning_sign(a: &str, b: &str) -> (r: i8)
    ensures
        r == versioning_order(a@, b@),
        -1 <= r <= 1,
        r == -versioning_order(b@, a@),
        a@ == b@ ==> r == 0,
{
    match Versioning::new(a).cmp(&Versioning::new(b)) {
        Ordering::Less => -1,
        Ordering::Equal => 0,
        Ordering::Greater => 1,
    }
}

/// A parse counts as a version when it is semver, or has a numeric chunk.
pub open spec fn shape_is_version(v: VersionShapeView) -> bool {
    match v {
        VersionShapeView::Ideal => true,
        VersionShapeView::General(cs) => exists|i: int| 0 <= i < cs.len() && cs[i] == ChunkKind::Numeric,
        VersionShapeView::Complex(ms) => exists|i: int|
            0 <= i < ms.len() && (ms[i] == MChunkKind::Digits || ms[i] == MChunkKind::Rev),
    }
}

pub open spec fn is_ascii_digit(c: char) -> bool {
    '0' <= c && c <= '9'
}

/// Index of the first ASCII digit of `s[i..]`, or `s.len()`.
pub open spec fn first_digit_from(s: Seq<char>, i: int) -> int
    decreases s.len() - i,
{
    if i < 0 || i >= s.len() {
        s.len() as int
    } else if is_ascii_digit(s[i]) {
        i
    } else {
        first_digit_from(s, i + 1)
    }
}

/// Length of the non-numeric prefix of `s`.
pub open spec fn prefix_len(s: Seq<char>) -> int {
    first_digit_from(s, 0)
}

/// The non-numeric prefix of a tag (`"v"` for `"v1.0"`, `""` for `"1.0"`).
pub open spec fn version_prefix(s: Seq<char>) -> Seq<char> {
    s.subrange(0, prefix_len(s))
}

/// A tag without its non-numeric prefix.
pub open spec fn version_body(s: Seq<char>) -> Seq<char> {
    s.subrange(prefix_len(s), s.len() as int)
}

/// A tag is a version when its body parses and the parse counts.
pub open spec fn is_version(s: Seq<char>) -> bool {
    match versioning_shape_of(version_body(s)) {
        Some(v) => shape_is_version(v),
        None => false,
    }
}

/// Sign of the comparison of two tags: versions order by their parses;
/// any version is greater than a non-version; two non-versions are equal.
pub open spec fn version_order(a: Seq<char>, b: Seq<char>) -> int {
    if is_version(a) && is_version(b) {
        versioning_order(version_body(a), version_body(b)) as int
    } else if is_version(a) {
        1
    } else if is_version(b) {
        -1
    } else {
        0
    }
}

/// The sign of an `Ordering`.
pub open spec fn ord_sign(o: Ordering) -> int {
    match o {
        Ordering::Less => -1,
        Ordering::Equal => 0,
        Ordering::Greater => 1,
    }
}

/// Whether `t` takes part in picking the latest tag: a version, and, when a
/// prefix is given, one with that prefix.
pub open spec fn is_candidate(t: Seq<char>, prefix: Option<Seq<char>>) -> bool {
    is_version(t) && match prefix {
        Some(p) => version_prefix(t) == p,
        None => true,
    }
}

/// Index of the tag that `Iterator::max_by` with [`version_order`] picks
/// among the candidates of `tags[..n]` (the last of equal maxima), if any.
pub open spec fn latest_index(tags: Seq<Seq<char>>, prefix: Option<Seq<char>>, n: int) -> Option<int>
    decreases n,
{
    if n <= 0 {
        None
    } else {
        let prev = latest_index(tags, prefix, n - 1);
        if is_candidate(tags[n - 1], prefix) {
            match prev {
                None => Some(n - 1),
                Some(j) => if version_order(tags[j], tags[n - 1]) == 1 { Some(j) } else { Some(n - 1) },
            }
        } else {
            prev
        }
    }
}

pub proof fn lemma_latest_index(tags: Seq<Seq<char>>, prefix: Option<Seq<char>>, n: int)
    requires
        0 <= n <= tags.len(),
    ensures
        latest_index(tags, prefix, n) matches Some(j) ==> 0 <= j < n && is_candidate(tags[j], prefix),
        latest_index(tags, prefix, n) is None <==> forall|k: int| 0 <= k < n ==> !is_candidate(tags[k], prefix),
    decreases n,
{
    if n > 0 {
        lemma_latest_index(tags, prefix, n - 1);
    }
}

pub struct VersionDetector;

impl VersionDetector {
    /// The non-numeric prefix of `s`.
    pub fn prefix(s: &str) -> (r: String)
        ensures
            r@ == version_prefix(s@),
    {
        let v = chars_of(s);
        let end = Self::prefix_end(&v);
        string_of_range(&v, 0, end)
    }

    /// `s` without its non-numeric prefix.
    pub fn body(s: &str) -> (r: String)
        ensures
            r@ == version_body(s@),
    {
        let v = chars_of(s);
        let end = Self::prefix_end(&v);
        string_of_range(&v, end, v.len())
    }

    fn prefix_end(v: &Vec<char>) -> (end: usize)
        ensures
            end as int == prefix_len(v@),
            end <= v.len(),
    {
        let mut i: usize = 0;
        while i < v.len() && !('0' <= v[i] && v[i] <= '9')
            invariant
                i <= v.len(),
                first_digit_from(v@, i as int) == prefix_len(v@),
            decreases v.len() - i,
        {
            i += 1;
        }
        i
    }

    /// Whether a parse counts as a version.
    pub fn shape_accepts(shape: &Option<VersionShape>) -> (b: bool)
        ensures
            b == match opt_shape_view(*shape) {
                Some(v) => shape_is_version(v),
                None => false,
            },
    {
        match shape {
            None => false,
            Some(VersionShape::Ideal) => true,
            Some(VersionShape::General(cs)) => {
                assert(opt_shape_view(*shape) == Some(VersionShapeView::General(cs@)));
                let mut i: usize = 0;
                while i < cs.len()
                    invariant
                        i <= cs.len(),
                        forall|k: int| 0 <= k < i ==> cs@[k] != ChunkKind::Numeric,
                        opt_shape_view(*shape) == Some(VersionShapeView::General(cs@)),
                    decreases cs.len() - i,
                {
                    if cs[i] == ChunkKind::Numeric {
                        assert(cs@[i as int] == ChunkKind::Numeric);
                        assert(shape_is_version(VersionShapeView::General(cs@)));
                        return true;
                    }
                    i += 1;
                }
                false
            },
            Some(VersionShape::Complex(ms)) => {
                assert(opt_shape_view(*shape) == Some(VersionShapeView::Complex(ms@)));
                let mut i: usize = 0;
                while i < ms.len()
                    invariant
                        i <= ms.len(),
                        forall|k: int| 0 <= k < i ==> ms@[k] != MChunkKind::Digits && ms@[k] != MChunkKind::Rev,
                        opt_shape_view(*shape) == Some(VersionShapeView::Complex(ms@)),
                    decreases ms.len() - i,
                {
                    if ms[i] == MChunkKind::Digits || ms[i] == MChunkKind::Rev {
                        assert(ms@[i as int] == MChunkKind::Digits || ms@[i as int] == MChunkKind::Rev);
                        assert(shape_is_version(VersionShapeView::Complex(ms@)));
                        return true;
                    }
                    i += 1;
                }
                false
            },
        }
    }

    /// Whether `s` is a version-like tag.
    pub fn is_version(s: &str) -> (b: bool)
        ensures
            b == is_version(s@),
    {
        let v = chars_of(s);
        let end = Self::prefix_end(&v);
        let body = s.substring_char(end, s.unicode_len());
        let shape = versioning_shape(body);
        Self::shape_accepts(&shape)
    }

    /// The sign of the comparison of two tags (see [`version_order`]).
    pub fn order(a: &str, b: &str) -> (r: i8)
        ensures
            r == version_order(a@, b@),
            -1 <= r <= 1,
            r == -version_order(b@, a@),
            version_body(a@) == version_body(b@) ==> r == 0,
    {
        let va = Self::is_version(a);
        let vb = Self::is_version(b);
        if va && vb {
            let ca = chars_of(a);
            let cb = chars_of(b);
            let ea = Self::prefix_end(&ca);
            let eb = Self::prefix_end(&cb);
            versioning_sign(a.substring_char(ea, a.unicode_len()), b.substring_char(eb, b.unicode_len()))
        } else if va {
            1
        } else if vb {
            -1
        } else {
            0
        }
    }

    /// Orders two tags: versions by their parses, versions above
    /// non-versions, non-versions all equal. Swapping the tags reverses the
    /// order, and tags that differ only in their non-numeric prefix (`v1.2`
    /// and `1.2`, a tag and itself) are equal.
    pub fn compare(a: &str, b: &str) -> (r: Ordering)
        ensures
            ord_sign(r) == version_order(a@, b@),
            ord_sign(r) == -version_order(b@, a@),
            version_body(a@) == version_body(b@) ==> r == Ordering::Equal,
    {
        let c = Self::order(a, b);
        if c < 0 {
            Ordering::Less
        } else if c == 0 {
            Ordering::Equal
        } else {
            Ordering::Greater
        }
    }

    fn pick_latest<'a>(versions: &'a [&'a str], prefix: Option<&str>) -> (r: Option<&'a str>)
        ensures
            match latest_index(versions@.map_values(|t: &str| t@), opt_str_view(prefix), versions@.len() as int) {
                Some(j) => r matches Some(t) && t@ == versions@[j]@,
                None => r is None,
            },
    {
        let ghost tags = versions@.map_values(|t: &str| t@);
        let ghost pre = opt_str_view(prefix);
        let mut best: Option<usize> = None;
        let mut i: usize = 0;
        while i < versions.len()
            invariant
                i <= versions.len(),
                tags == versions@.map_values(|t: &str| t@),
                pre == opt_str_view(prefix),
                best matches Some(j) ==> j < i,
                match best {
                    Some(j) => latest_index(tags, pre, i as int) == Some(j as int),
                    None => latest_index(tags, pre, i as int) is None,
                },
            decreases versions.len() - i,
        {
            let t = versions[i];
            let is_cand = Self::is_version(t) && match prefix {
                Some(p) => {
                    let pt = Self::prefix(t);
                    let pv = chars_of(p);
                    let ptv = chars_of(pt.as_str());
                    crate::text::seq_eq_exec(&ptv, &pv)
                },
                None => true,
            };
            assert(tags[i as int] == t@);
            if is_cand {
                match best {
                    None => { best = Some(i); },
                    Some(j) => {
                        if Self::order(versions[j], t) != 1 {
                            best = Some(i);
                        }
                    },
                }
            }
            i += 1;
        }
        match best {
            Some(j) => Some(versions[j]),
            None => None,
        }
    }

    /// The latest version among `versions` that has the same prefix as
    /// `current` (the last one of equal maxima).
    pub fn latest_matching<'a>(versions: &'a [&'a str], current: &str) -> (r: Option<&'a str>)
        ensures
            match latest_index(versions@.map_values(|t: &str| t@), Some(version_prefix(current@)), versions@.len() as int) {
                Some(j) => r matches Some(t) && t@ == versions@[j]@,
                None => r is None,
            },
    {
        let p = Self::prefix(current);
        Self::pick_latest(versions, Some(p.as_str()))
    }

    /// The latest version among `versions` (the last one of equal maxima).
    pub fn latest<'a>(versions: &'a [&'a str]) -> (r: Option<&'a str>)
        ensures
            match latest_index(versions@.map_values(|t: &str| t@), None, versions@.len() as int) {
                Some(j) => r matches Some(t) && t@ == versions@[j]@,
                None => r is None,
            },
    {
        Self::pick_latest(versions, None)
    }
}

} // verus!
