use vstd::prelude::*;

verus! {

/// How the generic document comparison behaves.
#[derive(Debug)]
pub struct RawDifferOptions {
    /// Do not show differences under a documentation key.
    pub skip_doc: bool,
    /// Do not show differences confined to byte arrays (values and defaults).
    pub skip_bytes: bool,
    /// Byte arrays were collapsed into one marker before comparing.
    pub collapse: bool,
    /// Compare below the leading version key of each document.
    pub ignore_version: bool,
    /// Report how many differences of each kind there are.
    pub stats: bool,
}

impl RawDifferOptions {
    /// All behaviours off.
    pub fn new() -> (r: RawDifferOptions)
        ensures
            !r.skip_doc && !r.skip_bytes && !r.collapse && !r.ignore_version && !r.stats,
    {
        RawDifferOptions {
            skip_doc: false,
            skip_bytes: false,
            collapse: false,
            ignore_version: false,
            stats: false,
        }
    }
}

/// One step of the path to a leaf of a document.
#[derive(Debug)]
pub enum PathKey {
    Index(usize),
    Name(String),
}

pub enum PathKeyView {
    Index(usize),
    Name(Seq<char>),
}

impl View for PathKey {
    type V = PathKeyView;

    open spec fn view(&self) -> PathKeyView {
        match self {
            PathKey::Index(i) => PathKeyView::Index(*i),
            PathKey::Name(s) => PathKeyView::Name(s@),
        }
    }
}

/// The kind of a leaf-level difference between two documents.
#[derive(Clone, Copy, Debug, PartialEq, Eq, Structural)]
pub enum RawChangeKind {
    Added,
    Removed,
    Modified,
    Unchanged,
}

/// A leaf-level difference between two documents: its kind, the path to the
/// leaf, and whether the value there is an array (the old one, but for an
/// addition).
#[derive(Debug)]
pub struct RawChange {
    pub kind: RawChangeKind,
    pub path: Vec<PathKey>,
    pub is_array: bool,
}

pub open spec fn path_view(p: Seq<PathKey>) -> Seq<PathKeyView> {
    p.map_values(|k: PathKey| k@)
}

/// What the comparison does with one difference.
#[derive(Clone, Copy, Debug, PartialEq, Eq, Structural)]
pub enum RawVerdict {
    /// Shown as one line.
    Show,
    /// Left out: it lies under a documentation key.
    SkipDoc,
    /// Left out: it is confined to a byte array.
    SkipBytes,
    /// An unchanged leaf: counted only.
    Ignore,
}

pub open spec fn path_has(p: Seq<PathKeyView>, name: Seq<char>) -> bool {
    exists|i: int| 0 <= i < p.len() && p[i] == PathKeyView::Name(name)
}

/// Additions, removals and modifications are shown, unless documentation is skipped
/// and the path goes through a `documentation` key, or byte arrays are
/// skipped and the path goes through a `value` or `default` key to an array
/// (or to anything, once arrays were collapsed).
pub open spec fn verdict_of(
    kind: RawChangeKind,
    path: Seq<PathKeyView>,
    is_array: bool,
    o: RawDifferOptions,
) -> RawVerdict {
    if kind != RawChangeKind::Unchanged {
        if path_has(path, "documentation"@) && o.skip_doc {
            RawVerdict::SkipDoc
        } else if (path_has(path, "value"@) || path_has(path, "default"@)) && (is_array
            || o.collapse) && o.skip_bytes {
            RawVerdict::SkipBytes
        } else {
            RawVerdict::Show
        }
    } else {
        RawVerdict::Ignore
    }
}

fn path_contains(path: &Vec<PathKey>, name: &str) -> (r: bool)
    ensures
        r == path_has(path_view(path@), name@),
{
    let wanted = name.to_owned();
    let mut i: usize = 0;
    while i < path.len()
        invariant
            i <= path.len(),
            wanted@ == name@,
            forall|j: int| 0 <= j < i ==> path_view(path@)[j] != PathKeyView::Name(name@),
        decreases path.len() - i,
    {
        match &path[i] {
            PathKey::Name(s) => {
                if *s == wanted {
                    assert(path_view(path@)[i as int] == PathKeyView::Name(name@));
                    return true;
                }
            },
            PathKey::Index(_) => {},
        }
        i = i + 1;
    }
    false
}

impl RawChange {
    /// What the comparison does with this difference under `options`.
    pub fn verdict(&self, options: &RawDifferOptions) -> (r: RawVerdict)
        ensures
            r == verdict_of(self.kind, path_view(self.path@), self.is_array, *options),
    {
        if self.kind != RawChangeKind::Unchanged {
            if options.skip_doc && path_contains(&self.path, "documentation") {
                RawVerdict::SkipDoc
            } else if options.skip_bytes && (self.is_array || options.collapse) && (path_contains(
                &self.path,
                "value",
            ) || path_contains(&self.path, "default")) {
                RawVerdict::SkipBytes
            } else {
                RawVerdict::Show
            }
        } else {
            RawVerdict::Ignore
        }
    }
}

pub open spec fn verdicts(changes: Seq<RawChange>, o: RawDifferOptions) -> Seq<RawVerdict> {
    changes.map_values(|c: RawChange| verdict_of(c.kind, path_view(c.path@), c.is_array, o))
}

/// The positions `i < n` of `s` that hold `v`, in order.
pub open spec fn positions_of<A>(s: Seq<A>, v: A, n: int) -> Seq<usize>
    decreases n,
{
    if n <= 0 {
        Seq::empty()
    } else if s[n - 1] == v {
        positions_of(s, v, n - 1).push((n - 1) as usize)
    } else {
        positions_of(s, v, n - 1)
    }
}

/// How many of the first `n` items of `s` are `v`.
pub open spec fn count_of<A>(s: Seq<A>, v: A, n: int) -> nat
    decreases n,
{
    if n <= 0 {
        0
    } else {
        count_of(s, v, n - 1) + if s[n - 1] == v {
            1nat
        } else {
            0nat
        }
    }
}

proof fn lemma_count_bound<A>(s: Seq<A>, v: A, n: int)
    requires
        0 <= n,
    ensures
        count_of(s, v, n) <= n,
    decreases n,
{
    if n > 0 {
        lemma_count_bound(s, v, n - 1);
    }
}

/// How many differences of each kind there are.
#[derive(Debug)]
pub struct ChangeCounter {
    pub added: usize,
    pub removed: usize,
    pub modified: usize,
    pub unchanged: usize,
}

/// How many differences were left out, and why.
#[derive(Debug)]
pub struct SkipCounter {
    pub documentation: usize,
    pub bytes: usize,
}

/// What the comparison reports: the positions of the differences to show,
/// in order, and the counts.
#[derive(Debug)]
pub struct RawReport {
    pub shown: Vec<usize>,
    pub counter: ChangeCounter,
    pub skipped: SkipCounter,
}

pub open spec fn kinds(changes: Seq<RawChange>) -> Seq<RawChangeKind> {
    changes.map_values(|c: RawChange| c.kind)
}

/// Sorts the differences between two documents into those shown and those
/// left out under `options`, and counts them by kind.
pub fn summarize(changes: &Vec<RawChange>, options: &RawDifferOptions) -> (r: RawReport)
    ensures
        r.shown@ == positions_of(verdicts(changes@, *options), RawVerdict::Show, changes@.len() as int),
        r.skipped.documentation == count_of(
            verdicts(changes@, *options),
            RawVerdict::SkipDoc,
            changes@.len() as int,
        ),
        r.skipped.bytes == count_of(
            verdicts(changes@, *options),
            RawVerdict::SkipBytes,
            changes@.len() as int,
        ),
        r.counter.added == count_of(kinds(changes@), RawChangeKind::Added, changes@.len() as int),
        r.counter.removed == count_of(
            kinds(changes@),
            RawChangeKind::Removed,
            changes@.len() as int,
        ),
        r.counter.modified == count_of(
            kinds(changes@),
            RawChangeKind::Modified,
            changes@.len() as int,
        ),
        r.counter.unchanged == count_of(
            kinds(changes@),
            RawChangeKind::Unchanged,
            changes@.len() as int,
        ),
{
    let ghost vs = verdicts(changes@, *options);
    let ghost ks = kinds(changes@);
    let mut shown: Vec<usize> = Vec::new();
    let mut doc: usize = 0;
    let mut bytes: usize = 0;
    let mut added: usize = 0;
    let mut removed: usize = 0;
    let mut modified: usize = 0;
    let mut unchanged: usize = 0;
    let mut i: usize = 0;
    while i < changes.len()
        invariant
            i <= changes.len(),
            vs == verdicts(changes@, *options),
            ks == kinds(changes@),
            shown@ == positions_of(vs, RawVerdict::Show, i as int),
            doc == count_of(vs, RawVerdict::SkipDoc, i as int),
            bytes == count_of(vs, RawVerdict::SkipBytes, i as int),
            added == count_of(ks, RawChangeKind::Added, i as int),
            removed == count_of(ks, RawChangeKind::Removed, i as int),
            modified == count_of(ks, RawChangeKind::Modified, i as int),
            unchanged == count_of(ks, RawChangeKind::Unchanged, i as int),
        decreases changes.len() - i,
    {
        proof {
            lemma_count_bound(vs, RawVerdict::SkipDoc, i as int);
            lemma_count_bound(vs, RawVerdict::SkipBytes, i as int);
            lemma_count_bound(ks, RawChangeKind::Added, i as int);
            lemma_count_bound(ks, RawChangeKind::Removed, i as int);
            lemma_count_bound(ks, RawChangeKind::Modified, i as int);
            lemma_count_bound(ks, RawChangeKind::Unchanged, i as int);
        }
        let c = &changes[i];
        let v = c.verdict(options);
        assert(vs[i as int] == v);
        assert(ks[i as int] == c.kind);
        match v {
            RawVerdict::Show => shown.push(i),
            RawVerdict::SkipDoc => doc = doc + 1,
            RawVerdict::SkipBytes => bytes = bytes + 1,
            RawVerdict::Ignore => {},
        }
        match c.kind {
            RawChangeKind::Added => added = added + 1,
            RawChangeKind::Removed => removed = removed + 1,
            RawChangeKind::Modified => modified = modified + 1,
            RawChangeKind::Unchanged => unchanged = unchanged + 1,
        }
        i = i + 1;
    }
    RawReport {
        shown,
        counter: ChangeCounter { added, removed, modified, unchanged },
        skipped: SkipCounter { documentation: doc, bytes },
    }
}

/// Whether the elements of an array make it a byte array: it is not empty
/// and each element is an integer no greater than 255 (`None` stands for an
/// element that is not an integer).
pub fn is_byte_array(elements: &Vec<Option<u64>>) -> (r: bool)
    ensures
        r == (elements@.len() > 0 && forall|i: int|
            0 <= i < elements@.len() ==> (#[trigger] elements@[i] matches Some(n) && n <= 255)),
{
    if elements.len() == 0 {
        return false;
    }
    let mut i: usize = 0;
    while i < elements.len()
        invariant
            i <= elements.len(),
            forall|j: int| 0 <= j < i ==> (#[trigger] elements@[j] matches Some(n) && n <= 255),
        decreases elements.len() - i,
    {
        match elements[i] {
            Some(n) => {
                if n > 255 {
                    return false;
                }
            },
            None => {
                return false;
            },
        }
        i = i + 1;
    }
    true
}

} // verus!
