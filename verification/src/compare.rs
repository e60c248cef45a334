//! The two-tier file comparer and the asymmetric directory-tree diff.
//!
//! A comparer builds one output per file — a full cryptographic hash or a
//! cheap fingerprint — and two files compare equal when their outputs do.
//! The tree diff walks the left root and looks every relative path up in an
//! index of the right root; paths found only on the right are never
//! reported.

use vstd::prelude::*;

use crate::error::{Error, OperationKind};
use crate::paths::{ancestor_related, get_relative_path, hidden_name, is_hidden_path,
    path_is_prefix};

verus! {

/// `blake3::Hash` is the output of the full comparer; it is carried through
/// as an opaque value and only compared for equality.
#[verifier::external_type_specification]
#[verifier::external_body]
pub struct ExBlake3Hash(blake3::Hash);

/// Relies on `blake3::Hash`'s `PartialEq`: a constant-time comparison of
/// the two 32-byte hash values, true exactly when the values are equal.
pub assume_specification[ <blake3::Hash as PartialEq>::eq ](
    a: &blake3::Hash,
    b: &blake3::Hash,
) -> (r: bool)
    ensures
        r == (*a == *b),
;

/// Relies on `rayon::join`: runs both closures, one potentially on another
/// worker thread, and returns both results once both have finished.
pub assume_specification<A, B, RA, RB>[ rayon::join::<A, B, RA, RB> ](
    oper_a: A,
    oper_b: B,
) -> (r: (RA, RB)) where
    A: FnOnce() -> RA + Send,
    B: FnOnce() -> RB + Send,
    RA: Send,
    RB: Send,

    requires
        oper_a.requires(()),
        oper_b.requires(()),
    ensures
        oper_a.ensures((), r.0),
        oper_b.ensures((), r.1),
;

/// The full comparer: its output is the file's BLAKE3 hash, so two files
/// compare equal exactly when their contents hash identically.
#[derive(Clone, Copy)]
pub struct Blake3Comparer;

impl Blake3Comparer {
    /// Relies on `blake3::Hasher::update_mmap` and `Hasher::finalize`:
    /// hashes the content of the file at `path`; a failed read surfaces as
    /// the underlying `Io` error.
    #[verifier::external_body]
    pub fn build(path: &str) -> (r: Result<blake3::Hash, Error>)
        ensures
            r matches Err(e) ==> e is Io,
    {
        let mut hasher = blake3::Hasher::new();
        match hasher.update_mmap(path) {
            Ok(_) => Ok(hasher.finalize()),
            Err(e) => Err(Error::Io(e)),
        }
    }

    /// Decides a pair of build results: the left side's failure wins, then
    /// the right side's; two successful builds compare equal exactly when
    /// their outputs are equal.
    pub fn judge(ra: Result<blake3::Hash, Error>, rb: Result<blake3::Hash, Error>) -> (r: Result<
        bool,
        Error,
    >)
        ensures
            (match (ra, rb) {
                (Err(e), _) => r == Err::<bool, Error>(e),
                (Ok(_), Err(e)) => r == Err::<bool, Error>(e),
                (Ok(a), Ok(b)) => r == Ok::<bool, Error>(a == b),
            }),
    {
        match (ra, rb) {
            (Err(e), _) => Err(e),
            (_, Err(e)) => Err(e),
            (Ok(a), Ok(b)) => Ok(a == b),
        }
    }
}

/// The fast comparer: its output is a cheap content fingerprint — the
/// file's length — read from metadata without touching the content, trading
/// possible false matches for speed on bulk comparisons.
#[derive(Clone, Copy)]
pub struct FastComparer;

impl FastComparer {
    /// Relies on `walkdir::WalkDir` over a single path and
    /// `DirEntry::metadata`: reads the length of the file at `path`; a
    /// failed read surfaces as the underlying `Io` error.
    #[verifier::external_body]
    pub fn build(path: &str) -> (r: Result<u64, Error>)
        ensures
            r matches Err(e) ==> e is Io,
    {
        match walkdir::WalkDir::new(path).max_depth(0).into_iter().next() {
            Some(Ok(entry)) => match entry.metadata() {
                Ok(meta) => Ok(meta.len()),
                Err(e) => Err(match e.into_io_error() {
                    Some(io) => Error::Io(io),
                    None => Error::Io(std::io::Error::new(std::io::ErrorKind::Other, "walk")),
                }),
            },
            Some(Err(e)) => Err(match e.into_io_error() {
                Some(io) => Error::Io(io),
                None => Error::Io(std::io::Error::new(std::io::ErrorKind::Other, "walk")),
            }),
            None => Err(Error::Io(std::io::Error::new(std::io::ErrorKind::NotFound, "walk"))),
        }
    }

    /// Decides a pair of build results: the left side's failure wins, then
    /// the right side's; two successful builds compare equal exactly when
    /// their fingerprints are equal.
    pub fn judge(ra: Result<u64, Error>, rb: Result<u64, Error>) -> (r: Result<bool, Error>)
        ensures
            (match (ra, rb) {
                (Err(e), _) => r == Err::<bool, Error>(e),
                (Ok(_), Err(e)) => r == Err::<bool, Error>(e),
                (Ok(a), Ok(b)) => r == Ok::<bool, Error>(a == b),
            }),
    {
        match (ra, rb) {
            (Err(e), _) => Err(e),
            (_, Err(e)) => Err(e),
            (Ok(a), Ok(b)) => Ok(a == b),
        }
    }
}

/// Builds both sides' comparer outputs concurrently (a two-way fork-join
/// with no shared mutable state), joins them, and judges the pair: two
/// successful builds yield whether the outputs are equal, and a failed
/// build — the left side's first — is fatal for this pair. `full` selects
/// the full comparer; otherwise the fast one runs. The verdict over the
/// two build results is the contracted `judge` of the selected comparer.
pub fn compare_with(full: bool, left: &str, right: &str) -> (r: Result<bool, Error>)
    ensures
        r matches Err(e) ==> e is Io,
{
    if full {
        let (ra, rb) = rayon::join(
            (|| -> (r: Result<blake3::Hash, Error>)
                ensures
                    r matches Err(e) ==> e is Io,
                { Blake3Comparer::build(left) }),
            (|| -> (r: Result<blake3::Hash, Error>)
                ensures
                    r matches Err(e) ==> e is Io,
                { Blake3Comparer::build(right) }),
        );
        Blake3Comparer::judge(ra, rb)
    } else {
        let (ra, rb) = rayon::join(
            (|| -> (r: Result<u64, Error>)
                ensures
                    r matches Err(e) ==> e is Io,
                { FastComparer::build(left) }),
            (|| -> (r: Result<u64, Error>)
                ensures
                    r matches Err(e) ==> e is Io,
                { FastComparer::build(right) }),
        );
        FastComparer::judge(ra, rb)
    }
}

/// One file found during a tree walk, keyed by its path relative to the
/// walk's root.
#[derive(Clone, Debug)]
pub struct FileEntry {
    pub relative: String,
    pub absolute: String,
}

/// The outcome of one relative path under a tree diff. `Missing` means the
/// path exists under the asymmetric left root but not under the right one.
#[derive(Clone, Copy, Debug, PartialEq, Eq, Structural)]
pub enum ComparisonResult {
    Match,
    Mismatch,
    Missing,
}

/// The outcome of a tree diff for one relative path.
#[derive(Clone, Debug)]
pub struct PairOutcome {
    pub relative: String,
    pub result: ComparisonResult,
}

/// An immutable mapping from relative path to absolute path, built once per
/// comparison root. Relies on `hashbrown::HashMap` for storage.
#[verifier::external_body]
pub struct DirectoryIndex {
    inner: hashbrown::HashMap<String, String>,
}

/// The mapping a `DirectoryIndex` holds.
pub uninterp spec fn index_map(d: DirectoryIndex) -> Map<Seq<char>, Seq<char>>;

impl DirectoryIndex {
    /// Relies on `hashbrown::HashMap::new`: the new index maps nothing.
    #[verifier::external_body]
    pub fn new() -> (r: DirectoryIndex)
        ensures
            index_map(r).is_empty(),
    {
        DirectoryIndex { inner: hashbrown::HashMap::new() }
    }

    /// Relies on `hashbrown::HashMap::insert`: the index maps `rel` to
    /// `abs` afterwards, and nothing else changes.
    #[verifier::external_body]
    pub fn insert(&mut self, rel: String, abs: String)
        ensures
            index_map(*final(self)) == index_map(*old(self)).insert(rel@, abs@),
    {
        self.inner.insert(rel, abs);
    }

    /// Relies on `hashbrown::HashMap::get`: the absolute path `rel` maps
    /// to, or nothing when `rel` is not a key.
    #[verifier::external_body]
    pub fn get(&self, rel: &str) -> (r: Option<&String>)
        ensures
            match r {
                Some(abs) => index_map(*self).contains_key(rel@) && abs@ == index_map(*self)[rel@],
                None => !index_map(*self).contains_key(rel@),
            },
    {
        self.inner.get(rel)
    }
}

/// Relies on `walkdir::WalkDir`: a recursive traversal of everything under
/// `root`. Each readable entry becomes its path and whether it is a regular
/// file; entries the walk failed to read become nothing, as per-entry walk
/// errors do not abort a walk.
#[verifier::external_body]
fn walk_tree(root: &str) -> (r: Vec<Option<(String, bool)>>) {
    walkdir::WalkDir::new(root)
        .into_iter()
        .map(|entry| match entry {
            Ok(e) => {
                let is_file = e.file_type().is_file();
                Some((e.into_path().to_string_lossy().into_owned(), is_file))
            },
            Err(_) => None,
        })
        .collect()
}

/// The paths that a walk's entries contribute: the readable entries that
/// are regular files and — unless hidden files are asked for — do not bear
/// a dotted name, in walk order, one path per kept entry.
pub open spec fn filtered_walk(
    walked: Seq<Option<(String, bool)>>,
    include_hidden: bool,
) -> Seq<Seq<char>>
    decreases walked.len(),
{
    if walked.len() == 0 {
        Seq::empty()
    } else {
        let rest = filtered_walk(walked.drop_first(), include_hidden);
        match walked[0] {
            Some(pair) => {
                if pair.1 && (include_hidden || !hidden_name(pair.0@)) {
                    seq![pair.0@] + rest
                } else {
                    rest
                }
            },
            None => rest,
        }
    }
}

pub proof fn lemma_filtered_walk_hides(walked: Seq<Option<(String, bool)>>)
    ensures
        forall|i: int|
            0 <= i < filtered_walk(walked, false).len() ==> !hidden_name(
                #[trigger] filtered_walk(walked, false)[i],
            ),
    decreases walked.len(),
{
    if walked.len() > 0 {
        lemma_filtered_walk_hides(walked.drop_first());
        let rest = filtered_walk(walked.drop_first(), false);
        assert forall|i: int| 0 <= i < filtered_walk(walked, false).len() implies !hidden_name(
            #[trigger] filtered_walk(walked, false)[i],
        ) by {
            match walked[0] {
                Some(pair) => {
                    if pair.1 && !hidden_name(pair.0@) {
                        if i > 0 {
                            assert(filtered_walk(walked, false)[i] == rest[i - 1]);
                        }
                    }
                },
                None => {},
            }
        }
    }
}

/// Keeps exactly the walk entries that are readable regular files and pass
/// the hidden-name policy, in walk order (see `filtered_walk`).
pub fn filter_walked(walked: &Vec<Option<(String, bool)>>, include_hidden: bool) -> (r: Vec<
    String,
>)
    ensures
        r.deep_view() == filtered_walk(walked@, include_hidden),
{
    let mut out: Vec<String> = Vec::new();
    let n = walked.len();
    proof {
        assert(walked@.skip(0) =~= walked@);
    }
    for i in 0..n
        invariant
            n == walked@.len(),
            filtered_walk(walked@, include_hidden) == out.deep_view() + filtered_walk(
                walked@.skip(i as int),
                include_hidden,
            ),
    {
        let ghost suf = walked@.skip(i as int);
        let ghost prev = out.deep_view();
        proof {
            assert(suf[0] == walked@[i as int]);
            assert(suf.drop_first() =~= walked@.skip(i as int + 1));
        }
        match &walked[i] {
            Some(pair) => {
                if pair.1 && (include_hidden || !is_hidden_path(pair.0.as_str())) {
                    out.push(pair.0.clone());
                    proof {
                        assert(out.deep_view() =~= prev.push(walked@[i as int].unwrap().0@));
                        assert(prev + (seq![walked@[i as int].unwrap().0@] + filtered_walk(
                            walked@.skip(i as int + 1),
                            include_hidden,
                        )) =~= out.deep_view() + filtered_walk(
                            walked@.skip(i as int + 1),
                            include_hidden,
                        ));
                    }
                }
            },
            None => {},
        }
    }
    proof {
        assert(walked@.skip(n as int) =~= Seq::<Option<(String, bool)>>::empty());
        assert(out.deep_view() + filtered_walk(walked@.skip(n as int), include_hidden)
            =~= out.deep_view());
    }
    out
}

/// Enumerates the regular files under `root`: a trusted walk, then the
/// contracted filter. Entries the walk could not read are skipped, and
/// entries whose base name starts with a dot marker are excluded unless
/// `include_hidden` is set.
pub fn read_files(root: &str, include_hidden: bool) -> (r: Vec<String>)
    ensures
        !include_hidden ==> forall|i: int| 0 <= i < r@.len() ==> !hidden_name(#[trigger] r@[i]@),
{
    let walked = walk_tree(root);
    let r = filter_walked(&walked, include_hidden);
    proof {
        if !include_hidden {
            lemma_filtered_walk_hides(walked@);
            assert forall|i: int| 0 <= i < r@.len() implies !hidden_name(#[trigger] r@[i]@) by {
                assert(r@[i]@ == r.deep_view()[i]);
            }
        }
    }
    r
}

/// Streams the left-side entries against the right-side index: a relative
/// path absent from the index is `Missing`; otherwise the selected comparer
/// decides `Match` or `Mismatch` for the pair of absolute paths. The first
/// `Io` failure aborts the whole run. On success there is exactly one
/// outcome per left entry, in order, under the entry's own relative path —
/// so paths present only on the right are never reported.
pub fn compare_contents(left: &Vec<FileEntry>, right: &DirectoryIndex, full: bool) -> (r: Result<
    Vec<PairOutcome>,
    Error,
>)
    ensures
        r matches Ok(v) ==> {
            &&& v@.len() == left@.len()
            &&& forall|i: int|
                0 <= i < v@.len() ==> (#[trigger] v@[i]).relative@ == left@[i].relative@
            &&& forall|i: int|
                0 <= i < v@.len() ==> ((#[trigger] v@[i]).result is Missing <==> !index_map(
                    *right,
                ).contains_key(left@[i].relative@))
        },
        r matches Err(e) ==> e is Io,
        left@.len() == 0 ==> r is Ok,
        (forall|i: int|
            0 <= i < left@.len() ==> !index_map(*right).contains_key(
                (#[trigger] left@[i]).relative@,
            )) ==> r is Ok,
{
    let mut out: Vec<PairOutcome> = Vec::new();
    let n = left.len();
    for i in 0..n
        invariant
            n == left@.len(),
            out@.len() == i,
            forall|k: int| 0 <= k < i ==> (#[trigger] out@[k]).relative@ == left@[k].relative@,
            forall|k: int|
                0 <= k < i ==> ((#[trigger] out@[k]).result is Missing <==> !index_map(
                    *right,
                ).contains_key(left@[k].relative@)),
    {
        let entry = &left[i];
        match right.get(entry.relative.as_str()) {
            Some(abs) => {
                let equal = match compare_with(full, entry.absolute.as_str(), abs.as_str()) {
                    Ok(equal) => equal,
                    Err(e) => {
                        return Err(e);
                    },
                };
                let result = if equal {
                    ComparisonResult::Match
                } else {
                    ComparisonResult::Mismatch
                };
                out.push(PairOutcome { relative: entry.relative.clone(), result });
            },
            None => {
                out.push(
                    PairOutcome { relative: entry.relative.clone(), result: ComparisonResult::Missing },
                );
            },
        }
    }
    Ok(out)
}

/// The whole diff succeeded only when every outcome is `Match`.
pub fn all_match(outcomes: &Vec<PairOutcome>) -> (r: bool)
    ensures
        r == (forall|i: int|
            0 <= i < outcomes@.len() ==> (#[trigger] outcomes@[i]).result is Match),
{
    let n = outcomes.len();
    for i in 0..n
        invariant
            n == outcomes@.len(),
            forall|k: int| 0 <= k < i ==> (#[trigger] outcomes@[k]).result is Match,
    {
        match outcomes[i].result {
            ComparisonResult::Match => {},
            _ => {
                return false;
            },
        }
    }
    true
}

/// Rejects a pair of roots when one is the other's ancestor, descendant, or
/// the same path; both are taken as already-canonicalized path strings.
pub fn ensure_distinct(left: &str, right: &str) -> (r: Result<(), Error>)
    ensures
        r is Ok <==> !ancestor_related(left@, right@),
        r matches Err(e) ==> e matches Error::InvalidOperation(k) && k == OperationKind::Child,
{
    if path_is_prefix(left, right) || path_is_prefix(right, left) {
        Err(Error::InvalidOperation(OperationKind::Child))
    } else {
        Ok(())
    }
}

/// Diffs the tree under `left` against the tree under `right`:
/// a fatal pre-check rejects overlapping roots, the right tree is indexed
/// once by relative path, and the left tree streams through
/// `compare_contents` under the selected comparer. Both roots are taken as
/// already-canonicalized path strings.
pub fn compare_dirs(left: &str, right: &str, full_comparison: bool) -> (r: Result<
    Vec<PairOutcome>,
    Error,
>)
    ensures
        ancestor_related(left@, right@) ==> (r matches Err(e) && e matches Error::InvalidOperation(
            k,
        ) && k == OperationKind::Child),
        r is Ok ==> !ancestor_related(left@, right@),
        (r matches Err(e) && e is InvalidOperation) ==> ancestor_related(left@, right@),
        !ancestor_related(left@, right@) ==> (r is Ok || (r matches Err(e) && e is Io)),
{
    match ensure_distinct(left, right) {
        Ok(_) => {},
        Err(e) => {
            return Err(e);
        },
    }
    let left_files = read_files(left, false);
    let mut entries: Vec<FileEntry> = Vec::new();
    let ln = left_files.len();
    for i in 0..ln
        invariant
            ln == left_files@.len(),
    {
        let path = &left_files[i];
        match get_relative_path(left, path.as_str()) {
            Some(rel) => {
                entries.push(FileEntry { relative: rel, absolute: path.clone() });
            },
            None => {},
        }
    }
    let right_files = read_files(right, false);
    let mut index = DirectoryIndex::new();
    let rn = right_files.len();
    for i in 0..rn
        invariant
            rn == right_files@.len(),
    {
        let path = &right_files[i];
        match get_relative_path(right, path.as_str()) {
            Some(rel) => {
                index.insert(rel, path.clone());
            },
            None => {},
        }
    }
    compare_contents(&entries, &index, full_comparison)
}

/// Tree-diff asymmetry: the outcomes of a diff carry exactly the left
/// side's relative paths, so a path that exists only under the right root —
/// absent from every left entry — never appears among the outcomes.
pub proof fn lemma_diff_asymmetry(left: Seq<FileEntry>, outcomes: Seq<PairOutcome>, rel: Seq<char>)
    requires
        outcomes.len() == left.len(),
        forall|i: int| 0 <= i < outcomes.len() ==> (#[trigger] outcomes[i]).relative@ == left[i].relative@,
        forall|i: int| 0 <= i < left.len() ==> (#[trigger] left[i]).relative@ != rel,
    ensures
        forall|i: int| 0 <= i < outcomes.len() ==> (#[trigger] outcomes[i]).relative@ != rel,
{
}

/// Tree-diff completeness: a relative path that appears exactly once among
/// the left entries and is absent from the right index yields exactly one
/// outcome for that path, and that outcome is `Missing`.
pub proof fn lemma_diff_completeness(
    left: Seq<FileEntry>,
    m: Map<Seq<char>, Seq<char>>,
    outcomes: Seq<PairOutcome>,
    rel: Seq<char>,
    j: int,
)
    requires
        outcomes.len() == left.len(),
        forall|i: int| 0 <= i < outcomes.len() ==> (#[trigger] outcomes[i]).relative@ == left[i].relative@,
        forall|i: int|
            0 <= i < outcomes.len() ==> ((#[trigger] outcomes[i]).result is Missing <==> !m.contains_key(
                left[i].relative@,
            )),
        0 <= j < left.len(),
        left[j].relative@ == rel,
        forall|i: int| 0 <= i < left.len() && i != j ==> (#[trigger] left[i]).relative@ != rel,
        !m.contains_key(rel),
    ensures
        outcomes[j].relative@ == rel,
        outcomes[j].result is Missing,
        forall|i: int|
            0 <= i < outcomes.len() && (#[trigger] outcomes[i]).relative@ == rel ==> i == j,
{
}

} // verus!
