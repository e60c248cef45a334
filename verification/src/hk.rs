//! The checksum-manifest validator: parsing a manifest's line grammar,
//! deriving its algorithm from the manifest's own file extension, and
//! judging each referenced file's current digest against the recorded one.
//!
//! One manifest line is `<hash><whitespace>[*]<name>`: a run of
//! non-whitespace, then whitespace, then an optional single `*` marker
//! before the file name. A line that does not fit this shape fails the
//! whole manifest load; there is no per-line tolerance.

use vstd::prelude::*;

use crate::alg::{spec_digest, token_alg, Algorithm};
use crate::error::Error;
use crate::hash::{hex_of, is_hex_char, lemma_hex_of_shape};
use crate::paths::{extension_of, find_last_char, join_of, join_path, last_index_of, parent_dir,
    parent_of};
use crate::text::{char_is_ws, is_ws_char, seq_eq_ci, str_eq_ci};

verus! {

/// The first index at or after `i` holding a whitespace character, or the
/// sequence's length when the rest is all non-whitespace.
pub open spec fn scan_non_ws(s: Seq<char>, i: int) -> int
    decreases s.len() - i,
{
    if i < 0 || i >= s.len() {
        i
    } else if is_ws_char(s[i]) {
        i
    } else {
        scan_non_ws(s, i + 1)
    }
}

/// The first index at or after `i` holding a non-whitespace character, or
/// the sequence's length when the rest is all whitespace.
pub open spec fn scan_ws(s: Seq<char>, i: int) -> int
    decreases s.len() - i,
{
    if i < 0 || i >= s.len() {
        i
    } else if !is_ws_char(s[i]) {
        i
    } else {
        scan_ws(s, i + 1)
    }
}

pub proof fn lemma_scan_non_ws_end(s: Seq<char>, start: int, end: int)
    requires
        0 <= start <= end <= s.len(),
        forall|k: int| start <= k < end ==> !is_ws_char(s[k]),
        end == s.len() || is_ws_char(s[end]),
    ensures
        scan_non_ws(s, start) == end,
    decreases end - start,
{
    if start < end {
        lemma_scan_non_ws_end(s, start + 1, end);
    }
}

pub proof fn lemma_scan_ws_end(s: Seq<char>, start: int, end: int)
    requires
        0 <= start <= end <= s.len(),
        forall|k: int| start <= k < end ==> is_ws_char(s[k]),
        end == s.len() || !is_ws_char(s[end]),
    ensures
        scan_ws(s, start) == end,
    decreases end - start,
{
    if start < end {
        lemma_scan_ws_end(s, start + 1, end);
    }
}

/// One manifest line parsed into its recorded hash and file name, or
/// nothing when the line does not fit the grammar. The hash is the maximal
/// leading run of non-whitespace; at least one whitespace character must
/// follow; a single `*` before a non-empty name is consumed; when the
/// whitespace runs to the line's end, the name still claims one trailing
/// whitespace character if the run is long enough to give one up.
pub open spec fn parse_line(s: Seq<char>) -> Option<(Seq<char>, Seq<char>)> {
    let h = scan_non_ws(s, 0);
    let j = scan_ws(s, h);
    if h == 0 || j == h {
        None
    } else if j < s.len() {
        if s[j] == '*' && j + 1 < s.len() {
            Some((s.subrange(0, h), s.subrange(j + 1, s.len() as int)))
        } else {
            Some((s.subrange(0, h), s.subrange(j, s.len() as int)))
        }
    } else {
        if j >= h + 2 {
            Some((s.subrange(0, h), s.subrange(j - 1, s.len() as int)))
        } else {
            None
        }
    }
}

/// Parses one manifest line (see `parse_line`); a line that does not fit
/// the grammar is a `HashFile` format error.
pub fn parse_entry(line: &str) -> (r: Result<(String, String), Error>)
    ensures
        match r {
            Ok(p) => parse_line(line@) == Some((p.0@, p.1@)),
            Err(e) => parse_line(line@) is None && e is HashFile,
        },
{
    let n = line.unicode_len();
    let mut h: usize = 0;
    while h < n && !char_is_ws(line.get_char(h))
        invariant
            h <= n,
            n == line@.len(),
            forall|k: int| 0 <= k < h ==> !is_ws_char(line@[k]),
        decreases n - h,
    {
        h = h + 1;
    }
    proof {
        lemma_scan_non_ws_end(line@, 0, h as int);
    }
    let mut j: usize = h;
    while j < n && char_is_ws(line.get_char(j))
        invariant
            h <= j <= n,
            n == line@.len(),
            forall|k: int| h <= k < j ==> is_ws_char(line@[k]),
        decreases n - j,
    {
        j = j + 1;
    }
    proof {
        lemma_scan_ws_end(line@, h as int, j as int);
    }
    if h == 0 || j == h {
        return Err(Error::HashFile);
    }
    let hash = line.substring_char(0, h).to_owned();
    if j < n {
        if line.get_char(j) == '*' && j + 1 < n {
            Ok((hash, line.substring_char(j + 1, n).to_owned()))
        } else {
            Ok((hash, line.substring_char(j, n).to_owned()))
        }
    } else {
        if j - h >= 2 {
            Ok((hash, line.substring_char(j - 1, n).to_owned()))
        } else {
            Err(Error::HashFile)
        }
    }
}

/// The first index at or after `i` holding `c`, or the sequence's length.
pub open spec fn scan_char(s: Seq<char>, i: int, c: char) -> int
    decreases s.len() - i,
{
    if i < 0 || i >= s.len() {
        i
    } else if s[i] == c {
        i
    } else {
        scan_char(s, i + 1, c)
    }
}

pub proof fn lemma_scan_char_end(s: Seq<char>, start: int, end: int, c: char)
    requires
        0 <= start <= end <= s.len(),
        forall|k: int| start <= k < end ==> s[k] != c,
        end == s.len() || s[end] == c,
    ensures
        scan_char(s, start, c) == end,
    decreases end - start,
{
    if start < end {
        lemma_scan_char_end(s, start + 1, end, c);
    }
}

pub proof fn lemma_scan_char_bounds(s: Seq<char>, i: int, c: char)
    requires
        0 <= i <= s.len(),
    ensures
        i <= scan_char(s, i, c) <= s.len(),
    decreases s.len() - i,
{
    if i < s.len() && s[i] != c {
        lemma_scan_char_bounds(s, i + 1, c);
    }
}

/// A line body with one trailing carriage return removed.
pub open spec fn strip_cr(l: Seq<char>) -> Seq<char> {
    if l.len() > 0 && l[l.len() - 1] == '\r' {
        l.drop_last()
    } else {
        l
    }
}

/// The lines of `s` from index `i` on: split at `\n`, with a `\r` directly
/// before a split stripped; a final line without a trailing newline keeps
/// any `\r`, and a trailing newline opens no further empty line.
pub open spec fn lines_from(s: Seq<char>, i: int) -> Seq<Seq<char>>
    decreases s.len() - i,
    via lines_from_decreases
{
    if i < 0 || i >= s.len() {
        Seq::empty()
    } else {
        let j = scan_char(s, i, '\n');
        if j >= s.len() {
            seq![s.subrange(i, s.len() as int)]
        } else {
            seq![strip_cr(s.subrange(i, j))] + lines_from(s, j + 1)
        }
    }
}

#[via_fn]
proof fn lines_from_decreases(s: Seq<char>, i: int) {
    if 0 <= i < s.len() {
        lemma_scan_char_bounds(s, i, '\n');
    }
}

/// The lines of a whole text, as `str::lines` yields them.
pub open spec fn lines_of(s: Seq<char>) -> Seq<Seq<char>> {
    lines_from(s, 0)
}

/// Splits a text into its lines (see `lines_of`).
pub fn split_lines(text: &str) -> (r: Vec<String>)
    ensures
        r.deep_view() == lines_of(text@),
{
    let n = text.unicode_len();
    let mut out: Vec<String> = Vec::new();
    let mut i: usize = 0;
    while i < n
        invariant
            i <= n,
            n == text@.len(),
            lines_of(text@) == out.deep_view() + lines_from(text@, i as int),
        decreases n - i,
    {
        let ghost prev_out = out.deep_view();
        let ghost i0 = i as int;
        let mut j: usize = i;
        while j < n && text.get_char(j) != '\n'
            invariant
                i <= j <= n,
                n == text@.len(),
                forall|k: int| i <= k < j ==> text@[k] != '\n',
            decreases n - j,
        {
            j = j + 1;
        }
        proof {
            lemma_scan_char_end(text@, i as int, j as int, '\n');
        }
        if j < n {
            let line = if j > i && text.get_char(j - 1) == '\r' {
                text.substring_char(i, j - 1)
            } else {
                text.substring_char(i, j)
            };
            proof {
                if j > i0 && text@[j - 1] == '\r' {
                    assert(text@.subrange(i0, j as int).drop_last() =~= text@.subrange(
                        i0,
                        j - 1,
                    ));
                    assert(strip_cr(text@.subrange(i0, j as int)) == line@);
                } else {
                    assert(strip_cr(text@.subrange(i0, j as int)) == line@);
                }
            }
            out.push(line.to_owned());
            i = j + 1;
            proof {
                assert(out.deep_view() =~= prev_out.push(strip_cr(text@.subrange(i0, j as int))));
                assert(lines_from(text@, i0) == seq![strip_cr(text@.subrange(i0, j as int))]
                    + lines_from(text@, i as int));
                assert(prev_out + lines_from(text@, i0) =~= out.deep_view() + lines_from(
                    text@,
                    i as int,
                ));
            }
        } else {
            let line = text.substring_char(i, n);
            out.push(line.to_owned());
            i = n;
            proof {
                assert(out.deep_view() =~= prev_out.push(text@.subrange(i0, n as int)));
                assert(lines_from(text@, i0) == seq![text@.subrange(i0, n as int)]);
                assert(prev_out + lines_from(text@, i0) =~= out.deep_view() + lines_from(
                    text@,
                    i as int,
                ));
            }
        }
    }
    proof {
        assert(lines_from(text@, i as int) =~= Seq::<Seq<char>>::empty());
        assert(out.deep_view() + lines_from(text@, i as int) =~= out.deep_view());
    }
    out
}

/// Reads the manifest's algorithm token: the extension of the manifest's
/// own file name. A manifest without an extension is a format error.
pub fn read_alg_from_path(path: &str) -> (r: Result<String, Error>)
    ensures
        match r {
            Ok(ext) => extension_of(path@) == Some(ext@),
            Err(e) => extension_of(path@) is None && e is HashFile,
        },
{
    let n = path.unicode_len();
    let start = match find_last_char(path, '/') {
        Some(j) => j + 1,
        None => 0,
    };
    let fname = path.substring_char(start, n);
    proof {
        assert(fname@ =~= path@.skip(last_index_of(path@, '/') + 1));
    }
    let fn_len = fname.unicode_len();
    match find_last_char(fname, '.') {
        Some(d) => {
            if d > 0 {
                Ok(fname.substring_char(d + 1, fn_len).to_owned())
            } else {
                Err(Error::HashFile)
            }
        },
        None => Err(Error::HashFile),
    }
}

/// A manifest line whose first character is the comment marker.
pub open spec fn is_comment(l: Seq<char>) -> bool {
    l.len() > 0 && l[0] == '#'
}

/// The (hash, name) pairs of a manifest's lines, in order, with comment
/// lines skipped — or nothing as soon as any line fails the grammar.
pub open spec fn parse_manifest_lines(ls: Seq<Seq<char>>) -> Option<Seq<(Seq<char>, Seq<char>)>>
    decreases ls.len(),
{
    if ls.len() == 0 {
        Some(Seq::empty())
    } else if is_comment(ls[0]) {
        parse_manifest_lines(ls.drop_first())
    } else {
        match (parse_line(ls[0]), parse_manifest_lines(ls.drop_first())) {
            (Some(p), Some(rest)) => Some(seq![p] + rest),
            _ => None,
        }
    }
}

/// The algorithm named by a manifest path's extension, if the extension
/// exists and is a known token.
pub open spec fn manifest_alg_of(path: Seq<char>) -> Option<Algorithm> {
    match extension_of(path) {
        None => None,
        Some(x) => token_alg(x),
    }
}

/// The algorithm has manifest-verification support.
pub open spec fn manifest_supported(a: Algorithm) -> bool {
    a == Algorithm::Md5 || a == Algorithm::Sha256
}

/// The manifest path names a recognized, supported algorithm.
pub open spec fn manifest_ready(path: Seq<char>) -> bool {
    manifest_alg_of(path) is Some && manifest_supported(manifest_alg_of(path).unwrap())
}

/// One entry of a loaded manifest: the recorded hash and file name from
/// one line, and the file's path resolved against the manifest's own
/// directory.
#[derive(Clone, Debug)]
pub struct ValidateTask {
    pub path: String,
    pub name: String,
    pub hash: String,
}

impl ValidateTask {
    pub fn new(path: String, name: String, hash: String) -> (r: ValidateTask)
        ensures
            r.path == path,
            r.name == name,
            r.hash == hash,
    {
        ValidateTask { path, name, hash }
    }
}

/// The judgment for one manifest entry: the file's current digest matches
/// the recorded hash, differs from it (carrying the recomputed digest), or
/// the file is absent.
#[derive(Clone, Debug, PartialEq, Eq)]
pub enum HashResult {
    Valid,
    Mismatch(String),
    Missing,
}

/// A borrowed file content as the byte sequence it views to.
pub open spec fn spec_contents(c: Option<&Vec<u8>>) -> Option<Seq<u8>> {
    match c {
        None => None,
        Some(b) => Some(b@),
    }
}

/// What judging one entry must yield: absent content is `Missing`; content
/// whose digest matches the recorded hash up to ASCII case is `Valid`; any
/// other content is a `Mismatch` carrying the recomputed lowercase-hex
/// digest.
pub open spec fn result_matches(
    r: HashResult,
    hash: Seq<char>,
    alg: Algorithm,
    contents: Option<Seq<u8>>,
) -> bool {
    match contents {
        None => r is Missing,
        Some(b) => {
            if seq_eq_ci(hash, hex_of(spec_digest(alg, b))) {
                r is Valid
            } else {
                r matches HashResult::Mismatch(actual) && actual@ == hex_of(spec_digest(alg, b))
            }
        },
    }
}

impl ValidateTask {
    /// Judges this entry against the file's current content, handed in by
    /// the caller: nothing when the file is absent, its bytes otherwise.
    pub fn validate(&self, algorithm: Algorithm, contents: Option<&Vec<u8>>) -> (r: HashResult)
        ensures
            result_matches(r, self.hash@, algorithm, spec_contents(contents)),
    {
        match contents {
            None => HashResult::Missing,
            Some(b) => {
                let actual = algorithm.hash(b.as_slice());
                if str_eq_ci(self.hash.as_str(), actual.as_str()) {
                    HashResult::Valid
                } else {
                    HashResult::Mismatch(actual)
                }
            },
        }
    }
}

/// The (hash, name) pairs a list of tasks was built from.
pub open spec fn tasks_pairs(files: Seq<ValidateTask>) -> Seq<(Seq<char>, Seq<char>)> {
    files.map_values(|t: ValidateTask| (t.hash@, t.name@))
}

/// A loaded manifest: its algorithm and one task per entry, in manifest
/// order.
#[derive(Clone, Debug)]
pub struct Hashes {
    pub algorithm: Algorithm,
    pub files: Vec<ValidateTask>,
}

impl Hashes {
    /// Loads a manifest from its own path and its text content. The path's
    /// extension names the algorithm; every non-comment line must fit the
    /// line grammar, and the first malformed line fails the whole load;
    /// each entry's file path is resolved against the manifest's own
    /// directory.
    pub fn from_text(path: &str, text: &str) -> (r: Result<Hashes, Error>)
        ensures
            extension_of(path@) is None ==> (r matches Err(e) && e is HashFile),
            (extension_of(path@) is Some && manifest_alg_of(path@) is None) ==> (r matches Err(e)
                && e matches Error::UnknownAlgorithm(name) && name@ == extension_of(
                path@,
            ).unwrap()),
            (manifest_alg_of(path@) is Some && !manifest_supported(
                manifest_alg_of(path@).unwrap(),
            )) ==> (r matches Err(e) && e matches Error::UnsupportedAlgorithm(b) && b
                == manifest_alg_of(path@).unwrap()),
            (manifest_ready(path@) && parse_manifest_lines(lines_of(text@)) is None) ==> (
            r matches Err(e) && e is HashFile),
            (manifest_ready(path@) && parse_manifest_lines(lines_of(text@)) is Some) ==> (
            r matches Ok(h) && {
                &&& h.algorithm == manifest_alg_of(path@).unwrap()
                &&& tasks_pairs(h.files@) == parse_manifest_lines(lines_of(text@)).unwrap()
                &&& forall|k: int|
                    0 <= k < h.files@.len() ==> (#[trigger] h.files@[k]).path@ == join_of(
                        parent_of(path@),
                        h.files@[k].name@,
                    )
            }),
    {
        let ext = match read_alg_from_path(path) {
            Ok(ext) => ext,
            Err(e) => {
                return Err(e);
            },
        };
        let algorithm = match Algorithm::from_str(ext.as_str()) {
            Ok(a) => a,
            Err(e) => {
                return Err(e);
            },
        };
        let supported = match algorithm {
            Algorithm::Md5 => true,
            Algorithm::Sha256 => true,
            _ => false,
        };
        if !supported {
            return Err(Error::UnsupportedAlgorithm(algorithm));
        }
        let parent = parent_dir(path);
        let lines = split_lines(text);
        let mut files: Vec<ValidateTask> = Vec::new();
        let nl = lines.len();
        proof {
            assert(lines_of(text@).skip(0) =~= lines_of(text@));
            if parse_manifest_lines(lines_of(text@)) is Some {
                assert(tasks_pairs(files@) + parse_manifest_lines(lines_of(text@)).unwrap()
                    =~= parse_manifest_lines(lines_of(text@)).unwrap());
            }
        }
        for li in 0..nl
            invariant
                nl == lines@.len(),
                lines.deep_view() == lines_of(text@),
                parent@ == parent_of(path@),
                manifest_alg_of(path@) == Some(algorithm),
                manifest_supported(algorithm),
                match parse_manifest_lines(lines_of(text@).skip(li as int)) {
                    None => parse_manifest_lines(lines_of(text@)) is None,
                    Some(rest) => parse_manifest_lines(lines_of(text@)) == Some(
                        tasks_pairs(files@) + rest,
                    ),
                },
                forall|k: int|
                    0 <= k < files@.len() ==> (#[trigger] files@[k]).path@ == join_of(
                        parent_of(path@),
                        files@[k].name@,
                    ),
        {
            let line = &lines[li];
            let ghost lseq = lines_of(text@);
            let ghost suf = lseq.skip(li as int);
            proof {
                assert(lines.deep_view()[li as int] == lines@[li as int]@);
                assert(suf[0] == lseq[li as int]);
                assert(suf.drop_first() =~= lseq.skip(li as int + 1));
            }
            let is_comment_line = line.unicode_len() > 0 && line.get_char(0) == '#';
            if !is_comment_line {
                match parse_entry(line.as_str()) {
                    Ok(pair) => {
                        let (hash, name) = pair;
                        let task_path = join_path(parent.as_str(), name.as_str());
                        let ghost prev = files@;
                        files.push(ValidateTask::new(task_path, name, hash));
                        proof {
                            assert(tasks_pairs(files@) =~= tasks_pairs(prev) + seq![
                                (files@[prev.len() as int].hash@, files@[prev.len() as int].name@),
                            ]);
                            if parse_manifest_lines(lseq.skip(li as int + 1)) is Some {
                                let rest = parse_manifest_lines(
                                    lseq.skip(li as int + 1),
                                ).unwrap();
                                assert(parse_manifest_lines(suf) == Some(
                                    seq![(files@[prev.len() as int].hash@, files@[prev.len() as int].name@)]
                                        + rest,
                                ));
                                assert(tasks_pairs(prev) + (seq![
                                    (files@[prev.len() as int].hash@, files@[prev.len() as int].name@),
                                ] + rest) =~= tasks_pairs(files@) + rest);
                            }
                        }
                    },
                    Err(e) => {
                        proof {
                            assert(parse_manifest_lines(suf) is None);
                        }
                        return Err(e);
                    },
                }
            } else {
                proof {
                    assert(parse_manifest_lines(suf) == parse_manifest_lines(
                        lseq.skip(li as int + 1),
                    ));
                }
            }
        }
        proof {
            assert(lines_of(text@).skip(nl as int) =~= Seq::<Seq<char>>::empty());
            assert(parse_manifest_lines(lines_of(text@).skip(nl as int)) == Some(
                Seq::<(Seq<char>, Seq<char>)>::empty(),
            ));
            if parse_manifest_lines(lines_of(text@)) is Some {
                assert(tasks_pairs(files@) + Seq::<(Seq<char>, Seq<char>)>::empty() =~= tasks_pairs(
                    files@,
                ));
            }
        }
        Ok(Hashes { algorithm, files })
    }

    /// Starts a validator over this manifest's entries. If nothing drives
    /// the validator, nothing actually gets verified.
    pub fn verify(&self) -> (v: Validator)
        ensures
            v.algorithm == self.algorithm,
            v.pos == 0,
    {
        Validator { algorithm: self.algorithm, pos: 0 }
    }
}

/// A cursor over a manifest's entries that judges them one at a time, in
/// manifest order.
#[derive(Clone, Copy, Debug)]
pub struct Validator {
    pub algorithm: Algorithm,
    pub pos: usize,
}

/// One judged manifest entry: the declared file name and its result.
#[derive(Clone, Debug)]
pub struct Validation {
    pub name: String,
    pub result: HashResult,
}

impl Validator {
    /// The entry this validator will judge next, if any is left.
    pub fn current<'a>(&self, hashes: &'a Hashes) -> (r: Option<&'a ValidateTask>)
        ensures
            match r {
                Some(t) => self.pos < hashes.files@.len() && *t == hashes.files@[self.pos as int],
                None => self.pos >= hashes.files@.len(),
            },
    {
        if self.pos < hashes.files.len() {
            Some(&hashes.files[self.pos])
        } else {
            None
        }
    }

    /// Judges the current entry against the file content the caller read
    /// for it, and moves past it; nothing is left once every entry has
    /// been judged.
    pub fn next(&mut self, hashes: &Hashes, contents: Option<&Vec<u8>>) -> (r: Option<Validation>)
        ensures
            old(self).pos >= hashes.files@.len() ==> r is None && *final(self) == *old(self),
            old(self).pos < hashes.files@.len() ==> {
                &&& final(self).pos == old(self).pos + 1
                &&& final(self).algorithm == old(self).algorithm
                &&& (r matches Some(v) && v.name@ == hashes.files@[
                    old(self).pos as int].name@ && result_matches(
                    v.result,
                    hashes.files@[old(self).pos as int].hash@,
                    old(self).algorithm,
                    spec_contents(contents),
                ))
            },
    {
        if self.pos < hashes.files.len() {
            let task = &hashes.files[self.pos];
            let result = task.validate(self.algorithm, contents);
            self.pos = self.pos + 1;
            Some(Validation { name: task.name.clone(), result })
        } else {
            None
        }
    }
}

/// Manifest round trip: a line written as the library's own lowercase-hex
/// digest of some content, one space, the `*` marker and a file name
/// parses back to exactly that digest and name — and judging such an
/// entry against the unchanged content must yield `Valid`. So a manifest
/// generated from a file set and verified against the unchanged set
/// judges every entry `Valid`. (Every supported algorithm's digest is
/// non-empty.)
pub proof fn lemma_manifest_round_trip(
    alg: Algorithm,
    data: Seq<u8>,
    digest: Seq<u8>,
    name: Seq<char>,
    r: HashResult,
)
    requires
        digest == spec_digest(alg, data),
        digest.len() > 0,
        name.len() > 0,
        result_matches(r, hex_of(digest), alg, Some(data)),
    ensures
        parse_line(hex_of(digest) + seq![' ', '*'] + name) == Some((hex_of(digest), name)),
        r is Valid,
{
    let hex = hex_of(digest);
    let s = hex + seq![' ', '*'] + name;
    lemma_hex_of_shape(digest);
    assert forall|k: int| 0 <= k < hex.len() implies !is_ws_char(s[k]) by {
        assert(s[k] == hex[k]);
        assert(is_hex_char(hex[k]));
    }
    assert(s[hex.len() as int] == ' ');
    lemma_scan_non_ws_end(s, 0, hex.len() as int);
    assert(s[hex.len() as int + 1] == '*');
    lemma_scan_ws_end(s, hex.len() as int, hex.len() as int + 1);
    assert(s.subrange(0, hex.len() as int) =~= hex);
    assert(s.subrange(hex.len() as int + 2, s.len() as int) =~= name);
}

} // verus!
