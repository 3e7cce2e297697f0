//! The package record: a crate's name and its version history as resolved
//! from a mirrored registry index, with version lookup and the canonical
//! on-disk naming convention.

use crate::text::{contains_spec, starts_with_spec, str_contains, str_eq, str_starts_with};
use rustc_serialize::json::Json;
use vstd::prelude::*;
use vstd::string::{StrSliceExecFns, StringExecFns};

verus! {

/// Really simple crate model: a package name and its published versions,
/// newest first.
#[derive(Debug, Clone)]
pub struct Crate {
    /// Name of crate
    pub name: String,
    /// Versions of crate, newest first
    pub versions: Vec<String>,
}

/// Errors surfaced while resolving, reading or ingesting a crate.
#[derive(Debug, Clone)]
pub enum CrateOpenError {
    /// No index file with the requested name was found.
    FileNotFound,
    /// Reading a file failed.
    IoError,
    /// Serializing a structured field failed.
    EncoderError,
    /// An index line or a registry response is not valid JSON.
    ParseError,
    /// A JSON value did not have the expected shape.
    NotObject,
    /// An index line has no `name` string field.
    NameNotFound,
    /// An index line has no `vers` string field.
    VersNotFound,
    /// A manifest could not be accepted.
    ManifestError,
    /// The relational store refused an operation; here, its id space has
    /// no room for the rows an ingest can insert.
    DbError,
    /// An external command failed, with its captured output.
    CommandError(String),
    /// A failure from the documentation build pipeline.
    DocBuilderError(crate::builder::DocBuilderError),
}

/// How a single index line fails to yield a (name, version) pair.
#[derive(Debug, Clone, Copy, PartialEq, Eq, Structural)]
pub enum IndexLineError {
    /// The line is not valid JSON.
    Invalid,
    /// The line is valid JSON but not an object.
    NotObject,
    /// The object has no `name` string field.
    NameNotFound,
    /// The object has no `vers` string field.
    VersNotFound,
}

/// What parsing one line of an index file yields: the `name` and `vers`
/// string fields of the JSON object the line holds, or how it fails.
pub uninterp spec fn index_line_parse(line: Seq<char>) -> Result<
    (Seq<char>, Seq<char>),
    IndexLineError,
>;

/// Relies on rustc-serialize's `Json::from_str`, `as_object`, and string
/// field lookup: which `name` and `vers` a line carries, and how parsing
/// fails, depend on the line's characters alone.
#[verifier::external_body]
fn parse_index_line(line: &str) -> (r: Result<(String, String), IndexLineError>)
    ensures
        match r {
            Ok(p) => index_line_parse(line@) == Ok::<(Seq<char>, Seq<char>), IndexLineError>(
                (p.0@, p.1@),
            ),
            Err(e) => index_line_parse(line@) == Err::<(Seq<char>, Seq<char>), IndexLineError>(e),
        },
{
    let data = match Json::from_str(line.trim()) {
        Ok(d) => d,
        Err(_) => return Err(IndexLineError::Invalid),
    };
    let obj = match data.as_object() {
        Some(o) => o,
        None => return Err(IndexLineError::NotObject),
    };
    let name = obj.get("name").and_then(|n| n.as_string()).ok_or(IndexLineError::NameNotFound)?;
    let vers = obj.get("vers").and_then(|v| v.as_string()).ok_or(IndexLineError::VersNotFound)?;
    Ok((name.to_owned(), vers.to_owned()))
}

/// Whether an index line parses to a (name, version) pair.
pub open spec fn line_ok(l: Seq<char>) -> bool {
    index_line_parse(l) is Ok
}

/// The `name` field of a parsed index line.
pub open spec fn line_name(l: Seq<char>) -> Seq<char> {
    index_line_parse(l)->Ok_0.0
}

/// The `vers` field of a parsed index line.
pub open spec fn line_vers(l: Seq<char>) -> Seq<char> {
    index_line_parse(l)->Ok_0.1
}

/// The resolution error that one failing index line surfaces.
pub open spec fn line_error(l: Seq<char>) -> CrateOpenError {
    match index_line_parse(l)->Err_0 {
        IndexLineError::Invalid => CrateOpenError::ParseError,
        IndexLineError::NotObject => CrateOpenError::NotObject,
        IndexLineError::NameNotFound => CrateOpenError::NameNotFound,
        IndexLineError::VersNotFound => CrateOpenError::VersNotFound,
    }
}

/// The canonical `{name}-{version}` string.
pub open spec fn canonical_name_spec(name: Seq<char>, vers: Seq<char>) -> Seq<char> {
    name + seq!['-'] + vers
}

/// Whether `r` is the position of the first exact match of `v` in `vs`.
pub open spec fn is_first_match(vs: Seq<Seq<char>>, v: Seq<char>, r: Option<int>) -> bool {
    match r {
        Some(i) => 0 <= i < vs.len() && vs[i] == v && (forall|j: int| 0 <= j < i ==> vs[j] != v),
        None => forall|j: int| 0 <= j < vs.len() ==> vs[j] != v,
    }
}

/// Whether `r` is the position of the first version in `vs` that starts
/// with the prefix `v`.
pub open spec fn is_first_prefix_match(vs: Seq<Seq<char>>, v: Seq<char>, r: Option<int>) -> bool {
    match r {
        Some(i) => 0 <= i < vs.len() && starts_with_spec(vs[i], v) && (forall|j: int|
            0 <= j < i ==> !starts_with_spec(vs[j], v)),
        None => forall|j: int| 0 <= j < vs.len() ==> !starts_with_spec(vs[j], v),
    }
}

/// At most one position can be the first match, so repeated lookups with
/// unchanged state agree.
pub proof fn lemma_first_match_unique(
    vs: Seq<Seq<char>>,
    v: Seq<char>,
    r1: Option<int>,
    r2: Option<int>,
)
    requires
        is_first_match(vs, v, r1),
        is_first_match(vs, v, r2),
    ensures
        r1 == r2,
{
}

/// A snapshot of one directory of the mirrored index tree.
#[derive(Debug)]
pub struct IndexTree {
    pub entries: Vec<IndexEntry>,
}

/// One directory entry of the mirrored index: its file name and what it
/// holds.
#[derive(Debug)]
pub struct IndexEntry {
    pub name: String,
    pub node: IndexNode,
}

/// What an index entry holds: a subdirectory, or a file given by its
/// lines.
#[derive(Debug)]
pub enum IndexNode {
    Dir(IndexTree),
    Leaf(Vec<String>),
}

/// Whether resolution skips an entry and its whole subtree: entries whose
/// name carries the version-control-metadata marker, and the one reserved
/// configuration file name.
pub open spec fn entry_skipped(name: Seq<char>) -> bool {
    contains_spec(name, ".git"@) || name == "config.json"@
}

/// What one index file resolves to: every line must parse; the name is the
/// last line's, the versions are the lines' in reverse order, and the
/// first failing line decides the error.
pub open spec fn lines_result(lines: Seq<Seq<char>>) -> Result<
    (Seq<char>, Seq<Seq<char>>),
    CrateOpenError,
>
    decreases lines.len(),
{
    if lines.len() == 0 {
        Ok((Seq::empty(), Seq::empty()))
    } else if !line_ok(lines[0]) {
        Err(line_error(lines[0]))
    } else {
        match lines_result(lines.drop_first()) {
            Ok(p) => Ok(
                (
                    if lines.len() == 1 {
                        line_name(lines[0])
                    } else {
                        p.0
                    },
                    p.1.push(line_vers(lines[0])),
                ),
            ),
            Err(e) => Err(e),
        }
    }
}

/// Depth-first resolution over a directory's entries, in order: a skipped
/// entry is passed over with its subtree; a subdirectory that resolves
/// wins, while its failure is swallowed and the scan goes on; a file whose
/// name matches exactly decides, success or failure; and a scan that runs
/// out of entries fails with the not-found error.
pub open spec fn resolve_entries(name: Seq<char>, entries: Seq<IndexEntry>) -> Result<
    (Seq<char>, Seq<Seq<char>>),
    CrateOpenError,
>
    decreases entries,
{
    if entries.len() == 0 {
        Err(CrateOpenError::FileNotFound)
    } else {
        let e = entries[0];
        let rest = entries.drop_first();
        if entry_skipped(e.name@) {
            resolve_entries(name, rest)
        } else {
            match e.node {
                IndexNode::Dir(sub) => match resolve_entries(name, sub.entries@) {
                    Ok(c) => Ok(c),
                    Err(_) => resolve_entries(name, rest),
                },
                IndexNode::Leaf(lines) => {
                    if e.name@ == name {
                        lines_result(lines.deep_view())
                    } else {
                        resolve_entries(name, rest)
                    }
                },
            }
        }
    }
}

proof fn lemma_lines_result(lines: Seq<Seq<char>>)
    ensures
        lines_result(lines) is Ok <==> (forall|i: int| 0 <= i < lines.len() ==> line_ok(lines[i])),
        lines_result(lines) matches Ok(p) ==> {
            &&& p.1.len() == lines.len()
            &&& (forall|i: int|
                0 <= i < lines.len() ==> p.1[i] == line_vers(lines[lines.len() - 1 - i]))
            &&& p.0 == (if lines.len() == 0 {
                Seq::<char>::empty()
            } else {
                line_name(lines[lines.len() - 1])
            })
        },
        lines_result(lines) matches Err(e) ==> exists|i: int|
            {
                &&& 0 <= i < lines.len()
                &&& !line_ok(#[trigger] lines[i])
                &&& (forall|j: int| 0 <= j < i ==> line_ok(lines[j]))
                &&& e == line_error(lines[i])
            },
    decreases lines.len(),
{
    if lines.len() == 0 {
    } else if !line_ok(lines[0]) {
    } else {
        let rest = lines.drop_first();
        lemma_lines_result(rest);
        assert(forall|i: int| 0 <= i < rest.len() ==> rest[i] == lines[i + 1]);
        assert(forall|j: int| 1 <= j < lines.len() ==> lines[j] == rest[j - 1]);
        let rr = lines_result(rest);
        if rr is Err {
            let e = rr->Err_0;
            let i = choose|i: int|
                {
                    &&& 0 <= i < rest.len()
                    &&& !line_ok(#[trigger] rest[i])
                    &&& (forall|j: int| 0 <= j < i ==> line_ok(rest[j]))
                    &&& e == line_error(rest[i])
                };
            assert(!line_ok(lines[i + 1]));
            assert(forall|j: int| 0 <= j < i + 1 ==> line_ok(lines[j]));
        }
    }
}

impl Crate {
    /// Returns a new Crate
    pub fn new(name: String, versions: Vec<String>) -> (c: Crate)
        ensures
            c.name == name,
            c.versions == versions,
    {
        Crate { name, versions }
    }

    /// Resolves a crate from the lines of one index file: every line must
    /// parse, the versions are accumulated in file order and then reversed
    /// so that position 0 is the newest, and the name is the last line's.
    /// The first failing line decides the error.
    pub fn from_index_lines(lines: &Vec<String>) -> (r: Result<Crate, CrateOpenError>)
        ensures
            r is Ok <==> (forall|i: int| 0 <= i < lines@.len() ==> line_ok(lines@[i]@)),
            r matches Ok(c) ==> {
                &&& c.versions@.len() == lines@.len()
                &&& (forall|i: int|
                    0 <= i < lines@.len() ==> c.versions@[i]@ == line_vers(
                        lines@[lines@.len() - 1 - i]@,
                    ))
                &&& c.name@ == (if lines@.len() == 0 {
                    Seq::<char>::empty()
                } else {
                    line_name(lines@[lines@.len() - 1]@)
                })
            },
            lines@.len() > 0 ==> (r matches Ok(c) ==> c.versions@[0]@ == line_vers(
                lines@[lines@.len() - 1]@,
            )),
            r matches Err(e) ==> exists|i: int|
                {
                    &&& 0 <= i < lines@.len()
                    &&& !line_ok(#[trigger] lines@[i]@)
                    &&& (forall|j: int| 0 <= j < i ==> line_ok(lines@[j]@))
                    &&& e == line_error(lines@[i]@)
                },
    {
        let mut name = String::new();
        let mut versions: Vec<String> = Vec::new();
        let n = lines.len();
        let mut i: usize = 0;
        while i < n
            invariant
                n == lines@.len(),
                i <= n,
                forall|j: int| 0 <= j < i ==> line_ok(lines@[j]@),
                versions@.len() == i,
                forall|j: int| 0 <= j < i ==> versions@[j]@ == line_vers(lines@[j]@),
                name@ == (if i == 0 {
                    Seq::<char>::empty()
                } else {
                    line_name(lines@[i - 1]@)
                }),
            decreases n - i,
        {
            match parse_index_line(lines[i].as_str()) {
                Ok(p) => {
                    name = p.0;
                    versions.push(p.1);
                },
                Err(e) => {
                    let ce = match e {
                        IndexLineError::Invalid => CrateOpenError::ParseError,
                        IndexLineError::NotObject => CrateOpenError::NotObject,
                        IndexLineError::NameNotFound => CrateOpenError::NameNotFound,
                        IndexLineError::VersNotFound => CrateOpenError::VersNotFound,
                    };
                    return Err(ce);
                },
            }
            i += 1;
        }
        let mut reversed: Vec<String> = Vec::new();
        let mut k: usize = n;
        while k > 0
            invariant
                n == lines@.len(),
                versions@.len() == n,
                forall|j: int| 0 <= j < n ==> versions@[j]@ == line_vers(lines@[j]@),
                k <= n,
                reversed@.len() == n - k,
                forall|j: int| 0 <= j < n - k ==> reversed@[j]@ == line_vers(lines@[n - 1 - j]@),
            decreases k,
        {
            k -= 1;
            reversed.push(versions[k].clone());
        }
        Ok(Crate { name, versions: reversed })
    }

    /// Create Crate from crate name and try to find it in a snapshot of
    /// the mirrored index tree, depth first and in entry order, to load
    /// its versions; entries under the version-control-metadata name and
    /// the reserved configuration file are skipped.
    pub fn from_cargo_index_path(name: &str, path: &IndexTree) -> (r: Result<
        Crate,
        CrateOpenError,
    >)
        ensures
            match resolve_entries(name@, path.entries@) {
                Ok(p) => r matches Ok(c) && c.name@ == p.0 && c.versions.deep_view() == p.1,
                Err(e) => r matches Err(e2) && e2 == e,
            },
        decreases *path,
    {
        let n = path.entries.len();
        proof {
            assert(path.entries@.skip(0) =~= path.entries@);
        }
        let mut i: usize = 0;
        while i < n
            invariant
                n == path.entries@.len(),
                i <= n,
                resolve_entries(name@, path.entries@) == resolve_entries(
                    name@,
                    path.entries@.skip(i as int),
                ),
            decreases n - i,
        {
            proof {
                assert(path.entries@.skip(i as int)[0] == path.entries@[i as int]);
                assert(path.entries@.skip(i as int).drop_first() =~= path.entries@.skip(
                    i as int + 1,
                ));
            }
            let entry = &path.entries[i];
            // skip files under .git and config.json
            if str_contains(entry.name.as_str(), ".git") || str_eq(
                entry.name.as_str(),
                "config.json",
            ) {
                i += 1;
                continue ;
            }
            match &entry.node {
                IndexNode::Dir(sub) => {
                    proof {
                        assert(decreases_to!(*path => path.entries));
                        assert(decreases_to!(path.entries => path.entries@[i as int]));
                        assert(decreases_to!(path.entries@[i as int] => *sub));
                    }
                    match Self::from_cargo_index_path(name, sub) {
                        Ok(c) => {
                            return Ok(c);
                        },
                        Err(_) => {},
                    }
                },
                IndexNode::Leaf(lines) => {
                    if str_eq(entry.name.as_str(), name) {
                        let res = Self::from_index_lines(lines);
                        proof {
                            let dv = lines.deep_view();
                            assert(forall|x: int| 0 <= x < lines@.len() ==> dv[x] == lines@[x]@);
                            lemma_lines_result(dv);
                            let lr = lines_result(dv);
                            match &res {
                                Ok(c) => {
                                    assert(forall|x: int| 0 <= x < dv.len() ==> line_ok(dv[x]));
                                    assert(lr is Ok);
                                    assert(forall|x: int|
                                        0 <= x < c.versions@.len() ==> c.versions.deep_view()[x]
                                            == c.versions@[x]@);
                                    assert(c.versions.deep_view() =~= lr->Ok_0.1);
                                },
                                Err(e) => {
                                    let i = choose|i: int|
                                        {
                                            &&& 0 <= i < lines@.len()
                                            &&& !line_ok(#[trigger] lines@[i]@)
                                            &&& (forall|j: int| 0 <= j < i ==> line_ok(lines@[j]@))
                                            &&& *e == line_error(lines@[i]@)
                                        };
                                    assert(!line_ok(dv[i]));
                                    assert(lr is Err);
                                    let i2 = choose|i2: int|
                                        {
                                            &&& 0 <= i2 < dv.len()
                                            &&& !line_ok(#[trigger] dv[i2])
                                            &&& (forall|j: int| 0 <= j < i2 ==> line_ok(dv[j]))
                                            &&& lr->Err_0 == line_error(dv[i2])
                                        };
                                    assert(i == i2) by {
                                        if i < i2 {
                                            assert(line_ok(dv[i]));
                                        }
                                        if i2 < i {
                                            assert(line_ok(lines@[i2]@));
                                        }
                                    }
                                    assert(*e == lr->Err_0);
                                },
                            }
                        }
                        return res;
                    }
                },
            }
            i += 1;
        }
        Err(CrateOpenError::FileNotFound)
    }

    /// Returns index of requested_version: the position of the first exact
    /// match, or none when the version is absent from the resolved list.
    pub fn get_version_index(&self, requested_version: &str) -> (r: Option<usize>)
        ensures
            is_first_match(
                self.versions.deep_view(),
                requested_version@,
                match r {
                    Some(i) => Some(i as int),
                    None => None,
                },
            ),
    {
        let n = self.versions.len();
        let mut i: usize = 0;
        while i < n
            invariant
                n == self.versions@.len(),
                i <= n,
                forall|j: int| 0 <= j < i ==> self.versions.deep_view()[j] != requested_version@,
            decreases n - i,
        {
            if str_eq(self.versions[i].as_str(), requested_version) {
                assert(self.versions.deep_view()[i as int] == self.versions@[i as int]@);
                return Some(i);
            }
            assert(self.versions.deep_view()[i as int] == self.versions@[i as int]@);
            i += 1;
        }
        None
    }

    /// Returns index of the first version that starts with the requested
    /// prefix; `"*"` always maps to index 0, the latest version.
    pub fn version_starts_with(&self, version: &str) -> (r: Option<usize>)
        ensures
            version@ == "*"@ ==> r == Some(0usize),
            version@ != "*"@ ==> is_first_prefix_match(
                self.versions.deep_view(),
                version@,
                match r {
                    Some(i) => Some(i as int),
                    None => None,
                },
            ),
    {
        proof {
            reveal_strlit("*");
        }
        // if version is "*" return latest version index which is 0
        if str_eq(version, "*") {
            return Some(0);
        }
        let n = self.versions.len();
        let mut i: usize = 0;
        while i < n
            invariant
                version@ != "*"@,
                n == self.versions@.len(),
                i <= n,
                forall|j: int|
                    0 <= j < i ==> !starts_with_spec(self.versions.deep_view()[j], version@),
            decreases n - i,
        {
            if str_starts_with(self.versions[i].as_str(), version) {
                assert(self.versions.deep_view()[i as int] == self.versions@[i as int]@);
                return Some(i);
            }
            assert(self.versions.deep_view()[i as int] == self.versions@[i as int]@);
            i += 1;
        }
        None
    }

    /// Returns canonical name of crate, i.e: "rand-0.1.13"
    pub fn canonical_name(&self, version_index: usize) -> (r: String)
        requires
            version_index < self.versions@.len(),
        ensures
            r@ == canonical_name_spec(self.name@, self.versions@[version_index as int]@),
    {
        let mut r = self.name.clone();
        r.append("-");
        r.append(self.versions[version_index].as_str());
        proof {
            reveal_strlit("-");
            assert("-"@ =~= seq!['-']);
            assert(r@ =~= canonical_name_spec(
                self.name@,
                self.versions@[version_index as int]@,
            ));
        }
        r
    }

    /// The archive file name `{name}-{version}.crate` used in the working
    /// directory.
    pub fn crate_file_name(&self, version_index: usize) -> (r: String)
        requires
            version_index < self.versions@.len(),
        ensures
            r@ == canonical_name_spec(self.name@, self.versions@[version_index as int]@)
                + ".crate"@,
    {
        let mut r = self.canonical_name(version_index);
        r.append(".crate");
        r
    }

    /// The artifact-store URL the versioned archive is fetched from.
    pub fn download_url(&self, version_index: usize) -> (r: String)
        requires
            version_index < self.versions@.len(),
        ensures
            r@ == "https://crates-io.s3-us-west-1.amazonaws.com/crates/"@ + self.name@ + "/"@
                + canonical_name_spec(self.name@, self.versions@[version_index as int]@)
                + ".crate"@,
    {
        let mut r = String::from_str("https://crates-io.s3-us-west-1.amazonaws.com/crates/");
        r.append(self.name.as_str());
        r.append("/");
        let tail = self.crate_file_name(version_index);
        r.append(tail.as_str());
        r
    }
}

} // verus!
