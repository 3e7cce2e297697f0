//! The metadata ingestor: reconciling one (package, version)'s complete
//! metadata into the relational store model, idempotently for fixed
//! external inputs.

use crate::crte::{Crate, CrateOpenError};
use crate::db::{contains_version, has_pair, release_matches, Database, ReleaseData, MAX_ROW_ID};
use crate::manifest::CrateInfo;
use crate::text::{str_eq, str_trim, trim_spec};
use rustc_serialize::json::Json;
use vstd::prelude::*;
use vstd::string::StrSliceExecFns;

verus! {

/// One element of the registry's `versions` array, reduced to the plain
/// fields the ingestor reads; a field is `None` when the element lacks it
/// or is not even an object.
#[derive(Debug, Clone)]
pub struct RegistryVersion {
    pub num: Option<String>,
    pub created_at: Option<String>,
    pub yanked: Option<bool>,
    pub downloads: Option<i64>,
}

/// One element of the registry's owners list; absent fields default to the
/// empty string.
#[derive(Debug, Clone)]
pub struct RegistryOwner {
    pub login: String,
    pub avatar: String,
    pub name: String,
    pub email: String,
}

/// The view of an optional string.
pub open spec fn opt_view(o: Option<String>) -> Option<Seq<char>> {
    match o {
        Some(s) => Some(s@),
        None => None,
    }
}

/// The plain view of a parsed registry version element.
pub open spec fn registry_version_view(v: RegistryVersion) -> (
    Option<Seq<char>>,
    Option<Seq<char>>,
    Option<bool>,
    Option<i64>,
) {
    (opt_view(v.num), opt_view(v.created_at), v.yanked, v.downloads)
}

/// The plain view of a parsed registry versions list.
pub open spec fn registry_versions_view(v: Seq<RegistryVersion>) -> Seq<
    (Option<Seq<char>>, Option<Seq<char>>, Option<bool>, Option<i64>),
> {
    Seq::new(v.len(), |i: int| registry_version_view(v[i]))
}

/// The plain view of a parsed registry owner element.
pub open spec fn registry_owner_view(o: RegistryOwner) -> (
    Seq<char>,
    Seq<char>,
    Seq<char>,
    Seq<char>,
) {
    (o.login@, o.avatar@, o.name@, o.email@)
}

/// The plain view of a parsed owners list.
pub open spec fn registry_owners_view(v: Seq<RegistryOwner>) -> Seq<
    (Seq<char>, Seq<char>, Seq<char>, Seq<char>),
> {
    Seq::new(v.len(), |i: int| registry_owner_view(v[i]))
}

/// The slug that the slug crate derives from a display string.
pub uninterp spec fn slug_of(s: Seq<char>) -> Seq<char>;

/// Relies on slug's `slugify`: the normalized, URL-safe slug depends on
/// the characters alone.
#[verifier::external_body]
pub(crate) fn make_slug(s: &str) -> (r: String)
    ensures
        r@ == slug_of(s@),
{
    slug::slugify(s)
}

/// The epoch seconds that the registry's timestamp format parses to, or
/// none when the string does not match it.
pub uninterp spec fn release_time_of(s: Seq<char>) -> Option<i64>;

/// Relies on time's `strptime` with the registry timestamp format and on
/// `Tm::to_timespec`: the parsed epoch seconds depend on the characters
/// alone.
#[verifier::external_body]
fn parse_release_time(s: &str) -> (r: Option<i64>)
    ensures
        r == release_time_of(s@),
{
    match time::strptime(s, "%Y-%m-%dT%H:%M:%S") {
        Ok(tm) => Some(tm.to_timespec().sec),
        Err(_) => None,
    }
}

/// The JSON text that encoding a list of strings yields, or none when the
/// encoder fails.
pub uninterp spec fn json_of_strings(v: Seq<Seq<char>>) -> Option<Seq<char>>;

/// Relies on rustc-serialize's `encode` for a vector of strings: the JSON
/// text depends on the values alone.
#[verifier::external_body]
fn encode_strings(v: &Vec<String>) -> (r: Option<String>)
    ensures
        match r {
            Some(s) => json_of_strings(v.deep_view()) == Some(s@),
            None => json_of_strings(v.deep_view()) is None,
        },
{
    rustc_serialize::json::encode(v).ok()
}

/// The view of a list of string pairs.
pub open spec fn pairs_view(v: Seq<(String, String)>) -> Seq<(Seq<char>, Seq<char>)> {
    Seq::new(v.len(), |i: int| (v[i].0@, v[i].1@))
}

/// The JSON text that encoding a list of string pairs yields, or none when
/// the encoder fails.
pub uninterp spec fn json_of_pairs(v: Seq<(Seq<char>, Seq<char>)>) -> Option<Seq<char>>;

/// Relies on rustc-serialize's `encode` for a vector of string pairs: the
/// JSON text depends on the values alone.
#[verifier::external_body]
fn encode_pairs(v: &Vec<(String, String)>) -> (r: Option<String>)
    ensures
        match r {
            Some(s) => json_of_pairs(pairs_view(v@)) == Some(s@),
            None => json_of_pairs(pairs_view(v@)) is None,
        },
{
    rustc_serialize::json::encode(v).ok()
}

/// What the registry's versions body parses to: the `versions` array
/// reduced element by element to plain values, or none when the body is
/// not JSON or has no such array.
pub uninterp spec fn registry_versions_of(s: Seq<char>) -> Option<
    Seq<(Option<Seq<char>>, Option<Seq<char>>, Option<bool>, Option<i64>)>,
>;

/// Relies on rustc-serialize's `Json::from_str` and JSON navigation: the
/// `versions` array of the body, element by element; which elements are
/// objects and which fields they carry depend on the body alone.
#[verifier::external_body]
fn parse_registry_versions(body: &str) -> (r: Option<Vec<RegistryVersion>>)
    ensures
        match r {
            Some(v) => registry_versions_of(body@) == Some(registry_versions_view(v@)),
            None => registry_versions_of(body@) is None,
        },
{
    let json = Json::from_str(body).ok()?;
    let arr = json.as_object()?.get("versions")?.as_array()?;
    Some(arr.iter().map(|v| {
        let g = |k: &str| v.as_object().and_then(|o| o.get(k));
        RegistryVersion {
            num: g("num").and_then(|x| x.as_string()).map(str::to_owned),
            created_at: g("created_at").and_then(|x| x.as_string()).map(str::to_owned),
            yanked: g("yanked").and_then(|x| x.as_boolean()),
            downloads: g("downloads").and_then(|x| x.as_i64()),
        }
    }).collect())
}

/// What the registry's owners body parses to: none when the body is not
/// JSON at all; otherwise the `users` array reduced to plain values, or an
/// inner none when the body has no such array.
pub uninterp spec fn registry_owners_of(s: Seq<char>) -> Option<
    Option<Seq<(Seq<char>, Seq<char>, Seq<char>, Seq<char>)>>,
>;

/// Relies on rustc-serialize's `Json::from_str` and JSON navigation: the
/// `users` array of the body with each field defaulted to the empty
/// string, both depending on the body alone.
#[verifier::external_body]
fn parse_registry_owners(body: &str) -> (r: Option<Option<Vec<RegistryOwner>>>)
    ensures
        match r {
            Some(Some(v)) => registry_owners_of(body@) == Some(
                Some(registry_owners_view(v@)),
            ),
            Some(None) => registry_owners_of(body@) == Some(
                None::<Seq<(Seq<char>, Seq<char>, Seq<char>, Seq<char>)>>,
            ),
            None => registry_owners_of(body@) is None,
        },
{
    let json = Json::from_str(body).ok()?;
    let arr = match json.as_object().and_then(|j| j.get("users")).and_then(|j| j.as_array()) {
        Some(a) => a,
        None => return Some(None),
    };
    Some(Some(arr.iter().map(|o| {
        let g = |k: &str| {
            o.as_object().and_then(|x| x.get(k)).and_then(|x| x.as_string()).unwrap_or("").to_owned()
        };
        RegistryOwner { login: g("login"), avatar: g("avatar"), name: g("name"), email: g("email") }
    }).collect()))
}

/// The length of the longest prefix of `s` free of angle brackets.
pub open spec fn plain_prefix_len(s: Seq<char>) -> int
    decreases s.len(),
{
    if s.len() == 0 || s[0] == '<' || s[0] == '>' {
        0
    } else {
        1 + plain_prefix_len(s.drop_first())
    }
}

/// The length of the run of `<` characters at the front of `s`.
pub open spec fn lt_run_len(s: Seq<char>) -> int
    decreases s.len(),
{
    if s.len() == 0 || s[0] != '<' {
        0
    } else {
        1 + lt_run_len(s.drop_first())
    }
}

/// The length of the run of `>` characters at the back of `s`.
pub open spec fn gt_suffix_len(s: Seq<char>) -> int
    decreases s.len(),
{
    if s.len() == 0 || s.last() != '>' {
        0
    } else {
        1 + gt_suffix_len(s.drop_last())
    }
}

/// How an author string splits into a display name and an email: the name
/// is the longest leading run free of angle brackets, then a run of `<` is
/// skipped, and the email reaches up to the trailing run of `>`; both
/// parts are trimmed of whitespace. A string that is empty or opens with
/// an angle bracket does not parse and is skipped by the ingestor.
pub open spec fn author_parse(s: Seq<char>) -> Option<(Seq<char>, Seq<char>)> {
    if s.len() == 0 || s[0] == '<' || s[0] == '>' {
        None
    } else {
        let n = plain_prefix_len(s);
        let j = n + lt_run_len(s.skip(n));
        let m = s.len() - gt_suffix_len(s.skip(j));
        Some((trim_spec(s.subrange(0, n)), trim_spec(s.subrange(j, m))))
    }
}

proof fn lemma_plain_prefix(s: Seq<char>, n: int)
    requires
        0 <= n <= s.len(),
        forall|j: int| 0 <= j < n ==> s[j] != '<' && s[j] != '>',
        n < s.len() ==> s[n] == '<' || s[n] == '>',
    ensures
        plain_prefix_len(s) == n,
    decreases n,
{
    if n == 0 {
    } else {
        let t = s.drop_first();
        assert(forall|j: int| 0 <= j < n - 1 ==> t[j] == s[j + 1]);
        lemma_plain_prefix(t, n - 1);
    }
}

proof fn lemma_lt_run(s: Seq<char>, n: int)
    requires
        0 <= n <= s.len(),
        forall|j: int| 0 <= j < n ==> s[j] == '<',
        n < s.len() ==> s[n] != '<',
    ensures
        lt_run_len(s) == n,
    decreases n,
{
    if n == 0 {
    } else {
        let t = s.drop_first();
        assert(forall|j: int| 0 <= j < n - 1 ==> t[j] == s[j + 1]);
        lemma_lt_run(t, n - 1);
    }
}

proof fn lemma_gt_suffix(s: Seq<char>, n: int)
    requires
        0 <= n <= s.len(),
        forall|j: int| s.len() - n <= j < s.len() ==> s[j] == '>',
        n < s.len() ==> s[s.len() - n - 1] != '>',
    ensures
        gt_suffix_len(s) == n,
    decreases n,
{
    if n == 0 {
    } else {
        let t = s.drop_last();
        lemma_gt_suffix(t, n - 1);
    }
}

/// Parse one author string with the permissive `"Name <email>"` pattern:
/// the trimmed name and the trimmed, possibly empty email, or nothing for
/// a string that does not open with a name.
pub fn parse_author(s: &str) -> (r: Option<(String, String)>)
    ensures
        match r {
            Some(p) => author_parse(s@) == Some((p.0@, p.1@)),
            None => author_parse(s@) is None,
        },
{
    let len = s.unicode_len();
    if len == 0 {
        return None;
    }
    let c0 = s.get_char(0);
    if c0 == '<' || c0 == '>' {
        return None;
    }
    let mut n: usize = 0;
    while n < len && s.get_char(n) != '<' && s.get_char(n) != '>'
        invariant
            len == s@.len(),
            n <= len,
            forall|j: int| 0 <= j < n ==> s@[j] != '<' && s@[j] != '>',
        decreases len - n,
    {
        n += 1;
    }
    let mut j: usize = n;
    while j < len && s.get_char(j) == '<'
        invariant
            len == s@.len(),
            n <= j <= len,
            forall|k: int| n <= k < j ==> s@[k] == '<',
        decreases len - j,
    {
        j += 1;
    }
    let mut m: usize = len;
    while m > j && s.get_char(m - 1) == '>'
        invariant
            len == s@.len(),
            j <= m <= len,
            forall|k: int| m <= k < len ==> s@[k] == '>',
        decreases m,
    {
        m -= 1;
    }
    let name_raw = s.substring_char(0, n);
    let email_raw = s.substring_char(j, m);
    let name = str_trim(name_raw);
    let email = str_trim(email_raw);
    proof {
        lemma_plain_prefix(s@, n as int);
        let rest = s@.skip(n as int);
        assert(forall|k: int| 0 <= k < j - n ==> rest[k] == s@[k + n]);
        lemma_lt_run(rest, j - n);
        let tail = s@.skip(j as int);
        assert(forall|k: int| 0 <= k < tail.len() ==> tail[k] == s@[k + j]);
        if m == j {
            lemma_gt_suffix(tail, tail.len() as int);
        } else {
            lemma_gt_suffix(tail, len - m);
        }
        assert(s@.subrange(0, n as int) =~= name_raw@);
        assert(s@.subrange(j as int, m as int) =~= email_raw@);
    }
    Some((name, email))
}

/// The outcome of scanning the registry's versions array for one exact
/// version string.
pub enum VersionScan {
    /// An element inspected before or at the match was not an object or
    /// lacked a required field.
    Bad,
    /// The matching element's release time, yanked flag and downloads.
    Found(Option<i64>, bool, i64),
    /// No element matches: the release fields stay unset.
    NotFound,
}

/// Scanning the versions array in order: the first element whose `num`
/// equals `version` decides, and a malformed element inspected on the way
/// stops the scan.
pub open spec fn scan_versions(
    vs: Seq<(Option<Seq<char>>, Option<Seq<char>>, Option<bool>, Option<i64>)>,
    version: Seq<char>,
) -> VersionScan
    decreases vs.len(),
{
    if vs.len() == 0 {
        VersionScan::NotFound
    } else {
        let e = vs[0];
        if e.0 is None {
            VersionScan::Bad
        } else if e.0->0 == version {
            if e.1 is None || e.2 is None || e.3 is None {
                VersionScan::Bad
            } else {
                VersionScan::Found(release_time_of(e.1->0), e.2->0, e.3->0)
            }
        } else {
            scan_versions(vs.drop_first(), version)
        }
    }
}

/// The tri-state build classification as a function of the two pieces of
/// filesystem evidence.
pub open spec fn build_status_spec(log_exists: bool, doc_dir_exists: bool) -> int {
    if log_exists && doc_dir_exists {
        1
    } else if log_exists {
        -1
    } else {
        0
    }
}

/// Classifies a build attempt from filesystem evidence: `1` when both the
/// build log and the documentation output directory exist, `-1` when only
/// the log exists, and `0` when there is no log at all — independent of
/// any captured exit code.
pub fn compute_build_status(log_exists: bool, doc_dir_exists: bool) -> (r: i32)
    ensures
        r as int == build_status_spec(log_exists, doc_dir_exists),
        log_exists && doc_dir_exists ==> r == 1,
        log_exists && !doc_dir_exists ==> r == -1,
        !log_exists ==> r == 0,
{
    if log_exists && doc_dir_exists {
        1
    } else if log_exists {
        -1
    } else {
        0
    }
}

proof fn lemma_scan_skip(
    vs: Seq<(Option<Seq<char>>, Option<Seq<char>>, Option<bool>, Option<i64>)>,
    version: Seq<char>,
    i: int,
)
    requires
        0 <= i < vs.len(),
        scan_versions(vs, version) == scan_versions(vs.skip(i), version),
        vs[i].0 is Some,
        vs[i].0->0 != version,
    ensures
        scan_versions(vs, version) == scan_versions(vs.skip(i + 1), version),
{
    assert(vs.skip(i)[0] == vs[i]);
    assert(vs.skip(i).drop_first() =~= vs.skip(i + 1));
}

/// Match the resolved version string against the registry's versions
/// array, in order: the first matching element's release time, yanked
/// flag and downloads, unset fields when nothing matches, and a shape
/// error when a malformed element is inspected on the way.
pub fn registry_release_info(vlist: &Vec<RegistryVersion>, version: &str) -> (r: Result<
    (Option<i64>, Option<bool>, Option<i64>),
    CrateOpenError,
>)
    ensures
        match scan_versions(registry_versions_view(vlist@), version@) {
            VersionScan::Bad => r == Err::<(Option<i64>, Option<bool>, Option<i64>), CrateOpenError>(
                CrateOpenError::NotObject,
            ),
            VersionScan::Found(t, y, d) => r == Ok::<
                (Option<i64>, Option<bool>, Option<i64>),
                CrateOpenError,
            >((t, Some(y), Some(d))),
            VersionScan::NotFound => r == Ok::<
                (Option<i64>, Option<bool>, Option<i64>),
                CrateOpenError,
            >((None, None, None)),
        },
{
    let ghost whole = registry_versions_view(vlist@);
    proof {
        assert(whole.skip(0) =~= whole);
    }
    let n = vlist.len();
    let mut i: usize = 0;
    while i < n
        invariant
            whole == registry_versions_view(vlist@),
            n == vlist@.len(),
            whole.len() == n,
            i <= n,
            scan_versions(whole, version@) == scan_versions(whole.skip(i as int), version@),
        decreases n - i,
    {
        proof {
            assert(whole[i as int] == registry_version_view(vlist@[i as int]));
            assert(whole.skip(i as int)[0] == whole[i as int]);
        }
        let matched: bool = match &vlist[i].num {
            Some(num) => str_eq(num.as_str(), version),
            None => {
                return Err(CrateOpenError::NotObject);
            },
        };
        if matched {
            let created = match &vlist[i].created_at {
                Some(c) => c,
                None => {
                    return Err(CrateOpenError::NotObject);
                },
            };
            let yk = match vlist[i].yanked {
                Some(y) => y,
                None => {
                    return Err(CrateOpenError::NotObject);
                },
            };
            let dl = match vlist[i].downloads {
                Some(d) => d,
                None => {
                    return Err(CrateOpenError::NotObject);
                },
            };
            let rt = parse_release_time(created.as_str());
            return Ok((rt, Some(yk), Some(dl)));
        }
        proof {
            lemma_scan_skip(whole, version@, i as int);
        }
        i += 1;
    }
    proof {
        assert(whole.skip(n as int).len() == 0);
    }
    Ok((None, None, None))
}

/// Everything one ingest reads besides the store itself: the manifest
/// snapshot, whether the source tree has an examples directory, the two
/// registry response bodies, and the filesystem evidence of the build.
#[derive(Debug, Clone)]
pub struct IngestInput {
    pub crate_info: CrateInfo,
    pub have_examples: bool,
    /// The body answered for the registry's versions query.
    pub versions_body: String,
    /// The body answered for the registry's owners query.
    pub owners_body: String,
    pub build_log_exists: bool,
    pub doc_dir_exists: bool,
    pub target_doc_exists: bool,
}

/// How many owners one ingest would upsert: the parsed list's length, or
/// zero when the owners body has no usable list.
pub open spec fn owners_count(body: Seq<char>) -> int {
    match registry_owners_of(body) {
        Some(Some(l)) => l.len() as int,
        _ => 0,
    }
}

/// Whether the store has id room for every row one ingest can insert.
pub open spec fn ingest_headroom(db: Database, input: IngestInput) -> bool {
    db.next_id + 2 + input.crate_info.metadata.keywords@.len()
        + input.crate_info.metadata.authors@.len() + owners_count(input.owners_body@)
        <= MAX_ROW_ID
}

/// The error one ingest surfaces for given inputs, or none when it is
/// owed success: no id room is a store error; a failing structured-field
/// encoding is an encoding error; a versions body without a usable array,
/// or a malformed element inspected while matching, is a shape error; an
/// owners body that is not JSON is a parse error.
pub open spec fn ingest_outcome(
    db: Database,
    idx_version: Seq<char>,
    input: IngestInput,
) -> Option<CrateOpenError> {
    if !ingest_headroom(db, input) {
        Some(CrateOpenError::DbError)
    } else if json_of_pairs(pairs_view(input.crate_info.dependencies@)) is None || json_of_strings(
        input.crate_info.metadata.authors.deep_view(),
    ) is None || json_of_strings(input.crate_info.metadata.keywords.deep_view()) is None {
        Some(CrateOpenError::EncoderError)
    } else if registry_versions_of(input.versions_body@) is None {
        Some(CrateOpenError::NotObject)
    } else if scan_versions(registry_versions_of(input.versions_body@)->0, idx_version)
        is Bad {
        Some(CrateOpenError::NotObject)
    } else if registry_owners_of(input.owners_body@) is None {
        Some(CrateOpenError::ParseError)
    } else {
        None
    }
}

/// Some crate row carries this name under this id.
pub open spec fn crate_has_id(crates: Seq<crate::db::CrateRow>, name: Seq<char>, id: i32) -> bool {
    exists|k: int|
        0 <= k < crates.len() && (#[trigger] crates[k]).name@ == name && crates[k].id == id
}

/// Some release row matches this upserted release.
pub open spec fn release_present(
    releases: Seq<crate::db::ReleaseRow>,
    cid: i32,
    rid: i32,
    d: ReleaseData,
) -> bool {
    exists|w: int|
        0 <= w < releases.len() && release_matches(#[trigger] releases[w], cid, rid, d)
}

/// A keyword's row and its (release, keyword) relationship are present.
pub open spec fn keyword_recorded(
    kws: Seq<crate::db::KeywordRow>,
    rels: Seq<(i32, i32)>,
    rid: i32,
    kw: Seq<char>,
) -> bool {
    exists|w: int|
        0 <= w < kws.len() && (#[trigger] kws[w]).slug@ == slug_of(kw) && has_pair(
            rels,
            rid,
            kws[w].id,
        )
}

/// A parseable author's row and its (release, author) relationship are
/// present; an author string that does not parse asks for nothing.
pub open spec fn author_recorded(
    aus: Seq<crate::db::AuthorRow>,
    rels: Seq<(i32, i32)>,
    rid: i32,
    author: Seq<char>,
) -> bool {
    match author_parse(author) {
        Some(p) => exists|w: int|
            0 <= w < aus.len() && (#[trigger] aus[w]).slug@ == slug_of(p.0) && has_pair(
                rels,
                rid,
                aus[w].id,
            ),
        None => true,
    }
}

/// The pair's owner id is backed by an owner row with a non-empty login.
pub open spec fn pair_backed_by_owner(ows: Seq<crate::db::OwnerRow>, oid: i32) -> bool {
    exists|w: int|
        0 <= w < ows.len() && (#[trigger] ows[w]).id == oid && ows[w].login@.len() > 0
}

/// An owner's row and its (crate, owner) relationship are present.
pub open spec fn owner_recorded(
    ows: Seq<crate::db::OwnerRow>,
    rels: Seq<(i32, i32)>,
    cid: i32,
    login: Seq<char>,
) -> bool {
    exists|w: int|
        0 <= w < ows.len() && (#[trigger] ows[w]).login@ == login && has_pair(
            rels,
            cid,
            ows[w].id,
        )
}

/// What the store holds after a successful ingest: one crate row under
/// the package's name whose version list carries the resolved version,
/// one release row keyed by the manifest's version carrying exactly the
/// computed fields, and a row plus relationship for every keyword, every
/// parseable author and every owner with a non-empty login.
pub open spec fn ingest_ok_post(
    db: Database,
    name: Seq<char>,
    idx_version: Seq<char>,
    input: IngestInput,
) -> bool {
    let info = input.crate_info;
    let scan = scan_versions(registry_versions_of(input.versions_body@)->0, idx_version);
    exists|k: int, r: int|
        {
            &&& 0 <= k < db.crates@.len()
            &&& (#[trigger] db.crates@[k]).name@ == name
            &&& contains_version(db.crates@[k].versions.deep_view(), idx_version)
            &&& 0 <= r < db.releases@.len()
            &&& (#[trigger] db.releases@[r]).crate_id == db.crates@[k].id
            &&& db.releases@[r].version@ == info.version@
            &&& db.releases@[r].release_time == (match scan {
                VersionScan::Found(t, y, d) => t,
                _ => None::<i64>,
            })
            &&& db.releases@[r].yanked == (match scan {
                VersionScan::Found(t, y, d) => Some(y),
                _ => None::<bool>,
            })
            &&& db.releases@[r].downloads == (match scan {
                VersionScan::Found(t, y, d) => Some(d),
                _ => None::<i64>,
            })
            &&& db.releases@[r].build_status as int == build_status_spec(
                input.build_log_exists,
                input.doc_dir_exists,
            )
            &&& db.releases@[r].rustdoc_status == (if input.target_doc_exists {
                1int
            } else {
                0int
            })
            &&& db.releases@[r].test_status == 0
            &&& db.releases@[r].dependencies@ == json_of_pairs(pairs_view(info.dependencies@))->0
            &&& db.releases@[r].authors@ == json_of_strings(info.metadata.authors.deep_view())->0
            &&& db.releases@[r].keywords@ == json_of_strings(info.metadata.keywords.deep_view())->0
            &&& db.releases@[r].license == info.metadata.license
            &&& db.releases@[r].repository_url == info.metadata.repository
            &&& db.releases@[r].homepage_url == info.metadata.homepage
            &&& db.releases@[r].description == info.metadata.description
            &&& db.releases@[r].description_long == info.rustdoc
            &&& db.releases@[r].readme == info.readme
            &&& db.releases@[r].have_examples == input.have_examples
            &&& (forall|q: int|
                0 <= q < info.metadata.keywords@.len() ==> keyword_recorded(
                    db.keywords@,
                    db.keyword_rels@,
                    db.releases@[r].id,
                    info.metadata.keywords@[q]@,
                ))
            &&& (forall|q: int|
                0 <= q < info.metadata.authors@.len() ==> author_recorded(
                    db.authors@,
                    db.author_rels@,
                    db.releases@[r].id,
                    info.metadata.authors@[q]@,
                ))
            &&& (match registry_owners_of(input.owners_body@) {
                Some(Some(ows)) => forall|q: int|
                    0 <= q < ows.len() && (#[trigger] ows[q]).0.len() > 0 ==> owner_recorded(
                        db.owners@,
                        db.owner_rels@,
                        db.crates@[k].id,
                        ows[q].0,
                    ),
                _ => true,
            })
        }
}

/// What a successful ingest preserves of the store it found: existing
/// crate rows keep their position, id and name, and only the ingested
/// package's row gains the resolved version, appended exactly when it was
/// absent; existing release rows keep their position, id and (crate,
/// version) key, and only the row keyed by the ingested version changes,
/// so the release upsert updates in place and never re-inserts; the
/// author, keyword, owner and relationship tables only grow, existing
/// rows untouched; and every added owner row carries a non-empty login
/// and every added (crate, owner) relationship points at such a row, so
/// an owner with an empty login leaves no row and no relationship.
pub open spec fn ingest_frame(
    old_db: Database,
    db: Database,
    name: Seq<char>,
    idx_version: Seq<char>,
    release_version: Seq<char>,
) -> bool {
    &&& old_db.crates@.len() <= db.crates@.len() <= old_db.crates@.len() + 1
    &&& (old_db.has_crate_named(name) ==> db.crates@.len() == old_db.crates@.len())
    &&& (forall|j: int|
        0 <= j < old_db.crates@.len() ==> {
            &&& (#[trigger] db.crates@[j]).id == old_db.crates@[j].id
            &&& db.crates@[j].name == old_db.crates@[j].name
            &&& (if old_db.crates@[j].name@ == name && !contains_version(
                old_db.crates@[j].versions.deep_view(),
                idx_version,
            ) {
                db.crates@[j].versions.deep_view() == old_db.crates@[j].versions.deep_view().push(
                    idx_version,
                )
            } else {
                db.crates@[j].versions == old_db.crates@[j].versions
            })
        })
    &&& (db.crates@.len() == old_db.crates@.len() + 1 ==> {
        &&& db.crates@.last().name@ == name
        &&& db.crates@.last().versions.deep_view() == Seq::<Seq<char>>::empty().push(idx_version)
    })
    &&& old_db.releases@.len() <= db.releases@.len() <= old_db.releases@.len() + 1
    &&& (forall|j: int|
        0 <= j < old_db.releases@.len() ==> {
            &&& (#[trigger] db.releases@[j]).id == old_db.releases@[j].id
            &&& db.releases@[j].crate_id == old_db.releases@[j].crate_id
            &&& db.releases@[j].version@ == old_db.releases@[j].version@
            &&& (db.releases@[j] == old_db.releases@[j] || old_db.releases@[j].version@
                == release_version)
        })
    &&& old_db.keywords@.len() <= db.keywords@.len()
    &&& (forall|j: int|
        0 <= j < old_db.keywords@.len() ==> (#[trigger] db.keywords@[j]) == old_db.keywords@[j])
    &&& old_db.authors@.len() <= db.authors@.len()
    &&& (forall|j: int|
        0 <= j < old_db.authors@.len() ==> (#[trigger] db.authors@[j]) == old_db.authors@[j])
    &&& old_db.owners@.len() <= db.owners@.len()
    &&& (forall|j: int|
        0 <= j < old_db.owners@.len() ==> (#[trigger] db.owners@[j]) == old_db.owners@[j])
    &&& (forall|j: int|
        old_db.owners@.len() <= j < db.owners@.len() ==> (#[trigger] db.owners@[j]).login@.len()
            > 0)
    &&& old_db.keyword_rels@.len() <= db.keyword_rels@.len()
    &&& (forall|j: int|
        0 <= j < old_db.keyword_rels@.len() ==> (#[trigger] db.keyword_rels@[j])
            == old_db.keyword_rels@[j])
    &&& old_db.author_rels@.len() <= db.author_rels@.len()
    &&& (forall|j: int|
        0 <= j < old_db.author_rels@.len() ==> (#[trigger] db.author_rels@[j])
            == old_db.author_rels@[j])
    &&& old_db.owner_rels@.len() <= db.owner_rels@.len()
    &&& (forall|j: int|
        0 <= j < old_db.owner_rels@.len() ==> (#[trigger] db.owner_rels@[j])
            == old_db.owner_rels@[j])
    &&& (forall|j: int|
        old_db.owner_rels@.len() <= j < db.owner_rels@.len() ==> pair_backed_by_owner(
            db.owners@,
            (#[trigger] db.owner_rels@[j]).1,
        ))
}

/// Running ingestion twice with identical external inputs yields exactly
/// one crate row under the package's name, at most one release row per
/// (crate, version) key, and no duplicate relationship rows: any store a
/// successful ingest leaves behind — in particular the second of two runs
/// — is well-formed and already holds the row, so the constraints rule a
/// duplicate out.
pub proof fn lemma_ingest_idempotent(
    db: Database,
    name: Seq<char>,
    idx_version: Seq<char>,
    input: IngestInput,
)
    requires
        db.wf(),
        ingest_ok_post(db, name, idx_version, input),
    ensures
        exists|k: int| 0 <= k < db.crates@.len() && (#[trigger] db.crates@[k]).name@ == name,
        forall|i: int, j: int|
            0 <= i < j < db.crates@.len() ==> !(db.crates@[i].name@ == name
                && db.crates@[j].name@ == name),
        forall|i: int, j: int|
            0 <= i < j < db.releases@.len() ==> !(db.releases@[i].crate_id
                == db.releases@[j].crate_id && db.releases@[i].version@
                == db.releases@[j].version@),
        crate::db::pairs_unique(db.keyword_rels@),
        crate::db::pairs_unique(db.author_rels@),
        crate::db::pairs_unique(db.owner_rels@),
{
    let (k, r) = choose|k: int, r: int|
        0 <= k < db.crates@.len() && (#[trigger] db.crates@[k]).name@ == name && 0 <= r
            < db.releases@.len() && (#[trigger] db.releases@[r]).crate_id == db.crates@[k].id;
    assert(0 <= k < db.crates@.len() && db.crates@[k].name@ == name);
}

/// Clone an optional string field.
fn clone_opt_string(o: &Option<String>) -> (r: Option<String>)
    ensures
        r == *o,
{
    match o {
        Some(s) => Some(s.clone()),
        None => None,
    }
}

impl Crate {
    /// Reconcile this (package, version)'s complete metadata into the
    /// store: upsert the crate row by unique name, the release row by
    /// (crate, version) with every computed field, a row plus relationship
    /// for each keyword, each parseable author and each owner with a
    /// non-empty login, and append the resolved version to the crate's
    /// known-version list. Idempotent for fixed external inputs: a second
    /// run leaves exactly one crate row, one release row per version, and
    /// no duplicate relationship rows, and `ingest_frame` pins that every
    /// row found is kept in place under its id, so repeated runs reuse the
    /// same ids and the release upsert updates in place.
    #[verifier::loop_isolation(false)]
    #[verifier::rlimit(100)]
    pub fn add_crate_into_database(
        &self,
        version_index: usize,
        conn: &mut Database,
        input: &IngestInput,
    ) -> (r: Result<(), CrateOpenError>)
        requires
            version_index < self.versions@.len(),
            old(conn).wf(),
        ensures
            final(conn).wf(),
            match ingest_outcome(*old(conn), self.versions@[version_index as int]@, *input) {
                Some(e) => r matches Err(e2) && e2 == e,
                None => r is Ok,
            },
            r is Ok ==> ingest_ok_post(
                *final(conn),
                self.name@,
                self.versions@[version_index as int]@,
                *input,
            ),
            r is Ok ==> ingest_frame(
                *old(conn),
                *final(conn),
                self.name@,
                self.versions@[version_index as int]@,
                input.crate_info.version@,
            ),
            (r matches Err(e) && e matches CrateOpenError::DbError) ==> *final(conn) == *old(
                conn,
            ),
            (r matches Err(e) && !(e matches CrateOpenError::DbError))
                ==> final(conn).has_crate_named(self.name@),
    {
        let ghost idx_version = self.versions@[version_index as int]@;
        let info = &input.crate_info;
        // The owners body is parsed up front: its row count bounds the id
        // room this ingest can need; a parse failure still surfaces only
        // after the best-effort keyword and author steps, as the sequence
        // says.
        let owners_result = parse_registry_owners(input.owners_body.as_str());
        let ow_n: usize = match &owners_result {
            Some(Some(l)) => l.len(),
            _ => 0,
        };
        proof {
            assert(owners_count(input.owners_body@) == ow_n as int);
        }
        let kw_n = info.metadata.keywords.len();
        let au_n = info.metadata.authors.len();
        let needed: u128 = 2u128 + kw_n as u128 + au_n as u128 + ow_n as u128;
        if (conn.next_id as u128) + needed > (MAX_ROW_ID as u128) {
            return Err(CrateOpenError::DbError);
        }
        let cid = conn.upsert_crate(self.name.as_str());
        let deps_json = match encode_pairs(&info.dependencies) {
            Some(s) => s,
            None => {
                return Err(CrateOpenError::EncoderError);
            },
        };
        let authors_json = match encode_strings(&info.metadata.authors) {
            Some(s) => s,
            None => {
                return Err(CrateOpenError::EncoderError);
            },
        };
        let keywords_json = match encode_strings(&info.metadata.keywords) {
            Some(s) => s,
            None => {
                return Err(CrateOpenError::EncoderError);
            },
        };
        let vlist = match parse_registry_versions(input.versions_body.as_str()) {
            Some(v) => v,
            None => {
                return Err(CrateOpenError::NotObject);
            },
        };
        let scanned = match registry_release_info(&vlist, self.versions[version_index].as_str()) {
            Ok(t) => t,
            Err(e) => {
                return Err(e);
            },
        };
        let build_status = compute_build_status(input.build_log_exists, input.doc_dir_exists);
        let rustdoc_status: i32 = if input.target_doc_exists {
            1
        } else {
            0
        };
        let data = ReleaseData {
            version: info.version.clone(),
            release_time: scanned.0,
            dependencies: deps_json,
            yanked: scanned.1,
            build_status,
            rustdoc_status,
            test_status: 0,
            license: clone_opt_string(&info.metadata.license),
            repository_url: clone_opt_string(&info.metadata.repository),
            homepage_url: clone_opt_string(&info.metadata.homepage),
            description: clone_opt_string(&info.metadata.description),
            description_long: clone_opt_string(&info.rustdoc),
            readme: clone_opt_string(&info.readme),
            authors: authors_json,
            keywords: keywords_json,
            have_examples: input.have_examples,
            downloads: scanned.2,
        };
        let ghost gdata = data;
        let ghost pre_rel = *conn;
        let rid = conn.upsert_release(cid, data);
        let ghost mid = *conn;
        proof {
            assert(gdata.version@ == input.crate_info.version@);
            assert(forall|j: int|
                0 <= j < old(conn).crates@.len() ==> (#[trigger] mid.crates@[j]) == old(
                    conn,
                ).crates@[j]);
            assert(old(conn).has_crate_named(self.name@) ==> mid.crates@.len() == old(
                conn,
            ).crates@.len());
            assert(mid.crates@.len() == old(conn).crates@.len() + 1 ==> {
                &&& mid.crates@.last().name@ == self.name@
                &&& mid.crates@.last().versions@.len() == 0
                &&& !old(conn).has_crate_named(self.name@)
            });
            assert(pre_rel.releases == old(conn).releases);
            assert(old(conn).releases@.len() <= mid.releases@.len() <= old(conn).releases@.len()
                + 1);
            assert forall|j: int| 0 <= j < old(conn).releases@.len() implies {
                &&& (#[trigger] mid.releases@[j]).id == old(conn).releases@[j].id
                &&& mid.releases@[j].crate_id == old(conn).releases@[j].crate_id
                &&& mid.releases@[j].version@ == old(conn).releases@[j].version@
                &&& (mid.releases@[j] == old(conn).releases@[j] || old(conn).releases@[j].version@
                    == input.crate_info.version@)
            } by {
                if pre_rel.has_release_keyed(cid, gdata.version@) {
                    let k = choose|k: int|
                        {
                            &&& 0 <= k < pre_rel.releases@.len()
                            &&& (#[trigger] pre_rel.releases@[k]).crate_id == cid
                            &&& pre_rel.releases@[k].version@ == gdata.version@
                            &&& rid == pre_rel.releases@[k].id
                            &&& (forall|j2: int|
                                0 <= j2 < pre_rel.releases@.len() && j2 != k
                                    ==> mid.releases@[j2] == pre_rel.releases@[j2])
                        };
                    if j == k {
                        let k2 = choose|k2: int|
                            0 <= k2 < mid.releases@.len() && release_matches(
                                #[trigger] mid.releases@[k2],
                                cid,
                                rid,
                                gdata,
                            );
                        if k2 != k {
                            assert(mid.releases@[k2] == pre_rel.releases@[k2]);
                            assert(pre_rel.releases@[k2].crate_id == cid
                                && pre_rel.releases@[k2].version@ == gdata.version@);
                            if k < k2 {
                                assert(!(pre_rel.releases@[k].crate_id
                                    == pre_rel.releases@[k2].crate_id
                                    && pre_rel.releases@[k].version@
                                    == pre_rel.releases@[k2].version@));
                            } else {
                                assert(!(pre_rel.releases@[k2].crate_id
                                    == pre_rel.releases@[k].crate_id
                                    && pre_rel.releases@[k2].version@
                                    == pre_rel.releases@[k].version@));
                            }
                            assert(false);
                        }
                        assert(release_matches(mid.releases@[k], cid, rid, gdata));
                    }
                }
            }
        }
        let mut q: usize = 0;
        while q < kw_n
            invariant
                q <= kw_n,
                conn.wf(),
                conn.crates == mid.crates,
                conn.releases == mid.releases,
                mid.keywords@.len() <= conn.keywords@.len(),
                forall|j: int|
                    0 <= j < mid.keywords@.len() ==> (#[trigger] conn.keywords@[j])
                        == mid.keywords@[j],
                mid.keyword_rels@.len() <= conn.keyword_rels@.len(),
                forall|j: int|
                    0 <= j < mid.keyword_rels@.len() ==> (#[trigger] conn.keyword_rels@[j])
                        == mid.keyword_rels@[j],
                mid.authors@.len() <= conn.authors@.len(),
                forall|j: int|
                    0 <= j < mid.authors@.len() ==> (#[trigger] conn.authors@[j])
                        == mid.authors@[j],
                mid.author_rels@.len() <= conn.author_rels@.len(),
                forall|j: int|
                    0 <= j < mid.author_rels@.len() ==> (#[trigger] conn.author_rels@[j])
                        == mid.author_rels@[j],
                mid.owners@.len() <= conn.owners@.len(),
                forall|j: int|
                    0 <= j < mid.owners@.len() ==> (#[trigger] conn.owners@[j]) == mid.owners@[j],
                forall|j: int|
                    mid.owners@.len() <= j < conn.owners@.len() ==> (#[trigger] conn.owners@[j]).login@.len() > 0,
                mid.owner_rels@.len() <= conn.owner_rels@.len(),
                forall|j: int|
                    0 <= j < mid.owner_rels@.len() ==> (#[trigger] conn.owner_rels@[j])
                        == mid.owner_rels@[j],
                conn.next_id as int + (kw_n - q) + au_n + ow_n <= MAX_ROW_ID,
                crate_has_id(conn.crates@, self.name@, cid),
                release_present(conn.releases@, cid, rid, gdata),
                conn.authors == mid.authors,
                conn.author_rels == mid.author_rels,
                conn.owners == mid.owners,
                conn.owner_rels == mid.owner_rels,
                forall|x: int|
                    0 <= x < q ==> keyword_recorded(
                        conn.keywords@,
                        conn.keyword_rels@,
                        rid,
                        info.metadata.keywords@[x]@,
                    ),
            decreases kw_n - q,
        {
            let kw = &info.metadata.keywords[q];
            let slug = make_slug(kw.as_str());
            let kid = conn.upsert_keyword(kw.as_str(), slug.as_str());
            conn.add_keyword_rel(rid, kid);
            q += 1;
        }
        let mut q2: usize = 0;
        while q2 < au_n
            invariant
                q2 <= au_n,
                conn.wf(),
                conn.crates == mid.crates,
                conn.releases == mid.releases,
                mid.keywords@.len() <= conn.keywords@.len(),
                forall|j: int|
                    0 <= j < mid.keywords@.len() ==> (#[trigger] conn.keywords@[j])
                        == mid.keywords@[j],
                mid.keyword_rels@.len() <= conn.keyword_rels@.len(),
                forall|j: int|
                    0 <= j < mid.keyword_rels@.len() ==> (#[trigger] conn.keyword_rels@[j])
                        == mid.keyword_rels@[j],
                mid.authors@.len() <= conn.authors@.len(),
                forall|j: int|
                    0 <= j < mid.authors@.len() ==> (#[trigger] conn.authors@[j])
                        == mid.authors@[j],
                mid.author_rels@.len() <= conn.author_rels@.len(),
                forall|j: int|
                    0 <= j < mid.author_rels@.len() ==> (#[trigger] conn.author_rels@[j])
                        == mid.author_rels@[j],
                mid.owners@.len() <= conn.owners@.len(),
                forall|j: int|
                    0 <= j < mid.owners@.len() ==> (#[trigger] conn.owners@[j]) == mid.owners@[j],
                forall|j: int|
                    mid.owners@.len() <= j < conn.owners@.len() ==> (#[trigger] conn.owners@[j]).login@.len() > 0,
                mid.owner_rels@.len() <= conn.owner_rels@.len(),
                forall|j: int|
                    0 <= j < mid.owner_rels@.len() ==> (#[trigger] conn.owner_rels@[j])
                        == mid.owner_rels@[j],
                conn.next_id as int + (au_n - q2) + ow_n <= MAX_ROW_ID,
                crate_has_id(conn.crates@, self.name@, cid),
                release_present(conn.releases@, cid, rid, gdata),
                conn.owners == mid.owners,
                conn.owner_rels == mid.owner_rels,
                forall|x: int|
                    0 <= x < kw_n ==> keyword_recorded(
                        conn.keywords@,
                        conn.keyword_rels@,
                        rid,
                        info.metadata.keywords@[x]@,
                    ),
                forall|x: int|
                    0 <= x < q2 ==> author_recorded(
                        conn.authors@,
                        conn.author_rels@,
                        rid,
                        info.metadata.authors@[x]@,
                    ),
            decreases au_n - q2,
        {
            let author = &info.metadata.authors[q2];
            match parse_author(author.as_str()) {
                Some(p) => {
                    let slug = make_slug(p.0.as_str());
                    let aid = conn.upsert_author(p.0.as_str(), p.1.as_str(), slug.as_str());
                    conn.add_author_rel(rid, aid);
                },
                None => {},
            }
            q2 += 1;
        }
        match owners_result {
            None => {
                return Err(CrateOpenError::ParseError);
            },
            Some(None) => {},
            Some(Some(olist)) => {
                let mut q3: usize = 0;
                while q3 < olist.len()
                    invariant
                        q3 <= olist@.len(),
                        olist@.len() == ow_n,
                        conn.wf(),
                        conn.crates == mid.crates,
                        conn.releases == mid.releases,
                        mid.keywords@.len() <= conn.keywords@.len(),
                        forall|j: int|
                            0 <= j < mid.keywords@.len() ==> (#[trigger] conn.keywords@[j])
                                == mid.keywords@[j],
                        mid.keyword_rels@.len() <= conn.keyword_rels@.len(),
                        forall|j: int|
                            0 <= j < mid.keyword_rels@.len() ==> (#[trigger] conn.keyword_rels@[j])
                                == mid.keyword_rels@[j],
                        mid.authors@.len() <= conn.authors@.len(),
                        forall|j: int|
                            0 <= j < mid.authors@.len() ==> (#[trigger] conn.authors@[j])
                                == mid.authors@[j],
                        mid.author_rels@.len() <= conn.author_rels@.len(),
                        forall|j: int|
                            0 <= j < mid.author_rels@.len() ==> (#[trigger] conn.author_rels@[j])
                                == mid.author_rels@[j],
                        mid.owners@.len() <= conn.owners@.len(),
                        forall|j: int|
                            0 <= j < mid.owners@.len() ==> (#[trigger] conn.owners@[j]) == mid.owners@[j],
                        forall|j: int|
                            mid.owners@.len() <= j < conn.owners@.len() ==> (#[trigger] conn.owners@[j]).login@.len() > 0,
                        mid.owner_rels@.len() <= conn.owner_rels@.len(),
                        forall|j: int|
                            0 <= j < mid.owner_rels@.len() ==> (#[trigger] conn.owner_rels@[j])
                                == mid.owner_rels@[j],
                        conn.next_id as int + (ow_n - q3) <= MAX_ROW_ID,
                        crate_has_id(conn.crates@, self.name@, cid),
                        release_present(conn.releases@, cid, rid, gdata),
                        forall|x: int|
                            0 <= x < kw_n ==> keyword_recorded(
                                conn.keywords@,
                                conn.keyword_rels@,
                                rid,
                                info.metadata.keywords@[x]@,
                            ),
                        forall|x: int|
                            0 <= x < au_n ==> author_recorded(
                                conn.authors@,
                                conn.author_rels@,
                                rid,
                                info.metadata.authors@[x]@,
                            ),
                        forall|j: int|
                            mid.owner_rels@.len() <= j < conn.owner_rels@.len()
                                ==> pair_backed_by_owner(
                                conn.owners@,
                                (#[trigger] conn.owner_rels@[j]).1,
                            ),
                        forall|x: int|
                            0 <= x < q3 && olist@[x].login@.len() > 0 ==> owner_recorded(
                                conn.owners@,
                                conn.owner_rels@,
                                cid,
                                olist@[x].login@,
                            ),
                    decreases olist@.len() - q3,
                {
                    if !olist[q3].login.as_str().is_empty() {
                        let slug = make_slug(olist[q3].name.as_str());
                        let oid = conn.upsert_owner(
                            olist[q3].login.as_str(),
                            slug.as_str(),
                            olist[q3].avatar.as_str(),
                            olist[q3].name.as_str(),
                            olist[q3].email.as_str(),
                        );
                        conn.add_owner_rel(cid, oid);
                    }
                    q3 += 1;
                }
                proof {
                    assert(forall|x: int|
                        0 <= x < ow_n ==> (registry_owners_of(input.owners_body@)->0->0[x]
                            == registry_owner_view(olist@[x])));
                }
            },
        }
        let ghost endst = *conn;
        conn.append_crate_version(cid, self.versions[version_index].as_str());
        proof {
            let kk = choose|k: int|
                0 <= k < endst.crates@.len() && (#[trigger] endst.crates@[k]).name@ == self.name@
                    && endst.crates@[k].id == cid;
            assert(endst.crates@[kk].id == cid);
            assert forall|j: int| 0 <= j < old(conn).crates@.len() implies {
                &&& (#[trigger] conn.crates@[j]).id == old(conn).crates@[j].id
                &&& conn.crates@[j].name == old(conn).crates@[j].name
                &&& (if old(conn).crates@[j].name@ == self.name@ && !contains_version(
                    old(conn).crates@[j].versions.deep_view(),
                    idx_version,
                ) {
                    conn.crates@[j].versions.deep_view() == old(
                        conn,
                    ).crates@[j].versions.deep_view().push(idx_version)
                } else {
                    conn.crates@[j].versions == old(conn).crates@[j].versions
                })
            } by {
                assert(endst.crates@[j] == mid.crates@[j]);
                assert(mid.crates@[j] == old(conn).crates@[j]);
                if j == kk {
                    assert(old(conn).crates@[j].name@ == self.name@);
                } else {
                    if endst.crates@[j].id == cid {
                        if j < kk {
                            assert(endst.crates@[j].id != endst.crates@[kk].id);
                        } else {
                            assert(endst.crates@[kk].id != endst.crates@[j].id);
                        }
                        assert(false);
                    }
                    assert(conn.crates@[j] == endst.crates@[j]);
                    if old(conn).crates@[j].name@ == self.name@ {
                        if kk < old(conn).crates@.len() {
                            if j < kk {
                                assert(endst.crates@[j].name@ != endst.crates@[kk].name@);
                            } else {
                                assert(endst.crates@[kk].name@ != endst.crates@[j].name@);
                            }
                            assert(false);
                        } else {
                            assert(old(conn).has_crate_named(self.name@));
                            assert(endst.crates@.len() == old(conn).crates@.len());
                            assert(false);
                        }
                    }
                }
            }
            assert(conn.crates@.len() == endst.crates@.len());
            if endst.crates@.len() == old(conn).crates@.len() + 1 {
                assert(endst.crates@[endst.crates@.len() - 1].name@ == self.name@);
                if kk < endst.crates@.len() - 1 {
                    assert(endst.crates@[kk].name@ != endst.crates@[endst.crates@.len()
                        - 1].name@);
                    assert(false);
                }
                assert(kk == endst.crates@.len() - 1);
                assert(endst.crates@[kk].versions.deep_view() =~= Seq::<Seq<char>>::empty());
                assert(!contains_version(endst.crates@[kk].versions.deep_view(), idx_version));
                assert(conn.crates@.last().name@ == self.name@);
                assert(conn.crates@.last().versions.deep_view() == Seq::<Seq<
                    char,
                >>::empty().push(idx_version));
            }
            let k = choose|k: int|
                0 <= k < conn.crates@.len() && (#[trigger] conn.crates@[k]).name@ == self.name@
                    && conn.crates@[k].id == cid;
            let w = choose|w: int|
                0 <= w < conn.releases@.len() && release_matches(
                    #[trigger] conn.releases@[w],
                    cid,
                    rid,
                    gdata,
                );
            assert(conn.crates@[k].name@ == self.name@);
            assert(contains_version(conn.crates@[k].versions.deep_view(), idx_version));
            assert(conn.releases@[w].crate_id == conn.crates@[k].id);
            assert(ingest_ok_post(*conn, self.name@, idx_version, *input));
        }
        Ok(())
    }
}

} // verus!

