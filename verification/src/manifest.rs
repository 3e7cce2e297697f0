//! The manifest snapshot: a read-only view of one version's manifest —
//! name, primary build target, version, dependencies, documentation text,
//! readme and the metadata block — assembled from manifest text.

use crate::crte::CrateOpenError;
use crate::ingest::{opt_view, pairs_view};
use crate::text::{push_char, starts_with_spec, str_starts_with};
use vstd::prelude::*;
use vstd::string::{StrSliceExecFns, StringExecFns};

verus! {

/// The metadata block of a manifest: license, URLs, description, author
/// strings and keyword strings.
#[derive(Debug, Clone)]
pub struct ManifestMetadata {
    pub license: Option<String>,
    pub repository: Option<String>,
    pub homepage: Option<String>,
    pub description: Option<String>,
    /// The declared readme path, when there is one.
    pub readme: Option<String>,
    pub authors: Vec<String>,
    pub keywords: Vec<String>,
}

/// A read-only snapshot of one version's manifest.
#[derive(Debug, Clone)]
pub struct CrateInfo {
    pub name: String,
    /// The primary build target's name.
    pub target_name: String,
    pub version: String,
    /// Dependency (name, version requirement) pairs.
    pub dependencies: Vec<(String, String)>,
    /// Module-level documentation text, when the target source carries any.
    pub rustdoc: Option<String>,
    /// The readme text, when the manifest declares one.
    pub readme: Option<String>,
    pub metadata: ManifestMetadata,
}

/// One declared dependency: its name, and the optional `version` and
/// `path` fields of its manifest entry.
#[derive(Debug, Clone)]
pub struct DepEntry {
    pub name: String,
    pub version: Option<String>,
    pub path: Option<String>,
}

/// The plain view of one dependency entry.
pub open spec fn dep_view(d: DepEntry) -> (Seq<char>, Option<Seq<char>>, Option<Seq<char>>) {
    (d.name@, opt_view(d.version), opt_view(d.path))
}

/// The plain view of a dependency list.
pub open spec fn dep_views(ds: Seq<DepEntry>) -> Seq<
    (Seq<char>, Option<Seq<char>>, Option<Seq<char>>),
> {
    Seq::new(ds.len(), |i: int| dep_view(ds[i]))
}

/// The string at `[table] key` of the manifest text, or none when the
/// text does not parse as TOML or the field is not a string there.
pub uninterp spec fn manifest_str_field(s: Seq<char>, table: Seq<char>, key: Seq<char>) -> Option<
    Seq<char>,
>;

/// Relies on toml's parsing and value navigation: which string stands at
/// `[table] key` depends on the manifest text alone.
#[verifier::external_body]
fn toml_str_field(content: &str, table: &str, key: &str) -> (r: Option<String>)
    ensures
        match r {
            Some(v) => manifest_str_field(content@, table@, key@) == Some(v@),
            None => manifest_str_field(content@, table@, key@) is None,
        },
{
    let t: toml::Table = match content.parse() {
        Ok(t) => t,
        Err(_) => return None,
    };
    t.get(table)
        .and_then(|v| v.as_table())
        .and_then(|tb| tb.get(key))
        .and_then(|v| v.as_str())
        .map(|s| s.to_owned())
}

/// The string array at `[table] key` of the manifest text, with each
/// non-string element defaulted to the empty string, or none when there
/// is no such array.
pub uninterp spec fn manifest_string_list(
    s: Seq<char>,
    table: Seq<char>,
    key: Seq<char>,
) -> Option<Seq<Seq<char>>>;

/// Relies on toml's parsing and value navigation: which strings stand in
/// the array at `[table] key` depends on the manifest text alone.
#[verifier::external_body]
fn toml_string_list(content: &str, table: &str, key: &str) -> (r: Option<Vec<String>>)
    ensures
        match r {
            Some(v) => manifest_string_list(content@, table@, key@) == Some(v.deep_view()),
            None => manifest_string_list(content@, table@, key@) is None,
        },
{
    let t: toml::Table = match content.parse() {
        Ok(t) => t,
        Err(_) => return None,
    };
    let arr = match t.get(table).and_then(|v| v.as_table()).and_then(|tb| tb.get(key)).and_then(
        |v| v.as_array(),
    ) {
        Some(a) => a,
        None => return None,
    };
    Some(arr.iter().map(|v| v.as_str().unwrap_or("").to_owned()).collect())
}

/// The manifest's dependency table, entry by entry: each dependency's
/// name with its optional `version` and `path` fields; a text that does
/// not parse, or has no dependency table, yields the empty list.
pub uninterp spec fn manifest_deps_of(s: Seq<char>) -> Seq<
    (Seq<char>, Option<Seq<char>>, Option<Seq<char>>),
>;

/// Relies on toml's parsing and value navigation: which dependencies a
/// manifest declares, with which `version` and `path` fields, depends on
/// the manifest text alone.
#[verifier::external_body]
pub(crate) fn toml_dependencies(content: &str) -> (r: Vec<DepEntry>)
    ensures
        dep_views(r@) == manifest_deps_of(content@),
{
    let t: toml::Table = match content.parse() {
        Ok(t) => t,
        Err(_) => return Vec::new(),
    };
    let deps = match t.get("dependencies").and_then(|d| d.as_table()) {
        Some(d) => d,
        None => return Vec::new(),
    };
    deps.iter().map(|(k, v)| DepEntry {
        name: k.clone(),
        version: v.as_str().or(v.get("version").and_then(|x| x.as_str())).map(|s| s.to_owned()),
        path: v.get("path").and_then(|x| x.as_str()).map(|s| s.to_owned()),
    }).collect()
}

/// The contribution of one source line to the module documentation: the
/// text after the marker, when the line carries one, with its newline.
pub open spec fn rust_doc_line(l: Seq<char>) -> Seq<char> {
    if starts_with_spec(l, seq!['/', '/', '!']) {
        (if l.len() > 3 {
            l.skip(4)
        } else {
            Seq::empty()
        }) + seq!['\n']
    } else {
        Seq::empty()
    }
}

/// The module documentation of a source file: every `//!` line's text,
/// in order.
pub open spec fn rust_doc_spec(lines: Seq<Seq<char>>) -> Seq<char>
    decreases lines.len(),
{
    if lines.len() == 0 {
        Seq::empty()
    } else {
        rust_doc_line(lines[0]) + rust_doc_spec(lines.drop_first())
    }
}

/// Gets rustdoc from the lines of the target's source file: the text of
/// the `//!` lines, or none when there is none at all.
pub fn read_rust_doc(lines: &Vec<String>) -> (r: Option<String>)
    ensures
        rust_doc_spec(lines.deep_view()).len() == 0 ==> r is None,
        rust_doc_spec(lines.deep_view()).len() > 0 ==> (r matches Some(s) && s@ == rust_doc_spec(
            lines.deep_view(),
        )),
{
    let ghost dv = lines.deep_view();
    proof {
        assert(forall|x: int| 0 <= x < lines@.len() ==> dv[x] == lines@[x]@);
        assert(dv.skip(0) =~= dv);
    }
    let n = lines.len();
    let mut acc = String::new();
    let mut i: usize = 0;
    while i < n
        invariant
            dv == lines.deep_view(),
            forall|x: int| 0 <= x < lines@.len() ==> dv[x] == lines@[x]@,
            n == lines@.len(),
            dv.len() == n,
            i <= n,
            acc@ + rust_doc_spec(dv.skip(i as int)) == rust_doc_spec(dv),
        decreases n - i,
    {
        proof {
            assert(dv.skip(i as int)[0] == dv[i as int]);
            assert(dv.skip(i as int).drop_first() =~= dv.skip(i as int + 1));
        }
        let line = &lines[i];
        if str_starts_with(line.as_str(), "//!") {
            proof {
                reveal_strlit("//!");
                assert("//!"@ =~= seq!['/', '/', '!']);
            }
            let len = line.as_str().unicode_len();
            if len > 3 {
                let tail = line.as_str().substring_char(4, len);
                acc.append(tail);
                proof {
                    assert(tail@ =~= line@.skip(4));
                }
            }
            push_char(&mut acc, '\n');
            proof {
                assert(acc@ + rust_doc_spec(dv.skip(i as int + 1)) =~= rust_doc_spec(dv));
            }
        } else {
            proof {
                reveal_strlit("//!");
                assert("//!"@ =~= seq!['/', '/', '!']);
                assert(rust_doc_line(dv[i as int]) =~= Seq::<char>::empty());
                assert(acc@ + rust_doc_spec(dv.skip(i as int + 1)) =~= rust_doc_spec(dv));
            }
        }
        i += 1;
    }
    proof {
        assert(dv.skip(n as int).len() == 0);
        assert(acc@ =~= rust_doc_spec(dv));
    }
    if acc.as_str().is_empty() {
        None
    } else {
        Some(acc)
    }
}

/// The primary build target's name: the declared `[lib] name` when there
/// is one, else the package name with dashes replaced by underscores.
pub open spec fn target_name_spec(name: Seq<char>, lib: Option<Seq<char>>) -> Seq<char> {
    match lib {
        Some(l) => l,
        None => Seq::new(name.len(), |i: int| if name[i] == '-' {
            '_'
        } else {
            name[i]
        }),
    }
}

/// The dependency (name, version requirement) pairs of a manifest: the
/// declared requirement, or `*` for an entry without a `version` field.
pub open spec fn dep_pairs_spec(
    ds: Seq<(Seq<char>, Option<Seq<char>>, Option<Seq<char>>)>,
) -> Seq<(Seq<char>, Seq<char>)> {
    Seq::new(
        ds.len(),
        |i: int|
            (
                ds[i].0,
                match ds[i].1 {
                    Some(v) => v,
                    None => "*"@,
                },
            ),
    )
}

/// Gets crate info from manifest text, the target source's lines and the
/// readme text: the snapshot's every field pinned to the manifest's, with
/// a manifest error exactly when the package name or version is missing.
pub fn info_from_manifest(
    manifest_text: &str,
    target_src_lines: &Vec<String>,
    readme_text: Option<String>,
) -> (r: Result<CrateInfo, CrateOpenError>)
    ensures
        r is Err <==> (manifest_str_field(manifest_text@, "package"@, "name"@) is None
            || manifest_str_field(manifest_text@, "package"@, "version"@) is None),
        r matches Err(e) ==> e == CrateOpenError::ManifestError,
        r matches Ok(info) ==> {
            &&& Some(info.name@) == manifest_str_field(manifest_text@, "package"@, "name"@)
            &&& Some(info.version@) == manifest_str_field(manifest_text@, "package"@, "version"@)
            &&& info.target_name@ == target_name_spec(
                info.name@,
                manifest_str_field(manifest_text@, "lib"@, "name"@),
            )
            &&& pairs_view(info.dependencies@) == dep_pairs_spec(manifest_deps_of(manifest_text@))
            &&& (rust_doc_spec(target_src_lines.deep_view()).len() == 0 ==> info.rustdoc is None)
            &&& (rust_doc_spec(target_src_lines.deep_view()).len() > 0 ==> (
            info.rustdoc matches Some(d) && d@ == rust_doc_spec(target_src_lines.deep_view())))
            &&& info.readme == readme_text
            &&& opt_view(info.metadata.license) == manifest_str_field(
                manifest_text@,
                "package"@,
                "license"@,
            )
            &&& opt_view(info.metadata.repository) == manifest_str_field(
                manifest_text@,
                "package"@,
                "repository"@,
            )
            &&& opt_view(info.metadata.homepage) == manifest_str_field(
                manifest_text@,
                "package"@,
                "homepage"@,
            )
            &&& opt_view(info.metadata.description) == manifest_str_field(
                manifest_text@,
                "package"@,
                "description"@,
            )
            &&& opt_view(info.metadata.readme) == manifest_str_field(
                manifest_text@,
                "package"@,
                "readme"@,
            )
            &&& info.metadata.authors.deep_view() == (match manifest_string_list(
                manifest_text@,
                "package"@,
                "authors"@,
            ) {
                Some(l) => l,
                None => Seq::<Seq<char>>::empty(),
            })
            &&& info.metadata.keywords.deep_view() == (match manifest_string_list(
                manifest_text@,
                "package"@,
                "keywords"@,
            ) {
                Some(l) => l,
                None => Seq::<Seq<char>>::empty(),
            })
        },
{
    let name = match toml_str_field(manifest_text, "package", "name") {
        Some(n) => n,
        None => {
            return Err(CrateOpenError::ManifestError);
        },
    };
    let version = match toml_str_field(manifest_text, "package", "version") {
        Some(v) => v,
        None => {
            return Err(CrateOpenError::ManifestError);
        },
    };
    let target_name = match toml_str_field(manifest_text, "lib", "name") {
        Some(l) => l,
        None => crate::text::dashes_to_underscores(name.as_str()),
    };
    proof {
        assert(target_name@ =~= target_name_spec(
            name@,
            manifest_str_field(manifest_text@, "lib"@, "name"@),
        ));
    }
    let raw_deps = toml_dependencies(manifest_text);
    let mut dependencies: Vec<(String, String)> = Vec::new();
    let dn = raw_deps.len();
    let mut i: usize = 0;
    while i < dn
        invariant
            dn == raw_deps@.len(),
            i <= dn,
            dep_views(raw_deps@) == manifest_deps_of(manifest_text@),
            dependencies@.len() == i,
            forall|x: int|
                0 <= x < i ==> pairs_view(dependencies@)[x] == dep_pairs_spec(
                    manifest_deps_of(manifest_text@),
                )[x],
        decreases dn - i,
    {
        proof {
            assert(dep_views(raw_deps@)[i as int] == dep_view(raw_deps@[i as int]));
        }
        let dname = raw_deps[i].name.clone();
        let dver = match &raw_deps[i].version {
            Some(v) => v.clone(),
            None => {
                let s = String::from_str("*");
                proof {
                    reveal_strlit("*");
                }
                s
            },
        };
        let ghost prev = dependencies@;
        dependencies.push((dname, dver));
        proof {
            assert(dependencies@[i as int] == (dname, dver));
            assert(pairs_view(dependencies@)[i as int] == (dname@, dver@));
            assert(dep_pairs_spec(manifest_deps_of(manifest_text@))[i as int] == (
                dname@,
                dver@,
            ));
            assert forall|x: int|
                0 <= x < i + 1 implies pairs_view(dependencies@)[x] == dep_pairs_spec(
                manifest_deps_of(manifest_text@),
            )[x] by {
                if x < i {
                    assert(dependencies@[x] == prev[x]);
                    assert(pairs_view(dependencies@)[x] == pairs_view(prev)[x]);
                    assert(pairs_view(prev)[x] == dep_pairs_spec(
                        manifest_deps_of(manifest_text@),
                    )[x]);
                }
            }
        }
        i += 1;
    }
    proof {
        assert(pairs_view(dependencies@) =~= dep_pairs_spec(manifest_deps_of(manifest_text@)));
    }
    let rustdoc = read_rust_doc(target_src_lines);
    let metadata = ManifestMetadata {
        license: toml_str_field(manifest_text, "package", "license"),
        repository: toml_str_field(manifest_text, "package", "repository"),
        homepage: toml_str_field(manifest_text, "package", "homepage"),
        description: toml_str_field(manifest_text, "package", "description"),
        readme: toml_str_field(manifest_text, "package", "readme"),
        authors: match toml_string_list(manifest_text, "package", "authors") {
            Some(l) => l,
            None => Vec::new(),
        },
        keywords: match toml_string_list(manifest_text, "package", "keywords") {
            Some(l) => l,
            None => Vec::new(),
        },
    };
    Ok(
        CrateInfo {
            name,
            target_name,
            version,
            dependencies,
            rustdoc,
            readme: readme_text,
            metadata,
        },
    )
}

} // verus!
