//! The relational store model: crates, releases, authors, keywords and
//! owners, with the uniqueness constraints the schema carries, and the
//! idempotent upsert primitives the ingestor builds on.

use crate::text::str_eq;
use vstd::prelude::*;

verus! {

/// One row of the `crates` table.
#[derive(Debug, Clone)]
pub struct CrateRow {
    pub id: i32,
    pub name: String,
    /// Append-only list of known version strings, first-seen order.
    pub versions: Vec<String>,
}

/// One row of the `releases` table, unique per (crate id, version).
#[derive(Debug, Clone)]
pub struct ReleaseRow {
    pub id: i32,
    pub crate_id: i32,
    pub version: String,
    pub release_time: Option<i64>,
    pub dependencies: String,
    pub yanked: Option<bool>,
    pub build_status: i32,
    pub rustdoc_status: i32,
    pub test_status: i32,
    pub license: Option<String>,
    pub repository_url: Option<String>,
    pub homepage_url: Option<String>,
    pub description: Option<String>,
    pub description_long: Option<String>,
    pub readme: Option<String>,
    pub authors: String,
    pub keywords: String,
    pub have_examples: bool,
    pub downloads: Option<i64>,
}

/// The mutable fields of a release, as one ingest computes them.
#[derive(Debug, Clone)]
pub struct ReleaseData {
    pub version: String,
    pub release_time: Option<i64>,
    pub dependencies: String,
    pub yanked: Option<bool>,
    pub build_status: i32,
    pub rustdoc_status: i32,
    pub test_status: i32,
    pub license: Option<String>,
    pub repository_url: Option<String>,
    pub homepage_url: Option<String>,
    pub description: Option<String>,
    pub description_long: Option<String>,
    pub readme: Option<String>,
    pub authors: String,
    pub keywords: String,
    pub have_examples: bool,
    pub downloads: Option<i64>,
}

/// One row of the `authors` table, keyed by slug.
#[derive(Debug, Clone)]
pub struct AuthorRow {
    pub id: i32,
    pub name: String,
    pub email: String,
    pub slug: String,
}

/// One row of the `keywords` table, keyed by slug.
#[derive(Debug, Clone)]
pub struct KeywordRow {
    pub id: i32,
    pub name: String,
    pub slug: String,
}

/// One row of the `owners` table, keyed by login.
#[derive(Debug, Clone)]
pub struct OwnerRow {
    pub id: i32,
    pub login: String,
    pub slug: String,
    pub avatar: String,
    pub name: String,
    pub email: String,
}

/// The relational store: every table, plus the next generated row id.
#[derive(Debug)]
pub struct Database {
    pub crates: Vec<CrateRow>,
    pub releases: Vec<ReleaseRow>,
    pub authors: Vec<AuthorRow>,
    /// (release id, author id) pairs, unique.
    pub author_rels: Vec<(i32, i32)>,
    pub keywords: Vec<KeywordRow>,
    /// (release id, keyword id) pairs, unique.
    pub keyword_rels: Vec<(i32, i32)>,
    pub owners: Vec<OwnerRow>,
    /// (crate id, owner id) pairs, unique.
    pub owner_rels: Vec<(i32, i32)>,
    pub next_id: i32,
}

/// The largest id the store's serial columns can hand out.
pub const MAX_ROW_ID: i32 = 0x7fff_ffff;

/// Whether a relationship pair is present.
pub open spec fn has_pair(s: Seq<(i32, i32)>, a: i32, b: i32) -> bool {
    exists|i: int| 0 <= i < s.len() && s[i] == (a, b)
}

/// No relationship pair occurs twice.
pub open spec fn pairs_unique(s: Seq<(i32, i32)>) -> bool {
    forall|i: int, j: int| 0 <= i < j < s.len() ==> s[i] != s[j]
}

impl Database {
    /// Every table obeys its uniqueness constraints, and every generated id
    /// lies below `next_id`.
    pub open spec fn wf(&self) -> bool {
        &&& 1 <= self.next_id <= MAX_ROW_ID
        &&& (forall|i: int, j: int|
            0 <= i < j < self.crates@.len() ==> self.crates@[i].id != self.crates@[j].id
                && self.crates@[i].name@ != self.crates@[j].name@)
        &&& (forall|i: int|
            0 <= i < self.crates@.len() ==> 1 <= #[trigger] self.crates@[i].id < self.next_id)
        &&& (forall|i: int, j: int|
            0 <= i < j < self.releases@.len() ==> self.releases@[i].id != self.releases@[j].id
                && !(self.releases@[i].crate_id == self.releases@[j].crate_id
                && self.releases@[i].version@ == self.releases@[j].version@))
        &&& (forall|i: int|
            0 <= i < self.releases@.len() ==> 1 <= #[trigger] self.releases@[i].id < self.next_id)
        &&& (forall|i: int, j: int|
            0 <= i < j < self.authors@.len() ==> self.authors@[i].id != self.authors@[j].id
                && self.authors@[i].slug@ != self.authors@[j].slug@)
        &&& (forall|i: int|
            0 <= i < self.authors@.len() ==> 1 <= #[trigger] self.authors@[i].id < self.next_id)
        &&& (forall|i: int, j: int|
            0 <= i < j < self.keywords@.len() ==> self.keywords@[i].id != self.keywords@[j].id
                && self.keywords@[i].slug@ != self.keywords@[j].slug@)
        &&& (forall|i: int|
            0 <= i < self.keywords@.len() ==> 1 <= #[trigger] self.keywords@[i].id < self.next_id)
        &&& (forall|i: int, j: int|
            0 <= i < j < self.owners@.len() ==> self.owners@[i].id != self.owners@[j].id
                && self.owners@[i].login@ != self.owners@[j].login@)
        &&& (forall|i: int|
            0 <= i < self.owners@.len() ==> 1 <= #[trigger] self.owners@[i].id < self.next_id)
        &&& pairs_unique(self.author_rels@)
        &&& pairs_unique(self.keyword_rels@)
        &&& pairs_unique(self.owner_rels@)
    }

    /// An empty store.
    pub fn new() -> (db: Database)
        ensures
            db.wf(),
            db.crates@.len() == 0,
            db.releases@.len() == 0,
            db.authors@.len() == 0,
            db.author_rels@.len() == 0,
            db.keywords@.len() == 0,
            db.keyword_rels@.len() == 0,
            db.owners@.len() == 0,
            db.owner_rels@.len() == 0,
    {
        Database {
            crates: Vec::new(),
            releases: Vec::new(),
            authors: Vec::new(),
            author_rels: Vec::new(),
            keywords: Vec::new(),
            keyword_rels: Vec::new(),
            owners: Vec::new(),
            owner_rels: Vec::new(),
            next_id: 1,
        }
    }

    /// Whether some crate row carries this name.
    pub open spec fn has_crate_named(&self, name: Seq<char>) -> bool {
        exists|i: int| 0 <= i < self.crates@.len() && self.crates@[i].name@ == name
    }

    /// Whether some crate row carries this name under this id.
    pub open spec fn crate_named_has_id(&self, name: Seq<char>, id: i32) -> bool {
        exists|i: int|
            0 <= i < self.crates@.len() && self.crates@[i].name@ == name && self.crates@[i].id
                == id
    }

    /// Select the crate row by unique name, inserting a fresh row when
    /// absent; either way the returned id is the named row's id.
    #[verifier::loop_isolation(false)]
    pub fn upsert_crate(&mut self, name: &str) -> (id: i32)
        requires
            old(self).wf(),
            old(self).next_id < MAX_ROW_ID,
        ensures
            final(self).wf(),
            old(self).next_id <= final(self).next_id <= old(self).next_id + 1,
            final(self).crate_named_has_id(name@, id),
            old(self).has_crate_named(name@) ==> *final(self) == *old(self),
            !old(self).has_crate_named(name@) ==> {
                &&& final(self).crates@.len() == old(self).crates@.len() + 1
                &&& final(self).crates@.subrange(0, old(self).crates@.len() as int) =~= old(
                    self,
                ).crates@
                &&& (forall|j: int|
                    0 <= j < old(self).crates@.len() ==> final(self).crates@[j] == old(
                        self,
                    ).crates@[j])
                &&& final(self).crates@.last().name@ == name@
                &&& final(self).crates@.last().versions@.len() == 0
                &&& final(self).crates@.last().id == old(self).next_id
                &&& final(self).releases == old(self).releases
                &&& final(self).authors == old(self).authors
                &&& final(self).author_rels == old(self).author_rels
                &&& final(self).keywords == old(self).keywords
                &&& final(self).keyword_rels == old(self).keyword_rels
                &&& final(self).owners == old(self).owners
                &&& final(self).owner_rels == old(self).owner_rels
            },
    {
        let n = self.crates.len();
        let mut i: usize = 0;
        while i < n
            invariant
                *self == *old(self),
                n == self.crates@.len(),
                i <= n,
                forall|j: int| 0 <= j < i ==> self.crates@[j].name@ != name@,
        decreases n - i,
        {
            if str_eq(self.crates[i].name.as_str(), name) {
                return self.crates[i].id;
            }
            i += 1;
        }
        let id = self.next_id;
        let row = CrateRow { id, name: name.to_owned(), versions: Vec::new() };
        self.crates.push(row);
        self.next_id = self.next_id + 1;
        assert(self.crates@.last().id == id);
        id
    }

    /// Whether some release row carries this (crate id, version) key.
    pub open spec fn has_release_keyed(&self, crate_id: i32, version: Seq<char>) -> bool {
        exists|i: int|
            0 <= i < self.releases@.len() && self.releases@[i].crate_id == crate_id
                && self.releases@[i].version@ == version
    }

    /// Select the release row by its (crate id, version) key, inserting it
    /// when absent and updating every mutable field in place when present;
    /// the row id never changes once assigned.
    #[verifier::loop_isolation(false)]
    pub fn upsert_release(&mut self, crate_id: i32, data: ReleaseData) -> (id: i32)
        requires
            old(self).wf(),
            old(self).next_id < MAX_ROW_ID,
        ensures
            final(self).wf(),
            old(self).next_id <= final(self).next_id <= old(self).next_id + 1,
            exists|k: int|
                0 <= k < final(self).releases@.len() && release_matches(
                    #[trigger] final(self).releases@[k],
                    crate_id,
                    id,
                    data,
                ),
            final(self).crates == old(self).crates,
            final(self).authors == old(self).authors,
            final(self).author_rels == old(self).author_rels,
            final(self).keywords == old(self).keywords,
            final(self).keyword_rels == old(self).keyword_rels,
            final(self).owners == old(self).owners,
            final(self).owner_rels == old(self).owner_rels,
            final(self).releases@.len() == old(self).releases@.len() || final(self).releases@.len()
                == old(self).releases@.len() + 1,
            old(self).has_release_keyed(crate_id, data.version@) ==> {
                &&& final(self).next_id == old(self).next_id
                &&& final(self).releases@.len() == old(self).releases@.len()
                &&& exists|k: int|
                    {
                        &&& 0 <= k < old(self).releases@.len()
                        &&& old(self).releases@[k].crate_id == crate_id
                        &&& old(self).releases@[k].version@ == data.version@
                        &&& id == old(self).releases@[k].id
                        &&& (forall|j: int|
                            0 <= j < old(self).releases@.len() && j != k
                                ==> final(self).releases@[j] == old(self).releases@[j])
                    }
            },
            !old(self).has_release_keyed(crate_id, data.version@) ==> {
                &&& final(self).releases@.len() == old(self).releases@.len() + 1
                &&& final(self).releases@.subrange(0, old(self).releases@.len() as int) =~= old(
                    self,
                ).releases@
                &&& (forall|j: int|
                    0 <= j < old(self).releases@.len() ==> final(self).releases@[j] == old(
                        self,
                    ).releases@[j])
                &&& id == old(self).next_id
            },
    {
        let n = self.releases.len();
        let mut i: usize = 0;
        while i < n
            invariant
                *self == *old(self),
                n == self.releases@.len(),
                i <= n,
                forall|j: int|
                    0 <= j < i ==> !(self.releases@[j].crate_id == crate_id
                        && self.releases@[j].version@ == data.version@),
            decreases n - i,
        {
            if self.releases[i].crate_id == crate_id && str_eq(
                self.releases[i].version.as_str(),
                data.version.as_str(),
            ) {
                let old_row = self.releases.remove(i);
                let id = old_row.id;
                let row = ReleaseRow {
                    id,
                    crate_id,
                    version: old_row.version,
                    release_time: data.release_time,
                    dependencies: data.dependencies,
                    yanked: data.yanked,
                    build_status: data.build_status,
                    rustdoc_status: data.rustdoc_status,
                    test_status: data.test_status,
                    license: data.license,
                    repository_url: data.repository_url,
                    homepage_url: data.homepage_url,
                    description: data.description,
                    description_long: data.description_long,
                    readme: data.readme,
                    authors: data.authors,
                    keywords: data.keywords,
                    have_examples: data.have_examples,
                    downloads: data.downloads,
                };
                self.releases.insert(i, row);
                assert(self.releases@ =~= old(self).releases@.update(
                    i as int,
                    self.releases@[i as int],
                ));
                return id;
            }
            i += 1;
        }
        let id = self.next_id;
        let row = ReleaseRow {
            id,
            crate_id,
            version: data.version,
            release_time: data.release_time,
            dependencies: data.dependencies,
            yanked: data.yanked,
            build_status: data.build_status,
            rustdoc_status: data.rustdoc_status,
            test_status: data.test_status,
            license: data.license,
            repository_url: data.repository_url,
            homepage_url: data.homepage_url,
            description: data.description,
            description_long: data.description_long,
            readme: data.readme,
            authors: data.authors,
            keywords: data.keywords,
            have_examples: data.have_examples,
            downloads: data.downloads,
        };
        self.releases.push(row);
        self.next_id = self.next_id + 1;
        assert(self.releases@.last().id == id && release_matches(self.releases@.last(), crate_id, id, data));
        id
    }

    /// Whether some keyword row carries this slug.
    pub open spec fn has_keyword_slug(&self, slug: Seq<char>) -> bool {
        exists|i: int| 0 <= i < self.keywords@.len() && self.keywords@[i].slug@ == slug
    }

    /// Select the keyword row by unique slug, inserting (name, slug) when
    /// absent; an existing row is left as it is.
    #[verifier::loop_isolation(false)]
    pub fn upsert_keyword(&mut self, name: &str, slug: &str) -> (id: i32)
        requires
            old(self).wf(),
            old(self).next_id < MAX_ROW_ID,
        ensures
            final(self).wf(),
            old(self).next_id <= final(self).next_id <= old(self).next_id + 1,
            exists|k: int|
                0 <= k < final(self).keywords@.len() && (#[trigger] final(self).keywords@[k]).slug@
                    == slug@ && final(self).keywords@[k].id == id,
            old(self).has_keyword_slug(slug@) ==> *final(self) == *old(self),
            !old(self).has_keyword_slug(slug@) ==> {
                &&& final(self).keywords@.len() == old(self).keywords@.len() + 1
                &&& final(self).keywords@.subrange(0, old(self).keywords@.len() as int) =~= old(
                    self,
                ).keywords@
                &&& (forall|j: int|
                    0 <= j < old(self).keywords@.len() ==> final(self).keywords@[j] == old(
                        self,
                    ).keywords@[j])
                &&& final(self).keywords@.last().slug@ == slug@
                &&& final(self).keywords@.last().name@ == name@
                &&& final(self).keywords@.last().id == old(self).next_id
                &&& final(self).crates == old(self).crates
                &&& final(self).releases == old(self).releases
                &&& final(self).authors == old(self).authors
                &&& final(self).author_rels == old(self).author_rels
                &&& final(self).keyword_rels == old(self).keyword_rels
                &&& final(self).owners == old(self).owners
                &&& final(self).owner_rels == old(self).owner_rels
            },
    {
        let n = self.keywords.len();
        let mut i: usize = 0;
        while i < n
            invariant
                *self == *old(self),
                n == self.keywords@.len(),
                i <= n,
                forall|j: int| 0 <= j < i ==> self.keywords@[j].slug@ != slug@,
            decreases n - i,
        {
            if str_eq(self.keywords[i].slug.as_str(), slug) {
                return self.keywords[i].id;
            }
            i += 1;
        }
        let id = self.next_id;
        let row = KeywordRow { id, name: name.to_owned(), slug: slug.to_owned() };
        self.keywords.push(row);
        self.next_id = self.next_id + 1;
        assert(self.keywords@.last().slug@ == slug@ && self.keywords@.last().id == id);
        id
    }

    /// Whether some author row carries this slug.
    pub open spec fn has_author_slug(&self, slug: Seq<char>) -> bool {
        exists|i: int| 0 <= i < self.authors@.len() && self.authors@[i].slug@ == slug
    }

    /// Select the author row by unique slug, inserting (name, email, slug)
    /// when absent; an existing row is left as it is.
    #[verifier::loop_isolation(false)]
    pub fn upsert_author(&mut self, name: &str, email: &str, slug: &str) -> (id: i32)
        requires
            old(self).wf(),
            old(self).next_id < MAX_ROW_ID,
        ensures
            final(self).wf(),
            old(self).next_id <= final(self).next_id <= old(self).next_id + 1,
            exists|k: int|
                0 <= k < final(self).authors@.len() && (#[trigger] final(self).authors@[k]).slug@
                    == slug@ && final(self).authors@[k].id == id,
            old(self).has_author_slug(slug@) ==> *final(self) == *old(self),
            !old(self).has_author_slug(slug@) ==> {
                &&& final(self).authors@.len() == old(self).authors@.len() + 1
                &&& final(self).authors@.subrange(0, old(self).authors@.len() as int) =~= old(
                    self,
                ).authors@
                &&& (forall|j: int|
                    0 <= j < old(self).authors@.len() ==> final(self).authors@[j] == old(
                        self,
                    ).authors@[j])
                &&& final(self).authors@.last().slug@ == slug@
                &&& final(self).authors@.last().name@ == name@
                &&& final(self).authors@.last().email@ == email@
                &&& final(self).authors@.last().id == old(self).next_id
                &&& final(self).crates == old(self).crates
                &&& final(self).releases == old(self).releases
                &&& final(self).author_rels == old(self).author_rels
                &&& final(self).keywords == old(self).keywords
                &&& final(self).keyword_rels == old(self).keyword_rels
                &&& final(self).owners == old(self).owners
                &&& final(self).owner_rels == old(self).owner_rels
            },
    {
        let n = self.authors.len();
        let mut i: usize = 0;
        while i < n
            invariant
                *self == *old(self),
                n == self.authors@.len(),
                i <= n,
                forall|j: int| 0 <= j < i ==> self.authors@[j].slug@ != slug@,
            decreases n - i,
        {
            if str_eq(self.authors[i].slug.as_str(), slug) {
                return self.authors[i].id;
            }
            i += 1;
        }
        let id = self.next_id;
        let row = AuthorRow {
            id,
            name: name.to_owned(),
            email: email.to_owned(),
            slug: slug.to_owned(),
        };
        self.authors.push(row);
        self.next_id = self.next_id + 1;
        assert(self.authors@.last().slug@ == slug@ && self.authors@.last().id == id);
        id
    }

    /// Whether some owner row carries this login.
    pub open spec fn has_owner_login(&self, login: Seq<char>) -> bool {
        exists|i: int| 0 <= i < self.owners@.len() && self.owners@[i].login@ == login
    }

    /// Select the owner row by unique login, inserting the full record when
    /// absent; an existing row is left as it is.
    #[verifier::loop_isolation(false)]
    pub fn upsert_owner(
        &mut self,
        login: &str,
        slug: &str,
        avatar: &str,
        name: &str,
        email: &str,
    ) -> (id: i32)
        requires
            old(self).wf(),
            old(self).next_id < MAX_ROW_ID,
        ensures
            final(self).wf(),
            old(self).next_id <= final(self).next_id <= old(self).next_id + 1,
            exists|k: int|
                0 <= k < final(self).owners@.len() && (#[trigger] final(self).owners@[k]).login@
                    == login@ && final(self).owners@[k].id == id,
            old(self).has_owner_login(login@) ==> *final(self) == *old(self),
            !old(self).has_owner_login(login@) ==> {
                &&& final(self).owners@.len() == old(self).owners@.len() + 1
                &&& final(self).owners@.subrange(0, old(self).owners@.len() as int) =~= old(
                    self,
                ).owners@
                &&& (forall|j: int|
                    0 <= j < old(self).owners@.len() ==> final(self).owners@[j] == old(
                        self,
                    ).owners@[j])
                &&& final(self).owners@.last().login@ == login@
                &&& final(self).owners@.last().slug@ == slug@
                &&& final(self).owners@.last().avatar@ == avatar@
                &&& final(self).owners@.last().name@ == name@
                &&& final(self).owners@.last().email@ == email@
                &&& final(self).owners@.last().id == old(self).next_id
                &&& final(self).crates == old(self).crates
                &&& final(self).releases == old(self).releases
                &&& final(self).authors == old(self).authors
                &&& final(self).author_rels == old(self).author_rels
                &&& final(self).keywords == old(self).keywords
                &&& final(self).keyword_rels == old(self).keyword_rels
                &&& final(self).owner_rels == old(self).owner_rels
            },
    {
        let n = self.owners.len();
        let mut i: usize = 0;
        while i < n
            invariant
                *self == *old(self),
                n == self.owners@.len(),
                i <= n,
                forall|j: int| 0 <= j < i ==> self.owners@[j].login@ != login@,
            decreases n - i,
        {
            if str_eq(self.owners[i].login.as_str(), login) {
                return self.owners[i].id;
            }
            i += 1;
        }
        let id = self.next_id;
        let row = OwnerRow {
            id,
            login: login.to_owned(),
            slug: slug.to_owned(),
            avatar: avatar.to_owned(),
            name: name.to_owned(),
            email: email.to_owned(),
        };
        self.owners.push(row);
        self.next_id = self.next_id + 1;
        assert(self.owners@.last().login@ == login@ && self.owners@.last().id == id);
        id
    }

    /// Record a (release, keyword) relationship: an insert that ignores a
    /// duplicate, so the pair is present exactly once afterwards.
    #[verifier::loop_isolation(false)]
    pub fn add_keyword_rel(&mut self, rid: i32, kid: i32)
        requires
            old(self).wf(),
        ensures
            final(self).wf(),
            has_pair(final(self).keyword_rels@, rid, kid),
            has_pair(old(self).keyword_rels@, rid, kid) ==> *final(self) == *old(self),
            !has_pair(old(self).keyword_rels@, rid, kid) ==> {
                &&& final(self).keyword_rels@ =~= old(self).keyword_rels@.push((rid, kid))
                &&& (forall|j: int|
                    0 <= j < old(self).keyword_rels@.len() ==> final(self).keyword_rels@[j] == old(
                        self,
                    ).keyword_rels@[j])
                &&& *final(self) == Database { keyword_rels: final(self).keyword_rels, ..*old(self) }
            },
    {
        let n = self.keyword_rels.len();
        let mut i: usize = 0;
        while i < n
            invariant
                *self == *old(self),
                n == self.keyword_rels@.len(),
                i <= n,
                forall|j: int| 0 <= j < i ==> self.keyword_rels@[j] != (rid, kid),
            decreases n - i,
        {
            if self.keyword_rels[i].0 == rid && self.keyword_rels[i].1 == kid {
                return ;
            }
            i += 1;
        }
        self.keyword_rels.push((rid, kid));
        assert(self.keyword_rels@.last() == (rid, kid));
    }

    /// Record a (release, author) relationship: an insert that ignores a
    /// duplicate, so the pair is present exactly once afterwards.
    #[verifier::loop_isolation(false)]
    pub fn add_author_rel(&mut self, rid: i32, aid: i32)
        requires
            old(self).wf(),
        ensures
            final(self).wf(),
            has_pair(final(self).author_rels@, rid, aid),
            has_pair(old(self).author_rels@, rid, aid) ==> *final(self) == *old(self),
            !has_pair(old(self).author_rels@, rid, aid) ==> {
                &&& final(self).author_rels@ =~= old(self).author_rels@.push((rid, aid))
                &&& (forall|j: int|
                    0 <= j < old(self).author_rels@.len() ==> final(self).author_rels@[j] == old(
                        self,
                    ).author_rels@[j])
                &&& *final(self) == Database { author_rels: final(self).author_rels, ..*old(self) }
            },
    {
        let n = self.author_rels.len();
        let mut i: usize = 0;
        while i < n
            invariant
                *self == *old(self),
                n == self.author_rels@.len(),
                i <= n,
                forall|j: int| 0 <= j < i ==> self.author_rels@[j] != (rid, aid),
            decreases n - i,
        {
            if self.author_rels[i].0 == rid && self.author_rels[i].1 == aid {
                return ;
            }
            i += 1;
        }
        self.author_rels.push((rid, aid));
        assert(self.author_rels@.last() == (rid, aid));
    }

    /// Record a (crate, owner) relationship: an insert that ignores a
    /// duplicate, so the pair is present exactly once afterwards.
    #[verifier::loop_isolation(false)]
    pub fn add_owner_rel(&mut self, cid: i32, oid: i32)
        requires
            old(self).wf(),
        ensures
            final(self).wf(),
            has_pair(final(self).owner_rels@, cid, oid),
            has_pair(old(self).owner_rels@, cid, oid) ==> *final(self) == *old(self),
            !has_pair(old(self).owner_rels@, cid, oid) ==> {
                &&& final(self).owner_rels@ =~= old(self).owner_rels@.push((cid, oid))
                &&& (forall|j: int|
                    0 <= j < old(self).owner_rels@.len() ==> final(self).owner_rels@[j] == old(
                        self,
                    ).owner_rels@[j])
                &&& *final(self) == Database { owner_rels: final(self).owner_rels, ..*old(self) }
            },
    {
        let n = self.owner_rels.len();
        let mut i: usize = 0;
        while i < n
            invariant
                *self == *old(self),
                n == self.owner_rels@.len(),
                i <= n,
                forall|j: int| 0 <= j < i ==> self.owner_rels@[j] != (cid, oid),
            decreases n - i,
        {
            if self.owner_rels[i].0 == cid && self.owner_rels[i].1 == oid {
                return ;
            }
            i += 1;
        }
        self.owner_rels.push((cid, oid));
        assert(self.owner_rels@.last() == (cid, oid));
    }

    /// Append `version` to the identified crate row's known-version list
    /// when it is not already present: append-only, first-seen order,
    /// equality by exact string match. Without such a row nothing changes.
    #[verifier::loop_isolation(false)]
    pub fn append_crate_version(&mut self, crate_id: i32, version: &str)
        requires
            old(self).wf(),
        ensures
            final(self).wf(),
            final(self).next_id == old(self).next_id,
            final(self).releases == old(self).releases,
            final(self).authors == old(self).authors,
            final(self).author_rels == old(self).author_rels,
            final(self).keywords == old(self).keywords,
            final(self).keyword_rels == old(self).keyword_rels,
            final(self).owners == old(self).owners,
            final(self).owner_rels == old(self).owner_rels,
            (forall|k: int|
                0 <= k < old(self).crates@.len() ==> (#[trigger] old(self).crates@[k]).id
                    != crate_id) ==> *final(self) == *old(self),
            forall|k: int|
                0 <= k < old(self).crates@.len() && (#[trigger] old(self).crates@[k]).id
                    == crate_id ==> {
                    &&& final(self).crates@.len() == old(self).crates@.len()
                    &&& (forall|j: int|
                        0 <= j < old(self).crates@.len() && j != k ==> final(self).crates@[j]
                            == old(self).crates@[j])
                    &&& final(self).crates@[k].id == old(self).crates@[k].id
                    &&& final(self).crates@[k].name == old(self).crates@[k].name
                    &&& contains_version(final(self).crates@[k].versions.deep_view(), version@)
                    &&& contains_version(old(self).crates@[k].versions.deep_view(), version@)
                        ==> final(self).crates@[k] == old(self).crates@[k]
                    &&& !contains_version(old(self).crates@[k].versions.deep_view(), version@)
                        ==> final(self).crates@[k].versions.deep_view() =~= old(
                        self,
                    ).crates@[k].versions.deep_view().push(version@)
                },
    {
        let n = self.crates.len();
        let mut i: usize = 0;
        while i < n
            invariant
                *self == *old(self),
                n == self.crates@.len(),
                i <= n,
                forall|j: int| 0 <= j < i ==> self.crates@[j].id != crate_id,
            decreases n - i,
        {
            if self.crates[i].id == crate_id {
                let m = self.crates[i].versions.len();
                let mut v: usize = 0;
                while v < m
                    invariant
                        *self == *old(self),
                        0 <= i < self.crates@.len(),
                        self.crates@[i as int].id == crate_id,
                        m == self.crates@[i as int].versions@.len(),
                        v <= m,
                        forall|j: int|
                            0 <= j < v ==> self.crates@[i as int].versions.deep_view()[j]
                                != version@,
                    decreases m - v,
                {
                    if str_eq(self.crates[i].versions[v].as_str(), version) {
                        proof {
                            assert(self.crates@[i as int].versions.deep_view()[v as int]
                                == self.crates@[i as int].versions@[v as int]@);
                            assert(contains_version(
                                old(self).crates@[i as int].versions.deep_view(),
                                version@,
                            ));
                            lemma_unique_crate_id(*old(self), crate_id, i as int);
                            assert forall|k: int|
                                0 <= k < old(self).crates@.len() && (#[trigger] old(
                                    self,
                                ).crates@[k]).id == crate_id implies contains_version(
                                self.crates@[k].versions.deep_view(),
                                version@,
                            ) by {
                                assert(old(self).crates@[k].id == crate_id);
                                assert(k == i as int);
                            }
                        }
                        return ;
                    }
                    assert(self.crates@[i as int].versions.deep_view()[v as int] == self.crates@[i as int].versions@[v as int]@);
                    v += 1;
                }
                let mut row = self.crates.remove(i);
                row.versions.push(version.to_owned());
                self.crates.insert(i, row);
                proof {
                    assert(self.crates@ =~= old(self).crates@.update(
                        i as int,
                        self.crates@[i as int],
                    ));
                    assert(self.crates@[i as int].versions.deep_view() =~= old(
                        self,
                    ).crates@[i as int].versions.deep_view().push(version@));
                    lemma_unique_crate_id(*old(self), crate_id, i as int);
                    assert(self.crates@[i as int].versions.deep_view().last() == version@);
                    assert(contains_version(self.crates@[i as int].versions.deep_view(), version@));
                    assert forall|k: int|
                        0 <= k < old(self).crates@.len() && (#[trigger] old(self).crates@[k]).id
                            == crate_id implies k == i as int by {
                        assert(old(self).crates@[k].id == crate_id);
                    }
                }
                return ;
            }
            i += 1;
        }
    }
}

/// Under well-formedness at most one crate row carries a given id.
proof fn lemma_unique_crate_id(db: Database, crate_id: i32, i: int)
    requires
        db.wf(),
        0 <= i < db.crates@.len(),
        db.crates@[i].id == crate_id,
    ensures
        forall|k: int|
            0 <= k < db.crates@.len() && #[trigger] db.crates@[k].id == crate_id ==> k == i,
{
    assert forall|k: int|
        0 <= k < db.crates@.len() && #[trigger] db.crates@[k].id == crate_id implies k == i by {
        if k < i {
            assert(db.crates@[k].id != db.crates@[i].id);
        } else if k > i {
            assert(db.crates@[i].id != db.crates@[k].id);
        }
    }
}

/// Whether an exactly equal version string is already in the list.
pub open spec fn contains_version(vs: Seq<Seq<char>>, v: Seq<char>) -> bool {
    exists|i: int| 0 <= i < vs.len() && vs[i] == v
}

/// Whether `r` carries exactly the fields of one upserted release.
pub open spec fn release_matches(r: ReleaseRow, crate_id: i32, id: i32, d: ReleaseData) -> bool {
    &&& r.id == id
    &&& r.crate_id == crate_id
    &&& r.version@ == d.version@
    &&& r.release_time == d.release_time
    &&& r.dependencies == d.dependencies
    &&& r.yanked == d.yanked
    &&& r.build_status == d.build_status
    &&& r.rustdoc_status == d.rustdoc_status
    &&& r.test_status == d.test_status
    &&& r.license == d.license
    &&& r.repository_url == d.repository_url
    &&& r.homepage_url == d.homepage_url
    &&& r.description == d.description
    &&& r.description_long == d.description_long
    &&& r.readme == d.readme
    &&& r.authors == d.authors
    &&& r.keywords == d.keywords
    &&& r.have_examples == d.have_examples
    &&& r.downloads == d.downloads
}

} // verus!
