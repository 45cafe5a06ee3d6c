//! Repositories of boilerplates, and the boilerplate entries discovered in
//! their local clones. The directory walk itself is an outside capability;
//! everything computed from the discovered paths is verified.

use vstd::prelude::*;
use vstd::string::StrSliceExecFns;
use crate::errors::GixorError;
use crate::errors::Result;
use crate::name::Name;
use crate::name::NameView;
use crate::name::name_matches;
use crate::strutil::ends_with;
use crate::strutil::last_pos_of;
use crate::strutil::lemma_last_pos_at;
use crate::strutil::lemma_last_pos_none;
use crate::strutil::rindex_of_char;
use crate::strutil::starts_with;
use crate::strutil::str_ends_with;
use crate::strutil::str_starts_with;
use crate::strutil::concat3;

verus! {

/// The mathematical value of a [`Repository`].
pub struct RepositoryView {
    pub name: Seq<char>,
    pub url: Seq<char>,
    pub owner: Seq<char>,
    pub repo_name: Seq<char>,
    pub path: Seq<char>,
}

/// A repository of boilerplates, cloned under `{base_path}/{path}`.
#[derive(Debug, Clone)]
pub struct Repository {
    /// The name of the repository; the default name is the owner name.
    pub name: String,
    /// The URL of the remote repository.
    pub url: String,
    /// The owner name, derived from the URL.
    pub owner: String,
    /// The repository name, derived from the URL.
    pub repo_name: String,
    /// The path of the local clone, relative to the base path unless
    /// absolute.
    pub path: String,
}

impl View for Repository {
    type V = RepositoryView;

    open spec fn view(&self) -> RepositoryView {
        RepositoryView {
            name: self.name@,
            url: self.url@,
            owner: self.owner@,
            repo_name: self.repo_name@,
            path: self.path@,
        }
    }
}

/// The views of a sequence of repositories, element for element.
pub open spec fn repos_view(s: Seq<Repository>) -> Seq<RepositoryView> {
    Seq::new(s.len(), |i: int| s[i]@)
}

/// The owner part of a URL segment: what follows the last `:`, or the
/// segment itself when it has none.
pub open spec fn owner_spec(s: Seq<char>) -> Seq<char> {
    match last_pos_of(s, ':') {
        Some(i) => s.skip(i + 1),
        None => s,
    }
}

/// The segment with a trailing `.git` stripped.
pub open spec fn strip_git_spec(s: Seq<char>) -> Seq<char> {
    if ends_with(s, ".git"@) {
        s.take(s.len() - 4)
    } else {
        s
    }
}

/// The owner and repository names a URL yields: its last path segment,
/// stripped of `.git`, names the repository; the segment before it — with
/// anything up to a `:` removed — names the owner. A URL without two
/// segments gets the owner `unknown`.
pub open spec fn url_owner_repo_spec(url: Seq<char>) -> (Seq<char>, Seq<char>) {
    match last_pos_of(url, '/') {
        None => ("unknown"@, strip_git_spec(url)),
        Some(i) => {
            let before = url.take(i);
            let prev = match last_pos_of(before, '/') {
                None => before,
                Some(j) => before.skip(j + 1),
            };
            (owner_spec(prev), strip_git_spec(url.skip(i + 1)))
        },
    }
}

/// What follows the last `:` of the segment, or the whole segment.
pub fn to_owner(s: &str) -> (r: String)
    ensures
        r@ == owner_spec(s@),
{
    let n = s.unicode_len();
    match rindex_of_char(s, ':') {
        Some(i) => {
            proof {
                lemma_last_pos_at(s@, ':', i as int);
            }
            let r = s.substring_char(i + 1, n).to_owned();
            proof {
                assert(r@ =~= s@.skip(i + 1));
            }
            r
        },
        None => {
            proof {
                lemma_last_pos_none(s@, ':');
            }
            s.to_owned()
        },
    }
}

/// The segment with a trailing `.git` stripped.
pub fn strip_dot_git(s: &str) -> (r: String)
    ensures
        r@ == strip_git_spec(s@),
{
    let n = s.unicode_len();
    proof {
        reveal_strlit(".git");
    }
    if str_ends_with(s, ".git") {
        let r = s.substring_char(0, n - 4).to_owned();
        proof {
            assert(r@ =~= s@.take(s@.len() - 4));
        }
        r
    } else {
        s.to_owned()
    }
}

/// Splits a repository URL into its owner and repository names.
pub fn url_to_owner_and_repo_name(url: &str) -> (r: (String, String))
    ensures
        (r.0@, r.1@) == url_owner_repo_spec(url@),
{
    let n = url.unicode_len();
    match rindex_of_char(url, '/') {
        None => {
            proof {
                lemma_last_pos_none(url@, '/');
            }
            ("unknown".to_owned(), strip_dot_git(url))
        },
        Some(i) => {
            proof {
                lemma_last_pos_at(url@, '/', i as int);
            }
            let before = url.substring_char(0, i);
            proof {
                assert(before@ =~= url@.take(i as int));
            }
            let prev = match rindex_of_char(before, '/') {
                None => {
                    proof {
                        lemma_last_pos_none(before@, '/');
                    }
                    before
                },
                Some(j) => {
                    proof {
                        lemma_last_pos_at(before@, '/', j as int);
                    }
                    let p = before.substring_char(j + 1, i);
                    proof {
                        assert(p@ =~= before@.skip(j + 1));
                    }
                    p
                },
            };
            let last = url.substring_char(i + 1, n);
            proof {
                assert(last@ =~= url@.skip(i + 1));
            }
            (to_owner(prev), strip_dot_git(last))
        },
    }
}

impl Repository {
    /// A repository built from a URL alone; the owner name, extracted from
    /// the URL, doubles as the repository's name and clone directory.
    pub fn new(url: &str) -> (r: Self)
        ensures
            r@ == (RepositoryView {
                name: url_owner_repo_spec(url@).0,
                url: url@,
                owner: url_owner_repo_spec(url@).0,
                repo_name: url_owner_repo_spec(url@).1,
                path: url_owner_repo_spec(url@).0,
            }),
    {
        let (owner, repo_name) = url_to_owner_and_repo_name(url);
        let path = owner.clone();
        let name = owner.clone();
        Self { name, url: url.to_owned(), owner, repo_name, path }
    }

    /// A repository built from an explicit name and a URL; the name also
    /// names the clone directory.
    pub fn new_with(name: &str, url: &str) -> (r: Self)
        ensures
            r@ == (RepositoryView {
                name: name@,
                url: url@,
                owner: url_owner_repo_spec(url@).0,
                repo_name: url_owner_repo_spec(url@).1,
                path: name@,
            }),
    {
        let (owner, repo_name) = url_to_owner_and_repo_name(url);
        Self {
            name: name.to_owned(),
            url: url.to_owned(),
            repo_name,
            owner,
            path: name.to_owned(),
        }
    }

    /// A copy of this repository with the same value.
    pub fn duplicate(&self) -> (r: Repository)
        ensures
            r@ == self@,
    {
        Repository {
            name: self.name.clone(),
            url: self.url.clone(),
            owner: self.owner.clone(),
            repo_name: self.repo_name.clone(),
            path: self.path.clone(),
        }
    }

    /// Where this repository's clone lives: the configured path itself when
    /// absolute, else under the base path.
    pub fn path(&self, base_path: &str) -> (r: String)
        ensures
            r@ == repo_path_spec(self@, base_path@),
    {
        proof {
            reveal_strlit("/");
            assert("/"@ =~= seq!['/']);
        }
        if str_starts_with(self.path.as_str(), "/") {
            self.path.clone()
        } else {
            let r = concat3(base_path, "/", self.path.as_str());
            proof {
                assert(r@ =~= base_path@ + seq!['/'] + self.path@);
            }
            r
        }
    }
}

impl Default for Repository {
    /// The default repository: the community gitignore collection, cloned
    /// under the directory `default`.
    fn default() -> (r: Self)
        ensures
            r@.name == "default"@,
            r@.url == "https://github.com/github/gitignore.git"@,
            r@.repo_name == "gitignore"@,
            r@.owner == "github"@,
            r@.path == "default"@,
    {
        Repository {
            name: "default".to_owned(),
            url: "https://github.com/github/gitignore.git".to_owned(),
            repo_name: "gitignore".to_owned(),
            owner: "github".to_owned(),
            path: "default".to_owned(),
        }
    }
}

/// The clone directory of a repository under a base path.
pub open spec fn repo_path_spec(r: RepositoryView, base: Seq<char>) -> Seq<char> {
    if starts_with(r.path, seq!['/']) {
        r.path
    } else {
        base + seq!['/'] + r.path
    }
}

/// The mathematical value of a [`Boilerplate`].
pub struct BoilerplateView {
    pub name: Seq<char>,
    pub path: Seq<char>,
    pub repo: RepositoryView,
    pub base_path: Seq<char>,
}

/// A boilerplate file discovered in a repository's clone: its name is the
/// file stem, and it carries the repository it came from.
#[derive(Debug, Clone)]
pub struct Boilerplate {
    /// The boilerplate name: the stem of the boilerplate file.
    pub name: String,
    /// The path of the boilerplate file.
    pub path: String,
    /// The repository this boilerplate came from.
    pub repo: Repository,
    /// The base path under which the repositories live.
    pub base_path: String,
}

impl View for Boilerplate {
    type V = BoilerplateView;

    open spec fn view(&self) -> BoilerplateView {
        BoilerplateView {
            name: self.name@,
            path: self.path@,
            repo: self.repo@,
            base_path: self.base_path@,
        }
    }
}

/// The views of a sequence of boilerplates, element for element.
pub open spec fn bps_view(s: Seq<Boilerplate>) -> Seq<BoilerplateView> {
    Seq::new(s.len(), |i: int| s[i]@)
}

/// Views distribute over concatenation of boilerplate sequences.
pub proof fn lemma_bps_view_concat(a: Seq<Boilerplate>, b: Seq<Boilerplate>)
    ensures
        bps_view(a + b) == bps_view(a) + bps_view(b),
{
    assert forall|i: int| 0 <= i < a.len() + b.len() implies bps_view(a + b)[i] == (bps_view(a)
        + bps_view(b))[i] by {
        if i < a.len() {
            assert((a + b)[i] == a[i]);
        } else {
            assert((a + b)[i] == b[i - a.len()]);
        }
    }
    assert(bps_view(a + b) =~= bps_view(a) + bps_view(b));
}

/// The file stem of a path: the part of the last path segment that stands
/// before its final `.`, unless that dot opens the segment.
pub open spec fn stem_spec(path: Seq<char>) -> Seq<char> {
    let fname = match last_pos_of(path, '/') {
        Some(i) => path.skip(i + 1),
        None => path,
    };
    match last_pos_of(fname, '.') {
        Some(j) => if j > 0 {
            fname.take(j)
        } else {
            fname
        },
        None => fname,
    }
}

/// The file stem of a path.
pub fn stem_of(path: &str) -> (r: String)
    ensures
        r@ == stem_spec(path@),
{
    let n = path.unicode_len();
    let fname = match rindex_of_char(path, '/') {
        Some(i) => {
            proof {
                lemma_last_pos_at(path@, '/', i as int);
            }
            let f = path.substring_char(i + 1, n);
            proof {
                assert(f@ =~= path@.skip(i + 1));
            }
            f
        },
        None => {
            proof {
                lemma_last_pos_none(path@, '/');
            }
            path
        },
    };
    match rindex_of_char(fname, '.') {
        Some(j) => {
            proof {
                lemma_last_pos_at(fname@, '.', j as int);
            }
            if j > 0 {
                let r = fname.substring_char(0, j).to_owned();
                proof {
                    assert(r@ =~= fname@.take(j as int));
                }
                r
            } else {
                fname.to_owned()
            }
        },
        None => {
            proof {
                lemma_last_pos_none(fname@, '.');
            }
            fname.to_owned()
        },
    }
}

/// Whether the path names a boilerplate file, by its suffix.
pub fn is_gitignore_file(path: &str) -> (r: bool)
    ensures
        r == ends_with(path@, ".gitignore"@),
{
    str_ends_with(path, ".gitignore")
}

/// Relies on ignore::WalkBuilder: walks the directory tree under `path`
/// with the standard ignore filters and yields the discovered paths. What
/// is on disk decides the outcome, so nothing is promised of it.
#[verifier::external_body]
fn walk_files(path: &String) -> Vec<String> {
    ignore::WalkBuilder::new(path.as_str())
        .standard_filters(true)
        .build()
        .flatten()
        .map(|entry| entry.into_path().to_string_lossy().to_string())
        .collect()
}

/// A discovered entry is well formed for its repository: it belongs to it,
/// its path carries the boilerplate suffix, and its name is the file stem.
pub open spec fn wf_entry(b: BoilerplateView, repo: RepositoryView, base: Seq<char>) -> bool {
    &&& b.repo == repo
    &&& b.base_path == base
    &&& ends_with(b.path, ".gitignore"@)
    &&& b.name == stem_spec(b.path)
}

impl Boilerplate {
    /// A boilerplate entry with the given name and path, belonging to the
    /// given repository.
    pub fn new(name: String, path: String, repo: &Repository, base_path: &String) -> (r: Self)
        ensures
            r@ == (BoilerplateView {
                name: name@,
                path: path@,
                repo: repo@,
                base_path: base_path@,
            }),
    {
        Boilerplate { name, path, repo: repo.duplicate(), base_path: base_path.clone() }
    }

    /// A copy of this boilerplate with the same value.
    pub fn duplicate(&self) -> (r: Boilerplate)
        ensures
            r@ == self@,
    {
        Boilerplate {
            name: self.name.clone(),
            path: self.path.clone(),
            repo: self.repo.duplicate(),
            base_path: self.base_path.clone(),
        }
    }

    /// The full name of this boilerplate: its repository's name and its
    /// own.
    pub fn name(&self) -> (r: Name)
        ensures
            r@ == (NameView {
                repository_name: Some(self@.repo.name),
                boilerplate_name: self@.name,
            }),
    {
        Name::new(self.repo.name.as_str(), self.name.as_str())
    }

    /// The boilerplate name of this entry.
    pub fn boilerplate_name(&self) -> (r: &str)
        ensures
            r@ == self@.name,
    {
        self.name.as_str()
    }

    /// The name of the repository this entry came from.
    pub fn repository_name(&self) -> (r: &str)
        ensures
            r@ == self@.repo.name,
    {
        self.repo.name.as_str()
    }

    /// Whether the given name matches this entry.
    pub fn matches(&self, name: &Name) -> (r: bool)
        ensures
            r == name_matches(name@, self@.repo.name, self@.name),
    {
        name.matches_parts(self.repo.name.as_str(), self.name.as_str())
    }
}

impl Name {
    /// Whether this name matches the given boilerplate.
    pub fn matches(&self, boilerplate: &Boilerplate) -> (r: bool)
        ensures
            r == name_matches(self@, boilerplate@.repo.name, boilerplate@.name),
    {
        self.matches_parts(boilerplate.repo.name.as_str(), boilerplate.name.as_str())
    }
}

/// The predicate "this catalog entry matches the name".
pub open spec fn entry_matching(name: NameView) -> spec_fn(BoilerplateView) -> bool {
    |b: BoilerplateView| name_matches(name, b.repo.name, b.name)
}

/// The entries a walk's paths yield for a repository: one per path with
/// the boilerplate suffix, in walk order, named by its file stem.
pub open spec fn discovered_spec(
    paths: Seq<Seq<char>>,
    repo: RepositoryView,
    base: Seq<char>,
) -> Seq<BoilerplateView>
    decreases paths.len(),
{
    if paths.len() == 0 {
        Seq::empty()
    } else {
        discovered_spec(paths.drop_last(), repo, base)
            + (if ends_with(paths.last(), ".gitignore"@) {
            seq![
                BoilerplateView {
                    name: stem_spec(paths.last()),
                    path: paths.last(),
                    repo: repo,
                    base_path: base,
                },
            ]
        } else {
            Seq::empty()
        })
    }
}

/// A catalog segment is a discovery for a repository when some walked
/// paths yield exactly it.
pub open spec fn is_discovery(
    seg: Seq<BoilerplateView>,
    repo: RepositoryView,
    base: Seq<char>,
) -> bool {
    exists|paths: Seq<Seq<char>>| seg == discovered_spec(paths, repo, base)
}

/// Keeps exactly the walked paths that carry the boilerplate suffix, in
/// walk order, as entries of the repository named by their file stems.
pub fn boilerplates_from(paths: &Vec<String>, repo: &Repository, base_path: &String) -> (r: Vec<
    Boilerplate,
>)
    ensures
        bps_view(r@) == discovered_spec(crate::strutil::strs_view(paths@), repo@, base_path@),
        forall|i: int| 0 <= i < r@.len() ==> wf_entry(#[trigger] bps_view(r@)[i], repo@, base_path@),
{
    let ghost pv = crate::strutil::strs_view(paths@);
    let mut out: Vec<Boilerplate> = Vec::new();
    proof {
        assert(bps_view(out@) =~= discovered_spec(pv.take(0), repo@, base_path@));
    }
    let n = paths.len();
    let mut i: usize = 0;
    while i < n
        invariant
            n == paths@.len(),
            pv == crate::strutil::strs_view(paths@),
            i <= n,
            bps_view(out@) == discovered_spec(pv.take(i as int), repo@, base_path@),
            forall|k: int|
                0 <= k < out@.len() ==> wf_entry(#[trigger] bps_view(out@)[k], repo@, base_path@),
        decreases n - i,
    {
        proof {
            assert(pv.take(i + 1).drop_last() =~= pv.take(i as int));
            assert(pv.take(i + 1).last() == pv[i as int]);
            assert(pv[i as int] == paths@[i as int]@);
        }
        let ghost before = out@;
        if is_gitignore_file(paths[i].as_str()) {
            let stem = stem_of(paths[i].as_str());
            let bp = Boilerplate::new(stem, paths[i].clone(), repo, base_path);
            let ghost bpv = bp@;
            out.push(bp);
            proof {
                assert(out@ == before.push(out@[before.len() as int]));
                assert(bps_view(before).len() == before.len());
                assert forall|k: int| 0 <= k < out@.len() implies bps_view(out@)[k]
                    == discovered_spec(pv.take(i + 1), repo@, base_path@)[k] by {
                    if k < before.len() {
                        assert(bps_view(before)[k] == discovered_spec(
                            pv.take(i as int),
                            repo@,
                            base_path@,
                        )[k]);
                        assert(out@[k] == before[k]);
                    } else {
                        assert(bps_view(out@)[k] == bpv);
                    }
                }
                assert(bps_view(out@) =~= discovered_spec(pv.take(i + 1), repo@, base_path@));
                assert forall|k: int| 0 <= k < out@.len() implies wf_entry(
                    #[trigger] bps_view(out@)[k],
                    repo@,
                    base_path@,
                ) by {
                    if k < before.len() {
                        assert(bps_view(out@)[k] == bps_view(before)[k]);
                        assert(wf_entry(bps_view(before)[k], repo@, base_path@));
                    } else {
                        assert(bps_view(out@)[k] == bpv);
                    }
                }
            }
        } else {
            proof {
                assert(discovered_spec(pv.take(i + 1), repo@, base_path@) =~= discovered_spec(
                    pv.take(i as int),
                    repo@,
                    base_path@,
                ));
            }
        }
        i = i + 1;
    }
    proof {
        assert(pv.take(n as int) =~= pv);
    }
    out
}

/// The first entry of the catalog the name matches, if any, in catalog
/// order.
pub fn scan_first(catalog: &Vec<Boilerplate>, name: &Name) -> (r: Option<Boilerplate>)
    ensures
        match r {
            Some(b) => {
                &&& crate::strutil::first_where(bps_view(catalog@), entry_matching(name@))
                    matches Some(i)
                &&& b@ == bps_view(catalog@)[crate::strutil::first_where(
                    bps_view(catalog@),
                    entry_matching(name@),
                )->Some_0]
            },
            None => crate::strutil::first_where(bps_view(catalog@), entry_matching(name@))
                is None,
        },
{
    let ghost views = bps_view(catalog@);
    let n = catalog.len();
    let mut i: usize = 0;
    while i < n
        invariant
            n == catalog@.len(),
            views == bps_view(catalog@),
            i <= n,
            forall|j: int| 0 <= j < i ==> !entry_matching(name@)(views[j]),
        decreases n - i,
    {
        if catalog[i].matches(name) {
            proof {
                crate::strutil::lemma_first_where_at(views, entry_matching(name@), i as int);
            }
            let b = catalog[i].duplicate();
            proof {
                assert(views[i as int] == catalog@[i as int]@);
            }
            return Some(b);
        }
        i = i + 1;
    }
    proof {
        crate::strutil::lemma_first_where_none(views, entry_matching(name@));
    }
    None
}

/// What finding yields over given walked paths: the first matching entry
/// of their discovery, or nothing when no discovered entry matches.
pub open spec fn find_outcome(
    paths: Seq<Seq<char>>,
    repo: RepositoryView,
    base: Seq<char>,
    name: NameView,
    r: Option<Boilerplate>,
) -> bool {
    let cat = discovered_spec(paths, repo, base);
    match r {
        Some(b) => {
            &&& crate::strutil::first_where(cat, entry_matching(name)) matches Some(i)
            &&& b@ == cat[crate::strutil::first_where(cat, entry_matching(name))->Some_0]
        },
        None => crate::strutil::first_where(cat, entry_matching(name)) is None,
    }
}

impl Repository {
    /// The boilerplate entries in this repository's clone: exactly the
    /// walked paths with the boilerplate suffix, in walk order, named by
    /// their file stems. What is on disk decides which paths the walk
    /// yields.
    pub fn iter(&self, base_path: &String) -> (r: Vec<Boilerplate>)
        ensures
            exists|paths: Seq<Seq<char>>|
                bps_view(r@) == discovered_spec(paths, self@, base_path@),
            forall|i: int| 0 <= i < r@.len() ==> wf_entry(#[trigger] bps_view(r@)[i], self@, base_path@),
    {
        let root = self.path(base_path.as_str());
        let files = walk_files(&root);
        let r = boilerplates_from(&files, self, base_path);
        proof {
            assert(bps_view(r@) == discovered_spec(
                crate::strutil::strs_view(files@),
                self@,
                base_path@,
            ));
        }
        r
    }

    /// The first boilerplate of this repository's clone that the given name
    /// matches, in walk order; nothing when no discovered entry matches.
    pub fn find(&self, name: &Name, base_path: &String) -> (r: Option<Boilerplate>)
        ensures
            exists|paths: Seq<Seq<char>>| find_outcome(paths, self@, base_path@, name@, r),
            match r {
                Some(b) => name_matches(name@, b@.repo.name, b@.name)
                    && wf_entry(b@, self@, base_path@),
                None => true,
            },
    {
        let entries = self.iter(base_path);
        let ghost ps = choose|ps: Seq<Seq<char>>|
            bps_view(entries@) == discovered_spec(ps, self@, base_path@);
        let r = scan_first(&entries, name);
        proof {
            crate::strutil::lemma_first_where_props(bps_view(entries@), entry_matching(name@));
            assert(find_outcome(ps, self@, base_path@, name@, r));
        }
        r
    }
}

/// What the environment found of a repository's clone directory before a
/// synchronization step: whether the directory exists, and whether it holds
/// a `.git` entry.
#[derive(Debug, Clone, Copy, PartialEq, Eq, Structural)]
pub struct DirProbe {
    pub exists: bool,
    pub has_dot_git: bool,
}

impl Repository {
    /// Prepares the repository's clone: pulls when a clone is already
    /// there, and clones otherwise. Over an existing clone only the pull's
    /// backend can refuse, with a `Git` error; a cloning path over an HTTPS
    /// URL likewise fails only in the backend.
    pub fn prepare(
        &self,
        base_path: &String,
        probe: DirProbe,
        ssh_key: Option<&String>,
    ) -> (r: Result<()>)
        ensures
            probe.exists && probe.has_dot_git ==> (r is Ok || (r matches Err(e) && e is Git)),
            !(probe.exists && probe.has_dot_git) && crate::strutil::starts_with(
                self@.url,
                "https://"@,
            ) ==> (r is Ok || (r matches Err(e) && e is Git)),
            r matches Err(e) ==> (e is Git || e is Fatal),
    {
        let path = self.path(base_path.as_str());
        if probe.exists {
            if probe.has_dot_git {
                crate::gitbridge::pull(&path, "origin", "main")
            } else {
                crate::gitbridge::clone(self.url.as_str(), &path, ssh_key)
            }
        } else {
            self.clone(base_path, probe, ssh_key)
        }
    }

    /// Clones the repository unless a clone is already there, in which case
    /// nothing is done. Over an HTTPS URL only the backend can refuse, with
    /// a `Git` error.
    pub fn clone(
        &self,
        base_path: &String,
        probe: DirProbe,
        ssh_key: Option<&String>,
    ) -> (r: Result<()>)
        ensures
            probe.exists && probe.has_dot_git ==> r is Ok,
            crate::strutil::starts_with(self@.url, "https://"@) ==> (r is Ok || (
            r matches Err(e) && e is Git)),
            r matches Err(e) ==> (e is Git || e is Fatal),
    {
        let path = self.path(base_path.as_str());
        if probe.exists && probe.has_dot_git {
            Ok(())
        } else {
            crate::gitbridge::clone(self.url.as_str(), &path, ssh_key)
        }
    }
}

/// The uppercase hexadecimal digit of a value below sixteen.
pub open spec fn hex_digit(v: int) -> char {
    if v == 0 {
        '0'
    } else if v == 1 {
        '1'
    } else if v == 2 {
        '2'
    } else if v == 3 {
        '3'
    } else if v == 4 {
        '4'
    } else if v == 5 {
        '5'
    } else if v == 6 {
        '6'
    } else if v == 7 {
        '7'
    } else if v == 8 {
        '8'
    } else if v == 9 {
        '9'
    } else if v == 10 {
        'A'
    } else if v == 11 {
        'B'
    } else if v == 12 {
        'C'
    } else if v == 13 {
        'D'
    } else if v == 14 {
        'E'
    } else {
        'F'
    }
}

/// The two uppercase hexadecimal digits of a byte.
pub open spec fn hex_of_byte(b: u8) -> Seq<char> {
    seq![hex_digit(b as int / 16), hex_digit(b as int % 16)]
}

/// The uppercase hexadecimal rendering of a byte sequence.
pub open spec fn hex_upper(bytes: Seq<u8>) -> Seq<char>
    decreases bytes.len(),
{
    if bytes.len() == 0 {
        Seq::empty()
    } else {
        hex_upper(bytes.drop_last()) + hex_of_byte(bytes.last())
    }
}

/// The uppercase hexadecimal digit of a value below sixteen.
fn hex_digit_str(v: u8) -> (r: &'static str)
    requires
        v < 16,
    ensures
        r@ == seq![hex_digit(v as int)],
{
    proof {
        reveal_strlit("0");
        reveal_strlit("1");
        reveal_strlit("2");
        reveal_strlit("3");
        reveal_strlit("4");
        reveal_strlit("5");
        reveal_strlit("6");
        reveal_strlit("7");
        reveal_strlit("8");
        reveal_strlit("9");
        reveal_strlit("A");
        reveal_strlit("B");
        reveal_strlit("C");
        reveal_strlit("D");
        reveal_strlit("E");
        reveal_strlit("F");
    }
    let r: &'static str = match v {
        0 => "0",
        1 => "1",
        2 => "2",
        3 => "3",
        4 => "4",
        5 => "5",
        6 => "6",
        7 => "7",
        8 => "8",
        9 => "9",
        10 => "A",
        11 => "B",
        12 => "C",
        13 => "D",
        14 => "E",
        _ => "F",
    };
    proof {
        assert(r@ =~= seq![hex_digit(v as int)]);
    }
    r
}

/// Renders a byte sequence as uppercase hexadecimal, two digits per byte.
pub fn hex_encode_upper(bytes: &Vec<u8>) -> (r: String)
    ensures
        r@ == hex_upper(bytes@),
{
    let mut r = String::new();
    let n = bytes.len();
    let mut i: usize = 0;
    while i < n
        invariant
            n == bytes@.len(),
            i <= n,
            r@ == hex_upper(bytes@.take(i as int)),
        decreases n - i,
    {
        let b = bytes[i];
        r.append(hex_digit_str(b / 16));
        r.append(hex_digit_str(b % 16));
        proof {
            assert(bytes@.take(i + 1).drop_last() =~= bytes@.take(i as int));
            assert(bytes@.take(i + 1).last() == bytes@[i as int]);
            assert(r@ =~= hex_upper(bytes@.take(i + 1)));
        }
        i = i + 1;
    }
    proof {
        assert(bytes@.take(n as int) =~= bytes@);
    }
    r
}

/// The path under its parent: what follows the parent and its separator.
pub fn to_relative_path(path: &str, parent: &str) -> (r: String)
    requires
        starts_with(path@, parent@ + "/"@),
    ensures
        r@ == path@.skip(parent@.len() as int + 1),
{
    let n = path.unicode_len();
    let pn = parent.unicode_len();
    proof {
        assert((parent@ + "/"@).len() == parent@.len() + 1) by {
            reveal_strlit("/");
        }
    }
    let r = path.substring_char(pn + 1, n).to_owned();
    proof {
        assert(r@ =~= path@.skip(parent@.len() as int + 1));
    }
    r
}

/// Whether a raw-content URL shape is known for the repository's host.
pub open spec fn host_known(url: Seq<char>) -> bool {
    ||| crate::strutil::contains_seq(url, "github.com"@)
    ||| crate::strutil::contains_seq(url, "gitlab.com"@)
    ||| crate::strutil::contains_seq(url, "bitbucket.org"@)
}

/// The raw-content URL of a boilerplate, given the hex rendering of its
/// repository's latest commit: the host decides the URL's shape.
pub open spec fn content_url_spec(b: BoilerplateView, hex: Seq<char>) -> Seq<char> {
    let prefix = b.base_path + "/"@ + b.repo.name;
    let rel = b.path.skip(prefix.len() as int + 1);
    if crate::strutil::contains_seq(b.repo.url, "github.com"@) {
        "https://raw.github.com/"@ + b.repo.owner + "/"@ + b.repo.repo_name + "/"@ + hex + "/"@
            + rel
    } else if crate::strutil::contains_seq(b.repo.url, "gitlab.com"@) {
        "https://gitlab.com/"@ + b.repo.owner + "/"@ + b.repo.repo_name + "/-/raw/"@ + hex + "/"@
            + rel
    } else {
        "https://bitbucket.org/"@ + b.repo.owner + "/"@ + b.repo.repo_name + "/raw/"@ + hex
            + "/"@ + rel
    }
}

impl Boilerplate {
    /// The raw-content URL of this boilerplate, built from its repository's
    /// host, owner and name and the hash of the latest commit of the local
    /// clone. A host without a known URL shape is a reported error; the
    /// fragment itself is unaffected. On a known host only the hash lookup
    /// can refuse, with a `Git` error.
    pub fn content_url(&self) -> (r: Result<String>)
        requires
            starts_with(self@.path, self@.base_path + "/"@ + self@.repo.name + "/"@),
        ensures
            r matches Ok(u) ==> host_known(self@.repo.url) && exists|h: Seq<u8>|
                h.len() == 20 && u@ == content_url_spec(self@, hex_upper(h)),
            host_known(self@.repo.url) ==> (r is Ok || (r matches Err(e) && e is Git)),
            !host_known(self@.repo.url) ==> (r matches Err(e) && (e is Git || (
            e matches GixorError::Fatal(m) && m@ == self@.repo.url
                + ": Unsupported repository host"@))),
            r matches Err(e) ==> (e is Git || e is Fatal),
    {
        let hash = match crate::gitbridge::hash(self, &self.base_path) {
            Ok(h) => h,
            Err(e) => {
                return Err(e);
            },
        };
        let hex = hex_encode_upper(&hash);
        let parent = concat3(self.base_path.as_str(), "/", self.repo.name.as_str());
        proof {
            assert(parent@ + "/"@ =~= self@.base_path + "/"@ + self@.repo.name + "/"@);
        }
        let rel = to_relative_path(self.path.as_str(), parent.as_str());
        proof {
            assert(rel@ == self@.path.skip((self@.base_path + "/"@ + self@.repo.name).len() as int + 1));
        }
        let url;
        if crate::strutil::str_contains(self.repo.url.as_str(), "github.com") {
            let a = concat3("https://raw.github.com/", self.repo.owner.as_str(), "/");
            let b = concat3(a.as_str(), self.repo.repo_name.as_str(), "/");
            let c = concat3(b.as_str(), hex.as_str(), "/");
            url = crate::strutil::concat2(c.as_str(), rel.as_str());
        } else if crate::strutil::str_contains(self.repo.url.as_str(), "gitlab.com") {
            let a = concat3("https://gitlab.com/", self.repo.owner.as_str(), "/");
            let b = concat3(a.as_str(), self.repo.repo_name.as_str(), "/-/raw/");
            let c = concat3(b.as_str(), hex.as_str(), "/");
            url = crate::strutil::concat2(c.as_str(), rel.as_str());
        } else if crate::strutil::str_contains(self.repo.url.as_str(), "bitbucket.org") {
            let a = concat3("https://bitbucket.org/", self.repo.owner.as_str(), "/");
            let b = concat3(a.as_str(), self.repo.repo_name.as_str(), "/raw/");
            let c = concat3(b.as_str(), hex.as_str(), "/");
            url = crate::strutil::concat2(c.as_str(), rel.as_str());
        } else {
            let m = crate::errors::suffixed(&self.repo.url, ": Unsupported repository host");
            return Err(GixorError::Fatal(m));
        }
        proof {
            assert(url@ =~= content_url_spec(self@, hex_upper(hash@)));
            assert(hash@.len() == 20 && url@ == content_url_spec(self@, hex_upper(hash@)));
        }
        Ok(url)
    }

    /// The dumped form of this boilerplate: a generated header naming its
    /// repository and name, a line with its raw-content URL, and the given
    /// content. On a known host only the hash lookup can refuse, with a
    /// `Git` error.
    pub fn dump(&self, content: &String) -> (r: Result<String>)
        requires
            starts_with(self@.path, self@.base_path + "/"@ + self@.repo.name + "/"@),
        ensures
            r matches Ok(t) ==> exists|h: Seq<u8>|
                h.len() == 20 && t@ == dump_spec(self@, hex_upper(h), content@),
            host_known(self@.repo.url) ==> (r is Ok || (r matches Err(e) && e is Git)),
            r matches Err(e) ==> (e is Git || e is Fatal),
    {
        let url = match self.content_url() {
            Ok(u) => u,
            Err(e) => {
                return Err(e);
            },
        };
        let a = concat3(
            "### Generated by Gixor (https://github.com/tamada/gixor) (",
            self.repo.name.as_str(),
            "/",
        );
        let b = concat3(a.as_str(), self.name.as_str(), ")\n### ");
        let c = concat3(b.as_str(), url.as_str(), "\n");
        let d = concat3(c.as_str(), content.as_str(), "\n");
        proof {
            let h = choose|h: Seq<u8>|
                h.len() == 20 && url@ == content_url_spec(self@, hex_upper(h));
            assert(d@ =~= dump_spec(self@, hex_upper(h), content@));
        }
        Ok(d)
    }
}

/// The dumped form of a boilerplate: the generated header, the raw-content
/// URL line, the content, and a closing newline.
pub open spec fn dump_spec(b: BoilerplateView, hex: Seq<char>, content: Seq<char>) -> Seq<char> {
    "### Generated by Gixor (https://github.com/tamada/gixor) ("@ + b.repo.name + "/"@ + b.name
        + ")\n### "@ + content_url_spec(b, hex) + "\n"@ + content + "\n"@
}

} // verus!
