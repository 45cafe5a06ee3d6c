//! The root of the library: the configuration — repositories, the optional
//! alias table and the base path — and the operations that search, resolve
//! and synchronize across all repositories.

use vstd::prelude::*;
use vstd::string::StrSliceExecFns;
use crate::alias::Alias;
use crate::alias::Aliases;
use crate::alias::AliasView;
use crate::alias::aliases_view;
use crate::errors::GixorError;
use crate::errors::Result;
use crate::errors::errs_vec_to_result;
use crate::errors::single_err_or_errs_array;
use crate::name::Name;
use crate::repos::Boilerplate;
use crate::repos::BoilerplateView;
use crate::repos::DirProbe;
use crate::repos::Repository;
use crate::repos::RepositoryView;
use crate::repos::bps_view;
use crate::repos::repos_view;
use crate::repos::wf_entry;
use crate::routine::many_outcome_matches;
use crate::routine::outcome_matches;
use crate::routine::resolve_list_in;
use crate::routine::resolve_list_spec;
use crate::routine::resolve_many_in;
use crate::routine::resolve_one_in;
use crate::routine::resolve_one_spec;
use crate::strutil::first_where;
use crate::strutil::lemma_first_where_at;
use crate::strutil::lemma_first_where_none;
use crate::strutil::str_eq;
use crate::strutil::strs_view;

verus! {

/// The mathematical value of a [`Config`].
pub struct ConfigView {
    pub repositories: Seq<RepositoryView>,
    pub aliases: Option<Seq<AliasView>>,
    pub base_path: Seq<char>,
}

/// The configuration: the repository list, the optional alias table, and
/// the base path under which the clones live.
#[derive(Debug)]
pub struct Config {
    pub repositories: Vec<Repository>,
    pub aliases: Option<Aliases>,
    pub base_path: String,
}

impl View for Config {
    type V = ConfigView;

    open spec fn view(&self) -> ConfigView {
        ConfigView {
            repositories: repos_view(self.repositories@),
            aliases: match self.aliases {
                Some(ref a) => Some(a@),
                None => None,
            },
            base_path: self.base_path@,
        }
    }
}

/// The aliases of a configuration; an absent table holds none.
pub open spec fn config_aliases(c: ConfigView) -> Seq<AliasView> {
    match c.aliases {
        Some(a) => a,
        None => Seq::empty(),
    }
}

/// The alias-expansion budget a table of `n` aliases warrants: nesting
/// deeper than `n` levels can only arise from a cycle.
pub open spec fn default_fuel(n: nat) -> nat {
    if n >= usize::MAX {
        usize::MAX as nat
    } else {
        n + 1
    }
}

/// An entry of a multi-repository catalog is well formed when it is well
/// formed for one of the configured repositories.
pub open spec fn wf_catalog_entry(b: BoilerplateView, c: ConfigView) -> bool {
    exists|k: int| 0 <= k < c.repositories.len() && wf_entry(b, #[trigger] c.repositories[k], c.base_path)
}

/// The concatenation of per-repository catalog segments, in order.
pub open spec fn flatten_parts(parts: Seq<Seq<BoilerplateView>>) -> Seq<BoilerplateView>
    decreases parts.len(),
{
    if parts.len() == 0 {
        Seq::empty()
    } else {
        flatten_parts(parts.drop_last()) + parts.last()
    }
}

/// The shape of a multi-repository catalog: one discovery segment per
/// configured repository, in registration order.
pub open spec fn catalog_parts(c: ConfigView, parts: Seq<Seq<BoilerplateView>>) -> bool {
    parts.len() == c.repositories.len() && forall|k: int|
        0 <= k < parts.len() ==> crate::repos::is_discovery(
            #[trigger] parts[k],
            c.repositories[k],
            c.base_path,
        )
}

impl Config {
    /// The number of aliases configured.
    fn alias_count(&self) -> (r: usize)
        ensures
            r == config_aliases(self@).len(),
    {
        match &self.aliases {
            Some(a) => a.aliases.len(),
            None => 0,
        }
    }

    /// The alias-expansion budget for this configuration.
    fn fuel(&self) -> (r: usize)
        ensures
            r as nat == default_fuel(config_aliases(self@).len()),
    {
        let n = self.alias_count();
        if n == usize::MAX {
            n
        } else {
            n + 1
        }
    }

    /// The boilerplates of every configured repository: each repository's
    /// discovery, concatenated in registration order. What is on disk
    /// decides which entries each walk yields; every entry that comes back
    /// belongs to one of the configured repositories.
    pub fn iter(&self) -> (r: Vec<Boilerplate>)
        ensures
            exists|parts: Seq<Seq<BoilerplateView>>|
                catalog_parts(self@, parts) && bps_view(r@) == flatten_parts(parts),
            forall|i: int| 0 <= i < r@.len() ==> wf_catalog_entry(#[trigger] bps_view(r@)[i], self@),
    {
        let mut out: Vec<Boilerplate> = Vec::new();
        let ghost mut parts: Seq<Seq<BoilerplateView>> = Seq::empty();
        proof {
            assert(bps_view(out@) =~= flatten_parts(parts));
        }
        let n = self.repositories.len();
        let mut i: usize = 0;
        while i < n
            invariant
                n == self.repositories@.len(),
                i <= n,
                parts.len() == i,
                forall|k: int|
                    0 <= k < parts.len() ==> crate::repos::is_discovery(
                        #[trigger] parts[k],
                        self@.repositories[k],
                        self@.base_path,
                    ),
                bps_view(out@) == flatten_parts(parts),
                forall|k: int|
                    0 <= k < out@.len() ==> wf_catalog_entry(#[trigger] bps_view(out@)[k], self@),
            decreases n - i,
        {
            let ghost before = out@;
            let ghost parts_before = parts;
            let mut found = self.repositories[i].iter(&self.base_path);
            let ghost foundv = bps_view(found@);
            proof {
                assert(self.repositories@[i as int]@ == self@.repositories[i as int]);
                assert(crate::repos::is_discovery(
                    foundv,
                    self@.repositories[i as int],
                    self@.base_path,
                ));
                parts = parts.push(foundv);
                assert(parts.drop_last() =~= parts_before);
                assert(parts.last() == foundv);
            }
            out.append(&mut found);
            proof {
                crate::repos::lemma_bps_view_concat(
                    out@.subrange(0, before.len() as int),
                    out@.subrange(before.len() as int, out@.len() as int),
                );
                assert(out@.subrange(0, before.len() as int) + out@.subrange(
                    before.len() as int,
                    out@.len() as int,
                ) =~= out@);
                assert(bps_view(out@) =~= bps_view(before) + foundv);
                assert(bps_view(out@) == flatten_parts(parts));
                assert forall|k: int|
                    0 <= k < out@.len() implies wf_catalog_entry(
                    #[trigger] bps_view(out@)[k],
                    self@,
                ) by {
                    if k < before.len() {
                        assert(bps_view(out@)[k] == bps_view(before)[k]);
                    } else {
                        assert(bps_view(out@)[k] == foundv[k - before.len()]);
                        assert(wf_entry(
                            foundv[k - before.len()],
                            self@.repositories[i as int],
                            self@.base_path,
                        ));
                    }
                }
            }
            i = i + 1;
        }
        out
    }

    /// Finds the boilerplates the given name resolves to: through the alias
    /// table first, else by scanning the catalog — each repository's
    /// discovery, concatenated in registration order — for the first
    /// match.
    pub fn find(&self, name: &Name) -> (r: Result<Vec<Boilerplate>>)
        ensures
            exists|parts: Seq<Seq<BoilerplateView>>|
                catalog_parts(self@, parts) && outcome_matches(
                    resolve_one_spec(
                        config_aliases(self@),
                        flatten_parts(parts),
                        name@,
                        default_fuel(config_aliases(self@).len()),
                    ),
                    r,
                ),
    {
        let catalog = self.iter();
        let fuel = self.fuel();
        proof {
            let parts = choose|parts: Seq<Seq<BoilerplateView>>|
                catalog_parts(self@, parts) && bps_view(catalog@) == flatten_parts(parts);
        }
        match &self.aliases {
            Some(a) => {
                let res = resolve_one_in(&a.aliases, &catalog, name, fuel);
                proof {
                    assert(aliases_view(a.aliases@) == config_aliases(self@));
                }
                res
            },
            None => {
                let empty_aliases: Vec<Alias> = Vec::new();
                let res = resolve_one_in(&empty_aliases, &catalog, name, fuel);
                proof {
                    assert(aliases_view(empty_aliases@) =~= config_aliases(self@));
                }
                res
            },
        }
    }

    /// Finds the boilerplates of every given name in order, stopping at the
    /// first name that fails; all names resolve against one catalog, each
    /// repository's discovery concatenated in registration order.
    pub fn find_all(&self, names: &Vec<Name>) -> (r: Result<Vec<Boilerplate>>)
        ensures
            exists|parts: Seq<Seq<BoilerplateView>>|
                catalog_parts(self@, parts) && outcome_matches(
                    resolve_list_spec(
                        config_aliases(self@),
                        flatten_parts(parts),
                        crate::name::names_view(names@),
                        default_fuel(config_aliases(self@).len()),
                    ),
                    r,
                ),
    {
        let catalog = self.iter();
        let fuel = self.fuel();
        proof {
            let parts = choose|parts: Seq<Seq<BoilerplateView>>|
                catalog_parts(self@, parts) && bps_view(catalog@) == flatten_parts(parts);
        }
        match &self.aliases {
            Some(a) => {
                let res = resolve_list_in(&a.aliases, &catalog, names, fuel);
                proof {
                    assert(aliases_view(a.aliases@) == config_aliases(self@));
                }
                res
            },
            None => {
                let empty_aliases: Vec<Alias> = Vec::new();
                let res = resolve_list_in(&empty_aliases, &catalog, names, fuel);
                proof {
                    assert(aliases_view(empty_aliases@) =~= config_aliases(self@));
                }
                res
            },
        }
    }

    /// The shape of a preparation failure: a backend or dispatch error, or
    /// a composite of at least two such errors — a single failure is never
    /// needlessly wrapped.
    pub open spec fn prepare_err_shape(e: GixorError) -> bool {
        match e {
            GixorError::Git(_) => true,
            GixorError::Fatal(_) => true,
            GixorError::Array(a) => a@.len() >= 2 && forall|k: int|
                0 <= k < a@.len() ==> (#[trigger] a@[k]) is Git || a@[k] is Fatal,
            _ => false,
        }
    }

    /// Prepares every repository — clone when absent, else pull — unless
    /// network access is disabled, in which case nothing is touched. Every
    /// repository is attempted; the failures, if any, are folded into one
    /// error.
    pub fn prepare(
        &self,
        no_network: bool,
        probes: &Vec<DirProbe>,
        ssh_key: Option<&String>,
    ) -> (r: Result<()>)
        requires
            probes@.len() == self.repositories@.len(),
        ensures
            no_network ==> r is Ok,
            r matches Err(e) ==> Self::prepare_err_shape(e),
    {
        if no_network {
            return Ok(());
        }
        let mut errs: Vec<GixorError> = Vec::new();
        let n = self.repositories.len();
        let mut i: usize = 0;
        while i < n
            invariant
                n == self.repositories@.len(),
                probes@.len() == n,
                i <= n,
                forall|k: int| 0 <= k < errs@.len() ==> (#[trigger] errs@[k]) is Git
                    || errs@[k] is Fatal,
            decreases n - i,
        {
            match self.repositories[i].prepare(&self.base_path, probes[i], ssh_key) {
                Ok(_) => {},
                Err(e) => {
                    errs.push(e);
                },
            }
            i = i + 1;
        }
        errs_vec_to_result(errs, ())
    }
}

/// The predicate "this repository carries the name".
pub open spec fn repo_named(name: Seq<char>) -> spec_fn(RepositoryView) -> bool {
    |r: RepositoryView| r.name == name
}

/// The first repository with the given name, if any. Lookup is by exact,
/// case-sensitive name.
pub open spec fn find_repo_spec(repos: Seq<RepositoryView>, name: Seq<char>) -> Option<int> {
    first_where(repos, repo_named(name))
}

/// The names of a query that match no configured repository, in order.
pub open spec fn missing_repo_names(repos: Seq<RepositoryView>, names: Seq<Seq<char>>) -> Seq<
    Seq<char>,
>
    decreases names.len(),
{
    if names.len() == 0 {
        Seq::empty()
    } else {
        missing_repo_names(repos, names.drop_last())
            + (if find_repo_spec(repos, names.last()) is None {
            seq![names.last()]
        } else {
            Seq::empty()
        })
    }
}

/// The repositories a query selects, one per matching name, in query
/// order.
pub open spec fn selected_repos(repos: Seq<RepositoryView>, names: Seq<Seq<char>>) -> Seq<
    RepositoryView,
>
    decreases names.len(),
{
    if names.len() == 0 {
        Seq::empty()
    } else {
        selected_repos(repos, names.drop_last())
            + (match find_repo_spec(repos, names.last()) {
            Some(i) => seq![repos[i]],
            None => Seq::empty(),
        })
    }
}

/// Whether the error reports the given repository name as missing.
pub open spec fn is_repo_not_found(e: GixorError, name: Seq<char>) -> bool {
    match e {
        GixorError::RepositoryNotFound(s) => s@ == name,
        _ => false,
    }
}

/// The first repository of the list with the given name, by index.
fn find_repository_index(repos: &Vec<Repository>, name: &str) -> (r: Option<usize>)
    ensures
        match r {
            Some(i) => find_repo_spec(repos_view(repos@), name@) == Some(i as int),
            None => find_repo_spec(repos_view(repos@), name@) is None,
        },
{
    let ghost views = repos_view(repos@);
    let n = repos.len();
    let mut i: usize = 0;
    while i < n
        invariant
            n == repos@.len(),
            views == repos_view(repos@),
            i <= n,
            forall|j: int| 0 <= j < i ==> !repo_named(name@)(views[j]),
        decreases n - i,
    {
        if str_eq(repos[i].name.as_str(), name) {
            proof {
                lemma_first_where_at(views, repo_named(name@), i as int);
            }
            return Some(i);
        }
        i = i + 1;
    }
    proof {
        lemma_first_where_none(views, repo_named(name@));
    }
    None
}

/// A deep copy of a list of repositories, value for value.
fn duplicate_repositories(repos: &Vec<Repository>) -> (r: Vec<Repository>)
    ensures
        repos_view(r@) == repos_view(repos@),
{
    let mut out: Vec<Repository> = Vec::new();
    let n = repos.len();
    let mut i: usize = 0;
    while i < n
        invariant
            n == repos@.len(),
            i <= n,
            repos_view(out@) == repos_view(repos@).take(i as int),
        decreases n - i,
    {
        let ghost before = out@;
        let x = repos[i].duplicate();
        proof {
            assert(x@ == repos@[i as int]@);
        }
        out.push(x);
        proof {
            assert(out@ == before.push(x));
            assert(repos_view(before).len() == before.len());
            assert(before.len() == i as int);
            assert forall|j: int| 0 <= j < i + 1 implies repos_view(out@)[j] == repos_view(
                repos@,
            ).take(i + 1)[j] by {
                if j < i {
                    assert(repos_view(before)[j] == repos_view(repos@).take(i as int)[j]);
                    assert(out@[j] == before[j]);
                } else {
                    assert(out@[j] == x);
                }
            }
            assert(repos_view(out@) =~= repos_view(repos@).take(i + 1));
        }
        i = i + 1;
    }
    proof {
        assert(repos_view(repos@).take(n as int) =~= repos_view(repos@));
    }
    out
}

/// The mathematical value of a [`Gixor`].
pub struct GixorView {
    pub config: ConfigView,
    pub load_from: Seq<char>,
}

/// The main structure of the library: the configuration together with the
/// path it was loaded from.
#[derive(Debug)]
pub struct Gixor {
    pub config: Config,
    pub load_from: String,
}

impl View for Gixor {
    type V = GixorView;

    open spec fn view(&self) -> GixorView {
        GixorView { config: self.config@, load_from: self.load_from@ }
    }
}

/// A log verbosity level.
#[derive(Debug, Clone, PartialEq, Eq, Structural)]
pub enum LogLevel {
    Trace,
    Debug,
    Info,
    Warn,
    Error,
}

impl Gixor {
    /// A `Gixor` over the given configuration, remembering where it was
    /// loaded from.
    pub fn new(config: Config, load_from: String) -> (r: Self)
        ensures
            r@.config == config@,
            r@.load_from == load_from@,
    {
        Gixor { config, load_from }
    }

    /// The base path of this configuration.
    pub fn base_path(&self) -> (r: &str)
        ensures
            r@ == self@.config.base_path,
    {
        self.config.base_path.as_str()
    }

    /// Prepares every repository — clone when absent, else pull — unless
    /// network access is disabled.
    pub fn prepare(
        &self,
        no_network: bool,
        probes: &Vec<DirProbe>,
        ssh_key: Option<&String>,
    ) -> (r: Result<()>)
        requires
            probes@.len() == self.config.repositories@.len(),
        ensures
            no_network ==> r is Ok,
            r matches Err(e) ==> Config::prepare_err_shape(e),
    {
        self.config.prepare(no_network, probes, ssh_key)
    }

    /// The boilerplates of every configured repository: each repository's
    /// discovery, concatenated in registration order.
    pub fn iter(&self) -> (r: Vec<Boilerplate>)
        ensures
            exists|parts: Seq<Seq<BoilerplateView>>|
                catalog_parts(self@.config, parts) && bps_view(r@) == flatten_parts(parts),
            forall|i: int|
                0 <= i < r@.len() ==> wf_catalog_entry(#[trigger] bps_view(r@)[i], self@.config),
    {
        self.config.iter()
    }

    /// Finds the boilerplates the given name resolves to: through the alias
    /// table first, else the first match of the registration-ordered
    /// catalog.
    pub fn find(&self, name: &Name) -> (r: Result<Vec<Boilerplate>>)
        ensures
            exists|parts: Seq<Seq<BoilerplateView>>|
                catalog_parts(self@.config, parts) && outcome_matches(
                    resolve_one_spec(
                        config_aliases(self@.config),
                        flatten_parts(parts),
                        name@,
                        default_fuel(config_aliases(self@.config).len()),
                    ),
                    r,
                ),
    {
        self.config.find(name)
    }
}

/// Finds the boilerplates of every given name: every name is attempted
/// against one registration-ordered catalog, and the failures, if any, are
/// folded into one error naming them all.
pub fn find_boilerplates(gixor: &Gixor, names: &Vec<Name>) -> (r: Result<Vec<Boilerplate>>)
    ensures
        exists|parts: Seq<Seq<BoilerplateView>>|
            catalog_parts(gixor@.config, parts) && many_outcome_matches(
                config_aliases(gixor@.config),
                flatten_parts(parts),
                crate::name::names_view(names@),
                default_fuel(config_aliases(gixor@.config).len()),
                r,
            ),
{
    let catalog = gixor.config.iter();
    let fuel = gixor.config.fuel();
    proof {
        let parts = choose|parts: Seq<Seq<BoilerplateView>>|
            catalog_parts(gixor@.config, parts) && bps_view(catalog@) == flatten_parts(parts);
    }
    match &gixor.config.aliases {
        Some(a) => {
            let res = resolve_many_in(&a.aliases, &catalog, names, fuel);
            proof {
                assert(aliases_view(a.aliases@) == config_aliases(gixor@.config));
            }
            res
        },
        None => {
            let empty_aliases: Vec<Alias> = Vec::new();
            let res = resolve_many_in(&empty_aliases, &catalog, names, fuel);
            proof {
                assert(aliases_view(empty_aliases@) =~= config_aliases(gixor@.config));
            }
            res
        },
    }
}

/// The target repositories of a query: all of them for an empty query,
/// else the named ones in query order; names that match nothing make the
/// whole query fail, with every missing name reported.
pub fn find_target_repositories(gixor: &Gixor, repository_names: &Vec<String>) -> (r: Result<
    Vec<Repository>,
>)
    ensures
        repository_names@.len() == 0 ==> (r matches Ok(v) && repos_view(v@)
            == gixor@.config.repositories),
        missing_repo_names(gixor@.config.repositories, strs_view(repository_names@)).len() == 0
            ==> (r matches Ok(v)),
        repository_names@.len() > 0 && missing_repo_names(
            gixor@.config.repositories,
            strs_view(repository_names@),
        ).len() == 0 ==> (r matches Ok(v) && repos_view(v@) == selected_repos(
            gixor@.config.repositories,
            strs_view(repository_names@),
        )),
        missing_repo_names(gixor@.config.repositories, strs_view(repository_names@)).len() == 1
            ==> (r matches Err(e) && is_repo_not_found(
            e,
            missing_repo_names(gixor@.config.repositories, strs_view(repository_names@))[0],
        )),
        missing_repo_names(gixor@.config.repositories, strs_view(repository_names@)).len() >= 2
            ==> (r matches Err(e) && e matches GixorError::Array(a) && a@.len()
            == missing_repo_names(gixor@.config.repositories, strs_view(repository_names@)).len()
            && forall|k: int|
            0 <= k < a@.len() ==> is_repo_not_found(
                #[trigger] a@[k],
                missing_repo_names(gixor@.config.repositories, strs_view(repository_names@))[k],
            )),
{
    let ghost rv = gixor@.config.repositories;
    let ghost nv = strs_view(repository_names@);
    if repository_names.is_empty() {
        proof {
            assert(missing_repo_names(rv, nv) =~= Seq::<Seq<char>>::empty());
        }
        return Ok(duplicate_repositories(&gixor.config.repositories));
    }
    let mut selected: Vec<Repository> = Vec::new();
    let mut errs: Vec<GixorError> = Vec::new();
    proof {
        assert(repos_view(selected@) =~= selected_repos(rv, nv.take(0)));
        assert(missing_repo_names(rv, nv.take(0)) =~= Seq::<Seq<char>>::empty());
    }
    let n = repository_names.len();
    let mut i: usize = 0;
    while i < n
        invariant
            n == repository_names@.len(),
            rv == gixor@.config.repositories,
            nv == strs_view(repository_names@),
            i <= n,
            repos_view(selected@) == selected_repos(rv, nv.take(i as int)),
            errs@.len() == missing_repo_names(rv, nv.take(i as int)).len(),
            forall|k: int|
                0 <= k < errs@.len() ==> is_repo_not_found(
                    #[trigger] errs@[k],
                    missing_repo_names(rv, nv.take(i as int))[k],
                ),
        decreases n - i,
    {
        proof {
            assert(nv.take(i + 1).drop_last() =~= nv.take(i as int));
            assert(nv.take(i + 1).last() == nv[i as int]);
            assert(nv[i as int] == repository_names@[i as int]@);
        }
        let ghost selv = repos_view(selected@);
        let ghost miss_pre = missing_repo_names(rv, nv.take(i as int));
        match find_repository_index(&gixor.config.repositories, repository_names[i].as_str()) {
            Some(j) => {
                let ghost before = selected@;
                let x = gixor.config.repositories[j].duplicate();
                proof {
                    assert(x@ == rv[j as int]);
                }
                selected.push(x);
                proof {
                    assert(selected@ == before.push(x));
                    assert(repos_view(before).len() == before.len());
                    assert forall|k: int| 0 <= k < selected@.len() implies repos_view(
                        selected@,
                    )[k] == selected_repos(rv, nv.take(i + 1))[k] by {
                        if k < before.len() {
                            assert(repos_view(before)[k] == selected_repos(
                                rv,
                                nv.take(i as int),
                            )[k]);
                            assert(selected@[k] == before[k]);
                        } else {
                            assert(selected@[k] == x);
                        }
                    }
                    assert(repos_view(selected@) =~= selected_repos(rv, nv.take(i + 1)));
                    assert(missing_repo_names(rv, nv.take(i + 1)) =~= miss_pre);
                }
            },
            None => {
                errs.push(
                    GixorError::RepositoryNotFound(repository_names[i].clone()),
                );
                proof {
                    assert(selected_repos(rv, nv.take(i + 1)) =~= selected_repos(
                        rv,
                        nv.take(i as int),
                    ));
                    assert(missing_repo_names(rv, nv.take(i + 1)) =~= miss_pre.push(
                        nv[i as int],
                    ));
                }
            },
        }
        i = i + 1;
    }
    proof {
        assert(nv.take(n as int) =~= nv);
    }
    if errs.is_empty() {
        Ok(selected)
    } else {
        single_err_or_errs_array(errs)
    }
}

/// The repository a URL alone builds: the owner name extracted from the
/// URL doubles as the repository's name and clone directory.
pub open spec fn repo_of_url(url: Seq<char>) -> RepositoryView {
    RepositoryView {
        name: crate::repos::url_owner_repo_spec(url).0,
        url: url,
        owner: crate::repos::url_owner_repo_spec(url).0,
        repo_name: crate::repos::url_owner_repo_spec(url).1,
        path: crate::repos::url_owner_repo_spec(url).0,
    }
}

/// Management of the configured boilerplate repositories.
pub trait RepositoryManager {
    /// The configured repositories, as values.
    spec fn repositories_view(&self) -> Seq<RepositoryView>;

    /// The base path under which the clones live.
    spec fn manager_base(&self) -> Seq<char>;

    /// The number of configured repositories.
    fn len(&self) -> (r: usize)
        ensures
            r == self.repositories_view().len(),
    ;

    /// Whether no repository is configured.
    fn is_empty(&self) -> (r: bool)
        ensures
            r == (self.repositories_view().len() == 0),
    ;

    /// The configured repositories, in order.
    fn repositories(&self) -> (r: &Vec<Repository>)
        ensures
            repos_view(r@) == self.repositories_view(),
    ;

    /// Finds the repository with the given name.
    fn repository(&self, name: &str) -> (r: Option<&Repository>)
        ensures
            match r {
                Some(rep) => {
                    &&& find_repo_spec(self.repositories_view(), name@) matches Some(i)
                    &&& rep@ == self.repositories_view()[find_repo_spec(
                        self.repositories_view(),
                        name@,
                    )->Some_0]
                },
                None => find_repo_spec(self.repositories_view(), name@) is None,
            },
    ;

    /// Adds the repository, validating it by an immediate clone: a failed
    /// clone leaves the configuration unchanged.
    fn add_repository(
        &mut self,
        repo: Repository,
        probe: DirProbe,
        ssh_key: Option<&String>,
    ) -> (r: Result<()>)
        ensures
            r is Ok ==> final (self).repositories_view() == old(self).repositories_view().push(
                repo@,
            ),
            r is Err ==> final (self).repositories_view() == old(self).repositories_view(),
            final (self).manager_base() == old(self).manager_base(),
    ;

    /// Adds the repository the URL describes, validating it by an
    /// immediate clone.
    fn add_repository_of(&mut self, url: &str, probe: DirProbe, ssh_key: Option<&String>) -> (r:
        Result<()>)
        ensures
            r is Ok ==> final (self).repositories_view() == old(self).repositories_view().push(
                repo_of_url(url@),
            ),
            r is Err ==> final (self).repositories_view() == old(self).repositories_view(),
            final (self).manager_base() == old(self).manager_base(),
    ;

    /// Removes the repository with the given name. Unless the clone
    /// directory is kept, its path is handed back for the caller to
    /// delete.
    fn remove_repository_with(&mut self, name: &str, keep_repo_dir: bool) -> (r: Result<
        Option<String>,
    >)
        ensures
            final (self).manager_base() == old(self).manager_base(),
            match find_repo_spec(old(self).repositories_view(), name@) {
                Some(i) => {
                    &&& final (self).repositories_view() == old(self).repositories_view().remove(
                        i,
                    )
                    &&& keep_repo_dir ==> r == Result::<Option<String>>::Ok(None)
                    &&& !keep_repo_dir ==> (r matches Ok(p) && p matches Some(path) && path@
                        == old(self).manager_base() + "/"@ + old(self).repositories_view()[i].name)
                },
                None => {
                    &&& final (self).repositories_view() == old(self).repositories_view()
                    &&& r matches Err(e)
                    &&& e matches GixorError::RepositoryNotFound(s)
                    &&& s@ == name@
                },
            },
    ;

    /// Removes the repository with the given name; its clone directory's
    /// path is handed back for the caller to delete.
    fn remove_repository(&mut self, name: &str) -> (r: Result<Option<String>>)
        ensures
            final (self).manager_base() == old(self).manager_base(),
            match find_repo_spec(old(self).repositories_view(), name@) {
                Some(i) => {
                    &&& final (self).repositories_view() == old(self).repositories_view().remove(
                        i,
                    )
                    &&& (r matches Ok(p) && p matches Some(path) && path@ == old(
                        self,
                    ).manager_base() + "/"@ + old(self).repositories_view()[i].name)
                },
                None => {
                    &&& final (self).repositories_view() == old(self).repositories_view()
                    &&& r matches Err(e)
                    &&& e matches GixorError::RepositoryNotFound(s)
                    &&& s@ == name@
                },
            },
    ;
}

/// Management of the aliases of a configuration.
pub trait AliasManager {
    /// The aliases, in order; an absent table holds none.
    spec fn aliases_table(&self) -> Seq<AliasView>;

    /// Whether an alias can be added: the table must be present.
    spec fn can_add_alias(&self) -> bool;

    /// How this container reports a name that names no alias.
    spec fn reports_missing_alias(&self, e: GixorError, name: Seq<char>) -> bool;

    /// The aliases, as values, in order.
    fn iter_aliases(&self) -> (r: Vec<Alias>)
        ensures
            aliases_view(r@) == self.aliases_table(),
    ;

    /// Removes the first alias with the given name, or reports that none
    /// carries it.
    fn remove_alias(&mut self, name: &str) -> (r: Result<()>)
        ensures
            match crate::alias::find_alias_spec(old(self).aliases_table(), name@) {
                Some(i) => final (self).aliases_table() == old(self).aliases_table().remove(i)
                    && r is Ok,
                None => {
                    &&& final (self).aliases_table() == old(self).aliases_table()
                    &&& r matches Err(e)
                    &&& old(self).reports_missing_alias(e, name@)
                },
            },
    ;

    /// Appends the given alias; nothing is rejected and duplicates may
    /// coexist.
    fn add_alias(&mut self, alias: Alias) -> (r: Result<()>)
        requires
            old(self).can_add_alias(),
        ensures
            final (self).aliases_table() == old(self).aliases_table().push(alias@),
            r is Ok,
    ;
}

impl RepositoryManager for Gixor {
    open spec fn repositories_view(&self) -> Seq<RepositoryView> {
        self@.config.repositories
    }

    open spec fn manager_base(&self) -> Seq<char> {
        self@.config.base_path
    }

    fn len(&self) -> (r: usize) {
        self.config.repositories.len()
    }

    fn is_empty(&self) -> (r: bool) {
        self.config.repositories.is_empty()
    }

    fn repositories(&self) -> (r: &Vec<Repository>) {
        &self.config.repositories
    }

    fn repository(&self, name: &str) -> (r: Option<&Repository>) {
        match find_repository_index(&self.config.repositories, name) {
            Some(i) => Some(&self.config.repositories[i]),
            None => None,
        }
    }

    fn add_repository(
        &mut self,
        repo: Repository,
        probe: DirProbe,
        ssh_key: Option<&String>,
    ) -> (r: Result<()>) {
        match repo.clone(&self.config.base_path, probe, ssh_key) {
            Err(e) => Err(e),
            Ok(_) => {
                let ghost before = self.config.repositories@;
                let ghost rv = repo@;
                self.config.repositories.push(repo);
                proof {
                    assert(self.config.repositories@ == before.push(
                        self.config.repositories@[before.len() as int],
                    ));
                    assert forall|j: int|
                        0 <= j < self.config.repositories@.len() implies repos_view(
                        self.config.repositories@,
                    )[j] == repos_view(before).push(rv)[j] by {
                        if j < before.len() {
                            assert(self.config.repositories@[j] == before[j]);
                        }
                    }
                    assert(repos_view(self.config.repositories@) =~= repos_view(before).push(rv));
                }
                Ok(())
            },
        }
    }

    fn add_repository_of(&mut self, url: &str, probe: DirProbe, ssh_key: Option<&String>) -> (r:
        Result<()>) {
        let repo = Repository::new(url);
        self.add_repository(repo, probe, ssh_key)
    }

    fn remove_repository_with(&mut self, name: &str, keep_repo_dir: bool) -> (r: Result<
        Option<String>,
    >) {
        match find_repository_index(&self.config.repositories, name) {
            Some(i) => {
                let ghost before = self.config.repositories@;
                let removed = self.config.repositories.remove(i);
                proof {
                    assert(removed == before[i as int]);
                    assert(self.config.repositories@ == before.remove(i as int));
                    assert forall|j: int|
                        0 <= j < self.config.repositories@.len() implies repos_view(
                        self.config.repositories@,
                    )[j] == repos_view(before).remove(i as int)[j] by {
                        if j < i {
                            assert(self.config.repositories@[j] == before[j]);
                        } else {
                            assert(self.config.repositories@[j] == before[j + 1]);
                        }
                    }
                    assert(repos_view(self.config.repositories@) =~= repos_view(before).remove(
                        i as int,
                    ));
                }
                if keep_repo_dir {
                    Ok(None)
                } else {
                    let p = crate::strutil::concat3(
                        self.config.base_path.as_str(),
                        "/",
                        removed.name.as_str(),
                    );
                    proof {
                        assert(p@ =~= self@.config.base_path + "/"@ + repos_view(before)[
                            i as int].name);
                    }
                    Ok(Some(p))
                }
            },
            None => Err(GixorError::RepositoryNotFound(name.to_owned())),
        }
    }

    fn remove_repository(&mut self, name: &str) -> (r: Result<Option<String>>) {
        self.remove_repository_with(name, false)
    }
}

impl AliasManager for Config {
    open spec fn aliases_table(&self) -> Seq<AliasView> {
        config_aliases(self@)
    }

    open spec fn can_add_alias(&self) -> bool {
        self@.aliases is Some
    }

    open spec fn reports_missing_alias(&self, e: GixorError, name: Seq<char>) -> bool {
        e matches GixorError::AliasNotFound(s) && s@ == name
    }

    fn iter_aliases(&self) -> (r: Vec<Alias>) {
        match &self.aliases {
            Some(a) => {
                let r = crate::alias::duplicate_aliases(&a.aliases);
                proof {
                    assert(aliases_view(a.aliases@) == config_aliases(self@));
                }
                r
            },
            None => {
                let r: Vec<Alias> = Vec::new();
                proof {
                    assert(aliases_view(r@) =~= config_aliases(self@));
                }
                r
            },
        }
    }

    fn remove_alias(&mut self, name: &str) -> (r: Result<()>) {
        match &mut self.aliases {
            None => {
                proof {
                    crate::strutil::lemma_first_where_none(
                        config_aliases(self@),
                        crate::alias::alias_named(name@),
                    );
                }
                Err(GixorError::AliasNotFound(name.to_owned()))
            },
            Some(a) => a.remove_alias(name),
        }
    }

    fn add_alias(&mut self, alias: Alias) -> (r: Result<()>) {
        match &mut self.aliases {
            Some(a) => a.add_alias(alias),
            None => {
                proof {
                    assert(false);
                }
                Err(GixorError::Fatal(String::new()))
            },
        }
    }
}

impl AliasManager for Gixor {
    open spec fn aliases_table(&self) -> Seq<AliasView> {
        config_aliases(self@.config)
    }

    open spec fn can_add_alias(&self) -> bool {
        self@.config.aliases is Some
    }

    open spec fn reports_missing_alias(&self, e: GixorError, name: Seq<char>) -> bool {
        self.config.reports_missing_alias(e, name)
    }

    fn iter_aliases(&self) -> (r: Vec<Alias>) {
        self.config.iter_aliases()
    }

    fn remove_alias(&mut self, name: &str) -> (r: Result<()>) {
        self.config.remove_alias(name)
    }

    fn add_alias(&mut self, alias: Alias) -> (r: Result<()>) {
        self.config.add_alias(alias)
    }
}

/// How a configured base path is resolved against the configuration file's
/// own directory: an absolute path, or one that opens with `.`, stands as
/// written; any other is put under the file's parent directory, if the
/// file has one.
pub open spec fn update_base_spec(base: Seq<char>, cfgpath: Seq<char>) -> Seq<char> {
    let parent = match crate::strutil::last_pos_of(cfgpath, '/') {
        Some(i) => cfgpath.take(i),
        None => Seq::<char>::empty(),
    };
    if crate::strutil::starts_with(base, "/"@) || crate::strutil::starts_with(base, "."@) {
        base
    } else if parent.len() == 0 {
        base
    } else {
        parent + "/"@ + base
    }
}

/// Resolves the configuration's base path against the configuration file's
/// directory.
pub fn update_base_path(config: Config, path: &str) -> (r: Config)
    ensures
        r@.repositories == config@.repositories,
        r@.aliases == config@.aliases,
        r@.base_path == update_base_spec(config@.base_path, path@),
{
    let n = path.unicode_len();
    let parent = match crate::strutil::rindex_of_char(path, '/') {
        Some(i) => {
            proof {
                crate::strutil::lemma_last_pos_at(path@, '/', i as int);
            }
            let p = path.substring_char(0, i);
            proof {
                assert(p@ =~= path@.take(i as int));
            }
            p
        },
        None => {
            proof {
                crate::strutil::lemma_last_pos_none(path@, '/');
                reveal_strlit("");
                assert(""@ =~= Seq::<char>::empty());
            }
            ""
        },
    };
    let keep = crate::strutil::str_starts_with(config.base_path.as_str(), "/")
        || crate::strutil::str_starts_with(config.base_path.as_str(), ".")
        || parent.unicode_len() == 0;
    if keep {
        config
    } else {
        let new_base = crate::strutil::concat3(parent, "/", config.base_path.as_str());
        proof {
            assert(new_base@ =~= parent@ + "/"@ + config.base_path@);
        }
        Config {
            repositories: config.repositories,
            aliases: config.aliases,
            base_path: new_base,
        }
    }
}

/// The builder of [`Gixor`]: assembles a configuration from its parts,
/// resolving the base path against the configuration file's directory.
pub struct GixorBuilder {}

impl GixorBuilder {
    /// A `Gixor` over the given parts. The base path is resolved relative
    /// to the directory of `load_from` unless absolute or explicitly
    /// relative.
    pub fn build(
        repositories: Vec<Repository>,
        aliases: Option<Aliases>,
        base_path: String,
        load_from: String,
    ) -> (r: Gixor)
        ensures
            r@.config.repositories == repos_view(repositories@),
            r@.config.aliases == (match aliases {
                Some(a) => Some(a@),
                None => None::<Seq<AliasView>>,
            }),
            r@.config.base_path == update_base_spec(base_path@, load_from@),
            r@.load_from == load_from@,
    {
        let config = Config { repositories, aliases, base_path };
        let config = update_base_path(config, load_from.as_str());
        Gixor { config, load_from }
    }
}

} // verus!
