//! The name-resolution engine: given the alias table and a catalog of the
//! boilerplates a scan discovered, a query resolves through the aliases
//! first — one alias may embed another — and falls back to scanning the
//! catalog, case-insensitively, in catalog order.
//!
//! Alias expansion is bounded: a nesting deeper than the number of aliases
//! can only arise from a cycle, and is treated as unresolvable instead of
//! recursing forever.

use vstd::prelude::*;
use vstd::string::StrSliceExecFns;
use crate::alias::Alias;
use crate::alias::AliasView;
use crate::alias::alias_named;
use crate::alias::aliases_view;
use crate::alias::find_alias_spec;
use crate::errors::GixorError;
use crate::errors::Result;
use crate::errors::errs_vec_to_result;
use crate::errors::suffixed;
use crate::name::Name;
use crate::name::NameView;
use crate::name::names_view;
use crate::repos::Boilerplate;
use crate::repos::BoilerplateView;
use crate::repos::bps_view;
use crate::repos::entry_matching;
use crate::repos::scan_first;
use crate::repos::lemma_bps_view_concat;
use crate::strutil::first_where;
use crate::strutil::lemma_first_where_at;
use crate::strutil::lemma_first_where_none;
use crate::strutil::str_eq;

verus! {

/// The failure of a resolution step, at the level of the model: the name
/// matched nothing, or alias expansion went deeper than any acyclic table
/// allows.
pub enum ResolveErr {
    NotFound(Seq<char>),
    TooDeep(Seq<char>),
}

/// Whether the given library error renders the model-level failure.
pub open spec fn resolve_err_matches(re: ResolveErr, e: GixorError) -> bool {
    match (re, e) {
        (ResolveErr::NotFound(n), GixorError::BoilerplateNotFound(s)) => s@ == n,
        (ResolveErr::TooDeep(n), GixorError::Fatal(s)) => s@ == n + ": alias nesting too deep"@,
        _ => false,
    }
}

/// A name may name an alias when its repository part is absent or is the
/// alias-namespace marker.
pub open spec fn alias_eligible(n: NameView) -> bool {
    n.repository_name is None || n.repository_name == Some("alias"@)
}

/// Scanning the catalog: the first matching entry, alone, or a not-found
/// failure naming the queried boilerplate.
pub open spec fn scan_spec(catalog: Seq<BoilerplateView>, n: NameView) -> core::result::Result<
    Seq<BoilerplateView>,
    ResolveErr,
> {
    match first_where(catalog, entry_matching(n)) {
        Some(i) => Ok(seq![catalog[i]]),
        None => Err(ResolveErr::NotFound(n.boilerplate_name)),
    }
}

/// Resolving one name: a name that may name an alias, and does, expands to
/// its members, resolved in order against the same catalog; if that
/// expansion fails — or the name names no alias — the catalog is scanned.
pub open spec fn resolve_one_spec(
    aliases: Seq<AliasView>,
    catalog: Seq<BoilerplateView>,
    n: NameView,
    fuel: nat,
) -> core::result::Result<Seq<BoilerplateView>, ResolveErr>
    decreases fuel, 0int, 0int,
{
    if alias_eligible(n) && find_alias_spec(aliases, n.boilerplate_name) is Some {
        let i = find_alias_spec(aliases, n.boilerplate_name)->Some_0;
        if fuel == 0 {
            Err(ResolveErr::TooDeep(n.boilerplate_name))
        } else {
            match resolve_list_spec(aliases, catalog, aliases[i].boilerplates, (fuel - 1) as nat) {
                Ok(bs) => Ok(bs),
                Err(_) => scan_spec(catalog, n),
            }
        }
    } else {
        scan_spec(catalog, n)
    }
}

/// Resolving a list of names member by member, stopping at the first
/// failure; successes concatenate in order.
pub open spec fn resolve_list_spec(
    aliases: Seq<AliasView>,
    catalog: Seq<BoilerplateView>,
    names: Seq<NameView>,
    fuel: nat,
) -> core::result::Result<Seq<BoilerplateView>, ResolveErr>
    decreases fuel, 1int, names.len(),
{
    if names.len() == 0 {
        Ok(Seq::empty())
    } else {
        match resolve_one_spec(aliases, catalog, names[0], fuel) {
            Err(e) => Err(e),
            Ok(bs) => match resolve_list_spec(aliases, catalog, names.skip(1), fuel) {
                Err(e) => Err(e),
                Ok(rest) => Ok(bs + rest),
            },
        }
    }
}

/// Whether an executable outcome renders a model-level outcome.
pub open spec fn outcome_matches(
    o: core::result::Result<Seq<BoilerplateView>, ResolveErr>,
    r: Result<Vec<Boilerplate>>,
) -> bool {
    match (o, r) {
        (Ok(bs), Ok(v)) => bps_view(v@) == bs,
        (Err(re), Err(e)) => resolve_err_matches(re, e),
        _ => false,
    }
}

/// The first alias with the given name, by index.
fn find_alias_index(aliases: &Vec<Alias>, name: &str) -> (r: Option<usize>)
    ensures
        match r {
            Some(i) => find_alias_spec(aliases_view(aliases@), name@) == Some(i as int),
            None => find_alias_spec(aliases_view(aliases@), name@) is None,
        },
{
    let ghost views = aliases_view(aliases@);
    let n = aliases.len();
    let mut i: usize = 0;
    while i < n
        invariant
            n == aliases@.len(),
            views == aliases_view(aliases@),
            i <= n,
            forall|j: int| 0 <= j < i ==> !alias_named(name@)(views[j]),
        decreases n - i,
    {
        if str_eq(aliases[i].name.as_str(), name) {
            proof {
                lemma_first_where_at(views, alias_named(name@), i as int);
            }
            return Some(i);
        }
        i = i + 1;
    }
    proof {
        lemma_first_where_none(views, alias_named(name@));
    }
    None
}

/// Whether the name may name an alias.
fn is_alias_eligible(name: &Name) -> (r: bool)
    ensures
        r == alias_eligible(name@),
{
    match &name.repository_name {
        None => true,
        Some(t) => str_eq(t.as_str(), "alias"),
    }
}

/// Scans the catalog for the first entry the name matches.
fn scan_catalog(catalog: &Vec<Boilerplate>, name: &Name) -> (r: Result<Vec<Boilerplate>>)
    ensures
        outcome_matches(scan_spec(bps_view(catalog@), name@), r),
{
    match scan_first(catalog, name) {
        Some(b) => {
            let ghost bv = b@;
            let mut v: Vec<Boilerplate> = Vec::new();
            v.push(b);
            proof {
                assert(bps_view(v@) =~= seq![bv]);
            }
            Ok(v)
        },
        None => Err(GixorError::BoilerplateNotFound(name.boilerplate_name.clone())),
    }
}

/// Resolves one name against the alias table and the catalog.
pub fn resolve_one_in(
    aliases: &Vec<Alias>,
    catalog: &Vec<Boilerplate>,
    name: &Name,
    fuel: usize,
) -> (r: Result<Vec<Boilerplate>>)
    ensures
        outcome_matches(
            resolve_one_spec(aliases_view(aliases@), bps_view(catalog@), name@, fuel as nat),
            r,
        ),
    decreases fuel, 0int,
{
    if is_alias_eligible(name) {
        match find_alias_index(aliases, name.boilerplate_name.as_str()) {
            Some(i) => {
                if fuel == 0 {
                    Err(GixorError::Fatal(suffixed(
                        &name.boilerplate_name,
                        ": alias nesting too deep",
                    )))
                } else {
                    proof {
                        assert(aliases_view(aliases@)[i as int].boilerplates == names_view(
                            aliases@[i as int].boilerplates@,
                        ));
                    }
                    match resolve_list_in(aliases, catalog, &aliases[i].boilerplates, fuel - 1) {
                        Ok(bs) => Ok(bs),
                        Err(_) => scan_catalog(catalog, name),
                    }
                }
            },
            None => scan_catalog(catalog, name),
        }
    } else {
        scan_catalog(catalog, name)
    }
}

/// Resolves a list of names in order, stopping at the first failure.
pub fn resolve_list_in(
    aliases: &Vec<Alias>,
    catalog: &Vec<Boilerplate>,
    names: &Vec<Name>,
    fuel: usize,
) -> (r: Result<Vec<Boilerplate>>)
    ensures
        outcome_matches(
            resolve_list_spec(
                aliases_view(aliases@),
                bps_view(catalog@),
                names_view(names@),
                fuel as nat,
            ),
            r,
        ),
    decreases fuel, 1int,
{
    let ghost av = aliases_view(aliases@);
    let ghost cv = bps_view(catalog@);
    let ghost nv = names_view(names@);
    let ghost fz = fuel as nat;
    let mut acc: Vec<Boilerplate> = Vec::new();
    proof {
        assert(nv.skip(0) =~= nv);
        assert(bps_view(acc@) =~= Seq::<BoilerplateView>::empty());
    }
    let n = names.len();
    let mut i: usize = 0;
    while i < n
        invariant
            n == names@.len(),
            av == aliases_view(aliases@),
            cv == bps_view(catalog@),
            nv == names_view(names@),
            fz == fuel as nat,
            i <= n,
            resolve_list_spec(av, cv, nv, fz) == (match resolve_list_spec(
                av,
                cv,
                nv.skip(i as int),
                fz,
            ) {
                Ok(rest) => Ok::<Seq<BoilerplateView>, ResolveErr>(bps_view(acc@) + rest),
                Err(e) => Err(e),
            }),
        decreases n - i,
    {
        proof {
            assert(nv.skip(i as int)[0] == nv[i as int]);
            assert(nv.skip(i as int).skip(1) =~= nv.skip(i + 1));
            assert(nv[i as int] == names@[i as int]@);
        }
        let ghost accv = bps_view(acc@);
        match resolve_one_in(aliases, catalog, &names[i], fuel) {
            Err(e) => {
                return Err(e);
            },
            Ok(mut bs) => {
                let ghost bsv = bps_view(bs@);
                acc.append(&mut bs);
                proof {
                    lemma_bps_view_concat(acc@.subrange(0, accv.len() as int), acc@.subrange(accv.len() as int, acc@.len() as int));
                    assert(acc@.subrange(0, accv.len() as int) + acc@.subrange(accv.len() as int, acc@.len() as int) =~= acc@);
                    assert(bps_view(acc@) =~= accv + bsv);
                    match resolve_list_spec(av, cv, nv.skip(i + 1), fz) {
                        Ok(rest) => {
                            assert((accv + bsv) + rest =~= accv + (bsv + rest));
                        },
                        Err(_) => {},
                    }
                }
            },
        }
        i = i + 1;
    }
    proof {
        assert(nv.skip(n as int) =~= Seq::<NameView>::empty());
        assert(bps_view(acc@) + Seq::<BoilerplateView>::empty() =~= bps_view(acc@));
    }
    Ok(acc)
}

/// The failures a batch of queries yields, one per failing name, in order.
pub open spec fn many_errs(
    aliases: Seq<AliasView>,
    catalog: Seq<BoilerplateView>,
    names: Seq<NameView>,
    fuel: nat,
) -> Seq<ResolveErr>
    decreases names.len(),
{
    if names.len() == 0 {
        Seq::empty()
    } else {
        many_errs(aliases, catalog, names.drop_last(), fuel)
            + (match resolve_one_spec(aliases, catalog, names.last(), fuel) {
            Ok(_) => Seq::empty(),
            Err(re) => seq![re],
        })
    }
}

/// The resolutions a batch of queries yields, concatenated in input order;
/// failing names contribute nothing here.
pub open spec fn many_oks(
    aliases: Seq<AliasView>,
    catalog: Seq<BoilerplateView>,
    names: Seq<NameView>,
    fuel: nat,
) -> Seq<BoilerplateView>
    decreases names.len(),
{
    if names.len() == 0 {
        Seq::empty()
    } else {
        many_oks(aliases, catalog, names.drop_last(), fuel)
            + (match resolve_one_spec(aliases, catalog, names.last(), fuel) {
            Ok(bs) => bs,
            Err(_) => Seq::empty(),
        })
    }
}

/// Whether an executable batch outcome renders the model: with no failing
/// name the resolutions concatenate in input order; a single failure is
/// returned as itself; several are wrapped into one composite error naming
/// them all, in order.
pub open spec fn many_outcome_matches(
    aliases: Seq<AliasView>,
    catalog: Seq<BoilerplateView>,
    names: Seq<NameView>,
    fuel: nat,
    r: Result<Vec<Boilerplate>>,
) -> bool {
    let errs = many_errs(aliases, catalog, names, fuel);
    if errs.len() == 0 {
        match r {
            Ok(v) => bps_view(v@) == many_oks(aliases, catalog, names, fuel),
            Err(_) => false,
        }
    } else if errs.len() == 1 {
        match r {
            Err(e) => resolve_err_matches(errs[0], e),
            _ => false,
        }
    } else {
        match r {
            Err(e) => match e {
                GixorError::Array(a) => a@.len() == errs.len() && forall|k: int|
                    0 <= k < a@.len() ==> resolve_err_matches(errs[k], #[trigger] a@[k]),
                _ => false,
            },
            _ => false,
        }
    }
}

/// Resolves every name of a batch independently, never stopping at a
/// failure: with none, the resolutions concatenate in input order; a single
/// failure is returned as itself; several are wrapped into one composite
/// error naming them all.
pub fn resolve_many_in(
    aliases: &Vec<Alias>,
    catalog: &Vec<Boilerplate>,
    names: &Vec<Name>,
    fuel: usize,
) -> (r: Result<Vec<Boilerplate>>)
    ensures
        many_outcome_matches(
            aliases_view(aliases@),
            bps_view(catalog@),
            names_view(names@),
            fuel as nat,
            r,
        ),
{
    let ghost av = aliases_view(aliases@);
    let ghost cv = bps_view(catalog@);
    let ghost nv = names_view(names@);
    let ghost fz = fuel as nat;
    let mut flat: Vec<Boilerplate> = Vec::new();
    let mut errs: Vec<GixorError> = Vec::new();
    proof {
        assert(bps_view(flat@) =~= Seq::<BoilerplateView>::empty());
    }
    let n = names.len();
    let mut i: usize = 0;
    while i < n
        invariant
            n == names@.len(),
            av == aliases_view(aliases@),
            cv == bps_view(catalog@),
            nv == names_view(names@),
            fz == fuel as nat,
            i <= n,
            bps_view(flat@) == many_oks(av, cv, nv.take(i as int), fz),
            errs@.len() == many_errs(av, cv, nv.take(i as int), fz).len(),
            forall|k: int|
                0 <= k < errs@.len() ==> resolve_err_matches(
                    many_errs(av, cv, nv.take(i as int), fz)[k],
                    #[trigger] errs@[k],
                ),
        decreases n - i,
    {
        proof {
            assert(nv.take(i + 1).drop_last() =~= nv.take(i as int));
            assert(nv.take(i + 1).last() == nv[i as int]);
            assert(nv[i as int] == names@[i as int]@);
        }
        let ghost flatv = bps_view(flat@);
        let ghost errs_pre = many_errs(av, cv, nv.take(i as int), fz);
        match resolve_one_in(aliases, catalog, &names[i], fuel) {
            Ok(mut bs) => {
                let ghost bsv = bps_view(bs@);
                flat.append(&mut bs);
                proof {
                    lemma_bps_view_concat(
                        flat@.subrange(0, flatv.len() as int),
                        flat@.subrange(flatv.len() as int, flat@.len() as int),
                    );
                    assert(flat@.subrange(0, flatv.len() as int) + flat@.subrange(
                        flatv.len() as int,
                        flat@.len() as int,
                    ) =~= flat@);
                    assert(bps_view(flat@) =~= flatv + bsv);
                    assert(many_oks(av, cv, nv.take(i + 1), fz) == flatv + bsv);
                    assert(many_errs(av, cv, nv.take(i + 1), fz) =~= errs_pre);
                }
            },
            Err(e) => {
                proof {
                    assert(many_oks(av, cv, nv.take(i + 1), fz) == flatv);
                }
                errs.push(e);
                proof {
                    assert(many_errs(av, cv, nv.take(i + 1), fz) =~= errs_pre.push(
                        many_errs(av, cv, nv.take(i + 1), fz).last(),
                    ));
                }
            },
        }
        i = i + 1;
    }
    proof {
        assert(nv.take(n as int) =~= nv);
    }
    errs_vec_to_result(errs, flat)
}

/// The predicate "this line opens a generated header".
pub open spec fn marker_line() -> spec_fn(Seq<char>) -> bool {
    |l: Seq<char>| crate::strutil::starts_with(l, "### "@)
}

/// The prologue of an output file's lines: everything before the first
/// generated header line.
pub open spec fn prologue_spec(lines: Seq<Seq<char>>) -> Seq<Seq<char>> {
    match first_where(lines, marker_line()) {
        Some(i) => lines.take(i),
        None => lines,
    }
}

/// The leading lines of an output file that stand before the first
/// generated header line; they are preserved across repeated dumps.
pub fn load_prologue(lines: &Vec<String>) -> (r: Vec<String>)
    ensures
        crate::strutil::strs_view(r@) == prologue_spec(crate::strutil::strs_view(lines@)),
{
    let ghost lv = crate::strutil::strs_view(lines@);
    let mut out: Vec<String> = Vec::new();
    proof {
        assert(crate::strutil::strs_view(out@) =~= lv.take(0));
    }
    let n = lines.len();
    let mut i: usize = 0;
    while i < n
        invariant
            n == lines@.len(),
            lv == crate::strutil::strs_view(lines@),
            i <= n,
            crate::strutil::strs_view(out@) == lv.take(i as int),
            forall|j: int| 0 <= j < i ==> !marker_line()(lv[j]),
        decreases n - i,
    {
        if crate::strutil::str_starts_with(lines[i].as_str(), "### ") {
            proof {
                lemma_first_where_at(lv, marker_line(), i as int);
            }
            return out;
        }
        let ghost before = out@;
        out.push(lines[i].clone());
        proof {
            assert(out@ == before.push(out@[before.len() as int]));
            assert(crate::strutil::strs_view(before).len() == before.len());
            assert(before.len() == i as int);
            assert forall|j: int| 0 <= j < i + 1 implies crate::strutil::strs_view(out@)[j]
                == lv.take(i + 1)[j] by {
                if j < i {
                    assert(crate::strutil::strs_view(before)[j] == lv.take(i as int)[j]);
                    assert(out@[j] == before[j]);
                }
            }
            assert(crate::strutil::strs_view(out@) =~= lv.take(i + 1));
        }
        i = i + 1;
    }
    proof {
        lemma_first_where_none(lv, marker_line());
        assert(lv.take(n as int) =~= lv);
    }
    out
}

/// Matching is case-insensitive: two queries whose parts agree once
/// lowercased — a `RUST` query and a `rust` query — select the same catalog
/// entry, whatever the catalog holds.
pub proof fn lemma_matching_case_insensitive(
    catalog: Seq<BoilerplateView>,
    q1: NameView,
    q2: NameView,
)
    requires
        crate::name::lower_of(q1.boilerplate_name) == crate::name::lower_of(q2.boilerplate_name),
        match (q1.repository_name, q2.repository_name) {
            (Some(a), Some(b)) => crate::name::lower_of(a) == crate::name::lower_of(b),
            (None, None) => true,
            _ => false,
        },
    ensures
        first_where(catalog, entry_matching(q1)) == first_where(catalog, entry_matching(q2)),
{
    assert forall|i: int| 0 <= i < catalog.len() implies entry_matching(q1)(catalog[i])
        == entry_matching(q2)(catalog[i]) by {
    }
    crate::strutil::lemma_first_where_congruence(catalog, entry_matching(q1), entry_matching(q2));
}

/// Resolution is case-insensitive: two queries whose parts agree once
/// lowercased, neither naming an alias, resolve the same entry — the same
/// single result, or both a not-found failure naming the query as each
/// spelled it.
pub proof fn lemma_resolution_case_insensitive(
    aliases: Seq<AliasView>,
    catalog: Seq<BoilerplateView>,
    q1: NameView,
    q2: NameView,
    fuel: nat,
)
    requires
        crate::name::lower_of(q1.boilerplate_name) == crate::name::lower_of(q2.boilerplate_name),
        match (q1.repository_name, q2.repository_name) {
            (Some(a), Some(b)) => crate::name::lower_of(a) == crate::name::lower_of(b),
            (None, None) => true,
            _ => false,
        },
        find_alias_spec(aliases, q1.boilerplate_name) is None,
        find_alias_spec(aliases, q2.boilerplate_name) is None,
    ensures
        resolve_one_spec(aliases, catalog, q1, fuel) is Ok <==> resolve_one_spec(
            aliases,
            catalog,
            q2,
            fuel,
        ) is Ok,
        resolve_one_spec(aliases, catalog, q1, fuel) is Ok ==> resolve_one_spec(
            aliases,
            catalog,
            q1,
            fuel,
        )->Ok_0 == resolve_one_spec(aliases, catalog, q2, fuel)->Ok_0,
        resolve_one_spec(aliases, catalog, q1, fuel) is Err ==> {
            &&& resolve_one_spec(aliases, catalog, q1, fuel)->Err_0 == ResolveErr::NotFound(
                q1.boilerplate_name,
            )
            &&& resolve_one_spec(aliases, catalog, q2, fuel)->Err_0 == ResolveErr::NotFound(
                q2.boilerplate_name,
            )
        },
{
    lemma_matching_case_insensitive(catalog, q1, q2);
    assert(resolve_one_spec(aliases, catalog, q1, fuel) == scan_spec(catalog, q1));
    assert(resolve_one_spec(aliases, catalog, q2, fuel) == scan_spec(catalog, q2));
}

/// An alias resolves to its members' resolutions: a name that hits an
/// alias, and whose member expansion succeeds, yields exactly what the
/// member list resolves to against the same catalog.
pub proof fn lemma_alias_expansion(
    aliases: Seq<AliasView>,
    catalog: Seq<BoilerplateView>,
    n: NameView,
    fuel: nat,
)
    requires
        alias_eligible(n),
        find_alias_spec(aliases, n.boilerplate_name) is Some,
        fuel >= 1,
        resolve_list_spec(
            aliases,
            catalog,
            aliases[find_alias_spec(aliases, n.boilerplate_name)->Some_0].boilerplates,
            (fuel - 1) as nat,
        ) is Ok,
    ensures
        resolve_one_spec(aliases, catalog, n, fuel) == resolve_list_spec(
            aliases,
            catalog,
            aliases[find_alias_spec(aliases, n.boilerplate_name)->Some_0].boilerplates,
            (fuel - 1) as nat,
        ),
{
}

/// A member list resolves to the flattened, order-preserving concatenation
/// of its members' resolutions: the first member's resolution stands first,
/// followed by the rest's, in order. A member that itself names an alias
/// expands the same way, so the ultimate non-alias members flatten in
/// declaration order.
pub proof fn lemma_expansion_concat(
    aliases: Seq<AliasView>,
    catalog: Seq<BoilerplateView>,
    names: Seq<NameView>,
    fuel: nat,
)
    requires
        names.len() > 0,
        resolve_list_spec(aliases, catalog, names, fuel) is Ok,
    ensures
        resolve_one_spec(aliases, catalog, names[0], fuel) is Ok,
        resolve_list_spec(aliases, catalog, names.skip(1), fuel) is Ok,
        resolve_list_spec(aliases, catalog, names, fuel)->Ok_0 == resolve_one_spec(
            aliases,
            catalog,
            names[0],
            fuel,
        )->Ok_0 + resolve_list_spec(aliases, catalog, names.skip(1), fuel)->Ok_0,
{
}

/// A batch with one failing and one succeeding name fails with that one
/// failure alone, identifying only the failing name.
pub proof fn lemma_batch_single_failure(
    aliases: Seq<AliasView>,
    catalog: Seq<BoilerplateView>,
    good: NameView,
    bad: NameView,
    fuel: nat,
)
    requires
        resolve_one_spec(aliases, catalog, good, fuel) is Ok,
        resolve_one_spec(aliases, catalog, bad, fuel) is Err,
    ensures
        many_errs(aliases, catalog, seq![good, bad], fuel) == seq![
            resolve_one_spec(aliases, catalog, bad, fuel)->Err_0,
        ],
{
    let pair = seq![good, bad];
    assert(pair.drop_last() =~= seq![good]);
    assert(pair.last() == bad);
    assert(seq![good].drop_last() =~= Seq::<NameView>::empty());
    assert(seq![good].last() == good);
    assert(many_errs(aliases, catalog, Seq::<NameView>::empty(), fuel)
        =~= Seq::<ResolveErr>::empty());
    assert(many_errs(aliases, catalog, seq![good], fuel) =~= Seq::<ResolveErr>::empty());
    assert(many_errs(aliases, catalog, pair, fuel) =~= seq![
        resolve_one_spec(aliases, catalog, bad, fuel)->Err_0,
    ]);
}

/// A batch with two failing names fails with both failures, in input
/// order.
pub proof fn lemma_batch_two_failures(
    aliases: Seq<AliasView>,
    catalog: Seq<BoilerplateView>,
    bad1: NameView,
    bad2: NameView,
    fuel: nat,
)
    requires
        resolve_one_spec(aliases, catalog, bad1, fuel) is Err,
        resolve_one_spec(aliases, catalog, bad2, fuel) is Err,
    ensures
        many_errs(aliases, catalog, seq![bad1, bad2], fuel) == seq![
            resolve_one_spec(aliases, catalog, bad1, fuel)->Err_0,
            resolve_one_spec(aliases, catalog, bad2, fuel)->Err_0,
        ],
{
    let pair = seq![bad1, bad2];
    assert(pair.drop_last() =~= seq![bad1]);
    assert(pair.last() == bad2);
    assert(seq![bad1].drop_last() =~= Seq::<NameView>::empty());
    assert(seq![bad1].last() == bad1);
    assert(many_errs(aliases, catalog, Seq::<NameView>::empty(), fuel)
        =~= Seq::<ResolveErr>::empty());
    assert(many_errs(aliases, catalog, seq![bad1], fuel) =~= seq![
        resolve_one_spec(aliases, catalog, bad1, fuel)->Err_0,
    ]);
    assert(many_errs(aliases, catalog, pair, fuel) =~= seq![
        resolve_one_spec(aliases, catalog, bad1, fuel)->Err_0,
        resolve_one_spec(aliases, catalog, bad2, fuel)->Err_0,
    ]);
}

/// Whether a lowercased name holds any of the queries.
pub open spec fn matches_any_query(name: Seq<char>, queries: Seq<Seq<char>>) -> bool {
    exists|i: int|
        0 <= i < queries.len() && crate::strutil::contains_seq(
            crate::name::lower_of(name),
            queries[i],
        )
}

/// The names whose lowercased form holds any of the queries, in order.
pub open spec fn search_spec(names: Seq<Seq<char>>, queries: Seq<Seq<char>>) -> Seq<Seq<char>>
    decreases names.len(),
{
    if names.len() == 0 {
        Seq::empty()
    } else {
        search_spec(names.drop_last(), queries)
            + (if matches_any_query(names.last(), queries) {
            seq![names.last()]
        } else {
            Seq::empty()
        })
    }
}

/// Whether the name, lowercased, holds any of the queries.
fn name_matches_queries(name: &String, queries: &Vec<String>) -> (r: bool)
    ensures
        r == matches_any_query(name@, crate::strutil::strs_view(queries@)),
{
    let ghost qv = crate::strutil::strs_view(queries@);
    let lowered = crate::name::lowercase(name.as_str());
    let n = queries.len();
    let mut i: usize = 0;
    while i < n
        invariant
            n == queries@.len(),
            qv == crate::strutil::strs_view(queries@),
            lowered@ == crate::name::lower_of(name@),
            i <= n,
            forall|j: int|
                0 <= j < i ==> !crate::strutil::contains_seq(
                    crate::name::lower_of(name@),
                    qv[j],
                ),
        decreases n - i,
    {
        if crate::strutil::str_contains(lowered.as_str(), queries[i].as_str()) {
            proof {
                assert(crate::strutil::contains_seq(crate::name::lower_of(name@), qv[i as int]));
            }
            return true;
        }
        i = i + 1;
    }
    false
}

/// Keeps the names whose lowercased form holds any of the queries,
/// preserving their order.
pub fn search_boilerplates(names: &Vec<String>, queries: &Vec<String>) -> (r: Vec<String>)
    ensures
        crate::strutil::strs_view(r@) == search_spec(
            crate::strutil::strs_view(names@),
            crate::strutil::strs_view(queries@),
        ),
{
    let ghost nv = crate::strutil::strs_view(names@);
    let ghost qv = crate::strutil::strs_view(queries@);
    let mut out: Vec<String> = Vec::new();
    proof {
        assert(crate::strutil::strs_view(out@) =~= search_spec(nv.take(0), qv));
    }
    let n = names.len();
    let mut i: usize = 0;
    while i < n
        invariant
            n == names@.len(),
            nv == crate::strutil::strs_view(names@),
            qv == crate::strutil::strs_view(queries@),
            i <= n,
            crate::strutil::strs_view(out@) == search_spec(nv.take(i as int), qv),
        decreases n - i,
    {
        proof {
            assert(nv.take(i + 1).drop_last() =~= nv.take(i as int));
            assert(nv.take(i + 1).last() == nv[i as int]);
            assert(nv[i as int] == names@[i as int]@);
        }
        let ghost before = out@;
        if name_matches_queries(&names[i], queries) {
            out.push(names[i].clone());
            proof {
                assert(out@ == before.push(out@[before.len() as int]));
                assert(crate::strutil::strs_view(before).len() == before.len());
                assert forall|j: int|
                    0 <= j < out@.len() implies crate::strutil::strs_view(out@)[j] == search_spec(
                    nv.take(i + 1),
                    qv,
                )[j] by {
                    if j < before.len() {
                        assert(crate::strutil::strs_view(before)[j] == search_spec(
                            nv.take(i as int),
                            qv,
                        )[j]);
                        assert(out@[j] == before[j]);
                    }
                }
                assert(crate::strutil::strs_view(out@) =~= search_spec(nv.take(i + 1), qv));
            }
        } else {
            proof {
                assert(search_spec(nv.take(i + 1), qv) =~= search_spec(nv.take(i as int), qv));
            }
        }
        i = i + 1;
    }
    proof {
        assert(nv.take(n as int) =~= nv);
    }
    out
}

/// Whether a line records a dumped boilerplate: a generated header line
/// carrying a boilerplate file name.
pub open spec fn is_entry_line(l: Seq<char>) -> bool {
    crate::strutil::starts_with(l, "### "@) && crate::strutil::ends_with(l, ".gitignore"@)
}

/// The boilerplate name an entry line records: its last path segment with
/// the boilerplate suffix stripped.
pub open spec fn entry_name_spec(l: Seq<char>) -> Seq<char> {
    let seg = match crate::strutil::last_pos_of(l, '/') {
        Some(i) => l.skip(i + 1),
        None => l,
    };
    seg.take(seg.len() - ".gitignore"@.len())
}

/// The boilerplate names the lines of an output file record, in order.
pub open spec fn entries_spec(lines: Seq<Seq<char>>) -> Seq<Seq<char>>
    decreases lines.len(),
{
    if lines.len() == 0 {
        Seq::empty()
    } else {
        entries_spec(lines.drop_last())
            + (if is_entry_line(lines.last()) {
            seq![entry_name_spec(lines.last())]
        } else {
            Seq::empty()
        })
    }
}

/// Strips an entry line to the boilerplate name it records.
pub fn strip_to_boilerplate_name(line: &str) -> (r: String)
    requires
        crate::strutil::ends_with(line@, ".gitignore"@),
    ensures
        r@ == entry_name_spec(line@),
{
    let n = line.unicode_len();
    proof {
        reveal_strlit(".gitignore");
        assert forall|k: int| 0 <= k < ".gitignore"@.len() implies ".gitignore"@[k] != '/' by {
        }
    }
    let seg = match crate::strutil::rindex_of_char(line, '/') {
        Some(i) => {
            proof {
                crate::strutil::lemma_last_pos_at(line@, '/', i as int);
                assert(i + ".gitignore"@.len() < n) by {
                    if i as int >= n - ".gitignore"@.len() {
                        assert(line@.subrange(
                            line@.len() - ".gitignore"@.len(),
                            line@.len() as int,
                        )[i - (n - ".gitignore"@.len())] == line@[i as int]);
                    }
                }
            }
            let s = line.substring_char(i + 1, n);
            proof {
                assert(s@ =~= line@.skip(i + 1));
            }
            s
        },
        None => {
            proof {
                crate::strutil::lemma_last_pos_none(line@, '/');
            }
            line
        },
    };
    let m = seg.unicode_len();
    proof {
        assert(crate::strutil::ends_with(seg@, ".gitignore"@)) by {
            assert forall|k: int|
                0 <= k < ".gitignore"@.len() implies seg@.subrange(
                seg@.len() - ".gitignore"@.len(),
                seg@.len() as int,
            )[k] == ".gitignore"@[k] by {
                assert(line@.subrange(line@.len() - ".gitignore"@.len(), line@.len() as int)[k]
                    == ".gitignore"@[k]);
            }
            assert(seg@.subrange(seg@.len() - ".gitignore"@.len(), seg@.len() as int)
                =~= ".gitignore"@);
        }
    }
    let r = seg.substring_char(0, m - 10).to_owned();
    proof {
        assert(".gitignore"@.len() == 10);
        assert(r@ =~= seg@.take(seg@.len() - ".gitignore"@.len()));
    }
    r
}

/// The boilerplate name a line records, if it is an entry line.
pub fn map_to_boilerplate_name(line: &String) -> (r: Option<String>)
    ensures
        match r {
            Some(s) => is_entry_line(line@) && s@ == entry_name_spec(line@),
            None => !is_entry_line(line@),
        },
{
    if crate::strutil::str_starts_with(line.as_str(), "### ") && crate::strutil::str_ends_with(
        line.as_str(),
        ".gitignore",
    ) {
        Some(strip_to_boilerplate_name(line.as_str()))
    } else {
        None
    }
}

/// The boilerplate names recorded in the lines of an output file, in
/// order: one for each generated header line.
pub fn entries(lines: &Vec<String>) -> (r: Vec<String>)
    ensures
        crate::strutil::strs_view(r@) == entries_spec(crate::strutil::strs_view(lines@)),
{
    let ghost lv = crate::strutil::strs_view(lines@);
    let mut out: Vec<String> = Vec::new();
    proof {
        assert(crate::strutil::strs_view(out@) =~= entries_spec(lv.take(0)));
    }
    let n = lines.len();
    let mut i: usize = 0;
    while i < n
        invariant
            n == lines@.len(),
            lv == crate::strutil::strs_view(lines@),
            i <= n,
            crate::strutil::strs_view(out@) == entries_spec(lv.take(i as int)),
        decreases n - i,
    {
        proof {
            assert(lv.take(i + 1).drop_last() =~= lv.take(i as int));
            assert(lv.take(i + 1).last() == lv[i as int]);
            assert(lv[i as int] == lines@[i as int]@);
        }
        let ghost before = out@;
        match map_to_boilerplate_name(&lines[i]) {
            Some(s) => {
                let ghost sv = s@;
                out.push(s);
                proof {
                    assert(out@ == before.push(out@[before.len() as int]));
                    assert(crate::strutil::strs_view(before).len() == before.len());
                    assert forall|j: int|
                        0 <= j < out@.len() implies crate::strutil::strs_view(out@)[j]
                        == entries_spec(lv.take(i + 1))[j] by {
                        if j < before.len() {
                            assert(crate::strutil::strs_view(before)[j] == entries_spec(
                                lv.take(i as int),
                            )[j]);
                            assert(out@[j] == before[j]);
                        } else {
                            assert(out@[j]@ == sv);
                        }
                    }
                    assert(crate::strutil::strs_view(out@) =~= entries_spec(lv.take(i + 1)));
                }
            },
            None => {
                proof {
                    assert(entries_spec(lv.take(i + 1)) =~= entries_spec(lv.take(i as int)));
                }
            },
        }
        i = i + 1;
    }
    proof {
        assert(lv.take(n as int) =~= lv);
    }
    out
}

} // verus!
