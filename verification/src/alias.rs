//! Aliases: named, ordered groups of target names. An alias's members may
//! themselves be alias names, so one alias can embed another.

use vstd::prelude::*;
use vstd::string::StrSliceExecFns;
use crate::errors::GixorError;
use crate::errors::Result;
use crate::name::Name;
use crate::name::NameView;
use crate::name::names_view;
use crate::strutil::first_where;
use crate::strutil::lemma_first_where_at;
use crate::strutil::lemma_first_where_none;
use crate::strutil::lemma_first_where_props;
use crate::strutil::str_eq;

verus! {

/// The mathematical value of an [`Alias`].
pub struct AliasView {
    pub name: Seq<char>,
    pub description: Seq<char>,
    pub boilerplates: Seq<NameView>,
}

/// A named, ordered group of target names.
#[derive(Debug, Clone)]
pub struct Alias {
    pub name: String,
    pub description: String,
    pub boilerplates: Vec<Name>,
}

impl View for Alias {
    type V = AliasView;

    open spec fn view(&self) -> AliasView {
        AliasView {
            name: self.name@,
            description: self.description@,
            boilerplates: names_view(self.boilerplates@),
        }
    }
}

impl Alias {
    /// An alias with the given name, description and members.
    pub fn new(name: String, description: String, boilerplates: Vec<Name>) -> (r: Self)
        ensures
            r@ == (AliasView {
                name: name@,
                description: description@,
                boilerplates: names_view(boilerplates@),
            }),
    {
        Alias { name, description, boilerplates }
    }

    /// A copy of this alias with the same value.
    pub fn duplicate(&self) -> (r: Alias)
        ensures
            r@ == self@,
    {
        let mut members: Vec<Name> = Vec::new();
        let mut i: usize = 0;
        let n = self.boilerplates.len();
        while i < n
            invariant
                n == self.boilerplates@.len(),
                i <= n,
                names_view(members@) == names_view(self.boilerplates@).take(i as int),
            decreases n - i,
        {
            let ghost before = members@;
            let x = self.boilerplates[i].duplicate();
            proof {
                assert(x@ == self.boilerplates@[i as int]@);
            }
            members.push(x);
            proof {
                assert(members@ == before.push(x));
                assert(names_view(before).len() == before.len());
                assert(before.len() == i as int);
                assert forall|j: int| 0 <= j < i + 1 implies names_view(members@)[j]
                    == names_view(self.boilerplates@).take(i + 1)[j] by {
                    if j < i {
                        assert(names_view(before)[j]
                            == names_view(self.boilerplates@).take(i as int)[j]);
                        assert(members@[j] == before[j]);
                    } else {
                        assert(members@[j] == x);
                    }
                }
                assert(names_view(members@)
                    =~= names_view(self.boilerplates@).take(i + 1));
            }
            i = i + 1;
        }
        proof {
            assert(names_view(self.boilerplates@).take(n as int)
                =~= names_view(self.boilerplates@));
        }
        Alias {
            name: self.name.clone(),
            description: self.description.clone(),
            boilerplates: members,
        }
    }
}

/// The predicate "this alias is named `name`".
pub open spec fn alias_named(name: Seq<char>) -> spec_fn(AliasView) -> bool {
    |a: AliasView| a.name == name
}

/// The first alias of `aliases` named `name`, if any. Lookup is by exact,
/// case-sensitive name.
pub open spec fn find_alias_spec(aliases: Seq<AliasView>, name: Seq<char>) -> Option<int> {
    first_where(aliases, alias_named(name))
}

/// A collection of aliases. Duplicate names are permitted to coexist;
/// lookup returns the first match.
#[derive(Debug, Clone)]
pub struct Aliases {
    pub aliases: Vec<Alias>,
}

/// The views of a sequence of aliases, element for element.
pub open spec fn aliases_view(s: Seq<Alias>) -> Seq<AliasView> {
    Seq::new(s.len(), |i: int| s[i]@)
}

impl View for Aliases {
    type V = Seq<AliasView>;

    open spec fn view(&self) -> Seq<AliasView> {
        aliases_view(self.aliases@)
    }
}

/// What merging adds: each alias of `rest` in turn joins `acc` unless an
/// alias of that name is already there.
pub open spec fn merge_spec(acc: Seq<AliasView>, rest: Seq<AliasView>) -> Seq<AliasView>
    decreases rest.len(),
{
    if rest.len() == 0 {
        acc
    } else {
        let acc2 = if exists|i: int| 0 <= i < acc.len() && acc[i].name == rest[0].name {
            acc
        } else {
            acc.push(rest[0])
        };
        merge_spec(acc2, rest.skip(1))
    }
}

impl Aliases {
    /// A collection holding the given aliases, in order.
    pub fn new(aliases: Vec<Alias>) -> (r: Self)
        ensures
            r@ == aliases_view(aliases@),
    {
        Aliases { aliases }
    }

    /// The aliases, in order.
    pub fn aliases(&self) -> (r: &Vec<Alias>)
        ensures
            aliases_view(r@) == self@,
    {
        &self.aliases
    }

    /// Finds the first alias with the given name.
    pub fn find(&self, name: &str) -> (r: Option<&Alias>)
        ensures
            match r {
                Some(a) => {
                    &&& find_alias_spec(self@, name@) matches Some(i)
                    &&& a@ == self@[find_alias_spec(self@, name@)->Some_0]
                },
                None => find_alias_spec(self@, name@) is None,
            },
    {
        let n = self.aliases.len();
        let mut i: usize = 0;
        while i < n
            invariant
                n == self.aliases@.len(),
                i <= n,
                forall|j: int| 0 <= j < i ==> !alias_named(name@)(self@[j]),
            decreases n - i,
        {
            if str_eq(self.aliases[i].name.as_str(), name) {
                proof {
                    lemma_first_where_at(self@, alias_named(name@), i as int);
                }
                return Some(&self.aliases[i]);
            }
            i = i + 1;
        }
        proof {
            lemma_first_where_none(self@, alias_named(name@));
        }
        None
    }

    /// Merges two collections: every alias of `self`, then each alias of
    /// `other` whose name is not yet present. Order is preserved.
    pub fn merge(&self, other: &Aliases) -> (r: Self)
        ensures
            r@ == merge_spec(self@, other@),
    {
        let mut merged: Vec<Alias> = duplicate_aliases(&self.aliases);
        proof {
            assert(other@.skip(0) =~= other@);
        }
        let n = other.aliases.len();
        let mut i: usize = 0;
        while i < n
            invariant
                n == other@.len(),
                i <= n,
                merge_spec(self@, other@) == merge_spec(
                    aliases_view(merged@),
                    other@.skip(i as int),
                ),
            decreases n - i,
        {
            let ghost pre = aliases_view(merged@);
            proof {
                assert(other@.skip(i as int)[0] == other@[i as int]);
                assert(other@.skip(i as int).skip(1) =~= other@.skip(i + 1));
            }
            let present = has_alias_named(&merged, other.aliases[i].name.as_str());
            proof {
                lemma_first_where_props(pre, alias_named(other@[i as int].name));
                assert(present == exists|k: int|
                    0 <= k < pre.len() && pre[k].name == other@[i as int].name);
            }
            if !present {
                merged.push(other.aliases[i].duplicate());
                proof {
                    assert(aliases_view(merged@) =~= pre.push(other@[i as int]));
                }
            }
            i = i + 1;
        }
        proof {
            assert(other@.skip(n as int) =~= Seq::<AliasView>::empty());
        }
        Aliases { aliases: merged }
    }

    /// Appends the given alias; nothing is rejected and duplicates may
    /// coexist.
    pub fn add_alias(&mut self, alias: Alias) -> (r: Result<()>)
        ensures
            final(self)@ == old(self)@.push(alias@),
            r is Ok,
    {
        self.aliases.push(alias);
        proof {
            assert(self@ =~= old(self)@.push(alias@));
        }
        Ok(())
    }

    /// Removes the first alias with the given name, or reports that none
    /// carries it.
    pub fn remove_alias(&mut self, name: &str) -> (r: Result<()>)
        ensures
            match find_alias_spec(old(self)@, name@) {
                Some(i) => final(self)@ == old(self)@.remove(i) && r is Ok,
                None => {
                    &&& final(self)@ == old(self)@
                    &&& r matches Err(e)
                    &&& e matches GixorError::AliasNotFound(s)
                    &&& s@ == name@
                },
            },
    {
        let n = self.aliases.len();
        let mut i: usize = 0;
        while i < n
            invariant
                n == self.aliases@.len(),
                i <= n,
                self@ == old(self)@,
                forall|j: int| 0 <= j < i ==> !alias_named(name@)(self@[j]),
            decreases n - i,
        {
            if str_eq(self.aliases[i].name.as_str(), name) {
                proof {
                    lemma_first_where_at(self@, alias_named(name@), i as int);
                }
                self.aliases.remove(i);
                proof {
                    assert(self@ =~= old(self)@.remove(i as int));
                }
                return Ok(());
            }
            i = i + 1;
        }
        proof {
            lemma_first_where_none(self@, alias_named(name@));
        }
        Err(GixorError::AliasNotFound(name.to_owned()))
    }
}

/// Whether some alias of the list carries the given name.
fn has_alias_named(aliases: &Vec<Alias>, name: &str) -> (r: bool)
    ensures
        r == (find_alias_spec(aliases_view(aliases@), name@) is Some),
{
    let ghost views = aliases_view(aliases@);
    let n = aliases.len();
    let mut i: usize = 0;
    while i < n
        invariant
            n == aliases@.len(),
            views == aliases_view(aliases@),
            i <= n,
            forall|j: int| 0 <= j < i ==> !alias_named(name@)(views[j]),
        decreases n - i,
    {
        if str_eq(aliases[i].name.as_str(), name) {
            proof {
                lemma_first_where_at(views, alias_named(name@), i as int);
            }
            return true;
        }
        i = i + 1;
    }
    proof {
        lemma_first_where_none(views, alias_named(name@));
    }
    false
}

/// A deep copy of a list of aliases, value for value.
pub fn duplicate_aliases(aliases: &Vec<Alias>) -> (r: Vec<Alias>)
    ensures
        aliases_view(r@) == aliases_view(aliases@),
{
    let mut out: Vec<Alias> = Vec::new();
    let n = aliases.len();
    let mut i: usize = 0;
    while i < n
        invariant
            n == aliases@.len(),
            i <= n,
            aliases_view(out@) == aliases_view(aliases@).take(i as int),
        decreases n - i,
    {
        let ghost before = out@;
        let x = aliases[i].duplicate();
        proof {
            assert(x@ == aliases@[i as int]@);
        }
        out.push(x);
        proof {
            assert(out@ == before.push(x));
            assert(aliases_view(before).len() == before.len());
            assert(before.len() == i as int);
            assert forall|j: int| 0 <= j < i + 1 implies aliases_view(out@)[j]
                == aliases_view(aliases@).take(i + 1)[j] by {
                if j < i {
                    assert(aliases_view(before)[j] == aliases_view(aliases@).take(i as int)[j]);
                    assert(out@[j] == before[j]);
                } else {
                    assert(out@[j] == x);
                }
            }
            assert(aliases_view(out@) =~= aliases_view(aliases@).take(i + 1));
        }
        i = i + 1;
    }
    proof {
        assert(aliases_view(aliases@).take(n as int) =~= aliases_view(aliases@));
    }
    out
}

} // verus!
