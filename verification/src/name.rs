//! Boilerplate names: the `repo/name` ↔ structured-form codec and the
//! case-insensitive matching rule.

use vstd::prelude::*;
use vstd::string::StrSliceExecFns;
use crate::strutil::index_of_char;

verus! {

/// The mathematical value of a [`Name`].
pub struct NameView {
    pub repository_name: Option<Seq<char>>,
    pub boilerplate_name: Seq<char>,
}

/// The name of a boilerplate: an optional repository name — absent means
/// "any repository" — and the boilerplate name itself (the file stem of the
/// boilerplate file).
#[derive(Debug, Clone)]
pub struct Name {
    pub repository_name: Option<String>,
    pub boilerplate_name: String,
}

impl View for Name {
    type V = NameView;

    open spec fn view(&self) -> NameView {
        NameView {
            repository_name: match self.repository_name {
                Some(ref r) => Some(r@),
                None => None,
            },
            boilerplate_name: self.boilerplate_name@,
        }
    }
}

/// The views of a sequence of names, element for element.
pub open spec fn names_view(s: Seq<Name>) -> Seq<NameView> {
    Seq::new(s.len(), |i: int| s[i]@)
}

/// The position of the first `/` in `s`, if any.
pub open spec fn slash_pos(s: Seq<char>) -> Option<int> {
    if exists|i: int|
        0 <= i < s.len() && s[i] == '/' && (forall|j: int| 0 <= j < i ==> s[j] != '/') {
        Some(
            choose|i: int|
                0 <= i < s.len() && s[i] == '/' && (forall|j: int| 0 <= j < i ==> s[j] != '/'),
        )
    } else {
        None
    }
}

/// The first slash position is unique.
pub proof fn lemma_slash_pos_at(s: Seq<char>, i: int)
    requires
        0 <= i < s.len(),
        s[i] == '/',
        forall|j: int| 0 <= j < i ==> s[j] != '/',
    ensures
        slash_pos(s) == Some(i),
{
    let k = choose|k: int|
        0 <= k < s.len() && s[k] == '/' && (forall|j: int| 0 <= j < k ==> s[j] != '/');
    if k < i {
        assert(s[k] != '/');
    }
    if k > i {
        assert(s[i] != '/');
    }
}

/// No slash occurs in `s`.
pub proof fn lemma_slash_pos_none(s: Seq<char>)
    requires
        forall|j: int| 0 <= j < s.len() ==> s[j] != '/',
    ensures
        slash_pos(s) == Option::<int>::None,
{
}

/// What parsing a textual name yields: the split is on the first `/` — what
/// stands before it names the repository, everything after it the
/// boilerplate; without any `/` the whole text names the boilerplate and
/// the repository is left open.
pub open spec fn parse_spec(s: Seq<char>) -> NameView {
    match slash_pos(s) {
        None => NameView { repository_name: None, boilerplate_name: s },
        Some(i) => NameView { repository_name: Some(s.take(i)), boilerplate_name: s.skip(i + 1) },
    }
}

/// The textual form of a name: `repo/name`, or the bare boilerplate name.
pub open spec fn to_string_spec(n: NameView) -> Seq<char> {
    match n.repository_name {
        Some(r) => r + seq!['/'] + n.boilerplate_name,
        None => n.boilerplate_name,
    }
}

/// The lowercased form of a text. Relied on from `str::to_lowercase`: the
/// result is a function of the characters alone.
pub uninterp spec fn lower_of(s: Seq<char>) -> Seq<char>;

/// Relies on str::to_lowercase: returns the lowercase equivalent of the
/// text, a function of the characters alone.
#[verifier::external_body]
pub(crate) fn lowercase(s: &str) -> (r: String)
    ensures
        r@ == lower_of(s@),
{
    s.to_lowercase()
}

/// A name matches a boilerplate with the given repository and boilerplate
/// names when the boilerplate names agree case-insensitively and the
/// repository either agrees case-insensitively or is left open.
pub open spec fn name_matches(n: NameView, repo: Seq<char>, boil: Seq<char>) -> bool {
    lower_of(n.boilerplate_name) == lower_of(boil) && match n.repository_name {
        Some(r) => lower_of(r) == lower_of(repo),
        None => true,
    }
}

impl Name {
    /// A name with the repository left open.
    pub fn new_of(boilerplate_name: &str) -> (r: Self)
        ensures
            r@ == (NameView { repository_name: None, boilerplate_name: boilerplate_name@ }),
    {
        Self { repository_name: None, boilerplate_name: boilerplate_name.to_owned() }
    }

    /// A name under an explicit repository.
    pub fn new(repository_name: &str, boilerplate_name: &str) -> (r: Self)
        ensures
            r@ == (NameView {
                repository_name: Some(repository_name@),
                boilerplate_name: boilerplate_name@,
            }),
    {
        Self {
            repository_name: Some(repository_name.to_owned()),
            boilerplate_name: boilerplate_name.to_owned(),
        }
    }

    /// Parses `repo/name`, or a bare `name`, into its structured form.
    pub fn parse(name: &str) -> (r: Self)
        ensures
            r@ == parse_spec(name@),
    {
        let n = name.unicode_len();
        match index_of_char(name, '/') {
            None => {
                proof {
                    lemma_slash_pos_none(name@);
                }
                Self { repository_name: None, boilerplate_name: name.to_owned() }
            },
            Some(i) => {
                proof {
                    lemma_slash_pos_at(name@, i as int);
                }
                let repo = name.substring_char(0, i);
                let rest = name.substring_char(i + 1, n);
                proof {
                    assert(rest@ =~= name@.skip(i + 1));
                    assert(repo@ =~= name@.take(i as int));
                }
                Self { repository_name: Some(repo.to_owned()), boilerplate_name: rest.to_owned() }
            },
        }
    }

    /// Renders this name as `repo/name`, or as the bare boilerplate name
    /// when the repository is left open.
    pub fn to_string(&self) -> (r: String)
        ensures
            r@ == to_string_spec(self@),
    {
        match &self.repository_name {
            Some(repo) => {
                let r = crate::strutil::concat3(
                    repo.as_str(),
                    "/",
                    self.boilerplate_name.as_str(),
                );
                proof {
                    reveal_strlit("/");
                    assert("/"@ =~= seq!['/']);
                }
                r
            },
            None => self.boilerplate_name.clone(),
        }
    }

    /// A copy of this name with the same value.
    pub fn duplicate(&self) -> (r: Name)
        ensures
            r@ == self@,
    {
        Name {
            repository_name: match &self.repository_name {
                Some(s) => Some(s.clone()),
                None => None,
            },
            boilerplate_name: self.boilerplate_name.clone(),
        }
    }

    /// Whether this name matches a boilerplate with the given repository
    /// name and boilerplate name.
    pub fn matches_parts(&self, repo_name: &str, boil_name: &str) -> (r: bool)
        ensures
            r == name_matches(self@, repo_name@, boil_name@),
    {
        let mine = lowercase(self.boilerplate_name.as_str());
        let theirs = lowercase(boil_name);
        if !(mine == theirs) {
            return false;
        }
        match &self.repository_name {
            None => true,
            Some(r) => {
                let a = lowercase(r.as_str());
                let b = lowercase(repo_name);
                a == b
            },
        }
    }
}

/// Round trip of the `repo/name` ↔ structured form: rendering a name and
/// parsing the text back yields the name again, for every name whose
/// repository part holds no `/` — and, when the repository is left open,
/// whose boilerplate part holds none either.
pub proof fn lemma_name_round_trip(n: NameView)
    requires
        match n.repository_name {
            Some(r) => !r.contains('/'),
            None => !n.boilerplate_name.contains('/'),
        },
    ensures
        parse_spec(to_string_spec(n)) == n,
{
    let s = to_string_spec(n);
    match n.repository_name {
        None => {
            assert(forall|j: int| 0 <= j < s.len() ==> s[j] != '/') by {
                assert(forall|j: int|
                    0 <= j < s.len() && s[j] == '/' ==> n.boilerplate_name.contains('/'));
            }
            lemma_slash_pos_none(s);
        },
        Some(r) => {
            let b = n.boilerplate_name;
            assert(s == r + seq!['/'] + b);
            assert(s[r.len() as int] == '/');
            assert(forall|j: int| 0 <= j < r.len() ==> s[j] == r[j] && !r.contains('/'));
            assert(forall|j: int| 0 <= j < r.len() ==> s[j] != '/') by {
                assert(forall|j: int| 0 <= j < r.len() && r[j] == '/' ==> r.contains('/'));
            }
            lemma_slash_pos_at(s, r.len() as int);
            assert(s.skip(r.len() as int + 1) =~= b);
            assert(s.take(r.len() as int) =~= r);
        },
    }
}

} // verus!
