//! Verified character-level string operations: equality, affix tests,
//! substring search, and small builders. All contracts are stated over the
//! `Seq<char>` views of `&str` and `String`.

use vstd::prelude::*;
use vstd::string::StrSliceExecFns;
use vstd::string::StringExecFns;

verus! {

/// `p` is a prefix of `s`.
pub open spec fn starts_with(s: Seq<char>, p: Seq<char>) -> bool {
    p.len() <= s.len() && s.subrange(0, p.len() as int) == p
}

/// `p` is a suffix of `s`.
pub open spec fn ends_with(s: Seq<char>, p: Seq<char>) -> bool {
    p.len() <= s.len() && s.subrange(s.len() - p.len(), s.len() as int) == p
}

/// `sub` occurs in `s` at position `i`.
pub open spec fn occurs_at(s: Seq<char>, sub: Seq<char>, i: int) -> bool {
    0 <= i && i + sub.len() <= s.len() && s.subrange(i, i + sub.len()) == sub
}

/// `sub` occurs somewhere in `s`.
pub open spec fn contains_seq(s: Seq<char>, sub: Seq<char>) -> bool {
    exists|i: int| occurs_at(s, sub, i)
}

/// The first index of `s` whose element satisfies `p`, if any.
pub open spec fn first_where<T>(s: Seq<T>, p: spec_fn(T) -> bool) -> Option<int> {
    if exists|i: int| 0 <= i < s.len() && p(s[i]) && (forall|j: int| 0 <= j < i ==> !p(s[j])) {
        Some(
            choose|i: int|
                0 <= i < s.len() && p(s[i]) && (forall|j: int| 0 <= j < i ==> !p(s[j])),
        )
    } else {
        None
    }
}

/// The first satisfying index is unique.
pub proof fn lemma_first_where_at<T>(s: Seq<T>, p: spec_fn(T) -> bool, i: int)
    requires
        0 <= i < s.len(),
        p(s[i]),
        forall|j: int| 0 <= j < i ==> !p(s[j]),
    ensures
        first_where(s, p) == Some(i),
{
    let k = choose|k: int|
        0 <= k < s.len() && p(s[k]) && (forall|j: int| 0 <= j < k ==> !p(s[j]));
    if k < i {
        assert(!p(s[k]));
    }
    if k > i {
        assert(!p(s[i]));
    }
}

/// Without a satisfying element there is no first index.
pub proof fn lemma_first_where_none<T>(s: Seq<T>, p: spec_fn(T) -> bool)
    requires
        forall|j: int| 0 <= j < s.len() ==> !p(s[j]),
    ensures
        first_where(s, p) == Option::<int>::None,
{
}

/// What a first index, when there is one, says of the sequence.
pub proof fn lemma_first_where_props<T>(s: Seq<T>, p: spec_fn(T) -> bool)
    ensures
        match first_where(s, p) {
            Some(i) => 0 <= i < s.len() && p(s[i]) && (forall|j: int| 0 <= j < i ==> !p(s[j])),
            None => forall|j: int| 0 <= j < s.len() ==> !p(s[j]),
        },
{
    if exists|i: int| 0 <= i < s.len() && p(s[i]) && (forall|j: int| 0 <= j < i ==> !p(s[j])) {
    } else {
        assert forall|j: int| 0 <= j < s.len() implies !p(s[j]) by {
            if p(s[j]) {
                let candidates = Set::new(|k: int| 0 <= k < s.len() && p(s[k]));
                assert(candidates.contains(j));
                lemma_some_first_exists(s, p, j);
            }
        }
    }
}

/// Predicates that agree on every element select the same first index.
pub proof fn lemma_first_where_congruence<T>(s: Seq<T>, p: spec_fn(T) -> bool, q: spec_fn(T) -> bool)
    requires
        forall|i: int| 0 <= i < s.len() ==> p(s[i]) == q(s[i]),
    ensures
        first_where(s, p) == first_where(s, q),
{
    lemma_first_where_props(s, p);
    match first_where(s, p) {
        Some(i) => {
            lemma_first_where_at(s, q, i);
        },
        None => {
            lemma_first_where_none(s, q);
        },
    }
}

/// If some element satisfies `p`, a first one does.
proof fn lemma_some_first_exists<T>(s: Seq<T>, p: spec_fn(T) -> bool, j: int)
    requires
        0 <= j < s.len(),
        p(s[j]),
    ensures
        exists|i: int| 0 <= i < s.len() && p(s[i]) && (forall|k: int| 0 <= k < i ==> !p(s[k])),
    decreases j,
{
    if forall|k: int| 0 <= k < j ==> !p(s[k]) {
    } else {
        let k = choose|k: int| 0 <= k < j && p(s[k]);
        lemma_some_first_exists(s, p, k);
    }
}

/// The views of a sequence of strings, element for element.
pub open spec fn strs_view(s: Seq<String>) -> Seq<Seq<char>> {
    Seq::new(s.len(), |i: int| s[i]@)
}

/// Character-wise equality of two string slices.
pub fn str_eq(a: &str, b: &str) -> (r: bool)
    ensures
        r == (a@ == b@),
{
    let an = a.unicode_len();
    let bn = b.unicode_len();
    if an != bn {
        proof {
            assert(a@ != b@) by {
                if a@ == b@ {
                    assert(a@.len() == b@.len());
                }
            }
        }
        return false;
    }
    let mut i: usize = 0;
    while i < an
        invariant
            an == a@.len(),
            an == b@.len(),
            i <= an,
            forall|j: int| 0 <= j < i ==> a@[j] == b@[j],
        decreases an - i,
    {
        if a.get_char(i) != b.get_char(i) {
            return false;
        }
        i = i + 1;
    }
    proof {
        assert(a@ =~= b@);
    }
    true
}

/// Whether `p` is a prefix of `s`.
pub fn str_starts_with(s: &str, p: &str) -> (r: bool)
    ensures
        r == starts_with(s@, p@),
{
    let sn = s.unicode_len();
    let pn = p.unicode_len();
    if pn > sn {
        return false;
    }
    let mut i: usize = 0;
    while i < pn
        invariant
            sn == s@.len(),
            pn == p@.len(),
            pn <= sn,
            i <= pn,
            forall|j: int| 0 <= j < i ==> s@[j] == p@[j],
        decreases pn - i,
    {
        if s.get_char(i) != p.get_char(i) {
            proof {
                assert(s@.subrange(0, p@.len() as int)[i as int] == s@[i as int]);
            }
            return false;
        }
        i = i + 1;
    }
    proof {
        assert(s@.subrange(0, p@.len() as int) =~= p@);
    }
    true
}

/// Whether `p` is a suffix of `s`.
pub fn str_ends_with(s: &str, p: &str) -> (r: bool)
    ensures
        r == ends_with(s@, p@),
{
    let sn = s.unicode_len();
    let pn = p.unicode_len();
    if pn > sn {
        return false;
    }
    let off = sn - pn;
    let mut i: usize = 0;
    while i < pn
        invariant
            sn == s@.len(),
            pn == p@.len(),
            pn <= sn,
            off == sn - pn,
            i <= pn,
            forall|j: int| 0 <= j < i ==> s@[off + j] == p@[j],
        decreases pn - i,
    {
        if s.get_char(off + i) != p.get_char(i) {
            proof {
                assert(s@.subrange(s@.len() - p@.len(), s@.len() as int)[i as int]
                    == s@[off + i]);
            }
            return false;
        }
        i = i + 1;
    }
    proof {
        assert(s@.subrange(s@.len() - p@.len(), s@.len() as int) =~= p@);
    }
    true
}

/// Whether `sub` occurs in `s` starting at position `at`.
fn matches_at(s: &str, sub: &str, at: usize) -> (r: bool)
    requires
        at + sub@.len() <= s@.len(),
    ensures
        r == occurs_at(s@, sub@, at as int),
{
    let sn = s.unicode_len();
    let n = sub.unicode_len();
    let mut i: usize = 0;
    while i < n
        invariant
            sn == s@.len(),
            n == sub@.len(),
            at + n <= sn,
            i <= n,
            forall|j: int| 0 <= j < i ==> s@[at + j] == sub@[j],
        decreases n - i,
    {
        if s.get_char(at + i) != sub.get_char(i) {
            proof {
                assert(s@.subrange(at as int, at + sub@.len())[i as int] == s@[at + i]);
            }
            return false;
        }
        i = i + 1;
    }
    proof {
        assert(s@.subrange(at as int, at + sub@.len()) =~= sub@);
    }
    true
}

/// Whether `sub` occurs anywhere in `s`.
pub fn str_contains(s: &str, sub: &str) -> (r: bool)
    ensures
        r == contains_seq(s@, sub@),
{
    let sn = s.unicode_len();
    let subn = sub.unicode_len();
    if subn > sn {
        proof {
            assert(!contains_seq(s@, sub@)) by {
                if contains_seq(s@, sub@) {
                    let i = choose|i: int| occurs_at(s@, sub@, i);
                }
            }
        }
        return false;
    }
    if subn == 0 {
        proof {
            assert(s@.subrange(0, 0) =~= sub@);
            assert(occurs_at(s@, sub@, 0));
        }
        return true;
    }
    let last = sn - subn;
    let mut i: usize = 0;
    while i <= last
        invariant
            sn == s@.len(),
            subn == sub@.len(),
            1 <= subn <= sn,
            last == sn - subn,
            i <= last + 1,
            forall|k: int| 0 <= k < i ==> !occurs_at(s@, sub@, k),
        decreases last + 1 - i,
    {
        if matches_at(s, sub, i) {
            proof {
                assert(contains_seq(s@, sub@));
            }
            return true;
        }
        i = i + 1;
    }
    proof {
        assert(!contains_seq(s@, sub@)) by {
            if contains_seq(s@, sub@) {
                let k = choose|k: int| occurs_at(s@, sub@, k);
                assert(k <= last as int);
            }
        }
    }
    false
}

/// The first position of `c` in `s`, if any.
pub fn index_of_char(s: &str, c: char) -> (r: Option<usize>)
    ensures
        match r {
            Some(i) => i < s@.len() && s@[i as int] == c
                && forall|j: int| 0 <= j < i ==> s@[j] != c,
            None => forall|j: int| 0 <= j < s@.len() ==> s@[j] != c,
        },
{
    let n = s.unicode_len();
    let mut i: usize = 0;
    while i < n
        invariant
            n == s@.len(),
            i <= n,
            forall|j: int| 0 <= j < i ==> s@[j] != c,
        decreases n - i,
    {
        if s.get_char(i) == c {
            return Some(i);
        }
        i = i + 1;
    }
    None
}

/// The last position of `c` in `s`, if any.
pub fn rindex_of_char(s: &str, c: char) -> (r: Option<usize>)
    ensures
        match r {
            Some(i) => i < s@.len() && s@[i as int] == c
                && forall|j: int| i < j < s@.len() ==> s@[j] != c,
            None => forall|j: int| 0 <= j < s@.len() ==> s@[j] != c,
        },
{
    let n = s.unicode_len();
    let mut i: usize = n;
    while i > 0
        invariant
            n == s@.len(),
            i <= n,
            forall|j: int| i <= j < n ==> s@[j] != c,
        decreases i,
    {
        i = i - 1;
        if s.get_char(i) == c {
            return Some(i);
        }
    }
    None
}

/// The position of the last occurrence of `c` in `s`, if any.
pub open spec fn last_pos_of(s: Seq<char>, c: char) -> Option<int> {
    if exists|i: int|
        0 <= i < s.len() && s[i] == c && (forall|j: int| i < j < s.len() ==> s[j] != c) {
        Some(
            choose|i: int|
                0 <= i < s.len() && s[i] == c && (forall|j: int| i < j < s.len() ==> s[j] != c),
        )
    } else {
        None
    }
}

/// The last occurrence position is unique.
pub proof fn lemma_last_pos_at(s: Seq<char>, c: char, i: int)
    requires
        0 <= i < s.len(),
        s[i] == c,
        forall|j: int| i < j < s.len() ==> s[j] != c,
    ensures
        last_pos_of(s, c) == Some(i),
{
    let k = choose|k: int|
        0 <= k < s.len() && s[k] == c && (forall|j: int| k < j < s.len() ==> s[j] != c);
    if k < i {
        assert(s[i] != c);
    }
    if k > i {
        assert(s[k] != c);
    }
}

/// `c` does not occur in `s`.
pub proof fn lemma_last_pos_none(s: Seq<char>, c: char)
    requires
        forall|j: int| 0 <= j < s.len() ==> s[j] != c,
    ensures
        last_pos_of(s, c) == Option::<int>::None,
{
}

/// `piece` written out `n` times.
pub open spec fn repeat_seq(p: Seq<char>, n: nat) -> Seq<char>
    decreases n,
{
    if n == 0 {
        Seq::empty()
    } else {
        repeat_seq(p, (n - 1) as nat) + p
    }
}

/// Concatenates `n` copies of `piece`.
pub fn repeat_piece(piece: &str, n: usize) -> (r: String)
    requires
        piece@.len() * n <= usize::MAX,
    ensures
        r@ == repeat_seq(piece@, n as nat),
{
    let mut r = String::new();
    let mut i: usize = 0;
    while i < n
        invariant
            i <= n,
            piece@.len() * n <= usize::MAX,
            r@ == repeat_seq(piece@, i as nat),
        decreases n - i,
    {
        r.append(piece);
        i = i + 1;
    }
    r
}

/// Whether a character is one of the whitespace characters trimming
/// removes.
pub open spec fn is_wspace(c: char) -> bool {
    c == ' ' || c == '\t' || c == '\n' || c == '\r'
}

/// The text with leading whitespace removed.
pub open spec fn trim_start_spec(s: Seq<char>) -> Seq<char>
    decreases s.len(),
{
    if s.len() > 0 && is_wspace(s[0]) {
        trim_start_spec(s.skip(1))
    } else {
        s
    }
}

/// The text with trailing whitespace removed.
pub open spec fn trim_end_spec(s: Seq<char>) -> Seq<char>
    decreases s.len(),
{
    if s.len() > 0 && is_wspace(s.last()) {
        trim_end_spec(s.drop_last())
    } else {
        s
    }
}

/// The text with leading and trailing whitespace removed.
pub open spec fn trim_spec(s: Seq<char>) -> Seq<char> {
    trim_end_spec(trim_start_spec(s))
}

/// Trimming the front stops at the first non-whitespace character.
proof fn lemma_trim_start_at(s: Seq<char>, a: int)
    requires
        0 <= a <= s.len(),
        forall|j: int| 0 <= j < a ==> is_wspace(s[j]),
        a < s.len() ==> !is_wspace(s[a]),
    ensures
        trim_start_spec(s) == s.skip(a),
    decreases a,
{
    if a == 0 {
        assert(s.skip(0) =~= s);
    } else {
        assert(is_wspace(s[0]));
        lemma_trim_start_at(s.skip(1), a - 1);
        assert(s.skip(1).skip(a - 1) =~= s.skip(a));
    }
}

/// Trimming the back stops at the last non-whitespace character.
proof fn lemma_trim_end_at(s: Seq<char>, b: int)
    requires
        0 <= b <= s.len(),
        forall|k: int| b <= k < s.len() ==> is_wspace(s[k]),
        b > 0 ==> !is_wspace(s[b - 1]),
    ensures
        trim_end_spec(s) == s.take(b),
    decreases s.len() - b,
{
    if b == s.len() {
        assert(s.take(b) =~= s);
    } else {
        assert(is_wspace(s.last()));
        lemma_trim_end_at(s.drop_last(), b);
        assert(s.drop_last().take(b) =~= s.take(b));
    }
}

/// Whether the character is trimmed whitespace.
fn ws_char(c: char) -> (r: bool)
    ensures
        r == is_wspace(c),
{
    c == ' ' || c == '\t' || c == '\n' || c == '\r'
}

/// Removes the leading and trailing whitespace of a string slice.
pub fn trim_str<'a>(s: &'a str) -> (r: &'a str)
    ensures
        r@ == trim_spec(s@),
{
    let n = s.unicode_len();
    let mut a: usize = 0;
    while a < n && ws_char(s.get_char(a))
        invariant
            n == s@.len(),
            a <= n,
            forall|j: int| 0 <= j < a ==> is_wspace(s@[j]),
        decreases n - a,
    {
        a = a + 1;
    }
    if a == n {
        proof {
            lemma_trim_start_at(s@, a as int);
            assert(s@.skip(n as int) =~= Seq::<char>::empty());
            reveal_strlit("");
            assert(""@ =~= Seq::<char>::empty());
        }
        return "";
    }
    let mut b: usize = n;
    while b > a + 1 && ws_char(s.get_char(b - 1))
        invariant
            n == s@.len(),
            a < b <= n,
            forall|k: int| b <= k < n ==> is_wspace(s@[k]),
        decreases b,
    {
        b = b - 1;
    }
    let r = s.substring_char(a, b);
    proof {
        lemma_trim_start_at(s@, a as int);
        if is_wspace(s@[b - 1]) {
            assert(b == a + 1);
            assert(!is_wspace(s@[a as int]));
        }
        lemma_trim_end_at(s@.skip(a as int), b - a);
        assert(s@.skip(a as int).take(b - a) =~= s@.subrange(a as int, b as int));
        assert(r@ =~= s@.subrange(a as int, b as int));
    }
    r
}

/// The concatenation of two string slices.
pub fn concat2(a: &str, b: &str) -> (r: String)
    ensures
        r@ == a@ + b@,
{
    let mut r = a.to_owned();
    r.append(b);
    r
}

/// The concatenation of three string slices.
pub fn concat3(a: &str, b: &str, c: &str) -> (r: String)
    ensures
        r@ == a@ + b@ + c@,
{
    let mut r = a.to_owned();
    r.append(b);
    r.append(c);
    r
}

} // verus!
