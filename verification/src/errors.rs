//! The error model, and the aggregation policy shared by every batch
//! operation: partial work is never silently dropped, and a single failure
//! is never needlessly wrapped.

use vstd::prelude::*;

verus! {

/// An error of this library. Backend failures carry the backend's message;
/// the `Array` variant wraps two or more independent failures of a batch.
#[derive(Debug)]
pub enum GixorError {
    Array(Vec<GixorError>),
    Alias(String),
    AliasNotFound(String),
    BoilerplateNotFound(String),
    FileNotFound(String),
    Fatal(String),
    Git(String),
    IO(String),
    Json(String),
    RepositoryNotFound(String),
}

/// The result type of this library.
pub type Result<T> = core::result::Result<T, GixorError>;

/// The rendered message of an error. A composite error renders every
/// constituent message, in order, with nothing between them.
pub open spec fn message_of(e: GixorError) -> Seq<char>
    decreases e,
{
    match e {
        GixorError::Array(errs) => messages_of(errs@),
        GixorError::Alias(msg) => msg@,
        GixorError::AliasNotFound(name) => name@ + ": alias not found"@,
        GixorError::BoilerplateNotFound(name) => name@ + ": boilerplate not found"@,
        GixorError::FileNotFound(path) => path@ + ": file not found"@,
        GixorError::Fatal(msg) => "Fatal error: "@ + msg@,
        GixorError::Git(msg) => "Git error: "@ + msg@,
        GixorError::IO(msg) => "IO error: "@ + msg@,
        GixorError::Json(msg) => "JSON error: "@ + msg@,
        GixorError::RepositoryNotFound(name) => name@ + ": repository not found"@,
    }
}

/// The concatenation of the messages of a sequence of errors.
pub open spec fn messages_of(es: Seq<GixorError>) -> Seq<char>
    decreases es,
{
    if es.len() == 0 {
        Seq::empty()
    } else {
        messages_of(es.drop_last()) + message_of(es.last())
    }
}

impl GixorError {
    /// Renders this error as the user-visible message.
    #[verifier::loop_isolation(false)]
    pub fn to_message(&self) -> (r: String)
        ensures
            r@ == message_of(*self),
        decreases *self,
    {
        match self {
            GixorError::Array(errs) => {
                let mut out = String::new();
                let mut i: usize = 0;
                let n = errs.len();
                while i < n
                    invariant
                        n == errs@.len(),
                        i <= n,
                        out@ == messages_of(errs@.take(i as int)),
                    decreases n - i,
                {
                    proof {
                        assert((*self)->Array_0 == *errs);
                        assert(decreases_to!(*self => (*self)->Array_0));
                        assert(decreases_to!(*errs => errs@));
                        assert(decreases_to!(errs@ => errs@[i as int]));
                        assert(decreases_to!(*self => errs@[i as int]));
                        assert(errs@.take(i + 1).drop_last() =~= errs@.take(i as int));
                        assert(errs@.take(i + 1).last() == errs@[i as int]);
                    }
                    let m = errs[i].to_message();
                    out.append(m.as_str());
                    i = i + 1;
                }
                proof {
                    assert(errs@.take(n as int) =~= errs@);
                }
                out
            },
            GixorError::Alias(msg) => msg.clone(),
            GixorError::AliasNotFound(name) => suffixed(name, ": alias not found"),
            GixorError::BoilerplateNotFound(name) => suffixed(name, ": boilerplate not found"),
            GixorError::FileNotFound(path) => suffixed(path, ": file not found"),
            GixorError::Fatal(msg) => prefixed("Fatal error: ", msg),
            GixorError::Git(msg) => prefixed("Git error: ", msg),
            GixorError::IO(msg) => prefixed("IO error: ", msg),
            GixorError::Json(msg) => prefixed("JSON error: ", msg),
            GixorError::RepositoryNotFound(name) => suffixed(name, ": repository not found"),
        }
    }
}

/// The given text followed by a fixed suffix.
pub(crate) fn suffixed(text: &String, suffix: &str) -> (r: String)
    ensures
        r@ == text@ + suffix@,
{
    let mut r = text.clone();
    r.append(suffix);
    r
}

/// A fixed prefix followed by the given text.
pub(crate) fn prefixed(prefix: &str, text: &String) -> (r: String)
    ensures
        r@ == prefix@ + text@,
{
    let mut r = prefix.to_owned();
    r.append(text.as_str());
    r
}

/// The given text followed by a fixed suffix.
pub(crate) fn suffixed_str(text: &str, suffix: &str) -> (r: String)
    ensures
        r@ == text@ + suffix@,
{
    let mut r = text.to_owned();
    r.append(suffix);
    r
}

/// The errors among a sequence of per-item outcomes, in order.
pub open spec fn errs_of<T>(s: Seq<Result<T>>) -> Seq<GixorError>
    decreases s.len(),
{
    if s.len() == 0 {
        Seq::empty()
    } else {
        errs_of(s.drop_last())
            + (match s.last() {
            Ok(_) => Seq::empty(),
            Err(e) => seq![e],
        })
    }
}

/// The successful values among a sequence of per-item outcomes, in order.
pub open spec fn oks_of<T>(s: Seq<Result<T>>) -> Seq<T>
    decreases s.len(),
{
    if s.len() == 0 {
        Seq::empty()
    } else {
        oks_of(s.drop_last())
            + (match s.last() {
            Ok(v) => seq![v],
            Err(_) => Seq::empty(),
        })
    }
}

/// The uniform folding of a list of failures around a successful value:
/// no failure returns the value, one failure is returned as itself, and
/// two or more are wrapped into a single composite error.
pub fn errs_vec_to_result<T>(errs: Vec<GixorError>, ok_result: T) -> (r: Result<T>)
    ensures
        errs@.len() == 0 ==> r == Result::<T>::Ok(ok_result),
        errs@.len() == 1 ==> r == Result::<T>::Err(errs@[0]),
        errs@.len() >= 2 ==> r == Result::<T>::Err(GixorError::Array(errs)),
{
    if errs.is_empty() {
        Ok(ok_result)
    } else {
        single_err_or_errs_array(errs)
    }
}

/// One failure is returned as itself; two or more are wrapped.
pub fn single_err_or_errs_array<T>(errs: Vec<GixorError>) -> (r: Result<T>)
    requires
        errs@.len() >= 1,
    ensures
        errs@.len() == 1 ==> r == Result::<T>::Err(errs@[0]),
        errs@.len() >= 2 ==> r == Result::<T>::Err(GixorError::Array(errs)),
{
    if errs.len() == 1 {
        let mut errs = errs;
        let e = errs.remove(0);
        Err(e)
    } else {
        Err(GixorError::Array(errs))
    }
}

/// Collapses per-item outcomes into one: every successful value is kept, in
/// order, and the failures are folded as `errs_vec_to_result` does.
pub fn vec_result_to_result_vec<T>(result: Vec<Result<T>>) -> (r: Result<Vec<T>>)
    ensures
        errs_of(result@).len() == 0 ==> (r matches Ok(v) && v@ == oks_of(result@)),
        errs_of(result@).len() == 1 ==> r == Result::<Vec<T>>::Err(errs_of(result@)[0]),
        errs_of(result@).len() >= 2 ==> (r matches Err(e) && e matches GixorError::Array(a)
            && a@ == errs_of(result@)),
{
    let mut errs: Vec<GixorError> = Vec::new();
    let mut ok_results: Vec<T> = Vec::new();
    let mut result = result;
    let ghost all = result@;
    let mut i: usize = 0;
    let n = result.len();
    while i < n
        invariant
            n == all.len(),
            result@ == all.skip(i as int),
            i <= n,
            errs@ == errs_of(all.take(i as int)),
            ok_results@ == oks_of(all.take(i as int)),
        decreases n - i,
    {
        proof {
            assert(all.take(i + 1).drop_last() =~= all.take(i as int));
            assert(all.take(i + 1).last() == all[i as int]);
        }
        let r = result.remove(0);
        proof {
            assert(all.skip(i as int)[0] == all[i as int]);
            assert(all.skip(i as int).skip(1) =~= all.skip(i + 1));
        }
        match r {
            Ok(ok) => ok_results.push(ok),
            Err(err) => errs.push(err),
        }
        i = i + 1;
    }
    proof {
        assert(all.take(n as int) =~= all);
    }
    errs_vec_to_result(errs, ok_results)
}

/// Folds the outcomes of a batch of unit operations, keeping every failure.
pub fn merge_errors(r: Vec<Result<()>>) -> (res: Result<()>)
    ensures
        errs_of(r@).len() == 0 ==> res == Result::<()>::Ok(()),
        errs_of(r@).len() == 1 ==> res == Result::<()>::Err(errs_of(r@)[0]),
        errs_of(r@).len() >= 2 ==> (res matches Err(e) && e matches GixorError::Array(a)
            && a@ == errs_of(r@)),
{
    match vec_result_to_result_vec(r) {
        Ok(_) => Ok(()),
        Err(e) => Err(e),
    }
}

} // verus!
