//! What an engine computation comes to: a value, an engine error, or an
//! abort (machine arithmetic that would overflow or divide by zero).
use vstd::prelude::*;

use crate::engine::error::{EngineError, EngineErrorView, ResolveErrorView};

verus! {

pub enum Outcome<T> {
    Done(T),
    Fail(EngineErrorView),
    Aborts,
}

/// A resolution error as an outcome.
pub open spec fn fail_resolve<T>(e: ResolveErrorView) -> Outcome<T> {
    Outcome::Fail(EngineErrorView::Resolve(e))
}

/// `r` is the executable counterpart of outcome `o`.
pub open spec fn result_matches<T: View>(r: Result<T, EngineError>, o: Outcome<T::V>) -> bool {
    match o {
        Outcome::Done(v) => match r {
            Ok(x) => x@ == v,
            Err(_) => false,
        },
        Outcome::Fail(e) => match r {
            Ok(_) => false,
            Err(x) => x.view() == e,
        },
        Outcome::Aborts => false,
    }
}

/// A run of computations, stopping at the first that fails or aborts: the
/// values of all of them, or that first failure.
pub open spec fn collect<T>(os: Seq<Outcome<T>>) -> Outcome<Seq<T>>
    decreases os.len(),
{
    if os.len() == 0 {
        Outcome::Done(Seq::empty())
    } else {
        match os[0] {
            Outcome::Done(v) => prepend(seq![v], collect(os.drop_first())),
            Outcome::Fail(e) => Outcome::Fail(e),
            Outcome::Aborts => Outcome::Aborts,
        }
    }
}

/// `vs` followed by the values of `o`, when it has them.
pub open spec fn prepend<T>(vs: Seq<T>, o: Outcome<Seq<T>>) -> Outcome<Seq<T>> {
    match o {
        Outcome::Done(ws) => Outcome::Done(vs + ws),
        Outcome::Fail(e) => Outcome::Fail(e),
        Outcome::Aborts => Outcome::Aborts,
    }
}

/// One step of a left-to-right run: after `i` done computations with
/// values `vs`, the run's outcome is `vs` ahead of the rest's.
pub proof fn lemma_collect_step<T>(os: Seq<Outcome<T>>, i: int, vs: Seq<T>)
    requires
        0 <= i < os.len(),
        collect(os) == prepend(vs, collect(os.skip(i))),
    ensures
        os[i] matches Outcome::Done(v) ==> collect(os) == prepend(vs.push(v), collect(os.skip(i + 1))),
        os[i] matches Outcome::Fail(e) ==> collect(os) == Outcome::<Seq<T>>::Fail(e),
        !(collect(os) is Aborts) ==> !(os[i] is Aborts),
{
    let rest = os.skip(i);
    assert(rest[0] == os[i]);
    assert(rest.drop_first() =~= os.skip(i + 1));
    match os[i] {
        Outcome::Done(v) => {
            match collect(os.skip(i + 1)) {
                Outcome::Done(ws) => {
                    assert(vs + (seq![v] + ws) =~= vs.push(v) + ws);
                },
                _ => {},
            }
        },
        _ => {},
    }
}

/// The run of no computations is done with no values.
pub proof fn lemma_collect_start<T>(os: Seq<Outcome<T>>)
    ensures
        collect(os) == prepend(Seq::<T>::empty(), collect(os.skip(0))),
{
    assert(os.skip(0) =~= os);
    match collect(os) {
        Outcome::Done(ws) => {
            assert(Seq::<T>::empty() + ws =~= ws);
        },
        _ => {},
    }
}

/// At the end of a run of done computations, the run's values are theirs.
pub proof fn lemma_collect_end<T>(os: Seq<Outcome<T>>, vs: Seq<T>)
    requires
        collect(os) == prepend(vs, collect(os.skip(os.len() as int))),
    ensures
        collect(os) == Outcome::Done(vs),
{
    assert(os.skip(os.len() as int) =~= Seq::<Outcome<T>>::empty());
    assert(vs + Seq::<T>::empty() =~= vs);
}

} // verus!
