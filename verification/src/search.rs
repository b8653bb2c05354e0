//! First match in declaration order.

use crate::error::DiagnosticView;
use vstd::prelude::*;

verus! {

/// The least index from `from` on at which `flags` holds `true`, or the length
/// of `flags` where there is none.
pub open spec fn first_true_from(flags: Seq<bool>, from: int) -> int
    decreases flags.len() - from,
{
    if from >= flags.len() {
        flags.len() as int
    } else if flags[from] {
        from
    } else {
        first_true_from(flags, from + 1)
    }
}

/// The least index at which `flags` holds `true`, or the length of `flags`
/// where there is none.
pub open spec fn first_true(flags: Seq<bool>) -> int {
    first_true_from(flags, 0)
}

/// An index with no `true` before it, and `true` at it unless it is the end,
/// is the first.
pub proof fn lemma_first_true_from(flags: Seq<bool>, from: int, at: int)
    requires
        0 <= from <= at <= flags.len(),
        forall|k: int| from <= k < at ==> !flags[k],
        at < flags.len() ==> flags[at],
    ensures
        first_true_from(flags, from) == at,
    decreases flags.len() - from,
{
    if from < flags.len() && !flags[from] {
        lemma_first_true_from(flags, from + 1, at);
    }
}

/// An index with no `true` before it, and `true` at it unless it is the end,
/// is the first.
pub proof fn lemma_first_true(flags: Seq<bool>, at: int)
    requires
        0 <= at <= flags.len(),
        forall|k: int| 0 <= k < at ==> !flags[k],
        at < flags.len() ==> flags[at],
    ensures
        first_true(flags) == at,
{
    lemma_first_true_from(flags, 0, at);
}

/// The first `true` lies in range, is `true` unless it is the end, and has no
/// `true` before it.
pub proof fn lemma_first_true_from_is_first(flags: Seq<bool>, from: int)
    requires
        0 <= from <= flags.len(),
    ensures
        from <= first_true_from(flags, from) <= flags.len(),
        first_true_from(flags, from) < flags.len() ==> flags[first_true_from(flags, from)],
        forall|k: int| from <= k < first_true_from(flags, from) ==> !flags[k],
    decreases flags.len() - from,
{
    if from < flags.len() && !flags[from] {
        lemma_first_true_from_is_first(flags, from + 1);
    }
}

/// The first `true` lies in range, is `true` unless it is the end, and has no
/// `true` before it.
pub proof fn lemma_first_true_is_first(flags: Seq<bool>)
    ensures
        0 <= first_true(flags) <= flags.len(),
        first_true(flags) < flags.len() ==> flags[first_true(flags)],
        forall|k: int| 0 <= k < first_true(flags) ==> !flags[k],
{
    lemma_first_true_from_is_first(flags, 0);
}

/// For each result, whether it is an error.
pub open spec fn failures<T>(results: Seq<Result<T, DiagnosticView>>) -> Seq<bool> {
    Seq::new(results.len(), |k: int| results[k] is Err)
}

/// The values of a sequence of results, or the first error among them.
pub open spec fn collect<T>(
    results: Seq<Result<T, DiagnosticView>>,
) -> Result<Seq<T>, DiagnosticView> {
    let at = first_true(failures(results));
    if at < results.len() {
        Err(results[at]->Err_0)
    } else {
        Ok(Seq::new(results.len(), |k: int| results[k]->Ok_0))
    }
}

/// Where the results before `at` are values and the one at `at` is an error,
/// that error is what collecting gives.
pub proof fn lemma_collect_err<T>(results: Seq<Result<T, DiagnosticView>>, at: int)
    requires
        0 <= at < results.len(),
        forall|k: int| 0 <= k < at ==> (#[trigger] results[k]) is Ok,
        results[at] is Err,
    ensures
        collect(results) == Err::<Seq<T>, DiagnosticView>(results[at]->Err_0),
{
    lemma_first_true(failures(results), at);
}

/// Where every result is a value, collecting gives the values.
pub proof fn lemma_collect_ok<T>(results: Seq<Result<T, DiagnosticView>>, values: Seq<T>)
    requires
        values.len() == results.len(),
        forall|k: int|
            0 <= k < results.len() ==> (#[trigger] results[k]) == Ok::<T, DiagnosticView>(
                values[k],
            ),
    ensures
        collect(results) == Ok::<Seq<T>, DiagnosticView>(values),
{
    lemma_first_true(failures(results), results.len() as int);
    assert(Seq::new(results.len(), |k: int| results[k]->Ok_0) =~= values);
}

/// Collecting gives values only where every result is one, and then the value
/// of each; it gives an error only where one is, and then the first.
pub proof fn lemma_collect<T>(results: Seq<Result<T, DiagnosticView>>)
    ensures
        match collect(results) {
            Ok(values) => values.len() == results.len() && forall|k: int|
                0 <= k < results.len() ==> (#[trigger] results[k]) == Ok::<T, DiagnosticView>(
                    values[k],
                ),
            Err(e) => exists|at: int|
                0 <= at < results.len() && results[at] == Err::<T, DiagnosticView>(e) && forall|
                    k: int,
                |
                    0 <= k < at ==> (#[trigger] results[k]) is Ok,
        },
{
    lemma_first_true_is_first(failures(results));
    let at = first_true(failures(results));
    if at < results.len() {
        assert(failures(results)[at]);
        assert forall|k: int| 0 <= k < at implies (#[trigger] results[k]) is Ok by {
            assert(!failures(results)[k]);
        }
    } else {
        assert forall|k: int| 0 <= k < results.len() implies (#[trigger] results[k]) == Ok::<
            T,
            DiagnosticView,
        >(collect(results)->Ok_0[k]) by {
            assert(!failures(results)[k]);
        }
    }
}

/// The items of a sequence where each is there, nothing where one is not.
pub open spec fn all_some<T>(items: Seq<Option<T>>) -> Option<Seq<T>> {
    if forall|k: int| 0 <= k < items.len() ==> (#[trigger] items[k]) is Some {
        Some(Seq::new(items.len(), |k: int| items[k]->Some_0))
    } else {
        None
    }
}

/// Where each item is there, the items are what `all_some` gives.
pub proof fn lemma_all_some<T>(items: Seq<Option<T>>, values: Seq<T>)
    requires
        values.len() == items.len(),
        forall|k: int| 0 <= k < items.len() ==> (#[trigger] items[k]) == Some(values[k]),
    ensures
        all_some(items) == Some(values),
{
    assert(Seq::new(items.len(), |k: int| items[k]->Some_0) =~= values);
}

/// The items that are there among the first `upto`, in order.
pub open spec fn present<T>(items: Seq<Option<T>>, upto: int) -> Seq<T>
    decreases upto,
{
    if upto <= 0 {
        Seq::empty()
    } else {
        match items[upto - 1] {
            Some(item) => present(items, upto - 1).push(item),
            None => present(items, upto - 1),
        }
    }
}

} // verus!
