use vstd::prelude::*;

use crate::error::{FieldError, FormError};

verus! {

/// Every cell has reported: none is still untouched.
pub open spec fn all_reported<T>(cells: Seq<Option<Result<T, FormError>>>) -> bool {
    forall|i: int| 0 <= i < cells.len() ==> #[trigger] cells[i] is Some
}

/// Every cell holds a valid value.
pub open spec fn all_valid<T>(cells: Seq<Option<Result<T, FormError>>>) -> bool {
    forall|i: int| 0 <= i < cells.len() ==> #[trigger] cells[i] matches Some(Ok(_))
}

/// Some cell holds an error.
pub open spec fn has_error<T>(cells: Seq<Option<Result<T, FormError>>>) -> bool {
    exists|i: int| 0 <= i < cells.len() && #[trigger] cells[i] matches Some(Err(_))
}

/// The valid values of the cells, in order; untouched and failed cells are skipped.
pub open spec fn ok_values<T>(cells: Seq<Option<Result<T, FormError>>>) -> Seq<T>
    decreases cells.len(),
{
    if cells.len() == 0 {
        Seq::empty()
    } else {
        let rest = ok_values(cells.drop_last());
        match cells.last() {
            Some(Ok(v)) => rest.push(v),
            _ => rest,
        }
    }
}

/// The errors of the failed cells, concatenated in the order of the cells.
pub open spec fn collected_errors<T>(cells: Seq<Option<Result<T, FormError>>>) -> Seq<FieldError>
    decreases cells.len(),
{
    if cells.len() == 0 {
        Seq::empty()
    } else {
        let rest = collected_errors(cells.drop_last());
        match cells.last() {
            Some(Err(e)) => rest + e@,
            _ => rest,
        }
    }
}

/// The number of errors that the failed cells hold, added up.
pub open spec fn error_total<T>(cells: Seq<Option<Result<T, FormError>>>) -> nat
    decreases cells.len(),
{
    if cells.len() == 0 {
        0
    } else {
        error_total(cells.drop_last()) + match cells.last() {
            Some(Err(e)) => e@.len(),
            _ => 0,
        }
    }
}

/// What the siblings `cells` report to their parent: nothing while one is untouched; once
/// all have reported, their values if all are valid, else all their errors in order.
pub open spec fn merged<T>(cells: Seq<Option<Result<T, FormError>>>) -> Option<
    Result<Seq<T>, Seq<FieldError>>,
> {
    if !all_reported(cells) {
        None
    } else if all_valid(cells) {
        Some(Ok(ok_values(cells)))
    } else {
        Some(Err(collected_errors(cells)))
    }
}

proof fn lemma_prefix_step<T>(cells: Seq<Option<Result<T, FormError>>>, k: int)
    requires
        0 <= k < cells.len(),
    ensures
        cells.take(k + 1).drop_last() == cells.take(k),
        cells.take(k + 1).last() == cells[k],
{
    assert(cells.take(k + 1).drop_last() =~= cells.take(k));
}

/// Merges the cells of sibling fields into their parent's result.
///
/// `None` means that the parent does not report yet. Once every cell has reported, the
/// parent gets all the values if every cell is valid, else the errors of every failed
/// cell, merged in the order of the cells.
pub fn merge_fields<T>(cells: Vec<Option<Result<T, FormError>>>) -> (r: Option<
    Result<Vec<T>, FormError>,
>)
    ensures
        (exists|i: int| 0 <= i < cells@.len() && #[trigger] cells@[i] is None) ==> r is None,
        r matches Some(Ok(_)) <==> (forall|i: int|
            0 <= i < cells@.len() ==> #[trigger] cells@[i] matches Some(Ok(_))),
        match r {
            None => merged(cells@) is None,
            Some(Ok(values)) => merged(cells@) == Some(Ok::<Seq<T>, Seq<FieldError>>(values@)),
            Some(Err(e)) => merged(cells@) == Some(Err::<Seq<T>, Seq<FieldError>>(e@)),
        },
{
    let n = cells.len();
    let mut k: usize = 0;
    while k < n
        invariant
            n == cells@.len(),
            k <= n,
            forall|i: int| 0 <= i < k ==> #[trigger] cells@[i] is Some,
        decreases n - k,
    {
        if cells[k].is_none() {
            return None;
        }
        k = k + 1;
    }
    let ghost all = cells@;
    let mut values: Vec<T> = Vec::new();
    let mut errors = FormError::new();
    let mut failed = false;
    for cell in it: cells.into_iter()
        invariant
            it.seq() == all,
            all_reported(all),
            values@ == ok_values(all.take(it.index() as int)),
            errors@ == collected_errors(all.take(it.index() as int)),
            failed <==> has_error(all.take(it.index() as int)),
    {
        proof {
            lemma_prefix_step(all, it.index() as int);
        }
        let ghost before = all.take(it.index() as int);
        let ghost after = all.take(it.index() + 1);
        match cell {
            Some(Ok(v)) => {
                values.push(v);
                assert(has_error(after) ==> has_error(before)) by {
                    if has_error(after) {
                        let j = choose|j: int| 0 <= j < after.len() && #[trigger] after[j] matches Some(Err(_));
                        assert(before[j] == after[j]);
                    }
                }
            },
            Some(Err(e)) => {
                errors.extend(e);
                failed = true;
                assert(after[after.len() - 1] matches Some(Err(_)));
            },
            None => {
                assert(false);
            },
        }
    }
    proof {
        assert(all.take(all.len() as int) =~= all);
        assert(!all_valid(all) <==> has_error(all)) by {
            if !all_valid(all) {
                let j = choose|j: int| 0 <= j < all.len() && !(#[trigger] all[j] matches Some(Ok(_)));
                assert(all[j] is Some);
            }
        }
    }
    if failed {
        Some(Err(errors))
    } else {
        Some(Ok(values))
    }
}

/// Folds the cells of a list's elements into the list's result.
///
/// Untouched elements are skipped. Without a failed element, the list is the valid values
/// in order; with one, it is the errors of every failed element, merged in order.
pub fn fold_list<T>(cells: Vec<Option<Result<T, FormError>>>) -> (r: Result<Vec<T>, FormError>)
    ensures
        match r {
            Ok(values) => !has_error(cells@) && values@ == ok_values(cells@),
            Err(e) => has_error(cells@) && e@ == collected_errors(cells@),
        },
{
    let ghost all = cells@;
    let mut acc: Result<Vec<T>, FormError> = Ok(Vec::new());
    for cell in it: cells.into_iter()
        invariant
            it.seq() == all,
            match acc {
                Ok(values) => !has_error(all.take(it.index() as int)) && values@ == ok_values(
                    all.take(it.index() as int),
                ),
                Err(e) => has_error(all.take(it.index() as int)) && e@ == collected_errors(
                    all.take(it.index() as int),
                ),
            },
    {
        proof {
            lemma_prefix_step(all, it.index() as int);
        }
        let ghost before = all.take(it.index() as int);
        let ghost after = all.take(it.index() + 1);
        assert(has_error(before) ==> has_error(after)) by {
            if has_error(before) {
                let j = choose|j: int| 0 <= j < before.len() && #[trigger] before[j] matches Some(Err(_));
                assert(after[j] == before[j]);
            }
        }
        assert(!(after.last() matches Some(Err(_))) ==> (has_error(after) ==> has_error(
            before,
        ))) by {
            if has_error(after) && !(after.last() matches Some(Err(_))) {
                let j = choose|j: int| 0 <= j < after.len() && #[trigger] after[j] matches Some(Err(_));
                assert(before[j] == after[j]);
            }
        }
        acc = match (acc, cell) {
            (acc, None) => acc,
            (Ok(mut values), Some(Ok(v))) => {
                values.push(v);
                Ok(values)
            },
            (Ok(_), Some(Err(e))) => {
                assert(collected_errors(before) =~= Seq::<FieldError>::empty()) by {
                    lemma_no_error_collects_nothing(before);
                }
                assert(collected_errors(after) =~= e@);
                Err(e)
            },
            (Err(mut combined), Some(Err(e))) => {
                combined.extend(e);
                Err(combined)
            },
            (Err(e), Some(Ok(_))) => Err(e),
        };
    }
    proof {
        assert(all.take(all.len() as int) =~= all);
    }
    acc
}

proof fn lemma_no_error_collects_nothing<T>(cells: Seq<Option<Result<T, FormError>>>)
    requires
        !has_error(cells),
    ensures
        collected_errors(cells) == Seq::<FieldError>::empty(),
    decreases cells.len(),
{
    if cells.len() > 0 {
        assert(!has_error(cells.drop_last())) by {
            if has_error(cells.drop_last()) {
                let j = choose|j: int|
                    0 <= j < cells.drop_last().len() && #[trigger] cells.drop_last()[j] matches Some(
                        Err(_),
                    );
                assert(cells[j] == cells.drop_last()[j]);
            }
        }
        lemma_no_error_collects_nothing(cells.drop_last());
        assert(!(cells[cells.len() - 1] matches Some(Err(_))));
    }
}

/// The merged error of failed siblings holds as many errors as the failed cells together,
/// and they come in the order of the cells: the errors of the cell at `i` stand after those
/// of every failed cell before it.
pub proof fn lemma_merged_error_count<T>(cells: Seq<Option<Result<T, FormError>>>, i: int)
    requires
        0 <= i < cells.len(),
        cells[i] matches Some(Err(_)),
    ensures
        collected_errors(cells).len() == error_total(cells),
        collected_errors(cells.take(i + 1)) == collected_errors(cells.take(i)) + cells[i]->0->Err_0@,
        collected_errors(cells.take(i + 1)).is_prefix_of(collected_errors(cells)),
{
    lemma_collected_len(cells);
    lemma_prefix_step(cells, i);
    lemma_collected_prefix(cells, i + 1);
}

proof fn lemma_collected_len<T>(cells: Seq<Option<Result<T, FormError>>>)
    ensures
        collected_errors(cells).len() == error_total(cells),
    decreases cells.len(),
{
    if cells.len() > 0 {
        lemma_collected_len(cells.drop_last());
    }
}

proof fn lemma_collected_prefix<T>(cells: Seq<Option<Result<T, FormError>>>, k: int)
    requires
        0 <= k <= cells.len(),
    ensures
        collected_errors(cells.take(k)).is_prefix_of(collected_errors(cells)),
    decreases cells.len() - k,
{
    if k < cells.len() {
        lemma_collected_prefix(cells, k + 1);
        lemma_prefix_step(cells, k);
    } else {
        assert(cells.take(k) =~= cells);
    }
}

} // verus!
