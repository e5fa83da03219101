use vstd::prelude::*;

use crate::aggregate::{collected_errors, fold_list, has_error, ok_values};
use crate::error::FormError;

verus! {

/// An element of a list field: an identity that survives reordering and removal, and the
/// element's cell (untouched, valid or failed).
#[derive(Clone, Debug)]
pub struct ListItem<T> {
    pub id: u128,
    pub value: Option<Result<T, FormError>>,
}

/// The elements of a list field, in order.
#[derive(Clone, Debug)]
pub struct ListItems<T> {
    items: Vec<ListItem<T>>,
}

/// Relies on `uuid::Uuid::new_v4` and `Uuid::as_u128`: a random version 4 identifier as one
/// number, whose version nibble is 4 and whose variant bits are `10`.
#[verifier::external_body]
fn random_id() -> (r: u128)
    ensures
        (r >> 76u128) & 0xfu128 == 4,
        (r >> 62u128) & 0x3u128 == 2,
{
    uuid::Uuid::new_v4().as_u128()
}

/// The cells of `items`, in order.
pub open spec fn cells_of<T>(items: Seq<ListItem<T>>) -> Seq<Option<Result<T, FormError>>> {
    items.map_values(|it: ListItem<T>| it.value)
}

/// Position of the first element whose identity is `id`, if any.
pub open spec fn position_of<T>(items: Seq<ListItem<T>>, id: u128) -> Option<int>
    decreases items.len(),
{
    if items.len() == 0 {
        None
    } else {
        match position_of(items.drop_last(), id) {
            Some(p) => Some(p),
            None => if items.last().id == id {
                Some(items.len() - 1)
            } else {
                None
            },
        }
    }
}

proof fn lemma_position_of<T>(items: Seq<ListItem<T>>, id: u128)
    ensures
        match position_of(items, id) {
            Some(p) => 0 <= p < items.len() && items[p].id == id && forall|j: int|
                0 <= j < p ==> #[trigger] items[j].id != id,
            None => forall|j: int| 0 <= j < items.len() ==> #[trigger] items[j].id != id,
        },
    decreases items.len(),
{
    if items.len() > 0 {
        lemma_position_of(items.drop_last(), id);
        assert forall|j: int| 0 <= j < items.len() - 1 implies #[trigger] items[j] == items.drop_last()[j] by {}
    }
}

/// The elements of `items` whose identity is not `id`, in order.
pub open spec fn without_id<T>(items: Seq<ListItem<T>>, id: u128) -> Seq<ListItem<T>> {
    items.filter(|it: ListItem<T>| it.id != id)
}

/// Removing the elements with identity `id` leaves every other element in the list, with
/// its identity and its cell, and brings in nothing else: what remains is the other
/// elements in their old order.
pub proof fn lemma_removal_keeps_others<T>(items: Seq<ListItem<T>>, id: u128)
    ensures
        forall|i: int|
            0 <= i < items.len() && items[i].id != id ==> #[trigger] without_id(items, id).contains(
                items[i],
            ),
        forall|j: int|
            0 <= j < without_id(items, id).len() ==> (#[trigger] without_id(items, id)[j]).id != id
                && items.contains(without_id(items, id)[j]),
{
    broadcast use vstd::seq_lib::group_filter_ensures;

    let keep = |it: ListItem<T>| it.id != id;
    assert forall|i: int| 0 <= i < items.len() && items[i].id != id implies #[trigger] without_id(
        items,
        id,
    ).contains(items[i]) by {
        items.lemma_filter_contains(keep, i);
    }
    lemma_filter_from_source(items, keep);
}

proof fn lemma_filter_from_source<T>(items: Seq<ListItem<T>>, keep: spec_fn(ListItem<T>) -> bool)
    ensures
        forall|j: int|
            0 <= j < items.filter(keep).len() ==> keep(#[trigger] items.filter(keep)[j])
                && items.contains(items.filter(keep)[j]),
    decreases items.len(),
{
    broadcast use vstd::seq_lib::group_filter_ensures;

    reveal(Seq::filter);
    if items.len() > 0 {
        let rest = items.drop_last();
        lemma_filter_from_source(rest, keep);
        let out = items.filter(keep);
        assert forall|j: int| 0 <= j < out.len() implies keep(#[trigger] out[j]) && items.contains(
            out[j],
        ) by {
            if j < rest.filter(keep).len() {
                assert(out[j] == rest.filter(keep)[j]);
                let k = choose|k: int| 0 <= k < rest.len() && rest[k] == out[j];
                assert(items[k] == out[j]);
            } else {
                assert(out[j] == items[items.len() - 1]);
            }
        }
    }
}

impl<T> View for ListItems<T> {
    type V = Seq<ListItem<T>>;

    closed spec fn view(&self) -> Seq<ListItem<T>> {
        self.items@
    }
}

impl<T> ListItems<T> {
    /// A list without elements.
    pub fn new() -> (r: ListItems<T>)
        ensures
            r@ == Seq::<ListItem<T>>::empty(),
    {
        ListItems { items: Vec::new() }
    }

    /// A list holding `values`, each valid, each under a fresh random identity.
    pub fn from_values(values: Vec<T>) -> (r: ListItems<T>)
        ensures
            r@.len() == values@.len(),
            forall|i: int| 0 <= i < values@.len() ==> #[trigger] r@[i].value == Some(
                Ok::<T, FormError>(values@[i]),
            ),
    {
        let mut list = ListItems::new();
        let ghost all = values@;
        for v in it: values.into_iter()
            invariant
                it.seq() == all,
                list@.len() == it.index(),
                forall|i: int| 0 <= i < it.index() ==> #[trigger] list@[i].value == Some(
                    Ok::<T, FormError>(all[i]),
                ),
        {
            let id = random_id();
            list.items.push(ListItem { id, value: Some(Ok(v)) });
        }
        list
    }

    /// Number of elements.
    pub fn len(&self) -> (r: usize)
        ensures
            r == self@.len(),
    {
        self.items.len()
    }

    /// The elements, in order.
    pub fn items(&self) -> (r: &Vec<ListItem<T>>)
        ensures
            r@ == self@,
    {
        &self.items
    }

    /// Appends an untouched element under the identity `id`.
    pub fn push_item(&mut self, id: u128)
        ensures
            final(self)@ == old(self)@.push(ListItem { id, value: None }),
    {
        self.items.push(ListItem { id, value: None });
    }

    /// Appends an untouched element under a fresh random identity, which it returns.
    pub fn push_new(&mut self) -> (id: u128)
        ensures
            final(self)@ == old(self)@.push(ListItem { id, value: None }),
    {
        let id = random_id();
        self.push_item(id);
        id
    }

    /// Removes every element whose identity is `id`. The others keep their identity, their
    /// cell and their order.
    pub fn remove(&mut self, id: u128)
        ensures
            final(self)@ == without_id(old(self)@, id),
    {
        let mut kept: Vec<ListItem<T>> = Vec::new();
        let mut old_items: Vec<ListItem<T>> = Vec::new();
        std::mem::swap(&mut old_items, &mut self.items);
        let ghost all = old_items@;
        let ghost keep = |it: ListItem<T>| it.id != id;
        for item in it: old_items.into_iter()
            invariant
                it.seq() == all,
                all == old(self)@,
                keep == (|it: ListItem<T>| it.id != id),
                kept@ == all.take(it.index() as int).filter(keep),
        {
            proof {
                reveal(Seq::filter);
                let s = all.take(it.index() + 1);
                assert(s.drop_last() =~= all.take(it.index() as int));
                assert(s.last() == item);
                assert(s.filter(keep) == if keep(item) {
                    s.drop_last().filter(keep).push(item)
                } else {
                    s.drop_last().filter(keep)
                });
            }
            if item.id != id {
                kept.push(item);
            }
        }
        proof {
            assert(all.take(all.len() as int) =~= all);
        }
        self.items = kept;
    }

    /// Records `value` as the cell of the first element whose identity is `id`, and says
    /// whether there was one. The other elements are unchanged.
    pub fn set_value(&mut self, id: u128, value: Result<T, FormError>) -> (found: bool)
        ensures
            found <==> position_of(old(self)@, id) is Some,
            match position_of(old(self)@, id) {
                Some(p) => final(self)@ == old(self)@.update(p, ListItem { id, value: Some(value) }),
                None => final(self)@ == old(self)@,
            },
    {
        proof {
            lemma_position_of(self@, id);
        }
        let n = self.items.len();
        let mut k: usize = 0;
        while k < n
            invariant
                n == self@.len(),
                self@ == old(self)@,
                k <= n,
                forall|j: int| 0 <= j < k ==> #[trigger] self@[j].id != id,
                match position_of(old(self)@, id) {
                    Some(p) => 0 <= p < n && old(self)@[p].id == id && forall|j: int|
                        0 <= j < p ==> #[trigger] old(self)@[j].id != id,
                    None => forall|j: int| 0 <= j < n ==> #[trigger] old(self)@[j].id != id,
                },
            decreases n - k,
        {
            if self.items[k].id == id {
                self.items.set(k, ListItem { id, value: Some(value) });
                return true;
            }
            k = k + 1;
        }
        false
    }

    /// The cells of the elements, in order.
    pub fn into_cells(self) -> (r: Vec<Option<Result<T, FormError>>>)
        ensures
            r@ == cells_of(self@),
    {
        let ghost all = self@;
        let mut cells: Vec<Option<Result<T, FormError>>> = Vec::new();
        for item in it: self.items.into_iter()
            invariant
                it.seq() == all,
                cells@ == cells_of(all.take(it.index() as int)),
        {
            proof {
                assert(cells_of(all.take(it.index() + 1)) =~= cells_of(
                    all.take(it.index() as int),
                ).push(item.value));
            }
            cells.push(item.value);
        }
        proof {
            assert(all.take(all.len() as int) =~= all);
        }
        cells
    }

    /// The list's result: see [`fold_list`].
    pub fn aggregate(self) -> (r: Result<Vec<T>, FormError>)
        ensures
            match r {
                Ok(values) => !has_error(cells_of(self@)) && values@ == ok_values(cells_of(self@)),
                Err(e) => has_error(cells_of(self@)) && e@ == collected_errors(cells_of(self@)),
            },
    {
        fold_list(self.into_cells())
    }
}

} // verus!
