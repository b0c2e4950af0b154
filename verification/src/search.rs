//! Trying candidates one after the other until one works.
use vstd::prelude::*;

verus! {

/// A search for the first of `count` candidates that works.
#[derive(Clone, Copy, Debug, PartialEq, Eq, Structural)]
pub struct FirstWorking {
    pub count: usize,
    /// How many candidates have been tried.
    pub tried: usize,
    /// Whether the last one that was tried works.
    pub found: bool,
}

/// The first candidate from `from` on that works.
pub open spec fn first_working(count: int, works: spec_fn(int) -> bool, from: int) -> Option<int>
    decreases count - from,
{
    if from >= count {
        None
    } else if works(from) {
        Some(from)
    } else {
        first_working(count, works, from + 1)
    }
}

impl FirstWorking {
    pub open spec fn wf(self) -> bool {
        &&& self.tried <= self.count
        &&& self.found ==> self.tried > 0
    }

    /// The candidate to try next, if the search goes on.
    pub open spec fn spec_pending(self) -> Option<int> {
        if !self.found && self.tried < self.count {
            Some(self.tried as int)
        } else {
            None
        }
    }

    /// The candidate that works, if it has been found.
    pub open spec fn spec_chosen(self) -> Option<int> {
        if self.found {
            Some(self.tried - 1)
        } else {
            None
        }
    }

    /// What has been recorded is what `works` says of the candidates tried.
    pub open spec fn agrees(self, works: spec_fn(int) -> bool) -> bool {
        &&& forall|i: int| 0 <= i < self.tried - 1 ==> !#[trigger] works(i)
        &&& self.tried > 0 ==> works(self.tried - 1) == self.found
    }

    /// A search that has tried nothing yet.
    pub fn new(count: usize) -> (r: Self)
        ensures
            r == (FirstWorking { count, tried: 0, found: false }),
            r.wf(),
    {
        FirstWorking { count, tried: 0, found: false }
    }

    /// The candidate to try next, if the search goes on.
    pub fn pending(&self) -> (r: Option<usize>)
        ensures
            r is Some <==> self.spec_pending() is Some,
            r matches Some(i) ==> self.spec_pending() == Some(i as int),
    {
        if !self.found && self.tried < self.count {
            Some(self.tried)
        } else {
            None
        }
    }

    /// Records whether the pending candidate works.
    pub fn record(&mut self, works: bool)
        requires
            old(self).spec_pending() is Some,
        ensures
            *final(self) == (FirstWorking {
                count: old(self).count,
                tried: (old(self).tried + 1) as usize,
                found: works,
            }),
            final(self).wf(),
    {
        self.tried = self.tried + 1;
        self.found = works;
    }

    /// The candidate that works, if it has been found.
    pub fn chosen(&self) -> (r: Option<usize>)
        requires
            self.wf(),
        ensures
            r is Some <==> self.spec_chosen() is Some,
            r matches Some(i) ==> self.spec_chosen() == Some(i as int) && i < self.count,
    {
        if self.found {
            Some(self.tried - 1)
        } else {
            None
        }
    }
}

/// Recording what `works` says of the pending candidate keeps the record true.
pub proof fn law_record_agrees(before: FirstWorking, works: spec_fn(int) -> bool)
    requires
        before.wf(),
        before.agrees(works),
        before.spec_pending() is Some,
    ensures
        (FirstWorking {
            count: before.count,
            tried: (before.tried + 1) as usize,
            found: works(before.tried as int),
        }).agrees(works),
{
    let after = FirstWorking {
        count: before.count,
        tried: (before.tried + 1) as usize,
        found: works(before.tried as int),
    };
    assert forall|i: int| 0 <= i < after.tried - 1 implies !#[trigger] works(i) by {
        if i == before.tried - 1 {
            assert(works(i) == before.found);
        }
    }
}

/// A search that has ended has chosen the first candidate that works, and has
/// chosen none exactly if none works.
pub proof fn law_search_finds_first(search: FirstWorking, works: spec_fn(int) -> bool)
    requires
        search.wf(),
        search.agrees(works),
        search.spec_pending() is None,
    ensures
        search.spec_chosen() == first_working(search.count as int, works, 0),
{
    if search.found {
        lemma_skip(search.count as int, works, 0, search.tried - 1);
    } else {
        assert forall|i: int| 0 <= i < search.tried implies !#[trigger] works(i) by {}
        lemma_skip(search.count as int, works, 0, search.tried as int);
    }
}

/// Candidates that do not work can be passed over.
proof fn lemma_skip(count: int, works: spec_fn(int) -> bool, from: int, to: int)
    requires
        0 <= from <= to <= count,
        forall|i: int| from <= i < to ==> !#[trigger] works(i),
    ensures
        first_working(count, works, from) == first_working(count, works, to),
    decreases to - from,
{
    if from < to {
        assert(!works(from));
        lemma_skip(count, works, from + 1, to);
    }
}

/// What the first candidate that works is: one that works, with none before it that does;
/// there is none exactly if none works.
pub proof fn law_first_working(count: int, works: spec_fn(int) -> bool)
    requires
        0 <= count,
    ensures
        match first_working(count, works, 0) {
            Some(i) => 0 <= i < count && works(i) && forall|j: int|
                0 <= j < i ==> !#[trigger] works(j),
            None => forall|j: int| 0 <= j < count ==> !#[trigger] works(j),
        },
{
    lemma_first_from(count, works, 0);
}

/// What the first candidate from `from` on that works is.
proof fn lemma_first_from(count: int, works: spec_fn(int) -> bool, from: int)
    requires
        0 <= from <= count,
    ensures
        match first_working(count, works, from) {
            Some(i) => from <= i < count && works(i) && forall|j: int|
                from <= j < i ==> !#[trigger] works(j),
            None => forall|j: int| from <= j < count ==> !#[trigger] works(j),
        },
    decreases count - from,
{
    if from < count && !works(from) {
        lemma_first_from(count, works, from + 1);
    }
}

/// An outcome for each of a list of items, as a search numbers them.
pub open spec fn outcomes<T>(items: Seq<T>, works: spec_fn(T) -> bool) -> spec_fn(int) -> bool {
    |i: int| works(items[i])
}

/// The first of a list of items that works.
pub open spec fn first_of<T>(items: Seq<T>, works: spec_fn(T) -> bool) -> Option<T>
    decreases items.len(),
{
    if items.len() == 0 {
        None
    } else {
        match first_of(items.drop_last(), works) {
            Some(item) => Some(item),
            None => if works(items.last()) {
                Some(items.last())
            } else {
                None
            },
        }
    }
}

/// The item that a search has chosen.
pub open spec fn chosen_item<T>(search: FirstWorking, items: Seq<T>) -> Option<T> {
    match search.spec_chosen() {
        Some(i) => Some(items[i]),
        None => None,
    }
}

/// A search through a list of items that has ended has chosen the first item that works:
/// one that works, with none before it in the list that does. It has chosen none exactly
/// if none works.
pub proof fn law_search_finds_first_item<T>(
    search: FirstWorking,
    items: Seq<T>,
    works: spec_fn(T) -> bool,
)
    requires
        search.wf(),
        search.count == items.len(),
        search.agrees(outcomes(items, works)),
        search.spec_pending() is None,
    ensures
        chosen_item(search, items) == first_of(items, works),
        match chosen_item(search, items) {
            Some(item) => exists|i: int|
                {
                    &&& 0 <= i < items.len()
                    &&& #[trigger] items[i] == item
                    &&& works(item)
                    &&& forall|j: int| 0 <= j < i ==> !works(#[trigger] items[j])
                },
            None => forall|j: int| 0 <= j < items.len() ==> !works(#[trigger] items[j]),
        },
{
    let told = outcomes(items, works);
    law_search_finds_first(search, told);
    law_first_working(search.count as int, told);
    match search.spec_chosen() {
        Some(i) => {
            assert(told(i));
            assert forall|j: int| 0 <= j < i implies !works(#[trigger] items[j]) by {
                assert(!told(j));
            }
            lemma_first_of_is(items, works, i);
        },
        None => {
            assert forall|j: int| 0 <= j < items.len() implies !works(#[trigger] items[j]) by {
                assert(!told(j));
            }
            lemma_first_of_none(items, works);
        },
    }
}

/// The first item that works is the one with none before it that does.
proof fn lemma_first_of_is<T>(items: Seq<T>, works: spec_fn(T) -> bool, i: int)
    requires
        0 <= i < items.len(),
        works(items[i]),
        forall|j: int| 0 <= j < i ==> !works(#[trigger] items[j]),
    ensures
        first_of(items, works) == Some(items[i]),
    decreases items.len(),
{
    let front = items.drop_last();
    assert forall|j: int| 0 <= j < i implies !works(#[trigger] front[j]) by {
        assert(front[j] == items[j]);
    }
    if i < front.len() {
        lemma_first_of_is(front, works, i);
    } else {
        lemma_first_of_none(front, works);
    }
}

/// There is no first item that works where none works.
proof fn lemma_first_of_none<T>(items: Seq<T>, works: spec_fn(T) -> bool)
    requires
        forall|j: int| 0 <= j < items.len() ==> !works(#[trigger] items[j]),
    ensures
        first_of(items, works) is None,
    decreases items.len(),
{
    if items.len() > 0 {
        let front = items.drop_last();
        assert forall|j: int| 0 <= j < front.len() implies !works(#[trigger] front[j]) by {
            assert(front[j] == items[j]);
        }
        lemma_first_of_none(front, works);
    }
}

/// An item that does not work changes nothing in front of a list.
pub proof fn law_useless_item_in_front<T>(item: T, items: Seq<T>, works: spec_fn(T) -> bool)
    requires
        !works(item),
    ensures
        first_of(seq![item] + items, works) == first_of(items, works),
    decreases items.len(),
{
    let all = seq![item] + items;
    if items.len() == 0 {
        assert(all.drop_last() =~= Seq::<T>::empty());
        assert(first_of(all.drop_last(), works) is None);
    } else {
        assert(all.drop_last() =~= seq![item] + items.drop_last());
        law_useless_item_in_front(item, items.drop_last(), works);
    }
}

/// An item that works in front of a list is the first that does.
pub proof fn law_working_item_in_front<T>(item: T, items: Seq<T>, works: spec_fn(T) -> bool)
    requires
        works(item),
    ensures
        first_of(seq![item] + items, works) == Some(item),
{
    lemma_first_of_is(seq![item] + items, works, 0);
}

/// Items that do not work can be left out of a list.
pub proof fn law_useless_items_left_out<T>(
    items: Seq<T>,
    keep: spec_fn(T) -> bool,
    works: spec_fn(T) -> bool,
)
    requires
        forall|item: T| #[trigger] works(item) ==> keep(item),
    ensures
        first_of(items.filter(keep), works) == first_of(items, works),
    decreases items.len(),
{
    reveal(Seq::filter);
    if items.len() > 0 {
        law_useless_items_left_out(items.drop_last(), keep, works);
        if keep(items.last()) {
            assert(items.filter(keep).drop_last() =~= items.drop_last().filter(keep));
        } else {
            assert(!works(items.last()));
        }
    }
}

} // verus!
