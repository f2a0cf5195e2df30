//! Finding an entry by its number in a list of numbered entries.

use vstd::prelude::*;

verus! {

/// The index of the first entry of `entries` whose number is `number`.
pub open spec fn first_with<T>(entries: Seq<(u32, T)>, number: u32) -> Option<int>
    decreases entries.len(),
{
    if entries.len() == 0 {
        None
    } else if entries.first().0 == number {
        Some(0)
    } else {
        match first_with(entries.drop_first(), number) {
            Some(i) => Some(i + 1),
            None => None,
        }
    }
}

/// Whether the numbers of `entries` grow strictly from each entry to the next.
pub open spec fn strictly_numbered<T>(entries: Seq<(u32, T)>) -> bool {
    forall|i: int, j: int| 0 <= i < j < entries.len() ==> entries[i].0 < entries[j].0
}

/// An entry that carries `number`, with none before it that does, is the first with it.
pub proof fn lemma_first_with_found<T>(entries: Seq<(u32, T)>, number: u32, at: int)
    requires
        0 <= at < entries.len(),
        entries[at].0 == number,
        forall|j: int| 0 <= j < at ==> entries[j].0 != number,
    ensures
        first_with(entries, number) == Some(at),
    decreases entries.len(),
{
    if at > 0 {
        let rest = entries.drop_first();
        assert(entries.first() == entries[0]);
        assert forall|j: int| 0 <= j < at - 1 implies rest[j].0 != number by {
            assert(rest[j] == entries[j + 1]);
        }
        lemma_first_with_found(rest, number, at - 1);
    }
}

/// Where no entry carries `number`, none is found.
pub proof fn lemma_first_with_absent<T>(entries: Seq<(u32, T)>, number: u32)
    requires
        forall|j: int| 0 <= j < entries.len() ==> entries[j].0 != number,
    ensures
        first_with(entries, number).is_none(),
    decreases entries.len(),
{
    if entries.len() > 0 {
        let rest = entries.drop_first();
        assert(entries.first() == entries[0]);
        assert forall|j: int| 0 <= j < rest.len() implies rest[j].0 != number by {
            assert(rest[j] == entries[j + 1]);
        }
        lemma_first_with_absent(rest, number);
    }
}

/// What `first_with` finds carries the number, and nothing before it does.
pub proof fn lemma_first_with_is_first<T>(entries: Seq<(u32, T)>, number: u32)
    ensures
        match first_with(entries, number) {
            Some(at) => 0 <= at < entries.len() && entries[at].0 == number && forall|j: int|
                0 <= j < at ==> entries[j].0 != number,
            None => forall|j: int| 0 <= j < entries.len() ==> entries[j].0 != number,
        },
    decreases entries.len(),
{
    if entries.len() > 0 {
        let rest = entries.drop_first();
        assert(entries.first() == entries[0]);
        lemma_first_with_is_first(rest, number);
        if entries.first().0 != number {
            match first_with(rest, number) {
                Some(at) => {
                    assert(rest[at] == entries[at + 1]);
                    assert forall|j: int| 0 <= j < at + 1 implies entries[j].0 != number by {
                        if j > 0 {
                            assert(rest[j - 1] == entries[j]);
                        }
                    }
                },
                None => {
                    assert forall|j: int| 0 <= j < entries.len() implies entries[j].0
                        != number by {
                        if j > 0 {
                            assert(rest[j - 1] == entries[j]);
                        }
                    }
                },
            }
        }
    }
}

/// Whether the entries carry numbers that could have been given out one
/// after the other, starting at one, with `next` the number to give next.
pub open spec fn well_numbered<T>(entries: Seq<(u32, T)>, next: u32) -> bool {
    &&& next >= 1
    &&& strictly_numbered(entries)
    &&& forall|i: int| 0 <= i < entries.len() ==> 1 <= (#[trigger] entries[i]).0 < next
}

/// Numbers that grow from each entry to the one after it grow along the whole list.
pub proof fn lemma_strict_from_adjacent<T>(entries: Seq<(u32, T)>)
    requires
        forall|i: int| 0 < i < entries.len() ==> entries[i - 1].0 < (#[trigger] entries[i]).0,
    ensures
        strictly_numbered(entries),
{
    assert forall|i: int, j: int| 0 <= i < j < entries.len() implies entries[i].0
        < entries[j].0 by {
        lemma_strict_step(entries, i, j);
    }
}

proof fn lemma_strict_step<T>(entries: Seq<(u32, T)>, i: int, j: int)
    requires
        0 <= i < j < entries.len(),
        forall|k: int| 0 < k < entries.len() ==> entries[k - 1].0 < (#[trigger] entries[k]).0,
    ensures
        entries[i].0 < entries[j].0,
    decreases j - i,
{
    assert(entries[j - 1].0 < entries[j].0);
    if i < j - 1 {
        lemma_strict_step(entries, i, j - 1);
    }
}

/// Checks the numbering of a list of entries.
pub fn check_numbering<T>(entries: &Vec<(u32, T)>, next: u32) -> (r: bool)
    ensures
        r == well_numbered(entries@, next),
{
    if next < 1 {
        return false;
    }
    let mut i: usize = 0;
    while i < entries.len()
        invariant
            i <= entries.len(),
            next >= 1,
            forall|k: int| 0 <= k < i ==> 1 <= (#[trigger] entries@[k]).0 < next,
            forall|k: int| 0 < k < i ==> entries@[k - 1].0 < (#[trigger] entries@[k]).0,
        decreases entries.len() - i,
    {
        let number = entries[i].0;
        if number < 1 || number >= next {
            return false;
        }
        if i > 0 && entries[i - 1].0 >= number {
            assert(!(entries@[i - 1].0 < entries@[i as int].0));
            return false;
        }
        i += 1;
    }
    proof {
        lemma_strict_from_adjacent(entries@);
    }
    true
}

} // verus!
