//! The script buffers of a session: numbered pieces of script text.

use crate::lookup::{
    check_numbering, first_with, lemma_first_with_absent, lemma_first_with_found,
    strictly_numbered, well_numbered,
};
use crate::text::{
    decimal_digits, from_chars, lines, lines_of, pad_right, pad_to, push_decimal, push_str, rows,
    to_chars,
};
use vstd::prelude::*;

verus! {

/// Script texts, each under the number it was given when it was added.
/// Numbers start at one, grow with every addition and are never given twice.
#[derive(Debug)]
pub struct ScriptBuffers {
    store: Vec<(u32, String)>,
    counter: u32,
}

impl View for ScriptBuffers {
    type V = Seq<(u32, Seq<char>)>;

    /// The buffers in the order in which they were added: number and text.
    closed spec fn view(&self) -> Seq<(u32, Seq<char>)> {
        Seq::new(self.store.len() as nat, |i: int| (self.store[i].0, self.store[i].1@))
    }
}

impl ScriptBuffers {
    /// The number that the next added buffer gets.
    pub closed spec fn next_number(&self) -> u32 {
        self.counter
    }

    /// The invariant: the numbers grow from buffer to buffer, and all lie
    /// between one and the next number to give.
    pub open spec fn wf(&self) -> bool {
        &&& self.next_number() >= 1
        &&& strictly_numbered(self@)
        &&& forall|i: int| 0 <= i < self@.len() ==> 1 <= (#[trigger] self@[i]).0 < self.next_number()
    }

    /// No buffers; the first one added gets the number one.
    pub fn new() -> (r: Self)
        ensures
            r@ == Seq::<(u32, Seq<char>)>::empty(),
            r.next_number() == 1,
            r.wf(),
    {
        ScriptBuffers { store: Vec::new(), counter: 1 }
    }

    /// Whether every number has been given out, so that nothing can be added.
    pub fn is_full(&self) -> (r: bool)
        ensures
            r == (self.next_number() == u32::MAX),
    {
        self.counter == u32::MAX
    }

    /// How many buffers there are.
    pub fn len(&self) -> (r: usize)
        ensures
            r == self@.len(),
    {
        self.store.len()
    }

    /// Adds a buffer at the end and returns its number.
    pub fn add(&mut self, buf: String) -> (number: u32)
        requires
            old(self).wf(),
            old(self).next_number() < u32::MAX,
        ensures
            number == old(self).next_number(),
            final(self)@ == old(self)@.push((number, buf@)),
            final(self).next_number() == number + 1,
            final(self).wf(),
            forall|i: int| 0 <= i < old(self)@.len() ==> (#[trigger] old(self)@[i]).0 < number,
    {
        let number = self.counter;
        self.store.push((number, buf));
        self.counter = number + 1;
        assert(self@ == old(self)@.push((number, buf@)));
        number
    }

    /// The text of the buffer with the given number.
    pub fn get(&self, number: u32) -> (r: Option<&String>)
        ensures
            match first_with(self@, number) {
                Some(at) => r.is_some() && r.unwrap()@ == self@[at].1,
                None => r.is_none(),
            },
    {
        let mut i: usize = 0;
        while i < self.store.len()
            invariant
                i <= self.store.len(),
                forall|j: int| 0 <= j < i ==> self@[j].0 != number,
            decreases self.store.len() - i,
        {
            if self.store[i].0 == number {
                proof {
                    lemma_first_with_found(self@, number, i as int);
                }
                return Some(&self.store[i].1);
            }
            i += 1;
        }
        proof {
            lemma_first_with_absent(self@, number);
        }
        None
    }

    /// Gives the buffer with the given number a new text. Without such a
    /// buffer nothing changes.
    pub fn replace(&mut self, number: u32, buf: String)
        ensures
            final(self)@ == match first_with(old(self)@, number) {
                Some(at) => old(self)@.update(at, (number, buf@)),
                None => old(self)@,
            },
            final(self).next_number() == old(self).next_number(),
            old(self).wf() ==> final(self).wf(),
    {
        let mut i: usize = 0;
        while i < self.store.len()
            invariant
                i <= self.store.len(),
                *self == *old(self),
                forall|j: int| 0 <= j < i ==> self@[j].0 != number,
            decreases self.store.len() - i,
        {
            if self.store[i].0 == number {
                proof {
                    lemma_first_with_found(self@, number, i as int);
                }
                self.store[i] = (number, buf);
                assert(self@ == old(self)@.update(i as int, (number, buf@)));
                return ;
            }
            i += 1;
        }
        proof {
            lemma_first_with_absent(self@, number);
        }
    }

    /// Removes the buffer with the given number. Its number is not given again.
    pub fn delete(&mut self, number: u32)
        ensures
            final(self)@ == match first_with(old(self)@, number) {
                Some(at) => old(self)@.remove(at),
                None => old(self)@,
            },
            final(self).next_number() == old(self).next_number(),
            old(self).wf() ==> final(self).wf() && first_with(final(self)@, number).is_none(),
    {
        let mut i: usize = 0;
        while i < self.store.len()
            invariant
                i <= self.store.len(),
                *self == *old(self),
                forall|j: int| 0 <= j < i ==> self@[j].0 != number,
            decreases self.store.len() - i,
        {
            if self.store[i].0 == number {
                proof {
                    lemma_first_with_found(self@, number, i as int);
                }
                self.store.remove(i);
                assert(self@ == old(self)@.remove(i as int));
                proof {
                    if old(self).wf() {
                        assert forall|j: int| 0 <= j < self@.len() implies self@[j].0
                            != number by {
                            if j < i {
                                assert(self@[j] == old(self)@[j]);
                            } else {
                                assert(self@[j] == old(self)@[j + 1]);
                                assert(old(self)@[i as int].0 < old(self)@[j + 1].0);
                            }
                        }
                        lemma_first_with_absent(self@, number);
                    }
                }
                return ;
            }
            i += 1;
        }
        proof {
            lemma_first_with_absent(self@, number);
        }
    }
}

/// The view of a list of numbered texts.
pub open spec fn texts_view(entries: Seq<(u32, String)>) -> Seq<(u32, Seq<char>)> {
    Seq::new(entries.len(), |i: int| (entries[i].0, entries[i].1@))
}

/// The first line of a text; empty for a text without lines.
pub open spec fn first_line_of(text: Seq<char>) -> Seq<char> {
    if lines_of(text).len() > 0 {
        lines_of(text).first()
    } else {
        Seq::empty()
    }
}

/// The row that lists one buffer: a line break, the number in a column of
/// eight, the first line of the text and an ellipsis.
pub open spec fn listing_row(entry: (u32, Seq<char>)) -> Seq<char> {
    seq!['\n'] + pad_right(decimal_digits(entry.0 as nat), 8) + first_line_of(entry.1) + " ..."@
}

/// The rows that list the buffers, one after the other.
pub open spec fn listing_rows(entries: Seq<(u32, Seq<char>)>) -> Seq<char>
    decreases entries.len(),
{
    if entries.len() == 0 {
        Seq::empty()
    } else {
        listing_rows(entries.drop_last()) + listing_row(entries.last())
    }
}

/// The text that lists the buffers: a heading and one row for each, or a
/// note that there are none.
pub open spec fn listing_of(entries: Seq<(u32, Seq<char>)>) -> Seq<char> {
    if entries.len() == 0 {
        "no buffers available"@
    } else {
        "number  content"@ + listing_rows(entries)
    }
}

impl ScriptBuffers {
    /// The buffers as they are kept.
    pub closed spec fn stored(&self) -> Seq<(u32, String)> {
        self.store@
    }

    /// The view is the view of what is kept.
    pub proof fn lemma_view_of_stored(&self)
        ensures
            self@ == texts_view(self.stored()),
    {
    }

    /// The buffers, in the order in which they were added.
    pub fn entries(&self) -> (r: &Vec<(u32, String)>)
        ensures
            r@ == self.stored(),
            texts_view(r@) == self@,
    {
        &self.store
    }

    /// The number that the next added buffer gets.
    pub fn counter(&self) -> (r: u32)
        ensures
            r == self.next_number(),
    {
        self.counter
    }

    /// What a list of numbered texts with a next number gives as buffers:
    /// nothing unless the numbering is sound.
    pub open spec fn restored(entries: Seq<(u32, String)>, next: u32) -> Option<
        (Seq<(u32, Seq<char>)>, u32),
    > {
        if well_numbered(texts_view(entries), next) {
            Some((texts_view(entries), next))
        } else {
            None
        }
    }

    /// Makes buffers of a list of numbered texts and a next number, as
    /// `entries` and `counter` hand them out.
    pub fn restore(entries: Vec<(u32, String)>, next: u32) -> (r: Option<Self>)
        ensures
            match Self::restored(entries@, next) {
                Some((view, number)) => {
                    &&& r.is_some()
                    &&& r.unwrap()@ == view
                    &&& r.unwrap().next_number() == number
                    &&& r.unwrap().wf()
                },
                None => r.is_none(),
            },
    {
        let made = ScriptBuffers { store: entries, counter: next };
        if made.is_sound() {
            Some(made)
        } else {
            None
        }
    }

    /// Whether the invariant holds. It does for all buffers that this module
    /// hands out.
    pub fn is_sound(&self) -> (r: bool)
        ensures
            r == self.wf(),
    {
        let ghost view = self@;
        let numbered = check_numbering(&self.store, self.counter);
        proof {
            if numbered {
                assert forall|a: int, b: int| 0 <= a < b < view.len() implies view[a].0
                    < view[b].0 by {
                    assert(self.store@[a].0 < self.store@[b].0);
                }
                assert forall|a: int| 0 <= a < view.len() implies 1 <= (#[trigger] view[a]).0
                    < self.counter by {
                    assert(1 <= self.store@[a].0 < self.counter);
                }
            } else {
                if self.wf() {
                    assert forall|a: int, b: int|
                        0 <= a < b < self.store@.len() implies self.store@[a].0
                        < self.store@[b].0 by {
                        assert(view[a].0 < view[b].0);
                    }
                    assert forall|a: int| 0 <= a < self.store@.len() implies 1 <= (
                    #[trigger] self.store@[a]).0 < self.counter by {
                        assert(1 <= view[a].0 < self.counter);
                    }
                }
            }
        }
        numbered
    }

    /// The buffers and the next number, taken apart.
    pub fn into_parts(self) -> (r: (Vec<(u32, String)>, u32))
        ensures
            r.0@ == self.stored(),
            texts_view(r.0@) == self@,
            r.1 == self.next_number(),
    {
        (self.store, self.counter)
    }

    /// A copy of these buffers.
    pub fn copy(&self) -> (r: Self)
        ensures
            r@ == self@,
            r.next_number() == self.next_number(),
            self.wf() ==> r.wf(),
    {
        let mut store: Vec<(u32, String)> = Vec::new();
        let mut i: usize = 0;
        while i < self.store.len()
            invariant
                i <= self.store.len(),
                texts_view(store@) == self@.take(i as int),
            decreases self.store.len() - i,
        {
            let entry = &self.store[i];
            let ghost before = texts_view(store@);
            store.push((entry.0, entry.1.clone()));
            assert(texts_view(store@) == before.push(self@[i as int]));
            assert(self@.take(i + 1) == self@.take(i as int).push(self@[i as int]));
            i += 1;
        }
        assert(self@.take(self.store.len() as int) == self@);
        ScriptBuffers { store, counter: self.counter }
    }

    /// The text that lists the buffers.
    pub fn to_string(&self) -> (r: String)
        ensures
            r@ == listing_of(self@),
    {
        let mut out: Vec<char> = Vec::new();
        if self.store.len() == 0 {
            push_str(&mut out, "no buffers available");
            return from_chars(&out);
        }
        push_str(&mut out, "number  content");
        let mut i: usize = 0;
        assert(listing_rows(self@.take(0)) == Seq::<char>::empty());
        while i < self.store.len()
            invariant
                i <= self.store.len(),
                out@ == "number  content"@ + listing_rows(self@.take(i as int)),
            decreases self.store.len() - i,
        {
            let ghost before = out@;
            let ghost entry = self@[i as int];
            out.push('\n');
            let from = out.len();
            push_decimal(&mut out, self.store[i].0 as u64);
            pad_to(&mut out, from, 8);
            proof {
                let after_break = before.push('\n');
                let numbered = after_break + decimal_digits(entry.0 as nat);
                assert(numbered.take(from as int) == after_break);
                assert(numbered.skip(from as int) == decimal_digits(entry.0 as nat));
            }
            let text_lines = lines(&to_chars(self.store[i].1.as_str()));
            if text_lines.len() > 0 {
                let mut first = crate::text::copy_range(&text_lines[0], 0, text_lines[0].len());
                assert(first@ == rows(text_lines@)[0]);
                out.append(&mut first);
            }
            push_str(&mut out, " ...");
            proof {
                let next = self@.take(i + 1);
                assert(next.drop_last() == self@.take(i as int));
                assert(next.last() == entry);
                assert(out@ == before + listing_row(entry));
            }
            i += 1;
        }
        assert(self@.take(self.store.len() as int) == self@);
        from_chars(&out)
    }
}

/// Handing the buffers out and making buffers of what was handed out gives
/// the same buffers, in the same order and under the same numbers.
pub proof fn lemma_buffers_round_trip(buffers: ScriptBuffers)
    requires
        buffers.wf(),
    ensures
        ScriptBuffers::restored(buffers.stored(), buffers.next_number()) == Some(
            (buffers@, buffers.next_number()),
        ),
{
    buffers.lemma_view_of_stored();
}

} // verus!
