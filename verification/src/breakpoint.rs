//! Breakpoints: the records, the text form in which a user writes one, and
//! the store that numbers them.

use crate::dbg::EventWithSrc;
use crate::lookup::{
    check_numbering, first_with, lemma_first_with_absent, lemma_first_with_found, well_numbered,
};
use crate::sq::{DebugEvent, SqInteger};
use crate::text::{
    all_digits, char_is_numeric, chars_are, decimal_digits, decimal_value, free_of, from_chars,
    is_ascii, is_digit, is_numeric, lemma_numeral_reads_back, lemma_pieces_are_free, lemma_split_on_free,
    lemma_split_on_joined, lemma_split_on_nonempty, parse_i32, push_decimal, push_signed,
    push_str, rows, signed_digits, split, split_on, to_chars,
};
use vstd::prelude::*;

verus! {

/// A place to stop at: a source file, a function, a line, or any of them
/// together. A part that is not set matches everything.
#[derive(Clone, PartialEq, Eq, PartialOrd, Ord, Debug, Hash)]
pub struct SqBreakpoint {
    pub src_file: Option<String>,
    pub fn_name: Option<String>,
    pub line: Option<SqInteger>,
}

/// A breakpoint with its texts as sequences.
pub struct BreakpointModel {
    pub src_file: Option<Seq<char>>,
    pub fn_name: Option<Seq<char>>,
    pub line: Option<SqInteger>,
}

/// The text of an optional string.
pub open spec fn text_of(s: Option<String>) -> Option<Seq<char>> {
    match s {
        Some(s) => Some(s@),
        None => None,
    }
}

impl View for SqBreakpoint {
    type V = BreakpointModel;

    open spec fn view(&self) -> BreakpointModel {
        BreakpointModel {
            src_file: text_of(self.src_file),
            fn_name: text_of(self.fn_name),
            line: self.line,
        }
    }
}

impl BreakpointModel {
    /// Whether at least one part is set.
    pub open spec fn is_set(self) -> bool {
        self.src_file.is_some() || self.fn_name.is_some() || self.line.is_some()
    }
}

/// The function that a debug event names, if it names one.
pub open spec fn event_function(event: DebugEvent) -> Option<Seq<char>> {
    match event {
        DebugEvent::Line(_) => None,
        DebugEvent::FnCall(name, _) => Some(name@),
        DebugEvent::FnRet(name, _) => Some(name@),
    }
}

/// The line that a debug event names, if it names one.
pub open spec fn event_line(event: DebugEvent) -> Option<SqInteger> {
    match event {
        DebugEvent::Line(line) => Some(line),
        DebugEvent::FnCall(_, line) => line,
        DebugEvent::FnRet(_, line) => line,
    }
}

/// Whether a breakpoint matches an event: every part that is set must be
/// what the event names.
pub open spec fn matches_event(bp: BreakpointModel, event: EventWithSrc) -> bool {
    &&& bp.src_file.is_some() ==> text_of(event.src) == bp.src_file
    &&& bp.fn_name.is_some() ==> event_function(event.event) == bp.fn_name
    &&& bp.line.is_some() ==> event_line(event.event) == bp.line
}

impl SqBreakpoint {
    /// A breakpoint with no part set.
    pub fn new() -> (r: SqBreakpoint)
        ensures
            r@ == (BreakpointModel { src_file: None, fn_name: None, line: None }),
    {
        SqBreakpoint { src_file: None, fn_name: None, line: None }
    }

    /// The same breakpoint, bound to a source file.
    pub fn src_file(self, src: String) -> (r: SqBreakpoint)
        ensures
            r@ == (BreakpointModel { src_file: Some(src@), ..self@ }),
    {
        SqBreakpoint { src_file: Some(src), fn_name: self.fn_name, line: self.line }
    }

    /// The same breakpoint, bound to a function.
    pub fn fn_name(self, name: String) -> (r: SqBreakpoint)
        ensures
            r@ == (BreakpointModel { fn_name: Some(name@), ..self@ }),
    {
        SqBreakpoint { src_file: self.src_file, fn_name: Some(name), line: self.line }
    }

    /// The same breakpoint, bound to a line.
    pub fn line(self, line: SqInteger) -> (r: SqBreakpoint)
        ensures
            r@ == (BreakpointModel { line: Some(line), ..self@ }),
    {
        SqBreakpoint { src_file: self.src_file, fn_name: self.fn_name, line: Some(line) }
    }

    /// Whether at least one part is set.
    pub fn is_set(&self) -> (r: bool)
        ensures
            r == self@.is_set(),
    {
        self.src_file.is_some() || self.fn_name.is_some() || self.line.is_some()
    }

    /// Whether this breakpoint matches an event.
    pub fn matches(&self, event: &EventWithSrc) -> (r: bool)
        ensures
            r == matches_event(self@, *event),
    {
        let src_ok = match (&self.src_file, &event.src) {
            (Some(want), Some(have)) => *want == *have,
            (Some(_), None) => false,
            (None, _) => true,
        };
        let name: Option<&String> = match &event.event {
            DebugEvent::Line(_) => None,
            DebugEvent::FnCall(name, _) => Some(name),
            DebugEvent::FnRet(name, _) => Some(name),
        };
        let fn_ok = match (&self.fn_name, name) {
            (Some(want), Some(have)) => *want == *have,
            (Some(_), None) => false,
            (None, _) => true,
        };
        let line: Option<SqInteger> = match &event.event {
            DebugEvent::Line(line) => Some(*line),
            DebugEvent::FnCall(_, line) => *line,
            DebugEvent::FnRet(_, line) => *line,
        };
        let line_ok = match (self.line, line) {
            (Some(want), Some(have)) => want == have,
            (Some(_), None) => false,
            (None, _) => true,
        };
        src_ok && fn_ok && line_ok
    }
}

/// The line that a token writes: the token must be made of ASCII digits, at
/// least one, and write a number that a line can hold.
pub open spec fn line_of(token: Seq<char>) -> Option<SqInteger> {
    if token.len() > 0 && all_digits(token) && decimal_value(token) <= i32::MAX {
        Some(decimal_value(token) as i32)
    } else {
        None
    }
}

/// Whether a token can name a function, given whether its first character
/// is numeric: it must not be empty and not start with a numeric character.
pub open spec fn names_function_given(token: Seq<char>, first_numeric: bool) -> bool {
    token.len() > 0 && !first_numeric
}

/// What the tokens after the optional file part say, given whether the
/// first character of the first of them is numeric: nothing, a line, a
/// function, or a function and a line. Anything else is malformed.
pub open spec fn place_given(
    src_file: Option<Seq<char>>,
    tokens: Seq<Seq<char>>,
    first_numeric: bool,
) -> Option<BreakpointModel> {
    if tokens.len() == 0 {
        Some(BreakpointModel { src_file, fn_name: None, line: None })
    } else if tokens.len() == 1 {
        if line_of(tokens[0]).is_some() {
            Some(BreakpointModel { src_file, fn_name: None, line: line_of(tokens[0]) })
        } else if names_function_given(tokens[0], first_numeric) {
            Some(BreakpointModel { src_file, fn_name: Some(tokens[0]), line: None })
        } else {
            None
        }
    } else if tokens.len() == 2 {
        if names_function_given(tokens[0], first_numeric) && line_of(tokens[1]).is_some() {
            Some(BreakpointModel { src_file, fn_name: Some(tokens[0]), line: line_of(tokens[1]) })
        } else {
            None
        }
    } else {
        None
    }
}

/// What the tokens after the optional file part say.
pub open spec fn place_of(src_file: Option<Seq<char>>, tokens: Seq<Seq<char>>) -> Option<
    BreakpointModel,
> {
    place_given(
        src_file,
        tokens,
        tokens.len() > 0 && tokens[0].len() > 0 && char_is_numeric(tokens[0].first()),
    )
}

/// Whether the tokens begin with a file part: the word `file` and a token
/// after it.
pub open spec fn has_file_part(tokens: Seq<Seq<char>>) -> bool {
    tokens.len() >= 2 && tokens[0] == "file"@
}

/// What the tokens of a specification say, given whether the first
/// character of the first token after the file part is numeric.
pub open spec fn breakpoint_given(tokens: Seq<Seq<char>>, first_numeric: bool) -> Option<
    BreakpointModel,
> {
    if has_file_part(tokens) {
        place_given(Some(tokens[1]), tokens.skip(2), first_numeric)
    } else {
        place_given(None, tokens, first_numeric)
    }
}

/// The breakpoint that a specification writes, in the form
/// `[file:<src>]:[function]:[line]`. The text is cut at its colons; where the
/// first token is `file` and another follows, that one is the source file.
pub open spec fn breakpoint_of(spec: Seq<char>) -> Option<BreakpointModel> {
    let tokens = split_on(spec, ':');
    if has_file_part(tokens) {
        place_of(Some(tokens[1]), tokens.skip(2))
    } else {
        place_of(None, tokens)
    }
}

/// Reads a token as a line.
fn read_line(token: &Vec<char>) -> (r: Option<SqInteger>)
    ensures
        r == line_of(token@),
{
    if token.len() == 0 {
        return None;
    }
    let first = token[0];
    if first == '+' || first == '-' {
        assert(!is_digit(token@[0]));
        return None;
    }
    assert(token@.skip(0) == token@);
    parse_i32(token)
}

/// How many tokens the file part takes: two where there is one, else none.
pub fn file_part_len(tokens: &Vec<Vec<char>>) -> (n: usize)
    ensures
        n == (if has_file_part(rows(tokens@)) {
            2int
        } else {
            0int
        }),
        n <= tokens.len(),
{
    if tokens.len() >= 2 && chars_are(&tokens[0], "file") {
        assert(rows(tokens@)[0] == tokens@[0]@);
        2
    } else {
        if tokens.len() >= 2 {
            assert(rows(tokens@)[0] == tokens@[0]@);
        }
        0
    }
}

/// Makes the breakpoint that the tokens of a specification say. Whether the
/// first character of the first token after the file part is numeric is
/// given; a malformed specification gives `None`.
pub fn breakpoint_from(tokens: &Vec<Vec<char>>, first_numeric: bool) -> (r: Option<SqBreakpoint>)
    ensures
        match breakpoint_given(rows(tokens@), first_numeric) {
            Some(bp) => r.is_some() && r.unwrap()@ == bp,
            None => r.is_none(),
        },
{
    let ghost texts = rows(tokens@);
    let start = file_part_len(tokens);
    let src: Option<String> = if start == 2 {
        assert(texts[1] == tokens@[1]@);
        Some(from_chars(&tokens[1]))
    } else {
        None
    };
    let ghost rest = texts.skip(start as int);
    let count = tokens.len() - start;
    proof {
        assert(rest.len() == count);
        if count >= 1 {
            assert(rest[0] == tokens@[start as int]@);
        }
        if count >= 2 {
            assert(rest[1] == tokens@[start + 1]@);
        }
        if start == 0 {
            assert(rest == texts);
        }
    }
    let bp = SqBreakpoint { src_file: src, fn_name: None, line: None };
    if count == 0 {
        Some(bp)
    } else if count == 1 {
        let token = &tokens[start];
        match read_line(token) {
            Some(line) => Some(bp.line(line)),
            None => if token.len() > 0 && !first_numeric {
                Some(bp.fn_name(from_chars(token)))
            } else {
                None
            },
        }
    } else if count == 2 {
        let name = &tokens[start];
        match read_line(&tokens[start + 1]) {
            Some(line) => if name.len() > 0 && !first_numeric {
                Some(bp.fn_name(from_chars(name)).line(line))
            } else {
                None
            },
            None => None,
        }
    } else {
        None
    }
}

/// The character that decides whether a token names a function: the first
/// character of the first token after the file part, where there is one.
pub open spec fn deciding_char(tokens: Seq<Seq<char>>) -> Option<char> {
    let rest = if has_file_part(tokens) {
        tokens.skip(2)
    } else {
        tokens
    };
    if rest.len() > 0 && rest[0].len() > 0 {
        Some(rest[0].first())
    } else {
        None
    }
}

/// The breakpoint that a specification writes whose deciding character is an
/// ASCII character, or which has none: there a numeric character is a digit.
pub open spec fn plain_breakpoint_of(spec: Seq<char>) -> Option<BreakpointModel> {
    let tokens = split_on(spec, ':');
    breakpoint_given(
        tokens,
        match deciding_char(tokens) {
            Some(c) => is_digit(c),
            None => false,
        },
    )
}

/// Whether the deciding character of a specification is an ASCII character,
/// or there is none.
pub open spec fn plainly_decided(spec: Seq<char>) -> bool {
    match deciding_char(split_on(spec, ':')) {
        Some(c) => is_ascii(c),
        None => true,
    }
}

/// Parses a breakpoint specification. A malformed one gives `None`.
pub fn parse_breakpoint(spec: &str) -> (r: Option<SqBreakpoint>)
    ensures
        match breakpoint_of(spec@) {
            Some(bp) => r.is_some() && r.unwrap()@ == bp,
            None => r.is_none(),
        },
        r.is_some() ==> r.unwrap()@.is_set(),
        plainly_decided(spec@) ==> match plain_breakpoint_of(spec@) {
            Some(bp) => r.is_some() && r.unwrap()@ == bp,
            None => r.is_none(),
        },
{
    let tokens = split(&to_chars(spec), ':');
    let ghost texts = split_on(spec@, ':');
    let start = file_part_len(&tokens);
    let first_numeric = tokens.len() > start && tokens[start].len() > 0 && is_numeric(
        tokens[start][0],
    );
    proof {
        let rest = texts.skip(start as int);
        if tokens.len() > start {
            assert(rest[0] == tokens@[start as int]@);
        }
        if start == 0 {
            assert(rest == texts);
        }
    }
    breakpoint_from(&tokens, first_numeric)
}

impl SqBreakpoint {
    /// A copy of this breakpoint.
    pub fn copy(&self) -> (r: SqBreakpoint)
        ensures
            r@ == self@,
    {
        let src_file = match &self.src_file {
            Some(s) => Some(s.clone()),
            None => None,
        };
        let fn_name = match &self.fn_name {
            Some(s) => Some(s.clone()),
            None => None,
        };
        SqBreakpoint { src_file, fn_name, line: self.line }
    }
}

/// A breakpoint as the store keeps it: the record and whether it is enabled.
#[derive(Clone, PartialEq, Eq, Debug)]
pub struct StoredBreakpoint {
    pub enabled: bool,
    pub bp: SqBreakpoint,
}

/// The view of a list of stored breakpoints: number, enabled flag and record.
pub open spec fn stored_view(entries: Seq<(u32, StoredBreakpoint)>) -> Seq<
    (u32, (bool, BreakpointModel)),
> {
    Seq::new(entries.len(), |i: int| (entries[i].0, (entries[i].1.enabled, entries[i].1.bp@)))
}

/// Whether every breakpoint of a list has at least one part set.
pub open spec fn all_set(entries: Seq<(u32, (bool, BreakpointModel))>) -> bool {
    forall|i: int| 0 <= i < entries.len() ==> (#[trigger] entries[i]).1.1.is_set()
}

/// A list in which the breakpoints that `which` selects (all of them for
/// `None`) have their flag set to `enabled`.
pub open spec fn with_enabled(
    entries: Seq<(u32, (bool, BreakpointModel))>,
    which: Option<u32>,
    enabled: bool,
) -> Seq<(u32, (bool, BreakpointModel))> {
    Seq::new(
        entries.len(),
        |i: int|
            if which.is_none() || which == Some(entries[i].0) {
                (entries[i].0, (enabled, entries[i].1.1))
            } else {
                entries[i]
            },
    )
}

/// A list without the breakpoint that `which` selects, or without any for `None`.
pub open spec fn without(entries: Seq<(u32, (bool, BreakpointModel))>, which: Option<u32>) -> Seq<
    (u32, (bool, BreakpointModel)),
> {
    match which {
        None => Seq::empty(),
        Some(number) => match first_with(entries, number) {
            Some(at) => entries.remove(at),
            None => entries,
        },
    }
}

/// The number of the first enabled breakpoint that matches an event.
pub open spec fn first_hit(entries: Seq<(u32, (bool, BreakpointModel))>, event: EventWithSrc) -> Option<
    u32,
>
    decreases entries.len(),
{
    if entries.len() == 0 {
        None
    } else if entries.first().1.0 && matches_event(entries.first().1.1, event) {
        Some(entries.first().0)
    } else {
        first_hit(entries.drop_first(), event)
    }
}

/// The breakpoints of a session, each under the number it got when it was
/// added. Numbers start at one, grow with every addition and are never given
/// twice; every breakpoint has at least one part set.
#[derive(Debug)]
pub struct BreakpointStore {
    store: Vec<(u32, StoredBreakpoint)>,
    counter: u32,
}

impl View for BreakpointStore {
    type V = Seq<(u32, (bool, BreakpointModel))>;

    closed spec fn view(&self) -> Seq<(u32, (bool, BreakpointModel))> {
        stored_view(self.store@)
    }
}

impl BreakpointStore {
    /// The number that the next added breakpoint gets.
    pub closed spec fn next_number(&self) -> u32 {
        self.counter
    }

    /// The breakpoints as they are kept.
    pub closed spec fn stored(&self) -> Seq<(u32, StoredBreakpoint)> {
        self.store@
    }

    /// The invariant of the store.
    pub open spec fn wf(&self) -> bool {
        &&& well_numbered(self@, self.next_number())
        &&& all_set(self@)
        &&& self@ == stored_view(self.stored())
    }

    /// An empty store; the first breakpoint added gets the number one.
    pub fn new() -> (r: Self)
        ensures
            r@ == Seq::<(u32, (bool, BreakpointModel))>::empty(),
            r.next_number() == 1,
            r.wf(),
    {
        BreakpointStore { store: Vec::new(), counter: 1 }
    }

    /// How many breakpoints there are.
    pub fn len(&self) -> (r: usize)
        ensures
            r == self@.len(),
    {
        self.store.len()
    }

    /// The breakpoints, in the order in which they were added.
    pub fn entries(&self) -> (r: &Vec<(u32, StoredBreakpoint)>)
        ensures
            r@ == self.stored(),
            stored_view(r@) == self@,
    {
        &self.store
    }

    /// The number that the next added breakpoint gets.
    pub fn counter(&self) -> (r: u32)
        ensures
            r == self.next_number(),
    {
        self.counter
    }

    /// Adds a breakpoint, enabled, and returns its number. A breakpoint with
    /// no part set is not added, and none is once all numbers are given out.
    pub fn add(&mut self, bp: SqBreakpoint) -> (r: Option<u32>)
        requires
            old(self).wf(),
        ensures
            final(self).wf(),
            r.is_some() <==> bp@.is_set() && old(self).next_number() < u32::MAX,
            match r {
                Some(number) => {
                    &&& number == old(self).next_number()
                    &&& final(self)@ == old(self)@.push((number, (true, bp@)))
                    &&& final(self).next_number() == number + 1
                },
                None => *final(self) == *old(self),
            },
    {
        if !bp.is_set() || self.counter == u32::MAX {
            return None;
        }
        let number = self.counter;
        self.store.push((number, StoredBreakpoint { enabled: true, bp }));
        self.counter = number + 1;
        assert(self@ == old(self)@.push((number, (true, bp@))));
        Some(number)
    }

    /// Enables or disables the breakpoint with the given number, or all of
    /// them where no number is given.
    pub fn enable(&mut self, which: Option<u32>, enabled: bool)
        requires
            old(self).wf(),
        ensures
            final(self).wf(),
            final(self)@ == with_enabled(old(self)@, which, enabled),
            final(self).next_number() == old(self).next_number(),
    {
        let mut i: usize = 0;
        while i < self.store.len()
            invariant
                i <= self.store.len(),
                self.store.len() == old(self).store.len(),
                self.counter == old(self).counter,
                forall|k: int|
                    0 <= k < i ==> (#[trigger] self@[k]) == with_enabled(
                        old(self)@,
                        which,
                        enabled,
                    )[k],
                forall|k: int| i <= k < self.store.len() ==> (#[trigger] self@[k]) == old(self)@[k],
            decreases self.store.len() - i,
        {
            let number = self.store[i].0;
            let selected = match which {
                None => true,
                Some(n) => n == number,
            };
            let ghost before = self@;
            let ghost wanted = with_enabled(old(self)@, which, enabled);
            assert(before[i as int] == old(self)@[i as int]);
            if selected {
                let bp = self.store[i].1.bp.copy();
                self.store[i] = (number, StoredBreakpoint { enabled, bp });
                assert forall|k: int| 0 <= k < self.store.len() && k != i implies (
                #[trigger] self@[k]) == before[k] by {}
                assert(self@[i as int] == (number, (enabled, before[i as int].1.1)));
            }
            assert(self@[i as int] == wanted[i as int]);
            i += 1;
        }
        assert(self@ == with_enabled(old(self)@, which, enabled));
        proof {
            let new = self@;
            let was = old(self)@;
            assert forall|a: int, b: int| 0 <= a < b < new.len() implies new[a].0 < new[b].0 by {
                assert(new[a].0 == was[a].0);
                assert(new[b].0 == was[b].0);
            }
            assert forall|a: int| 0 <= a < new.len() implies 1 <= (#[trigger] new[a]).0
                < self.next_number() && new[a].1.1.is_set() by {
                assert(new[a].0 == was[a].0);
                assert(new[a].1.1 == was[a].1.1);
            }
        }
    }

    /// Removes the breakpoint with the given number, or all of them where no
    /// number is given. Numbers are not given again.
    pub fn remove(&mut self, which: Option<u32>)
        requires
            old(self).wf(),
        ensures
            final(self).wf(),
            final(self)@ == without(old(self)@, which),
            final(self).next_number() == old(self).next_number(),
    {
        match which {
            None => {
                self.store.clear();
                assert(self@ == Seq::<(u32, (bool, BreakpointModel))>::empty());
            },
            Some(number) => {
                let mut i: usize = 0;
                while i < self.store.len()
                    invariant
                        i <= self.store.len(),
                        *self == *old(self),
                        old(self).wf(),
                        which == Some(number),
                        forall|j: int| 0 <= j < i ==> self@[j].0 != number,
                    decreases self.store.len() - i,
                {
                    if self.store[i].0 == number {
                        proof {
                            lemma_first_with_found(old(self)@, number, i as int);
                        }
                        assert(first_with(old(self)@, number) == Some(i as int));
                        self.store.remove(i);
                        assert(self@ == old(self)@.remove(i as int));
                        assert(self@ == without(old(self)@, which));
                        proof {
                            let new = self@;
                            let was = old(self)@;
                            assert forall|a: int| 0 <= a < new.len() implies new[a] == was[if a
                                < i {
                                a
                            } else {
                                a + 1
                            }] by {}
                            assert forall|a: int, b: int| 0 <= a < b < new.len() implies new[a].0
                                < new[b].0 by {
                                let a0 = if a < i { a } else { a + 1 };
                                let b0 = if b < i { b } else { b + 1 };
                                assert(was[a0].0 < was[b0].0);
                            }
                            assert forall|a: int| 0 <= a < new.len() implies 1 <= (
                            #[trigger] new[a]).0 < self.next_number()
                                && new[a].1.1.is_set() by {
                                let a0 = if a < i { a } else { a + 1 };
                                assert(1 <= was[a0].0 < self.next_number());
                                assert(was[a0].1.1.is_set());
                            }
                        }
                        return ;
                    }
                    i += 1;
                }
                proof {
                    lemma_first_with_absent(self@, number);
                }
            },
        }
    }

    /// The number of the first enabled breakpoint that matches an event.
    pub fn hit(&self, event: &EventWithSrc) -> (r: Option<u32>)
        ensures
            r == first_hit(self@, *event),
    {
        let mut i: usize = 0;
        assert(self@.skip(0) == self@);
        while i < self.store.len()
            invariant
                i <= self.store.len(),
                first_hit(self@, *event) == first_hit(self@.skip(i as int), *event),
            decreases self.store.len() - i,
        {
            let ghost rest = self@.skip(i as int);
            assert(rest.first() == self@[i as int]);
            assert(rest.drop_first() == self@.skip(i + 1));
            if self.store[i].1.enabled && self.store[i].1.bp.matches(event) {
                return Some(self.store[i].0);
            }
            i += 1;
        }
        None
    }

    /// What a list of stored breakpoints with a next number gives as a store:
    /// nothing unless the numbering is sound and every breakpoint has a part set.
    pub open spec fn restored(entries: Seq<(u32, StoredBreakpoint)>, next: u32) -> Option<
        (Seq<(u32, (bool, BreakpointModel))>, u32),
    > {
        if well_numbered(stored_view(entries), next) && all_set(stored_view(entries)) {
            Some((stored_view(entries), next))
        } else {
            None
        }
    }

    /// Makes a store of a list of stored breakpoints and a next number, as
    /// `entries` and `counter` hand them out.
    pub fn restore(entries: Vec<(u32, StoredBreakpoint)>, next: u32) -> (r: Option<Self>)
        ensures
            match Self::restored(entries@, next) {
                Some((view, number)) => {
                    &&& r.is_some()
                    &&& r.unwrap()@ == view
                    &&& r.unwrap().next_number() == number
                    &&& r.unwrap().wf()
                },
                None => r.is_none(),
            },
    {
        let made = BreakpointStore { store: entries, counter: next };
        if made.is_sound() {
            Some(made)
        } else {
            None
        }
    }

    /// Whether the invariant holds. It does for every store that this module
    /// hands out.
    pub fn is_sound(&self) -> (r: bool)
        ensures
            r == self.wf(),
    {
        let ghost view = self@;
        let numbered = check_numbering(&self.store, self.counter);
        proof {
            if numbered {
                assert forall|a: int, b: int| 0 <= a < b < view.len() implies view[a].0
                    < view[b].0 by {
                    assert(self.store@[a].0 < self.store@[b].0);
                }
                assert forall|a: int| 0 <= a < view.len() implies 1 <= (#[trigger] view[a]).0
                    < self.counter by {
                    assert(1 <= self.store@[a].0 < self.counter);
                }
            } else {
                if well_numbered(view, self.counter) {
                    assert forall|a: int, b: int|
                        0 <= a < b < self.store@.len() implies self.store@[a].0
                        < self.store@[b].0 by {
                        assert(view[a].0 < view[b].0);
                    }
                    assert forall|a: int| 0 <= a < self.store@.len() implies 1 <= (
                    #[trigger] self.store@[a]).0 < self.counter by {
                        assert(1 <= view[a].0 < self.counter);
                    }
                }
            }
        }
        if !numbered {
            return false;
        }
        let mut i: usize = 0;
        while i < self.store.len()
            invariant
                i <= self.store.len(),
                view == self@,
                forall|k: int| 0 <= k < i ==> (#[trigger] view[k]).1.1.is_set(),
            decreases self.store.len() - i,
        {
            if !self.store[i].1.bp.is_set() {
                assert(!view[i as int].1.1.is_set());
                return false;
            }
            i += 1;
        }
        true
    }

    /// The breakpoints and the next number, taken apart.
    pub fn into_parts(self) -> (r: (Vec<(u32, StoredBreakpoint)>, u32))
        ensures
            r.0@ == self.stored(),
            stored_view(r.0@) == self@,
            r.1 == self.next_number(),
    {
        (self.store, self.counter)
    }

    /// A copy of this store.
    pub fn copy(&self) -> (r: Self)
        ensures
            r@ == self@,
            r.next_number() == self.next_number(),
            self.wf() ==> r.wf(),
    {
        let mut store: Vec<(u32, StoredBreakpoint)> = Vec::new();
        let mut i: usize = 0;
        while i < self.store.len()
            invariant
                i <= self.store.len(),
                stored_view(store@) == self@.take(i as int),
            decreases self.store.len() - i,
        {
            let entry = &self.store[i];
            let ghost before = stored_view(store@);
            store.push(
                (entry.0, StoredBreakpoint { enabled: entry.1.enabled, bp: entry.1.bp.copy() }),
            );
            assert(stored_view(store@) == before.push(self@[i as int]));
            assert(self@.take(i + 1) == self@.take(i as int).push(self@[i as int]));
            i += 1;
        }
        assert(self@.take(self.store.len() as int) == self@);
        BreakpointStore { store, counter: self.counter }
    }
}

/// Two optional parts of a specification, with a colon between them where
/// both are there.
pub open spec fn with_part(so_far: Option<Seq<char>>, part: Option<Seq<char>>) -> Option<Seq<char>> {
    match (so_far, part) {
        (Some(a), Some(b)) => Some(a + seq![':'] + b),
        (Some(a), None) => Some(a),
        (None, p) => p,
    }
}

/// The source file as a specification writes it: after the word `file`.
pub open spec fn file_part(src_file: Option<Seq<char>>) -> Option<Seq<char>> {
    match src_file {
        Some(src) => Some("file"@ + seq![':'] + src),
        None => None,
    }
}

/// The line as a specification writes it.
pub open spec fn line_part(line: Option<SqInteger>) -> Option<Seq<char>> {
    match line {
        Some(l) => Some(signed_digits(l as int)),
        None => None,
    }
}

/// The specification that writes a breakpoint: the parts that are set, in
/// the order file, function, line, with colons between them.
pub open spec fn spec_text(bp: BreakpointModel) -> Seq<char> {
    match with_part(with_part(file_part(bp.src_file), bp.fn_name), line_part(bp.line)) {
        Some(text) => text,
        None => Seq::empty(),
    }
}

/// The row that lists one breakpoint: a line break, the number, the
/// specification, and a note where the breakpoint is disabled.
pub open spec fn listing_row(entry: (u32, (bool, BreakpointModel))) -> Seq<char> {
    seq!['\n'] + decimal_digits(entry.0 as nat) + ": "@ + spec_text(entry.1.1) + (if entry.1.0 {
        Seq::empty()
    } else {
        " (disabled)"@
    })
}

/// The rows that list the breakpoints, one after the other.
pub open spec fn listing_rows(entries: Seq<(u32, (bool, BreakpointModel))>) -> Seq<char>
    decreases entries.len(),
{
    if entries.len() == 0 {
        Seq::empty()
    } else {
        listing_rows(entries.drop_last()) + listing_row(entries.last())
    }
}

/// The text that lists the breakpoints: a heading and one row for each.
pub open spec fn listing_of(entries: Seq<(u32, (bool, BreakpointModel))>) -> Seq<char> {
    "Breakpoints:"@ + listing_rows(entries)
}

impl SqBreakpoint {
    /// Appends the specification that writes this breakpoint.
    pub fn push_spec(&self, out: &mut Vec<char>)
        ensures
            final(out)@ == old(out)@ + spec_text(self@),
    {
        let ghost before = out@;
        let mut written = false;
        match &self.src_file {
            Some(src) => {
                push_str(out, "file");
                out.push(':');
                push_str(out, src.as_str());
                written = true;
            },
            None => {},
        }
        let ghost first = file_part(self@.src_file);
        assert(written == first.is_some());
        assert(out@ == before + (match first {
            Some(text) => text,
            None => Seq::empty(),
        }));
        match &self.fn_name {
            Some(name) => {
                if written {
                    out.push(':');
                }
                push_str(out, name.as_str());
                written = true;
            },
            None => {},
        }
        let ghost second = with_part(first, self@.fn_name);
        assert(written == second.is_some());
        assert(out@ == before + (match second {
            Some(text) => text,
            None => Seq::empty(),
        }));
        match self.line {
            Some(line) => {
                if written {
                    out.push(':');
                }
                push_signed(out, line);
            },
            None => {},
        }
    }

    /// The specification that writes this breakpoint.
    pub fn to_string(&self) -> (r: String)
        ensures
            r@ == spec_text(self@),
    {
        let mut out: Vec<char> = Vec::new();
        self.push_spec(&mut out);
        from_chars(&out)
    }
}

impl BreakpointStore {
    /// The text that lists the breakpoints.
    pub fn to_string(&self) -> (r: String)
        ensures
            r@ == listing_of(self@),
    {
        let mut out: Vec<char> = Vec::new();
        push_str(&mut out, "Breakpoints:");
        let mut i: usize = 0;
        assert(listing_rows(self@.take(0)) == Seq::<char>::empty());
        while i < self.store.len()
            invariant
                i <= self.store.len(),
                out@ == "Breakpoints:"@ + listing_rows(self@.take(i as int)),
            decreases self.store.len() - i,
        {
            let ghost before = out@;
            let ghost entry = self@[i as int];
            out.push('\n');
            push_decimal(&mut out, self.store[i].0 as u64);
            push_str(&mut out, ": ");
            self.store[i].1.bp.push_spec(&mut out);
            if !self.store[i].1.enabled {
                push_str(&mut out, " (disabled)");
            }
            proof {
                let next = self@.take(i + 1);
                assert(next.drop_last() == self@.take(i as int));
                assert(next.last() == entry);
                assert(out@ == before + listing_row(entry));
            }
            i += 1;
        }
        assert(self@.take(self.store.len() as int) == self@);
        from_chars(&out)
    }
}

/// What a specification says can be typed back in: the text that writes
/// the breakpoint read from a specification reads as the same breakpoint.
pub proof fn lemma_spec_text_reads_back(spec: Seq<char>)
    requires
        breakpoint_of(spec).is_some(),
    ensures
        breakpoint_of(spec_text(breakpoint_of(spec).unwrap())) == breakpoint_of(spec),
{
    let tokens = split_on(spec, ':');
    let bp = breakpoint_of(spec).unwrap();
    let text = spec_text(bp);
    lemma_split_on_nonempty(spec, ':');
    lemma_pieces_are_free(spec, ':');
    reveal_strlit("file");
    let word = "file"@;
    assert(free_of(word, ':'));
    lemma_split_on_free(word, ':');
    let has_file = tokens.len() >= 2 && tokens[0] == word;
    let rest = if has_file {
        tokens.skip(2)
    } else {
        tokens
    };
    assert(forall|i: int| 0 <= i < rest.len() ==> free_of(#[trigger] rest[i], ':')) by {
        assert forall|i: int| 0 <= i < rest.len() implies free_of(#[trigger] rest[i], ':') by {
            if has_file {
                assert(rest[i] == tokens[i + 2]);
            }
        }
    }
    let head: Seq<Seq<char>> = if has_file {
        seq![word, tokens[1]]
    } else {
        Seq::empty()
    };
    let first = file_part(bp.src_file);
    if has_file {
        assert(free_of(tokens[1], ':'));
        lemma_split_on_free(tokens[1], ':');
        lemma_split_on_joined(word, tokens[1], ':');
        assert(split_on(first.unwrap(), ':') == head);
    }
    let line = bp.line;
    if line.is_some() {
        let n = line.unwrap() as nat;
        lemma_numeral_reads_back(n);
        let digits = decimal_digits(n);
        assert(signed_digits(line.unwrap() as int) == digits);
        assert(free_of(digits, ':')) by {
            assert forall|i: int| 0 <= i < digits.len() implies #[trigger] digits[i] != ':' by {
                assert(is_digit(digits[i]));
            }
        }
        lemma_split_on_free(digits, ':');
        assert(line_of(digits) == line);
    }
    if bp.fn_name.is_some() {
        let name = bp.fn_name.unwrap();
        assert(free_of(name, ':'));
        lemma_split_on_free(name, ':');
        if has_file {
            lemma_split_on_joined(first.unwrap(), name, ':');
        }
        let second = with_part(first, bp.fn_name).unwrap();
        assert(split_on(second, ':') == head.push(name));
        if line.is_some() {
            let digits = decimal_digits(line.unwrap() as nat);
            lemma_split_on_joined(second, digits, ':');
            let read = split_on(text, ':');
            assert(read == head.push(name).push(digits));
            if has_file {
                assert(read.skip(2) == seq![name, digits]);
            } else {
                assert(name != word);
            }
        } else {
            let read = split_on(text, ':');
            assert(read == head.push(name));
            if has_file {
                assert(read.skip(2) == seq![name]);
            }
        }
    } else if line.is_some() {
        let digits = decimal_digits(line.unwrap() as nat);
        if has_file {
            lemma_split_on_joined(first.unwrap(), digits, ':');
        }
        let read = split_on(text, ':');
        assert(read == head.push(digits));
        if has_file {
            assert(read.skip(2) == seq![digits]);
        }
    } else {
        let read = split_on(text, ':');
        assert(read == head);
        assert(read.skip(2) == Seq::<Seq<char>>::empty());
    }
}

/// Handing a store out and making a store of what was handed out gives the
/// same breakpoints, in the same order and under the same numbers.
pub proof fn lemma_store_round_trip(store: BreakpointStore)
    requires
        store.wf(),
    ensures
        BreakpointStore::restored(store.stored(), store.next_number()) == Some(
            (store@, store.next_number()),
        ),
{
}

} // verus!
