//! Resolving a dot-separated path to a value inside the local variables.

use crate::dbg::{locals_of, DebugError, DebugResp, SqDebugger, SqLocalVarWithLvl};
use crate::link::RecvFailure;
use crate::report::{
    pieces_view, push_text, push_type, show_value, type_text, value_pieces, words, PieceModel,
    ReportPiece,
};
use crate::sq::{DynSqVar, SqUnsignedInteger};
use crate::text::{
    from_chars, i32_of, parse_i32, parse_u32, push_str, rows, split, split_on, to_chars, u32_of,
};
use vstd::prelude::*;

verus! {

/// The largest expansion depth that is ever asked for. The depth that a path
/// needs is the depth the caller wants plus one level for every segment below
/// the root variable; a sum above this bound is cut down to it.
pub const MAX_DEPTH: u32 = 0xffff_ffff;

/// The texts of a list of path segments.
pub open spec fn segments(path: Seq<String>) -> Seq<Seq<char>> {
    Seq::new(path.len(), |i: int| path[i]@)
}

/// Whether the key of a container entry answers to a path segment: a string
/// key by being the segment, an integer key by being the number that the
/// segment writes.
pub open spec fn key_matches(key: DynSqVar, segment: Seq<char>) -> bool {
    match key {
        DynSqVar::Integer(i) => i32_of(segment) == Some(i),
        DynSqVar::String(s) => s@ == segment,
        _ => false,
    }
}

/// The index of the first entry whose key answers to `segment`.
pub open spec fn first_match(entries: Seq<(DynSqVar, DynSqVar)>, segment: Seq<char>) -> Option<int>
    decreases entries.len(),
{
    if entries.len() == 0 {
        None
    } else if key_matches(entries.first().0, segment) {
        Some(0)
    } else {
        match first_match(entries.drop_first(), segment) {
            Some(i) => Some(i + 1),
            None => None,
        }
    }
}

/// The value that one path segment leads to from `root`: in a table, class or
/// instance the value of the first entry whose key answers to the segment; in
/// an array the item at the index that the segment writes, where there is one.
pub open spec fn child_of(root: DynSqVar, segment: Seq<char>) -> Option<DynSqVar> {
    match root {
        DynSqVar::Array(items) => match i32_of(segment) {
            Some(index) => if 0 <= index < items.len() {
                Some(items[index as int])
            } else {
                None
            },
            None => None,
        },
        _ => match root.entries_of() {
            Some(entries) => match first_match(entries, segment) {
                Some(at) => Some(entries[at].1),
                None => None,
            },
            None => None,
        },
    }
}

/// The value that `path` leads to from `root`, segment by segment. An empty
/// path leads nowhere, and so does a path with a segment that nothing
/// answers to.
pub open spec fn resolve(path: Seq<Seq<char>>, root: DynSqVar) -> Option<DynSqVar>
    decreases path.len(),
{
    if path.len() == 0 {
        None
    } else {
        match child_of(root, path.first()) {
            Some(child) => if path.len() == 1 {
                Some(child)
            } else {
                resolve(path.drop_first(), child)
            },
            None => None,
        }
    }
}

/// Finds the first entry whose key answers to `segment`.
fn find_entry<'a>(
    entries: &'a Vec<(DynSqVar, DynSqVar)>,
    segment: &String,
    index: Option<i32>,
) -> (r: Option<&'a DynSqVar>)
    requires
        index == i32_of(segment@),
    ensures
        match first_match(entries@, segment@) {
            Some(at) => r == Some(&entries@[at].1),
            None => r.is_none(),
        },
{
    let mut i: usize = 0;
    assert(entries@.skip(0) == entries@);
    while i < entries.len()
        invariant
            i <= entries.len(),
            index == i32_of(segment@),
            first_match(entries@, segment@) == match first_match(
                entries@.skip(i as int),
                segment@,
            ) {
                Some(at) => Some(at + i),
                None => None,
            },
        decreases entries.len() - i,
    {
        let ghost rest = entries@.skip(i as int);
        assert(rest.first() == entries@[i as int]);
        assert(rest.drop_first() == entries@.skip(i + 1));
        let hit = match &entries[i].0 {
            DynSqVar::Integer(n) => match index {
                Some(wanted) => *n == wanted,
                None => false,
            },
            DynSqVar::String(s) => *s == *segment,
            _ => false,
        };
        assert(hit == key_matches(entries@[i as int].0, segment@));
        if hit {
            return Some(&entries[i].1);
        }
        i += 1;
    }
    assert(entries@.skip(entries.len() as int).len() == 0);
    None
}

/// The value that one path segment leads to from `root`.
pub fn child<'a>(root: &'a DynSqVar, segment: &String) -> (r: Option<&'a DynSqVar>)
    ensures
        match child_of(*root, segment@) {
            Some(value) => r == Some(&value),
            None => r.is_none(),
        },
{
    let index = parse_i32(&to_chars(segment.as_str()));
    match root {
        DynSqVar::Array(items) => match index {
            Some(at) => if at >= 0 && (at as usize) < items.len() {
                Some(&items[at as usize])
            } else {
                None
            },
            None => None,
        },
        _ => match root.entries() {
            Some(entries) => find_entry(entries, segment, index),
            None => None,
        },
    }
}

/// Follows a path, segment by segment, from `root` into the containers below
/// it, and returns the value that the whole path leads to.
pub fn match_local_path<'a>(path: &Vec<String>, root: &'a DynSqVar) -> (r: Option<&'a DynSqVar>)
    ensures
        match resolve(segments(path@), *root) {
            Some(value) => r == Some(&value),
            None => r.is_none(),
        },
{
    if path.len() == 0 {
        return None;
    }
    let ghost segs = segments(path@);
    let mut at: &'a DynSqVar = root;
    let mut i: usize = 0;
    assert(segs.skip(0) == segs);
    while i < path.len()
        invariant
            i < path.len(),
            segs == segments(path@),
            resolve(segs, *root) == resolve(segs.skip(i as int), *at),
        decreases path.len() - i,
    {
        let ghost rest = segs.skip(i as int);
        assert(rest.first() == path@[i as int]@);
        assert(rest.drop_first() == segs.skip(i + 1));
        match child(at, &path[i]) {
            Some(below) => {
                if i + 1 == path.len() {
                    return Some(below);
                }
                at = below;
            },
            None => {
                return None;
            },
        }
        i += 1;
    }
    None
}

/// What an examination looks for: the path as it was written, the level to
/// fetch locals from (all levels where there is none), the expansion depth to
/// fetch them with, the name of the root variable and the path segments
/// below it.
#[derive(Clone, PartialEq, Eq, Debug)]
pub struct ExamineQuery {
    pub path: String,
    pub level: Option<SqUnsignedInteger>,
    pub depth: u32,
    pub root: String,
    pub rest: Vec<String>,
}

/// An `ExamineQuery` with its texts as sequences.
pub struct QueryModel {
    pub path: Seq<char>,
    pub level: Option<SqUnsignedInteger>,
    pub depth: u32,
    pub root: Seq<char>,
    pub rest: Seq<Seq<char>>,
}

impl View for ExamineQuery {
    type V = QueryModel;

    open spec fn view(&self) -> QueryModel {
        QueryModel {
            path: self.path@,
            level: self.level,
            depth: self.depth,
            root: self.root@,
            rest: segments(self.rest@),
        }
    }
}

/// Why an examination found nothing to look at.
#[derive(Copy, Clone, PartialEq, Eq, Structural, Debug, Hash)]
pub enum ExamineError {
    /// The path names a call-stack level and nothing after it.
    LevelOnly,
    /// The locals could not be fetched.
    Locals(DebugError),
}

/// The depth to fetch locals with, for a wanted depth and a number of path
/// segments below the root: their sum, cut down to `MAX_DEPTH`.
pub open spec fn needed_depth(depth: u32, below: nat) -> u32 {
    if depth + below > MAX_DEPTH {
        MAX_DEPTH
    } else {
        (depth + below) as u32
    }
}

/// What a path asks for. The path is cut at its dots. A first segment that
/// writes a number is the call-stack level and replaces `level`; the root
/// variable is then the second segment, and a path without one asks for
/// nothing. Otherwise the first segment is the root variable.
pub open spec fn query_of(path: Seq<char>, level: Option<SqUnsignedInteger>, depth: u32) -> Option<
    QueryModel,
> {
    let pieces = split_on(path, '.');
    match u32_of(pieces.first()) {
        Some(named) => if pieces.len() < 2 {
            None
        } else {
            Some(
                QueryModel {
                    path,
                    level: Some(named),
                    depth: needed_depth(depth, (pieces.len() - 2) as nat),
                    root: pieces[1],
                    rest: pieces.skip(2),
                },
            )
        },
        None => Some(
            QueryModel {
                path,
                level,
                depth: needed_depth(depth, (pieces.len() - 1) as nat),
                root: pieces.first(),
                rest: pieces.skip(1),
            },
        ),
    }
}

/// Reads a path into what it asks for.
pub fn plan_examine(path: &str, level: Option<SqUnsignedInteger>, depth: u32) -> (r: Result<
    ExamineQuery,
    ExamineError,
>)
    ensures
        match query_of(path@, level, depth) {
            Some(query) => r.is_ok() && r.unwrap()@ == query,
            None => r == Err::<ExamineQuery, ExamineError>(ExamineError::LevelOnly),
        },
{
    let chars = to_chars(path);
    let pieces = split(&chars, '.');
    let ghost texts = split_on(path@, '.');
    assert(texts.first() == pieces@[0]@);
    let (level, start): (Option<SqUnsignedInteger>, usize) = match parse_u32(&pieces[0]) {
        Some(named) => {
            if pieces.len() < 2 {
                return Err(ExamineError::LevelOnly);
            }
            (Some(named), 1)
        },
        None => (level, 0),
    };
    let root = from_chars(&pieces[start]);
    assert(root@ == texts[start as int]);
    let mut rest: Vec<String> = Vec::new();
    let mut i: usize = start + 1;
    while i < pieces.len()
        invariant
            start + 1 <= i <= pieces.len(),
            rows(pieces@) == texts,
            segments(rest@) == texts.subrange(start + 1, i as int),
        decreases pieces.len() - i,
    {
        let ghost before = segments(rest@);
        let piece = from_chars(&pieces[i]);
        assert(piece@ == texts[i as int]);
        rest.push(piece);
        assert(segments(rest@) == before.push(texts[i as int]));
        i += 1;
    }
    assert(texts.subrange(start + 1, pieces.len() as int) == texts.skip(start + 1));
    let below = rest.len();
    let depth = if below > (MAX_DEPTH - depth) as usize {
        MAX_DEPTH
    } else {
        depth + below as u32
    };
    Ok(ExamineQuery { path: from_chars(&chars), level, depth, root, rest })
}

/// What one local variable holds at a path: nothing unless its name is
/// `root`; itself where no segments follow; else what they lead to.
pub open spec fn target_in(local: SqLocalVarWithLvl, root: Seq<char>, rest: Seq<Seq<char>>) -> Option<
    DynSqVar,
> {
    if local.var.name@ != root {
        None
    } else if rest.len() == 0 {
        Some(local.var.val)
    } else {
        resolve(rest, local.var.val)
    }
}

/// The first full match of a path among `locals`: what the first variable
/// that holds something at the path holds there.
pub open spec fn target_of(locals: Seq<SqLocalVarWithLvl>, root: Seq<char>, rest: Seq<Seq<char>>) -> Option<
    DynSqVar,
>
    decreases locals.len(),
{
    if locals.len() == 0 {
        None
    } else {
        match target_in(locals.first(), root, rest) {
            Some(value) => Some(value),
            None => target_of(locals.drop_first(), root, rest),
        }
    }
}

/// Finds the first full match of a path among `locals`.
pub fn find_target<'a>(locals: &'a Vec<SqLocalVarWithLvl>, root: &String, rest: &Vec<String>) -> (r:
    Option<&'a DynSqVar>)
    ensures
        match target_of(locals@, root@, segments(rest@)) {
            Some(value) => r == Some(&value),
            None => r.is_none(),
        },
{
    let mut i: usize = 0;
    assert(locals@.skip(0) == locals@);
    while i < locals.len()
        invariant
            i <= locals.len(),
            target_of(locals@, root@, segments(rest@)) == target_of(
                locals@.skip(i as int),
                root@,
                segments(rest@),
            ),
        decreases locals.len() - i,
    {
        let ghost tail = locals@.skip(i as int);
        assert(tail.first() == locals@[i as int]);
        assert(tail.drop_first() == locals@.skip(i + 1));
        let local = &locals[i];
        if local.var.name == *root {
            if rest.len() == 0 {
                return Some(&local.var.val);
            }
            match match_local_path(rest, &local.var.val) {
                Some(value) => {
                    return Some(value);
                },
                None => {},
            }
        }
        i += 1;
    }
    None
}

/// The locals that an examination fetched, with what it looked for in them.
#[derive(Clone, PartialEq, Eq, Debug)]
pub struct Examination {
    pub query: ExamineQuery,
    pub locals: Vec<SqLocalVarWithLvl>,
}

impl Examination {
    /// The value that the path leads to, if it leads to one.
    pub fn target(&self) -> (r: Option<&DynSqVar>)
        ensures
            match target_of(self.locals@, self.query@.root, self.query@.rest) {
                Some(value) => r == Some(&value),
                None => r.is_none(),
            },
    {
        find_target(&self.locals, &self.query.root, &self.query.rest)
    }
}

/// What is shown of an examination: the value found, under the name of the
/// root variable where the path ends there and under the whole path where it
/// goes on, with its kind; or that the path matches nothing.
pub open spec fn shown_of(query: QueryModel, locals: Seq<SqLocalVarWithLvl>) -> Seq<PieceModel> {
    match target_of(locals, query.root, query.rest) {
        Some(value) => words(
            (if query.rest.len() == 0 {
                query.root
            } else {
                query.path
            }) + ": "@ + type_text(value.type_of()) + " = "@,
        ) + value_pieces(value),
        None => words("failed to match path `"@ + query.path + "`"@),
    }
}

impl Examination {
    /// What is shown of this examination.
    pub fn report(&self) -> (r: Vec<ReportPiece>)
        ensures
            pieces_view(r@) == shown_of(self.query@, self.locals@),
    {
        let mut r: Vec<ReportPiece> = Vec::new();
        assert(pieces_view(r@) == Seq::<PieceModel>::empty());
        let mut out: Vec<char> = Vec::new();
        match self.target() {
            Some(value) => {
                if self.query.rest.len() == 0 {
                    push_str(&mut out, self.query.root.as_str());
                } else {
                    push_str(&mut out, self.query.path.as_str());
                }
                push_str(&mut out, ": ");
                push_type(&mut out, value.get_type());
                push_str(&mut out, " = ");
                push_text(&mut r, &out);
                show_value(value, &mut r);
            },
            None => {
                push_str(&mut out, "failed to match path `");
                push_str(&mut out, self.query.path.as_str());
                push_str(&mut out, "`");
                push_text(&mut r, &out);
            },
        }
        r
    }
}

/// What an examination returns, given what the request for locals returned.
pub open spec fn examined(query: ExamineQuery, fetched: Result<Vec<SqLocalVarWithLvl>, DebugError>) -> Result<
    Examination,
    ExamineError,
> {
    match fetched {
        Ok(locals) => Ok(Examination { query, locals }),
        Err(e) => Err(ExamineError::Locals(e)),
    }
}

/// Puts what a request for locals returned together with the query it was made for.
pub fn examine_fetched(query: ExamineQuery, fetched: Result<Vec<SqLocalVarWithLvl>, DebugError>) -> (r:
    Result<Examination, ExamineError>)
    ensures
        r == examined(query, fetched),
{
    match fetched {
        Ok(locals) => Ok(Examination { query, locals }),
        Err(e) => Err(ExamineError::Locals(e)),
    }
}

/// What an examination of a path can return: the refusal of a path that
/// names only a level, or, for some answer to the request for the locals of
/// the level that the path names, what `examined` makes of it.
pub open spec fn examination_of(
    path: Seq<char>,
    level: Option<SqUnsignedInteger>,
    depth: u32,
    r: Result<Examination, ExamineError>,
) -> bool {
    match query_of(path, level, depth) {
        None => r == Err::<Examination, ExamineError>(ExamineError::LevelOnly),
        Some(asked) => exists|query: ExamineQuery, got: Result<DebugResp, RecvFailure>|
            query@ == asked && r == #[trigger] examined(query, locals_of(query.level, got)),
    }
}

/// Examines a variable by its path: reads the path, fetches the locals of the
/// level it names and returns them with the query. A path that names only a
/// level fails before anything is fetched.
pub fn examine(dbg: &SqDebugger, path: &str, level: Option<SqUnsignedInteger>, depth: u32) -> (r:
    Result<Examination, ExamineError>)
    ensures
        examination_of(path@, level, depth, r),
{
    match plan_examine(path, level, depth) {
        Ok(query) => {
            let fetched = dbg.get_locals(query.level);
            let ghost got = choose|got: Result<DebugResp, RecvFailure>|
                fetched == locals_of(query.level, got);
            let r = examine_fetched(query, fetched);
            assert(r == examined(query, locals_of(query.level, got)));
            r
        },
        Err(e) => Err(e),
    }
}

} // verus!
