//! Preparing a script for evaluation: the list of captured locals that its
//! first line may hold.

use crate::sq::SqUnsignedInteger;
use crate::text::{
    char_is_alphabetic, concat_all, copy_range, from_chars, is_alphabetic, is_ascii,
    is_ascii_letter, lines, lines_of, parse_u32, rows, split, split_on, to_chars, trim, trimmed,
    u32_of,
};
use vstd::prelude::*;

verus! {

/// A script that is ready to run: its text, the locals it captures as pairs
/// of name and call-stack level, and whether it runs under the debugger.
#[derive(Clone, PartialEq, Eq, Debug)]
pub struct EvalRequest {
    pub script: String,
    pub capture: Vec<(String, SqUnsignedInteger)>,
    pub debug: bool,
}

/// Why a script was not made ready.
#[derive(Clone, PartialEq, Eq, Debug)]
pub enum EvalError {
    /// An evaluation is already going on.
    DuringEval,
    /// There is no script: none was chosen and none was written.
    NoScript,
    /// No more buffers can be added.
    BuffersFull,
    /// The script has no lines.
    EmptyBuffer,
    /// An entry of the capture list has a level that is no number.
    InvalidLevel { level: String, spec: String },
    /// An entry of the capture list is not a level, a dot and a name.
    InvalidCapture { spec: String },
}

/// An `EvalError` with its texts as sequences.
pub enum EvalErrorModel {
    DuringEval,
    NoScript,
    BuffersFull,
    EmptyBuffer,
    InvalidLevel { level: Seq<char>, spec: Seq<char> },
    InvalidCapture { spec: Seq<char> },
}

impl View for EvalError {
    type V = EvalErrorModel;

    open spec fn view(&self) -> EvalErrorModel {
        match *self {
            EvalError::DuringEval => EvalErrorModel::DuringEval,
            EvalError::NoScript => EvalErrorModel::NoScript,
            EvalError::BuffersFull => EvalErrorModel::BuffersFull,
            EvalError::EmptyBuffer => EvalErrorModel::EmptyBuffer,
            EvalError::InvalidLevel { level, spec } => EvalErrorModel::InvalidLevel {
                level: level@,
                spec: spec@,
            },
            EvalError::InvalidCapture { spec } => EvalErrorModel::InvalidCapture { spec: spec@ },
        }
    }
}

/// The view of a capture list.
pub open spec fn capture_view(capture: Seq<(String, SqUnsignedInteger)>) -> Seq<
    (Seq<char>, SqUnsignedInteger),
> {
    Seq::new(capture.len(), |i: int| (capture[i].0@, capture[i].1))
}

/// What one entry of a capture list says, given the parts that the trimmed
/// entry has between its dots and whether the second part starts with a
/// letter: the parts must be a level and a name that starts with a letter.
pub open spec fn capture_given(
    spec: Seq<char>,
    parts: Seq<Seq<char>>,
    first_alphabetic: bool,
) -> Result<(Seq<char>, SqUnsignedInteger), EvalErrorModel> {
    if parts.len() == 2 && parts[1].len() > 0 && first_alphabetic {
        match u32_of(parts[0]) {
            Some(level) => Ok((parts[1], level)),
            None => Err(EvalErrorModel::InvalidLevel { level: parts[0], spec }),
        }
    } else {
        Err(EvalErrorModel::InvalidCapture { spec })
    }
}

/// The parts of an entry of a capture list: trimmed, it is cut at its dots.
pub open spec fn capture_parts(spec: Seq<char>) -> Seq<Seq<char>> {
    split_on(trimmed(spec), '.')
}

/// Whether a character counts as a letter: where `plain` is set, if it is
/// an ASCII letter; else if it is alphabetic.
pub open spec fn is_letter(c: char, plain: bool) -> bool {
    if plain {
        is_ascii_letter(c)
    } else {
        char_is_alphabetic(c)
    }
}

/// What one entry of a capture list says, with letters taken as `plain`
/// says. Trimmed, the entry must be a level, a dot and a name that starts
/// with a letter.
pub open spec fn capture_by(spec: Seq<char>, plain: bool) -> Result<
    (Seq<char>, SqUnsignedInteger),
    EvalErrorModel,
> {
    let parts = capture_parts(spec);
    capture_given(
        spec,
        parts,
        parts.len() == 2 && parts[1].len() > 0 && is_letter(parts[1].first(), plain),
    )
}

/// What one entry of a capture list says. Trimmed, it must be a level, a
/// dot and a name that starts with an alphabetic character.
pub open spec fn capture_of(spec: Seq<char>) -> Result<
    (Seq<char>, SqUnsignedInteger),
    EvalErrorModel,
> {
    capture_by(spec, false)
}

/// Whether the character that decides on an entry, the first of its name,
/// is an ASCII character, or there is none. Among the ASCII characters the
/// alphabetic ones are the letters.
pub open spec fn entry_plain(spec: Seq<char>) -> bool {
    let parts = capture_parts(spec);
    parts.len() == 2 && parts[1].len() > 0 ==> is_ascii(parts[1].first())
}

/// Whether every entry of a list is decided by an ASCII character.
pub open spec fn entries_plain(specs: Seq<Seq<char>>) -> bool {
    forall|i: int| 0 <= i < specs.len() ==> entry_plain(#[trigger] specs[i])
}

/// What the entries of a capture list say, in order, with letters taken as
/// `plain` says; the error of the first entry that is wrong.
pub open spec fn captures_by(specs: Seq<Seq<char>>, plain: bool) -> Result<
    Seq<(Seq<char>, SqUnsignedInteger)>,
    EvalErrorModel,
>
    decreases specs.len(),
{
    if specs.len() == 0 {
        Ok(Seq::empty())
    } else {
        match captures_by(specs.drop_last(), plain) {
            Ok(before) => match capture_by(specs.last(), plain) {
                Ok(entry) => Ok(before.push(entry)),
                Err(e) => Err(e),
            },
            Err(e) => Err(e),
        }
    }
}

/// Whether a line is a capture list: trimmed, it starts and ends with a bar.
pub open spec fn is_capture_line(line: Seq<char>) -> bool {
    let t = trimmed(line);
    t.len() > 0 && t.first() == '|' && t.last() == '|'
}

/// What lies between the bars of a capture line.
pub open spec fn between_bars(line: Seq<char>) -> Seq<char> {
    let t = trimmed(line);
    if t.len() >= 2 {
        t.subrange(1, t.len() - 1)
    } else {
        Seq::empty()
    }
}

/// What a script text is made ready as, with letters taken as `plain` says:
/// the text to run and its capture list. A text without lines is refused.
/// Where the first line is a capture list, the list is read from it and the
/// text to run is made of the lines after it, one directly after the other;
/// else the text runs as it is and captures nothing.
pub open spec fn prepared_by(script: Seq<char>, plain: bool) -> Result<
    (Seq<char>, Seq<(Seq<char>, SqUnsignedInteger)>),
    EvalErrorModel,
> {
    let all = lines_of(script);
    if all.len() == 0 {
        Err(EvalErrorModel::EmptyBuffer)
    } else if !is_capture_line(all.first()) {
        Ok((script, Seq::empty()))
    } else {
        match captures_by(split_on(between_bars(all.first()), ','), plain) {
            Ok(capture) => Ok((concat_all(all.skip(1)), capture)),
            Err(e) => Err(e),
        }
    }
}

/// What a script text is made ready as.
pub open spec fn prepared(script: Seq<char>) -> Result<
    (Seq<char>, Seq<(Seq<char>, SqUnsignedInteger)>),
    EvalErrorModel,
> {
    prepared_by(script, false)
}

/// Whether every entry of the capture list of a script, if it has one, is
/// decided by an ASCII character.
pub open spec fn script_plain(script: Seq<char>) -> bool {
    let all = lines_of(script);
    all.len() > 0 && is_capture_line(all.first()) ==> entries_plain(
        split_on(between_bars(all.first()), ','),
    )
}

/// Whether `r` is the entry, or the error, that `m` describes.
pub open spec fn entry_is(
    r: Result<(String, SqUnsignedInteger), EvalError>,
    m: Result<(Seq<char>, SqUnsignedInteger), EvalErrorModel>,
) -> bool {
    match m {
        Ok(entry) => r.is_ok() && r.unwrap().0@ == entry.0 && r.unwrap().1 == entry.1,
        Err(e) => r.is_err() && r.unwrap_err()@ == e,
    }
}

/// Whether `r` is the script made ready, or the error, that `m` describes.
pub open spec fn ready_is(
    r: Result<(String, Vec<(String, SqUnsignedInteger)>), EvalError>,
    m: Result<(Seq<char>, Seq<(Seq<char>, SqUnsignedInteger)>), EvalErrorModel>,
) -> bool {
    match m {
        Ok((text, capture)) => r.is_ok() && r.unwrap().0@ == text && capture_view(r.unwrap().1@)
            == capture,
        Err(e) => r.is_err() && r.unwrap_err()@ == e,
    }
}

/// Makes the entry of a capture list that its parts say. `spec` is the
/// entry as written, `parts` what the trimmed entry has between its dots;
/// whether the second part starts with a letter is given.
pub fn capture_from(spec: &Vec<char>, parts: &Vec<Vec<char>>, first_alphabetic: bool) -> (r: Result<
    (String, SqUnsignedInteger),
    EvalError,
>)
    ensures
        entry_is(r, capture_given(spec@, rows(parts@), first_alphabetic)),
{
    if parts.len() == 2 {
        assert(rows(parts@)[0] == parts@[0]@);
        assert(rows(parts@)[1] == parts@[1]@);
        if parts[1].len() > 0 && first_alphabetic {
            return match parse_u32(&parts[0]) {
                Some(level) => Ok((from_chars(&parts[1]), level)),
                None => Err(
                    EvalError::InvalidLevel { level: from_chars(&parts[0]), spec: from_chars(spec) },
                ),
            };
        }
    }
    Err(EvalError::InvalidCapture { spec: from_chars(spec) })
}

/// Reads one entry of a capture list.
pub fn read_capture(spec: &Vec<char>) -> (r: Result<(String, SqUnsignedInteger), EvalError>)
    ensures
        entry_is(r, capture_of(spec@)),
        entry_plain(spec@) ==> entry_is(r, capture_by(spec@, true)),
{
    let parts = split(&trim(spec), '.');
    let first_alphabetic = parts.len() == 2 && parts[1].len() > 0 && is_alphabetic(parts[1][0]);
    proof {
        if parts.len() == 2 {
            assert(rows(parts@)[1] == parts@[1]@);
        }
    }
    capture_from(spec, &parts, first_alphabetic)
}

/// Makes a script text ready for evaluation.
#[verifier::loop_isolation(false)]
pub fn prepare(script: &str) -> (r: Result<(String, Vec<(String, SqUnsignedInteger)>), EvalError>)
    ensures
        ready_is(r, prepared(script@)),
        script_plain(script@) ==> ready_is(r, prepared_by(script@, true)),
{
    let chars = to_chars(script);
    let all = lines(&chars);
    let ghost texts = lines_of(script@);
    if all.len() == 0 {
        return Err(EvalError::EmptyBuffer);
    }
    assert(texts.first() == all@[0]@);
    let line = trim(&all[0]);
    let n = line.len();
    if !(n > 0 && line[0] == '|' && line[n - 1] == '|') {
        let none: Vec<(String, SqUnsignedInteger)> = Vec::new();
        assert(capture_view(none@) == Seq::<(Seq<char>, SqUnsignedInteger)>::empty());
        return Ok((from_chars(&chars), none));
    }
    let list = if n >= 2 {
        copy_range(&line, 1, n - 1)
    } else {
        Vec::new()
    };
    assert(list@ == between_bars(texts.first()));
    let specs = split(&list, ',');
    let ghost spec_texts = split_on(list@, ',');
    let mut capture: Vec<(String, SqUnsignedInteger)> = Vec::new();
    let mut i: usize = 0;
    assert(spec_texts.take(0) == Seq::<Seq<char>>::empty());
    assert(capture_view(capture@) == Seq::<(Seq<char>, SqUnsignedInteger)>::empty());
    assert(is_capture_line(texts.first()));
    while i < specs.len()
        invariant
            i <= specs.len(),
            rows(specs@) == spec_texts,
            captures_by(spec_texts.take(i as int), false) == Ok::<
                Seq<(Seq<char>, SqUnsignedInteger)>,
                EvalErrorModel,
            >(capture_view(capture@)),
            entries_plain(spec_texts) ==> captures_by(spec_texts.take(i as int), true) == Ok::<
                Seq<(Seq<char>, SqUnsignedInteger)>,
                EvalErrorModel,
            >(capture_view(capture@)),
        decreases specs.len() - i,
    {
        let ghost next = spec_texts.take(i + 1);
        assert(next.drop_last() == spec_texts.take(i as int));
        assert(next.last() == specs@[i as int]@);
        match read_capture(&specs[i]) {
            Ok(entry) => {
                let ghost before = capture_view(capture@);
                capture.push(entry);
                assert(capture_view(capture@) == before.push((entry.0@, entry.1)));
            },
            Err(e) => {
                proof {
                    lemma_error_stays(spec_texts, i + 1, false);
                    if entries_plain(spec_texts) {
                        lemma_error_stays(spec_texts, i + 1, true);
                    }
                }
                return Err(e);
            },
        }
        i += 1;
    }
    assert(spec_texts.take(specs.len() as int) == spec_texts);
    let mut text: Vec<char> = Vec::new();
    let mut k: usize = 1;
    assert(texts.skip(1).take(0) == Seq::<Seq<char>>::empty());
    while k < all.len()
        invariant
            1 <= k <= all.len(),
            rows(all@) == texts,
            text@ == concat_all(texts.skip(1).take(k - 1)),
        decreases all.len() - k,
    {
        let ghost next = texts.skip(1).take(k as int);
        assert(next.drop_last() == texts.skip(1).take(k - 1));
        assert(next.last() == all@[k as int]@);
        let mut piece = copy_range(&all[k], 0, all[k].len());
        assert(piece@ == all@[k as int]@);
        text.append(&mut piece);
        k += 1;
    }
    assert(texts.skip(1).take(all.len() - 1) == texts.skip(1));
    Ok((from_chars(&text), capture))
}

/// An error among the first entries of a capture list is the error of the
/// whole list.
pub proof fn lemma_error_stays(specs: Seq<Seq<char>>, upto: int, plain: bool)
    requires
        0 <= upto <= specs.len(),
        captures_by(specs.take(upto), plain).is_err(),
    ensures
        captures_by(specs, plain) == captures_by(specs.take(upto), plain),
    decreases specs.len() - upto,
{
    if upto == specs.len() {
        assert(specs.take(upto) == specs);
    } else {
        assert(specs.drop_last().take(upto) == specs.take(upto));
        lemma_error_stays(specs.drop_last(), upto, plain);
    }
}

} // verus!
