//! Reports on values. A report is a list of pieces: texts, and numbers of
//! the machine whose decimal form the caller writes in their place.

use crate::sq::{DynSqVar, SqFloat, SqType};
use crate::text::{from_chars, push_signed, push_str, signed_digits, to_chars};
use vstd::prelude::*;

verus! {

/// A piece of a report: text, or a number of the machine whose decimal form
/// stands at that place.
#[derive(Clone, PartialEq, Eq, Debug)]
pub enum ReportPiece {
    Text(String),
    Float(SqFloat),
}

/// A `ReportPiece` with its text as a sequence.
pub enum PieceModel {
    Text(Seq<char>),
    Float(SqFloat),
}

impl View for ReportPiece {
    type V = PieceModel;

    open spec fn view(&self) -> PieceModel {
        match *self {
            ReportPiece::Text(s) => PieceModel::Text(s@),
            ReportPiece::Float(f) => PieceModel::Float(f),
        }
    }
}

/// The views of a list of pieces.
pub open spec fn pieces_view(pieces: Seq<ReportPiece>) -> Seq<PieceModel> {
    Seq::new(pieces.len(), |i: int| pieces[i]@)
}

/// A report of one text.
pub open spec fn words(s: Seq<char>) -> Seq<PieceModel> {
    seq![PieceModel::Text(s)]
}

/// The reports of a list, one after the other.
pub open spec fn joined(rows: Seq<Seq<PieceModel>>) -> Seq<PieceModel>
    decreases rows.len(),
{
    if rows.len() == 0 {
        Seq::empty()
    } else {
        joined(rows.drop_last()) + rows.last()
    }
}

/// The name of a kind of value.
pub open spec fn type_text(t: SqType) -> Seq<char> {
    match t {
        SqType::Null => "Null"@,
        SqType::Integer => "Integer"@,
        SqType::Float => "Float"@,
        SqType::Bool => "Bool"@,
        SqType::String => "String"@,
        SqType::Table => "Table"@,
        SqType::Array => "Array"@,
        SqType::Class => "Class"@,
        SqType::Instance => "Instance"@,
        SqType::Closure => "Closure"@,
        SqType::NativeClosure => "NativeClosure"@,
        SqType::Generator => "Generator"@,
        SqType::UserData => "UserData"@,
        SqType::UserPointer => "UserPointer"@,
        SqType::Thread => "Thread"@,
        SqType::FuncProto => "FuncProto"@,
        SqType::WeakRef => "WeakRef"@,
    }
}

/// The word for a truth value.
pub open spec fn bool_text(b: bool) -> Seq<char> {
    if b {
        "true"@
    } else {
        "false"@
    }
}

/// What stands before item `i` of a list: a comma and a space, but for the first.
pub open spec fn separator(i: int) -> Seq<PieceModel> {
    if i == 0 {
        Seq::empty()
    } else {
        words(", "@)
    }
}

/// The reports on the entries of a keyed container: each key, an equals
/// sign and the value.
pub open spec fn entry_rows(map: Vec<(DynSqVar, DynSqVar)>) -> Seq<Seq<PieceModel>>
    decreases map,
{
    Seq::new(
        map.len() as nat,
        |i: int|
            if 0 <= i < map.len() {
                separator(i) + value_pieces(map[i].0) + words(" = "@) + value_pieces(map[i].1)
            } else {
                Seq::empty()
            },
    )
}

/// The reports on the items of an array.
pub open spec fn item_rows(items: Vec<DynSqVar>) -> Seq<Seq<PieceModel>>
    decreases items,
{
    Seq::new(
        items.len() as nat,
        |i: int|
            if 0 <= i < items.len() {
                separator(i) + value_pieces(items[i])
            } else {
                Seq::empty()
            },
    )
}

/// The report on a value. A number, a truth value and a string are written
/// out, a string between quotes; a container with its entries, between braces
/// or brackets; any other value by its kind, between angle brackets.
pub open spec fn value_pieces(val: DynSqVar) -> Seq<PieceModel>
    decreases val,
{
    match val {
        DynSqVar::Null => words("null"@),
        DynSqVar::Integer(i) => words(signed_digits(i as int)),
        DynSqVar::Float(f) => seq![PieceModel::Float(f)],
        DynSqVar::Bool(b) => words(bool_text(b)),
        DynSqVar::String(s) => words(seq!['"'] + s@ + seq!['"']),
        DynSqVar::Table(map) => words("{"@) + joined(entry_rows(map)) + words("}"@),
        DynSqVar::Class(map) => words("class {"@) + joined(entry_rows(map)) + words("}"@),
        DynSqVar::Instance(obj) => words("instance {"@) + joined(entry_rows(obj.this)) + words("}"@),
        DynSqVar::Array(items) => words("["@) + joined(item_rows(items)) + words("]"@),
        _ => words("<"@ + type_text(val.type_of()) + ">"@),
    }
}

/// Appends the name of a kind of value.
pub fn push_type(out: &mut Vec<char>, t: SqType)
    ensures
        final(out)@ == old(out)@ + type_text(t),
{
    match t {
        SqType::Null => push_str(out, "Null"),
        SqType::Integer => push_str(out, "Integer"),
        SqType::Float => push_str(out, "Float"),
        SqType::Bool => push_str(out, "Bool"),
        SqType::String => push_str(out, "String"),
        SqType::Table => push_str(out, "Table"),
        SqType::Array => push_str(out, "Array"),
        SqType::Class => push_str(out, "Class"),
        SqType::Instance => push_str(out, "Instance"),
        SqType::Closure => push_str(out, "Closure"),
        SqType::NativeClosure => push_str(out, "NativeClosure"),
        SqType::Generator => push_str(out, "Generator"),
        SqType::UserData => push_str(out, "UserData"),
        SqType::UserPointer => push_str(out, "UserPointer"),
        SqType::Thread => push_str(out, "Thread"),
        SqType::FuncProto => push_str(out, "FuncProto"),
        SqType::WeakRef => push_str(out, "WeakRef"),
    }
}

/// Appends the word for a truth value.
pub fn push_bool(out: &mut Vec<char>, b: bool)
    ensures
        final(out)@ == old(out)@ + bool_text(b),
{
    if b {
        push_str(out, "true");
    } else {
        push_str(out, "false");
    }
}

/// Appends one text piece.
pub fn push_text(report: &mut Vec<ReportPiece>, s: &Vec<char>)
    ensures
        pieces_view(final(report)@) == pieces_view(old(report)@) + words(s@),
{
    report.push(ReportPiece::Text(from_chars(s)));
    assert(pieces_view(report@) == pieces_view(old(report)@).push(PieceModel::Text(s@)));
}

/// Appends one text piece that holds `s`.
pub fn push_words(report: &mut Vec<ReportPiece>, s: &str)
    ensures
        pieces_view(final(report)@) == pieces_view(old(report)@) + words(s@),
{
    push_text(report, &to_chars(s));
}

/// Appends a number of the machine.
pub fn push_float(report: &mut Vec<ReportPiece>, f: SqFloat)
    ensures
        pieces_view(final(report)@) == pieces_view(old(report)@) + seq![PieceModel::Float(f)],
{
    report.push(ReportPiece::Float(f));
    assert(pieces_view(report@) == pieces_view(old(report)@).push(PieceModel::Float(f)));
}

/// Appends the reports on the entries of a keyed container.
fn show_entries(map: &Vec<(DynSqVar, DynSqVar)>, report: &mut Vec<ReportPiece>)
    ensures
        pieces_view(final(report)@) == pieces_view(old(report)@) + joined(entry_rows(*map)),
    decreases map,
{
    let ghost rows = entry_rows(*map);
    let mut i: usize = 0;
    assert(joined(rows.take(0)) == Seq::<PieceModel>::empty());
    while i < map.len()
        invariant
            i <= map.len(),
            rows == entry_rows(*map),
            pieces_view(report@) == pieces_view(old(report)@) + joined(rows.take(i as int)),
        decreases map.len() - i,
    {
        let ghost before = pieces_view(report@);
        if i > 0 {
            push_words(report, ", ");
        }
        show_value(&map[i].0, report);
        push_words(report, " = ");
        show_value(&map[i].1, report);
        proof {
            let next = rows.take(i + 1);
            assert(next.drop_last() == rows.take(i as int));
            assert(next.last() == rows[i as int]);
            assert(pieces_view(report@) == before + rows[i as int]);
        }
        i += 1;
    }
    assert(rows.take(map.len() as int) == rows);
}

/// Appends the reports on the items of an array.
fn show_items(items: &Vec<DynSqVar>, report: &mut Vec<ReportPiece>)
    ensures
        pieces_view(final(report)@) == pieces_view(old(report)@) + joined(item_rows(*items)),
    decreases items,
{
    let ghost rows = item_rows(*items);
    let mut i: usize = 0;
    assert(joined(rows.take(0)) == Seq::<PieceModel>::empty());
    while i < items.len()
        invariant
            i <= items.len(),
            rows == item_rows(*items),
            pieces_view(report@) == pieces_view(old(report)@) + joined(rows.take(i as int)),
        decreases items.len() - i,
    {
        let ghost before = pieces_view(report@);
        if i > 0 {
            push_words(report, ", ");
        }
        show_value(&items[i], report);
        proof {
            let next = rows.take(i + 1);
            assert(next.drop_last() == rows.take(i as int));
            assert(next.last() == rows[i as int]);
            assert(pieces_view(report@) == before + rows[i as int]);
        }
        i += 1;
    }
    assert(rows.take(items.len() as int) == rows);
}

/// Appends the report on a value.
pub fn show_value(val: &DynSqVar, report: &mut Vec<ReportPiece>)
    ensures
        pieces_view(final(report)@) == pieces_view(old(report)@) + value_pieces(*val),
    decreases val,
{
    match val {
        DynSqVar::Null => push_words(report, "null"),
        DynSqVar::Integer(i) => {
            let mut out: Vec<char> = Vec::new();
            push_signed(&mut out, *i);
            push_text(report, &out);
        },
        DynSqVar::Float(f) => push_float(report, *f),
        DynSqVar::Bool(b) => {
            let mut out: Vec<char> = Vec::new();
            push_bool(&mut out, *b);
            push_text(report, &out);
        },
        DynSqVar::String(s) => {
            let mut out: Vec<char> = Vec::new();
            out.push('"');
            push_str(&mut out, s.as_str());
            out.push('"');
            assert(out@ == seq!['"'] + s@ + seq!['"']);
            push_text(report, &out);
        },
        DynSqVar::Table(map) => {
            push_words(report, "{");
            show_entries(map, report);
            push_words(report, "}");
        },
        DynSqVar::Class(map) => {
            push_words(report, "class {");
            show_entries(map, report);
            push_words(report, "}");
        },
        DynSqVar::Instance(obj) => {
            push_words(report, "instance {");
            show_entries(&obj.this, report);
            push_words(report, "}");
        },
        DynSqVar::Array(items) => {
            push_words(report, "[");
            show_items(items, report);
            push_words(report, "]");
        },
        _ => {
            let mut out: Vec<char> = Vec::new();
            push_str(&mut out, "<");
            push_type(&mut out, val.get_type());
            push_str(&mut out, ">");
            push_text(report, &out);
        },
    }
}

/// The report on a value.
pub fn value_report(val: &DynSqVar) -> (r: Vec<ReportPiece>)
    ensures
        pieces_view(r@) == value_pieces(*val),
{
    let mut r: Vec<ReportPiece> = Vec::new();
    assert(pieces_view(r@) == Seq::<PieceModel>::empty());
    show_value(val, &mut r);
    r
}

} // verus!
