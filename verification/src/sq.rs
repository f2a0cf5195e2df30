//! Values of the monitored virtual machine, as the debugger sees them.

use vstd::prelude::*;

verus! {

/// The machine's signed integer.
pub type SqInteger = i32;

/// The machine's unsigned integer; call-stack levels and slot indices are of this type.
pub type SqUnsignedInteger = u32;

/// A single-precision number of the machine, kept as its IEEE 754 bit pattern.
#[derive(Copy, Clone, PartialEq, Eq, PartialOrd, Ord, Structural, Debug, Hash)]
pub struct SqFloat {
    pub bits: u32,
}

impl SqFloat {
    /// The number with the given bit pattern.
    pub fn from_bits(bits: u32) -> (r: SqFloat)
        ensures
            r.bits == bits,
    {
        SqFloat { bits }
    }

    /// The bit pattern of the number.
    pub fn to_bits(&self) -> (r: u32)
        ensures
            r == self.bits,
    {
        self.bits
    }
}

/// The kind of a value.
#[derive(Copy, Clone, PartialEq, Eq, PartialOrd, Ord, Structural, Debug, Hash)]
pub enum SqType {
    Null,
    Integer,
    Float,
    Bool,
    String,
    Table,
    Array,
    Class,
    Instance,
    Closure,
    NativeClosure,
    Generator,
    UserData,
    UserPointer,
    Thread,
    FuncProto,
    WeakRef,
}

/// An object of the machine: the members of a class instance, in the order
/// in which the machine lists them.
#[derive(PartialEq, Eq, PartialOrd, Debug, Hash)]
pub struct SqInstance {
    pub this: Vec<(DynSqVar, DynSqVar)>,
}

/// A value of the machine. Containers hold their entries in the order in
/// which the machine lists them; a value that the debugger does not look into
/// is kept by its kind alone.
#[derive(PartialEq, Eq, PartialOrd, Debug, Hash)]
pub enum DynSqVar {
    Null,
    Integer(SqInteger),
    Float(SqFloat),
    Bool(bool),
    String(String),
    Table(Vec<(DynSqVar, DynSqVar)>),
    Class(Vec<(DynSqVar, DynSqVar)>),
    Instance(SqInstance),
    Array(Vec<DynSqVar>),
    Closure,
    NativeClosure,
    Generator,
    UserData,
    UserPointer,
    Thread,
    FuncProto,
    WeakRef,
}

impl DynSqVar {
    /// The kind of a value.
    pub open spec fn type_of(self) -> SqType {
        match self {
            DynSqVar::Null => SqType::Null,
            DynSqVar::Integer(_) => SqType::Integer,
            DynSqVar::Float(_) => SqType::Float,
            DynSqVar::Bool(_) => SqType::Bool,
            DynSqVar::String(_) => SqType::String,
            DynSqVar::Table(_) => SqType::Table,
            DynSqVar::Class(_) => SqType::Class,
            DynSqVar::Instance(_) => SqType::Instance,
            DynSqVar::Array(_) => SqType::Array,
            DynSqVar::Closure => SqType::Closure,
            DynSqVar::NativeClosure => SqType::NativeClosure,
            DynSqVar::Generator => SqType::Generator,
            DynSqVar::UserData => SqType::UserData,
            DynSqVar::UserPointer => SqType::UserPointer,
            DynSqVar::Thread => SqType::Thread,
            DynSqVar::FuncProto => SqType::FuncProto,
            DynSqVar::WeakRef => SqType::WeakRef,
        }
    }

    /// The kind of this value.
    pub fn get_type(&self) -> (t: SqType)
        ensures
            t == self.type_of(),
    {
        match self {
            DynSqVar::Null => SqType::Null,
            DynSqVar::Integer(_) => SqType::Integer,
            DynSqVar::Float(_) => SqType::Float,
            DynSqVar::Bool(_) => SqType::Bool,
            DynSqVar::String(_) => SqType::String,
            DynSqVar::Table(_) => SqType::Table,
            DynSqVar::Class(_) => SqType::Class,
            DynSqVar::Instance(_) => SqType::Instance,
            DynSqVar::Array(_) => SqType::Array,
            DynSqVar::Closure => SqType::Closure,
            DynSqVar::NativeClosure => SqType::NativeClosure,
            DynSqVar::Generator => SqType::Generator,
            DynSqVar::UserData => SqType::UserData,
            DynSqVar::UserPointer => SqType::UserPointer,
            DynSqVar::Thread => SqType::Thread,
            DynSqVar::FuncProto => SqType::FuncProto,
            DynSqVar::WeakRef => SqType::WeakRef,
        }
    }

    /// The entries of a keyed container (table, class or instance); `None`
    /// for every other value.
    pub open spec fn entries_of(self) -> Option<Seq<(DynSqVar, DynSqVar)>> {
        match self {
            DynSqVar::Table(map) => Some(map@),
            DynSqVar::Class(map) => Some(map@),
            DynSqVar::Instance(obj) => Some(obj.this@),
            _ => None,
        }
    }

    /// The entries of a keyed container.
    pub fn entries(&self) -> (r: Option<&Vec<(DynSqVar, DynSqVar)>>)
        ensures
            match r {
                Some(map) => self.entries_of() == Some(map@),
                None => self.entries_of().is_none(),
            },
    {
        match self {
            DynSqVar::Table(map) => Some(map),
            DynSqVar::Class(map) => Some(map),
            DynSqVar::Instance(obj) => Some(&obj.this),
            _ => None,
        }
    }
}

impl DynSqVar {
    /// Whether two values are alike: of the same kind, with the same number
    /// or text, and with entries that are alike one by one.
    pub open spec fn alike(self, other: DynSqVar) -> bool
        decreases self,
    {
        match (self, other) {
            (DynSqVar::Integer(a), DynSqVar::Integer(b)) => a == b,
            (DynSqVar::Float(a), DynSqVar::Float(b)) => a == b,
            (DynSqVar::Bool(a), DynSqVar::Bool(b)) => a == b,
            (DynSqVar::String(a), DynSqVar::String(b)) => a@ == b@,
            (DynSqVar::Table(a), DynSqVar::Table(b)) => a.len() == b.len() && forall|i: int|
                0 <= i < a.len() ==> (#[trigger] a[i]).0.alike(b[i].0) && a[i].1.alike(b[i].1),
            (DynSqVar::Class(a), DynSqVar::Class(b)) => a.len() == b.len() && forall|i: int|
                0 <= i < a.len() ==> (#[trigger] a[i]).0.alike(b[i].0) && a[i].1.alike(b[i].1),
            (DynSqVar::Instance(a), DynSqVar::Instance(b)) => a.this.len() == b.this.len()
                && forall|i: int|
                0 <= i < a.this.len() ==> (#[trigger] a.this[i]).0.alike(b.this[i].0)
                    && a.this[i].1.alike(b.this[i].1),
            (DynSqVar::Array(a), DynSqVar::Array(b)) => a.len() == b.len() && forall|i: int|
                0 <= i < a.len() ==> (#[trigger] a[i]).alike(b[i]),
            _ => self.type_of() == other.type_of() && !(self is Integer || self is Float
                || self is Bool || self is String || self is Table || self is Class
                || self is Instance || self is Array),
        }
    }
}

/// A copy of a list of container entries.
fn copy_entries(map: &Vec<(DynSqVar, DynSqVar)>) -> (r: Vec<(DynSqVar, DynSqVar)>)
    ensures
        r.len() == map.len(),
        forall|i: int|
            0 <= i < map.len() ==> (#[trigger] map[i]).0.alike(r[i].0) && map[i].1.alike(r[i].1),
    decreases map,
{
    let mut r: Vec<(DynSqVar, DynSqVar)> = Vec::new();
    let mut i: usize = 0;
    while i < map.len()
        invariant
            i <= map.len(),
            r.len() == i,
            forall|k: int|
                0 <= k < i ==> (#[trigger] map[k]).0.alike(r[k].0) && map[k].1.alike(r[k].1),
        decreases map.len() - i,
    {
        let entry = &map[i];
        r.push((entry.0.clone(), entry.1.clone()));
        i += 1;
    }
    r
}

/// A copy of a list of values.
fn copy_items(items: &Vec<DynSqVar>) -> (r: Vec<DynSqVar>)
    ensures
        r.len() == items.len(),
        forall|i: int| 0 <= i < items.len() ==> (#[trigger] items[i]).alike(r[i]),
    decreases items,
{
    let mut r: Vec<DynSqVar> = Vec::new();
    let mut i: usize = 0;
    while i < items.len()
        invariant
            i <= items.len(),
            r.len() == i,
            forall|k: int| 0 <= k < i ==> (#[trigger] items[k]).alike(r[k]),
        decreases items.len() - i,
    {
        r.push(items[i].clone());
        i += 1;
    }
    r
}

impl Clone for SqInstance {
    fn clone(&self) -> (r: Self)
        ensures
            DynSqVar::Instance(*self).alike(DynSqVar::Instance(r)),
        decreases self,
    {
        SqInstance { this: copy_entries(&self.this) }
    }
}

impl Clone for DynSqVar {
    fn clone(&self) -> (r: Self)
        ensures
            self.alike(r),
        decreases self,
    {
        match self {
            DynSqVar::Null => DynSqVar::Null,
            DynSqVar::Integer(i) => DynSqVar::Integer(*i),
            DynSqVar::Float(f) => DynSqVar::Float(*f),
            DynSqVar::Bool(b) => DynSqVar::Bool(*b),
            DynSqVar::String(s) => DynSqVar::String(s.clone()),
            DynSqVar::Table(map) => DynSqVar::Table(copy_entries(map)),
            DynSqVar::Class(map) => DynSqVar::Class(copy_entries(map)),
            DynSqVar::Instance(obj) => DynSqVar::Instance(obj.clone()),
            DynSqVar::Array(items) => DynSqVar::Array(copy_items(items)),
            DynSqVar::Closure => DynSqVar::Closure,
            DynSqVar::NativeClosure => DynSqVar::NativeClosure,
            DynSqVar::Generator => DynSqVar::Generator,
            DynSqVar::UserData => DynSqVar::UserData,
            DynSqVar::UserPointer => DynSqVar::UserPointer,
            DynSqVar::Thread => DynSqVar::Thread,
            DynSqVar::FuncProto => DynSqVar::FuncProto,
            DynSqVar::WeakRef => DynSqVar::WeakRef,
        }
    }
}

/// A named local variable of one call frame.
#[derive(Clone, PartialEq, Eq, PartialOrd, Debug, Hash)]
pub struct SqLocalVar {
    pub name: String,
    pub val: DynSqVar,
}

/// One entry of the call stack.
#[derive(Clone, PartialEq, Eq, PartialOrd, Ord, Debug, Hash)]
pub struct SqStackInfo {
    pub funcname: Option<String>,
    pub src_file: Option<String>,
    pub line: Option<SqInteger>,
}

/// What the machine reports to its debug hook.
#[derive(Clone, PartialEq, Eq, PartialOrd, Ord, Debug, Hash)]
pub enum DebugEvent {
    /// A new line is about to run.
    Line(SqInteger),
    /// A function was entered: its name and, where known, its line.
    FnCall(String, Option<SqInteger>),
    /// A function returned: its name and, where known, its line.
    FnRet(String, Option<SqInteger>),
}

} // verus!
