//! Version bounds: the values that say from which protocol version on, and up
//! to which, a field is on the wire.

use crate::schema::{FieldSchemaView, StructureSchema};
use vstd::prelude::*;

verus! {

/// A version bound as a schema states it.
pub enum VersionBound {
    /// A version number.
    Constant(i16),
    /// The name of a function without arguments that returns the number.
    FunctionRef(Seq<char>),
    /// The name of a constant that holds the number.
    ConstRef(Seq<char>),
}

/// A version bound as an attribute gives it: a constant's name, a function's
/// name, or a number.
#[derive(Debug)]
pub enum PropAttrsType {
    /// The name of a constant.
    Lit(String),
    /// The name of a function without arguments.
    Fn(String),
    /// A version number.
    Int(i16),
}

impl View for PropAttrsType {
    type V = VersionBound;

    open spec fn view(&self) -> VersionBound {
        match *self {
            PropAttrsType::Lit(name) => VersionBound::ConstRef(name@),
            PropAttrsType::Fn(name) => VersionBound::FunctionRef(name@),
            PropAttrsType::Int(value) => VersionBound::Constant(value),
        }
    }
}

/// The view of a bound that may be missing.
pub open spec fn bound_view(bound: Option<PropAttrsType>) -> Option<VersionBound> {
    match bound {
        Some(b) => Some(b@),
        None => None,
    }
}

/// The minimum that a schema means: zero where none is stated.
pub open spec fn effective_min(min: Option<VersionBound>) -> VersionBound {
    match min {
        Some(b) => b,
        None => VersionBound::Constant(0),
    }
}

impl Clone for PropAttrsType {
    fn clone(&self) -> (r: PropAttrsType)
        ensures
            r@ == self@,
    {
        match self {
            PropAttrsType::Lit(name) => PropAttrsType::Lit(name.clone()),
            PropAttrsType::Fn(name) => PropAttrsType::Fn(name.clone()),
            PropAttrsType::Int(value) => PropAttrsType::Int(*value),
        }
    }
}

impl VersionBound {
    /// The name that the bound refers to; a number refers to none.
    pub open spec fn name(self) -> Seq<char> {
        match self {
            VersionBound::Constant(_) => Seq::empty(),
            VersionBound::FunctionRef(name) => name,
            VersionBound::ConstRef(name) => name,
        }
    }
}

/// A name and the number it stands for.
#[derive(Debug)]
pub struct Symbol {
    pub name: String,
    pub value: i16,
}

/// The constants and the functions that bounds may refer to, and the
/// structures that fields may hold. A function has no arguments and is known
/// by the number it returns; a structure is known by its place among the
/// structures, and its own fields may hold only structures that stand
/// before it.
#[derive(Debug)]
pub struct SymbolTable {
    pub constants: Vec<Symbol>,
    pub functions: Vec<Symbol>,
    pub structures: Vec<StructureSchema>,
}

/// The number of the first symbol named `name`.
pub open spec fn lookup(symbols: Seq<Symbol>, name: Seq<char>) -> Option<i16>
    decreases symbols.len(),
{
    if symbols.len() == 0 {
        None
    } else if symbols[0].name@ == name {
        Some(symbols[0].value)
    } else {
        lookup(symbols.drop_first(), name)
    }
}

/// Looks a name up among symbols.
fn find_symbol(symbols: &Vec<Symbol>, name: &String) -> (r: Option<i16>)
    ensures
        r == lookup(symbols@, name@),
{
    let n = symbols.len();
    let mut i: usize = 0;
    assert(symbols@.skip(0) =~= symbols@);
    while i < n
        invariant
            n == symbols@.len(),
            i <= n,
            lookup(symbols@, name@) == lookup(symbols@.skip(i as int), name@),
        decreases n - i,
    {
        proof {
            assert(symbols@.skip(i as int).drop_first() =~= symbols@.skip(i + 1));
        }
        if symbols[i].name == *name {
            return Some(symbols[i].value);
        }
        i = i + 1;
    }
    None
}

impl SymbolTable {
    /// The number that a bound stands for: a number stands for itself, a
    /// name for what the table holds under it; none where the table does
    /// not hold the name.
    pub open spec fn resolve(&self, bound: VersionBound) -> Option<i16> {
        match bound {
            VersionBound::Constant(value) => Some(value),
            VersionBound::ConstRef(name) => lookup(self.constants@, name),
            VersionBound::FunctionRef(name) => lookup(self.functions@, name),
        }
    }

    /// The fields of the structure at place `id`.
    pub open spec fn structure(&self, id: usize) -> Seq<FieldSchemaView> {
        self.structures@[id as int]@
    }

    /// Whether a field met below `level` may hold the structure at place
    /// `id`: the table has it, and it stands before `level`.
    pub open spec fn holds(&self, id: usize, level: nat) -> bool {
        id < level && id < self.structures@.len()
    }

    /// A table that holds nothing.
    pub fn new() -> (r: SymbolTable)
        ensures
            r.constants@.len() == 0,
            r.functions@.len() == 0,
            r.structures@.len() == 0,
    {
        SymbolTable { constants: Vec::new(), functions: Vec::new(), structures: Vec::new() }
    }

    /// Adds a structure and gives its place, by which the type of a field
    /// names it. The structures that stand before it keep their places.
    pub fn define_structure(&mut self, schema: StructureSchema) -> (id: usize)
        ensures
            id == old(self).structures@.len(),
            final(self).structures@ == old(self).structures@.push(schema),
            final(self).constants@ == old(self).constants@,
            final(self).functions@ == old(self).functions@,
    {
        let id = self.structures.len();
        self.structures.push(schema);
        id
    }

    /// Adds a constant. An earlier constant of the same name stays in force.
    pub fn define_constant(&mut self, name: String, value: i16)
        ensures
            final(self).constants@ == old(self).constants@.push(Symbol { name, value }),
            final(self).functions@ == old(self).functions@,
            final(self).structures@ == old(self).structures@,
    {
        self.constants.push(Symbol { name, value });
    }

    /// Adds a function that returns `value`. An earlier function of the
    /// same name stays in force.
    pub fn define_function(&mut self, name: String, value: i16)
        ensures
            final(self).functions@ == old(self).functions@.push(Symbol { name, value }),
            final(self).constants@ == old(self).constants@,
            final(self).structures@ == old(self).structures@,
    {
        self.functions.push(Symbol { name, value });
    }

    /// The number that a bound stands for.
    pub fn resolve_bound(&self, bound: &PropAttrsType) -> (r: Option<i16>)
        ensures
            r == self.resolve(bound@),
    {
        match bound {
            PropAttrsType::Int(value) => Some(*value),
            PropAttrsType::Lit(name) => find_symbol(&self.constants, name),
            PropAttrsType::Fn(name) => find_symbol(&self.functions, name),
        }
    }
}

} // verus!
