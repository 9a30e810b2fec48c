//! The syntax of a field declaration, as far as a schema reads it: paths,
//! literals, the expressions given as attribute values, and attributes.

use crate::text::str_eq;
use crate::value::FieldType;
use vstd::prelude::*;
use vstd::string::*;

verus! {

/// One segment of a path.
#[derive(Debug)]
pub struct PathSegment {
    /// The segment's name.
    pub ident: String,
    /// Whether generic or parenthesised arguments follow the name.
    pub arguments: bool,
}

/// A path such as `min_version` or `std::i16::MAX`.
#[derive(Debug)]
pub struct Path {
    /// Whether the path begins with `::`.
    pub leading_colon: bool,
    /// The segments, in order.
    pub segments: Vec<PathSegment>,
}

/// An integer literal.
#[derive(Debug)]
pub struct LitInt {
    /// The literal's digits in base ten, without sign, separators or suffix.
    pub digits: String,
}

/// A string literal.
#[derive(Debug)]
pub struct LitStr {
    /// The text that the literal stands for.
    pub value: String,
}

/// A literal.
#[derive(Debug)]
pub enum Lit {
    /// A string literal.
    Str(LitStr),
    /// An integer literal.
    Int(LitInt),
    /// Any other literal, by its source text.
    Other(String),
}

/// An expression given as the value of an attribute.
#[derive(Debug)]
pub enum Expr {
    /// A literal.
    Lit(Lit),
    /// A negation sign in front of an operand.
    Unary(Box<Expr>),
    /// A path.
    Path(Path),
    /// Any other expression, by its source text.
    Other(String),
}

/// One entry inside the parentheses of an attribute: a path, and the
/// expression behind `=` where one is given.
#[derive(Debug)]
pub struct ParseNestedMeta {
    /// The entry's key.
    pub path: Path,
    /// The expression behind `=`, if there is one.
    pub value: Option<Expr>,
}

/// An attribute's list form, `path(entries)`.
#[derive(Debug)]
pub struct MetaList {
    /// The attribute's name.
    pub path: Path,
    /// The entries between the parentheses, in order.
    pub nested: Vec<Meta>,
}

/// An attribute's name-value form, `path = value`.
#[derive(Debug)]
pub struct MetaNameValue {
    /// The attribute's name.
    pub path: Path,
    /// The value behind `=`.
    pub value: Expr,
}

/// The content of an attribute.
#[derive(Debug)]
pub enum Meta {
    /// A bare path, as in `#[varint]`.
    Path(Path),
    /// A list, as in `#[fluvio(min_version = 1)]`.
    List(MetaList),
    /// A name and a value, as in `#[doc = "text"]`.
    NameValue(MetaNameValue),
}

/// An attribute on a field.
#[derive(Debug)]
pub struct Attribute {
    /// What stands between the brackets.
    pub meta: Meta,
}

/// The declaration of one field of a structure.
#[derive(Debug)]
pub struct Field {
    /// The field's name; a field of a tuple structure has none.
    pub ident: Option<String>,
    /// The field's type.
    pub ty: FieldType,
    /// The attributes on the field, in order.
    pub attrs: Vec<Attribute>,
}

impl PathSegment {
    /// A segment that is a bare name.
    pub fn new(ident: String) -> (r: PathSegment)
        ensures
            r.ident == ident,
            !r.arguments,
    {
        PathSegment { ident, arguments: false }
    }
}

impl Path {
    /// The path's single name, if the path is no more than that.
    pub open spec fn ident(&self) -> Option<Seq<char>> {
        if !self.leading_colon && self.segments@.len() == 1 && !self.segments@[0].arguments {
            Some(self.segments@[0].ident@)
        } else {
            None
        }
    }

    /// The path made of one bare name.
    pub fn from_ident(ident: String) -> (r: Path)
        ensures
            r.ident() == Some(ident@),
            !r.leading_colon,
            r.segments@ == seq![PathSegment { ident, arguments: false }],
    {
        let mut segments: Vec<PathSegment> = Vec::new();
        segments.push(PathSegment::new(ident));
        Path { leading_colon: false, segments }
    }

    /// The path's single name, if the path is no more than that.
    pub fn get_ident(&self) -> (r: Option<&String>)
        ensures
            r matches Some(name) ==> self.ident() == Some(name@) && *name
                == self.segments@[0].ident,
            r is None ==> self.ident() is None,
    {
        if !self.leading_colon && self.segments.len() == 1 && !self.segments[0].arguments {
            Some(&self.segments[0].ident)
        } else {
            None
        }
    }

    /// Whether the path is the single name `name`.
    pub fn is_ident(&self, name: &str) -> (r: bool)
        ensures
            r == (self.ident() == Some(name@)),
    {
        match self.get_ident() {
            Some(ident) => str_eq(ident.as_str(), name),
            None => false,
        }
    }
}

impl LitInt {
    /// The literal with the given base-ten digits.
    pub fn new(digits: String) -> (r: LitInt)
        ensures
            r.digits == digits,
    {
        LitInt { digits }
    }
}

impl LitStr {
    /// The literal that stands for `value`.
    pub fn new(value: String) -> (r: LitStr)
        ensures
            r.value == value,
    {
        LitStr { value }
    }
}

impl Meta {
    /// The attribute's name.
    pub open spec fn spec_path(&self) -> Path {
        match *self {
            Meta::Path(path) => path,
            Meta::List(list) => list.path,
            Meta::NameValue(pair) => pair.path,
        }
    }

    /// The attribute's name.
    pub fn path(&self) -> (r: &Path)
        ensures
            *r == self.spec_path(),
    {
        match self {
            Meta::Path(path) => path,
            Meta::List(list) => &list.path,
            Meta::NameValue(pair) => &pair.path,
        }
    }
}

impl Attribute {
    /// The attribute's name.
    pub fn path(&self) -> (r: &Path)
        ensures
            *r == self.meta.spec_path(),
    {
        self.meta.path()
    }
}

/// The names of `segments`, joined by `::`.
pub open spec fn segments_text(segments: Seq<PathSegment>) -> Seq<char>
    decreases segments.len(),
{
    if segments.len() == 0 {
        Seq::empty()
    } else if segments.len() == 1 {
        segments[0].ident@
    } else {
        segments_text(segments.drop_last()) + "::"@ + segments.last().ident@
    }
}

/// A path as text.
pub open spec fn path_text(path: Path) -> Seq<char> {
    if path.leading_colon {
        "::"@ + segments_text(path.segments@)
    } else {
        segments_text(path.segments@)
    }
}

/// A literal as text: a string literal between double quotes, any other as it is.
pub open spec fn lit_text(lit: Lit) -> Seq<char> {
    match lit {
        Lit::Str(l) => "\""@ + l.value@ + "\""@,
        Lit::Int(l) => l.digits@,
        Lit::Other(text) => text@,
    }
}

/// An expression as text.
pub open spec fn expr_text(expr: Expr) -> Seq<char>
    decreases expr,
{
    match expr {
        Expr::Lit(lit) => lit_text(lit),
        Expr::Unary(operand) => "-"@ + expr_text(*operand),
        Expr::Path(path) => path_text(path),
        Expr::Other(text) => text@,
    }
}

/// An attribute's value as text; nothing where there is no value.
pub open spec fn value_text(value: Option<Expr>) -> Seq<char> {
    match value {
        Some(expr) => expr_text(expr),
        None => Seq::empty(),
    }
}

impl Path {
    /// The path as text.
    pub fn to_text(&self) -> (r: String)
        ensures
            r@ == path_text(*self),
    {
        let mut out = String::new();
        if self.leading_colon {
            out.append("::");
        }
        let ghost head = out@;
        let n = self.segments.len();
        let mut i: usize = 0;
        while i < n
            invariant
                n == self.segments@.len(),
                i <= n,
                out@ == head + segments_text(self.segments@.take(i as int)),
            decreases n - i,
        {
            proof {
                let next = self.segments@.take(i + 1);
                assert(next.drop_last() =~= self.segments@.take(i as int));
            }
            if i > 0 {
                out.append("::");
            }
            out.append(self.segments[i].ident.as_str());
            i = i + 1;
        }
        assert(self.segments@.take(n as int) =~= self.segments@);
        out
    }
}

impl Lit {
    /// The literal as text.
    pub fn to_text(&self) -> (r: String)
        ensures
            r@ == lit_text(*self),
    {
        match self {
            Lit::Str(l) => {
                let mut out = String::from_str("\"");
                out.append(l.value.as_str());
                out.append("\"");
                out
            },
            Lit::Int(l) => l.digits.clone(),
            Lit::Other(text) => text.clone(),
        }
    }
}

impl Expr {
    /// The expression as text.
    pub fn to_text(&self) -> (r: String)
        ensures
            r@ == expr_text(*self),
        decreases *self,
    {
        match self {
            Expr::Lit(lit) => lit.to_text(),
            Expr::Unary(operand) => {
                let mut out = String::from_str("-");
                let inner = operand.to_text();
                out.append(inner.as_str());
                out
            },
            Expr::Path(path) => path.to_text(),
            Expr::Other(text) => text.clone(),
        }
    }
}

} // verus!
