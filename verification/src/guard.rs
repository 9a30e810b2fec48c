//! What the generated guard of a field means: the numbers that its
//! expressions stand for, the test and the assertion over them, and that
//! they agree with the verdict of the codec.

use crate::bound::{effective_min, lookup, SymbolTable, VersionBound};
use crate::codec::presence;
use crate::decimal::{bounded_decimal, lemma_signed_text_value, signed_text};
use crate::error::CodecFault;
use crate::prop::{bound_text, PropAttrsView, VersionAssertion, VersionCheck};
use crate::schema::schema_of;
use crate::util::ends_with_call;
use crate::validate::{bounds_fault, range_fault};
use crate::value::FieldType;
use vstd::prelude::*;

verus! {

/// Whether `text` ends in the mark of a number of sixteen bits, `_i16`.
pub open spec fn ends_with_width(text: Seq<char>) -> bool {
    text.len() >= 4 && text.subrange(text.len() - 4, text.len() as int) == "_i16"@
}

/// The number that `text` states in front of the mark `_i16`, if it states one.
pub open spec fn marked_number(text: Seq<char>) -> Option<int> {
    if ends_with_width(text) {
        bounded_decimal(text.take(text.len() - 4), i16::MIN as int, i16::MAX as int)
    } else {
        None
    }
}

/// The number that an expression of generated code stands for: a call
/// `name()` for what the function returns, a number marked `_i16` for
/// itself, and any other text for the constant of that name.
pub open spec fn expression_value(text: Seq<char>, symbols: SymbolTable) -> Option<i16> {
    if ends_with_call(text) {
        lookup(symbols.functions@, text.take(text.len() - 2))
    } else {
        match marked_number(text) {
            Some(v) => Some(v as i16),
            None => lookup(symbols.constants@, text),
        }
    }
}

/// Whether a bound reads in generated code as what it is: the name of a
/// constant must not look like a call or like a marked number.
pub open spec fn reads_as_written(bound: VersionBound) -> bool {
    match bound {
        VersionBound::ConstRef(name) => !ends_with_call(name) && marked_number(name) is None,
        _ => true,
    }
}

impl VersionAssertion {
    /// Whether the assertion holds, given what its expressions stand for:
    /// with a maximum, that the minimum is not above it; without one, that
    /// the minimum is not negative. None where an expression stands for
    /// no number.
    pub open spec fn holds(self, symbols: SymbolTable) -> Option<bool> {
        match expression_value(self.min@, symbols) {
            Some(min) => match self.max {
                Some(text) => match expression_value(text@, symbols) {
                    Some(max) => Some(!(min > max)),
                    None => None,
                },
                None => Some(!(min < 0)),
            },
            None => None,
        }
    }
}

impl VersionCheck {
    /// Whether the guarded code runs at `version`, given what the
    /// expressions of the test stand for: with a maximum the test is
    /// `min <= version <= max`, without one `version >= min`. None where an
    /// expression stands for no number.
    pub open spec fn runs(self, symbols: SymbolTable, version: i16) -> Option<bool> {
        match expression_value(self.min@, symbols) {
            Some(min) => match self.max {
                Some(text) => match expression_value(text@, symbols) {
                    Some(max) => Some(min <= version && version <= max),
                    None => None,
                },
                None => Some(version >= min),
            },
            None => None,
        }
    }
}

/// The expression of a bound stands for the number that the bound resolves to.
pub proof fn lemma_bound_text_value(bound: VersionBound, symbols: SymbolTable)
    requires
        reads_as_written(bound),
    ensures
        expression_value(bound_text(Some(bound)), symbols) == symbols.resolve(bound),
{
    reveal_strlit("_i16");
    reveal_strlit("()");
    let text = bound_text(Some(bound));
    match bound {
        VersionBound::Constant(v) => {
            let digits = signed_text(v as int);
            assert(text.subrange(text.len() - 4, text.len() as int) =~= "_i16"@);
            assert(text.take(text.len() - 4) =~= digits);
            lemma_signed_text_value(v as int);
            assert(text[text.len() - 1] == '6');
        },
        VersionBound::FunctionRef(name) => {
            assert(text[text.len() - 2] == '(');
            assert(text[text.len() - 1] == ')');
            assert(text.take(text.len() - 2) =~= name);
        },
        VersionBound::ConstRef(name) => {},
    }
}

/// The expression of a missing minimum is that of the number zero.
pub proof fn lemma_missing_min_is_zero()
    ensures
        bound_text(None) == bound_text(Some(VersionBound::Constant(0))),
{
    reveal_strlit("0_i16");
    reveal_strlit("_i16");
    assert(bound_text(None) =~= bound_text(Some(VersionBound::Constant(0))));
}

/// Whether the bounds that attributes state read in generated code as
/// what they are.
pub open spec fn bounds_read_as_written(attrs: PropAttrsView) -> bool {
    reads_as_written(effective_min(attrs.min_version)) && match attrs.max_version {
        Some(bound) => reads_as_written(bound),
        None => true,
    }
}

/// The guard of a field means what the codec does with the field: where
/// the codec gives a verdict at `version`, the assertion of the guard
/// holds and its test gives the same verdict; where the codec refuses the
/// bounds as out of order, the assertion fails; and where a bound does
/// not resolve, an expression of the guard stands for no number.
pub proof fn lemma_guard_is_presence(
    check: VersionCheck,
    field: Option<Seq<char>>,
    ty: FieldType,
    attrs: PropAttrsView,
    field_stream: Seq<char>,
    trace: bool,
    symbols: SymbolTable,
    version: i16,
)
    requires
        check.is_guard_of(field, attrs, field_stream, trace),
        bounds_read_as_written(attrs),
    ensures
        match presence(schema_of(field, ty, attrs), symbols, version) {
            Ok(present) => check.validation.holds(symbols) == Some(true) && check.runs(
                symbols,
                version,
            ) == Some(present),
            Err(CodecFault::InvalidBounds(_)) => check.validation.holds(symbols) == Some(false),
            Err(_) => check.validation.holds(symbols) is None && check.runs(symbols, version)
                is None,
        },
{
    lemma_missing_min_is_zero();
    lemma_bound_text_value(effective_min(attrs.min_version), symbols);
    match attrs.max_version {
        Some(bound) => {
            lemma_bound_text_value(bound, symbols);
        },
        None => {},
    }
}

/// The assertion of generated code on bounds that are numbers fails
/// exactly where the validation of the schema finds a fault in them.
pub proof fn lemma_assertion_is_validation(
    assertion: VersionAssertion,
    min: Option<VersionBound>,
    max: Option<VersionBound>,
    field: Option<Seq<char>>,
    symbols: SymbolTable,
)
    requires
        assertion.is_on(min, max, field),
        effective_min(min) is Constant,
        max matches Some(bound) ==> bound is Constant,
    ensures
        assertion.holds(symbols) == Some(bounds_fault(effective_min(min), max, field) is None),
{
    lemma_missing_min_is_zero();
    lemma_bound_text_value(effective_min(min), symbols);
    match max {
        Some(bound) => {
            lemma_bound_text_value(bound, symbols);
        },
        None => {},
    }
}

/// The assertion of generated code fails exactly where the numbers that
/// the bounds resolve to are out of order.
pub proof fn lemma_assertion_is_range_check(
    assertion: VersionAssertion,
    attrs: PropAttrsView,
    field: Option<Seq<char>>,
    symbols: SymbolTable,
    min: i16,
    max: Option<i16>,
)
    requires
        assertion.is_on(attrs.min_version, attrs.max_version, field),
        bounds_read_as_written(attrs),
        symbols.resolve(effective_min(attrs.min_version)) == Some(min),
        match attrs.max_version {
            Some(bound) => symbols.resolve(bound) == max && max is Some,
            None => max is None,
        },
    ensures
        assertion.holds(symbols) == Some(range_fault(min, max, field) is None),
{
    lemma_missing_min_is_zero();
    lemma_bound_text_value(effective_min(attrs.min_version), symbols);
    match attrs.max_version {
        Some(bound) => {
            lemma_bound_text_value(bound, symbols);
        },
        None => {},
    }
}

} // verus!
