//! The properties of a field: what its attributes say of versions, default,
//! encoding and strictness.

use crate::ast::{path_text, Attribute, Expr, Field, Lit, Meta};
use crate::bound::{bound_view, PropAttrsType, VersionBound};
use crate::decimal::{format_signed, signed_text};
use crate::error::{name_view, own_name, str_view, Expected, SchemaError, SchemaFault};
use crate::util::{
    find_attr, first_attr, get_attr_type_from_expr, invalid_expression, invalid_value, value_bound,
};
use crate::validate::ref_bound_view;
use crate::value::FieldType;
use vstd::prelude::*;
use vstd::string::*;

verus! {

/// What the attributes of a field say.
#[derive(Debug)]
pub struct PropAttrs {
    /// Whether integers of the field are written in the variable-length form.
    pub varint: bool,
    /// The first version that has the field; zero where none is stated.
    pub min_version: Option<PropAttrsType>,
    /// The last version that has the field; none where it was never removed.
    pub max_version: Option<PropAttrsType>,
    /// The text of the value that the field takes where it is not on the wire.
    pub default_value: Option<String>,
    /// Whether a reader may do without the field.
    pub ignorable: Option<bool>,
}

/// What the attributes of a field say, as mathematics sees it.
pub struct PropAttrsView {
    pub varint: bool,
    pub min_version: Option<VersionBound>,
    pub max_version: Option<VersionBound>,
    pub default_value: Option<Seq<char>>,
    pub ignorable: Option<bool>,
}

impl View for PropAttrs {
    type V = PropAttrsView;

    open spec fn view(&self) -> PropAttrsView {
        PropAttrsView {
            varint: self.varint,
            min_version: bound_view(self.min_version),
            max_version: bound_view(self.max_version),
            default_value: name_view(self.default_value),
            ignorable: self.ignorable,
        }
    }
}

/// The properties of a field without attributes.
pub open spec fn no_attrs() -> PropAttrsView {
    PropAttrsView {
        varint: false,
        min_version: None,
        max_version: None,
        default_value: None,
        ignorable: None,
    }
}

impl Default for PropAttrs {
    fn default() -> (r: PropAttrs)
        ensures
            r@ == no_attrs(),
    {
        PropAttrs {
            varint: false,
            min_version: None,
            max_version: None,
            default_value: None,
            ignorable: None,
        }
    }
}

/// A remark on a schema that is no error.
#[derive(Debug)]
pub enum SchemaWarning {
    /// An entry of the `fluvio` attribute has a key that means nothing here.
    UnrecognizedAttribute {
        /// The key, as text.
        key: String,
    },
}

impl View for SchemaWarning {
    type V = Seq<char>;

    open spec fn view(&self) -> Seq<char> {
        match *self {
            SchemaWarning::UnrecognizedAttribute { key } => key@,
        }
    }
}

/// The keys that a list of warnings names, in order.
pub open spec fn warning_views(warnings: Seq<SchemaWarning>) -> Seq<Seq<char>> {
    Seq::new(warnings.len(), |i: int| warnings[i]@)
}

/// How far the attributes have been read: the properties found and the
/// unrecognized keys met so far.
pub struct Reading {
    pub attrs: PropAttrsView,
    pub warnings: Seq<Seq<char>>,
}

/// The expression behind `=` in an entry, if the entry has one.
pub open spec fn entry_value(entry: Meta) -> Option<Expr> {
    match entry {
        Meta::NameValue(pair) => Some(pair.value),
        _ => None,
    }
}

/// The text that the value of `default` stands for, or what was expected in
/// place of the value.
pub open spec fn default_text(value: Option<Expr>) -> Result<Seq<char>, Expected> {
    match value {
        Some(Expr::Lit(Lit::Str(lit))) => Ok(lit.value@),
        Some(Expr::Lit(_)) => Err(Expected::Str),
        _ => Err(Expected::Lit),
    }
}

/// The fault of a key that is given a second time.
pub open spec fn duplicate(key: Seq<char>) -> SchemaFault {
    SchemaFault::DuplicateAttribute { attribute: key }
}

/// Reads one entry of a `fluvio` attribute. Each of `min_version`,
/// `max_version`, `default` and `ignorable` may be given once; any other
/// key is remarked on and passed over.
pub open spec fn read_entry(state: Reading, entry: Meta) -> Result<Reading, SchemaFault> {
    let key = entry.spec_path().ident();
    let value = entry_value(entry);
    let attrs = state.attrs;
    if key == Some("min_version"@) {
        if attrs.min_version is Some {
            Err(duplicate("min_version"@))
        } else {
            match value_bound(value) {
                Ok(bound) => Ok(
                    Reading {
                        attrs: PropAttrsView {
                            varint: attrs.varint,
                            min_version: Some(bound),
                            max_version: attrs.max_version,
                            default_value: attrs.default_value,
                            ignorable: attrs.ignorable,
                        },
                        warnings: state.warnings,
                    },
                ),
                Err(expected) => Err(invalid_value("min_version"@, value, expected)),
            }
        }
    } else if key == Some("max_version"@) {
        if attrs.max_version is Some {
            Err(duplicate("max_version"@))
        } else {
            match value_bound(value) {
                Ok(bound) => Ok(
                    Reading {
                        attrs: PropAttrsView {
                            varint: attrs.varint,
                            min_version: attrs.min_version,
                            max_version: Some(bound),
                            default_value: attrs.default_value,
                            ignorable: attrs.ignorable,
                        },
                        warnings: state.warnings,
                    },
                ),
                Err(expected) => Err(invalid_value("max_version"@, value, expected)),
            }
        }
    } else if key == Some("default"@) {
        if attrs.default_value is Some {
            Err(duplicate("default"@))
        } else {
            match default_text(value) {
                Ok(text) => Ok(
                    Reading {
                        attrs: PropAttrsView {
                            varint: attrs.varint,
                            min_version: attrs.min_version,
                            max_version: attrs.max_version,
                            default_value: Some(text),
                            ignorable: attrs.ignorable,
                        },
                        warnings: state.warnings,
                    },
                ),
                Err(expected) => Err(invalid_value("default"@, value, expected)),
            }
        }
    } else if key == Some("ignorable"@) {
        if attrs.ignorable is Some {
            Err(duplicate("ignorable"@))
        } else if !(entry is Path) {
            Err(invalid_value("ignorable"@, value, Expected::Flag))
        } else {
            Ok(
                Reading {
                    attrs: PropAttrsView {
                        varint: attrs.varint,
                        min_version: attrs.min_version,
                        max_version: attrs.max_version,
                        default_value: attrs.default_value,
                        ignorable: Some(true),
                    },
                    warnings: state.warnings,
                },
            )
        }
    } else {
        Ok(Reading { attrs, warnings: state.warnings.push(path_text(entry.spec_path())) })
    }
}

/// Reading an entry leaves the warnings that were there in front.
pub proof fn lemma_read_entry_keeps(state: Reading, entry: Meta)
    ensures
        read_entry(state, entry) matches Ok(next) ==> next.warnings.len() >= state.warnings.len()
            && next.warnings.take(state.warnings.len() as int) == state.warnings,
{
}

/// Reads the entries of one attribute in order, up to the first fault.
pub open spec fn read_entries(state: Reading, entries: Seq<Meta>) -> Result<Reading, SchemaFault>
    decreases entries.len(),
{
    if entries.len() == 0 {
        Ok(state)
    } else {
        match read_entry(state, entries[0]) {
            Ok(next) => read_entries(next, entries.drop_first()),
            Err(fault) => Err(fault),
        }
    }
}

/// The entries that an attribute holds for a schema: those of a list named
/// `fluvio`, and none of an attribute of another name. An attribute named
/// `fluvio` that is no list is a fault.
pub open spec fn schema_entries(attr: Attribute) -> Result<Seq<Meta>, SchemaFault> {
    named_entries(attr, "fluvio"@)
}

/// The entries of an attribute that is a list named `name`, and none of an
/// attribute of another name. An attribute of that name that is no list is
/// a fault.
pub open spec fn named_entries(attr: Attribute, name: Seq<char>) -> Result<Seq<Meta>, SchemaFault> {
    if attr.meta.spec_path().ident() == Some(name) {
        match attr.meta {
            Meta::List(list) => Ok(list.nested@),
            _ => Err(invalid_value(name, entry_value(attr.meta), Expected::List)),
        }
    } else {
        Ok(Seq::empty())
    }
}

/// The expression behind `=` in an entry, if the entry has one.
pub fn entry_expr(entry: &Meta) -> (r: Option<&Expr>)
    ensures
        crate::util::deref_value(r) == entry_value(*entry),
{
    match entry {
        Meta::NameValue(pair) => Some(&pair.value),
        _ => None,
    }
}

/// Reads the attributes of a field in order, up to the first fault.
pub open spec fn read_attrs(state: Reading, attrs: Seq<Attribute>) -> Result<Reading, SchemaFault>
    decreases attrs.len(),
{
    if attrs.len() == 0 {
        Ok(state)
    } else {
        match schema_entries(attrs[0]) {
            Ok(entries) => match read_entries(state, entries) {
                Ok(next) => read_attrs(next, attrs.drop_first()),
                Err(fault) => Err(fault),
            },
            Err(fault) => Err(fault),
        }
    }
}

/// Reading entries leaves the warnings that were there in front.
pub proof fn lemma_read_entries_keep(state: Reading, entries: Seq<Meta>)
    ensures
        read_entries(state, entries) matches Ok(next) ==> next.warnings.len()
            >= state.warnings.len() && next.warnings.take(state.warnings.len() as int)
            == state.warnings,
    decreases entries.len(),
{
    if entries.len() == 0 {
    } else {
        match read_entry(state, entries[0]) {
            Ok(mid) => {
                lemma_read_entries_keep(mid, entries.drop_first());
            },
            Err(_) => {},
        }
    }
}

/// Reading attributes leaves the warnings that were there in front.
pub proof fn lemma_read_attrs_keep(state: Reading, attrs: Seq<Attribute>)
    ensures
        read_attrs(state, attrs) matches Ok(next) ==> next.warnings.len() >= state.warnings.len()
            && next.warnings.take(state.warnings.len() as int) == state.warnings,
    decreases attrs.len(),
{
    if attrs.len() == 0 {
    } else {
        match schema_entries(attrs[0]) {
            Ok(entries) => {
                lemma_read_entries_keep(state, entries);
                match read_entries(state, entries) {
                    Ok(mid) => {
                        lemma_read_attrs_keep(mid, attrs.drop_first());
                    },
                    Err(_) => {},
                }
            },
            Err(_) => {},
        }
    }
}

/// The text that the first `default` among the entries states, as it is
/// written; none where no entry has that key.
pub open spec fn stated_default(entries: Seq<Meta>) -> Option<Seq<char>>
    decreases entries.len(),
{
    if entries.len() == 0 {
        None
    } else if entries[0].spec_path().ident() == Some("default"@) {
        match default_text(entry_value(entries[0])) {
            Ok(text) => Some(text),
            Err(_) => None,
        }
    } else {
        stated_default(entries.drop_first())
    }
}

/// The text that the first `default` among the attributes of a field
/// states, as it is written; none where no `fluvio` attribute has that key.
pub open spec fn declared_default(attrs: Seq<Attribute>) -> Option<Seq<char>>
    decreases attrs.len(),
{
    if attrs.len() == 0 {
        None
    } else {
        let here = match schema_entries(attrs[0]) {
            Ok(entries) => stated_default(entries),
            Err(_) => None,
        };
        match here {
            Some(text) => Some(text),
            None => declared_default(attrs.drop_first()),
        }
    }
}

/// The default that was found before, or else the one that is found now.
pub open spec fn default_so_far(before: Option<Seq<char>>, now: Option<Seq<char>>) -> Option<
    Seq<char>,
> {
    match before {
        Some(text) => Some(text),
        None => now,
    }
}

/// Reading one entry sets the default to the text of a `default` entry,
/// which must be the first of its key, and leaves it alone otherwise.
pub proof fn lemma_read_entry_default(state: Reading, entry: Meta)
    ensures
        read_entry(state, entry) matches Ok(next) ==> if entry.spec_path().ident() == Some(
            "default"@,
        ) {
            state.attrs.default_value is None && default_text(entry_value(entry)) is Ok
                && next.attrs.default_value == Some(default_text(entry_value(entry))->Ok_0)
        } else {
            next.attrs.default_value == state.attrs.default_value
        },
{
    reveal_strlit("default");
    reveal_strlit("min_version");
    reveal_strlit("max_version");
    assert("default"@.len() != "min_version"@.len());
    assert("default"@.len() != "max_version"@.len());
}

/// Reading entries hands the text of their `default` on unchanged.
pub proof fn lemma_read_entries_default(state: Reading, entries: Seq<Meta>)
    ensures
        read_entries(state, entries) matches Ok(next) ==> next.attrs.default_value
            == default_so_far(state.attrs.default_value, stated_default(entries)),
    decreases entries.len(),
{
    if entries.len() > 0 {
        lemma_read_entry_default(state, entries[0]);
        match read_entry(state, entries[0]) {
            Ok(mid) => {
                lemma_read_entries_default(mid, entries.drop_first());
            },
            Err(_) => {},
        }
    }
}

/// Reading attributes hands the text of their `default` on unchanged.
pub proof fn lemma_read_attrs_default(state: Reading, attrs: Seq<Attribute>)
    ensures
        read_attrs(state, attrs) matches Ok(next) ==> next.attrs.default_value == default_so_far(
            state.attrs.default_value,
            declared_default(attrs),
        ),
    decreases attrs.len(),
{
    if attrs.len() > 0 {
        match schema_entries(attrs[0]) {
            Ok(entries) => {
                lemma_read_entries_default(state, entries);
                match read_entries(state, entries) {
                    Ok(mid) => {
                        lemma_read_attrs_default(mid, attrs.drop_first());
                    },
                    Err(_) => {},
                }
            },
            Err(_) => {},
        }
    }
}

/// The default that the attributes of a field come to is the text of the
/// `default` entry among them, as it is written; and none where there is
/// no such entry.
pub proof fn lemma_default_is_handed_on(attrs: Seq<Attribute>, warnings: Seq<Seq<char>>)
    ensures
        props_of(attrs, warnings) matches Ok(reading) ==> reading.attrs.default_value
            == declared_default(attrs),
{
    lemma_read_attrs_default(
        Reading {
            attrs: PropAttrsView {
                varint: first_attr(attrs, "varint"@) is Some,
                min_version: None,
                max_version: None,
                default_value: None,
                ignorable: None,
            },
            warnings,
        },
        attrs,
    );
}

/// What the attributes of a field say, with the unrecognized keys added to
/// `warnings`; or the first fault among them.
pub open spec fn props_of(attrs: Seq<Attribute>, warnings: Seq<Seq<char>>) -> Result<
    Reading,
    SchemaFault,
> {
    read_attrs(
        Reading {
            attrs: PropAttrsView {
                varint: first_attr(attrs, "varint"@) is Some,
                min_version: None,
                max_version: None,
                default_value: None,
                ignorable: None,
            },
            warnings,
        },
        attrs,
    )
}

impl PropAttrs {
    /// The state of reading that these properties and warnings stand for.
    pub open spec fn reading(&self, warnings: Seq<SchemaWarning>) -> Reading {
        Reading { attrs: self@, warnings: warning_views(warnings) }
    }

    /// Reads one entry into the properties.
    fn read_entry(&mut self, entry: &Meta, warnings: &mut Vec<SchemaWarning>) -> (r: Result<
        (),
        SchemaError,
    >)
        ensures
            match read_entry(old(self).reading(old(warnings)@), *entry) {
                Ok(next) => r is Ok && final(self).reading(final(warnings)@) == next,
                Err(fault) => r matches Err(e) && e@ == fault && final(warnings)@
                    == old(warnings)@,
            },
    {
        let path = entry.path();
        let value: Option<&Expr> = match entry {
            Meta::NameValue(pair) => Some(&pair.value),
            _ => None,
        };
        if path.is_ident("min_version") {
            if self.min_version.is_some() {
                return Err(SchemaError::DuplicateAttribute { attribute: "min_version".to_owned() });
            }
            let bound = bound_from_value("min_version", value)?;
            self.min_version = Some(bound);
            Ok(())
        } else if path.is_ident("max_version") {
            if self.max_version.is_some() {
                return Err(SchemaError::DuplicateAttribute { attribute: "max_version".to_owned() });
            }
            let bound = bound_from_value("max_version", value)?;
            self.max_version = Some(bound);
            Ok(())
        } else if path.is_ident("default") {
            if self.default_value.is_some() {
                return Err(SchemaError::DuplicateAttribute { attribute: "default".to_owned() });
            }
            match value {
                Some(Expr::Lit(Lit::Str(lit))) => {
                    self.default_value = Some(lit.value.clone());
                    Ok(())
                },
                Some(Expr::Lit(_)) => Err(invalid_expression("default", value, Expected::Str)),
                _ => Err(invalid_expression("default", value, Expected::Lit)),
            }
        } else if path.is_ident("ignorable") {
            if self.ignorable.is_some() {
                return Err(SchemaError::DuplicateAttribute { attribute: "ignorable".to_owned() });
            }
            match entry {
                Meta::Path(_) => {
                    self.ignorable = Some(true);
                    Ok(())
                },
                _ => Err(invalid_expression("ignorable", value, Expected::Flag)),
            }
        } else {
            let ghost before = warnings@;
            let warning = SchemaWarning::UnrecognizedAttribute { key: path.to_text() };
            warnings.push(warning);
            assert(warning_views(warnings@) =~= warning_views(before).push(
                path_text(entry.spec_path()),
            ));
            Ok(())
        }
    }

    /// Reads the attributes of a field.
    ///
    /// A bare `varint` attribute asks for the variable-length form. Each
    /// `fluvio` attribute must be a list, and its entries are read in
    /// order: `min_version` and `max_version` take a bound, `default` a
    /// string literal, whose text is kept as it is written, and `ignorable`
    /// stands alone. A key given twice is an error; a key that is none of
    /// these is added to `warnings` and passed over.
    pub fn from_ast(attrs: &[Attribute], warnings: &mut Vec<SchemaWarning>) -> (r: Result<
        PropAttrs,
        SchemaError,
    >)
        ensures
            match props_of(attrs@, warning_views(old(warnings)@)) {
                Ok(reading) => r matches Ok(props) && props@ == reading.attrs && warning_views(
                    final(warnings)@,
                ) == reading.warnings,
                Err(fault) => r matches Err(e) && e@ == fault && warning_views(final(warnings)@)
                    == warning_views(old(warnings)@),
            },
            r matches Ok(props) ==> props@.default_value == declared_default(attrs@),
    {
        proof {
            lemma_default_is_handed_on(attrs@, warning_views(warnings@));
        }
        let kept = warnings.len();
        let mut prop_attrs = PropAttrs::default();
        prop_attrs.varint = find_attr(attrs, "varint").is_some();
        let ghost goal = props_of(attrs@, warning_views(warnings@));
        let n = attrs.len();
        let mut i: usize = 0;
        assert(attrs@.skip(0) =~= attrs@);
        while i < n
            invariant
                n == attrs@.len(),
                i <= n,
                kept == old(warnings)@.len(),
                warnings@.len() >= kept,
                warning_views(warnings@).take(kept as int) == warning_views(old(warnings)@),
                goal == props_of(attrs@, warning_views(old(warnings)@)),
                goal == read_attrs(prop_attrs.reading(warnings@), attrs@.skip(i as int)),
            decreases n - i,
        {
            proof {
                assert(attrs@.skip(i as int).drop_first() =~= attrs@.skip(i + 1));
            }
            if attrs[i].meta.path().is_ident("fluvio") {
                let list = match &attrs[i].meta {
                    Meta::List(list) => list,
                    other => {
                        warnings.truncate(kept);
                        return Err(
                            invalid_expression("fluvio", entry_expr(other), Expected::List),
                        );
                    },
                };
                let ghost entries = list.nested@;
                let ghost rest = attrs@.skip(i + 1);
                let m = list.nested.len();
                let mut j: usize = 0;
                assert(entries.skip(0) =~= entries);
                while j < m
                    invariant
                        m == entries.len(),
                        entries == list.nested@,
                        j <= m,
                        kept == old(warnings)@.len(),
                        warnings@.len() >= kept,
                        warning_views(warnings@).take(kept as int) == warning_views(
                            old(warnings)@,
                        ),
                        goal == props_of(attrs@, warning_views(old(warnings)@)),
                        goal == match read_entries(
                            prop_attrs.reading(warnings@),
                            entries.skip(j as int),
                        ) {
                            Ok(next) => read_attrs(next, rest),
                            Err(fault) => Err(fault),
                        },
                    decreases m - j,
                {
                    proof {
                        assert(entries.skip(j as int).drop_first() =~= entries.skip(j + 1));
                    }
                    let ghost before = prop_attrs.reading(warnings@);
                    match prop_attrs.read_entry(&list.nested[j], warnings) {
                        Ok(()) => {
                            proof {
                                lemma_read_entry_keeps(before, entries[j as int]);
                            }
                        },
                        Err(e) => {
                            warnings.truncate(kept);
                            return Err(e);
                        },
                    }
                    j = j + 1;
                }
            }
            i = i + 1;
        }
        Ok(prop_attrs)
    }
}

/// Reads the value of the attribute `attr_name` as a version bound.
fn bound_from_value(attr_name: &str, value: Option<&Expr>) -> (r: Result<
    PropAttrsType,
    SchemaError,
>)
    ensures
        match value_bound(crate::util::deref_value(value)) {
            Ok(bound) => r matches Ok(b) && b@ == bound,
            Err(expected) => r matches Err(e) && e@ == invalid_value(
                attr_name@,
                crate::util::deref_value(value),
                expected,
            ),
        },
{
    match value {
        Some(expr) => get_attr_type_from_expr(attr_name, expr),
        None => Err(invalid_expression(attr_name, None, Expected::LitPathUnary)),
    }
}

/// A bound as the expression that stands for it in generated code: a
/// constant's name, a call of a function, or a number marked as sixteen
/// bits wide; `0_i16` where the bound is missing.
pub open spec fn bound_text(bound: Option<VersionBound>) -> Seq<char> {
    match bound {
        Some(VersionBound::ConstRef(name)) => name,
        Some(VersionBound::FunctionRef(name)) => name + "()"@,
        Some(VersionBound::Constant(value)) => signed_text(value as int) + "_i16"@,
        None => "0_i16"@,
    }
}

/// The expression that stands for a bound in generated code.
pub fn prop_attrs_type_value(attrs_type: Option<&PropAttrsType>) -> (r: String)
    ensures
        r@ == bound_text(ref_bound_view(attrs_type)),
{
    match attrs_type {
        Some(PropAttrsType::Lit(name)) => name.clone(),
        Some(PropAttrsType::Fn(name)) => {
            let mut out = name.clone();
            out.append("()");
            out
        },
        Some(PropAttrsType::Int(value)) => {
            let mut out = format_signed(*value as i64);
            out.append("_i16");
            out
        },
        None => String::from_str("0_i16"),
    }
}

/// The assertion that generated code makes of the bounds of a field, once,
/// when it is compiled: with a maximum, that the minimum is not above it;
/// without one, that the minimum is not negative. What it means over the
/// numbers that its expressions stand for is `VersionAssertion::holds`.
#[derive(Debug)]
pub struct VersionAssertion {
    /// The expression of the minimum.
    pub min: String,
    /// The expression of the maximum, where the field has one.
    pub max: Option<String>,
    /// What the assertion says when it fails.
    pub message: String,
}

/// How the message of a failed assertion on bounds begins: what is wrong,
/// and with which field, where the field has a name.
pub open spec fn assertion_head(field: Option<Seq<char>>, has_max: bool) -> Seq<char> {
    match (has_max, field) {
        (true, Some(name)) => "On "@ + name + ", max version is less than min version"@,
        (true, None) => "Max version is less than min version"@,
        (false, Some(name)) => "On "@ + name + ", min version must be positive"@,
        (false, None) => "Min version must be positive"@,
    }
}

/// How the message of a failed assertion on bounds ends: the maximum,
/// where there is one, and the closing parenthesis.
pub open spec fn assertion_tail(max: Option<Seq<char>>) -> Seq<char> {
    match max {
        Some(text) => ", max: "@ + text + ")"@,
        None => ")"@,
    }
}

/// What the assertion on the bounds says when it fails: what is wrong, the
/// field's name where it has one, and both bounds as they are written, or
/// the minimum alone where there is no maximum.
pub open spec fn assertion_message(
    field: Option<Seq<char>>,
    min: Seq<char>,
    max: Option<Seq<char>>,
) -> Seq<char> {
    assertion_head(field, max is Some) + " (min: "@ + min + assertion_tail(max)
}

/// Whether `part` stands in `text`, whole and in one piece.
pub open spec fn holds_text(text: Seq<char>, part: Seq<char>) -> bool {
    exists|i: int|
        0 <= i && i + part.len() <= text.len() && #[trigger] text.subrange(i, i + part.len())
            == part
}

/// The message of a failed assertion on bounds holds the minimum, the
/// maximum where there is one, and the field's name where it has one.
pub proof fn lemma_assertion_message_holds(
    field: Option<Seq<char>>,
    min: Seq<char>,
    max: Option<Seq<char>>,
)
    ensures
        holds_text(assertion_message(field, min, max), min),
        max matches Some(text) ==> holds_text(assertion_message(field, min, max), text),
        field matches Some(name) ==> holds_text(assertion_message(field, min, max), name),
{
    let message = assertion_message(field, min, max);
    let head = assertion_head(field, max is Some);
    let i: int = (head.len() + " (min: "@.len()) as int;
    assert(message.subrange(i, i + min.len()) =~= min);
    match max {
        Some(text) => {
            let j: int = i + min.len() + ", max: "@.len();
            assert(message.subrange(j, j + text.len()) =~= text);
        },
        None => {},
    }
    match field {
        Some(name) => {
            let k: int = "On "@.len() as int;
            assert(message.subrange(k, k + name.len()) =~= name);
        },
        None => {},
    }
}

/// The expression of a maximum, where there is one.
pub open spec fn max_text(max: Option<VersionBound>) -> Option<Seq<char>> {
    match max {
        Some(bound) => Some(bound_text(Some(bound))),
        None => None,
    }
}

impl VersionAssertion {
    /// Whether this is the assertion on the given bounds of the given field.
    pub open spec fn is_on(
        self,
        min: Option<VersionBound>,
        max: Option<VersionBound>,
        field: Option<Seq<char>>,
    ) -> bool {
        &&& self.min@ == bound_text(min)
        &&& name_view(self.max) == max_text(max)
        &&& self.message@ == assertion_message(field, bound_text(min), max_text(max))
    }
}

/// What the assertion on the bounds of a field says when it fails, with
/// the bounds as `min` and `max` write them.
pub fn assertion_text(field: Option<&str>, min: &str, max: Option<&str>) -> (r: String)
    ensures
        r@ == assertion_message(str_view(field), min@, str_view(max)),
{
    let mut out = match (max.is_some(), field) {
        (true, Some(name)) => {
            let mut head = String::from_str("On ");
            head.append(name);
            head.append(", max version is less than min version");
            head
        },
        (true, None) => String::from_str("Max version is less than min version"),
        (false, Some(name)) => {
            let mut head = String::from_str("On ");
            head.append(name);
            head.append(", min version must be positive");
            head
        },
        (false, None) => String::from_str("Min version must be positive"),
    };
    out.append(" (min: ");
    out.append(min);
    match max {
        Some(text) => {
            out.append(", max: ");
            out.append(text);
        },
        None => {},
    }
    out.append(")");
    out
}

/// The assertion that generated code makes of the bounds of a field. Its
/// message names the field, where it has a name, and holds both bounds as
/// they are written in the generated code.
pub fn validate_versions_tokens(
    min_prop: Option<&PropAttrsType>,
    max_props: Option<&PropAttrsType>,
    field: Option<&str>,
) -> (r: VersionAssertion)
    ensures
        r.is_on(ref_bound_view(min_prop), ref_bound_view(max_props), str_view(field)),
        holds_text(r.message@, r.min@),
        r.max matches Some(text) ==> holds_text(r.message@, text@),
        field matches Some(name) ==> holds_text(r.message@, name@),
{
    proof {
        lemma_assertion_message_holds(
            str_view(field),
            bound_text(ref_bound_view(min_prop)),
            max_text(ref_bound_view(max_props)),
        );
    }
    let min = prop_attrs_type_value(min_prop);
    let max = match max_props {
        Some(_) => Some(prop_attrs_type_value(max_props)),
        None => None,
    };
    let message = match &max {
        Some(text) => assertion_text(field, min.as_str(), Some(text.as_str())),
        None => assertion_text(field, min.as_str(), None),
    };
    VersionAssertion { min, max, message }
}

/// The code that guards what is done with one field: the assertion on the
/// field's bounds, the test of the version against them, what runs where
/// the test holds, and the message that is traced where it does not. What
/// the test means over the numbers that its expressions stand for is
/// `VersionCheck::runs`.
#[derive(Debug)]
pub struct VersionCheck {
    /// The assertion on the bounds.
    pub validation: VersionAssertion,
    /// The expression of the minimum.
    pub min: String,
    /// The expression of the maximum; without one the test is `version >= min`.
    pub max: Option<String>,
    /// The code that runs where the version is within the bounds.
    pub field_stream: String,
    /// The format of the message that is traced where it is not; none where
    /// nothing is traced.
    pub trace: Option<String>,
    /// The field's name, which is the message's first argument; the version
    /// and the bounds follow it.
    pub field_name: Option<String>,
}

/// The format of the message that tells that a field was skipped.
pub open spec fn skip_format(named: bool, has_max: bool) -> Seq<char> {
    match (named, has_max) {
        (true, true) =>
            "Field: <{}> is skipped because version: {} is outside min: {}, max: {}"@,
        (true, false) => "Field: <{}> is skipped because version: {} is less than min: {}"@,
        (false, true) =>
            "Field from tuple struct:is skipped because version: {} is outside min: {}, max: {}"@,
        (false, false) =>
            "Field from tuple struct: is skipped because version: {} is less than min: {}"@,
    }
}

impl VersionCheck {
    /// Whether this is the guard of the field with the given name and
    /// properties, around `field_stream`, traced or not.
    pub open spec fn is_guard_of(
        self,
        field: Option<Seq<char>>,
        attrs: PropAttrsView,
        field_stream: Seq<char>,
        trace: bool,
    ) -> bool {
        &&& self.validation.is_on(attrs.min_version, attrs.max_version, field)
        &&& self.min@ == bound_text(attrs.min_version)
        &&& name_view(self.max) == max_text(attrs.max_version)
        &&& self.field_stream@ == field_stream
        &&& name_view(self.trace) == if trace {
            Some(skip_format(field is Some, attrs.max_version is Some))
        } else {
            None
        }
        &&& name_view(self.field_name) == field
    }
}

/// The format of the message that tells that a field was skipped.
pub fn skip_format_text(named: bool, has_max: bool) -> (r: &'static str)
    ensures
        r@ == skip_format(named, has_max),
{
    match (named, has_max) {
        (true, true) => "Field: <{}> is skipped because version: {} is outside min: {}, max: {}",
        (true, false) => "Field: <{}> is skipped because version: {} is less than min: {}",
        (false, true) =>
            "Field from tuple struct:is skipped because version: {} is outside min: {}, max: {}",
        (false, false) =>
            "Field from tuple struct: is skipped because version: {} is less than min: {}",
    }
}

/// The guard of a field with the given name and properties.
fn version_check(attrs: &PropAttrs, field: Option<&str>, field_stream: String, trace: bool) -> (r:
    VersionCheck)
    ensures
        r.is_guard_of(str_view(field), attrs@, field_stream@, trace),
{
    let min = prop_attrs_type_value(attrs.min_version.as_ref());
    let max = match &attrs.max_version {
        Some(bound) => Some(prop_attrs_type_value(Some(bound))),
        None => None,
    };
    let trace = if trace {
        Some(String::from_str(skip_format_text(field.is_some(), attrs.max_version.is_some())))
    } else {
        None
    };
    let validation = validate_versions_tokens(
        attrs.min_version.as_ref(),
        attrs.max_version.as_ref(),
        field,
    );
    VersionCheck { validation, min, max, field_stream, trace, field_name: own_name(field) }
}

/// A field with a name, and what its attributes say.
#[derive(Debug)]
pub struct NamedProp {
    pub field_name: String,
    pub field_type: FieldType,
    pub attrs: PropAttrs,
}

/// A field of a tuple structure, and what its attributes say.
#[derive(Debug)]
pub struct UnnamedProp {
    pub field_type: FieldType,
    pub attrs: PropAttrs,
}

impl NamedProp {
    /// Reads the declaration of a field with a name.
    pub fn from_ast(field: &Field, warnings: &mut Vec<SchemaWarning>) -> (r: Result<
        NamedProp,
        SchemaError,
    >)
        ensures
            match field.ident {
                None => r matches Err(e) && e@ == SchemaFault::MissingFieldName && final(warnings)@
                    == old(warnings)@,
                Some(name) => match props_of(field.attrs@, warning_views(old(warnings)@)) {
                    Ok(reading) => r matches Ok(prop) && prop.field_name@ == name@
                        && prop.field_type == field.ty && prop.attrs@ == reading.attrs
                        && warning_views(final(warnings)@) == reading.warnings,
                    Err(fault) => r matches Err(e) && e@ == fault && warning_views(
                        final(warnings)@,
                    ) == warning_views(old(warnings)@),
                },
            },
    {
        let field_name = match &field.ident {
            Some(ident) => ident.clone(),
            None => {
                return Err(SchemaError::MissingFieldName);
            },
        };
        let field_type = field.ty.clone();
        let attrs = PropAttrs::from_ast(field.attrs.as_slice(), warnings)?;
        Ok(NamedProp { field_name, field_type, attrs })
    }

    /// The guard of this field around `field_stream`.
    pub fn version_check_token_stream(&self, field_stream: String, trace: bool) -> (r:
        VersionCheck)
        ensures
            r.is_guard_of(Some(self.field_name@), self.attrs@, field_stream@, trace),
    {
        version_check(&self.attrs, Some(self.field_name.as_str()), field_stream, trace)
    }
}

impl UnnamedProp {
    /// Reads the declaration of a field of a tuple structure.
    pub fn from_ast(field: &Field, warnings: &mut Vec<SchemaWarning>) -> (r: Result<
        UnnamedProp,
        SchemaError,
    >)
        ensures
            match props_of(field.attrs@, warning_views(old(warnings)@)) {
                Ok(reading) => r matches Ok(prop) && prop.field_type == field.ty && prop.attrs@
                    == reading.attrs && warning_views(final(warnings)@) == reading.warnings,
                Err(fault) => r matches Err(e) && e@ == fault && warning_views(final(warnings)@)
                    == warning_views(old(warnings)@),
            },
    {
        let attrs = PropAttrs::from_ast(field.attrs.as_slice(), warnings)?;
        let field_type = field.ty.clone();
        Ok(UnnamedProp { field_type, attrs })
    }

    /// The guard of this field around `field_stream`.
    pub fn version_check_token_stream(&self, field_stream: String, trace: bool) -> (r:
        VersionCheck)
        ensures
            r.is_guard_of(None, self.attrs@, field_stream@, trace),
    {
        version_check(&self.attrs, None, field_stream, trace)
    }
}

} // verus!
