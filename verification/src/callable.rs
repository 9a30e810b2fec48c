//! The version attributes of a request as a whole.

use crate::ast::{path_text, Attribute, Expr, Lit, LitStr, Meta};
use crate::error::{name_view, Expected, SchemaError, SchemaFault};
use crate::prop::{
    duplicate, entry_expr, entry_value, named_entries, warning_views, SchemaWarning,
};
use crate::util::{invalid_expression, invalid_value};
use vstd::prelude::*;

verus! {

/// The versions that the attributes of a request state, as they are written.
#[derive(Debug)]
pub struct FluvioCallableAttributes {
    pub min_version: Option<LitStr>,
    pub max_version: Option<LitStr>,
}

/// The text of a string literal that may be missing.
pub open spec fn lit_view(lit: Option<LitStr>) -> Option<Seq<char>> {
    match lit {
        Some(l) => Some(l.value@),
        None => None,
    }
}

/// How far the attributes of a request have been read.
pub struct CallableReading {
    pub min_version: Option<Seq<char>>,
    pub max_version: Option<Seq<char>>,
    pub warnings: Seq<Seq<char>>,
}

/// The text of a value that must be a string literal, or what was
/// expected in place of the value.
pub open spec fn str_value(value: Option<Expr>) -> Result<Seq<char>, Expected> {
    match value {
        Some(Expr::Lit(Lit::Str(lit))) => Ok(lit.value@),
        _ => Err(Expected::Str),
    }
}

/// Reads one entry: `min_version` and `max_version` take a string literal
/// and may be given once; any other key is remarked on and passed over.
pub open spec fn read_callable_entry(state: CallableReading, entry: Meta) -> Result<
    CallableReading,
    SchemaFault,
> {
    let key = entry.spec_path().ident();
    let value = entry_value(entry);
    if key == Some("min_version"@) {
        if state.min_version is Some {
            Err(duplicate("min_version"@))
        } else {
            match str_value(value) {
                Ok(text) => Ok(
                    CallableReading {
                        min_version: Some(text),
                        max_version: state.max_version,
                        warnings: state.warnings,
                    },
                ),
                Err(expected) => Err(invalid_value("min_version"@, value, expected)),
            }
        }
    } else if key == Some("max_version"@) {
        if state.max_version is Some {
            Err(duplicate("max_version"@))
        } else {
            match str_value(value) {
                Ok(text) => Ok(
                    CallableReading {
                        min_version: state.min_version,
                        max_version: Some(text),
                        warnings: state.warnings,
                    },
                ),
                Err(expected) => Err(invalid_value("max_version"@, value, expected)),
            }
        }
    } else {
        Ok(
            CallableReading {
                min_version: state.min_version,
                max_version: state.max_version,
                warnings: state.warnings.push(path_text(entry.spec_path())),
            },
        )
    }
}

/// Reads entries in order, up to the first fault.
pub open spec fn read_callable_entries(state: CallableReading, entries: Seq<Meta>) -> Result<
    CallableReading,
    SchemaFault,
>
    decreases entries.len(),
{
    if entries.len() == 0 {
        Ok(state)
    } else {
        match read_callable_entry(state, entries[0]) {
            Ok(next) => read_callable_entries(next, entries.drop_first()),
            Err(fault) => Err(fault),
        }
    }
}

/// Reads the attributes named `name` in order, up to the first fault.
pub open spec fn read_callable_attrs(
    state: CallableReading,
    attrs: Seq<Attribute>,
    name: Seq<char>,
) -> Result<CallableReading, SchemaFault>
    decreases attrs.len(),
{
    if attrs.len() == 0 {
        Ok(state)
    } else {
        match named_entries(attrs[0], name) {
            Ok(entries) => match read_callable_entries(state, entries) {
                Ok(next) => read_callable_attrs(next, attrs.drop_first(), name),
                Err(fault) => Err(fault),
            },
            Err(fault) => Err(fault),
        }
    }
}

impl Default for FluvioCallableAttributes {
    fn default() -> (r: FluvioCallableAttributes)
        ensures
            r.min_version is None,
            r.max_version is None,
    {
        FluvioCallableAttributes { min_version: None, max_version: None }
    }
}

impl FluvioCallableAttributes {
    /// The state of reading that these attributes and warnings stand for.
    pub open spec fn reading(&self, warnings: Seq<SchemaWarning>) -> CallableReading {
        CallableReading {
            min_version: lit_view(self.min_version),
            max_version: lit_view(self.max_version),
            warnings: warning_views(warnings),
        }
    }

    /// The text of the minimum version, if one is stated.
    pub fn min_version(&self) -> (r: Option<String>)
        ensures
            name_view(r) == lit_view(self.min_version),
    {
        match &self.min_version {
            Some(lit) => Some(lit.value.clone()),
            None => None,
        }
    }

    /// The text of the maximum version, if one is stated.
    pub fn max_version(&self) -> (r: Option<String>)
        ensures
            name_view(r) == lit_view(self.max_version),
    {
        match &self.max_version {
            Some(lit) => Some(lit.value.clone()),
            None => None,
        }
    }

    /// Reads one entry into the attributes.
    fn read_entry(&mut self, entry: &Meta, warnings: &mut Vec<SchemaWarning>) -> (r: Result<
        (),
        SchemaError,
    >)
        ensures
            match read_callable_entry(old(self).reading(old(warnings)@), *entry) {
                Ok(next) => r is Ok && final(self).reading(final(warnings)@) == next,
                Err(fault) => r matches Err(e) && e@ == fault && final(warnings)@
                    == old(warnings)@,
            },
    {
        let path = entry.path();
        let value: Option<&Expr> = match entry {
            Meta::NameValue(pair) => Some(&pair.value),
            _ => None,
        };
        if path.is_ident("min_version") {
            if self.min_version.is_some() {
                return Err(SchemaError::DuplicateAttribute { attribute: "min_version".to_owned() });
            }
            match value {
                Some(Expr::Lit(Lit::Str(lit))) => {
                    self.min_version = Some(LitStr::new(lit.value.clone()));
                    Ok(())
                },
                _ => Err(invalid_expression("min_version", value, Expected::Str)),
            }
        } else if path.is_ident("max_version") {
            if self.max_version.is_some() {
                return Err(SchemaError::DuplicateAttribute { attribute: "max_version".to_owned() });
            }
            match value {
                Some(Expr::Lit(Lit::Str(lit))) => {
                    self.max_version = Some(LitStr::new(lit.value.clone()));
                    Ok(())
                },
                _ => Err(invalid_expression("max_version", value, Expected::Str)),
            }
        } else {
            let ghost before = warnings@;
            let warning = SchemaWarning::UnrecognizedAttribute { key: path.to_text() };
            warnings.push(warning);
            assert(warning_views(warnings@) =~= warning_views(before).push(
                path_text(entry.spec_path()),
            ));
            Ok(())
        }
    }

    /// Reads the attributes of a request that are named `attr_ident`; each
    /// must be a list.
    ///
    /// `min_version` and `max_version` take a string literal each. A key
    /// given twice is an error; a key that is neither is added to
    /// `warnings` and passed over.
    pub fn from_ast(attrs: &[Attribute], attr_ident: &str, warnings: &mut Vec<SchemaWarning>) -> (r:
        Result<FluvioCallableAttributes, SchemaError>)
        ensures
            match read_callable_attrs(
                CallableReading {
                    min_version: None,
                    max_version: None,
                    warnings: warning_views(old(warnings)@),
                },
                attrs@,
                attr_ident@,
            ) {
                Ok(reading) => r matches Ok(found) && lit_view(found.min_version)
                    == reading.min_version && lit_view(found.max_version) == reading.max_version
                    && warning_views(final(warnings)@) == reading.warnings,
                Err(fault) => r matches Err(e) && e@ == fault && warning_views(final(warnings)@)
                    == warning_views(old(warnings)@),
            },
    {
        let kept = warnings.len();
        let mut result = FluvioCallableAttributes::default();
        let ghost start = CallableReading {
            min_version: None,
            max_version: None,
            warnings: warning_views(warnings@),
        };
        let ghost goal = read_callable_attrs(start, attrs@, attr_ident@);
        let n = attrs.len();
        let mut i: usize = 0;
        assert(attrs@.skip(0) =~= attrs@);
        while i < n
            invariant
                n == attrs@.len(),
                i <= n,
                kept == old(warnings)@.len(),
                warnings@.len() >= kept,
                warning_views(warnings@).take(kept as int) == warning_views(old(warnings)@),
                start == (CallableReading {
                    min_version: None,
                    max_version: None,
                    warnings: warning_views(old(warnings)@),
                }),
                goal == read_callable_attrs(start, attrs@, attr_ident@),
                goal == read_callable_attrs(
                    result.reading(warnings@),
                    attrs@.skip(i as int),
                    attr_ident@,
                ),
            decreases n - i,
        {
            proof {
                assert(attrs@.skip(i as int).drop_first() =~= attrs@.skip(i + 1));
            }
            if attrs[i].meta.path().is_ident(attr_ident) {
                let list = match &attrs[i].meta {
                    Meta::List(list) => list,
                    other => {
                        warnings.truncate(kept);
                        return Err(
                            invalid_expression(attr_ident, entry_expr(other), Expected::List),
                        );
                    },
                };
                let ghost entries = list.nested@;
                let ghost rest = attrs@.skip(i + 1);
                let m = list.nested.len();
                let mut j: usize = 0;
                assert(entries.skip(0) =~= entries);
                while j < m
                    invariant
                        m == entries.len(),
                        entries == list.nested@,
                        j <= m,
                        kept == old(warnings)@.len(),
                        warnings@.len() >= kept,
                        warning_views(warnings@).take(kept as int) == warning_views(
                            old(warnings)@,
                        ),
                        start == (CallableReading {
                            min_version: None,
                            max_version: None,
                            warnings: warning_views(old(warnings)@),
                        }),
                        goal == read_callable_attrs(start, attrs@, attr_ident@),
                        goal == match read_callable_entries(
                            result.reading(warnings@),
                            entries.skip(j as int),
                        ) {
                            Ok(next) => read_callable_attrs(next, rest, attr_ident@),
                            Err(fault) => Err(fault),
                        },
                    decreases m - j,
                {
                    proof {
                        assert(entries.skip(j as int).drop_first() =~= entries.skip(j + 1));
                    }
                    let ghost before = result.reading(warnings@);
                    match result.read_entry(&list.nested[j], warnings) {
                        Ok(()) => {
                            proof {
                                let now = warning_views(warnings@);
                                assert(now.take(kept as int) =~= before.warnings.take(
                                    kept as int,
                                ));
                            }
                        },
                        Err(e) => {
                            warnings.truncate(kept);
                            return Err(e);
                        },
                    }
                    j = j + 1;
                }
            }
            i = i + 1;
        }
        Ok(result)
    }
}

} // verus!
