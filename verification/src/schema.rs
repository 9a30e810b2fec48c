//! Schemas: the fields of a structure in the order of the wire, each with
//! its type, its version bounds and its default.

use crate::ast::Field;
use crate::bound::{bound_view, effective_min, PropAttrsType, SymbolTable, VersionBound};
use crate::error::{clone_name, name_view, SchemaError, SchemaFault};
use crate::prop::{
    lemma_read_attrs_keep, props_of, warning_views, NamedProp, PropAttrs, PropAttrsView,
    Reading, SchemaWarning, UnnamedProp,
};
use crate::util::first_attr;
use crate::validate::{bounds_fault, range_fault, reports, validate, validate_resolved};
use crate::value::FieldType;
use vstd::prelude::*;

verus! {

/// One field of a structure.
#[derive(Debug)]
pub struct FieldSchema {
    /// The field's name; a field of a tuple structure has none.
    pub name: Option<String>,
    /// The field's type.
    pub ty: FieldType,
    /// The first version that has the field.
    pub min_version: PropAttrsType,
    /// The last version that has the field; none where it was never removed.
    pub max_version: Option<PropAttrsType>,
    /// The text of the value that the field takes where it is not on the wire.
    pub default_value: Option<String>,
    /// Whether integers of the field are written in the variable-length form.
    pub varint: bool,
    /// Whether a strict reader may do without the field.
    pub ignorable: bool,
}

/// One field of a structure, as mathematics sees it.
pub struct FieldSchemaView {
    pub name: Option<Seq<char>>,
    pub ty: FieldType,
    pub min_version: VersionBound,
    pub max_version: Option<VersionBound>,
    pub default_value: Option<Seq<char>>,
    pub varint: bool,
    pub ignorable: bool,
}

impl View for FieldSchema {
    type V = FieldSchemaView;

    open spec fn view(&self) -> FieldSchemaView {
        FieldSchemaView {
            name: name_view(self.name),
            ty: self.ty,
            min_version: self.min_version@,
            max_version: bound_view(self.max_version),
            default_value: name_view(self.default_value),
            varint: self.varint,
            ignorable: self.ignorable,
        }
    }
}

impl FieldSchemaView {
    /// Whether the bounds, as far as they are numbers, are in order: with a
    /// maximum the minimum is not above it, without one it is not negative.
    pub open spec fn wf(self) -> bool {
        bounds_fault(self.min_version, self.max_version, self.name) is None
    }
}

/// The schema of a field with the given name, type and properties. A
/// missing minimum is zero.
pub open spec fn schema_of(name: Option<Seq<char>>, ty: FieldType, attrs: PropAttrsView) -> FieldSchemaView {
    FieldSchemaView {
        name,
        ty,
        min_version: effective_min(attrs.min_version),
        max_version: attrs.max_version,
        default_value: attrs.default_value,
        varint: attrs.varint,
        ignorable: attrs.ignorable == Some(true),
    }
}

/// The schema that a name, a type and properties make, or the fault of
/// their bounds.
pub open spec fn checked_schema(name: Option<Seq<char>>, ty: FieldType, attrs: PropAttrsView) -> Result<
    FieldSchemaView,
    SchemaFault,
> {
    match bounds_fault(effective_min(attrs.min_version), attrs.max_version, name) {
        Some(fault) => Err(fault),
        None => Ok(schema_of(name, ty, attrs)),
    }
}

/// The schema that a declaration states, with the unrecognized keys of its
/// attributes added to `warnings`; or the first fault in it.
pub open spec fn declared_schema(declaration: Field, warnings: Seq<Seq<char>>) -> Result<
    (FieldSchemaView, Seq<Seq<char>>),
    SchemaFault,
> {
    match props_of(declaration.attrs@, warnings) {
        Ok(reading) => match checked_schema(
            name_view(declaration.ident),
            declaration.ty,
            reading.attrs,
        ) {
            Ok(schema) => Ok((schema, reading.warnings)),
            Err(fault) => Err(fault),
        },
        Err(fault) => Err(fault),
    }
}

impl FieldSchema {
    /// Makes the schema of a field from its name, its type and what its
    /// attributes say, and judges the bounds as far as they are numbers.
    pub fn new(name: Option<String>, ty: FieldType, attrs: PropAttrs) -> (r: Result<
        FieldSchema,
        SchemaError,
    >)
        ensures
            match checked_schema(name_view(name), ty, attrs@) {
                Ok(schema) => r matches Ok(s) && s@ == schema && s@.wf(),
                Err(fault) => r matches Err(e) && e@ == fault,
            },
    {
        let field: Option<&str> = match &name {
            Some(s) => Some(s.as_str()),
            None => None,
        };
        match validate(attrs.min_version.as_ref(), attrs.max_version.as_ref(), field) {
            Ok(()) => {},
            Err(e) => {
                return Err(e);
            },
        }
        let min_version = match attrs.min_version {
            Some(bound) => bound,
            None => PropAttrsType::Int(0),
        };
        let ignorable = match attrs.ignorable {
            Some(flag) => flag,
            None => false,
        };
        Ok(
            FieldSchema {
                name,
                ty,
                min_version,
                max_version: attrs.max_version,
                default_value: attrs.default_value,
                varint: attrs.varint,
                ignorable,
            },
        )
    }

    /// Reads the declaration of a field into its schema.
    ///
    /// The attributes are read as `PropAttrs::from_ast` tells. Then the
    /// bounds are judged: where both are numbers the minimum may not be
    /// above the maximum, and where there is no maximum a minimum that is a
    /// number may not be negative.
    pub fn from_declaration(declaration: &Field, warnings: &mut Vec<SchemaWarning>) -> (r: Result<
        FieldSchema,
        SchemaError,
    >)
        ensures
            match declared_schema(*declaration, warning_views(old(warnings)@)) {
                Ok((schema, remarks)) => r matches Ok(s) && s@ == schema && s@.wf()
                    && warning_views(final(warnings)@) == remarks,
                Err(fault) => r matches Err(e) && e@ == fault && warning_views(final(warnings)@)
                    == warning_views(old(warnings)@),
            },
    {
        let kept = warnings.len();
        let attrs = match PropAttrs::from_ast(declaration.attrs.as_slice(), warnings) {
            Ok(attrs) => attrs,
            Err(e) => {
                return Err(e);
            },
        };
        match FieldSchema::new(clone_name(&declaration.ident), declaration.ty.clone(), attrs) {
            Ok(schema) => Ok(schema),
            Err(e) => {
                proof {
                    lemma_props_keep(declaration.attrs@, warning_views(old(warnings)@));
                }
                warnings.truncate(kept);
                Err(e)
            },
        }
    }
}

/// Reading the attributes of a field leaves the warnings that were there
/// in front.
pub proof fn lemma_props_keep(attrs: Seq<crate::ast::Attribute>, warnings: Seq<Seq<char>>)
    ensures
        props_of(attrs, warnings) matches Ok(reading) ==> reading.warnings.len() >= warnings.len()
            && reading.warnings.take(warnings.len() as int) == warnings,
{
    lemma_read_attrs_keep(
        Reading {
            attrs: PropAttrsView {
                varint: first_attr(attrs, "varint"@) is Some,
                min_version: None,
                max_version: None,
                default_value: None,
                ignorable: None,
            },
            warnings,
        },
        attrs,
    );
}

/// Reading declarations leaves the warnings that were there in front.
pub proof fn lemma_declared_fields_keep(declarations: Seq<Field>, warnings: Seq<Seq<char>>)
    ensures
        declared_fields(declarations, warnings) matches Ok((_, remarks)) ==> remarks.len()
            >= warnings.len() && remarks.take(warnings.len() as int) == warnings,
    decreases declarations.len(),
{
    if declarations.len() == 0 {
    } else {
        lemma_declared_fields_keep(declarations.drop_last(), warnings);
        match declared_fields(declarations.drop_last(), warnings) {
            Ok((_, mid)) => {
                lemma_props_keep(declarations.last().attrs@, mid);
            },
            Err(_) => {},
        }
    }
}

impl NamedProp {
    /// The schema of this field.
    pub fn into_schema(self) -> (r: Result<FieldSchema, SchemaError>)
        ensures
            match checked_schema(Some(self.field_name@), self.field_type, self.attrs@) {
                Ok(schema) => r matches Ok(s) && s@ == schema && s@.wf(),
                Err(fault) => r matches Err(e) && e@ == fault,
            },
    {
        FieldSchema::new(Some(self.field_name), self.field_type, self.attrs)
    }
}

impl UnnamedProp {
    /// The schema of this field.
    pub fn into_schema(self) -> (r: Result<FieldSchema, SchemaError>)
        ensures
            match checked_schema(None, self.field_type, self.attrs@) {
                Ok(schema) => r matches Ok(s) && s@ == schema && s@.wf(),
                Err(fault) => r matches Err(e) && e@ == fault,
            },
    {
        FieldSchema::new(None, self.field_type, self.attrs)
    }
}

/// The fields of a structure, in the order of the wire.
#[derive(Debug)]
pub struct StructureSchema {
    pub fields: Vec<FieldSchema>,
}

/// The views of fields.
pub open spec fn field_views(fields: Seq<FieldSchema>) -> Seq<FieldSchemaView> {
    Seq::new(fields.len(), |i: int| fields[i]@)
}

impl View for StructureSchema {
    type V = Seq<FieldSchemaView>;

    open spec fn view(&self) -> Seq<FieldSchemaView> {
        field_views(self.fields@)
    }
}

/// The schemas that declarations state, in order, with the unrecognized
/// keys added to `warnings`; or the first fault among them.
pub open spec fn declared_fields(declarations: Seq<Field>, warnings: Seq<Seq<char>>) -> Result<
    (Seq<FieldSchemaView>, Seq<Seq<char>>),
    SchemaFault,
>
    decreases declarations.len(),
{
    if declarations.len() == 0 {
        Ok((Seq::empty(), warnings))
    } else {
        match declared_fields(declarations.drop_last(), warnings) {
            Ok((fields, remarks)) => match declared_schema(declarations.last(), remarks) {
                Ok((schema, more)) => Ok((fields.push(schema), more)),
                Err(fault) => Err(fault),
            },
            Err(fault) => Err(fault),
        }
    }
}

impl StructureSchema {
    /// Reads the declarations of a structure's fields, in order, into its schema.
    pub fn from_declarations(declarations: &[Field], warnings: &mut Vec<SchemaWarning>) -> (r:
        Result<StructureSchema, SchemaError>)
        ensures
            match declared_fields(declarations@, warning_views(old(warnings)@)) {
                Ok((fields, remarks)) => r matches Ok(s) && s@ == fields && warning_views(
                    final(warnings)@,
                ) == remarks,
                Err(fault) => r matches Err(e) && e@ == fault && warning_views(final(warnings)@)
                    == warning_views(old(warnings)@),
            },
    {
        let kept = warnings.len();
        let mut fields: Vec<FieldSchema> = Vec::new();
        let n = declarations.len();
        let mut i: usize = 0;
        assert(field_views(fields@) =~= Seq::<FieldSchemaView>::empty());
        while i < n
            invariant
                n == declarations@.len(),
                i <= n,
                kept == old(warnings)@.len(),
                declared_fields(declarations@.take(i as int), warning_views(old(warnings)@)) == Ok::<
                    (Seq<FieldSchemaView>, Seq<Seq<char>>),
                    SchemaFault,
                >((field_views(fields@), warning_views(warnings@))),
            decreases n - i,
        {
            let ghost next = declarations@.take(i + 1);
            let ghost start = warning_views(old(warnings)@);
            proof {
                assert(next.drop_last() =~= declarations@.take(i as int));
            }
            match FieldSchema::from_declaration(&declarations[i], warnings) {
                Ok(schema) => {
                    let ghost before = fields@;
                    fields.push(schema);
                    assert(field_views(fields@) =~= field_views(before).push(schema@));
                },
                Err(e) => {
                    proof {
                        assert(declared_fields(next, start) == Err::<
                            (Seq<FieldSchemaView>, Seq<Seq<char>>),
                            SchemaFault,
                        >(e@));
                        lemma_declared_fields_fault(declarations@, i + 1);
                        lemma_declared_fields_keep(
                            declarations@.take(i as int),
                            warning_views(old(warnings)@),
                        );
                    }
                    warnings.truncate(kept);
                    return Err(e);
                },
            }
            i = i + 1;
        }
        assert(declarations@.take(n as int) =~= declarations@);
        Ok(StructureSchema { fields })
    }
}

/// The fault that shows in the bounds of a field once they are resolved,
/// if there is one. Bounds that do not resolve are not judged: encoding
/// and decoding report them.
pub open spec fn resolved_fault(field: FieldSchemaView, symbols: SymbolTable) -> Option<SchemaFault> {
    match symbols.resolve(field.min_version) {
        Some(min) => match field.max_version {
            Some(bound) => match symbols.resolve(bound) {
                Some(max) => range_fault(min, Some(max), field.name),
                None => None,
            },
            None => range_fault(min, None, field.name),
        },
        None => None,
    }
}

/// The first fault that shows in the bounds of fields once they are
/// resolved, in the order of the fields.
pub open spec fn first_resolved_fault(fields: Seq<FieldSchemaView>, symbols: SymbolTable) -> Option<
    SchemaFault,
>
    decreases fields.len(),
{
    if fields.len() == 0 {
        None
    } else {
        match resolved_fault(fields[0], symbols) {
            Some(fault) => Some(fault),
            None => first_resolved_fault(fields.drop_first(), symbols),
        }
    }
}

impl FieldSchema {
    /// Judges the bounds of the field once more, now that names resolve:
    /// the check that was put off when the schema was made. With a
    /// maximum the minimum may not be above it; without one it may not be
    /// negative.
    pub fn validate_resolved(&self, symbols: &SymbolTable) -> (r: Result<(), SchemaError>)
        ensures
            reports(r, resolved_fault(self@, *symbols)),
    {
        let min = match symbols.resolve_bound(&self.min_version) {
            Some(min) => min,
            None => {
                return Ok(());
            },
        };
        let max = match &self.max_version {
            Some(bound) => match symbols.resolve_bound(bound) {
                Some(max) => Some(max),
                None => {
                    return Ok(());
                },
            },
            None => None,
        };
        let field: Option<&str> = match &self.name {
            Some(s) => Some(s.as_str()),
            None => None,
        };
        validate_resolved(min, max, field)
    }
}

impl StructureSchema {
    /// Judges the bounds of every field once names resolve, in the order
    /// of the fields, up to the first fault.
    pub fn validate_resolved(&self, symbols: &SymbolTable) -> (r: Result<(), SchemaError>)
        ensures
            reports(r, first_resolved_fault(self@, *symbols)),
    {
        let n = self.fields.len();
        let ghost fields = self@;
        let mut i: usize = 0;
        assert(fields.skip(0) =~= fields);
        while i < n
            invariant
                n == self.fields@.len(),
                fields == self@,
                i <= n,
                first_resolved_fault(fields, *symbols) == first_resolved_fault(
                    fields.skip(i as int),
                    *symbols,
                ),
            decreases n - i,
        {
            proof {
                assert(fields.skip(i as int).drop_first() =~= fields.skip(i + 1));
            }
            match self.fields[i].validate_resolved(symbols) {
                Ok(()) => {},
                Err(e) => {
                    return Err(e);
                },
            }
            i = i + 1;
        }
        Ok(())
    }
}

/// A schema whose bounds are numbers and in order has no fault left to
/// show when names resolve, whatever the table holds.
pub proof fn lemma_numbers_are_judged_once(field: FieldSchemaView, symbols: SymbolTable)
    requires
        field.wf(),
        field.min_version is Constant,
        field.max_version matches Some(bound) ==> bound is Constant,
    ensures
        resolved_fault(field, symbols) is None,
{
}

/// A fault among the first declarations is the fault of them all.
pub proof fn lemma_declared_fields_fault(declarations: Seq<Field>, k: int)
    requires
        0 <= k <= declarations.len(),
    ensures
        forall|warnings: Seq<Seq<char>>|
            declared_fields(declarations.take(k), warnings) is Err ==> declared_fields(
                declarations,
                warnings,
            ) == #[trigger] declared_fields(declarations.take(k), warnings),
    decreases declarations.len() - k,
{
    if k == declarations.len() {
        assert(declarations.take(k) =~= declarations);
    } else {
        assert forall|warnings: Seq<Seq<char>>|
            declared_fields(declarations.take(k), warnings) is Err implies declared_fields(
            declarations,
            warnings,
        ) == #[trigger] declared_fields(declarations.take(k), warnings) by {
            let next = declarations.take(k + 1);
            assert(next.drop_last() =~= declarations.take(k));
            assert(declared_fields(next, warnings) == declared_fields(
                declarations.take(k),
                warnings,
            ));
            lemma_declared_fields_fault(declarations, k + 1);
        }
    }
}

} // verus!
