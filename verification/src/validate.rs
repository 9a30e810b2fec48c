//! The rules that the two version bounds of a field, or of a request, obey.

use crate::bound::{effective_min, PropAttrsType, VersionBound};
use crate::error::{own_name, str_view, SchemaError, SchemaFault};
use vstd::prelude::*;

verus! {

/// The view of a bound that may be missing, behind a borrow.
pub open spec fn ref_bound_view(bound: Option<&PropAttrsType>) -> Option<VersionBound> {
    match bound {
        Some(b) => Some(b@),
        None => None,
    }
}

/// The fault of two numbers as bounds, if there is one: with a maximum, the
/// minimum may not be above it; without one, the minimum may not be negative.
pub open spec fn range_fault(min: i16, max: Option<i16>, field: Option<Seq<char>>) -> Option<
    SchemaFault,
> {
    match max {
        Some(hi) => if min > hi {
            Some(SchemaFault::InvalidMinMaxOrdering { field, min, max: hi })
        } else {
            None
        },
        None => if min < 0 {
            Some(SchemaFault::NegativeMinVersion { field, min })
        } else {
            None
        },
    }
}

/// The fault that can be seen in two bounds as they are stated, if there is
/// one. Only numbers are judged here: a bound that is a name is judged once
/// it has been resolved.
pub open spec fn bounds_fault(
    min: VersionBound,
    max: Option<VersionBound>,
    field: Option<Seq<char>>,
) -> Option<SchemaFault> {
    match (min, max) {
        (VersionBound::Constant(lo), Some(VersionBound::Constant(hi))) => range_fault(
            lo,
            Some(hi),
            field,
        ),
        (VersionBound::Constant(lo), None) => range_fault(lo, None, field),
        _ => None,
    }
}

/// Whether `r` reports exactly the fault `fault`, or success where there is none.
pub open spec fn reports(r: Result<(), SchemaError>, fault: Option<SchemaFault>) -> bool {
    match fault {
        Some(f) => r matches Err(e) && e@ == f,
        None => r is Ok,
    }
}

/// Judges two resolved bounds: the check that is owed when a bound that was
/// a name gets its number.
pub fn validate_resolved(min: i16, max: Option<i16>, field: Option<&str>) -> (r: Result<
    (),
    SchemaError,
>)
    ensures
        reports(r, range_fault(min, max, str_view(field))),
{
    match max {
        Some(hi) => if min > hi {
            Err(SchemaError::InvalidMinMaxOrdering { field: own_name(field), min, max: hi })
        } else {
            Ok(())
        },
        None => if min < 0 {
            Err(SchemaError::NegativeMinVersion { field: own_name(field), min })
        } else {
            Ok(())
        },
    }
}

/// Judges the bounds of a field, or of a request, as they are stated. A
/// missing minimum counts as zero.
pub fn validate(
    min: Option<&PropAttrsType>,
    max: Option<&PropAttrsType>,
    field: Option<&str>,
) -> (r: Result<(), SchemaError>)
    ensures
        reports(
            r,
            bounds_fault(effective_min(ref_bound_view(min)), ref_bound_view(max), str_view(field)),
        ),
{
    let lo: i16 = match min {
        Some(PropAttrsType::Int(v)) => *v,
        Some(_) => {
            return Ok(());
        },
        None => 0,
    };
    match max {
        Some(PropAttrsType::Int(hi)) => validate_resolved(lo, Some(*hi), field),
        Some(_) => Ok(()),
        None => validate_resolved(lo, None, field),
    }
}

} // verus!
