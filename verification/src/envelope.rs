//! The envelope of a request: its key, the versions that it is spoken in,
//! and the schema of what answers it.

use crate::codec::in_range;
use crate::error::SchemaError;
use crate::schema::{FieldSchemaView, StructureSchema};
use crate::validate::{range_fault, validate_resolved};
use vstd::prelude::*;

verus! {

/// What identifies a request and its response to the transport.
#[derive(Debug)]
pub struct ApiEnvelope {
    api_key: u16,
    min_supported_version: i16,
    max_supported_version: i16,
    default_version: i16,
    response: StructureSchema,
}

impl ApiEnvelope {
    /// The versions are in order: the oldest is not above the newest.
    #[verifier::type_invariant]
    spec fn ordered(self) -> bool {
        self.min_supported_version <= self.max_supported_version
    }

    /// The key of the request.
    pub closed spec fn spec_api_key(self) -> u16 {
        self.api_key
    }

    /// The oldest version that is spoken.
    pub closed spec fn spec_min(self) -> i16 {
        self.min_supported_version
    }

    /// The newest version that is spoken.
    pub closed spec fn spec_max(self) -> i16 {
        self.max_supported_version
    }

    /// The version that is spoken where nothing was agreed.
    pub closed spec fn spec_default(self) -> i16 {
        self.default_version
    }

    /// The fields of the response.
    pub closed spec fn spec_response(self) -> Seq<FieldSchemaView> {
        self.response@
    }

    /// Makes an envelope. An oldest version that is not given is zero. The
    /// oldest version may not be above the newest.
    pub fn new(
        api_key: u16,
        min_supported_version: Option<i16>,
        max_supported_version: i16,
        default_version: i16,
        response: StructureSchema,
    ) -> (r: Result<ApiEnvelope, SchemaError>)
        ensures
            match range_fault(
                match min_supported_version {
                    Some(min) => min,
                    None => 0,
                },
                Some(max_supported_version),
                None,
            ) {
                Some(fault) => r matches Err(e) && e@ == fault,
                None => r matches Ok(envelope) && envelope.spec_api_key() == api_key
                    && envelope.spec_min() == (match min_supported_version {
                    Some(min) => min,
                    None => 0,
                }) && envelope.spec_max() == max_supported_version && envelope.spec_default()
                    == default_version && envelope.spec_response() == response@,
            },
    {
        let min = match min_supported_version {
            Some(min) => min,
            None => 0,
        };
        match validate_resolved(min, Some(max_supported_version), None) {
            Ok(()) => {},
            Err(e) => {
                return Err(e);
            },
        }
        Ok(
            ApiEnvelope {
                api_key,
                min_supported_version: min,
                max_supported_version,
                default_version,
                response,
            },
        )
    }

    /// The key of the request.
    pub fn api_key(&self) -> (r: u16)
        ensures
            r == self.spec_api_key(),
    {
        self.api_key
    }

    /// The oldest version that is spoken; it is not above the newest.
    pub fn min_supported_version(&self) -> (r: i16)
        ensures
            r == self.spec_min(),
            r <= self.spec_max(),
    {
        proof {
            use_type_invariant(self);
        }
        self.min_supported_version
    }

    /// The newest version that is spoken.
    pub fn max_supported_version(&self) -> (r: i16)
        ensures
            r == self.spec_max(),
    {
        self.max_supported_version
    }

    /// The version that is spoken where nothing was agreed.
    pub fn default_version(&self) -> (r: i16)
        ensures
            r == self.spec_default(),
    {
        self.default_version
    }

    /// The schema of the response.
    pub fn response(&self) -> (r: &StructureSchema)
        ensures
            r@ == self.spec_response(),
    {
        &self.response
    }

    /// Whether `version` is one that is spoken.
    pub fn supports(&self, version: i16) -> (r: bool)
        ensures
            r == in_range(version, self.spec_min(), Some(self.spec_max())),
    {
        self.min_supported_version <= version && version <= self.max_supported_version
    }
}

} // verus!
