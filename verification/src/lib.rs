//! Versioned wire-protocol schemas for a streaming platform's client and
//! broker: the attributes that state from which protocol version on, and
//! up to which, a field is on the wire; their validation; and encoding and
//! decoding gated by the negotiated version.
//!
//! A schema is read from the declaration of a structure ([`ast`], [`util`],
//! [`prop`], [`callable`]), judged ([`validate`]) and held as a table
//! ([`schema`], [`envelope`]). The codec walks the table ([`codec`]) over
//! values of a few wire types ([`value`], [`wire`]); a bound that is a name
//! gets its number from a table of symbols ([`bound`]), and the two numbers
//! are judged again when they are resolved. The table of symbols also
//! holds the structures that a field may hold, so that a structure may
//! stand within a structure. What holds of every schema, version and
//! value is proved in [`laws`], and for structures within structures in
//! [`nested`]; that the guard written for generated code means what the
//! codec does is proved in [`guard`]. The messages of a fetch ([`fetch`])
//! show the schemas at work.
//!
//! Beside the codec stand the checks that a cluster is put through before
//! it is started ([`check`], [`preflight`], [`checker`]).

pub mod ast;
pub mod bound;
pub mod callable;
pub mod check;
pub mod checker;
pub mod codec;
pub mod decimal;
pub mod envelope;
pub mod error;
pub mod fetch;
pub mod guard;
pub mod ident;
pub mod laws;
pub mod message;
pub mod nested;
pub mod preflight;
pub mod prop;
pub mod schema;
pub mod text;
pub mod util;
pub mod validate;
pub mod value;
pub mod wire;
