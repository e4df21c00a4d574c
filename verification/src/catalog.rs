//! Object identifiers and constants of the server's catalogs.

use vstd::prelude::*;

verus! {

/// Identifies a catalog object: a type, a function, a relation.
pub type Oid = u32;

/// Position of a relation in a query's range table.
pub type Varno = i32;

/// Number of a relation's column, counted from one.
pub type AttrNumber = i16;

/// A value as the executor passes it around, by value or as an address.
pub type Datum = u64;

/// No object at all.
pub const INVALID_OID: Oid = 0;

pub const BOOLOID: Oid = 16;

pub const INT8OID: Oid = 20;

pub const INT4OID: Oid = 23;

pub const FLOAT4OID: Oid = 700;

pub const FLOAT8OID: Oid = 701;

pub const UUIDOID: Oid = 2950;

/// The collation of a database that none was asked of.
pub const DEFAULT_COLLATION_OID: Oid = 100;

/// The datum that stands where a value is null.
pub const NULL_DATUM: Datum = 0;

} // verus!
