//! Column element types and schema descriptors.
//!
//! Vector payloads are carried through the index core as raw little-endian
//! element bytes tagged with one of these element types; the schema
//! descriptors name the columns an index writes.

use vstd::prelude::*;

verus! {

/// The element types that flow through the indexing core.
#[derive(Clone, Copy, Debug, PartialEq, Eq, Structural)]
pub enum ElementType {
    Float16,
    Float32,
    Float64,
    Int8,
    Int32,
    UInt8,
    UInt32,
    UInt64,
}

impl ElementType {
    /// Width of one element in bytes.
    pub open spec fn spec_byte_width(self) -> nat {
        match self {
            ElementType::Float16 => 2,
            ElementType::Float32 => 4,
            ElementType::Float64 => 8,
            ElementType::Int8 => 1,
            ElementType::Int32 => 4,
            ElementType::UInt8 => 1,
            ElementType::UInt32 => 4,
            ElementType::UInt64 => 8,
        }
    }

    pub fn byte_width(&self) -> (w: usize)
        ensures
            w == self.spec_byte_width(),
            1 <= w <= 8,
    {
        match self {
            ElementType::Float16 => 2,
            ElementType::Float32 => 4,
            ElementType::Float64 => 8,
            ElementType::Int8 => 1,
            ElementType::Int32 => 4,
            ElementType::UInt8 => 1,
            ElementType::UInt32 => 4,
            ElementType::UInt64 => 8,
        }
    }

    /// Whether this is one of the floating element types a codebook may hold.
    pub open spec fn spec_is_float(self) -> bool {
        self is Float16 || self is Float32 || self is Float64
    }

    pub fn is_float(&self) -> (b: bool)
        ensures
            b == self.spec_is_float(),
    {
        match self {
            ElementType::Float16 => true,
            ElementType::Float32 => true,
            ElementType::Float64 => true,
            _ => false,
        }
    }
}

/// One column of a schema: its name, element type, and nullability.  A
/// fixed-size-list column additionally carries the list length.
#[derive(Clone, Debug)]
pub struct Field {
    pub name: String,
    pub data_type: ElementType,
    /// `Some(n)` when the column is a fixed-size list of `n` elements,
    /// `None` when it is a plain value column.
    pub list_size: Option<usize>,
    pub nullable: bool,
}

/// An ordered list of fields.
#[derive(Clone, Debug)]
pub struct Schema {
    pub fields: Vec<Field>,
}

} // verus!
