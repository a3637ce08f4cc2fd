//! Interned identities of declarations.

use crate::data::{Dup, Same};
use vstd::prelude::*;

verus! {

/// The identity of a declared name, unique over the whole program.
#[derive(Debug, Clone, Copy, PartialEq, Eq, PartialOrd, Ord, Hash, Structural)]
pub struct SymbolId(pub u32);

/// The identity of a struct field or of a variant's field.
#[derive(Debug, Clone, Copy, PartialEq, Eq, PartialOrd, Ord, Hash, Structural)]
pub struct FieldId(pub u32);

/// The identity of an enum variant.
#[derive(Debug, Clone, Copy, PartialEq, Eq, PartialOrd, Ord, Hash, Structural)]
pub struct VariantId(pub u32);

/// Identities of the types that every program knows.
pub const SYM_TYPE_BOOLEAN: u32 = 1;

pub const SYM_TYPE_STRING: u32 = 2;

pub const SYM_TYPE_CHAR: u32 = 3;

pub const SYM_TYPE_I8: u32 = 4;

pub const SYM_TYPE_I16: u32 = 5;

pub const SYM_TYPE_I32: u32 = 6;

pub const SYM_TYPE_I64: u32 = 7;

pub const SYM_TYPE_U8: u32 = 8;

pub const SYM_TYPE_U16: u32 = 9;

pub const SYM_TYPE_U32: u32 = 10;

pub const SYM_TYPE_U64: u32 = 11;

pub const SYM_TYPE_F32: u32 = 12;

pub const SYM_TYPE_F64: u32 = 13;

pub const SYM_TYPE_LIST: u32 = 14;

pub const SYM_TYPE_PERHAPS: u32 = 15;

pub const SYM_TYPE_RESULT: u32 = 16;

pub const SYM_TYPE_RANGE: u32 = 17;

pub const SYM_TYPE_RANGE_INCLUSIVE: u32 = 18;

pub const SYM_ASPECT_DISPLAY: u32 = 19;

pub const SYM_ASPECT_ITERABLE: u32 = 20;

pub const SYM_ASPECT_FROM: u32 = 21;

/// From here on, identities are those of overloaded definitions.
pub const OVERLOAD_SYM_START: u32 = 0x4000_0000;

impl DeepView for SymbolId {
    type V = SymbolId;

    open spec fn deep_view(&self) -> SymbolId {
        *self
    }
}

impl Same for SymbolId {
    fn same(&self, other: &Self) -> (b: bool) {
        self.0 == other.0
    }
}

impl Dup for SymbolId {
    fn dup(&self) -> (r: Self) {
        *self
    }
}

impl DeepView for FieldId {
    type V = FieldId;

    open spec fn deep_view(&self) -> FieldId {
        *self
    }
}

impl Same for FieldId {
    fn same(&self, other: &Self) -> (b: bool) {
        self.0 == other.0
    }
}

impl Dup for FieldId {
    fn dup(&self) -> (r: Self) {
        *self
    }
}

impl DeepView for VariantId {
    type V = VariantId;

    open spec fn deep_view(&self) -> VariantId {
        *self
    }
}

impl Same for VariantId {
    fn same(&self, other: &Self) -> (b: bool) {
        self.0 == other.0
    }
}

impl Dup for VariantId {
    fn dup(&self) -> (r: Self) {
        *self
    }
}

} // verus!
