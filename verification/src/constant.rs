//! The self-describing wire form of a tagged value: a type tag beside
//! a single 64-bit payload lane, the shape in which constant-pool
//! entries are laid out for an embedder that persists them.
//!
//! Signed payloads are sign-extended into the lane and float payloads
//! occupy it as their raw bit patterns, so packing is bit-exact and
//! unpacking restores the value unchanged ([`lemma_pack_unpack`]).

use vstd::prelude::*;

use crate::value::Tag;
use crate::value::Value;

verus! {

/// A tagged value in its wire form.
#[derive(Clone, Copy, PartialEq, Eq, Structural, Debug)]
pub struct Constant {
    pub tag: Tag,
    pub raw: u64,
}

/// The wire form of a value: its tag, and its payload widened into
/// the 64-bit lane (sign-extended when signed, bit pattern for
/// floats, `1` or `0` for the booleans).
pub open spec fn spec_pack(v: Value) -> Constant {
    match v {
        Value::Null => Constant { tag: Tag::Null, raw: 0 },
        Value::Bool(b) => Constant {
            tag: Tag::Bool,
            raw: if b {
                1
            } else {
                0
            },
        },
        Value::I8(x) => Constant { tag: Tag::I8, raw: x as u64 },
        Value::I16(x) => Constant { tag: Tag::I16, raw: x as u64 },
        Value::I32(x) => Constant { tag: Tag::I32, raw: x as u64 },
        Value::I64(x) => Constant { tag: Tag::I64, raw: x as u64 },
        Value::U8(x) => Constant { tag: Tag::U8, raw: x as u64 },
        Value::U16(x) => Constant { tag: Tag::U16, raw: x as u64 },
        Value::U32(x) => Constant { tag: Tag::U32, raw: x as u64 },
        Value::U64(x) => Constant { tag: Tag::U64, raw: x },
        Value::F32(b) => Constant { tag: Tag::F32, raw: b as u64 },
        Value::F64(b) => Constant { tag: Tag::F64, raw: b },
        Value::Ptr(p) => Constant { tag: Tag::Ptr, raw: p },
    }
}

/// The value a wire-form constant denotes: the lane truncated back to
/// the width its tag names (any boolean lane other than zero reads as
/// true).
pub open spec fn spec_unpack(c: Constant) -> Value {
    match c.tag {
        Tag::Null => Value::Null,
        Tag::Bool => Value::Bool(c.raw != 0),
        Tag::I8 => Value::I8(c.raw as i8),
        Tag::I16 => Value::I16(c.raw as i16),
        Tag::I32 => Value::I32(c.raw as i32),
        Tag::I64 => Value::I64(c.raw as i64),
        Tag::U8 => Value::U8(c.raw as u8),
        Tag::U16 => Value::U16(c.raw as u16),
        Tag::U32 => Value::U32(c.raw as u32),
        Tag::U64 => Value::U64(c.raw),
        Tag::F32 => Value::F32(c.raw as u32),
        Tag::F64 => Value::F64(c.raw),
        Tag::Ptr => Value::Ptr(c.raw),
    }
}

impl Constant {
    /// The null constant: the null tag over a zero lane.
    pub fn null() -> (r: Constant)
        ensures
            r.tag == Tag::Null,
            r.raw == 0,
            spec_unpack(r) == Value::Null,
    {
        Constant { tag: Tag::Null, raw: 0 }
    }

    /// Packs a value into its wire form; see [`spec_pack`].
    pub fn from_value(v: &Value) -> (r: Constant)
        ensures
            r == spec_pack(*v),
    {
        match v {
            Value::Null => Constant { tag: Tag::Null, raw: 0 },
            Value::Bool(b) => Constant {
                tag: Tag::Bool,
                raw: if *b {
                    1
                } else {
                    0
                },
            },
            Value::I8(x) => Constant { tag: Tag::I8, raw: #[verifier::truncate] (*x as u64) },
            Value::I16(x) => Constant { tag: Tag::I16, raw: #[verifier::truncate] (*x as u64) },
            Value::I32(x) => Constant { tag: Tag::I32, raw: #[verifier::truncate] (*x as u64) },
            Value::I64(x) => Constant { tag: Tag::I64, raw: #[verifier::truncate] (*x as u64) },
            Value::U8(x) => Constant { tag: Tag::U8, raw: *x as u64 },
            Value::U16(x) => Constant { tag: Tag::U16, raw: *x as u64 },
            Value::U32(x) => Constant { tag: Tag::U32, raw: *x as u64 },
            Value::U64(x) => Constant { tag: Tag::U64, raw: *x },
            Value::F32(b) => Constant { tag: Tag::F32, raw: *b as u64 },
            Value::F64(b) => Constant { tag: Tag::F64, raw: *b },
            Value::Ptr(p) => Constant { tag: Tag::Ptr, raw: *p },
        }
    }

    /// Unpacks the wire form back into a value; see [`spec_unpack`].
    pub fn unwrap(&self) -> (r: Value)
        ensures
            r == spec_unpack(*self),
    {
        match self.tag {
            Tag::Null => Value::Null,
            Tag::Bool => Value::Bool(self.raw != 0),
            Tag::I8 => Value::I8(#[verifier::truncate] (self.raw as i8)),
            Tag::I16 => Value::I16(#[verifier::truncate] (self.raw as i16)),
            Tag::I32 => Value::I32(#[verifier::truncate] (self.raw as i32)),
            Tag::I64 => Value::I64(#[verifier::truncate] (self.raw as i64)),
            Tag::U8 => Value::U8(#[verifier::truncate] (self.raw as u8)),
            Tag::U16 => Value::U16(#[verifier::truncate] (self.raw as u16)),
            Tag::U32 => Value::U32(#[verifier::truncate] (self.raw as u32)),
            Tag::U64 => Value::U64(self.raw),
            Tag::F32 => Value::F32(#[verifier::truncate] (self.raw as u32)),
            Tag::F64 => Value::F64(self.raw),
            Tag::Ptr => Value::Ptr(self.raw),
        }
    }
}

/// Packing a value into the wire form and unpacking it restores the
/// value exactly, whatever its tag: the widening into the lane is
/// bit-exact.
pub proof fn lemma_pack_unpack(v: Value)
    ensures
        spec_unpack(spec_pack(v)) == v,
{
    match v {
        Value::I8(x) => {
            assert((x as u64) as i8 == x) by (bit_vector);
        },
        Value::I16(x) => {
            assert((x as u64) as i16 == x) by (bit_vector);
        },
        Value::I32(x) => {
            assert((x as u64) as i32 == x) by (bit_vector);
        },
        Value::I64(x) => {
            assert((x as u64) as i64 == x) by (bit_vector);
        },
        Value::U8(x) => {
            assert((x as u64) as u8 == x) by (bit_vector);
        },
        Value::U16(x) => {
            assert((x as u64) as u16 == x) by (bit_vector);
        },
        Value::U32(x) => {
            assert((x as u64) as u32 == x) by (bit_vector);
        },
        Value::F32(b) => {
            assert((b as u64) as u32 == b) by (bit_vector);
        },
        _ => {},
    }
}

} // verus!
