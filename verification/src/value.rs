//! The tagged runtime value: a closed discriminated union used for every
//! constant, stack slot, and store slot.
//!
//! Floating-point payloads are held as raw bit patterns (`u32` / `u64`),
//! so a value can be stored, moved, compared and rendered here; the
//! floating-point arithmetic itself is performed by the embedding host.

use vstd::prelude::*;
use vstd::string::StrSliceExecFns;
use vstd::string::StringExecFns;

verus! {

/// The type discriminant of a [`Value`].
#[derive(Clone, Copy, PartialEq, Eq, Structural, Debug)]
pub enum Tag {
    Null,
    Bool,
    I8,
    I16,
    I32,
    I64,
    U8,
    U16,
    U32,
    U64,
    F32,
    F64,
    Ptr,
}

/// A tagged runtime value. The discriminant and the payload are a single
/// enum variant, so no value can ever be read under the wrong tag. Values
/// are immutable once constructed; every operator produces a new value.
///
/// `F32` and `F64` carry the IEEE-754 bit pattern of the number, not the
/// number itself; `Ptr` is an opaque pointer-sized index.
#[derive(Clone, Copy, PartialEq, Eq, Structural, Debug)]
pub enum Value {
    Null,
    Bool(bool),
    I8(i8),
    I16(i16),
    I32(i32),
    I64(i64),
    U8(u8),
    U16(u16),
    U32(u32),
    U64(u64),
    F32(u32),
    F64(u64),
    Ptr(u64),
}

impl Value {
    /// The discriminant of this value.
    pub open spec fn tag(self) -> Tag {
        match self {
            Value::Null => Tag::Null,
            Value::Bool(_) => Tag::Bool,
            Value::I8(_) => Tag::I8,
            Value::I16(_) => Tag::I16,
            Value::I32(_) => Tag::I32,
            Value::I64(_) => Tag::I64,
            Value::U8(_) => Tag::U8,
            Value::U16(_) => Tag::U16,
            Value::U32(_) => Tag::U32,
            Value::U64(_) => Tag::U64,
            Value::F32(_) => Tag::F32,
            Value::F64(_) => Tag::F64,
            Value::Ptr(_) => Tag::Ptr,
        }
    }

    /// Executable form of [`Value::tag`].
    pub fn tag_of(&self) -> (t: Tag)
        ensures
            t == self.tag(),
    {
        match self {
            Value::Null => Tag::Null,
            Value::Bool(_) => Tag::Bool,
            Value::I8(_) => Tag::I8,
            Value::I16(_) => Tag::I16,
            Value::I32(_) => Tag::I32,
            Value::I64(_) => Tag::I64,
            Value::U8(_) => Tag::U8,
            Value::U16(_) => Tag::U16,
            Value::U32(_) => Tag::U32,
            Value::U64(_) => Tag::U64,
            Value::F32(_) => Tag::F32,
            Value::F64(_) => Tag::F64,
            Value::Ptr(_) => Tag::Ptr,
        }
    }
}

/// Position of a tag in the structural total order over values.
pub open spec fn tag_rank(t: Tag) -> int {
    match t {
        Tag::Null => 0,
        Tag::Bool => 1,
        Tag::I8 => 2,
        Tag::I16 => 3,
        Tag::I32 => 4,
        Tag::I64 => 5,
        Tag::U8 => 6,
        Tag::U16 => 7,
        Tag::U32 => 8,
        Tag::U64 => 9,
        Tag::F32 => 10,
        Tag::F64 => 11,
        Tag::Ptr => 12,
    }
}

/// Executable form of [`tag_rank`].
pub fn tag_rank_of(t: Tag) -> (r: u8)
    ensures
        r as int == tag_rank(t),
{
    match t {
        Tag::Null => 0,
        Tag::Bool => 1,
        Tag::I8 => 2,
        Tag::I16 => 3,
        Tag::I32 => 4,
        Tag::I64 => 5,
        Tag::U8 => 6,
        Tag::U16 => 7,
        Tag::U32 => 8,
        Tag::U64 => 9,
        Tag::F32 => 10,
        Tag::F64 => 11,
        Tag::Ptr => 12,
    }
}

/// The structural strict order over values: tag first, payload second.
/// It is total: any two values are comparable, whatever their tags.
/// Same-tagged payloads compare numerically (`false < true` for booleans;
/// float payloads compare as their raw bit patterns).
pub open spec fn val_lt(a: Value, b: Value) -> bool {
    if a.tag() != b.tag() {
        tag_rank(a.tag()) < tag_rank(b.tag())
    } else {
        match (a, b) {
            (Value::Bool(x), Value::Bool(y)) => !x && y,
            (Value::I8(x), Value::I8(y)) => x < y,
            (Value::I16(x), Value::I16(y)) => x < y,
            (Value::I32(x), Value::I32(y)) => x < y,
            (Value::I64(x), Value::I64(y)) => x < y,
            (Value::U8(x), Value::U8(y)) => x < y,
            (Value::U16(x), Value::U16(y)) => x < y,
            (Value::U32(x), Value::U32(y)) => x < y,
            (Value::U64(x), Value::U64(y)) => x < y,
            (Value::F32(x), Value::F32(y)) => x < y,
            (Value::F64(x), Value::F64(y)) => x < y,
            (Value::Ptr(x), Value::Ptr(y)) => x < y,
            _ => false,
        }
    }
}

/// The structural non-strict order over values.
pub open spec fn val_le(a: Value, b: Value) -> bool {
    val_lt(a, b) || a == b
}

/// Executable structural strict comparison; see [`val_lt`].
pub fn value_lt(a: &Value, b: &Value) -> (r: bool)
    ensures
        r == val_lt(*a, *b),
{
    let ta = a.tag_of();
    let tb = b.tag_of();
    if ta == tb {
        match (a, b) {
            (Value::Bool(x), Value::Bool(y)) => !*x && *y,
            (Value::I8(x), Value::I8(y)) => *x < *y,
            (Value::I16(x), Value::I16(y)) => *x < *y,
            (Value::I32(x), Value::I32(y)) => *x < *y,
            (Value::I64(x), Value::I64(y)) => *x < *y,
            (Value::U8(x), Value::U8(y)) => *x < *y,
            (Value::U16(x), Value::U16(y)) => *x < *y,
            (Value::U32(x), Value::U32(y)) => *x < *y,
            (Value::U64(x), Value::U64(y)) => *x < *y,
            (Value::F32(x), Value::F32(y)) => *x < *y,
            (Value::F64(x), Value::F64(y)) => *x < *y,
            (Value::Ptr(x), Value::Ptr(y)) => *x < *y,
            _ => false,
        }
    } else {
        tag_rank_of(ta) < tag_rank_of(tb)
    }
}

/// Executable structural non-strict comparison; see [`val_le`].
pub fn value_le(a: &Value, b: &Value) -> (r: bool)
    ensures
        r == val_le(*a, *b),
{
    value_lt(a, b) || *a == *b
}

/// The structural order is a strict total order: irreflexive,
/// antisymmetric, transitive, and any two values are comparable.
pub proof fn lemma_val_order_total(a: Value, b: Value, c: Value)
    ensures
        !val_lt(a, a),
        val_lt(a, b) ==> !val_lt(b, a),
        val_lt(a, b) && val_lt(b, c) ==> val_lt(a, c),
        val_lt(a, b) || val_lt(b, a) || a == b,
{
}

/// A decimal digit (code points of `'0'` through `'9'`).
pub open spec fn is_digit(c: char) -> bool {
    48 <= c as int <= 57
}

/// Every character of `s` is a decimal digit.
pub open spec fn all_digits(s: Seq<char>) -> bool {
    forall|i: int| 0 <= i < s.len() ==> is_digit(s[i])
}

/// The number that the digit run `s` denotes in base ten.
pub open spec fn digits_val(s: Seq<char>) -> int
    recommends
        all_digits(s),
    decreases s.len(),
{
    if s.len() == 0 {
        0
    } else {
        digits_val(s.drop_last()) * 10 + (s.last() as int - 48)
    }
}

/// A non-empty run of digits denotes its value; anything else (the
/// empty string included) denotes nothing.
pub open spec fn spec_scan_digits(t: Seq<char>) -> Option<int> {
    if t.len() > 0 && all_digits(t) {
        Option::Some(digits_val(t))
    } else {
        Option::None
    }
}

/// An unsigned numeral: an optional leading `'+'`, then one or more
/// digits.
pub open spec fn spec_parse_uint(s: Seq<char>) -> Option<int> {
    if s.len() > 0 && s[0] == '+' {
        spec_scan_digits(s.skip(1))
    } else {
        spec_scan_digits(s)
    }
}

/// A signed numeral: an optional leading `'+'` or `'-'`, then one or
/// more digits.
pub open spec fn spec_parse_sint(s: Seq<char>) -> Option<int> {
    if s.len() > 0 && s[0] == '-' {
        match spec_scan_digits(s.skip(1)) {
            Option::Some(v) => Option::Some(-v),
            Option::None => Option::None,
        }
    } else {
        spec_parse_uint(s)
    }
}

/// The value a literal token denotes: the narrowest type that
/// round-trips it, trying signed widths 8/16/32/64, then unsigned
/// (where only the 64-bit width is reachable after the signed
/// attempts), then the booleans `true` and `false`. A float literal
/// denotes nothing here: the embedding host supplies float parsing,
/// since float arithmetic lives outside this library.
pub open spec fn spec_parse_value(s: Seq<char>) -> Option<Value> {
    match spec_parse_sint(s) {
        Option::Some(v) => if -128 <= v <= 127 {
            Option::Some(Value::I8(v as i8))
        } else if -0x8000 <= v <= 0x7fff {
            Option::Some(Value::I16(v as i16))
        } else if -0x8000_0000 <= v <= 0x7fff_ffff {
            Option::Some(Value::I32(v as i32))
        } else if -0x8000_0000_0000_0000 <= v <= 0x7fff_ffff_ffff_ffff {
            Option::Some(Value::I64(v as i64))
        } else if 0 <= v <= 0xffff_ffff_ffff_ffff {
            Option::Some(Value::U64(v as u64))
        } else {
            Option::None
        },
        Option::None => if s == "true"@ {
            Option::Some(Value::Bool(true))
        } else if s == "false"@ {
            Option::Some(Value::Bool(false))
        } else {
            Option::None
        },
    }
}

/// The result of scanning a digit run whose value may exceed the
/// 64-bit range.
#[derive(Clone, Copy, PartialEq, Eq, Structural, Debug)]
pub enum UintScan {
    /// Not a digit run at all.
    NotNumeral,
    /// A digit run denoting a number beyond the 64-bit range.
    TooBig,
    /// A digit run denoting this number.
    Val(u64),
}

/// Scans the digit run starting at character `from` of `s`; see
/// [`spec_scan_digits`].
pub fn scan_digits(s: &str, from: usize) -> (r: UintScan)
    requires
        from <= s@.len(),
    ensures
        match r {
            UintScan::NotNumeral => spec_scan_digits(s@.skip(from as int)) is None,
            UintScan::TooBig => (spec_scan_digits(s@.skip(from as int)) matches Option::Some(v)
                && v > u64::MAX),
            UintScan::Val(x) => spec_scan_digits(s@.skip(from as int)) == Option::Some(x as int),
        },
{
    let n = s.unicode_len();
    if from >= n {
        return UintScan::NotNumeral;
    }
    let mut i = from;
    let mut val: u64 = 0;
    let mut big = false;
    while i < n
        invariant
            from <= i <= n,
            n == s@.len(),
            all_digits(s@.subrange(from as int, i as int)),
            !big ==> val as int == digits_val(s@.subrange(from as int, i as int)),
            big ==> digits_val(s@.subrange(from as int, i as int)) > u64::MAX,
        decreases n - i,
    {
        let c = s.get_char(i);
        let u = c as u32;
        if !(48 <= u && u <= 57) {
            proof {
                assert(!is_digit(s@.skip(from as int)[i - from]));
            }
            return UintScan::NotNumeral;
        }
        let d: u64 = (u - 48) as u64;
        proof {
            let sub = s@.subrange(from as int, i as int);
            let sub2 = s@.subrange(from as int, (i + 1) as int);
            assert(sub2 =~= sub.push(s@[i as int]));
            assert(sub2.drop_last() =~= sub);
            assert(sub2.last() == s@[i as int]);
            assert(is_digit(s@[i as int]));
            assert(all_digits(sub2));
            assert(digits_val(sub2) == digits_val(sub) * 10 + (s@[i as int] as int - 48));
        }
        if big {
        } else {
            let step = val.checked_mul(10);
            match step {
                Option::Some(v10) => {
                    let sum = v10.checked_add(d);
                    match sum {
                        Option::Some(nv) => {
                            val = nv;
                        },
                        Option::None => {
                            big = true;
                        },
                    }
                },
                Option::None => {
                    big = true;
                },
            }
        }
        i += 1;
    }
    proof {
        assert(s@.subrange(from as int, n as int) =~= s@.skip(from as int));
    }
    if big {
        UintScan::TooBig
    } else {
        UintScan::Val(val)
    }
}

/// Scans an unsigned numeral (optional `'+'`, then digits); see
/// [`spec_parse_uint`].
pub fn scan_uint(s: &str) -> (r: UintScan)
    ensures
        match r {
            UintScan::NotNumeral => spec_parse_uint(s@) is None,
            UintScan::TooBig => (spec_parse_uint(s@) matches Option::Some(v) && v > u64::MAX),
            UintScan::Val(x) => spec_parse_uint(s@) == Option::Some(x as int),
        },
{
    let n = s.unicode_len();
    if n > 0 && s.get_char(0) == '+' {
        scan_digits(s, 1)
    } else {
        proof {
            assert(s@.skip(0) =~= s@);
        }
        scan_digits(s, 0)
    }
}

impl Value {
    /// Parses a literal token; see [`spec_parse_value`].
    pub fn from_str(s: &str) -> (r: Option<Value>)
        ensures
            r == spec_parse_value(s@),
    {
        let n = s.unicode_len();
        if n > 0 && s.get_char(0) == '-' {
            match scan_digits(s, 1) {
                UintScan::NotNumeral => Value::parse_bool(s),
                UintScan::TooBig => Option::None,
                UintScan::Val(mag) => {
                    if mag <= 127 {
                        Option::Some(Value::I8(-(mag as i8)))
                    } else if mag == 128 {
                        Option::Some(Value::I8(i8::MIN))
                    } else if mag <= 0x7fff {
                        Option::Some(Value::I16(-(mag as i16)))
                    } else if mag == 0x8000 {
                        Option::Some(Value::I16(i16::MIN))
                    } else if mag <= 0x7fff_ffff {
                        Option::Some(Value::I32(-(mag as i32)))
                    } else if mag == 0x8000_0000 {
                        Option::Some(Value::I32(i32::MIN))
                    } else if mag <= 0x7fff_ffff_ffff_ffff {
                        Option::Some(Value::I64(-(mag as i64)))
                    } else if mag == 0x8000_0000_0000_0000 {
                        Option::Some(Value::I64(i64::MIN))
                    } else {
                        Option::None
                    }
                },
            }
        } else {
            match scan_uint(s) {
                UintScan::NotNumeral => Value::parse_bool(s),
                UintScan::TooBig => Option::None,
                UintScan::Val(x) => {
                    if x <= 127 {
                        Option::Some(Value::I8(x as i8))
                    } else if x <= 0x7fff {
                        Option::Some(Value::I16(x as i16))
                    } else if x <= 0x7fff_ffff {
                        Option::Some(Value::I32(x as i32))
                    } else if x <= 0x7fff_ffff_ffff_ffff {
                        Option::Some(Value::I64(x as i64))
                    } else {
                        Option::Some(Value::U64(x))
                    }
                },
            }
        }
    }

    /// The boolean literals, tried after every numeric shape failed.
    fn parse_bool(s: &str) -> (r: Option<Value>)
        ensures
            r == (if s@ == "true"@ {
                Option::Some(Value::Bool(true))
            } else if s@ == "false"@ {
                Option::Some(Value::Bool(false))
            } else {
                Option::<Value>::None
            }),
    {
        let key = String::from_str(s);
        if key == String::from_str("true") {
            Option::Some(Value::Bool(true))
        } else if key == String::from_str("false") {
            Option::Some(Value::Bool(false))
        } else {
            Option::None
        }
    }
}

} // verus!
