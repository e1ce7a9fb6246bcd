//! The values that attributes of a template can have.
use bumpalo::Bump;
use vstd::prelude::*;
use vstd::std_specs::cmp::PartialEqSpec;

verus! {

/// A single precision number, kept as its bit pattern in the IEEE 754 layout.
#[derive(Clone, Copy, Debug)]
pub struct F32 {
    pub bits: u32,
}

impl F32 {
    /// The pattern is not a number: all exponent bits and at least one bit of the fraction are set.
    pub open spec fn is_nan(self) -> bool {
        self.bits % 0x8000_0000 > 0x7f80_0000
    }

    /// The pattern is one of the two zeros.
    pub open spec fn is_zero(self) -> bool {
        self.bits % 0x8000_0000 == 0
    }
}

impl PartialEq for F32 {
    fn eq(&self, other: &Self) -> (res: bool) {
        let left: u32 = self.bits % 0x8000_0000;
        let right: u32 = other.bits % 0x8000_0000;
        left <= 0x7f80_0000 && right <= 0x7f80_0000 && (self.bits == other.bits || (left == 0
            && right == 0))
    }
}

impl vstd::std_specs::cmp::PartialEqSpecImpl for F32 {
    open spec fn obeys_eq_spec() -> bool {
        true
    }

    /// Equality of IEEE 754: what is not a number equals nothing, and the two zeros are equal.
    open spec fn eq_spec(&self, other: &Self) -> bool {
        &&& !self.is_nan()
        &&& !other.is_nan()
        &&& self.bits == other.bits || (self.is_zero() && other.is_zero())
    }
}

/// A double precision number, kept as its bit pattern in the IEEE 754 layout.
#[derive(Clone, Copy, Debug)]
pub struct F64 {
    pub bits: u64,
}

impl F64 {
    /// The pattern is not a number: all exponent bits and at least one bit of the fraction are set.
    pub open spec fn is_nan(self) -> bool {
        self.bits % 0x8000_0000_0000_0000 > 0x7ff0_0000_0000_0000
    }

    /// The pattern is one of the two zeros.
    pub open spec fn is_zero(self) -> bool {
        self.bits % 0x8000_0000_0000_0000 == 0
    }
}

impl PartialEq for F64 {
    fn eq(&self, other: &Self) -> (res: bool) {
        let left: u64 = self.bits % 0x8000_0000_0000_0000;
        let right: u64 = other.bits % 0x8000_0000_0000_0000;
        left <= 0x7ff0_0000_0000_0000 && right <= 0x7ff0_0000_0000_0000 && (self.bits == other.bits
            || (left == 0 && right == 0))
    }
}

impl vstd::std_specs::cmp::PartialEqSpecImpl for F64 {
    open spec fn obeys_eq_spec() -> bool {
        true
    }

    /// Equality of IEEE 754: what is not a number equals nothing, and the two zeros are equal.
    open spec fn eq_spec(&self, other: &Self) -> bool {
        &&& !self.is_nan()
        &&& !other.is_nan()
        &&& self.bits == other.bits || (self.is_zero() && other.is_zero())
    }
}

/// What an attribute's value says, whichever way it is stored.
pub enum AttributeValueView {
    Text(Seq<char>),
    Float32(F32),
    Float64(F64),
    Int32(i32),
    Int64(i64),
    Uint32(u32),
    Uint64(u64),
    Bool(bool),
    Vec3Float(F32, F32, F32),
    Vec3Int(i32, i32, i32),
    Vec3Uint(u32, u32, u32),
    Vec4Float(F32, F32, F32, F32),
    Vec4Int(i32, i32, i32, i32),
    Vec4Uint(u32, u32, u32, u32),
    Bytes(Seq<u8>),
    Any { value: usize, cmp: usize },
}

/// A value that refers to data in an arena, ready to be sent to the renderer.
#[derive(Clone, Copy, Debug, PartialEq)]
pub enum AttributeValue<'b> {
    Text(&'b str),
    Float32(F32),
    Float64(F64),
    Int32(i32),
    Int64(i64),
    Uint32(u32),
    Uint64(u64),
    Bool(bool),
    Vec3Float(F32, F32, F32),
    Vec3Int(i32, i32, i32),
    Vec3Uint(u32, u32, u32),
    Vec4Float(F32, F32, F32, F32),
    Vec4Int(i32, i32, i32, i32),
    Vec4Uint(u32, u32, u32, u32),
    Bytes(&'b [u8]),
    Any(ArbitraryAttributeValue<'b>),
}

/// A value of a type that only the renderer knows, with the function that compares two of its kind.
/// Both are kept by their owner in a table; here they are positions in it.
#[derive(Clone, Copy, Debug, PartialEq)]
pub struct ArbitraryAttributeValue<'b> {
    /// The position of the value.
    pub value: &'b usize,
    /// The position of the comparing function.
    pub cmp: usize,
}

impl<'b> View for AttributeValue<'b> {
    type V = AttributeValueView;

    open spec fn view(&self) -> AttributeValueView {
        match *self {
            AttributeValue::Text(text) => AttributeValueView::Text(text@),
            AttributeValue::Float32(f) => AttributeValueView::Float32(f),
            AttributeValue::Float64(f) => AttributeValueView::Float64(f),
            AttributeValue::Int32(i) => AttributeValueView::Int32(i),
            AttributeValue::Int64(i) => AttributeValueView::Int64(i),
            AttributeValue::Uint32(u) => AttributeValueView::Uint32(u),
            AttributeValue::Uint64(u) => AttributeValueView::Uint64(u),
            AttributeValue::Bool(b) => AttributeValueView::Bool(b),
            AttributeValue::Vec3Float(f1, f2, f3) => AttributeValueView::Vec3Float(f1, f2, f3),
            AttributeValue::Vec3Int(i1, i2, i3) => AttributeValueView::Vec3Int(i1, i2, i3),
            AttributeValue::Vec3Uint(u1, u2, u3) => AttributeValueView::Vec3Uint(u1, u2, u3),
            AttributeValue::Vec4Float(f1, f2, f3, f4) => AttributeValueView::Vec4Float(
                f1,
                f2,
                f3,
                f4,
            ),
            AttributeValue::Vec4Int(i1, i2, i3, i4) => AttributeValueView::Vec4Int(i1, i2, i3, i4),
            AttributeValue::Vec4Uint(u1, u2, u3, u4) => AttributeValueView::Vec4Uint(
                u1,
                u2,
                u3,
                u4,
            ),
            AttributeValue::Bytes(bytes) => AttributeValueView::Bytes(bytes@),
            AttributeValue::Any(any) => AttributeValueView::Any {
                value: *any.value,
                cmp: any.cmp,
            },
        }
    }
}

/// The value for an attribute in a template.
pub trait TemplateValue {
    /// What the value says.
    spec fn value(&self) -> AttributeValueView;

    /// Allocates the value in an arena.
    fn allocate<'b>(&self, bump: &'b Bump) -> (res: AttributeValue<'b>)
        ensures
            res@ == self.value(),
    ;
}

/// A value that is created at compile time.
#[derive(Debug, Clone, PartialEq)]
pub enum StaticAttributeValue {
    Text(&'static str),
    Float32(F32),
    Float64(F64),
    Int32(i32),
    Int64(i64),
    Uint32(u32),
    Uint64(u64),
    Bool(bool),
    Vec3Float(F32, F32, F32),
    Vec3Int(i32, i32, i32),
    Vec3Uint(u32, u32, u32),
    Vec4Float(F32, F32, F32, F32),
    Vec4Int(i32, i32, i32, i32),
    Vec4Uint(u32, u32, u32, u32),
    Bytes(&'static [u8]),
}

impl TemplateValue for StaticAttributeValue {
    open spec fn value(&self) -> AttributeValueView {
        match *self {
            StaticAttributeValue::Text(text) => AttributeValueView::Text(text@),
            StaticAttributeValue::Float32(f) => AttributeValueView::Float32(f),
            StaticAttributeValue::Float64(f) => AttributeValueView::Float64(f),
            StaticAttributeValue::Int32(i) => AttributeValueView::Int32(i),
            StaticAttributeValue::Int64(i) => AttributeValueView::Int64(i),
            StaticAttributeValue::Uint32(u) => AttributeValueView::Uint32(u),
            StaticAttributeValue::Uint64(u) => AttributeValueView::Uint64(u),
            StaticAttributeValue::Bool(b) => AttributeValueView::Bool(b),
            StaticAttributeValue::Vec3Float(f1, f2, f3) => AttributeValueView::Vec3Float(
                f1,
                f2,
                f3,
            ),
            StaticAttributeValue::Vec3Int(i1, i2, i3) => AttributeValueView::Vec3Int(i1, i2, i3),
            StaticAttributeValue::Vec3Uint(u1, u2, u3) => AttributeValueView::Vec3Uint(u1, u2, u3),
            StaticAttributeValue::Vec4Float(f1, f2, f3, f4) => AttributeValueView::Vec4Float(
                f1,
                f2,
                f3,
                f4,
            ),
            StaticAttributeValue::Vec4Int(i1, i2, i3, i4) => AttributeValueView::Vec4Int(
                i1,
                i2,
                i3,
                i4,
            ),
            StaticAttributeValue::Vec4Uint(u1, u2, u3, u4) => AttributeValueView::Vec4Uint(
                u1,
                u2,
                u3,
                u4,
            ),
            StaticAttributeValue::Bytes(bytes) => AttributeValueView::Bytes(bytes@),
        }
    }

    fn allocate<'b>(&self, bump: &'b Bump) -> (res: AttributeValue<'b>) {
        match self {
            StaticAttributeValue::Text(text) => AttributeValue::Text(bump.alloc_str(text)),
            StaticAttributeValue::Float32(f) => AttributeValue::Float32(*f),
            StaticAttributeValue::Float64(f) => AttributeValue::Float64(*f),
            StaticAttributeValue::Int32(i) => AttributeValue::Int32(*i),
            StaticAttributeValue::Int64(i) => AttributeValue::Int64(*i),
            StaticAttributeValue::Uint32(u) => AttributeValue::Uint32(*u),
            StaticAttributeValue::Uint64(u) => AttributeValue::Uint64(*u),
            StaticAttributeValue::Bool(b) => AttributeValue::Bool(*b),
            StaticAttributeValue::Vec3Float(f1, f2, f3) => AttributeValue::Vec3Float(*f1, *f2, *f3),
            StaticAttributeValue::Vec3Int(i1, i2, i3) => AttributeValue::Vec3Int(*i1, *i2, *i3),
            StaticAttributeValue::Vec3Uint(u1, u2, u3) => AttributeValue::Vec3Uint(*u1, *u2, *u3),
            StaticAttributeValue::Vec4Float(f1, f2, f3, f4) => AttributeValue::Vec4Float(
                *f1,
                *f2,
                *f3,
                *f4,
            ),
            StaticAttributeValue::Vec4Int(i1, i2, i3, i4) => AttributeValue::Vec4Int(
                *i1,
                *i2,
                *i3,
                *i4,
            ),
            StaticAttributeValue::Vec4Uint(u1, u2, u3, u4) => AttributeValue::Vec4Uint(
                *u1,
                *u2,
                *u3,
                *u4,
            ),
            StaticAttributeValue::Bytes(bytes) => AttributeValue::Bytes(
                bump.alloc_slice_copy(bytes),
            ),
        }
    }
}

/// A value of a type that only the renderer knows, not yet in an arena.
#[derive(Clone, Copy, Debug, PartialEq, Eq, Structural)]
pub struct OwnedArbitraryAttributeValue {
    /// The position of the value.
    pub value: usize,
    /// The position of the comparing function.
    pub cmp: usize,
}

/// A value that is created at run time.
#[derive(Debug, Clone, PartialEq)]
pub enum OwnedAttributeValue {
    Text(String),
    Float32(F32),
    Float64(F64),
    Int32(i32),
    Int64(i64),
    Uint32(u32),
    Uint64(u64),
    Bool(bool),
    Vec3Float(F32, F32, F32),
    Vec3Int(i32, i32, i32),
    Vec3Uint(u32, u32, u32),
    Vec4Float(F32, F32, F32, F32),
    Vec4Int(i32, i32, i32, i32),
    Vec4Uint(u32, u32, u32, u32),
    Bytes(Vec<u8>),
    Any(OwnedArbitraryAttributeValue),
}

impl TemplateValue for OwnedAttributeValue {
    open spec fn value(&self) -> AttributeValueView {
        match *self {
            OwnedAttributeValue::Text(text) => AttributeValueView::Text(text@),
            OwnedAttributeValue::Float32(f) => AttributeValueView::Float32(f),
            OwnedAttributeValue::Float64(f) => AttributeValueView::Float64(f),
            OwnedAttributeValue::Int32(i) => AttributeValueView::Int32(i),
            OwnedAttributeValue::Int64(i) => AttributeValueView::Int64(i),
            OwnedAttributeValue::Uint32(u) => AttributeValueView::Uint32(u),
            OwnedAttributeValue::Uint64(u) => AttributeValueView::Uint64(u),
            OwnedAttributeValue::Bool(b) => AttributeValueView::Bool(b),
            OwnedAttributeValue::Vec3Float(f1, f2, f3) => AttributeValueView::Vec3Float(f1, f2, f3),
            OwnedAttributeValue::Vec3Int(i1, i2, i3) => AttributeValueView::Vec3Int(i1, i2, i3),
            OwnedAttributeValue::Vec3Uint(u1, u2, u3) => AttributeValueView::Vec3Uint(u1, u2, u3),
            OwnedAttributeValue::Vec4Float(f1, f2, f3, f4) => AttributeValueView::Vec4Float(
                f1,
                f2,
                f3,
                f4,
            ),
            OwnedAttributeValue::Vec4Int(i1, i2, i3, i4) => AttributeValueView::Vec4Int(
                i1,
                i2,
                i3,
                i4,
            ),
            OwnedAttributeValue::Vec4Uint(u1, u2, u3, u4) => AttributeValueView::Vec4Uint(
                u1,
                u2,
                u3,
                u4,
            ),
            OwnedAttributeValue::Bytes(bytes) => AttributeValueView::Bytes(bytes@),
            OwnedAttributeValue::Any(any) => AttributeValueView::Any {
                value: any.value,
                cmp: any.cmp,
            },
        }
    }

    fn allocate<'b>(&self, bump: &'b Bump) -> (res: AttributeValue<'b>) {
        match self {
            OwnedAttributeValue::Text(text) => {
                let text: &'b String = bump.alloc(text.clone());
                AttributeValue::Text(text.as_str())
            },
            OwnedAttributeValue::Float32(f) => AttributeValue::Float32(*f),
            OwnedAttributeValue::Float64(f) => AttributeValue::Float64(*f),
            OwnedAttributeValue::Int32(i) => AttributeValue::Int32(*i),
            OwnedAttributeValue::Int64(i) => AttributeValue::Int64(*i),
            OwnedAttributeValue::Uint32(u) => AttributeValue::Uint32(*u),
            OwnedAttributeValue::Uint64(u) => AttributeValue::Uint64(*u),
            OwnedAttributeValue::Bool(b) => AttributeValue::Bool(*b),
            OwnedAttributeValue::Vec3Float(f1, f2, f3) => AttributeValue::Vec3Float(*f1, *f2, *f3),
            OwnedAttributeValue::Vec3Int(i1, i2, i3) => AttributeValue::Vec3Int(*i1, *i2, *i3),
            OwnedAttributeValue::Vec3Uint(u1, u2, u3) => AttributeValue::Vec3Uint(*u1, *u2, *u3),
            OwnedAttributeValue::Vec4Float(f1, f2, f3, f4) => AttributeValue::Vec4Float(
                *f1,
                *f2,
                *f3,
                *f4,
            ),
            OwnedAttributeValue::Vec4Int(i1, i2, i3, i4) => AttributeValue::Vec4Int(
                *i1,
                *i2,
                *i3,
                *i4,
            ),
            OwnedAttributeValue::Vec4Uint(u1, u2, u3, u4) => AttributeValue::Vec4Uint(
                *u1,
                *u2,
                *u3,
                *u4,
            ),
            OwnedAttributeValue::Bytes(bytes) => {
                let bytes: &'b Vec<u8> = bump.alloc(bytes.clone());
                AttributeValue::Bytes(bytes.as_slice())
            },
            OwnedAttributeValue::Any(owned) => AttributeValue::Any(
                ArbitraryAttributeValue { value: bump.alloc(owned.value), cmp: owned.cmp },
            ),
        }
    }
}

/// What a value in an arena says is what it holds, of the same kind and in the same order.
pub proof fn law_what_a_value_says(value: AttributeValue)
    ensures
        value matches AttributeValue::Text(text) ==> value@ == AttributeValueView::Text(text@),
        value matches AttributeValue::Bytes(bytes) ==> value@ == AttributeValueView::Bytes(bytes@),
        value matches AttributeValue::Float32(a) ==> value@ == AttributeValueView::Float32(a),
        value matches AttributeValue::Float64(a) ==> value@ == AttributeValueView::Float64(a),
        value matches AttributeValue::Int32(a) ==> value@ == AttributeValueView::Int32(a),
        value matches AttributeValue::Int64(a) ==> value@ == AttributeValueView::Int64(a),
        value matches AttributeValue::Uint32(a) ==> value@ == AttributeValueView::Uint32(a),
        value matches AttributeValue::Uint64(a) ==> value@ == AttributeValueView::Uint64(a),
        value matches AttributeValue::Bool(a) ==> value@ == AttributeValueView::Bool(a),
        value matches AttributeValue::Vec3Float(a, b, c)
            ==> value@ == AttributeValueView::Vec3Float(a, b, c),
        value matches AttributeValue::Vec3Int(a, b, c)
            ==> value@ == AttributeValueView::Vec3Int(a, b, c),
        value matches AttributeValue::Vec3Uint(a, b, c)
            ==> value@ == AttributeValueView::Vec3Uint(a, b, c),
        value matches AttributeValue::Vec4Float(a, b, c, d)
            ==> value@ == AttributeValueView::Vec4Float(a, b, c, d),
        value matches AttributeValue::Vec4Int(a, b, c, d)
            ==> value@ == AttributeValueView::Vec4Int(a, b, c, d),
        value matches AttributeValue::Vec4Uint(a, b, c, d)
            ==> value@ == AttributeValueView::Vec4Uint(a, b, c, d),
        value matches AttributeValue::Any(any) ==> value@ == (AttributeValueView::Any {
            value: *any.value,
            cmp: any.cmp,
        }),
{
}

/// What a value of a template says, and so what is allocated for it, is what it holds, of the same kind
/// and in the same order.
pub proof fn law_what_a_template_value_says(
    fixed: StaticAttributeValue,
    owned: OwnedAttributeValue,
)
    ensures
        fixed matches StaticAttributeValue::Text(text)
            ==> fixed.value() == AttributeValueView::Text(text@),
        fixed matches StaticAttributeValue::Bytes(bytes)
            ==> fixed.value() == AttributeValueView::Bytes(bytes@),
        fixed matches StaticAttributeValue::Float32(a)
            ==> fixed.value() == AttributeValueView::Float32(a),
        fixed matches StaticAttributeValue::Float64(a)
            ==> fixed.value() == AttributeValueView::Float64(a),
        fixed matches StaticAttributeValue::Int32(a)
            ==> fixed.value() == AttributeValueView::Int32(a),
        fixed matches StaticAttributeValue::Int64(a)
            ==> fixed.value() == AttributeValueView::Int64(a),
        fixed matches StaticAttributeValue::Uint32(a)
            ==> fixed.value() == AttributeValueView::Uint32(a),
        fixed matches StaticAttributeValue::Uint64(a)
            ==> fixed.value() == AttributeValueView::Uint64(a),
        fixed matches StaticAttributeValue::Bool(a)
            ==> fixed.value() == AttributeValueView::Bool(a),
        fixed matches StaticAttributeValue::Vec3Float(a, b, c)
            ==> fixed.value() == AttributeValueView::Vec3Float(a, b, c),
        fixed matches StaticAttributeValue::Vec3Int(a, b, c)
            ==> fixed.value() == AttributeValueView::Vec3Int(a, b, c),
        fixed matches StaticAttributeValue::Vec3Uint(a, b, c)
            ==> fixed.value() == AttributeValueView::Vec3Uint(a, b, c),
        fixed matches StaticAttributeValue::Vec4Float(a, b, c, d)
            ==> fixed.value() == AttributeValueView::Vec4Float(a, b, c, d),
        fixed matches StaticAttributeValue::Vec4Int(a, b, c, d)
            ==> fixed.value() == AttributeValueView::Vec4Int(a, b, c, d),
        fixed matches StaticAttributeValue::Vec4Uint(a, b, c, d)
            ==> fixed.value() == AttributeValueView::Vec4Uint(a, b, c, d),
        owned matches OwnedAttributeValue::Text(text)
            ==> owned.value() == AttributeValueView::Text(text@),
        owned matches OwnedAttributeValue::Bytes(bytes)
            ==> owned.value() == AttributeValueView::Bytes(bytes@),
        owned matches OwnedAttributeValue::Float32(a)
            ==> owned.value() == AttributeValueView::Float32(a),
        owned matches OwnedAttributeValue::Float64(a)
            ==> owned.value() == AttributeValueView::Float64(a),
        owned matches OwnedAttributeValue::Int32(a)
            ==> owned.value() == AttributeValueView::Int32(a),
        owned matches OwnedAttributeValue::Int64(a)
            ==> owned.value() == AttributeValueView::Int64(a),
        owned matches OwnedAttributeValue::Uint32(a)
            ==> owned.value() == AttributeValueView::Uint32(a),
        owned matches OwnedAttributeValue::Uint64(a)
            ==> owned.value() == AttributeValueView::Uint64(a),
        owned matches OwnedAttributeValue::Bool(a) ==> owned.value() == AttributeValueView::Bool(a),
        owned matches OwnedAttributeValue::Vec3Float(a, b, c)
            ==> owned.value() == AttributeValueView::Vec3Float(a, b, c),
        owned matches OwnedAttributeValue::Vec3Int(a, b, c)
            ==> owned.value() == AttributeValueView::Vec3Int(a, b, c),
        owned matches OwnedAttributeValue::Vec3Uint(a, b, c)
            ==> owned.value() == AttributeValueView::Vec3Uint(a, b, c),
        owned matches OwnedAttributeValue::Vec4Float(a, b, c, d)
            ==> owned.value() == AttributeValueView::Vec4Float(a, b, c, d),
        owned matches OwnedAttributeValue::Vec4Int(a, b, c, d)
            ==> owned.value() == AttributeValueView::Vec4Int(a, b, c, d),
        owned matches OwnedAttributeValue::Vec4Uint(a, b, c, d)
            ==> owned.value() == AttributeValueView::Vec4Uint(a, b, c, d),
        owned matches OwnedAttributeValue::Any(any) ==> owned.value() == (AttributeValueView::Any {
            value: any.value,
            cmp: any.cmp,
        }),
{
}

/// Single precision numbers are compared by IEEE 754. A number has a sign bit, eight bits of exponent and
/// 23 bits of fraction. One with all bits of the exponent and some bit of the fraction set equals
/// nothing. Two others are equal exactly where all three fields are, or where both are zero apart from
/// the sign.
pub proof fn law_single_precision_equality(a: F32, b: F32)
    ensures
        (a.bits / 0x80_0000) % 0x100 == 0xff && a.bits % 0x80_0000 > 0 ==> !a.eq_spec(&b)
            && !b.eq_spec(&a),
        !((a.bits / 0x80_0000) % 0x100 == 0xff && a.bits % 0x80_0000 > 0) && !((b.bits / 0x80_0000)
            % 0x100 == 0xff && b.bits % 0x80_0000 > 0) ==> (a.eq_spec(&b) <==> {
            ||| a.bits / 0x8000_0000 == b.bits / 0x8000_0000 && (a.bits / 0x80_0000) % 0x100 == (
            b.bits / 0x80_0000) % 0x100 && a.bits % 0x80_0000 == b.bits % 0x80_0000
            ||| (a.bits == 0 || a.bits == 0x8000_0000) && (b.bits == 0 || b.bits == 0x8000_0000)
        }),
{
}

/// Double precision numbers are compared by IEEE 754. A number has a sign bit, eleven bits of exponent
/// and 52 bits of fraction. One with all bits of the exponent and some bit of the fraction set equals
/// nothing. Two others are equal exactly where all three fields are, or where both are zero apart from
/// the sign.
pub proof fn law_double_precision_equality(a: F64, b: F64)
    ensures
        (a.bits / 0x10_0000_0000_0000) % 0x800 == 0x7ff && a.bits % 0x10_0000_0000_0000 > 0
            ==> !a.eq_spec(&b) && !b.eq_spec(&a),
        !((a.bits / 0x10_0000_0000_0000) % 0x800 == 0x7ff && a.bits % 0x10_0000_0000_0000 > 0) && !((
        b.bits / 0x10_0000_0000_0000) % 0x800 == 0x7ff && b.bits % 0x10_0000_0000_0000 > 0) ==> (
        a.eq_spec(&b) <==> {
            ||| a.bits / 0x8000_0000_0000_0000 == b.bits / 0x8000_0000_0000_0000 && (a.bits
                / 0x10_0000_0000_0000) % 0x800 == (b.bits / 0x10_0000_0000_0000) % 0x800 && a.bits
                % 0x10_0000_0000_0000 == b.bits % 0x10_0000_0000_0000
            ||| (a.bits == 0 || a.bits == 0x8000_0000_0000_0000) && (b.bits == 0 || b.bits
                == 0x8000_0000_0000_0000)
        }),
{
}

/// What is allocated for a value that is created at compile time holds the same, of the same kind and in
/// the same order.
pub proof fn law_allocating_a_static_value<'b>(
    fixed: &StaticAttributeValue,
    bump: &'b Bump,
    res: AttributeValue<'b>,
)
    requires
        call_ensures(StaticAttributeValue::allocate, (fixed, bump), res),
    ensures
        *fixed matches StaticAttributeValue::Text(text) ==> res is Text && res->Text_0@ == text@,
        *fixed matches StaticAttributeValue::Bytes(bytes)
            ==> res is Bytes && res->Bytes_0@ == bytes@,
        *fixed matches StaticAttributeValue::Float32(a) ==> res == AttributeValue::Float32(a),
        *fixed matches StaticAttributeValue::Float64(a) ==> res == AttributeValue::Float64(a),
        *fixed matches StaticAttributeValue::Int32(a) ==> res == AttributeValue::Int32(a),
        *fixed matches StaticAttributeValue::Int64(a) ==> res == AttributeValue::Int64(a),
        *fixed matches StaticAttributeValue::Uint32(a) ==> res == AttributeValue::Uint32(a),
        *fixed matches StaticAttributeValue::Uint64(a) ==> res == AttributeValue::Uint64(a),
        *fixed matches StaticAttributeValue::Bool(a) ==> res == AttributeValue::Bool(a),
        *fixed matches StaticAttributeValue::Vec3Float(a, b, c)
            ==> res == AttributeValue::Vec3Float(a, b, c),
        *fixed matches StaticAttributeValue::Vec3Int(a, b, c)
            ==> res == AttributeValue::Vec3Int(a, b, c),
        *fixed matches StaticAttributeValue::Vec3Uint(a, b, c)
            ==> res == AttributeValue::Vec3Uint(a, b, c),
        *fixed matches StaticAttributeValue::Vec4Float(a, b, c, d)
            ==> res == AttributeValue::Vec4Float(a, b, c, d),
        *fixed matches StaticAttributeValue::Vec4Int(a, b, c, d)
            ==> res == AttributeValue::Vec4Int(a, b, c, d),
        *fixed matches StaticAttributeValue::Vec4Uint(a, b, c, d)
            ==> res == AttributeValue::Vec4Uint(a, b, c, d),
{
}

/// What is allocated for a value that is created at run time holds the same, of the same kind and in
/// the same order.
pub proof fn law_allocating_an_owned_value<'b>(
    owned: &OwnedAttributeValue,
    bump: &'b Bump,
    res: AttributeValue<'b>,
)
    requires
        call_ensures(OwnedAttributeValue::allocate, (owned, bump), res),
    ensures
        *owned matches OwnedAttributeValue::Text(text) ==> res is Text && res->Text_0@ == text@,
        *owned matches OwnedAttributeValue::Bytes(bytes)
            ==> res is Bytes && res->Bytes_0@ == bytes@,
        *owned matches OwnedAttributeValue::Float32(a) ==> res == AttributeValue::Float32(a),
        *owned matches OwnedAttributeValue::Float64(a) ==> res == AttributeValue::Float64(a),
        *owned matches OwnedAttributeValue::Int32(a) ==> res == AttributeValue::Int32(a),
        *owned matches OwnedAttributeValue::Int64(a) ==> res == AttributeValue::Int64(a),
        *owned matches OwnedAttributeValue::Uint32(a) ==> res == AttributeValue::Uint32(a),
        *owned matches OwnedAttributeValue::Uint64(a) ==> res == AttributeValue::Uint64(a),
        *owned matches OwnedAttributeValue::Bool(a) ==> res == AttributeValue::Bool(a),
        *owned matches OwnedAttributeValue::Vec3Float(a, b, c)
            ==> res == AttributeValue::Vec3Float(a, b, c),
        *owned matches OwnedAttributeValue::Vec3Int(a, b, c)
            ==> res == AttributeValue::Vec3Int(a, b, c),
        *owned matches OwnedAttributeValue::Vec3Uint(a, b, c)
            ==> res == AttributeValue::Vec3Uint(a, b, c),
        *owned matches OwnedAttributeValue::Vec4Float(a, b, c, d)
            ==> res == AttributeValue::Vec4Float(a, b, c, d),
        *owned matches OwnedAttributeValue::Vec4Int(a, b, c, d)
            ==> res == AttributeValue::Vec4Int(a, b, c, d),
        *owned matches OwnedAttributeValue::Vec4Uint(a, b, c, d)
            ==> res == AttributeValue::Vec4Uint(a, b, c, d),
        *owned matches OwnedAttributeValue::Any(any)
            ==> res is Any && *res->Any_0.value == any.value
            && res->Any_0.cmp == any.cmp,
{
}

/// Numbers compare as their fields say.
pub proof fn law_comparing_numbers(a: &F32, b: &F32, c: &F64, d: &F64, res: bool)
    ensures
        call_ensures(F32::eq, (a, b), res) ==> res == a.eq_spec(b),
        call_ensures(F64::eq, (c, d), res) ==> res == c.eq_spec(d),
{
}

} // verus!
