//! The tagged-union value type of the automation layer.
//!
//! A [`SmartVariant`] is the safe, closed representation of every value kind
//! the automation wire format can carry.  On the wire a value is a
//! [`RawVariant`]: a 16-bit discriminant beside an untyped 64-bit payload whose
//! meaning the discriminant alone decides.  The predicates here say exactly
//! which raw form encodes which value, and the round-trip law proves that
//! reading a raw form back yields the value that was written — text included,
//! through its string handle — for every variant.
//!
//! Floating-point payloads (the 4-byte real, the 8-byte real and the date) are
//! carried as their IEEE-754 bit patterns, which is what the wire format holds
//! anyway; interpreting the bits is the caller's affair.

use vstd::prelude::*;

verus! {

use crate::bstr::BstrHeap;
use crate::utf16::decode16;
use crate::utf16::encode16;
use crate::utf16::lemma_utf16_round_trip;

/// Discriminant: no value.
pub const VT_EMPTY: u16 = 0;

/// Discriminant: 2-byte signed integer.
pub const VT_I2: u16 = 2;

/// Discriminant: 4-byte signed integer.
pub const VT_I4: u16 = 3;

/// Discriminant: 4-byte real, carried as bits.
pub const VT_R4: u16 = 4;

/// Discriminant: 8-byte real, carried as bits.
pub const VT_R8: u16 = 5;

/// Discriminant: date, an 8-byte real carried as bits.
pub const VT_DATE: u16 = 7;

/// Discriminant: string handle.
pub const VT_BSTR: u16 = 8;

/// Discriminant: dynamic-dispatch object reference.
pub const VT_DISPATCH: u16 = 9;

/// Discriminant: 32-bit status code.
pub const VT_ERROR: u16 = 10;

/// Discriminant: boolean; all-bits-one is true, zero is false.
pub const VT_BOOL: u16 = 11;

/// Discriminant: nested-value reference.
pub const VT_VARIANT: u16 = 12;

/// Discriminant: base object reference.
pub const VT_UNKNOWN: u16 = 13;

/// Discriminant: 1-byte signed integer.
pub const VT_I1: u16 = 16;

/// Discriminant: 1-byte unsigned integer.
pub const VT_UI1: u16 = 17;

/// Discriminant: 2-byte unsigned integer.
pub const VT_UI2: u16 = 18;

/// Discriminant: 4-byte unsigned integer.
pub const VT_UI4: u16 = 19;

/// Discriminant: platform signed integer.
pub const VT_INT: u16 = 22;

/// Discriminant: platform unsigned integer.
pub const VT_UINT: u16 = 23;

/// Discriminant: array reference.
pub const VT_ARRAY: u16 = 8192;

/// Discriminant: untyped pointer reference.
pub const VT_BYREF: u16 = 16384;

/// The boolean true payload: -1 as a signed 16-bit value.
pub const VARIANT_TRUE_BITS: u64 = 0xFFFF;

/// The closed set of values the automation layer exchanges.  Reference
/// variants carry a raw pointer value and own no reference count by
/// themselves; `Text` owns its decoded characters and no foreign buffer.
#[derive(Debug, PartialEq)]
pub enum SmartVariant {
    /// No value.
    Empty,
    /// 2-byte signed integer.
    Int2(i16),
    /// 4-byte signed integer.
    Int4(i32),
    /// 4-byte real as IEEE-754 bits.
    Real4(u32),
    /// 8-byte real as IEEE-754 bits.
    Real8(u64),
    /// Date: an 8-byte real as IEEE-754 bits.
    Date(u64),
    /// Text, decoded to UTF-8.
    Text(String),
    /// Dynamic-dispatch object reference.
    IDispatch(usize),
    /// 32-bit status code.
    ErrorCode(i32),
    /// Boolean.
    Bool(bool),
    /// Nested-value reference.
    Variant(usize),
    /// Base object reference.
    IUnknown(usize),
    /// 1-byte signed integer.
    Int1(i8),
    /// 1-byte unsigned integer.
    UInt1(u8),
    /// 2-byte unsigned integer.
    UInt2(u16),
    /// 4-byte unsigned integer.
    UInt4(u32),
    /// Platform signed integer.
    Int(i32),
    /// Platform unsigned integer.
    UInt(u32),
    /// Array reference.
    Array(usize),
    /// Untyped pointer reference.
    ByRef(usize),
}

/// The mathematical value of a [`SmartVariant`]: the same variants with text
/// abstracted to its character sequence.
pub enum VariantView {
    /// No value.
    Empty,
    /// 2-byte signed integer.
    Int2(i16),
    /// 4-byte signed integer.
    Int4(i32),
    /// 4-byte real as IEEE-754 bits.
    Real4(u32),
    /// 8-byte real as IEEE-754 bits.
    Real8(u64),
    /// Date bits.
    Date(u64),
    /// Text as a character sequence.
    Text(Seq<char>),
    /// Dynamic-dispatch object reference.
    IDispatch(usize),
    /// 32-bit status code.
    ErrorCode(i32),
    /// Boolean.
    Bool(bool),
    /// Nested-value reference.
    Variant(usize),
    /// Base object reference.
    IUnknown(usize),
    /// 1-byte signed integer.
    Int1(i8),
    /// 1-byte unsigned integer.
    UInt1(u8),
    /// 2-byte unsigned integer.
    UInt2(u16),
    /// 4-byte unsigned integer.
    UInt4(u32),
    /// Platform signed integer.
    Int(i32),
    /// Platform unsigned integer.
    UInt(u32),
    /// Array reference.
    Array(usize),
    /// Untyped pointer reference.
    ByRef(usize),
}

impl View for SmartVariant {
    type V = VariantView;

    open spec fn view(&self) -> VariantView {
        match self {
            SmartVariant::Empty => VariantView::Empty,
            SmartVariant::Int2(x) => VariantView::Int2(*x),
            SmartVariant::Int4(x) => VariantView::Int4(*x),
            SmartVariant::Real4(x) => VariantView::Real4(*x),
            SmartVariant::Real8(x) => VariantView::Real8(*x),
            SmartVariant::Date(x) => VariantView::Date(*x),
            SmartVariant::Text(s) => VariantView::Text(s@),
            SmartVariant::IDispatch(p) => VariantView::IDispatch(*p),
            SmartVariant::ErrorCode(x) => VariantView::ErrorCode(*x),
            SmartVariant::Bool(b) => VariantView::Bool(*b),
            SmartVariant::Variant(p) => VariantView::Variant(*p),
            SmartVariant::IUnknown(p) => VariantView::IUnknown(*p),
            SmartVariant::Int1(x) => VariantView::Int1(*x),
            SmartVariant::UInt1(x) => VariantView::UInt1(*x),
            SmartVariant::UInt2(x) => VariantView::UInt2(*x),
            SmartVariant::UInt4(x) => VariantView::UInt4(*x),
            SmartVariant::Int(x) => VariantView::Int(*x),
            SmartVariant::UInt(x) => VariantView::UInt(*x),
            SmartVariant::Array(p) => VariantView::Array(*p),
            SmartVariant::ByRef(p) => VariantView::ByRef(*p),
        }
    }
}

/// The wire form of one value: the discriminant and the untyped 64-bit payload
/// it governs.  This is the only place where payload bits are reinterpreted,
/// and nothing outside the conversion functions reads them.
#[derive(Clone, Copy, Debug, PartialEq, Eq, Structural)]
pub struct RawVariant {
    /// The discriminant.
    pub vt: u16,
    /// The payload bits.
    pub data: u64,
}

/// The raw form holding no value.
pub open spec fn spec_raw_empty() -> RawVariant {
    RawVariant { vt: VT_EMPTY, data: 0 }
}

/// The raw form holding no value.
pub fn raw_empty() -> (r: RawVariant)
    ensures
        r == spec_raw_empty(),
{
    RawVariant { vt: VT_EMPTY, data: 0 }
}

/// The discriminants this layer recognizes: exactly those of the
/// [`SmartVariant`] variants.
pub open spec fn recognized_vt(vt: u16) -> bool {
    ||| vt == VT_EMPTY
    ||| vt == VT_I2
    ||| vt == VT_I4
    ||| vt == VT_R4
    ||| vt == VT_R8
    ||| vt == VT_DATE
    ||| vt == VT_BSTR
    ||| vt == VT_DISPATCH
    ||| vt == VT_ERROR
    ||| vt == VT_BOOL
    ||| vt == VT_VARIANT
    ||| vt == VT_UNKNOWN
    ||| vt == VT_I1
    ||| vt == VT_UI1
    ||| vt == VT_UI2
    ||| vt == VT_UI4
    ||| vt == VT_INT
    ||| vt == VT_UINT
    ||| vt == VT_ARRAY
    ||| vt == VT_BYREF
}

/// The value a recognized raw form denotes, given the heap its string handle
/// (if any) lives on.  A true boolean is all-bits-one in its 16-bit payload;
/// any other non-zero pattern is not produced by this layer and reads as
/// false.
pub open spec fn raw_value_view(raw: RawVariant, heap: BstrHeap) -> VariantView {
    if raw.vt == VT_I2 {
        VariantView::Int2(raw.data as u16 as i16)
    } else if raw.vt == VT_I4 {
        VariantView::Int4(raw.data as u32 as i32)
    } else if raw.vt == VT_R4 {
        VariantView::Real4(raw.data as u32)
    } else if raw.vt == VT_R8 {
        VariantView::Real8(raw.data)
    } else if raw.vt == VT_DATE {
        VariantView::Date(raw.data)
    } else if raw.vt == VT_BSTR {
        VariantView::Text(
            if raw.data == 0 {
                Seq::empty()
            } else {
                decode16(heap.contents(raw.data as usize))
            },
        )
    } else if raw.vt == VT_DISPATCH {
        VariantView::IDispatch(raw.data as usize)
    } else if raw.vt == VT_ERROR {
        VariantView::ErrorCode(raw.data as u32 as i32)
    } else if raw.vt == VT_BOOL {
        VariantView::Bool(raw.data as u16 == 0xFFFFu16)
    } else if raw.vt == VT_VARIANT {
        VariantView::Variant(raw.data as usize)
    } else if raw.vt == VT_UNKNOWN {
        VariantView::IUnknown(raw.data as usize)
    } else if raw.vt == VT_I1 {
        VariantView::Int1(raw.data as u8 as i8)
    } else if raw.vt == VT_UI1 {
        VariantView::UInt1(raw.data as u8)
    } else if raw.vt == VT_UI2 {
        VariantView::UInt2(raw.data as u16)
    } else if raw.vt == VT_UI4 {
        VariantView::UInt4(raw.data as u32)
    } else if raw.vt == VT_INT {
        VariantView::Int(raw.data as u32 as i32)
    } else if raw.vt == VT_UINT {
        VariantView::UInt(raw.data as u32)
    } else if raw.vt == VT_ARRAY {
        VariantView::Array(raw.data as usize)
    } else if raw.vt == VT_BYREF {
        VariantView::ByRef(raw.data as usize)
    } else {
        VariantView::Empty
    }
}

/// The discriminant and payload bits a value constructs, said without looking
/// at any heap: for text only that the payload is a non-null handle value.
pub open spec fn raw_encodes_bits(raw: RawVariant, v: VariantView) -> bool {
    match v {
        VariantView::Empty => raw.vt == VT_EMPTY && raw.data == 0,
        VariantView::Int2(x) => raw.vt == VT_I2 && raw.data == (x as u16) as u64,
        VariantView::Int4(x) => raw.vt == VT_I4 && raw.data == (x as u32) as u64,
        VariantView::Real4(x) => raw.vt == VT_R4 && raw.data == x as u64,
        VariantView::Real8(x) => raw.vt == VT_R8 && raw.data == x,
        VariantView::Date(x) => raw.vt == VT_DATE && raw.data == x,
        VariantView::Text(t) => raw.vt == VT_BSTR && raw.data <= usize::MAX && raw.data != 0,
        VariantView::IDispatch(p) => raw.vt == VT_DISPATCH && raw.data == p as u64,
        VariantView::ErrorCode(x) => raw.vt == VT_ERROR && raw.data == (x as u32) as u64,
        VariantView::Bool(b) => raw.vt == VT_BOOL && raw.data == if b {
            VARIANT_TRUE_BITS
        } else {
            0
        },
        VariantView::Variant(p) => raw.vt == VT_VARIANT && raw.data == p as u64,
        VariantView::IUnknown(p) => raw.vt == VT_UNKNOWN && raw.data == p as u64,
        VariantView::Int1(x) => raw.vt == VT_I1 && raw.data == (x as u8) as u64,
        VariantView::UInt1(x) => raw.vt == VT_UI1 && raw.data == x as u64,
        VariantView::UInt2(x) => raw.vt == VT_UI2 && raw.data == x as u64,
        VariantView::UInt4(x) => raw.vt == VT_UI4 && raw.data == x as u64,
        VariantView::Int(x) => raw.vt == VT_INT && raw.data == (x as u32) as u64,
        VariantView::UInt(x) => raw.vt == VT_UINT && raw.data == x as u64,
        VariantView::Array(p) => raw.vt == VT_ARRAY && raw.data == p as u64,
        VariantView::ByRef(p) => raw.vt == VT_BYREF && raw.data == p as u64,
    }
}

/// The raw form a value constructs: the exact discriminant and payload bits,
/// with text owning a live string handle holding the encoded characters.
pub open spec fn raw_encodes(raw: RawVariant, v: VariantView, heap: BstrHeap) -> bool {
    &&& raw_encodes_bits(raw, v)
    &&& match v {
        VariantView::Text(t) => heap.is_live(raw.data as usize) && heap.contents(raw.data as usize)
            == encode16(t),
        _ => true,
    }
}

/// The round-trip law of the value bridge: whatever raw form a value
/// constructs, reading that form back — on the heap it was built against —
/// yields the value unchanged.  For text this includes the trip through the
/// allocated string handle; for reference variants the pointer comes back
/// equal.
pub proof fn lemma_variant_round_trip(raw: RawVariant, v: VariantView, heap: BstrHeap)
    requires
        raw_encodes(raw, v, heap),
    ensures
        raw_value_view(raw, heap) == v,
{
    match v {
        VariantView::Text(t) => {
            lemma_utf16_round_trip(t);
        },
        VariantView::Int2(x) => {
            assert(((x as u16) as u64) as u16 as i16 == x) by (bit_vector);
        },
        VariantView::Int4(x) => {
            assert(((x as u32) as u64) as u32 as i32 == x) by (bit_vector);
        },
        VariantView::ErrorCode(x) => {
            assert(((x as u32) as u64) as u32 as i32 == x) by (bit_vector);
        },
        VariantView::Int(x) => {
            assert(((x as u32) as u64) as u32 as i32 == x) by (bit_vector);
        },
        VariantView::Int1(x) => {
            assert(((x as u8) as u64) as u8 as i8 == x) by (bit_vector);
        },
        _ => {},
    }
}

/// A transient staging wrapper around one raw tagged-union instance, used only
/// while converting between the wire form and [`SmartVariant`].  The
/// conversions and the clear operation live beside the foreign-side model,
/// which they need for string handles and reference counts.
pub struct AutoVariant {
    /// The staged raw form.
    pub raw: RawVariant,
}

impl AutoVariant {
    /// A fresh transient holding no value.
    pub fn new() -> (r: AutoVariant)
        ensures
            r.raw == spec_raw_empty(),
    {
        AutoVariant { raw: raw_empty() }
    }

    /// The current discriminant.
    pub fn vtype(&self) -> (r: u16)
        ensures
            r == self.raw.vt,
    {
        self.raw.vt
    }

    /// The current payload bits.
    pub fn data(&self) -> (r: u64)
        ensures
            r == self.raw.data,
    {
        self.raw.data
    }
}

} // verus!
