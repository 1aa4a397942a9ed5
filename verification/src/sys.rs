//! The vocabulary shared with the native ray-tracing kernels: element formats,
//! geometry kinds, error codes and the handles that name native objects.

use vstd::prelude::*;

verus! {

/// A single-precision number held by its IEEE-754 bit pattern.
///
/// The library moves such numbers between buffers and compares a few of them
/// with fixed patterns; it never does arithmetic on them.
pub type Real = u32;

/// Bit pattern of `0.0`.
pub const REAL_ZERO: Real = 0;

/// Bit pattern of `1.0`.
pub const REAL_ONE: Real = 0x3f80_0000;

/// Bit pattern of positive infinity.
pub const REAL_INFINITY: Real = 0x7f80_0000;

/// Bit pattern of negative infinity.
pub const REAL_NEG_INFINITY: Real = 0xff80_0000;

/// Invalid ID, used to mark an unset primitive, geometry or instance ID.
pub const INVALID_ID: u32 = 0xffff_ffff;

/// The version of the native library that the BVH builder was audited for.
pub const RTC_VERSION: isize = 31305;

/// Whether a bit pattern stands for a finite number greater than zero.
///
/// Positive finite numbers are exactly the patterns between `0.0` and positive
/// infinity: the sign bit is clear, the exponent is not all ones, and not all
/// bits are zero.
pub open spec fn is_positive_finite(x: Real) -> bool {
    REAL_ZERO < x < REAL_INFINITY
}

/// Executable form of [`is_positive_finite`].
pub fn positive_finite(x: Real) -> (r: bool)
    ensures
        r == is_positive_finite(x),
{
    REAL_ZERO < x && x < REAL_INFINITY
}

/// Element formats of a geometry buffer.
#[derive(Debug, Clone, Copy, PartialEq, Eq, Structural, Hash)]
#[allow(non_camel_case_types)]
pub enum RTCFormat {
    UNDEFINED,
    UCHAR,
    UCHAR2,
    UCHAR3,
    UCHAR4,
    CHAR,
    CHAR2,
    CHAR3,
    CHAR4,
    USHORT,
    USHORT2,
    USHORT3,
    USHORT4,
    SHORT,
    SHORT2,
    SHORT3,
    SHORT4,
    UINT,
    UINT2,
    UINT3,
    UINT4,
    INT,
    INT2,
    INT3,
    INT4,
    ULLONG,
    ULLONG2,
    ULLONG3,
    ULLONG4,
    LLONG,
    LLONG2,
    LLONG3,
    LLONG4,
    FLOAT,
    FLOAT2,
    FLOAT3,
    FLOAT4,
    FLOAT5,
    FLOAT6,
    FLOAT7,
    FLOAT8,
    FLOAT9,
    FLOAT10,
    FLOAT11,
    FLOAT12,
    FLOAT13,
    FLOAT14,
    FLOAT15,
    FLOAT16,
    FLOAT2X2_ROW_MAJOR,
    FLOAT2X3_ROW_MAJOR,
    FLOAT2X4_ROW_MAJOR,
    FLOAT3X2_ROW_MAJOR,
    FLOAT3X3_ROW_MAJOR,
    FLOAT3X4_ROW_MAJOR,
    FLOAT4X2_ROW_MAJOR,
    FLOAT4X3_ROW_MAJOR,
    FLOAT4X4_ROW_MAJOR,
    FLOAT2X2_COLUMN_MAJOR,
    FLOAT2X3_COLUMN_MAJOR,
    FLOAT2X4_COLUMN_MAJOR,
    FLOAT3X2_COLUMN_MAJOR,
    FLOAT3X3_COLUMN_MAJOR,
    FLOAT3X4_COLUMN_MAJOR,
    FLOAT4X2_COLUMN_MAJOR,
    FLOAT4X3_COLUMN_MAJOR,
    FLOAT4X4_COLUMN_MAJOR,
    GRID,
}

/// Element format of a geometry buffer.
pub type Format = RTCFormat;

/// An element of a [`RTCFormat::GRID`] buffer: where a grid primitive starts in
/// the vertex buffer, how far its rows are apart, and its resolution.
#[derive(Debug, Clone, Copy, PartialEq, Eq, Structural, Hash)]
#[allow(non_snake_case)]
pub struct RTCGrid {
    pub startVertexID: u32,
    pub stride: u32,
    pub width: u16,
    pub height: u16,
}

/// The kinds of geometry.
#[derive(Debug, Clone, Copy, PartialEq, Eq, Structural, Hash)]
#[allow(non_camel_case_types)]
pub enum GeometryKind {
    TRIANGLE,
    QUAD,
    GRID,
    SUBDIVISION,
    CONE_LINEAR_CURVE,
    ROUND_LINEAR_CURVE,
    FLAT_LINEAR_CURVE,
    ROUND_BEZIER_CURVE,
    FLAT_BEZIER_CURVE,
    NORMAL_ORIENTED_BEZIER_CURVE,
    ROUND_BSPLINE_CURVE,
    FLAT_BSPLINE_CURVE,
    NORMAL_ORIENTED_BSPLINE_CURVE,
    ROUND_HERMITE_CURVE,
    FLAT_HERMITE_CURVE,
    NORMAL_ORIENTED_HERMITE_CURVE,
    SPHERE_POINT,
    DISC_POINT,
    ORIENTED_DISC_POINT,
    ROUND_CATMULL_ROM_CURVE,
    FLAT_CATMULL_ROM_CURVE,
    NORMAL_ORIENTED_CATMULL_ROM_CURVE,
    USER,
    INSTANCE,
}

/// What a geometry buffer is used for.
#[derive(Debug, Clone, Copy, PartialEq, Eq, Structural, Hash)]
#[allow(non_camel_case_types)]
pub enum BufferUsage {
    INDEX,
    VERTEX,
    VERTEX_ATTRIBUTE,
    NORMAL,
    TANGENT,
    NORMAL_DERIVATIVE,
    GRID,
    FACE,
    LEVEL,
    EDGE_CREASE_INDEX,
    EDGE_CREASE_WEIGHT,
    VERTEX_CREASE_INDEX,
    VERTEX_CREASE_WEIGHT,
    HOLE,
    FLAGS,
}

/// Build quality of an acceleration structure.
#[derive(Debug, Clone, Copy, PartialEq, Eq, Structural, Hash)]
#[allow(non_camel_case_types)]
pub enum BuildQuality {
    LOW,
    MEDIUM,
    HIGH,
    REFIT,
}

/// Error codes of the native library.
#[derive(Debug, Clone, Copy, PartialEq, Eq, Structural, Hash)]
#[allow(non_camel_case_types)]
pub enum Error {
    NONE,
    UNKNOWN,
    INVALID_ARGUMENT,
    INVALID_OPERATION,
    OUT_OF_MEMORY,
    UNSUPPORTED_CPU,
    CANCELLED,
}

/// How the boundary of a subdivision topology is treated.
#[derive(Debug, Clone, Copy, PartialEq, Eq, Structural, Hash)]
#[allow(non_camel_case_types)]
pub enum SubdivisionMode {
    NO_BOUNDARY,
    SMOOTH_BOUNDARY,
    PIN_CORNERS,
    PIN_BOUNDARY,
    PIN_ALL,
}

/// Flags of a standalone BVH build.
#[derive(Debug, Clone, Copy, PartialEq, Eq, Structural, Hash)]
#[allow(non_camel_case_types)]
pub enum BuildFlags {
    NONE,
    DYNAMIC,
}

/// A native device, named by its handle.
#[derive(Debug, Clone, Copy, PartialEq, Eq, Structural, Hash)]
pub struct Device {
    pub handle: usize,
}

/// The fixed patterns are those of the IEEE-754 encoding: a sign bit, eight bits of
/// exponent and 23 of fraction. One has the exponent 127 and no fraction, the
/// infinities all ones in the exponent and no fraction, and they differ in the sign.
pub proof fn lemma_patterns_are_those_of_ieee_754()
    ensures
        REAL_ZERO == 0,
        REAL_ONE >> 23 == 127 && REAL_ONE & 0x7f_ffff == 0,
        REAL_INFINITY >> 23 == 255 && REAL_INFINITY & 0x7f_ffff == 0,
        REAL_NEG_INFINITY >> 31 == 1 && REAL_NEG_INFINITY & 0x7fff_ffff == REAL_INFINITY,
        INVALID_ID == u32::MAX,
        RTC_VERSION == 3 * 10_000 + 13 * 100 + 5,
{
    assert(0x3f80_0000u32 >> 23 == 127 && 0x3f80_0000u32 & 0x7f_ffff == 0) by (bit_vector);
    assert(0x7f80_0000u32 >> 23 == 255 && 0x7f80_0000u32 & 0x7f_ffff == 0) by (bit_vector);
    assert(0xff80_0000u32 >> 31 == 1 && 0xff80_0000u32 & 0x7fff_ffff == 0x7f80_0000)
        by (bit_vector);
}

/// A pattern is taken for a finite number greater than zero exactly if its sign bit
/// is clear, its exponent is not all ones, and it is not that of zero.
pub proof fn lemma_positive_finite_by_its_bits(x: Real)
    ensures
        is_positive_finite(x) <==> x >> 31 == 0 && (x >> 23) & 0xff != 0xff && x != 0,
{
    assert(0 < x && x < 0x7f80_0000u32 <==> x >> 31 == 0 && (x >> 23) & 0xff != 0xff && x != 0)
        by (bit_vector);
}

/// A number is positive and finite exactly if its bits lie between those of zero and
/// those of infinity.
pub proof fn lemma_positive_numbers_lie_below_infinity(x: Real, r: bool)
    requires
        call_ensures(positive_finite, (x,), r),
    ensures
        r <==> 0 < x && x < 0x7f80_0000u32,
{
}

} // verus!
