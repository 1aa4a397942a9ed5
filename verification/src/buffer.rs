//! Buffers: element formats, the bytes that a layout takes, native buffers and
//! the views of their mapped contents.

use vstd::prelude::*;

use crate::call::NativeCall;
use crate::sys::{Device, Error, Format, RTCFormat};

verus! {

/// Non-zero number of bytes.
#[derive(Debug, Clone, Copy, PartialEq, Eq, Structural)]
pub struct BufferSize {
    bytes: usize,
}

impl BufferSize {
    #[verifier::type_invariant]
    spec fn non_zero(self) -> bool {
        self.bytes > 0
    }

    /// The number of bytes.
    pub closed spec fn value(self) -> nat {
        self.bytes as nat
    }

    /// The given number of bytes, or `None` if it is zero.
    pub fn new(bytes: usize) -> (r: Option<BufferSize>)
        ensures
            r is None <==> bytes == 0,
            r matches Some(s) ==> s.value() == bytes,
    {
        if bytes == 0 {
            None
        } else {
            Some(BufferSize { bytes })
        }
    }

    /// The number of bytes.
    pub fn get(self) -> (bytes: usize)
        ensures
            bytes == self.value(),
            bytes > 0,
    {
        proof {
            use_type_invariant(self);
        }
        self.bytes
    }
}

/// Number of components of an element; one unless the format says otherwise.
pub open spec fn components(format: RTCFormat) -> nat {
    match format {
        RTCFormat::UCHAR2 | RTCFormat::CHAR2 | RTCFormat::USHORT2 | RTCFormat::SHORT2
        | RTCFormat::UINT2 | RTCFormat::INT2 | RTCFormat::ULLONG2 | RTCFormat::LLONG2
        | RTCFormat::FLOAT2 => 2,
        RTCFormat::UCHAR3 | RTCFormat::CHAR3 | RTCFormat::USHORT3 | RTCFormat::SHORT3
        | RTCFormat::UINT3 | RTCFormat::INT3 | RTCFormat::ULLONG3 | RTCFormat::LLONG3
        | RTCFormat::FLOAT3 => 3,
        RTCFormat::UCHAR4 | RTCFormat::CHAR4 | RTCFormat::USHORT4 | RTCFormat::SHORT4
        | RTCFormat::UINT4 | RTCFormat::INT4 | RTCFormat::ULLONG4 | RTCFormat::LLONG4
        | RTCFormat::FLOAT4 | RTCFormat::FLOAT2X2_ROW_MAJOR | RTCFormat::FLOAT2X2_COLUMN_MAJOR => 4,
        RTCFormat::FLOAT5 => 5,
        RTCFormat::FLOAT6 | RTCFormat::FLOAT2X3_ROW_MAJOR | RTCFormat::FLOAT3X2_ROW_MAJOR
        | RTCFormat::FLOAT2X3_COLUMN_MAJOR | RTCFormat::FLOAT3X2_COLUMN_MAJOR => 6,
        RTCFormat::FLOAT7 => 7,
        RTCFormat::FLOAT8 | RTCFormat::FLOAT2X4_ROW_MAJOR | RTCFormat::FLOAT4X2_ROW_MAJOR
        | RTCFormat::FLOAT2X4_COLUMN_MAJOR | RTCFormat::FLOAT4X2_COLUMN_MAJOR => 8,
        RTCFormat::FLOAT9 | RTCFormat::FLOAT3X3_ROW_MAJOR | RTCFormat::FLOAT3X3_COLUMN_MAJOR => 9,
        RTCFormat::FLOAT10 => 10,
        RTCFormat::FLOAT11 => 11,
        RTCFormat::FLOAT12 | RTCFormat::FLOAT3X4_ROW_MAJOR | RTCFormat::FLOAT4X3_ROW_MAJOR
        | RTCFormat::FLOAT3X4_COLUMN_MAJOR | RTCFormat::FLOAT4X3_COLUMN_MAJOR => 12,
        RTCFormat::FLOAT13 => 13,
        RTCFormat::FLOAT14 => 14,
        RTCFormat::FLOAT15 => 15,
        RTCFormat::FLOAT16 | RTCFormat::FLOAT4X4_ROW_MAJOR | RTCFormat::FLOAT4X4_COLUMN_MAJOR => 16,
        _ => 1,
    }
}

/// Number of bytes of one component; four unless the format says otherwise.
pub open spec fn component_bytes(format: RTCFormat) -> nat {
    match format {
        RTCFormat::UCHAR | RTCFormat::UCHAR2 | RTCFormat::UCHAR3 | RTCFormat::UCHAR4
        | RTCFormat::CHAR | RTCFormat::CHAR2 | RTCFormat::CHAR3 | RTCFormat::CHAR4 => 1,
        RTCFormat::USHORT | RTCFormat::USHORT2 | RTCFormat::USHORT3 | RTCFormat::USHORT4
        | RTCFormat::SHORT | RTCFormat::SHORT2 | RTCFormat::SHORT3 | RTCFormat::SHORT4 => 2,
        RTCFormat::ULLONG | RTCFormat::ULLONG2 | RTCFormat::ULLONG3 | RTCFormat::ULLONG4
        | RTCFormat::LLONG | RTCFormat::LLONG2 | RTCFormat::LLONG3 | RTCFormat::LLONG4 => 8,
        _ => 4,
    }
}

/// Number of bytes of one element: its components side by side. A grid
/// primitive is made of two 32-bit and two 16-bit numbers.
pub open spec fn element_bytes(format: RTCFormat) -> Option<nat> {
    match format {
        RTCFormat::UNDEFINED => None,
        RTCFormat::GRID => Some((4 + 4 + 2 + 2) as nat),
        _ => Some(components(format) * component_bytes(format)),
    }
}

impl RTCFormat {
    /// Size in bytes of one element of this format, or `None` for
    /// [`RTCFormat::UNDEFINED`], so that a bogus format can never silently pass
    /// a size check.
    pub fn byte_size(self) -> (r: Option<usize>)
        ensures
            match r {
                Some(n) => element_bytes(self) == Some(n as nat),
                None => element_bytes(self) is None,
            },
    {
        let n: usize = match self {
            RTCFormat::UNDEFINED => {
                return None;
            },
            RTCFormat::GRID => 12,
            RTCFormat::UCHAR | RTCFormat::CHAR => 1,
            RTCFormat::UCHAR2 | RTCFormat::CHAR2 | RTCFormat::USHORT | RTCFormat::SHORT => 2,
            RTCFormat::UCHAR3 | RTCFormat::CHAR3 => 3,
            RTCFormat::UCHAR4 | RTCFormat::CHAR4 | RTCFormat::USHORT2 | RTCFormat::SHORT2
            | RTCFormat::UINT | RTCFormat::INT | RTCFormat::FLOAT => 4,
            RTCFormat::USHORT3 | RTCFormat::SHORT3 => 6,
            RTCFormat::USHORT4 | RTCFormat::SHORT4 | RTCFormat::UINT2 | RTCFormat::INT2
            | RTCFormat::ULLONG | RTCFormat::LLONG | RTCFormat::FLOAT2 => 8,
            RTCFormat::UINT3 | RTCFormat::INT3 | RTCFormat::FLOAT3 => 12,
            RTCFormat::UINT4 | RTCFormat::INT4 | RTCFormat::ULLONG2 | RTCFormat::LLONG2
            | RTCFormat::FLOAT4 | RTCFormat::FLOAT2X2_ROW_MAJOR
            | RTCFormat::FLOAT2X2_COLUMN_MAJOR => 16,
            RTCFormat::FLOAT5 => 20,
            RTCFormat::ULLONG3 | RTCFormat::LLONG3 | RTCFormat::FLOAT6
            | RTCFormat::FLOAT2X3_ROW_MAJOR | RTCFormat::FLOAT3X2_ROW_MAJOR
            | RTCFormat::FLOAT2X3_COLUMN_MAJOR | RTCFormat::FLOAT3X2_COLUMN_MAJOR => 24,
            RTCFormat::FLOAT7 => 28,
            RTCFormat::ULLONG4 | RTCFormat::LLONG4 | RTCFormat::FLOAT8
            | RTCFormat::FLOAT2X4_ROW_MAJOR | RTCFormat::FLOAT4X2_ROW_MAJOR
            | RTCFormat::FLOAT2X4_COLUMN_MAJOR | RTCFormat::FLOAT4X2_COLUMN_MAJOR => 32,
            RTCFormat::FLOAT9 | RTCFormat::FLOAT3X3_ROW_MAJOR
            | RTCFormat::FLOAT3X3_COLUMN_MAJOR => 36,
            RTCFormat::FLOAT10 => 40,
            RTCFormat::FLOAT11 => 44,
            RTCFormat::FLOAT12 | RTCFormat::FLOAT3X4_ROW_MAJOR | RTCFormat::FLOAT4X3_ROW_MAJOR
            | RTCFormat::FLOAT3X4_COLUMN_MAJOR | RTCFormat::FLOAT4X3_COLUMN_MAJOR => 48,
            RTCFormat::FLOAT13 => 52,
            RTCFormat::FLOAT14 => 56,
            RTCFormat::FLOAT15 => 60,
            RTCFormat::FLOAT16 | RTCFormat::FLOAT4X4_ROW_MAJOR
            | RTCFormat::FLOAT4X4_COLUMN_MAJOR => 64,
        };
        Some(n)
    }
}

/// `n` rounded up to a multiple of 16.
pub open spec fn round_up_16(n: nat) -> nat {
    ((n + 15) / 16 * 16) as nat
}

/// Bytes that are read at the position of an element: the element itself, in a
/// vertex buffer up to the next multiple of 16.
pub open spec fn read_bytes(element: nat, vertex: bool) -> nat {
    if vertex {
        round_up_16(element)
    } else {
        element
    }
}

/// Bytes that are read for `count` elements of `format` that lie `stride` apart,
/// or `None` where there is no valid layout: no element, an unknown format, a
/// stride that is too small or not a multiple of 4, or a total that does not fit
/// a `usize`.
pub open spec fn layout_bytes(format: Format, stride: nat, count: nat, vertex: bool) -> Option<
    nat,
> {
    match element_bytes(format) {
        None => None,
        Some(element) => {
            let total = ((count - 1) * stride + read_bytes(element, vertex)) as nat;
            if count == 0 || stride < element || stride % 4 != 0 || total > usize::MAX {
                None
            } else {
                Some(total)
            }
        },
    }
}

/// Bytes that are read for `count` elements of `format`, each `stride` apart. A
/// **vertex** buffer is read in units of 16 bytes, so its last element counts up
/// to the next multiple of 16. Returns `None` on an unknown format, `count ==
/// 0`, a `stride` that is too small or not a multiple of 4, or overflow.
pub fn required_layout_bytes(
    format: Format,
    stride: usize,
    count: usize,
    vertex: bool,
) -> (r: Option<usize>)
    ensures
        match r {
            Some(n) => layout_bytes(format, stride as nat, count as nat, vertex) == Some(n as nat),
            None => layout_bytes(format, stride as nat, count as nat, vertex) is None,
        },
{
    if count == 0 {
        return None;
    }
    let element: usize = match format.byte_size() {
        Some(n) => n,
        None => {
            return None;
        },
    };
    if stride < element || stride % 4 != 0 {
        return None;
    }
    assert(element <= 64);
    let tail: usize = if vertex {
        (element + 15) / 16 * 16
    } else {
        element
    };
    let body: usize = match (count - 1).checked_mul(stride) {
        Some(n) => n,
        None => {
            return None;
        },
    };
    body.checked_add(tail)
}

/// Types whose values may be laid over the raw bytes of a buffer: every sequence
/// of bytes is a value, in particular the one of all zeros.
pub trait BufferData: Copy {
    /// Whether all bytes of the value are zero.
    spec fn is_zero(self) -> bool;

    /// The value of all-zero bytes.
    fn zero() -> (z: Self)
        ensures
            z.is_zero(),
    ;
}

impl BufferData for u8 {
    open spec fn is_zero(self) -> bool {
        self == 0
    }

    fn zero() -> (z: Self) {
        0
    }
}

impl BufferData for i8 {
    open spec fn is_zero(self) -> bool {
        self == 0
    }

    fn zero() -> (z: Self) {
        0
    }
}

impl BufferData for u16 {
    open spec fn is_zero(self) -> bool {
        self == 0
    }

    fn zero() -> (z: Self) {
        0
    }
}

impl BufferData for i16 {
    open spec fn is_zero(self) -> bool {
        self == 0
    }

    fn zero() -> (z: Self) {
        0
    }
}

impl BufferData for u32 {
    open spec fn is_zero(self) -> bool {
        self == 0
    }

    fn zero() -> (z: Self) {
        0
    }
}

impl BufferData for i32 {
    open spec fn is_zero(self) -> bool {
        self == 0
    }

    fn zero() -> (z: Self) {
        0
    }
}

impl BufferData for u64 {
    open spec fn is_zero(self) -> bool {
        self == 0
    }

    fn zero() -> (z: Self) {
        0
    }
}

impl BufferData for i64 {
    open spec fn is_zero(self) -> bool {
        self == 0
    }

    fn zero() -> (z: Self) {
        0
    }
}

impl<T: BufferData, const N: usize> BufferData for [T; N] {
    open spec fn is_zero(self) -> bool {
        forall|i: int| 0 <= i < N ==> (#[trigger] self[i]).is_zero()
    }

    fn zero() -> (z: Self) {
        [T::zero(); N]
    }
}

/// Layout of a geometry buffer binding: how the bound bytes are read.
#[derive(Debug, Clone, Copy, PartialEq, Eq, Structural)]
pub struct BufferLayout {
    /// Element format of the bound data.
    pub format: Format,
    /// Byte stride between consecutive elements.
    pub stride: usize,
    /// Number of elements.
    pub count: usize,
}

/// The data source bound to a geometry buffer slot.
#[derive(Debug)]
pub enum BufferSource<'a> {
    /// A sub-range of a native buffer.
    Managed { buffer: Buffer, byte_offset: usize, layout: BufferLayout },
    /// Caller-owned memory, shared without a copy.
    Shared { data: &'a [u8], layout: BufferLayout },
    /// Storage that belongs to the geometry.
    Local { size: BufferSize, layout: BufferLayout },
}

/// Handle to a buffer managed by the native library. It stands for a native
/// reference, so it is not copied: see [`retain`](Buffer::retain).
#[derive(Debug, PartialEq, Eq, Structural)]
pub struct Buffer {
    pub device: Device,
    pub handle: usize,
    pub size: BufferSize,
}

/// One end of a range of bytes.
#[derive(Debug, Clone, Copy, PartialEq, Eq, Structural)]
pub enum Bound {
    Included(usize),
    Excluded(usize),
    Unbounded,
}

/// A range of bytes of a buffer.
#[derive(Debug, Clone, Copy, PartialEq, Eq, Structural)]
pub struct ByteRange {
    pub start: Bound,
    pub end: Bound,
}

impl ByteRange {
    /// Position of the first byte of the range.
    pub open spec fn first(self) -> int {
        match self.start {
            Bound::Included(n) => n as int,
            Bound::Excluded(n) => n + 1,
            Bound::Unbounded => 0,
        }
    }

    /// Position behind the last byte of the range in a buffer of `size` bytes.
    pub open spec fn past(self, size: nat) -> int {
        match self.end {
            Bound::Included(n) => n + 1,
            Bound::Excluded(n) => n as int,
            Bound::Unbounded => size as int,
        }
    }

    /// Whether both ends of the range are positions that a `usize` can hold.
    pub open spec fn representable(self) -> bool {
        self.first() <= usize::MAX && self.past(0) <= usize::MAX
    }
}

/// Converts a range into an offset and a size; a range without an end has no
/// size of its own.
pub fn range_bounds_to_offset_and_size(bounds: ByteRange) -> (r: (usize, Option<usize>))
    requires
        bounds.first() <= usize::MAX,
        bounds.end is Included ==> bounds.first() <= bounds.past(0) - 1,
        bounds.end is Included ==> bounds.past(0) - bounds.first() <= usize::MAX,
        bounds.end is Excluded ==> bounds.first() <= bounds.past(0),
    ensures
        r.0 == bounds.first(),
        r.1 is None <==> bounds.end is Unbounded,
        r.1 matches Some(n) ==> n == bounds.past(0) - bounds.first(),
{
    let offset: usize = match bounds.start {
        Bound::Included(n) => n,
        Bound::Excluded(n) => n + 1,
        Bound::Unbounded => 0,
    };
    let size: Option<usize> = match bounds.end {
        Bound::Included(n) => Some(n - offset + 1),
        Bound::Excluded(n) => Some(n - offset),
        Bound::Unbounded => None,
    };
    (offset, size)
}

impl Buffer {
    /// A buffer's size is a multiple of 16 bytes.
    pub open spec fn wf(&self) -> bool {
        self.size.value() > 0 && self.size.value() % 16 == 0
    }

    /// The native call that creates a buffer of at least `size` bytes: the size
    /// is padded to a multiple of 16.
    pub fn request(device: &Device, size: BufferSize) -> (call: NativeCall)
        requires
            round_up_16(size.value()) <= usize::MAX,
        ensures
            call == (NativeCall::NewBuffer {
                device: device.handle,
                size: round_up_16(size.value()) as usize,
            }),
    {
        NativeCall::NewBuffer { device: device.handle, size: padded_size(size.get()) }
    }

    /// Creates a new data buffer of the given size. `handle` is what the native
    /// call of [`request`](Self::request) returned, zero if it failed, and
    /// `error` the device's error code after it.
    pub fn new(device: &Device, size: BufferSize, handle: usize, error: Error) -> (r: Result<
        Buffer,
        Error,
    >)
        requires
            round_up_16(size.value()) <= usize::MAX,
        ensures
            handle == 0 ==> r == Err::<Buffer, Error>(error),
            handle != 0 ==> r is Ok,
            r matches Ok(b) ==> {
                &&& b.wf()
                &&& b.device == *device
                &&& b.handle == handle
                &&& b.size.value() == round_up_16(size.value())
            },
    {
        if handle == 0 {
            return Err(error);
        }
        match BufferSize::new(padded_size(size.get())) {
            Some(size) => Ok(Buffer { device: *device, handle, size }),
            None => vstd::pervasive::unreached(),
        }
    }

    /// Another handle to the same buffer, and the native call that takes the
    /// reference it stands for.
    pub fn retain(&self) -> (r: (Buffer, NativeCall))
        ensures
            r.0 == *self,
            r.1 == (NativeCall::RetainBuffer { buffer: self.handle }),
    {
        (
            Buffer { device: self.device, handle: self.handle, size: self.size },
            NativeCall::RetainBuffer { buffer: self.handle },
        )
    }

    /// Gives a handle up: the native call that gives up its reference.
    pub fn release(self) -> (call: NativeCall)
        ensures
            call == (NativeCall::ReleaseBuffer { buffer: self.handle }),
    {
        NativeCall::ReleaseBuffer { buffer: self.handle }
    }

    /// The native call that maps the buffer.
    pub fn map(&self) -> (call: NativeCall)
        ensures
            call == (NativeCall::GetBufferData { buffer: self.handle }),
    {
        NativeCall::GetBufferData { buffer: self.handle }
    }

    /// The bytes of `bounds` in this buffer, as offset and size.
    pub open spec fn range_in(&self, bounds: ByteRange) -> (int, int) {
        (bounds.first(), bounds.past(self.size.value()) - bounds.first())
    }

    /// Whether `bounds` selects a non-empty run of whole elements of `T` inside
    /// the buffer.
    pub open spec fn maps<T>(&self, bounds: ByteRange) -> bool {
        let (offset, size) = self.range_in(bounds);
        let t = vstd::layout::size_of::<T>() as int;
        &&& 0 < t
        &&& 0 < size
        &&& offset + size <= self.size.value()
        &&& offset % t == 0
        &&& size % t == 0
    }

    /// Slices into the buffer for the given range, in bytes.
    ///
    /// `data` is the mapped contents of the whole buffer.
    ///
    ///   - Ranges with no end will slice to the end of the buffer.
    ///   - A totally unbounded range will slice the entire buffer.
    pub fn mapped_range<'a, T>(&self, data: &'a [T], bounds: ByteRange) -> (v: BufferView<'a, T>)
        requires
            self.maps::<T>(bounds),
            data@.len() == self.size.value() / vstd::layout::size_of::<T>(),
        ensures
            v@ == mapped_elements(data@, self.range_in(bounds), vstd::layout::size_of::<T>()),
    {
        let (offset, size) = range_bounds_to_offset_and_size(bounds);
        let size: usize = match size {
            Some(n) => n,
            None => self.size.get() - offset,
        };
        match BufferView::new(self, Some(data), offset, size, Error::NONE) {
            Ok(v) => v,
            Err(_) => vstd::pervasive::unreached(),
        }
    }

    /// Mutable slice into the buffer for the given range, in bytes.
    ///
    /// `data` is the mapped contents of the whole buffer.
    ///
    ///   - Ranges with no end will slice to the end of the buffer.
    ///   - A totally unbounded range will slice the entire buffer.
    pub fn mapped_range_mut<'a, T>(&mut self, data: &'a mut [T], bounds: ByteRange) -> (v:
        BufferViewMut<'a, T>)
        requires
            old(self).maps::<T>(bounds),
            old(data)@.len() == old(self).size.value() / vstd::layout::size_of::<T>(),
        ensures
            *final(self) == *old(self),
            v@ == mapped_elements(
                old(data)@,
                old(self).range_in(bounds),
                vstd::layout::size_of::<T>(),
            ),
            final(data)@ == with_mapped_elements(
                old(data)@,
                old(self).range_in(bounds),
                vstd::layout::size_of::<T>(),
                final(v.slice)@,
            ),
    {
        let (offset, size) = range_bounds_to_offset_and_size(bounds);
        let size: usize = match size {
            Some(n) => n,
            None => self.size.get() - offset,
        };
        BufferViewMut::new(self, data, offset, size)
    }
}

/// `size` rounded up to a multiple of 16.
fn padded_size(size: usize) -> (r: usize)
    requires
        round_up_16(size as nat) <= usize::MAX,
    ensures
        r == round_up_16(size as nat),
{
    if size % 16 == 0 {
        size
    } else {
        size / 16 * 16 + 16
    }
}

/// The elements of `t` bytes each that lie in `range`, given as offset and size
/// in bytes.
pub open spec fn mapped_elements<T>(data: Seq<T>, range: (int, int), t: nat) -> Seq<T> {
    data.subrange(range.0 / (t as int), range.0 / (t as int) + range.1 / (t as int))
}

/// `data` with the elements in `range` replaced by `elements`.
pub open spec fn with_mapped_elements<T>(
    data: Seq<T>,
    range: (int, int),
    t: nat,
    elements: Seq<T>,
) -> Seq<T> {
    data.take(range.0 / (t as int)) + elements + data.skip(
        range.0 / (t as int) + range.1 / (t as int),
    )
}

/// A slice of a mapped [`Buffer`].
#[derive(Debug)]
pub struct BufferMappedRange<'a, T> {
    slice: &'a [T],
}

/// A read-only view into a mapped buffer.
#[derive(Debug)]
pub struct BufferView<'buf, T> {
    mapped: BufferMappedRange<'buf, T>,
}

/// A writable view into a mapped buffer.
#[derive(Debug)]
pub struct BufferViewMut<'buf, T> {
    pub slice: &'buf mut [T],
}

impl<'buf, T> View for BufferView<'buf, T> {
    type V = Seq<T>;

    closed spec fn view(&self) -> Seq<T> {
        self.mapped.slice@
    }
}

impl<'buf, T> View for BufferViewMut<'buf, T> {
    type V = Seq<T>;

    open spec fn view(&self) -> Seq<T> {
        self.slice@
    }
}

impl<'a, T> View for BufferMappedRange<'a, T> {
    type V = Seq<T>;

    closed spec fn view(&self) -> Seq<T> {
        self.slice@
    }
}

/// Where a run of whole elements begins and ends in a buffer that holds them.
proof fn lemma_element_range(offset: int, size: int, total: int, t: int)
    requires
        0 < t,
        0 <= offset,
        0 <= size,
        offset + size <= total,
        offset % t == 0,
        size % t == 0,
    ensures
        0 <= offset / t,
        0 <= size / t,
        offset / t + size / t <= total / t,
{
    vstd::arithmetic::div_mod::lemma_fundamental_div_mod(offset, t);
    vstd::arithmetic::div_mod::lemma_fundamental_div_mod(size, t);
    vstd::arithmetic::div_mod::lemma_fundamental_div_mod(total, t);
    vstd::arithmetic::div_mod::lemma_div_is_ordered(offset + size, total, t);
    assert((offset + size) / t == offset / t + size / t) by (nonlinear_arith)
        requires
            0 < t,
            offset == t * (offset / t),
            size == t * (size / t),
    ;
    vstd::arithmetic::div_mod::lemma_div_pos_is_pos(offset, t);
    vstd::arithmetic::div_mod::lemma_div_pos_is_pos(size, t);
}

impl<'a, T> BufferMappedRange<'a, T> {
    /// The elements at `offset`, `size` bytes of them. `data` is the mapped
    /// contents of the whole buffer, or `None` if mapping failed; `error` is the
    /// device's error code then.
    fn from_buffer(
        buffer: &Buffer,
        data: Option<&'a [T]>,
        offset: usize,
        size: usize,
        error: Error,
    ) -> (r: Result<BufferMappedRange<'a, T>, Error>)
        requires
            0 < vstd::layout::size_of::<T>(),
            offset + size <= buffer.size.value(),
            offset as int % vstd::layout::size_of::<T>() as int == 0,
            size as int % vstd::layout::size_of::<T>() as int == 0,
            data matches Some(d) ==> d@.len() == buffer.size.value() / vstd::layout::size_of::<
                T,
            >(),
        ensures
            match r {
                Ok(m) => data is Some && m@ == mapped_elements(
                    data->Some_0@,
                    (offset as int, size as int),
                    vstd::layout::size_of::<T>(),
                ),
                Err(e) => data is None && e == error,
            },
    {
        match data {
            None => Err(error),
            Some(d) => {
                let t: usize = core::mem::size_of::<T>();
                proof {
                    lemma_element_range(
                        offset as int,
                        size as int,
                        buffer.size.value() as int,
                        t as int,
                    );
                }
                Ok(
                    BufferMappedRange {
                        slice: vstd::slice::slice_subrange(d, offset / t, offset / t + size / t),
                    },
                )
            },
        }
    }
}

impl<'src, T> BufferView<'src, T> {
    /// Creates a view of `size` bytes at `offset`. `data` is the mapped contents
    /// of the whole buffer, or `None` if mapping failed; `error` is the device's
    /// error code then.
    pub fn new(
        buffer: &Buffer,
        data: Option<&'src [T]>,
        offset: usize,
        size: usize,
        error: Error,
    ) -> (r: Result<BufferView<'src, T>, Error>)
        requires
            0 < vstd::layout::size_of::<T>(),
            offset + size <= buffer.size.value(),
            offset as int % vstd::layout::size_of::<T>() as int == 0,
            size as int % vstd::layout::size_of::<T>() as int == 0,
            data matches Some(d) ==> d@.len() == buffer.size.value() / vstd::layout::size_of::<
                T,
            >(),
        ensures
            match r {
                Ok(v) => data is Some && v@ == mapped_elements(
                    data->Some_0@,
                    (offset as int, size as int),
                    vstd::layout::size_of::<T>(),
                ),
                Err(e) => data is None && e == error,
            },
    {
        match BufferMappedRange::from_buffer(buffer, data, offset, size, error) {
            Ok(mapped) => Ok(BufferView { mapped }),
            Err(e) => Err(e),
        }
    }

    /// A view of elements that have been mapped already.
    pub fn over(slice: &'src [T]) -> (v: BufferView<'src, T>)
        ensures
            v@ == slice@,
    {
        BufferView { mapped: BufferMappedRange { slice } }
    }

    /// The elements of the view.
    pub fn as_slice(&self) -> (s: &'src [T])
        ensures
            s@ == self@,
    {
        self.mapped.slice
    }
}

impl<'src, T> BufferViewMut<'src, T> {
    /// Creates a view of `size` bytes at `offset`. `data` is the mapped contents
    /// of the whole buffer.
    pub fn new(buffer: &Buffer, data: &'src mut [T], offset: usize, size: usize) -> (v:
        BufferViewMut<'src, T>)
        requires
            0 < vstd::layout::size_of::<T>(),
            offset + size <= buffer.size.value(),
            offset as int % vstd::layout::size_of::<T>() as int == 0,
            size as int % vstd::layout::size_of::<T>() as int == 0,
            old(data)@.len() == buffer.size.value() / vstd::layout::size_of::<T>(),
        ensures
            v@ == mapped_elements(
                old(data)@,
                (offset as int, size as int),
                vstd::layout::size_of::<T>(),
            ),
            final(data)@ == with_mapped_elements(
                old(data)@,
                (offset as int, size as int),
                vstd::layout::size_of::<T>(),
                final(v.slice)@,
            ),
    {
        let t: usize = core::mem::size_of::<T>();
        proof {
            lemma_element_range(
                offset as int,
                size as int,
                buffer.size.value() as int,
                t as int,
            );
        }
        let (_, rest) = data.split_at_mut(offset / t);
        let (slice, _) = rest.split_at_mut(size / t);
        BufferViewMut { slice }
    }

    /// A view of elements that have been mapped already.
    pub fn over(slice: &'src mut [T]) -> (v: BufferViewMut<'src, T>)
        ensures
            v@ == old(slice)@,
            final(v.slice)@ == final(slice)@,
    {
        BufferViewMut { slice }
    }

    /// The elements of the view.
    pub fn as_slice(&self) -> (s: &[T])
        ensures
            s@ == self@,
    {
        &*self.slice
    }

    /// The elements of the view, for writing.
    pub fn as_mut_slice(&mut self) -> (s: &mut [T])
        ensures
            s@ == old(self)@,
            final(self)@ == final(s)@,
            final(final(self).slice)@ == final(old(self).slice)@,
    {
        &mut *self.slice
    }
}

impl<'src, T> core::ops::Deref for BufferView<'src, T> {
    type Target = [T];

    fn deref(&self) -> (s: &[T])
        ensures
            s@ == self@,
    {
        self.mapped.slice
    }
}

impl<'src, T> core::ops::Deref for BufferViewMut<'src, T> {
    type Target = [T];

    fn deref(&self) -> (s: &[T])
        ensures
            s@ == self@,
    {
        &*self.slice
    }
}

/// A valid layout holds every element: what is read at the position of each of
/// them lies within the bytes of the layout, at a multiple of 4, and two elements
/// never overlap.
pub proof fn lemma_layout_holds_every_element(
    format: Format,
    stride: nat,
    count: nat,
    vertex: bool,
    i: nat,
    j: nat,
)
    requires
        layout_bytes(format, stride, count, vertex) is Some,
        i < j < count || i == j < count,
    ensures
        j * stride + read_bytes(element_bytes(format)->Some_0, vertex) <= layout_bytes(
            format,
            stride,
            count,
            vertex,
        )->Some_0,
        (j * stride) % 4 == 0,
        i < j ==> i * stride + element_bytes(format)->Some_0 <= j * stride,
{
    assert(j * stride <= (count - 1) * stride) by (nonlinear_arith)
        requires
            j <= count - 1,
    ;
    vstd::arithmetic::div_mod::lemma_mul_mod_noop_right(j as int, stride as int, 4);
    if i < j {
        assert(i * stride + stride <= j * stride) by (nonlinear_arith)
            requires
                i + 1 <= j,
        ;
    }
}

/// A layout with more elements takes at least as many bytes.
pub proof fn lemma_layout_grows_with_count(
    format: Format,
    stride: nat,
    fewer: nat,
    more: nat,
    vertex: bool,
)
    requires
        0 < fewer <= more,
        layout_bytes(format, stride, more, vertex) is Some,
    ensures
        layout_bytes(format, stride, fewer, vertex) is Some,
        layout_bytes(format, stride, fewer, vertex)->Some_0 <= layout_bytes(
            format,
            stride,
            more,
            vertex,
        )->Some_0,
{
    assert((fewer - 1) * stride <= (more - 1) * stride) by (nonlinear_arith)
        requires
            0 < fewer <= more,
    ;
}

/// Padding a size gives the least multiple of 16 that is not smaller.
pub proof fn lemma_round_up_16(n: nat, m: nat)
    ensures
        n <= round_up_16(n) < n + 16,
        round_up_16(n) % 16 == 0,
        n <= m && m % 16 == 0 ==> round_up_16(n) <= m,
{
}

/// A vector format of `k` components takes `k` times the bytes of the one-component
/// format of the same number, a matrix of `k` numbers likewise, whichever way its
/// rows lie.
pub proof fn lemma_formats_hold_their_components(
    one: Format,
    k: nat,
    many: Format,
    small: Option<usize>,
    large: Option<usize>,
)
    requires
        call_ensures(RTCFormat::byte_size, (one,), small),
        call_ensures(RTCFormat::byte_size, (many,), large),
        ({
            ||| one == Format::UCHAR && k == 2 && many == Format::UCHAR2
            ||| one == Format::UCHAR && k == 3 && many == Format::UCHAR3
            ||| one == Format::UCHAR && k == 4 && many == Format::UCHAR4
            ||| one == Format::CHAR && k == 2 && many == Format::CHAR2
            ||| one == Format::CHAR && k == 3 && many == Format::CHAR3
            ||| one == Format::CHAR && k == 4 && many == Format::CHAR4
            ||| one == Format::USHORT && k == 2 && many == Format::USHORT2
            ||| one == Format::USHORT && k == 3 && many == Format::USHORT3
            ||| one == Format::USHORT && k == 4 && many == Format::USHORT4
            ||| one == Format::SHORT && k == 2 && many == Format::SHORT2
            ||| one == Format::SHORT && k == 3 && many == Format::SHORT3
            ||| one == Format::SHORT && k == 4 && many == Format::SHORT4
            ||| one == Format::UINT && k == 2 && many == Format::UINT2
            ||| one == Format::UINT && k == 3 && many == Format::UINT3
            ||| one == Format::UINT && k == 4 && many == Format::UINT4
            ||| one == Format::INT && k == 2 && many == Format::INT2
            ||| one == Format::INT && k == 3 && many == Format::INT3
            ||| one == Format::INT && k == 4 && many == Format::INT4
            ||| one == Format::ULLONG && k == 2 && many == Format::ULLONG2
            ||| one == Format::ULLONG && k == 3 && many == Format::ULLONG3
            ||| one == Format::ULLONG && k == 4 && many == Format::ULLONG4
            ||| one == Format::LLONG && k == 2 && many == Format::LLONG2
            ||| one == Format::LLONG && k == 3 && many == Format::LLONG3
            ||| one == Format::LLONG && k == 4 && many == Format::LLONG4
            ||| one == Format::FLOAT && k == 2 && many == Format::FLOAT2
            ||| one == Format::FLOAT && k == 3 && many == Format::FLOAT3
            ||| one == Format::FLOAT && k == 4 && many == Format::FLOAT4
            ||| one == Format::FLOAT && k == 5 && many == Format::FLOAT5
            ||| one == Format::FLOAT && k == 6 && many == Format::FLOAT6
            ||| one == Format::FLOAT && k == 7 && many == Format::FLOAT7
            ||| one == Format::FLOAT && k == 8 && many == Format::FLOAT8
            ||| one == Format::FLOAT && k == 9 && many == Format::FLOAT9
            ||| one == Format::FLOAT && k == 10 && many == Format::FLOAT10
            ||| one == Format::FLOAT && k == 11 && many == Format::FLOAT11
            ||| one == Format::FLOAT && k == 12 && many == Format::FLOAT12
            ||| one == Format::FLOAT && k == 13 && many == Format::FLOAT13
            ||| one == Format::FLOAT && k == 14 && many == Format::FLOAT14
            ||| one == Format::FLOAT && k == 15 && many == Format::FLOAT15
            ||| one == Format::FLOAT && k == 16 && many == Format::FLOAT16
            ||| one == Format::FLOAT && k == 2 * 2 && many == Format::FLOAT2X2_ROW_MAJOR
            ||| one == Format::FLOAT && k == 2 * 3 && many == Format::FLOAT2X3_ROW_MAJOR
            ||| one == Format::FLOAT && k == 2 * 4 && many == Format::FLOAT2X4_ROW_MAJOR
            ||| one == Format::FLOAT && k == 3 * 2 && many == Format::FLOAT3X2_ROW_MAJOR
            ||| one == Format::FLOAT && k == 3 * 3 && many == Format::FLOAT3X3_ROW_MAJOR
            ||| one == Format::FLOAT && k == 3 * 4 && many == Format::FLOAT3X4_ROW_MAJOR
            ||| one == Format::FLOAT && k == 4 * 2 && many == Format::FLOAT4X2_ROW_MAJOR
            ||| one == Format::FLOAT && k == 4 * 3 && many == Format::FLOAT4X3_ROW_MAJOR
            ||| one == Format::FLOAT && k == 4 * 4 && many == Format::FLOAT4X4_ROW_MAJOR
            ||| one == Format::FLOAT && k == 2 * 2 && many == Format::FLOAT2X2_COLUMN_MAJOR
            ||| one == Format::FLOAT && k == 2 * 3 && many == Format::FLOAT2X3_COLUMN_MAJOR
            ||| one == Format::FLOAT && k == 2 * 4 && many == Format::FLOAT2X4_COLUMN_MAJOR
            ||| one == Format::FLOAT && k == 3 * 2 && many == Format::FLOAT3X2_COLUMN_MAJOR
            ||| one == Format::FLOAT && k == 3 * 3 && many == Format::FLOAT3X3_COLUMN_MAJOR
            ||| one == Format::FLOAT && k == 3 * 4 && many == Format::FLOAT3X4_COLUMN_MAJOR
            ||| one == Format::FLOAT && k == 4 * 2 && many == Format::FLOAT4X2_COLUMN_MAJOR
            ||| one == Format::FLOAT && k == 4 * 3 && many == Format::FLOAT4X3_COLUMN_MAJOR
            ||| one == Format::FLOAT && k == 4 * 4 && many == Format::FLOAT4X4_COLUMN_MAJOR
        }),
    ensures
        element_bytes(one) is Some,
        element_bytes(many) == Some(k * element_bytes(one)->Some_0),
        small is Some && large is Some,
        large->Some_0 == k * small->Some_0,
{
}

/// Numbers of the same width take the same bytes, signed or not, and each wider one
/// twice the bytes of the one before, from one byte on. An element of a grid is two
/// 32-bit and two 16-bit numbers. Only an undefined format has no size.
pub proof fn lemma_numbers_take_their_width(format: Format)
    ensures
        element_bytes(Format::UCHAR) == Some(1nat),
        element_bytes(Format::CHAR) == element_bytes(Format::UCHAR),
        element_bytes(Format::USHORT) == Some(2 * element_bytes(Format::UCHAR)->Some_0),
        element_bytes(Format::SHORT) == element_bytes(Format::USHORT),
        element_bytes(Format::UINT) == Some(2 * element_bytes(Format::USHORT)->Some_0),
        element_bytes(Format::INT) == element_bytes(Format::UINT),
        element_bytes(Format::FLOAT) == element_bytes(Format::UINT),
        element_bytes(Format::ULLONG) == Some(2 * element_bytes(Format::UINT)->Some_0),
        element_bytes(Format::LLONG) == element_bytes(Format::ULLONG),
        element_bytes(Format::GRID) == Some(
            2 * element_bytes(Format::UINT)->Some_0 + 2 * element_bytes(Format::USHORT)->Some_0,
        ),
        element_bytes(format) is None <==> format == Format::UNDEFINED,
{
}

/// What is read at the position of an element is the element; in a vertex buffer it
/// reaches to the next multiple of 16, and no further.
pub proof fn lemma_vertices_are_read_in_units_of_16(element: nat)
    ensures
        read_bytes(element, false) == element,
        read_bytes(element, true) % 16 == 0,
        element <= read_bytes(element, true) < element + 16,
{
}

/// A layout is accepted wherever it can be, and takes no byte too many. One element
/// takes what is read of it, every further one a stride more, as long as that can be
/// counted; the stride holds the element and is a multiple of 4.
pub proof fn lemma_layout_is_tight(format: Format, stride: nat, count: nat, vertex: bool)
    requires
        format != Format::UNDEFINED,
    ensures
        layout_bytes(format, stride, 0, vertex) is None,
        layout_bytes(format, stride, 1, vertex) is Some <==> stride % 4 == 0 && stride
            >= element_bytes(format)->Some_0,
        stride % 4 == 0 && stride >= element_bytes(format)->Some_0 ==> {
            let one = layout_bytes(format, stride, 1, vertex)->Some_0;
            let element = element_bytes(format)->Some_0;
            if vertex {
                element <= one < element + 16 && one % 16 == 0
            } else {
                one == element
            }
        },
        count > 0 ==> {
            let (now, next) = (
                layout_bytes(format, stride, count, vertex),
                layout_bytes(format, stride, count + 1, vertex),
            );
            &&& next is Some <==> now is Some && now->Some_0 + stride <= usize::MAX
            &&& next is Some ==> next->Some_0 == now->Some_0 + stride
        },
{
    assert(0 * stride == 0) by (nonlinear_arith);
    if count > 0 {
        assert(count * stride == (count - 1) * stride + stride) by (nonlinear_arith);
    }
}

/// No layout of an undefined format is accepted.
pub proof fn lemma_undefined_has_no_layout(stride: nat, count: nat, vertex: bool)
    ensures
        layout_bytes(Format::UNDEFINED, stride, count, vertex) is None,
{
}

/// A position is in a range exactly if it is on the right side of both ends.
pub proof fn lemma_range_holds_what_lies_between_its_ends(range: ByteRange, size: nat, p: int)
    ensures
        range.first() <= p < range.past(size) <==> {
            &&& match range.start {
                Bound::Included(a) => a <= p,
                Bound::Excluded(a) => a < p,
                Bound::Unbounded => 0 <= p,
            }
            &&& match range.end {
                Bound::Included(b) => p <= b,
                Bound::Excluded(b) => p < b,
                Bound::Unbounded => p < size,
            }
        },
        range.start == Bound::Unbounded ==> range.first() == 0,
        range.end == Bound::Unbounded ==> range.past(size) == size,
        forall|a: usize| range.start == Bound::Included(a) ==> range.first() == a,
        forall|b: usize| range.end == Bound::Excluded(b) ==> range.past(size) == b,
        range.representable() <==> range.start != Bound::Excluded(usize::MAX) && range.end
            != Bound::Included(usize::MAX),
{
}

/// The bytes of items `first` to `first + count`, of `t` bytes each, map to these
/// items; writing to them changes them and leaves all others.
pub proof fn lemma_mapped_bytes_are_whole_items<T>(
    data: Seq<T>,
    first: nat,
    count: nat,
    t: nat,
    written: Seq<T>,
)
    requires
        t > 0,
        first + count <= data.len(),
        written.len() == count,
    ensures
        ({
            let range = ((first * t) as int, (count * t) as int);
            let after = with_mapped_elements(data, range, t, written);
            &&& mapped_elements(data, range, t).len() == count
            &&& forall|k: int|
                0 <= k < count ==> #[trigger] mapped_elements(data, range, t)[k] == data[first + k]
            &&& after.len() == data.len()
            &&& forall|k: int| 0 <= k < count ==> #[trigger] after[first + k] == written[k]
            &&& forall|j: int|
                0 <= j < first || first + count <= j < data.len() ==> #[trigger] after[j]
                    == data[j]
        }),
{
    vstd::arithmetic::div_mod::lemma_div_by_multiple(first as int, t as int);
    vstd::arithmetic::div_mod::lemma_div_by_multiple(count as int, t as int);
}

/// What a buffer maps begins where the range does and ends where it does; one without
/// an end reaches to the end of the buffer.
pub proof fn lemma_mapped_range_is_the_range(buffer: Buffer, a: usize, b: usize)
    ensures
        buffer.range_in(ByteRange { start: Bound::Included(a), end: Bound::Excluded(b) }) == (
            a as int,
            b - a,
        ),
        buffer.range_in(ByteRange { start: Bound::Included(a), end: Bound::Unbounded }) == (
            a as int,
            buffer.size.value() - a,
        ),
        buffer.range_in(ByteRange { start: Bound::Unbounded, end: Bound::Unbounded }) == (
            0int,
            buffer.size.value() as int,
        ),
{
}

/// The size of a format is that of its numbers: one byte for a character, two for a
/// short, four for an integer or a float, eight for a long one, and for a grid two
/// integers and two shorts. Only an undefined format has none.
pub proof fn lemma_sizes_of_numbers(format: Format, size: Option<usize>)
    requires
        call_ensures(RTCFormat::byte_size, (format,), size),
    ensures
        size is None <==> format is UNDEFINED,
        format is UCHAR || format is CHAR ==> size == Some(1usize),
        format is USHORT || format is SHORT ==> size == Some(2usize),
        format is UINT || format is INT || format is FLOAT ==> size == Some(4usize),
        format is ULLONG || format is LLONG ==> size == Some(8usize),
        format is GRID ==> size == Some(12usize),
{
}

/// What a layout takes is a stride for every element but the last, and of the last one
/// what is read of it: its size, for vertices up to a multiple of 16. It is given
/// exactly if there are elements, they fit their stride, the stride is a multiple of
/// 4, and the bytes can be counted. One element more takes one stride more.
pub proof fn lemma_bytes_of_layouts(
    format: Format,
    stride: usize,
    count: usize,
    vertex: bool,
    size: Option<usize>,
    r: Option<usize>,
    next: Option<usize>,
)
    requires
        call_ensures(RTCFormat::byte_size, (format,), size),
        call_ensures(required_layout_bytes, (format, stride, count, vertex), r),
        count < usize::MAX,
        call_ensures(required_layout_bytes, (format, stride, (count + 1) as usize, vertex), next),
    ensures
        ({
            let element = size->Some_0;
            let last = if vertex {
                (element + 15) / 16 * 16
            } else {
                element as int
            };
            let taken = (count - 1) * stride + last;
            &&& r is Some <==> {
                &&& size is Some && element <= stride && stride % 4 == 0
                &&& count > 0 && taken <= usize::MAX
            }
            &&& r matches Some(n) ==> n == taken
        }),
        r is Some && next is Some ==> next->Some_0 == r->Some_0 + stride,
        next is Some && count > 0 ==> r is Some,
{
    if count > 0 {
        assert(count * stride == (count - 1) * stride + stride) by (nonlinear_arith);
    }
}

/// A range from `a` to `b` has `b - a` bytes from `a` on, one more if it holds `b`
/// itself; without an end it has no size of its own.
pub proof fn lemma_offsets_and_sizes_of_ranges(a: usize, b: usize, r: (usize, Option<usize>))
    requires
        a <= b,
    ensures
        call_ensures(
            range_bounds_to_offset_and_size,
            (ByteRange { start: Bound::Included(a), end: Bound::Excluded(b) },),
            r,
        ) ==> r.0 == a && r.1 == Some((b - a) as usize),
        b - a < usize::MAX && call_ensures(
            range_bounds_to_offset_and_size,
            (ByteRange { start: Bound::Included(a), end: Bound::Included(b) },),
            r,
        ) ==> r.0 == a && r.1 == Some((b - a + 1) as usize),
        a < b && call_ensures(
            range_bounds_to_offset_and_size,
            (ByteRange { start: Bound::Excluded(a), end: Bound::Excluded(b) },),
            r,
        ) ==> r.0 == a + 1 && r.1 == Some((b - a - 1) as usize),
        call_ensures(
            range_bounds_to_offset_and_size,
            (ByteRange { start: Bound::Included(a), end: Bound::Unbounded },),
            r,
        ) ==> r.0 == a && r.1 is None,
        call_ensures(
            range_bounds_to_offset_and_size,
            (ByteRange { start: Bound::Unbounded, end: Bound::Excluded(b) },),
            r,
        ) ==> r.0 == 0 && r.1 == Some(b),
{
}

/// A buffer is asked for with its size rounded up to a multiple of 16 bytes, and has
/// that size; without a handle there is only the device's error. Its handles are all
/// of the same native buffer.
pub proof fn lemma_buffers_are_padded(
    device: &Device,
    size: BufferSize,
    handle: usize,
    error: Error,
    request: NativeCall,
    made: Result<Buffer, Error>,
    b: &Buffer,
    copy: (Buffer, NativeCall),
    release: NativeCall,
    map: NativeCall,
)
    requires
        size.value() + 16 <= usize::MAX,
        call_ensures(Buffer::request, (device, size), request),
        call_ensures(Buffer::new, (device, size, handle, error), made),
        call_ensures(Buffer::retain, (b,), copy),
        call_ensures(Buffer::release, (*b,), release),
        call_ensures(Buffer::map, (b,), map),
    ensures
        request is NewBuffer,
        request->NewBuffer_device == device.handle,
        request->NewBuffer_size % 16 == 0,
        size.value() <= request->NewBuffer_size < size.value() + 16,
        made is Ok <==> handle != 0,
        made matches Err(e) ==> e == error,
        made matches Ok(new) ==> {
            &&& new.handle == handle
            &&& new.device == *device
            &&& new.size.value() == request->NewBuffer_size
            &&& new.size.value() > 0
        },
        copy.0.handle == b.handle && copy.0.size == b.size && copy.0.device == b.device,
        copy.1 == (NativeCall::RetainBuffer { buffer: b.handle }),
        release == (NativeCall::ReleaseBuffer { buffer: b.handle }),
        map == (NativeCall::GetBufferData { buffer: b.handle }),
{
}

/// A view of the bytes of items `first` to `first + count`, of `t` bytes each, holds
/// these items and no others.
pub proof fn lemma_views_hold_the_items_of_their_bytes<'a, T>(
    b: &Buffer,
    data: &'a [T],
    first: nat,
    count: nat,
    k: int,
    range: ByteRange,
    v: BufferView<'a, T>,
)
    requires
        vstd::layout::size_of::<T>() > 0,
        first + count <= data@.len(),
        0 <= k < count,
        range.start matches Bound::Included(start) && start == first * vstd::layout::size_of::<T>(),
        range.end matches Bound::Excluded(end) && end == (first + count) * vstd::layout::size_of::<
            T,
        >(),
        call_ensures(Buffer::mapped_range::<T>, (b, data, range), v),
    ensures
        v@.len() == count,
        v@[k] == data@[first + k],
{
    let t = vstd::layout::size_of::<T>();
    assert((first + count) * t - first * t == count * t) by (nonlinear_arith);
    lemma_mapped_bytes_are_whole_items(
        data@,
        first,
        count,
        t,
        data@.subrange(first as int, (first + count) as int),
    );
}

/// The value of all-zero bytes is zero for every number, and for arrays that of their
/// elements.
pub proof fn lemma_zero_values_are_zero(
    a: u8,
    b: i8,
    c: u16,
    d: i16,
    e: u32,
    f: i32,
    g: u64,
    h: i64,
    three: [u32; 3],
)
    ensures
        call_ensures(<u8 as BufferData>::zero, (), a) ==> a == 0,
        call_ensures(<i8 as BufferData>::zero, (), b) ==> b == 0,
        call_ensures(<u16 as BufferData>::zero, (), c) ==> c == 0,
        call_ensures(<i16 as BufferData>::zero, (), d) ==> d == 0,
        call_ensures(<u32 as BufferData>::zero, (), e) ==> e == 0,
        call_ensures(<i32 as BufferData>::zero, (), f) ==> f == 0,
        call_ensures(<u64 as BufferData>::zero, (), g) ==> g == 0,
        call_ensures(<i64 as BufferData>::zero, (), h) ==> h == 0,
        call_ensures(<[u32; 3] as BufferData>::zero, (), three) ==> three[0] == 0 && three[1] == 0
            && three[2] == 0,
{
    assert(three[0] == three@[0] && three[1] == three@[1] && three[2] == three@[2]);
}

/// A view for writing holds the items of its bytes, and what is written to it is written
/// to them and to no others.
pub proof fn lemma_views_write_the_items_of_their_bytes<'a, T>(
    b: &mut Buffer,
    data: &'a mut [T],
    first: nat,
    count: nat,
    k: int,
    j: int,
    range: ByteRange,
    v: BufferViewMut<'a, T>,
)
    requires
        vstd::layout::size_of::<T>() > 0,
        first + count <= old(data)@.len(),
        0 <= k < count,
        0 <= j < old(data)@.len(),
        range.start matches Bound::Included(start) && start == first * vstd::layout::size_of::<T>(),
        range.end matches Bound::Excluded(end) && end == (first + count) * vstd::layout::size_of::<
            T,
        >(),
        call_ensures(Buffer::mapped_range_mut::<T>, (b, data, range), v),
        final(v.slice)@.len() == count,
    ensures
        *final(b) == *old(b),
        old(v.slice)@.len() == count,
        old(v.slice)@[k] == old(data)@[first + k],
        final(data)@.len() == old(data)@.len(),
        final(data)@[first + k] == final(v.slice)@[k],
        j < first || first + count <= j ==> final(data)@[j] == old(data)@[j],
{
    let t = vstd::layout::size_of::<T>();
    assert((first + count) * t - first * t == count * t) by (nonlinear_arith);
    lemma_mapped_bytes_are_whole_items(old(data)@, first, count, t, final(v.slice)@);
}

} // verus!
