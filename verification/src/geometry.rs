//! Geometries: the build phase, the committed phase, and who owns what.
//!
//! A geometry is configured through a [`GeometryBuilder`], which holds its state
//! alone. Committing moves the state into a [`GeometryStore`], where any number
//! of [`Geometry`] handles share it read-only: clones held by the application,
//! and one for every scene that the geometry is attached to. The store counts
//! the handles; the state can be taken out again for editing only through the
//! last one.

use std::collections::HashMap;

use vstd::prelude::*;

use crate::aligned::address_of;
use crate::attachments::{release_of, releases_of, AttachedBuffer, Attachments, BindingKey};
use crate::buffer::{
    layout_bytes, required_layout_bytes, Bound, Buffer, BufferLayout, BufferSize, BufferSource,
    ByteRange,
};
use crate::call::NativeCall;
use crate::callback::{CallSite, CbKind, Slot, UserBinding};
use crate::sys::{
    BufferUsage, BuildQuality, Device, Error, Format, GeometryKind, Real, SubdivisionMode,
};
use crate::transform::QuaternionDecomposition;

verus! {

/// All state of a geometry. `F` is the type of its callback closures, `U` that
/// of their user data.
#[derive(Debug)]
pub struct GeometryShared<'buf, F, U> {
    pub device: Device,
    pub handle: usize,
    pub kind: GeometryKind,
    pub attachments: Attachments<'buf>,
    pub call_site: CallSite<F, U>,
}

/// Vertex attributes are supported by every kind but these.
pub open spec fn has_vertex_attributes(kind: GeometryKind) -> bool {
    kind != GeometryKind::GRID && kind != GeometryKind::USER && kind != GeometryKind::INSTANCE
}

/// The buffers that are read in units of 16 bytes.
pub open spec fn is_vertex_usage(usage: BufferUsage) -> bool {
    usage == BufferUsage::VERTEX || usage == BufferUsage::VERTEX_ATTRIBUTE
}

/// The kinds that have a tessellation rate: subdivision meshes, flat curves, and
/// round linear and Bezier curves.
pub open spec fn has_tessellation_rate(kind: GeometryKind) -> bool {
    ||| kind == GeometryKind::SUBDIVISION
    ||| kind == GeometryKind::FLAT_LINEAR_CURVE
    ||| kind == GeometryKind::FLAT_BEZIER_CURVE
    ||| kind == GeometryKind::FLAT_BSPLINE_CURVE
    ||| kind == GeometryKind::FLAT_HERMITE_CURVE
    ||| kind == GeometryKind::FLAT_CATMULL_ROM_CURVE
    ||| kind == GeometryKind::ROUND_LINEAR_CURVE
    ||| kind == GeometryKind::ROUND_BEZIER_CURVE
}

/// What every binding is checked for first: the number of bytes it takes, or the
/// error it is refused with.
pub open spec fn checked_layout(
    kind: GeometryKind,
    usage: BufferUsage,
    format: Format,
    stride: usize,
    count: usize,
) -> Result<nat, Error> {
    if usage == BufferUsage::VERTEX_ATTRIBUTE && !has_vertex_attributes(kind) {
        Err(Error::INVALID_OPERATION)
    } else {
        match layout_bytes(format, stride as nat, count as nat, is_vertex_usage(usage)) {
            Some(n) => Ok(n),
            None => Err(Error::INVALID_ARGUMENT),
        }
    }
}

/// Whether `data`, at `address`, can be bound as a layout of `required` bytes.
pub open spec fn fits_shared(data: Seq<u8>, address: usize, required: nat) -> bool {
    data.len() >= required && address % 4 == 0
}

/// Whether `range` of a buffer of `size` bytes can be bound as a layout of
/// `required` bytes.
pub open spec fn fits_managed(range: ByteRange, size: nat, required: nat) -> bool {
    &&& range.first() % 4 == 0
    &&& range.first() <= range.past(size) <= size
    &&& range.past(size) - range.first() >= required
}

/// What a request for new storage is answered, given what the layout check said:
/// the number of bytes of storage, which elements of `t_size` bytes must tile.
pub open spec fn checked_storage(
    layout: Result<nat, Error>,
    stride: usize,
    count: usize,
    t_size: nat,
) -> Result<nat, Error> {
    match layout {
        Err(e) => Err(e),
        Ok(_) => if stride * count > usize::MAX || t_size == 0 || (stride * count) % (t_size as int)
            != 0 {
            Err(Error::INVALID_ARGUMENT)
        } else {
            Ok((stride * count) as nat)
        },
    }
}

impl<'buf, F, U> GeometryShared<'buf, F, U> {
    /// `self` is `pre` with `key` bound to `binding`.
    pub open spec fn is_rebind_of(
        &self,
        pre: &Self,
        key: BindingKey,
        binding: AttachedBuffer<'buf>,
    ) -> bool {
        &&& self.device == pre.device
        &&& self.handle == pre.handle
        &&& self.kind == pre.kind
        &&& self.attachments@ == pre.attachments@.insert(key, binding)
        &&& self.call_site == pre.call_site
    }

    /// `self` is `pre` with the callback slot of `kind` set to `slot`.
    pub open spec fn is_recall_of(&self, pre: &Self, kind: CbKind, slot: Slot<F, U>) -> bool {
        &&& self.device == pre.device
        &&& self.handle == pre.handle
        &&& self.kind == pre.kind
        &&& self.attachments == pre.attachments
        &&& self.call_site.is_update_of(&pre.call_site, kind, slot)
    }

    /// The source that is reported for a binding.
    pub open spec fn source_of(binding: AttachedBuffer<'buf>) -> BufferSource<'buf> {
        match binding {
            AttachedBuffer::Managed { buffer, byte_offset, layout } => BufferSource::Managed {
                buffer,
                byte_offset,
                layout,
            },
            AttachedBuffer::Shared { data, layout } => BufferSource::Shared { data, layout },
            AttachedBuffer::Local { address, size, layout } => BufferSource::Local { size, layout },
        }
    }

    /// What is bound to a slot, and the native call that takes the reference
    /// that goes out with it, if a native buffer is.
    pub fn buffer_source(&self, usage: BufferUsage, slot: u32) -> (r: (
        Option<BufferSource<'buf>>,
        Option<NativeCall>,
    ))
        ensures
            match self.attachments@.get((usage, slot)) {
                Some(b) => {
                    &&& r.0 == Some(Self::source_of(b))
                    &&& r.1 == (match b {
                        AttachedBuffer::Managed { buffer, .. } => Some(
                            NativeCall::RetainBuffer { buffer: buffer.handle },
                        ),
                        _ => None,
                    })
                },
                None => r.0 is None && r.1 is None,
            },
    {
        match self.attachments.get(usage, slot) {
            None => (None, None),
            Some(AttachedBuffer::Managed { buffer, byte_offset, layout }) => {
                let (buffer, retain) = buffer.retain();
                (
                    Some(
                        BufferSource::Managed {
                            buffer,
                            byte_offset: *byte_offset,
                            layout: *layout,
                        },
                    ),
                    Some(retain),
                )
            },
            Some(AttachedBuffer::Shared { data, layout }) => (
                Some(BufferSource::Shared { data: *data, layout: *layout }),
                None,
            ),
            Some(AttachedBuffer::Local { address: _, size, layout }) => (
                Some(BufferSource::Local { size: *size, layout: *layout }),
                None,
            ),
        }
    }

    /// The size of the geometry's own storage in a slot, or `None` if the slot
    /// holds none.
    pub open spec fn local_size(&self, usage: BufferUsage, slot: u32) -> Option<nat> {
        match self.attachments@.get((usage, slot)) {
            Some(AttachedBuffer::Local { address, size, layout }) => Some(size.value()),
            _ => None,
        }
    }

    /// The native call that locates the geometry's own storage in a slot; an
    /// error if the slot holds none.
    pub fn map_local_request(&self, usage: BufferUsage, slot: u32) -> (r: Result<
        NativeCall,
        Error,
    >)
        ensures
            r == (match self.local_size(usage, slot) {
                Some(_) => Ok::<NativeCall, Error>(
                    NativeCall::GetGeometryBufferData { geometry: self.handle, usage, slot },
                ),
                None => Err(Error::INVALID_ARGUMENT),
            }),
    {
        match self.attachments.get(usage, slot) {
            Some(AttachedBuffer::Local { address: _, size: _, layout: _ }) => Ok(
                NativeCall::GetGeometryBufferData { geometry: self.handle, usage, slot },
            ),
            _ => Err(Error::INVALID_ARGUMENT),
        }
    }

    /// Whether storage of `size` bytes at `address` can be viewed as elements of
    /// `T`: it exists, elements of `T` tile it, and it is aligned for them.
    pub open spec fn viewable<T>(size: nat, address: usize) -> bool {
        &&& address != 0
        &&& vstd::layout::size_of::<T>() != 0
        &&& size % vstd::layout::size_of::<T>() == 0
        &&& address as nat % vstd::layout::align_of::<T>() == 0
    }

    /// Resolves the geometry's own storage in a slot to its address and number
    /// of elements of `T`. `address` is what the native call of
    /// [`map_local_request`](Self::map_local_request) returned. An error if the
    /// slot holds no storage of the geometry, or if it cannot be viewed as
    /// elements of `T`.
    pub fn map_local<T>(&self, usage: BufferUsage, slot: u32, address: usize) -> (r: Result<
        (usize, usize),
        Error,
    >)
        ensures
            match self.local_size(usage, slot) {
                Some(size) => if Self::viewable::<T>(size, address) {
                    r matches Ok((a, n)) && a == address && n == size / vstd::layout::size_of::<
                        T,
                    >()
                } else {
                    r == Err::<(usize, usize), Error>(Error::INVALID_ARGUMENT)
                },
                None => r == Err::<(usize, usize), Error>(Error::INVALID_ARGUMENT),
            },
    {
        let byte_size: usize = match self.attachments.get(usage, slot) {
            Some(AttachedBuffer::Local { address: _, size, layout: _ }) => size.get(),
            _ => {
                return Err(Error::INVALID_ARGUMENT);
            },
        };
        let t_size: usize = core::mem::size_of::<T>();
        let t_align: usize = core::mem::align_of::<T>();
        vstd::layout::layout_for_type_is_valid::<T>();
        if address == 0 || t_size == 0 || byte_size % t_size != 0 || address % t_align != 0 {
            return Err(Error::INVALID_ARGUMENT);
        }
        Ok((address, byte_size / t_size))
    }

    /// The native calls that are due when the state goes away: the geometry is
    /// released, then the buffers that it holds references of.
    pub open spec fn farewell(&self) -> Seq<NativeCall> {
        seq![NativeCall::ReleaseGeometry { geometry: self.handle }] + releases_of(
            self.attachments.keys(),
            self.attachments@,
        )
    }

    /// Gives the state up, with the native calls of [`farewell`](Self::farewell).
    /// Every binding is visited exactly once.
    pub fn release(self) -> (calls: Vec<NativeCall>)
        ensures
            calls@ == self.farewell(),
            self.attachments.keys().no_duplicates(),
            self.attachments.keys().to_set() == self.attachments@.dom(),
    {
        let mut calls: Vec<NativeCall> = Vec::new();
        calls.push(NativeCall::ReleaseGeometry { geometry: self.handle });
        let mut buffers = self.attachments.release();
        calls.append(&mut buffers);
        calls
    }
}

/// The **mutable build/edit phase** of a geometry: the sole holder of its state.
#[derive(Debug)]
pub struct GeometryBuilder<'buf, F, U> {
    pub shared: GeometryShared<'buf, F, U>,
}

/// What a change of a callback comes down to: the native call to make, if any,
/// and what to drop after it.
#[derive(Debug)]
pub struct CallbackChange<F, U> {
    pub call: Option<NativeCall>,
    pub released: Slot<F, U>,
}

/// What binding shared data comes down to: the native call to make, the data that
/// goes along with it, and the native calls that are due after it.
#[derive(Debug)]
pub struct SharedBinding<'buf> {
    pub call: NativeCall,
    pub data: &'buf [u8],
    pub due: Vec<NativeCall>,
}

/// A binding of `data` as `layout` was made in the slot of `key`.
pub open spec fn shared_bound<'buf, F, U>(
    pre: &GeometryShared<'buf, F, U>,
    post: &GeometryShared<'buf, F, U>,
    key: BindingKey,
    data: &'buf [u8],
    layout: BufferLayout,
    binding: SharedBinding<'buf>,
) -> bool {
    &&& binding.call == (NativeCall::SetSharedGeometryBuffer {
        geometry: pre.handle,
        usage: key.0,
        slot: key.1,
        format: layout.format,
        byte_offset: 0,
        stride: layout.stride,
        item_count: layout.count,
    })
    &&& binding.data == data
    &&& binding.due@ == release_of(pre.attachments@.get(key))
    &&& post.is_rebind_of(pre, key, AttachedBuffer::Shared { data, layout })
}

impl<'buf, F, U> GeometryBuilder<'buf, F, U> {
    /// Checks if the vertex attribute is allowed for the geometry.
    fn check_vertex_attribute(&self) -> (r: Result<(), Error>)
        ensures
            r == (if has_vertex_attributes(self.shared.kind) {
                Ok::<(), Error>(())
            } else {
                Err(Error::INVALID_OPERATION)
            }),
    {
        match self.shared.kind {
            GeometryKind::GRID | GeometryKind::USER | GeometryKind::INSTANCE => Err(
                Error::INVALID_OPERATION,
            ),
            _ => Ok(()),
        }
    }

    /// Checks a layout for binding and returns the number of bytes it takes.
    fn check_layout(&self, usage: BufferUsage, format: Format, stride: usize, count: usize) -> (r:
        Result<usize, Error>)
        ensures
            match checked_layout(self.shared.kind, usage, format, stride, count) {
                Ok(n) => r matches Ok(m) && m == n,
                Err(e) => r == Err::<usize, Error>(e),
            },
    {
        if usage == BufferUsage::VERTEX_ATTRIBUTE {
            match self.check_vertex_attribute() {
                Ok(()) => {},
                Err(e) => {
                    return Err(e);
                },
            }
        }
        let vertex: bool = usage == BufferUsage::VERTEX || usage == BufferUsage::VERTEX_ATTRIBUTE;
        match required_layout_bytes(format, stride, count, vertex) {
            Some(n) => Ok(n),
            None => Err(Error::INVALID_ARGUMENT),
        }
    }

    /// Records a binding. The calls made so far are followed by the one that
    /// gives up the reference of the binding that it displaces.
    fn bind(
        &mut self,
        usage: BufferUsage,
        slot: u32,
        binding: AttachedBuffer<'buf>,
        calls: &mut Vec<NativeCall>,
    )
        ensures
            final(self).shared.is_rebind_of(&old(self).shared, (usage, slot), binding),
            final(calls)@ == old(calls)@ + release_of(
                old(self).shared.attachments@.get((usage, slot)),
            ),
    {
        match self.shared.attachments.insert(usage, slot, binding) {
            Some(AttachedBuffer::Managed { buffer, .. }) => {
                calls.push(buffer.release());
            },
            _ => {},
        }
    }

    /// Binds caller-owned memory as a geometry buffer, without a copy.
    ///
    /// `data[0 .. (count-1)*stride + tail]` is read, where `tail` is the element
    /// size, **rounded up to 16 bytes for a vertex buffer**. The data and
    /// `stride` must be 4-byte aligned. Pre-slice `data` for a non-zero start,
    /// there is no separate byte offset.
    ///
    /// Whether well-sized data can be bound depends on where it lies; see
    /// [`set_shared_buffer_at`](Self::set_shared_buffer_at) for what is done at a
    /// given address.
    pub fn set_shared_buffer(
        &mut self,
        usage: BufferUsage,
        slot: u32,
        format: Format,
        data: &'buf [u8],
        stride: usize,
        count: usize,
    ) -> (r: Result<SharedBinding<'buf>, Error>)
        ensures
            match checked_layout(old(self).shared.kind, usage, format, stride, count) {
                Err(e) => r == Err::<SharedBinding<'buf>, Error>(e) && *final(self) == *old(self),
                Ok(required) => match r {
                    Err(e) => e == Error::INVALID_ARGUMENT && *final(self) == *old(self),
                    Ok(binding) => data@.len() >= required && shared_bound(
                        &old(self).shared,
                        &final(self).shared,
                        (usage, slot),
                        data,
                        (BufferLayout { format, stride, count }),
                        binding,
                    ),
                },
            },
    {
        let address: usize = address_of(data);
        self.set_shared_buffer_at(usage, slot, format, data, address, stride, count)
    }

    /// [`set_shared_buffer`](Self::set_shared_buffer) for data that lies at
    /// `address`.
    pub fn set_shared_buffer_at(
        &mut self,
        usage: BufferUsage,
        slot: u32,
        format: Format,
        data: &'buf [u8],
        address: usize,
        stride: usize,
        count: usize,
    ) -> (r: Result<SharedBinding<'buf>, Error>)
        ensures
            match checked_layout(old(self).shared.kind, usage, format, stride, count) {
                Err(e) => r == Err::<SharedBinding<'buf>, Error>(e) && *final(self) == *old(self),
                Ok(required) => if fits_shared(data@, address, required) {
                    r is Ok && shared_bound(
                        &old(self).shared,
                        &final(self).shared,
                        (usage, slot),
                        data,
                        (BufferLayout { format, stride, count }),
                        r->Ok_0,
                    )
                } else {
                    r == Err::<SharedBinding<'buf>, Error>(Error::INVALID_ARGUMENT)
                        && *final(self) == *old(self)
                },
            },
    {
        let required: usize = match self.check_layout(usage, format, stride, count) {
            Ok(n) => n,
            Err(e) => {
                return Err(e);
            },
        };
        if data.len() < required || address % 4 != 0 {
            return Err(Error::INVALID_ARGUMENT);
        }
        let call = NativeCall::SetSharedGeometryBuffer {
            geometry: self.shared.handle,
            usage,
            slot,
            format,
            byte_offset: 0,
            stride,
            item_count: count,
        };
        let mut due: Vec<NativeCall> = Vec::new();
        self.bind(
            usage,
            slot,
            AttachedBuffer::Shared { data, layout: BufferLayout { format, stride, count } },
            &mut due,
        );
        Ok(SharedBinding { call, data, due })
    }

    /// Binds a slice of `T` as a geometry buffer, without a copy: one element per
    /// item. `data` is the bytes of the slice.
    pub fn set_shared_slice<T>(
        &mut self,
        usage: BufferUsage,
        slot: u32,
        format: Format,
        data: &'buf [u8],
        address: usize,
    ) -> (r: Result<SharedBinding<'buf>, Error>)
        ensures
            ({
                let stride = vstd::layout::size_of::<T>() as usize;
                let count = slice_items(data@.len(), vstd::layout::size_of::<T>());
                match checked_layout(old(self).shared.kind, usage, format, stride, count) {
                    Err(e) => r == Err::<SharedBinding<'buf>, Error>(e) && *final(self) == *old(
                        self,
                    ),
                    Ok(required) => if fits_shared(data@, address, required) {
                        r is Ok && shared_bound(
                            &old(self).shared,
                            &final(self).shared,
                            (usage, slot),
                            data,
                            (BufferLayout { format, stride, count }),
                            r->Ok_0,
                        )
                    } else {
                        r == Err::<SharedBinding<'buf>, Error>(Error::INVALID_ARGUMENT)
                            && *final(self) == *old(self)
                    },
                }
            }),
    {
        let stride: usize = core::mem::size_of::<T>();
        let count: usize = if stride == 0 {
            0
        } else {
            data.len() / stride
        };
        self.set_shared_buffer_at(usage, slot, format, data, address, stride, count)
    }

    /// Binds a byte sub-range of a native buffer. The geometry takes a reference
    /// of the buffer. The start of `byte_range` must be 4-byte aligned; the
    /// range must lie within the buffer and be long enough for the layout.
    pub fn set_managed_buffer(
        &mut self,
        usage: BufferUsage,
        slot: u32,
        format: Format,
        buffer: &Buffer,
        byte_range: ByteRange,
        stride: usize,
        count: usize,
    ) -> (r: Result<Vec<NativeCall>, Error>)
        requires
            byte_range.representable(),
        ensures
            match checked_layout(old(self).shared.kind, usage, format, stride, count) {
                Err(e) => r == Err::<Vec<NativeCall>, Error>(e) && *final(self) == *old(self),
                Ok(required) => if fits_managed(byte_range, buffer.size.value(), required) {
                    &&& r is Ok
                    &&& r->Ok_0@ == seq![
                        NativeCall::SetGeometryBuffer {
                            geometry: old(self).shared.handle,
                            usage,
                            slot,
                            format,
                            buffer: buffer.handle,
                            byte_offset: byte_range.first() as usize,
                            stride,
                            item_count: count,
                        },
                        NativeCall::RetainBuffer { buffer: buffer.handle },
                    ] + release_of(old(self).shared.attachments@.get((usage, slot)))
                    &&& final(self).shared.is_rebind_of(
                        &old(self).shared,
                        (usage, slot),
                        (AttachedBuffer::Managed {
                            buffer: *buffer,
                            byte_offset: byte_range.first() as usize,
                            layout: BufferLayout { format, stride, count },
                        }),
                    )
                } else {
                    r == Err::<Vec<NativeCall>, Error>(Error::INVALID_ARGUMENT) && *final(self)
                        == *old(self)
                },
            },
    {
        let required: usize = match self.check_layout(usage, format, stride, count) {
            Ok(n) => n,
            Err(e) => {
                return Err(e);
            },
        };
        let byte_offset: usize = match byte_range.start {
            Bound::Included(n) => n,
            Bound::Excluded(n) => n + 1,
            Bound::Unbounded => 0,
        };
        let end: usize = match byte_range.end {
            Bound::Included(n) => n + 1,
            Bound::Excluded(n) => n,
            Bound::Unbounded => buffer.size.get(),
        };
        if byte_offset % 4 != 0 || byte_offset > end || end > buffer.size.get() || end - byte_offset
            < required {
            return Err(Error::INVALID_ARGUMENT);
        }
        let mut calls: Vec<NativeCall> = Vec::new();
        calls.push(
            NativeCall::SetGeometryBuffer {
                geometry: self.shared.handle,
                usage,
                slot,
                format,
                buffer: buffer.handle,
                byte_offset,
                stride,
                item_count: count,
            },
        );
        let (buffer, retain) = buffer.retain();
        calls.push(retain);
        self.bind(
            usage,
            slot,
            AttachedBuffer::Managed {
                buffer,
                byte_offset,
                layout: BufferLayout { format, stride, count },
            },
            &mut calls,
        );
        Ok(calls)
    }

    /// Binds a range of items of a native buffer that is made of items of `T`:
    /// one element per item. `items` counts items, not bytes.
    pub fn set_managed_slice<T>(
        &mut self,
        usage: BufferUsage,
        slot: u32,
        format: Format,
        buffer: &Buffer,
        items: ByteRange,
    ) -> (r: Result<Vec<NativeCall>, Error>)
        requires
            items.representable(),
        ensures
            ({
                let t = vstd::layout::size_of::<T>();
                let total = slice_items(buffer.size.value(), t);
                let (first, past) = (items.first(), items.past(total as nat));
                let count = if first < past {
                    (past - first) as usize
                } else {
                    0
                };
                match checked_layout(old(self).shared.kind, usage, format, t as usize, count) {
                    Err(e) => r == Err::<Vec<NativeCall>, Error>(e) && *final(self) == *old(self),
                    Ok(required) => if past * t <= buffer.size.value() && (first * t) % 4 == 0 && (
                    past - first) * t >= required {
                        &&& r is Ok
                        &&& r->Ok_0@ == seq![
                            NativeCall::SetGeometryBuffer {
                                geometry: old(self).shared.handle,
                                usage,
                                slot,
                                format,
                                buffer: buffer.handle,
                                byte_offset: (first * t) as usize,
                                stride: t as usize,
                                item_count: count,
                            },
                            NativeCall::RetainBuffer { buffer: buffer.handle },
                        ] + release_of(old(self).shared.attachments@.get((usage, slot)))
                        &&& final(self).shared.is_rebind_of(
                            &old(self).shared,
                            (usage, slot),
                            (AttachedBuffer::Managed {
                                buffer: *buffer,
                                byte_offset: (first * t) as usize,
                                layout: BufferLayout { format, stride: t as usize, count },
                            }),
                        )
                    } else {
                        r == Err::<Vec<NativeCall>, Error>(Error::INVALID_ARGUMENT) && *final(self)
                            == *old(self)
                    },
                }
            }),
    {
        let t: usize = core::mem::size_of::<T>();
        let total: usize = if t == 0 {
            0
        } else {
            buffer.size.get() / t
        };
        let first: usize = match items.start {
            Bound::Included(n) => n,
            Bound::Excluded(n) => n + 1,
            Bound::Unbounded => 0,
        };
        let past: usize = match items.end {
            Bound::Included(n) => n + 1,
            Bound::Excluded(n) => n,
            Bound::Unbounded => total,
        };
        let count: usize = if first < past {
            past - first
        } else {
            0
        };
        match self.check_layout(usage, format, t, count) {
            Ok(_) => {},
            Err(e) => {
                return Err(e);
            },
        }
        proof {
            assert(first < past);
            assert(first * t <= past * t && past * t - first * t == (past - first) * t)
                by (nonlinear_arith)
                requires
                    first < past,
            ;
        }
        match (first.checked_mul(t), past.checked_mul(t)) {
            (Some(start), Some(end)) => self.set_managed_buffer(
                usage,
                slot,
                format,
                buffer,
                ByteRange { start: Bound::Included(start), end: Bound::Excluded(end) },
                t,
                count,
            ),
            _ => Err(Error::INVALID_ARGUMENT),
        }
    }

    /// Checks a request for new storage in a slot, to be filled with elements of
    /// `T`, and returns the native call that allocates it. `stride` must be a
    /// multiple of 4.
    pub fn set_new_buffer<T>(
        &mut self,
        usage: BufferUsage,
        slot: u32,
        format: Format,
        stride: usize,
        count: usize,
    ) -> (r: Result<NativeCall, Error>)
        ensures
            *final(self) == *old(self),
            r == (match old(self).storage_for::<T>(usage, format, stride, count) {
                Ok(_) => Ok::<NativeCall, Error>(
                    NativeCall::SetNewGeometryBuffer {
                        geometry: old(self).shared.handle,
                        usage,
                        slot,
                        format,
                        stride,
                        item_count: count,
                    },
                ),
                Err(e) => Err(e),
            }),
    {
        match self.check_layout(usage, format, stride, count) {
            Ok(_) => {},
            Err(e) => {
                return Err(e);
            },
        }
        let size: usize = match stride.checked_mul(count) {
            Some(n) => n,
            None => {
                return Err(Error::INVALID_ARGUMENT);
            },
        };
        let t_size: usize = core::mem::size_of::<T>();
        if t_size == 0 || size % t_size != 0 {
            return Err(Error::INVALID_ARGUMENT);
        }
        Ok(
            NativeCall::SetNewGeometryBuffer {
                geometry: self.shared.handle,
                usage,
                slot,
                format,
                stride,
                item_count: count,
            },
        )
    }

    /// The number of bytes of storage that a request is granted, or the error it
    /// is refused with.
    pub open spec fn storage_for<T>(
        &self,
        usage: BufferUsage,
        format: Format,
        stride: usize,
        count: usize,
    ) -> Result<nat, Error> {
        checked_storage(
            checked_layout(self.shared.kind, usage, format, stride, count),
            stride,
            count,
            vstd::layout::size_of::<T>(),
        )
    }

    /// Binds the storage that the native call of
    /// [`set_new_buffer`](Self::set_new_buffer) allocated at `address`, zero if
    /// it failed; `error` is the device's error code after the call. Returns the
    /// number of elements of `T` and the native calls that are due.
    pub fn bind_new_buffer<T>(
        &mut self,
        usage: BufferUsage,
        slot: u32,
        format: Format,
        stride: usize,
        count: usize,
        address: usize,
        error: Error,
    ) -> (r: Result<(usize, Vec<NativeCall>), Error>)
        requires
            old(self).storage_for::<T>(usage, format, stride, count) is Ok,
        ensures
            if address == 0 {
                r == Err::<(usize, Vec<NativeCall>), Error>(error) && *final(self) == *old(self)
            } else if address as nat % vstd::layout::align_of::<T>() != 0 {
                r == Err::<(usize, Vec<NativeCall>), Error>(Error::INVALID_ARGUMENT) && *final(self)
                    == *old(self)
            } else {
                &&& r is Ok
                &&& r->Ok_0.0 == stride * count / (vstd::layout::size_of::<T>() as int)
                &&& r->Ok_0.1@ == release_of(old(self).shared.attachments@.get((usage, slot)))
                &&& exists|size: BufferSize|
                    {
                        &&& #[trigger] size.value() == stride * count
                        &&& final(self).shared.is_rebind_of(
                            &old(self).shared,
                            (usage, slot),
                            (AttachedBuffer::Local {
                                address,
                                size,
                                layout: BufferLayout { format, stride, count },
                            }),
                        )
                    }
            },
    {
        if address == 0 {
            return Err(error);
        }
        vstd::layout::layout_for_type_is_valid::<T>();
        if address % core::mem::align_of::<T>() != 0 {
            return Err(Error::INVALID_ARGUMENT);
        }
        let bytes: usize = stride * count;
        let t_size: usize = core::mem::size_of::<T>();
        let size: BufferSize = match BufferSize::new(bytes) {
            Some(size) => size,
            None => {
                proof {
                    lemma_storage_is_not_empty(self.shared.kind, usage, format, stride, count);
                }
                vstd::pervasive::unreached()
            },
        };
        let mut calls: Vec<NativeCall> = Vec::new();
        self.bind(
            usage,
            slot,
            AttachedBuffer::Local {
                address,
                size,
                layout: BufferLayout { format, stride, count },
            },
            &mut calls,
        );
        assert(size.value() == stride * count);
        Ok((bytes / t_size, calls))
    }
}

/// Number of items of `t_size` bytes in `bytes` bytes.
pub open spec fn slice_items(bytes: nat, t_size: nat) -> usize {
    if t_size == 0 {
        0
    } else {
        (bytes / t_size) as usize
    }
}

/// Every element takes at least one byte.
proof fn lemma_storage_is_not_empty(
    kind: GeometryKind,
    usage: BufferUsage,
    format: Format,
    stride: usize,
    count: usize,
)
    requires
        checked_layout(kind, usage, format, stride, count) is Ok,
    ensures
        stride * count > 0,
{
    assert(crate::buffer::element_bytes(format)->Some_0 > 0);
    assert(stride * count > 0) by (nonlinear_arith)
        requires
            stride > 0,
            count > 0,
    ;
}

impl<'buf, F, U> GeometryBuilder<'buf, F, U> {
    /// Marks a buffer slice bound to this geometry as modified.
    pub fn update_buffer(&mut self, usage: BufferUsage, slot: u32) -> (call: NativeCall)
        ensures
            *final(self) == *old(self),
            call == (NativeCall::UpdateGeometryBuffer {
                geometry: old(self).shared.handle,
                usage,
                slot,
            }),
    {
        NativeCall::UpdateGeometryBuffer { geometry: self.shared.handle, usage, slot }
    }

    /// Disables the geometry, so it is not rendered.
    pub fn disable(&mut self) -> (call: NativeCall)
        ensures
            *final(self) == *old(self),
            call == (NativeCall::DisableGeometry { geometry: old(self).shared.handle }),
    {
        NativeCall::DisableGeometry { geometry: self.shared.handle }
    }

    /// Enables the geometry, so it is rendered.
    pub fn enable(&mut self) -> (call: NativeCall)
        ensures
            *final(self) == *old(self),
            call == (NativeCall::EnableGeometry { geometry: old(self).shared.handle }),
    {
        NativeCall::EnableGeometry { geometry: self.shared.handle }
    }

    /// Sets the number of vertex attributes of the geometry. Nothing is done for
    /// kinds without vertex attributes.
    pub fn set_vertex_attribute_count(&mut self, count: u32) -> (call: Option<NativeCall>)
        ensures
            *final(self) == *old(self),
            call == (if has_vertex_attributes(old(self).shared.kind) {
                Some(
                    NativeCall::SetGeometryVertexAttributeCount {
                        geometry: old(self).shared.handle,
                        count,
                    },
                )
            } else {
                None
            }),
    {
        match self.shared.kind {
            GeometryKind::GRID | GeometryKind::USER | GeometryKind::INSTANCE => None,
            _ => Some(
                NativeCall::SetGeometryVertexAttributeCount { geometry: self.shared.handle, count },
            ),
        }
    }

    /// Sets the build quality for the geometry.
    pub fn set_build_quality(&mut self, quality: BuildQuality) -> (call: NativeCall)
        ensures
            *final(self) == *old(self),
            call == (NativeCall::SetGeometryBuildQuality {
                geometry: old(self).shared.handle,
                quality,
            }),
    {
        NativeCall::SetGeometryBuildQuality { geometry: self.shared.handle, quality }
    }

    /// Whether the geometry has a tessellation rate.
    pub fn supports_tessellation_rate(&self) -> (r: bool)
        ensures
            r == has_tessellation_rate(self.shared.kind),
    {
        match self.shared.kind {
            GeometryKind::SUBDIVISION | GeometryKind::FLAT_LINEAR_CURVE
            | GeometryKind::FLAT_BEZIER_CURVE | GeometryKind::FLAT_BSPLINE_CURVE
            | GeometryKind::FLAT_HERMITE_CURVE | GeometryKind::FLAT_CATMULL_ROM_CURVE
            | GeometryKind::ROUND_LINEAR_CURVE | GeometryKind::ROUND_BEZIER_CURVE => true,
            _ => false,
        }
    }

    /// Sets the tessellation rate for a subdivision mesh or a curve.
    pub fn set_tessellation_rate(&mut self, rate: Real) -> (call: NativeCall)
        requires
            has_tessellation_rate(old(self).shared.kind),
        ensures
            *final(self) == *old(self),
            call == (NativeCall::SetGeometryTessellationRate {
                geometry: old(self).shared.handle,
                rate,
            }),
    {
        NativeCall::SetGeometryTessellationRate { geometry: self.shared.handle, rate }
    }

    /// Asks for a maximal radius scale of a curve or point geometry. The native
    /// library may refuse it: see
    /// [`max_radius_scale_result`](Self::max_radius_scale_result).
    pub fn set_max_radius_scale(&mut self, scale: Real) -> (call: NativeCall)
        ensures
            *final(self) == *old(self),
            call == (NativeCall::SetGeometryMaxRadiusScale {
                geometry: old(self).shared.handle,
                scale,
            }),
    {
        NativeCall::SetGeometryMaxRadiusScale { geometry: self.shared.handle, scale }
    }

    /// What [`set_max_radius_scale`](Self::set_max_radius_scale) comes to, given
    /// the device's error code after the call.
    pub fn max_radius_scale_result(&self, error: Error) -> (r: Result<(), Error>)
        ensures
            r == (if error == Error::NONE {
                Ok::<(), Error>(())
            } else {
                Err(error)
            }),
    {
        if error == Error::NONE {
            Ok(())
        } else {
            Err(error)
        }
    }

    /// Sets the mask for the geometry.
    pub fn set_mask(&mut self, mask: u32) -> (call: NativeCall)
        ensures
            *final(self) == *old(self),
            call == (NativeCall::SetGeometryMask { geometry: old(self).shared.handle, mask }),
    {
        NativeCall::SetGeometryMask { geometry: self.shared.handle, mask }
    }

    /// Sets the number of time steps for multi-segment motion blur.
    pub fn set_time_step_count(&mut self, count: u32) -> (call: NativeCall)
        ensures
            *final(self) == *old(self),
            call == (NativeCall::SetGeometryTimeStepCount {
                geometry: old(self).shared.handle,
                count,
            }),
    {
        NativeCall::SetGeometryTimeStepCount { geometry: self.shared.handle, count }
    }

    /// Sets the time range for a motion blur geometry.
    pub fn set_time_range(&mut self, start: Real, end: Real) -> (call: NativeCall)
        ensures
            *final(self) == *old(self),
            call == (NativeCall::SetGeometryTimeRange {
                geometry: old(self).shared.handle,
                start,
                end,
            }),
    {
        NativeCall::SetGeometryTimeRange { geometry: self.shared.handle, start, end }
    }

    /// Sets the native point query callback, given by its address.
    pub fn set_point_query_function(&mut self, function: usize) -> (call: NativeCall)
        ensures
            *final(self) == *old(self),
            call == (NativeCall::SetGeometryPointQueryFunction {
                geometry: old(self).shared.handle,
                function: Some(function),
            }),
    {
        NativeCall::SetGeometryPointQueryFunction {
            geometry: self.shared.handle,
            function: Some(function),
        }
    }

    /// Unsets the point query callback.
    pub fn unset_point_query_function(&mut self) -> (call: NativeCall)
        ensures
            *final(self) == *old(self),
            call == (NativeCall::SetGeometryPointQueryFunction {
                geometry: old(self).shared.handle,
                function: None,
            }),
    {
        NativeCall::SetGeometryPointQueryFunction { geometry: self.shared.handle, function: None }
    }

    /// Sets the number of primitives of a user-defined geometry.
    pub fn set_primitive_count(&mut self, count: u32) -> (call: NativeCall)
        requires
            old(self).shared.kind == GeometryKind::USER,
        ensures
            *final(self) == *old(self),
            call == (NativeCall::SetGeometryUserPrimitiveCount {
                geometry: old(self).shared.handle,
                count,
            }),
    {
        NativeCall::SetGeometryUserPrimitiveCount { geometry: self.shared.handle, count }
    }

    /// Sets the number of primitives of a user-defined geometry. Nothing is done
    /// for other kinds.
    pub fn set_user_primitive_count(&mut self, count: u32) -> (call: Option<NativeCall>)
        ensures
            *final(self) == *old(self),
            call == (if old(self).shared.kind == GeometryKind::USER {
                Some(
                    NativeCall::SetGeometryUserPrimitiveCount {
                        geometry: old(self).shared.handle,
                        count,
                    },
                )
            } else {
                None
            }),
    {
        match self.shared.kind {
            GeometryKind::USER => Some(
                NativeCall::SetGeometryUserPrimitiveCount { geometry: self.shared.handle, count },
            ),
            _ => None,
        }
    }

    /// Sets the subdivision mode for a topology of a subdivision geometry.
    pub fn set_subdivision_mode(
        &mut self,
        topology_id: u32,
        mode: SubdivisionMode,
    ) -> (call: NativeCall)
        requires
            old(self).shared.kind == GeometryKind::SUBDIVISION,
        ensures
            *final(self) == *old(self),
            call == (NativeCall::SetGeometrySubdivisionMode {
                geometry: old(self).shared.handle,
                topology: topology_id,
                mode,
            }),
    {
        NativeCall::SetGeometrySubdivisionMode {
            geometry: self.shared.handle,
            topology: topology_id,
            mode,
        }
    }

    /// Sets the number of topologies of a subdivision geometry.
    pub fn set_topology_count(&mut self, count: u32) -> (call: NativeCall)
        requires
            old(self).shared.kind == GeometryKind::SUBDIVISION,
        ensures
            *final(self) == *old(self),
            call == (NativeCall::SetGeometryTopologyCount {
                geometry: old(self).shared.handle,
                count,
            }),
    {
        NativeCall::SetGeometryTopologyCount { geometry: self.shared.handle, count }
    }

    /// Binds a vertex attribute to a topology of the geometry.
    pub fn set_vertex_attribute_topology(
        &mut self,
        vertex_attribute_id: u32,
        topology_id: u32,
    ) -> (call: NativeCall)
        ensures
            *final(self) == *old(self),
            call == (NativeCall::SetGeometryVertexAttributeTopology {
            geometry: old(self).shared.handle,
            vertex_attribute: vertex_attribute_id,
            topology: topology_id,
        }),
    {
        NativeCall::SetGeometryVertexAttributeTopology {
            geometry: self.shared.handle,
            vertex_attribute: vertex_attribute_id,
            topology: topology_id,
        }
    }

    /// Sets the instanced scene of an instance geometry.
    pub fn set_instanced_scene(&mut self, scene: usize) -> (call: NativeCall)
        requires
            old(self).shared.kind == GeometryKind::INSTANCE,
        ensures
            *final(self) == *old(self),
            call == (NativeCall::SetGeometryInstancedScene {
                geometry: old(self).shared.handle,
                scene,
            }),
    {
        NativeCall::SetGeometryInstancedScene { geometry: self.shared.handle, scene }
    }

    /// Sets the transformation for a particular time step of an instance
    /// geometry, as a 4x4 column-major matrix.
    pub fn set_transform(&mut self, time_step: u32, transform: &[Real; 16]) -> (call: NativeCall)
        requires
            old(self).shared.kind == GeometryKind::INSTANCE,
        ensures
            *final(self) == *old(self),
            call == (NativeCall::SetGeometryTransform {
                geometry: old(self).shared.handle,
                time_step,
                format: Format::FLOAT4X4_COLUMN_MAJOR,
                matrix: *transform,
            }),
    {
        NativeCall::SetGeometryTransform {
            geometry: self.shared.handle,
            time_step,
            format: Format::FLOAT4X4_COLUMN_MAJOR,
            matrix: *transform,
        }
    }

    /// Sets the transformation for a particular time step of an instance
    /// geometry as a quaternion decomposition.
    pub fn set_transform_quaternion(
        &mut self,
        time_step: u32,
        transform: &QuaternionDecomposition,
    ) -> (call: NativeCall)
        requires
            old(self).shared.kind == GeometryKind::INSTANCE,
        ensures
            *final(self) == *old(self),
            call == (NativeCall::SetGeometryTransformQuaternion {
                geometry: old(self).shared.handle,
                time_step,
                transform: *transform,
            }),
    {
        NativeCall::SetGeometryTransformQuaternion {
            geometry: self.shared.handle,
            time_step,
            transform: *transform,
        }
    }

    /// The geometry kind.
    pub fn kind(&self) -> (kind: GeometryKind)
        ensures
            kind == self.shared.kind,
    {
        self.shared.kind
    }

    /// The native handle of the geometry.
    pub fn handle(&self) -> (handle: usize)
        ensures
            handle == self.shared.handle,
    {
        self.shared.handle
    }

    /// The buffer bound to the given slot, and the native call that takes the
    /// reference that goes out with it, if a native buffer is.
    pub fn get_buffer(&self, usage: BufferUsage, slot: u32) -> (r: (
        Option<BufferSource<'buf>>,
        Option<NativeCall>,
    ))
        ensures
            match self.shared.attachments@.get((usage, slot)) {
                Some(b) => {
                    &&& r.0 == Some(GeometryShared::<'buf, F, U>::source_of(b))
                    &&& r.1 == (match b {
                        AttachedBuffer::Managed { buffer, .. } => Some(
                            NativeCall::RetainBuffer { buffer: buffer.handle },
                        ),
                        _ => None,
                    })
                },
                None => r.0 is None && r.1 is None,
            },
    {
        self.shared.buffer_source(usage, slot)
    }

    /// Resolves the geometry's own storage in a slot for writing. `address` is
    /// where the native library located it.
    pub fn map_buffer_mut<T>(&mut self, usage: BufferUsage, slot: u32, address: usize) -> (r:
        Result<(usize, usize), Error>)
        ensures
            *final(self) == *old(self),
            match old(self).shared.local_size(usage, slot) {
                Some(size) => if GeometryShared::<'buf, F, U>::viewable::<T>(size, address) {
                    r matches Ok((a, n)) && a == address && n == size / vstd::layout::size_of::<
                        T,
                    >()
                } else {
                    r == Err::<(usize, usize), Error>(Error::INVALID_ARGUMENT)
                },
                None => r == Err::<(usize, usize), Error>(Error::INVALID_ARGUMENT),
            },
    {
        self.shared.map_local::<T>(usage, slot, address)
    }

    /// Resolves the geometry's own storage in a slot for reading. `address` is
    /// where the native library located it.
    pub fn map_buffer<T>(&self, usage: BufferUsage, slot: u32, address: usize) -> (r: Result<
        (usize, usize),
        Error,
    >)
        ensures
            match self.shared.local_size(usage, slot) {
                Some(size) => if GeometryShared::<'buf, F, U>::viewable::<T>(size, address) {
                    r matches Ok((a, n)) && a == address && n == size / vstd::layout::size_of::<
                        T,
                    >()
                } else {
                    r == Err::<(usize, usize), Error>(Error::INVALID_ARGUMENT)
                },
                None => r == Err::<(usize, usize), Error>(Error::INVALID_ARGUMENT),
            },
    {
        self.shared.map_local::<T>(usage, slot, address)
    }

    /// The *owned* data bound to `kind`. Borrowed data is not returned here, the
    /// application already has it.
    pub fn callback_data(&self, kind: CbKind) -> (r: Option<&U>)
        ensures
            r is Some == self.shared.call_site.slot(kind).user_data.owned() is Some,
            r matches Some(u) ==> self.shared.call_site.slot(kind).user_data.owned() == Some(*u),
    {
        self.shared.call_site.callback_data(kind)
    }

    /// The owned data bound to `kind`, for writing.
    pub fn callback_data_mut(&mut self, kind: CbKind) -> (r: Option<&mut U>)
        ensures
            match r {
                Some(u) => {
                    &&& old(self).shared.call_site.slot(kind).user_data == UserBinding::Owned(*u)
                    &&& final(self).shared.is_recall_of(
                        &old(self).shared,
                        kind,
                        (Slot {
                            closure: old(self).shared.call_site.slot(kind).closure,
                            user_data: UserBinding::Owned(*final(u)),
                        }),
                    )
                },
                None => {
                    &&& old(self).shared.call_site.slot(kind).user_data.owned() is None
                    &&& final(self).shared.is_recall_of(
                        &old(self).shared,
                        kind,
                        old(self).shared.call_site.slot(kind),
                    )
                },
            },
    {
        self.shared.call_site.callback_data_mut(kind)
    }

    /// Puts a closure, with its user data, into the slot of `kind` and returns
    /// what was there.
    fn install_callback(&mut self, kind: CbKind, slot: Slot<F, U>) -> (released: Slot<F, U>)
        ensures
            final(self).shared.is_recall_of(&old(self).shared, kind, slot),
            released == old(self).shared.call_site.slot(kind),
    {
        self.shared.call_site.replace(kind, slot)
    }

    /// Empties the slot of `kind` and returns what was there.
    fn clear_callback(&mut self, kind: CbKind) -> (released: Slot<F, U>)
        ensures
            final(self).shared.is_recall_of(&old(self).shared, kind, Slot::<F, U>::vacant()),
            released == old(self).shared.call_site.slot(kind),
    {
        self.shared.call_site.replace(kind, Slot::empty())
    }
}

/// A callback of `kind` was set: `slot` is in its place, and what was there is
/// given back.
pub open spec fn callback_set<F, U>(
    pre: &GeometryShared<F, U>,
    post: &GeometryShared<F, U>,
    kind: CbKind,
    slot: Slot<F, U>,
    call: NativeCall,
    change: CallbackChange<F, U>,
) -> bool {
    &&& change.call == Some(call)
    &&& change.released == pre.call_site.slot(kind)
    &&& post.is_recall_of(pre, kind, slot)
}

/// A callback was not accepted: nothing changes, and what was given comes back.
pub open spec fn callback_ignored<F, U>(
    pre: &GeometryShared<F, U>,
    post: &GeometryShared<F, U>,
    slot: Slot<F, U>,
    change: CallbackChange<F, U>,
) -> bool {
    &&& change.call is None
    &&& change.released == slot
    &&& *post == *pre
}

impl<'buf, F, U> GeometryBuilder<'buf, F, U> {
    /// Registers an intersection filter, without user data.
    pub fn set_intersect_filter_function(&mut self, filter: F) -> (change: CallbackChange<F, U>)
        ensures
            callback_set(
                &old(self).shared,
                &final(self).shared,
                CbKind::IntersectFilter,
                (Slot { closure: Some(filter), user_data: UserBinding::Unbound }),
                (NativeCall::SetGeometryIntersectFilterFunction {
                    geometry: old(self).shared.handle,
                    registered: true,
                }),
                change,
            ),
    {
        let call = NativeCall::SetGeometryIntersectFilterFunction {
            geometry: self.shared.handle,
            registered: true,
        };
        let released = self.install_callback(
            CbKind::IntersectFilter,
            Slot { closure: Some(filter), user_data: UserBinding::Unbound },
        );
        CallbackChange { call: Some(call), released }
    }

    /// Registers an intersection filter, with **owned** user data of its own: the
    /// geometry keeps the data and gives it back when the slot is replaced.
    pub fn set_intersect_filter_function_owned(
        &mut self,
        filter: F,
        data: U,
    ) -> (change: CallbackChange<F, U>)
        ensures
            callback_set(
                &old(self).shared,
                &final(self).shared,
                CbKind::IntersectFilter,
                (Slot { closure: Some(filter), user_data: UserBinding::Owned(data) }),
                (NativeCall::SetGeometryIntersectFilterFunction {
                    geometry: old(self).shared.handle,
                    registered: true,
                }),
                change,
            ),
    {
        let call = NativeCall::SetGeometryIntersectFilterFunction {
            geometry: self.shared.handle,
            registered: true,
        };
        let released = self.install_callback(
            CbKind::IntersectFilter,
            Slot { closure: Some(filter), user_data: UserBinding::Owned(data) },
        );
        CallbackChange { call: Some(call), released }
    }

    /// Registers an intersection filter, with **borrowed** user data, which the
    /// application keeps.
    pub fn set_intersect_filter_function_borrowed(
        &mut self,
        filter: F,
        data: U,
    ) -> (change: CallbackChange<F, U>)
        ensures
            callback_set(
                &old(self).shared,
                &final(self).shared,
                CbKind::IntersectFilter,
                (Slot { closure: Some(filter), user_data: UserBinding::Borrowed(data) }),
                (NativeCall::SetGeometryIntersectFilterFunction {
                    geometry: old(self).shared.handle,
                    registered: true,
                }),
                change,
            ),
    {
        let call = NativeCall::SetGeometryIntersectFilterFunction {
            geometry: self.shared.handle,
            registered: true,
        };
        let released = self.install_callback(
            CbKind::IntersectFilter,
            Slot { closure: Some(filter), user_data: UserBinding::Borrowed(data) },
        );
        CallbackChange { call: Some(call), released }
    }

    /// Unregisters an intersection filter.
    pub fn unset_intersect_filter_function(&mut self) -> (change: CallbackChange<F, U>)
        ensures
            callback_set(
                &old(self).shared,
                &final(self).shared,
                CbKind::IntersectFilter,
                Slot::<F, U>::vacant(),
                (NativeCall::SetGeometryIntersectFilterFunction {
                    geometry: old(self).shared.handle,
                    registered: false,
                }),
                change,
            ),
    {
        let call = NativeCall::SetGeometryIntersectFilterFunction {
            geometry: self.shared.handle,
            registered: false,
        };
        let released = self.clear_callback(CbKind::IntersectFilter);
        CallbackChange { call: Some(call), released }
    }

    /// Registers an occlusion filter, without user data.
    pub fn set_occluded_filter_function(&mut self, filter: F) -> (change: CallbackChange<F, U>)
        ensures
            callback_set(
                &old(self).shared,
                &final(self).shared,
                CbKind::OccludedFilter,
                (Slot { closure: Some(filter), user_data: UserBinding::Unbound }),
                (NativeCall::SetGeometryOccludedFilterFunction {
                    geometry: old(self).shared.handle,
                    registered: true,
                }),
                change,
            ),
    {
        let call = NativeCall::SetGeometryOccludedFilterFunction {
            geometry: self.shared.handle,
            registered: true,
        };
        let released = self.install_callback(
            CbKind::OccludedFilter,
            Slot { closure: Some(filter), user_data: UserBinding::Unbound },
        );
        CallbackChange { call: Some(call), released }
    }

    /// Registers an occlusion filter, with **owned** user data of its own: the
    /// geometry keeps the data and gives it back when the slot is replaced.
    pub fn set_occluded_filter_function_owned(
        &mut self,
        filter: F,
        data: U,
    ) -> (change: CallbackChange<F, U>)
        ensures
            callback_set(
                &old(self).shared,
                &final(self).shared,
                CbKind::OccludedFilter,
                (Slot { closure: Some(filter), user_data: UserBinding::Owned(data) }),
                (NativeCall::SetGeometryOccludedFilterFunction {
                    geometry: old(self).shared.handle,
                    registered: true,
                }),
                change,
            ),
    {
        let call = NativeCall::SetGeometryOccludedFilterFunction {
            geometry: self.shared.handle,
            registered: true,
        };
        let released = self.install_callback(
            CbKind::OccludedFilter,
            Slot { closure: Some(filter), user_data: UserBinding::Owned(data) },
        );
        CallbackChange { call: Some(call), released }
    }

    /// Registers an occlusion filter, with **borrowed** user data, which the
    /// application keeps.
    pub fn set_occluded_filter_function_borrowed(
        &mut self,
        filter: F,
        data: U,
    ) -> (change: CallbackChange<F, U>)
        ensures
            callback_set(
                &old(self).shared,
                &final(self).shared,
                CbKind::OccludedFilter,
                (Slot { closure: Some(filter), user_data: UserBinding::Borrowed(data) }),
                (NativeCall::SetGeometryOccludedFilterFunction {
                    geometry: old(self).shared.handle,
                    registered: true,
                }),
                change,
            ),
    {
        let call = NativeCall::SetGeometryOccludedFilterFunction {
            geometry: self.shared.handle,
            registered: true,
        };
        let released = self.install_callback(
            CbKind::OccludedFilter,
            Slot { closure: Some(filter), user_data: UserBinding::Borrowed(data) },
        );
        CallbackChange { call: Some(call), released }
    }

    /// Unregisters an occlusion filter.
    pub fn unset_occluded_filter_function(&mut self) -> (change: CallbackChange<F, U>)
        ensures
            callback_set(
                &old(self).shared,
                &final(self).shared,
                CbKind::OccludedFilter,
                Slot::<F, U>::vacant(),
                (NativeCall::SetGeometryOccludedFilterFunction {
                    geometry: old(self).shared.handle,
                    registered: false,
                }),
                change,
            ),
    {
        let call = NativeCall::SetGeometryOccludedFilterFunction {
            geometry: self.shared.handle,
            registered: false,
        };
        let released = self.clear_callback(CbKind::OccludedFilter);
        CallbackChange { call: Some(call), released }
    }

    /// Registers the callback that bounds the primitives of a user geometry, without user data.
    /// Ignored for geometries of another kind.
    pub fn set_bounds_function(&mut self, bounds: F) -> (change: CallbackChange<F, U>)
        ensures
            if old(self).shared.kind == GeometryKind::USER {
                callback_set(
                    &old(self).shared,
                    &final(self).shared,
                    CbKind::UserBounds,
                    (Slot { closure: Some(bounds), user_data: UserBinding::Unbound }),
                    (NativeCall::SetGeometryBoundsFunction {
                        geometry: old(self).shared.handle,
                        registered: true,
                    }),
                    change,
                )
            } else {
                callback_ignored(
                    &old(self).shared,
                    &final(self).shared,
                    (Slot { closure: Some(bounds), user_data: UserBinding::Unbound }),
                    change,
                )
            },
    {
        match self.shared.kind {
            GeometryKind::USER => {
                let call = NativeCall::SetGeometryBoundsFunction {
                    geometry: self.shared.handle,
                    registered: true,
                };
                let released = self.install_callback(
                    CbKind::UserBounds,
                    Slot { closure: Some(bounds), user_data: UserBinding::Unbound },
                );
                CallbackChange { call: Some(call), released }
            },
            _ => CallbackChange {
                call: None,
                released: Slot { closure: Some(bounds), user_data: UserBinding::Unbound },
            },
        }
    }

    /// Registers the callback that bounds the primitives of a user geometry,
    /// with **owned** user data of its own: the
    /// geometry keeps the data and gives it back when the slot is replaced.
    /// Ignored for geometries of another kind.
    pub fn set_bounds_function_owned(
        &mut self,
        bounds: F,
        data: U,
    ) -> (change: CallbackChange<F, U>)
        ensures
            if old(self).shared.kind == GeometryKind::USER {
                callback_set(
                    &old(self).shared,
                    &final(self).shared,
                    CbKind::UserBounds,
                    (Slot { closure: Some(bounds), user_data: UserBinding::Owned(data) }),
                    (NativeCall::SetGeometryBoundsFunction {
                        geometry: old(self).shared.handle,
                        registered: true,
                    }),
                    change,
                )
            } else {
                callback_ignored(
                    &old(self).shared,
                    &final(self).shared,
                    (Slot { closure: Some(bounds), user_data: UserBinding::Owned(data) }),
                    change,
                )
            },
    {
        match self.shared.kind {
            GeometryKind::USER => {
                let call = NativeCall::SetGeometryBoundsFunction {
                    geometry: self.shared.handle,
                    registered: true,
                };
                let released = self.install_callback(
                    CbKind::UserBounds,
                    Slot { closure: Some(bounds), user_data: UserBinding::Owned(data) },
                );
                CallbackChange { call: Some(call), released }
            },
            _ => CallbackChange {
                call: None,
                released: Slot { closure: Some(bounds), user_data: UserBinding::Owned(data) },
            },
        }
    }

    /// Registers the callback that bounds the primitives of a user geometry,
    /// with **borrowed** user data, which the
    /// application keeps.
    /// Ignored for geometries of another kind.
    pub fn set_bounds_function_borrowed(
        &mut self,
        bounds: F,
        data: U,
    ) -> (change: CallbackChange<F, U>)
        ensures
            if old(self).shared.kind == GeometryKind::USER {
                callback_set(
                    &old(self).shared,
                    &final(self).shared,
                    CbKind::UserBounds,
                    (Slot { closure: Some(bounds), user_data: UserBinding::Borrowed(data) }),
                    (NativeCall::SetGeometryBoundsFunction {
                        geometry: old(self).shared.handle,
                        registered: true,
                    }),
                    change,
                )
            } else {
                callback_ignored(
                    &old(self).shared,
                    &final(self).shared,
                    (Slot { closure: Some(bounds), user_data: UserBinding::Borrowed(data) }),
                    change,
                )
            },
    {
        match self.shared.kind {
            GeometryKind::USER => {
                let call = NativeCall::SetGeometryBoundsFunction {
                    geometry: self.shared.handle,
                    registered: true,
                };
                let released = self.install_callback(
                    CbKind::UserBounds,
                    Slot { closure: Some(bounds), user_data: UserBinding::Borrowed(data) },
                );
                CallbackChange { call: Some(call), released }
            },
            _ => CallbackChange {
                call: None,
                released: Slot { closure: Some(bounds), user_data: UserBinding::Borrowed(data) },
            },
        }
    }

    /// Unregisters the callback that bounds the primitives of a user geometry.
    /// Ignored for geometries of another kind.
    pub fn unset_bounds_function(&mut self) -> (change: CallbackChange<F, U>)
        ensures
            if old(self).shared.kind == GeometryKind::USER {
                callback_set(
                    &old(self).shared,
                    &final(self).shared,
                    CbKind::UserBounds,
                    Slot::<F, U>::vacant(),
                    (NativeCall::SetGeometryBoundsFunction {
                        geometry: old(self).shared.handle,
                        registered: false,
                    }),
                    change,
                )
            } else {
                callback_ignored(
                    &old(self).shared,
                    &final(self).shared,
                    Slot::<F, U>::vacant(),
                    change,
                )
            },
    {
        match self.shared.kind {
            GeometryKind::USER => {
                let call = NativeCall::SetGeometryBoundsFunction {
                    geometry: self.shared.handle,
                    registered: false,
                };
                let released = self.clear_callback(CbKind::UserBounds);
                CallbackChange { call: Some(call), released }
            },
            _ => CallbackChange { call: None, released: Slot::empty() },
        }
    }

    /// Registers the callback that intersects a user geometry, without user data.
    /// Ignored for geometries of another kind.
    pub fn set_intersect_function(&mut self, intersect: F) -> (change: CallbackChange<F, U>)
        ensures
            if old(self).shared.kind == GeometryKind::USER {
                callback_set(
                    &old(self).shared,
                    &final(self).shared,
                    CbKind::UserIntersect,
                    (Slot { closure: Some(intersect), user_data: UserBinding::Unbound }),
                    (NativeCall::SetGeometryIntersectFunction {
                        geometry: old(self).shared.handle,
                        registered: true,
                    }),
                    change,
                )
            } else {
                callback_ignored(
                    &old(self).shared,
                    &final(self).shared,
                    (Slot { closure: Some(intersect), user_data: UserBinding::Unbound }),
                    change,
                )
            },
    {
        match self.shared.kind {
            GeometryKind::USER => {
                let call = NativeCall::SetGeometryIntersectFunction {
                    geometry: self.shared.handle,
                    registered: true,
                };
                let released = self.install_callback(
                    CbKind::UserIntersect,
                    Slot { closure: Some(intersect), user_data: UserBinding::Unbound },
                );
                CallbackChange { call: Some(call), released }
            },
            _ => CallbackChange {
                call: None,
                released: Slot { closure: Some(intersect), user_data: UserBinding::Unbound },
            },
        }
    }

    /// Registers the callback that intersects a user geometry, with **owned**
    /// user data of its own: the
    /// geometry keeps the data and gives it back when the slot is replaced.
    /// Ignored for geometries of another kind.
    pub fn set_intersect_function_owned(
        &mut self,
        intersect: F,
        data: U,
    ) -> (change: CallbackChange<F, U>)
        ensures
            if old(self).shared.kind == GeometryKind::USER {
                callback_set(
                    &old(self).shared,
                    &final(self).shared,
                    CbKind::UserIntersect,
                    (Slot { closure: Some(intersect), user_data: UserBinding::Owned(data) }),
                    (NativeCall::SetGeometryIntersectFunction {
                        geometry: old(self).shared.handle,
                        registered: true,
                    }),
                    change,
                )
            } else {
                callback_ignored(
                    &old(self).shared,
                    &final(self).shared,
                    (Slot { closure: Some(intersect), user_data: UserBinding::Owned(data) }),
                    change,
                )
            },
    {
        match self.shared.kind {
            GeometryKind::USER => {
                let call = NativeCall::SetGeometryIntersectFunction {
                    geometry: self.shared.handle,
                    registered: true,
                };
                let released = self.install_callback(
                    CbKind::UserIntersect,
                    Slot { closure: Some(intersect), user_data: UserBinding::Owned(data) },
                );
                CallbackChange { call: Some(call), released }
            },
            _ => CallbackChange {
                call: None,
                released: Slot { closure: Some(intersect), user_data: UserBinding::Owned(data) },
            },
        }
    }

    /// Registers the callback that intersects a user geometry, with
    /// **borrowed** user data, which the
    /// application keeps.
    /// Ignored for geometries of another kind.
    pub fn set_intersect_function_borrowed(
        &mut self,
        intersect: F,
        data: U,
    ) -> (change: CallbackChange<F, U>)
        ensures
            if old(self).shared.kind == GeometryKind::USER {
                callback_set(
                    &old(self).shared,
                    &final(self).shared,
                    CbKind::UserIntersect,
                    (Slot { closure: Some(intersect), user_data: UserBinding::Borrowed(data) }),
                    (NativeCall::SetGeometryIntersectFunction {
                        geometry: old(self).shared.handle,
                        registered: true,
                    }),
                    change,
                )
            } else {
                callback_ignored(
                    &old(self).shared,
                    &final(self).shared,
                    (Slot { closure: Some(intersect), user_data: UserBinding::Borrowed(data) }),
                    change,
                )
            },
    {
        match self.shared.kind {
            GeometryKind::USER => {
                let call = NativeCall::SetGeometryIntersectFunction {
                    geometry: self.shared.handle,
                    registered: true,
                };
                let released = self.install_callback(
                    CbKind::UserIntersect,
                    Slot { closure: Some(intersect), user_data: UserBinding::Borrowed(data) },
                );
                CallbackChange { call: Some(call), released }
            },
            _ => CallbackChange {
                call: None,
                released: Slot { closure: Some(intersect), user_data: UserBinding::Borrowed(data) },
            },
        }
    }

    /// Unregisters the callback that intersects a user geometry.
    /// Ignored for geometries of another kind.
    pub fn unset_intersect_function(&mut self) -> (change: CallbackChange<F, U>)
        ensures
            if old(self).shared.kind == GeometryKind::USER {
                callback_set(
                    &old(self).shared,
                    &final(self).shared,
                    CbKind::UserIntersect,
                    Slot::<F, U>::vacant(),
                    (NativeCall::SetGeometryIntersectFunction {
                        geometry: old(self).shared.handle,
                        registered: false,
                    }),
                    change,
                )
            } else {
                callback_ignored(
                    &old(self).shared,
                    &final(self).shared,
                    Slot::<F, U>::vacant(),
                    change,
                )
            },
    {
        match self.shared.kind {
            GeometryKind::USER => {
                let call = NativeCall::SetGeometryIntersectFunction {
                    geometry: self.shared.handle,
                    registered: false,
                };
                let released = self.clear_callback(CbKind::UserIntersect);
                CallbackChange { call: Some(call), released }
            },
            _ => CallbackChange { call: None, released: Slot::empty() },
        }
    }

    /// Registers the callback that tests a user geometry for occlusion, without user data.
    /// Ignored for geometries of another kind.
    pub fn set_occluded_function(&mut self, occluded: F) -> (change: CallbackChange<F, U>)
        ensures
            if old(self).shared.kind == GeometryKind::USER {
                callback_set(
                    &old(self).shared,
                    &final(self).shared,
                    CbKind::UserOccluded,
                    (Slot { closure: Some(occluded), user_data: UserBinding::Unbound }),
                    (NativeCall::SetGeometryOccludedFunction {
                        geometry: old(self).shared.handle,
                        registered: true,
                    }),
                    change,
                )
            } else {
                callback_ignored(
                    &old(self).shared,
                    &final(self).shared,
                    (Slot { closure: Some(occluded), user_data: UserBinding::Unbound }),
                    change,
                )
            },
    {
        match self.shared.kind {
            GeometryKind::USER => {
                let call = NativeCall::SetGeometryOccludedFunction {
                    geometry: self.shared.handle,
                    registered: true,
                };
                let released = self.install_callback(
                    CbKind::UserOccluded,
                    Slot { closure: Some(occluded), user_data: UserBinding::Unbound },
                );
                CallbackChange { call: Some(call), released }
            },
            _ => CallbackChange {
                call: None,
                released: Slot { closure: Some(occluded), user_data: UserBinding::Unbound },
            },
        }
    }

    /// Registers the callback that tests a user geometry for occlusion, with
    /// **owned** user data of its own: the
    /// geometry keeps the data and gives it back when the slot is replaced.
    /// Ignored for geometries of another kind.
    pub fn set_occluded_function_owned(
        &mut self,
        occluded: F,
        data: U,
    ) -> (change: CallbackChange<F, U>)
        ensures
            if old(self).shared.kind == GeometryKind::USER {
                callback_set(
                    &old(self).shared,
                    &final(self).shared,
                    CbKind::UserOccluded,
                    (Slot { closure: Some(occluded), user_data: UserBinding::Owned(data) }),
                    (NativeCall::SetGeometryOccludedFunction {
                        geometry: old(self).shared.handle,
                        registered: true,
                    }),
                    change,
                )
            } else {
                callback_ignored(
                    &old(self).shared,
                    &final(self).shared,
                    (Slot { closure: Some(occluded), user_data: UserBinding::Owned(data) }),
                    change,
                )
            },
    {
        match self.shared.kind {
            GeometryKind::USER => {
                let call = NativeCall::SetGeometryOccludedFunction {
                    geometry: self.shared.handle,
                    registered: true,
                };
                let released = self.install_callback(
                    CbKind::UserOccluded,
                    Slot { closure: Some(occluded), user_data: UserBinding::Owned(data) },
                );
                CallbackChange { call: Some(call), released }
            },
            _ => CallbackChange {
                call: None,
                released: Slot { closure: Some(occluded), user_data: UserBinding::Owned(data) },
            },
        }
    }

    /// Registers the callback that tests a user geometry for occlusion, with
    /// **borrowed** user data, which the
    /// application keeps.
    /// Ignored for geometries of another kind.
    pub fn set_occluded_function_borrowed(
        &mut self,
        occluded: F,
        data: U,
    ) -> (change: CallbackChange<F, U>)
        ensures
            if old(self).shared.kind == GeometryKind::USER {
                callback_set(
                    &old(self).shared,
                    &final(self).shared,
                    CbKind::UserOccluded,
                    (Slot { closure: Some(occluded), user_data: UserBinding::Borrowed(data) }),
                    (NativeCall::SetGeometryOccludedFunction {
                        geometry: old(self).shared.handle,
                        registered: true,
                    }),
                    change,
                )
            } else {
                callback_ignored(
                    &old(self).shared,
                    &final(self).shared,
                    (Slot { closure: Some(occluded), user_data: UserBinding::Borrowed(data) }),
                    change,
                )
            },
    {
        match self.shared.kind {
            GeometryKind::USER => {
                let call = NativeCall::SetGeometryOccludedFunction {
                    geometry: self.shared.handle,
                    registered: true,
                };
                let released = self.install_callback(
                    CbKind::UserOccluded,
                    Slot { closure: Some(occluded), user_data: UserBinding::Borrowed(data) },
                );
                CallbackChange { call: Some(call), released }
            },
            _ => CallbackChange {
                call: None,
                released: Slot { closure: Some(occluded), user_data: UserBinding::Borrowed(data) },
            },
        }
    }

    /// Unregisters the callback that tests a user geometry for occlusion.
    /// Ignored for geometries of another kind.
    pub fn unset_occluded_function(&mut self) -> (change: CallbackChange<F, U>)
        ensures
            if old(self).shared.kind == GeometryKind::USER {
                callback_set(
                    &old(self).shared,
                    &final(self).shared,
                    CbKind::UserOccluded,
                    Slot::<F, U>::vacant(),
                    (NativeCall::SetGeometryOccludedFunction {
                        geometry: old(self).shared.handle,
                        registered: false,
                    }),
                    change,
                )
            } else {
                callback_ignored(
                    &old(self).shared,
                    &final(self).shared,
                    Slot::<F, U>::vacant(),
                    change,
                )
            },
    {
        match self.shared.kind {
            GeometryKind::USER => {
                let call = NativeCall::SetGeometryOccludedFunction {
                    geometry: self.shared.handle,
                    registered: false,
                };
                let released = self.clear_callback(CbKind::UserOccluded);
                CallbackChange { call: Some(call), released }
            },
            _ => CallbackChange { call: None, released: Slot::empty() },
        }
    }

    /// Registers the callback that displaces a subdivision geometry, without user data.
    /// Ignored for geometries of another kind.
    pub fn set_displacement_function(&mut self, displacement: F) -> (change: CallbackChange<F, U>)
        ensures
            if old(self).shared.kind == GeometryKind::SUBDIVISION {
                callback_set(
                    &old(self).shared,
                    &final(self).shared,
                    CbKind::Displacement,
                    (Slot { closure: Some(displacement), user_data: UserBinding::Unbound }),
                    (NativeCall::SetGeometryDisplacementFunction {
                        geometry: old(self).shared.handle,
                        registered: true,
                    }),
                    change,
                )
            } else {
                callback_ignored(
                    &old(self).shared,
                    &final(self).shared,
                    (Slot { closure: Some(displacement), user_data: UserBinding::Unbound }),
                    change,
                )
            },
    {
        match self.shared.kind {
            GeometryKind::SUBDIVISION => {
                let call = NativeCall::SetGeometryDisplacementFunction {
                    geometry: self.shared.handle,
                    registered: true,
                };
                let released = self.install_callback(
                    CbKind::Displacement,
                    Slot { closure: Some(displacement), user_data: UserBinding::Unbound },
                );
                CallbackChange { call: Some(call), released }
            },
            _ => CallbackChange {
                call: None,
                released: Slot { closure: Some(displacement), user_data: UserBinding::Unbound },
            },
        }
    }

    /// Registers the callback that displaces a subdivision geometry, with
    /// **owned** user data of its own: the
    /// geometry keeps the data and gives it back when the slot is replaced.
    /// Ignored for geometries of another kind.
    pub fn set_displacement_function_owned(
        &mut self,
        displacement: F,
        data: U,
    ) -> (change: CallbackChange<F, U>)
        ensures
            if old(self).shared.kind == GeometryKind::SUBDIVISION {
                callback_set(
                    &old(self).shared,
                    &final(self).shared,
                    CbKind::Displacement,
                    (Slot { closure: Some(displacement), user_data: UserBinding::Owned(data) }),
                    (NativeCall::SetGeometryDisplacementFunction {
                        geometry: old(self).shared.handle,
                        registered: true,
                    }),
                    change,
                )
            } else {
                callback_ignored(
                    &old(self).shared,
                    &final(self).shared,
                    (Slot { closure: Some(displacement), user_data: UserBinding::Owned(data) }),
                    change,
                )
            },
    {
        match self.shared.kind {
            GeometryKind::SUBDIVISION => {
                let call = NativeCall::SetGeometryDisplacementFunction {
                    geometry: self.shared.handle,
                    registered: true,
                };
                let released = self.install_callback(
                    CbKind::Displacement,
                    Slot { closure: Some(displacement), user_data: UserBinding::Owned(data) },
                );
                CallbackChange { call: Some(call), released }
            },
            _ => CallbackChange {
                call: None,
                released: Slot { closure: Some(displacement), user_data: UserBinding::Owned(data) },
            },
        }
    }

    /// Registers the callback that displaces a subdivision geometry, with
    /// **borrowed** user data, which the
    /// application keeps.
    /// Ignored for geometries of another kind.
    pub fn set_displacement_function_borrowed(
        &mut self,
        displacement: F,
        data: U,
    ) -> (change: CallbackChange<F, U>)
        ensures
            if old(self).shared.kind == GeometryKind::SUBDIVISION {
                callback_set(
                    &old(self).shared,
                    &final(self).shared,
                    CbKind::Displacement,
                    (Slot { closure: Some(displacement), user_data: UserBinding::Borrowed(data) }),
                    (NativeCall::SetGeometryDisplacementFunction {
                        geometry: old(self).shared.handle,
                        registered: true,
                    }),
                    change,
                )
            } else {
                callback_ignored(
                    &old(self).shared,
                    &final(self).shared,
                    (Slot { closure: Some(displacement), user_data: UserBinding::Borrowed(data) }),
                    change,
                )
            },
    {
        match self.shared.kind {
            GeometryKind::SUBDIVISION => {
                let call = NativeCall::SetGeometryDisplacementFunction {
                    geometry: self.shared.handle,
                    registered: true,
                };
                let released = self.install_callback(
                    CbKind::Displacement,
                    Slot { closure: Some(displacement), user_data: UserBinding::Borrowed(data) },
                );
                CallbackChange { call: Some(call), released }
            },
            _ => CallbackChange {
                call: None,
                released: Slot {
                    closure: Some(displacement),
                    user_data: UserBinding::Borrowed(data),
                },
            },
        }
    }

    /// Unregisters the callback that displaces a subdivision geometry.
    pub fn unset_displacement_function(&mut self) -> (change: CallbackChange<F, U>)
        requires
            old(self).shared.kind == GeometryKind::SUBDIVISION,
        ensures
            callback_set(
                &old(self).shared,
                &final(self).shared,
                CbKind::Displacement,
                Slot::<F, U>::vacant(),
                (NativeCall::SetGeometryDisplacementFunction {
                    geometry: old(self).shared.handle,
                    registered: false,
                }),
                change,
            ),
    {
        let call = NativeCall::SetGeometryDisplacementFunction {
            geometry: self.shared.handle,
            registered: false,
        };
        let released = self.clear_callback(CbKind::Displacement);
        CallbackChange { call: Some(call), released }
    }
}

/// A handle to a committed geometry. The state is in the store; the handle
/// carries what never changes.
#[derive(Debug)]
pub struct Geometry {
    id: u64,
    handle: usize,
    kind: GeometryKind,
}

/// The state of a committed geometry, and how many handles share it.
#[derive(Debug)]
pub struct Committed<'buf, F, U> {
    pub shared: GeometryShared<'buf, F, U>,
    pub owners: u64,
}

/// The state of every committed geometry.
///
/// A [`Geometry`] can be neither copied nor made up: it comes from
/// [`GeometryBuilder::commit`] or [`Geometry::retain`], which count it, and goes
/// away through [`Geometry::release`] or [`Geometry::try_edit`], which stop
/// counting it. So the count of an entry is the number of its handles.
#[derive(Debug)]
pub struct GeometryStore<'buf, F, U> {
    entries: HashMap<u64, Committed<'buf, F, U>>,
    next_id: u64,
}

impl<'buf, F, U> View for GeometryStore<'buf, F, U> {
    type V = Map<u64, Committed<'buf, F, U>>;

    closed spec fn view(&self) -> Map<u64, Committed<'buf, F, U>> {
        self.entries@
    }
}

/// `m` with one more handle of `id`.
pub open spec fn with_retained<'buf, F, U>(m: Map<u64, Committed<'buf, F, U>>, id: u64) -> Map<
    u64,
    Committed<'buf, F, U>,
> {
    m.insert(id, Committed { shared: m[id].shared, owners: (m[id].owners + 1) as u64 })
}

/// `m` with one handle of `id` less; the entry goes away with its last handle.
pub open spec fn with_released<'buf, F, U>(m: Map<u64, Committed<'buf, F, U>>, id: u64) -> Map<
    u64,
    Committed<'buf, F, U>,
> {
    if !m.contains_key(id) {
        m
    } else if m[id].owners <= 1 {
        m.remove(id)
    } else {
        m.insert(id, Committed { shared: m[id].shared, owners: (m[id].owners - 1) as u64 })
    }
}

/// The native calls that are due when a handle of `id` goes away.
pub open spec fn release_calls<F, U>(m: Map<u64, Committed<F, U>>, id: u64) -> Seq<NativeCall> {
    if m.contains_key(id) && m[id].owners <= 1 {
        m[id].shared.farewell()
    } else {
        Seq::empty()
    }
}

impl<'buf, F, U> GeometryStore<'buf, F, U> {
    /// The ID that the next committed geometry gets.
    pub closed spec fn next(&self) -> u64 {
        self.next_id
    }

    /// Every entry has an ID that was given out, and at least one handle.
    pub open spec fn wf(&self) -> bool {
        forall|id: u64| #[trigger]
            self@.contains_key(id) ==> id < self.next() && self@[id].owners >= 1
    }

    /// Whether the state behind a handle is in this store.
    pub open spec fn has(&self, geometry: &Geometry) -> bool {
        &&& self@.contains_key(geometry.ident())
        &&& self@[geometry.ident()].shared.handle == geometry.native()
        &&& self@[geometry.ident()].shared.kind == geometry.geometry_kind()
    }

    /// A store without any geometry.
    pub fn new() -> (s: GeometryStore<'buf, F, U>)
        ensures
            s.wf(),
            s@ == Map::<u64, Committed<'buf, F, U>>::empty(),
            s.next() == 0,
    {
        broadcast use vstd::std_specs::hash::group_hash_axioms;

        GeometryStore { entries: HashMap::new(), next_id: 0 }
    }

    /// Whether one more geometry can be committed: its ID can be counted.
    pub fn has_room(&self) -> (r: bool)
        ensures
            r == (self.next() < u64::MAX),
    {
        self.next_id < u64::MAX
    }

    /// Whether the state behind a handle is in this store.
    pub fn contains(&self, geometry: &Geometry) -> (r: bool)
        ensures
            r == self.has(geometry),
    {
        broadcast use vstd::std_specs::hash::group_hash_axioms;

        match self.entries.get(&geometry.id) {
            Some(c) => c.shared.handle == geometry.handle && c.shared.kind == geometry.kind,
            None => false,
        }
    }

    /// The state of `id`, and how many handles share it.
    pub fn get(&self, id: u64) -> (r: Option<&Committed<'buf, F, U>>)
        ensures
            match r {
                Some(c) => self@.contains_key(id) && self@[id] == *c,
                None => !self@.contains_key(id),
            },
    {
        broadcast use vstd::std_specs::hash::group_hash_axioms;

        self.entries.get(&id)
    }

    /// One more handle of `id`.
    pub(crate) fn retain(&mut self, id: u64)
        requires
            old(self).wf(),
            old(self)@.contains_key(id),
            old(self)@[id].owners < u64::MAX,
        ensures
            final(self).wf(),
            final(self).next() == old(self).next(),
            final(self)@ == with_retained(old(self)@, id),
    {
        broadcast use vstd::std_specs::hash::group_hash_axioms;

        match self.entries.remove(&id) {
            Some(c) => {
                let owners: u64 = c.owners + 1;
                self.entries.insert(id, Committed { shared: c.shared, owners });
                assert(self@ =~= with_retained(old(self)@, id));
            },
            None => {},
        }
    }

    /// One handle of `id` less. The state goes away with the last one; the native
    /// calls that are due then are returned.
    pub(crate) fn release(&mut self, id: u64) -> (calls: Vec<NativeCall>)
        requires
            old(self).wf(),
        ensures
            final(self).wf(),
            final(self).next() == old(self).next(),
            final(self)@ == with_released(old(self)@, id),
            calls@ == release_calls(old(self)@, id),
    {
        broadcast use vstd::std_specs::hash::group_hash_axioms;

        match self.entries.remove(&id) {
            Some(c) => {
                if c.owners <= 1 {
                    assert(self@ =~= with_released(old(self)@, id));
                    c.shared.release()
                } else {
                    let owners: u64 = c.owners - 1;
                    self.entries.insert(id, Committed { shared: c.shared, owners });
                    assert(self@ =~= with_released(old(self)@, id));
                    Vec::new()
                }
            },
            None => {
                assert(self@ =~= old(self)@);
                Vec::new()
            },
        }
    }
}

impl<'buf, F, U> GeometryBuilder<'buf, F, U> {
    /// Commits pending changes and moves on to the committed, shareable phase.
    ///
    /// Consumes the builder: the geometry can no longer be changed, unless a
    /// builder is regained through [`Geometry::try_edit`].
    pub fn commit(self, store: &mut GeometryStore<'buf, F, U>) -> (r: (Geometry, NativeCall))
        requires
            old(store).wf(),
            old(store).next() < u64::MAX,
        ensures
            final(store).wf(),
            final(store).next() == old(store).next() + 1,
            r.0.ident() == old(store).next(),
            r.0.native() == self.shared.handle,
            r.0.geometry_kind() == self.shared.kind,
            !old(store)@.contains_key(r.0.ident()),
            final(store)@ == old(store)@.insert(
                r.0.ident(),
                (Committed { shared: self.shared, owners: 1 }),
            ),
            final(store).has(&r.0),
            r.1 == (NativeCall::CommitGeometry { geometry: self.shared.handle }),
    {
        broadcast use vstd::std_specs::hash::group_hash_axioms;

        let id: u64 = store.next_id;
        let geometry = Geometry { id, handle: self.shared.handle, kind: self.shared.kind };
        let call = NativeCall::CommitGeometry { geometry: self.shared.handle };
        store.entries.insert(id, Committed { shared: self.shared, owners: 1 });
        store.next_id = id + 1;
        (geometry, call)
    }
}

impl Geometry {
    /// The key of the geometry's state in its store.
    pub closed spec fn ident(&self) -> u64 {
        self.id
    }

    /// The native handle of the geometry.
    pub closed spec fn native(&self) -> usize {
        self.handle
    }

    /// The kind of the geometry.
    pub closed spec fn geometry_kind(&self) -> GeometryKind {
        self.kind
    }

    /// The native call that creates a geometry.
    pub fn request(device: &Device, kind: GeometryKind) -> (call: NativeCall)
        ensures
            call == (NativeCall::NewGeometry { device: device.handle, kind }),
    {
        NativeCall::NewGeometry { device: device.handle, kind }
    }

    /// Creates a new geometry in its build phase. `handle` is what the native
    /// call of [`request`](Self::request) returned. The native call that ties
    /// the geometry's callbacks to its state is due next.
    pub fn new<'buf, F, U>(device: &Device, kind: GeometryKind, handle: usize) -> (r: (
        GeometryBuilder<'buf, F, U>,
        NativeCall,
    ))
        ensures
            r.0.shared.device == *device,
            r.0.shared.kind == kind,
            r.0.shared.handle == handle,
            r.0.shared.attachments@ == Map::<BindingKey, AttachedBuffer<'buf>>::empty(),
            forall|k: CbKind| #[trigger]
                r.0.shared.call_site.slot(k) == Slot::<F, U>::vacant(),
            r.1 == (NativeCall::SetGeometryUserData { geometry: handle }),
    {
        (
            GeometryBuilder {
                shared: GeometryShared {
                    device: *device,
                    handle,
                    kind,
                    attachments: Attachments::new(),
                    call_site: CallSite::empty(),
                },
            },
            NativeCall::SetGeometryUserData { geometry: handle },
        )
    }

    /// The key of the geometry's state in its store.
    pub fn id(&self) -> (id: u64)
        ensures
            id == self.ident(),
    {
        self.id
    }

    /// Another handle to the same geometry.
    pub fn retain<'buf, F, U>(&self, store: &mut GeometryStore<'buf, F, U>) -> (g: Geometry)
        requires
            old(store).wf(),
            old(store).has(self),
            old(store)@[self.ident()].owners < u64::MAX,
        ensures
            final(store).wf(),
            final(store).next() == old(store).next(),
            final(store)@ == with_retained(old(store)@, self.ident()),
            final(store).has(&g),
            g == *self,
    {
        store.retain(self.id);
        Geometry { id: self.id, handle: self.handle, kind: self.kind }
    }

    /// Gives a handle up. With the last one the state goes away; the native calls
    /// that are due then are returned.
    pub fn release<'buf, F, U>(self, store: &mut GeometryStore<'buf, F, U>) -> (calls: Vec<
        NativeCall,
    >)
        requires
            old(store).wf(),
        ensures
            final(store).wf(),
            final(store).next() == old(store).next(),
            final(store)@ == with_released(old(store)@, self.ident()),
            calls@ == release_calls(old(store)@, self.ident()),
    {
        store.release(self.id)
    }

    /// Regains the builder to edit this geometry.
    ///
    /// Succeeds only if this is the **sole owner** (not attached to any scene, no
    /// other clone). Returns `Err(self)` if it is shared.
    pub fn try_edit<'buf, F, U>(self, store: &mut GeometryStore<'buf, F, U>) -> (r: Result<
        GeometryBuilder<'buf, F, U>,
        Geometry,
    >)
        requires
            old(store).wf(),
            old(store).has(&self),
        ensures
            final(store).wf(),
            final(store).next() == old(store).next(),
            if old(store)@[self.ident()].owners == 1 {
                &&& r is Ok
                &&& r->Ok_0.shared == old(store)@[self.ident()].shared
                &&& final(store)@ == old(store)@.remove(self.ident())
            } else {
                &&& r == Err::<GeometryBuilder<'buf, F, U>, Geometry>(self)
                &&& final(store)@ == old(store)@
            },
    {
        broadcast use vstd::std_specs::hash::group_hash_axioms;

        let sole: bool = match store.entries.get(&self.id) {
            Some(c) => c.owners == 1,
            None => false,
        };
        if sole {
            match store.entries.remove(&self.id) {
                Some(c) => {
                    assert(store@ =~= old(store)@.remove(self.ident()));
                    Ok(GeometryBuilder { shared: c.shared })
                },
                None => Err(self),
            }
        } else {
            Err(self)
        }
    }

    /// Returns the native handle of the geometry.
    pub fn handle(&self) -> (handle: usize)
        ensures
            handle == self.native(),
    {
        self.handle
    }

    /// Returns the kind of this geometry.
    pub fn kind(&self) -> (kind: GeometryKind)
        ensures
            kind == self.geometry_kind(),
    {
        self.kind
    }

    /// Returns the buffer bound to the given slot, and the native call that takes
    /// the reference that goes out with it, if a native buffer is.
    pub fn get_buffer<'buf, F, U>(
        &self,
        store: &GeometryStore<'buf, F, U>,
        usage: BufferUsage,
        slot: u32,
    ) -> (r: (Option<BufferSource<'buf>>, Option<NativeCall>))
        requires
            store.has(self),
        ensures
            match store@[self.ident()].shared.attachments@.get((usage, slot)) {
                Some(b) => {
                    &&& r.0 == Some(GeometryShared::<'buf, F, U>::source_of(b))
                    &&& r.1 == (match b {
                        AttachedBuffer::Managed { buffer, .. } => Some(
                            NativeCall::RetainBuffer { buffer: buffer.handle },
                        ),
                        _ => None,
                    })
                },
                None => r.0 is None && r.1 is None,
            },
    {
        match store.get(self.id) {
            Some(c) => c.shared.buffer_source(usage, slot),
            None => (None, None),
        }
    }

    /// Resolves the geometry's own storage in a slot for reading. `address` is
    /// where the native library located it.
    pub fn map_buffer<'buf, F, U, T>(
        &self,
        store: &GeometryStore<'buf, F, U>,
        usage: BufferUsage,
        slot: u32,
        address: usize,
    ) -> (r: Result<(usize, usize), Error>)
        requires
            store.has(self),
        ensures
            match store@[self.ident()].shared.local_size(usage, slot) {
                Some(size) => if GeometryShared::<'buf, F, U>::viewable::<T>(size, address) {
                    r matches Ok((a, n)) && a == address && n == size / vstd::layout::size_of::<
                        T,
                    >()
                } else {
                    r == Err::<(usize, usize), Error>(Error::INVALID_ARGUMENT)
                },
                None => r == Err::<(usize, usize), Error>(Error::INVALID_ARGUMENT),
            },
    {
        match store.get(self.id) {
            Some(c) => c.shared.map_local::<T>(usage, slot, address),
            None => Err(Error::INVALID_ARGUMENT),
        }
    }

    /// The *owned* data bound to `kind`. Borrowed data is not returned here, the
    /// application already has it.
    pub fn callback_data<'s, 'buf, F, U>(
        &self,
        store: &'s GeometryStore<'buf, F, U>,
        kind: CbKind,
    ) -> (r: Option<&'s U>)
        requires
            store.has(self),
        ensures
            ({
                let owned = store@[self.ident()].shared.call_site.slot(kind).user_data.owned();
                &&& r is Some == owned is Some
                &&& r matches Some(u) ==> owned == Some(*u)
            }),
    {
        match store.get(self.id) {
            Some(c) => c.shared.call_site.callback_data(kind),
            None => None,
        }
    }

    /// Asks for the first half edge of a face. Subdivision geometries only.
    pub fn get_first_half_edge(&self, face_id: u32) -> (call: NativeCall)
        requires
            self.geometry_kind() == GeometryKind::SUBDIVISION,
        ensures
            call == (NativeCall::GetGeometryFirstHalfEdge {
                geometry: self.native(),
                face: face_id,
            }),
    {
        NativeCall::GetGeometryFirstHalfEdge { geometry: self.handle, face: face_id }
    }

    /// Asks for the face of some half edge. Subdivision geometries only.
    pub fn get_face(&self, half_edge_id: u32) -> (call: NativeCall)
        requires
            self.geometry_kind() == GeometryKind::SUBDIVISION,
        ensures
            call == (NativeCall::GetGeometryFace { geometry: self.native(), edge: half_edge_id }),
    {
        NativeCall::GetGeometryFace { geometry: self.handle, edge: half_edge_id }
    }

    /// Asks for the next half edge of some half edge. Subdivision geometries only.
    pub fn get_next_half_edge(&self, half_edge_id: u32) -> (call: NativeCall)
        requires
            self.geometry_kind() == GeometryKind::SUBDIVISION,
        ensures
            call == (NativeCall::GetGeometryNextHalfEdge {
                geometry: self.native(),
                edge: half_edge_id,
            }),
    {
        NativeCall::GetGeometryNextHalfEdge { geometry: self.handle, edge: half_edge_id }
    }

    /// Asks for the previous half edge of some half edge. Subdivision geometries only.
    pub fn get_previous_half_edge(&self, half_edge_id: u32) -> (call: NativeCall)
        requires
            self.geometry_kind() == GeometryKind::SUBDIVISION,
        ensures
            call == (NativeCall::GetGeometryPreviousHalfEdge {
                geometry: self.native(),
                edge: half_edge_id,
            }),
    {
        NativeCall::GetGeometryPreviousHalfEdge { geometry: self.handle, edge: half_edge_id }
    }

    /// Asks for the opposite half edge of some half edge. Subdivision geometries only.
    pub fn get_opposite_half_edge(&self, topology_id: u32, edge_id: u32) -> (call: NativeCall)
        requires
            self.geometry_kind() == GeometryKind::SUBDIVISION,
        ensures
            call == (NativeCall::GetGeometryOppositeHalfEdge {
                geometry: self.native(),
                topology: topology_id,
                edge: edge_id,
            }),
    {
        NativeCall::GetGeometryOppositeHalfEdge {
            geometry: self.handle,
            topology: topology_id,
            edge: edge_id,
        }
    }

    /// Asks for the interpolated instance transformation at `time`, as a 4x4
    /// column-major matrix.
    pub fn get_transform(&mut self, time: Real) -> (call: NativeCall)
        requires
            old(self).geometry_kind() == GeometryKind::INSTANCE,
        ensures
            *final(self) == *old(self),
            call == (NativeCall::GetGeometryTransform {
                geometry: old(self).native(),
                time,
                format: Format::FLOAT4X4_COLUMN_MAJOR,
            }),
    {
        NativeCall::GetGeometryTransform {
            geometry: self.handle,
            time,
            format: Format::FLOAT4X4_COLUMN_MAJOR,
        }
    }
}

/// A triangle mesh in its build phase.
#[derive(Debug)]
pub struct TriangleMeshBuilder<'a, F, U>(pub GeometryBuilder<'a, F, U>);

impl<'a, F, U> TriangleMeshBuilder<'a, F, U> {
    /// A new triangle mesh. `handle` is what the native call that creates it returned.
    pub fn new(device: &Device, handle: usize) -> (r: (Self, NativeCall))
        ensures
            r.0.0.shared.device == *device,
            r.0.0.shared.kind == GeometryKind::TRIANGLE,
            r.0.0.shared.handle == handle,
            r.0.0.shared.attachments@ == Map::<BindingKey, AttachedBuffer<'a>>::empty(),
            forall|k: CbKind| #[trigger]
                r.0.0.shared.call_site.slot(k) == Slot::<F, U>::vacant(),
            r.1 == (NativeCall::SetGeometryUserData { geometry: handle }),
    {
        let (builder, call) = Geometry::new(device, GeometryKind::TRIANGLE, handle);
        (TriangleMeshBuilder(builder), call)
    }

    /// Commits pending changes and moves on to the committed, shareable phase.
    pub fn commit(self, store: &mut GeometryStore<'a, F, U>) -> (r: (Geometry, NativeCall))
        requires
            old(store).wf(),
            old(store).next() < u64::MAX,
        ensures
            final(store).wf(),
            final(store).next() == old(store).next() + 1,
            r.0.ident() == old(store).next(),
            r.0.native() == self.0.shared.handle,
            r.0.geometry_kind() == self.0.shared.kind,
            !old(store)@.contains_key(r.0.ident()),
            final(store)@ == old(store)@.insert(
                r.0.ident(),
                (Committed { shared: self.0.shared, owners: 1 }),
            ),
            final(store).has(&r.0),
            r.1 == (NativeCall::CommitGeometry { geometry: self.0.shared.handle }),
    {
        self.0.commit(store)
    }
}

/// A quad mesh in its build phase.
#[derive(Debug)]
pub struct QuadMeshBuilder<'a, F, U>(pub GeometryBuilder<'a, F, U>);

impl<'a, F, U> QuadMeshBuilder<'a, F, U> {
    /// A new quad mesh. `handle` is what the native call that creates it returned.
    pub fn new(device: &Device, handle: usize) -> (r: (Self, NativeCall))
        ensures
            r.0.0.shared.device == *device,
            r.0.0.shared.kind == GeometryKind::QUAD,
            r.0.0.shared.handle == handle,
            r.0.0.shared.attachments@ == Map::<BindingKey, AttachedBuffer<'a>>::empty(),
            forall|k: CbKind| #[trigger]
                r.0.0.shared.call_site.slot(k) == Slot::<F, U>::vacant(),
            r.1 == (NativeCall::SetGeometryUserData { geometry: handle }),
    {
        let (builder, call) = Geometry::new(device, GeometryKind::QUAD, handle);
        (QuadMeshBuilder(builder), call)
    }

    /// Commits pending changes and moves on to the committed, shareable phase.
    pub fn commit(self, store: &mut GeometryStore<'a, F, U>) -> (r: (Geometry, NativeCall))
        requires
            old(store).wf(),
            old(store).next() < u64::MAX,
        ensures
            final(store).wf(),
            final(store).next() == old(store).next() + 1,
            r.0.ident() == old(store).next(),
            r.0.native() == self.0.shared.handle,
            r.0.geometry_kind() == self.0.shared.kind,
            !old(store)@.contains_key(r.0.ident()),
            final(store)@ == old(store)@.insert(
                r.0.ident(),
                (Committed { shared: self.0.shared, owners: 1 }),
            ),
            final(store).has(&r.0),
            r.1 == (NativeCall::CommitGeometry { geometry: self.0.shared.handle }),
    {
        self.0.commit(store)
    }
}

/// A user geometry in its build phase.
#[derive(Debug)]
pub struct UserGeometryBuilder<'a, F, U>(pub GeometryBuilder<'a, F, U>);

impl<'a, F, U> UserGeometryBuilder<'a, F, U> {
    /// A new user geometry. `handle` is what the native call that creates it returned.
    pub fn new(device: &Device, handle: usize) -> (r: (Self, NativeCall))
        ensures
            r.0.0.shared.device == *device,
            r.0.0.shared.kind == GeometryKind::USER,
            r.0.0.shared.handle == handle,
            r.0.0.shared.attachments@ == Map::<BindingKey, AttachedBuffer<'a>>::empty(),
            forall|k: CbKind| #[trigger]
                r.0.0.shared.call_site.slot(k) == Slot::<F, U>::vacant(),
            r.1 == (NativeCall::SetGeometryUserData { geometry: handle }),
    {
        let (builder, call) = Geometry::new(device, GeometryKind::USER, handle);
        (UserGeometryBuilder(builder), call)
    }

    /// Commits pending changes and moves on to the committed, shareable phase.
    pub fn commit(self, store: &mut GeometryStore<'a, F, U>) -> (r: (Geometry, NativeCall))
        requires
            old(store).wf(),
            old(store).next() < u64::MAX,
        ensures
            final(store).wf(),
            final(store).next() == old(store).next() + 1,
            r.0.ident() == old(store).next(),
            r.0.native() == self.0.shared.handle,
            r.0.geometry_kind() == self.0.shared.kind,
            !old(store)@.contains_key(r.0.ident()),
            final(store)@ == old(store)@.insert(
                r.0.ident(),
                (Committed { shared: self.0.shared, owners: 1 }),
            ),
            final(store).has(&r.0),
            r.1 == (NativeCall::CommitGeometry { geometry: self.0.shared.handle }),
    {
        self.0.commit(store)
    }
}

/// An instance geometry in its build phase.
#[derive(Debug)]
pub struct InstanceGeometryBuilder<'a, F, U>(pub GeometryBuilder<'a, F, U>);

impl<'a, F, U> InstanceGeometryBuilder<'a, F, U> {
    /// A new instance geometry. `handle` is what the native call that creates it returned.
    pub fn new(device: &Device, handle: usize) -> (r: (Self, NativeCall))
        ensures
            r.0.0.shared.device == *device,
            r.0.0.shared.kind == GeometryKind::INSTANCE,
            r.0.0.shared.handle == handle,
            r.0.0.shared.attachments@ == Map::<BindingKey, AttachedBuffer<'a>>::empty(),
            forall|k: CbKind| #[trigger]
                r.0.0.shared.call_site.slot(k) == Slot::<F, U>::vacant(),
            r.1 == (NativeCall::SetGeometryUserData { geometry: handle }),
    {
        let (builder, call) = Geometry::new(device, GeometryKind::INSTANCE, handle);
        (InstanceGeometryBuilder(builder), call)
    }

    /// Commits pending changes and moves on to the committed, shareable phase.
    pub fn commit(self, store: &mut GeometryStore<'a, F, U>) -> (r: (Geometry, NativeCall))
        requires
            old(store).wf(),
            old(store).next() < u64::MAX,
        ensures
            final(store).wf(),
            final(store).next() == old(store).next() + 1,
            r.0.ident() == old(store).next(),
            r.0.native() == self.0.shared.handle,
            r.0.geometry_kind() == self.0.shared.kind,
            !old(store)@.contains_key(r.0.ident()),
            final(store)@ == old(store)@.insert(
                r.0.ident(),
                (Committed { shared: self.0.shared, owners: 1 }),
            ),
            final(store).has(&r.0),
            r.1 == (NativeCall::CommitGeometry { geometry: self.0.shared.handle }),
    {
        self.0.commit(store)
    }
}

/// A binding is what the slot reports afterwards, and no other slot is touched.
pub proof fn lemma_binding_reads_back<'buf, F, U>(
    pre: GeometryShared<'buf, F, U>,
    post: GeometryShared<'buf, F, U>,
    key: BindingKey,
    other: BindingKey,
    binding: AttachedBuffer<'buf>,
)
    requires
        post.is_rebind_of(&pre, key, binding),
    ensures
        post.attachments@.get(key) == Some(binding),
        other != key ==> post.attachments@.get(other) == pre.attachments@.get(other),
{
}

/// Storage that was granted for elements of `T` can be viewed as elements of `T`
/// wherever it was bound, and the view has as many elements as were announced.
pub proof fn lemma_new_storage_is_viewable<'buf, F, U, T>(
    builder: GeometryBuilder<'buf, F, U>,
    usage: BufferUsage,
    format: Format,
    stride: usize,
    count: usize,
    address: usize,
)
    requires
        builder.storage_for::<T>(usage, format, stride, count) is Ok,
        address != 0,
        address as nat % vstd::layout::align_of::<T>() == 0,
    ensures
        GeometryShared::<'buf, F, U>::viewable::<T>(
            builder.storage_for::<T>(usage, format, stride, count)->Ok_0,
            address,
        ),
        builder.storage_for::<T>(usage, format, stride, count)->Ok_0 == stride * count,
{
}

/// Memory that was accepted for a binding is never read beyond its end: for each
/// element, what is read at its position lies within the data.
pub proof fn lemma_shared_binding_is_in_bounds(
    kind: GeometryKind,
    usage: BufferUsage,
    format: Format,
    data: Seq<u8>,
    address: usize,
    stride: usize,
    count: usize,
    i: nat,
)
    requires
        checked_layout(kind, usage, format, stride, count) is Ok,
        fits_shared(data, address, checked_layout(kind, usage, format, stride, count)->Ok_0),
        i < count,
    ensures
        i * stride + crate::buffer::read_bytes(
            crate::buffer::element_bytes(format)->Some_0,
            is_vertex_usage(usage),
        ) <= data.len(),
        (address + i * stride) % 4 == 0,
{
    crate::buffer::lemma_layout_holds_every_element(
        format,
        stride as nat,
        count as nat,
        is_vertex_usage(usage),
        i,
        i,
    );
}

/// A range of a native buffer that was accepted for a binding is never read
/// beyond its end.
pub proof fn lemma_managed_binding_is_in_bounds(
    kind: GeometryKind,
    usage: BufferUsage,
    format: Format,
    range: ByteRange,
    size: nat,
    stride: usize,
    count: usize,
    i: nat,
)
    requires
        checked_layout(kind, usage, format, stride, count) is Ok,
        fits_managed(range, size, checked_layout(kind, usage, format, stride, count)->Ok_0),
        i < count,
    ensures
        range.first() + i * stride + crate::buffer::read_bytes(
            crate::buffer::element_bytes(format)->Some_0,
            is_vertex_usage(usage),
        ) <= range.past(size) <= size,
        (range.first() + i * stride) % 4 == 0,
{
    crate::buffer::lemma_layout_holds_every_element(
        format,
        stride as nat,
        count as nat,
        is_vertex_usage(usage),
        i,
        i,
    );
}

/// Each callback sees its own closure and data: setting one leaves those of every
/// other kind as they were.
pub proof fn lemma_callbacks_are_independent<'buf, F, U>(
    pre: GeometryShared<'buf, F, U>,
    post: GeometryShared<'buf, F, U>,
    kind: CbKind,
    other: CbKind,
    slot: Slot<F, U>,
    call: NativeCall,
    change: CallbackChange<F, U>,
)
    requires
        callback_set(&pre, &post, kind, slot, call, change),
    ensures
        post.call_site.slot(kind) == slot,
        other != kind ==> post.call_site.slot(other) == pre.call_site.slot(other),
{
}

/// What a callback was given is handed back when its slot is replaced or cleared,
/// and what came after is in the slot.
pub proof fn lemma_replaced_callback_comes_back<'buf, F, U>(
    s0: GeometryShared<'buf, F, U>,
    s1: GeometryShared<'buf, F, U>,
    s2: GeometryShared<'buf, F, U>,
    kind: CbKind,
    first: Slot<F, U>,
    second: Slot<F, U>,
    calls: (NativeCall, NativeCall),
    changes: (CallbackChange<F, U>, CallbackChange<F, U>),
)
    requires
        callback_set(&s0, &s1, kind, first, calls.0, changes.0),
        callback_set(&s1, &s2, kind, second, calls.1, changes.1),
    ensures
        changes.1.released == first,
        s2.call_site.slot(kind) == second,
{
}

/// Committing and regaining the builder through the only handle gives the state
/// back as it was, and leaves the store as it was.
pub proof fn lemma_commit_then_edit_round_trip<'buf, F, U>(
    before: Map<u64, Committed<'buf, F, U>>,
    id: u64,
    shared: GeometryShared<'buf, F, U>,
)
    requires
        !before.contains_key(id),
    ensures
        ({
            let committed = before.insert(id, Committed { shared, owners: 1 });
            &&& committed[id].owners == 1
            &&& committed[id].shared == shared
            &&& committed.remove(id) == before
        }),
{
    assert(before.insert(id, Committed { shared, owners: 1 }).remove(id) =~= before);
}

/// While a second handle exists, be it a clone or the one that a scene keeps, the
/// geometry cannot be edited; once that handle is gone, it can be again.
pub proof fn lemma_second_handle_blocks_editing<'buf, F, U>(
    m: Map<u64, Committed<'buf, F, U>>,
    id: u64,
)
    requires
        m.contains_key(id),
        1 <= m[id].owners < u64::MAX,
    ensures
        with_retained(m, id)[id].owners != 1,
        with_retained(m, id)[id].shared == m[id].shared,
        with_released(with_retained(m, id), id) == m,
{
    assert(with_released(with_retained(m, id), id) =~= m);
}

/// A handle never affects the state, or the number of handles, of another
/// geometry.
pub proof fn lemma_handles_are_independent<'buf, F, U>(
    m: Map<u64, Committed<'buf, F, U>>,
    id: u64,
    other: u64,
)
    requires
        m.contains_key(id),
        other != id,
    ensures
        with_retained(m, id).get(other) == m.get(other),
        with_released(m, id).get(other) == m.get(other),
{
}

/// Committed state is frozen: whatever handles come and go, an entry that is
/// there before and after holds the same state.
pub proof fn lemma_committed_state_is_frozen<'buf, F, U>(
    m: Map<u64, Committed<'buf, F, U>>,
    id: u64,
    other: u64,
)
    requires
        m.contains_key(id),
        m.contains_key(other),
    ensures
        with_retained(m, id).contains_key(other),
        with_retained(m, id)[other].shared == m[other].shared,
        with_released(m, id).contains_key(other) ==> with_released(m, id)[other].shared
            == m[other].shared,
{
}

/// The store after `k` handles of `id` went away.
pub open spec fn after_releases<'buf, F, U>(
    m: Map<u64, Committed<'buf, F, U>>,
    id: u64,
    k: nat,
) -> Map<u64, Committed<'buf, F, U>>
    decreases k,
{
    if k == 0 {
        m
    } else {
        with_released(after_releases(m, id, (k - 1) as nat), id)
    }
}

/// The native calls that are due while `k` handles of `id` go away.
pub open spec fn calls_over_releases<F, U>(
    m: Map<u64, Committed<F, U>>,
    id: u64,
    k: nat,
) -> Seq<NativeCall>
    decreases k,
{
    if k == 0 {
        Seq::empty()
    } else {
        calls_over_releases(m, id, (k - 1) as nat) + release_calls(
            after_releases(m, id, (k - 1) as nat),
            id,
        )
    }
}

/// A geometry is released exactly once: with its last handle, not before, and not
/// again. Until then its state stays as it is.
pub proof fn lemma_geometry_is_released_once<'buf, F, U>(
    m: Map<u64, Committed<'buf, F, U>>,
    id: u64,
    k: nat,
)
    requires
        m.contains_key(id),
        m[id].owners >= 1,
    ensures
        calls_over_releases(m, id, k) == (if k >= m[id].owners {
            m[id].shared.farewell()
        } else {
            Seq::empty()
        }),
        after_releases(m, id, k).contains_key(id) <==> k < m[id].owners,
        k < m[id].owners ==> after_releases(m, id, k)[id] == (Committed {
            shared: m[id].shared,
            owners: (m[id].owners - k) as u64,
        }),
    decreases k,
{
    if k > 0 {
        lemma_geometry_is_released_once(m, id, (k - 1) as nat);
        assert(calls_over_releases(m, id, k) =~= (if k >= m[id].owners {
            m[id].shared.farewell()
        } else {
            Seq::empty()
        }));
    }
}

/// A vertex attribute buffer of a valid layout is refused, as an invalid operation,
/// exactly for grids, user geometries and instances, and an attribute count is passed
/// on for exactly the other kinds: triangle and quad meshes, subdivision meshes, and
/// all curves and points. No buffer of another usage is refused for the kind.
pub proof fn lemma_vertex_attributes_by_kind(
    kind: GeometryKind,
    other: GeometryKind,
    usage: BufferUsage,
    format: Format,
    stride: usize,
    count: usize,
)
    ensures
        has_vertex_attributes(kind) <==> !(kind is GRID || kind is USER || kind is INSTANCE),
        checked_layout(kind, BufferUsage::VERTEX_ATTRIBUTE, format, stride, count) == Err::<
            nat,
            Error,
        >(Error::INVALID_OPERATION) <==> kind is GRID || kind is USER || kind is INSTANCE,
        !(kind is GRID || kind is USER || kind is INSTANCE) ==> checked_layout(
            kind,
            BufferUsage::VERTEX_ATTRIBUTE,
            format,
            stride,
            count,
        ) == checked_layout(other, BufferUsage::VERTEX, format, stride, count),
        usage != BufferUsage::VERTEX_ATTRIBUTE ==> checked_layout(
            kind,
            usage,
            format,
            stride,
            count,
        ) == checked_layout(other, usage, format, stride, count),
{
}

/// Every kind but three can have vertex attributes: with a layout that takes a countable
/// number of bytes, the binding is accepted.
pub proof fn lemma_meshes_curves_and_points_have_attributes(
    kind: GeometryKind,
    format: Format,
    stride: usize,
)
    requires
        kind is TRIANGLE || kind is QUAD || kind is SUBDIVISION || kind is CONE_LINEAR_CURVE
            || kind is ROUND_LINEAR_CURVE || kind is FLAT_LINEAR_CURVE || kind is ROUND_BEZIER_CURVE
            || kind is FLAT_BEZIER_CURVE || kind is NORMAL_ORIENTED_BEZIER_CURVE
            || kind is ROUND_BSPLINE_CURVE || kind is FLAT_BSPLINE_CURVE
            || kind is NORMAL_ORIENTED_BSPLINE_CURVE || kind is ROUND_HERMITE_CURVE
            || kind is FLAT_HERMITE_CURVE || kind is NORMAL_ORIENTED_HERMITE_CURVE
            || kind is SPHERE_POINT || kind is DISC_POINT || kind is ORIENTED_DISC_POINT
            || kind is ROUND_CATMULL_ROM_CURVE || kind is FLAT_CATMULL_ROM_CURVE
            || kind is NORMAL_ORIENTED_CATMULL_ROM_CURVE,
        format != Format::UNDEFINED,
        stride % 4 == 0,
        stride >= crate::buffer::element_bytes(format)->Some_0,
    ensures
        has_vertex_attributes(kind),
        checked_layout(kind, BufferUsage::VERTEX_ATTRIBUTE, format, stride, 1) is Ok,
{
    assert(0 * stride == 0) by (nonlinear_arith);
}

/// A binding takes what its elements take. In vertex and vertex attribute buffers the
/// last element counts up to the next multiple of 16, in all others as it is; a layout
/// that is not valid is an invalid argument.
pub proof fn lemma_bindings_take_what_is_read(
    kind: GeometryKind,
    usage: BufferUsage,
    format: Format,
    stride: usize,
    count: usize,
)
    requires
        has_vertex_attributes(kind),
        format != Format::UNDEFINED,
        stride >= crate::buffer::element_bytes(format)->Some_0,
    ensures
        stride % 4 != 0 || count == 0 ==> checked_layout(kind, usage, format, stride, count)
            == Err::<nat, Error>(Error::INVALID_ARGUMENT),
        checked_layout(kind, usage, format, stride, count) matches Ok(n) ==> {
            let element = crate::buffer::element_bytes(format)->Some_0;
            let last = n - (count - 1) * stride;
            if usage is VERTEX || usage is VERTEX_ATTRIBUTE {
                element <= last < element + 16 && last % 16 == 0
            } else {
                last == element
            }
        },
        checked_layout(kind, usage, format, stride, count) is Err ==> checked_layout(
            kind,
            usage,
            format,
            stride,
            count,
        ) == Err::<nat, Error>(Error::INVALID_ARGUMENT),
        checked_layout(kind, usage, Format::UNDEFINED, stride, count) == Err::<nat, Error>(
            Error::INVALID_ARGUMENT,
        ),
{
}

/// A tessellation rate belongs to subdivision meshes and to every flat curve, and among
/// the round curves to the linear and the Bezier ones; to nothing else.
pub proof fn lemma_tessellation_rates_by_kind(kind: GeometryKind)
    ensures
        has_tessellation_rate(kind) <==> {
            ||| kind is SUBDIVISION
            ||| kind is FLAT_LINEAR_CURVE || kind is FLAT_BEZIER_CURVE || kind is FLAT_BSPLINE_CURVE
                || kind is FLAT_HERMITE_CURVE || kind is FLAT_CATMULL_ROM_CURVE
            ||| kind is ROUND_LINEAR_CURVE || kind is ROUND_BEZIER_CURVE
        },
{
}

/// Shared data is accepted as soon as it is long enough and lies at a multiple of 4, and
/// one byte less is refused. A range of a native buffer is accepted as soon as it is
/// long enough, begins at a multiple of 4 and lies within the buffer.
pub proof fn lemma_data_is_accepted_where_it_fits(
    data: Seq<u8>,
    address: usize,
    required: nat,
    a: usize,
    b: usize,
    size: nat,
)
    ensures
        fits_shared(data, address, data.len()) <==> address % 4 == 0,
        !fits_shared(data, address, data.len() + 1),
        fits_shared(data, address, required) <==> required <= data.len() && fits_shared(
            data,
            address,
            data.len(),
        ),
        fits_managed(
            ByteRange { start: Bound::Included(a), end: Bound::Excluded(b) },
            size,
            required,
        ) <==> a % 4 == 0 && a + required <= b && b <= size,
        fits_managed(
            ByteRange { start: Bound::Included(a), end: Bound::Unbounded },
            size,
            required,
        ) <==> a % 4 == 0 && a + required <= size,
        fits_managed(
            ByteRange { start: Bound::Unbounded, end: Bound::Unbounded },
            size,
            required,
        ) <==> required <= size,
{
}

/// New storage is one stride for each element. It is granted for every accepted layout
/// whose storage can be counted and is made of whole elements of `t_size` bytes; a
/// refused layout keeps its error.
pub proof fn lemma_storage_is_granted_where_it_can_be(
    layout: Result<nat, Error>,
    stride: usize,
    count: usize,
    t_size: nat,
    k: nat,
)
    ensures
        layout is Err ==> checked_storage(layout, stride, count, t_size) == layout,
        layout is Ok && t_size > 0 && stride * count == k * t_size && stride * count <= usize::MAX
            ==> checked_storage(layout, stride, count, t_size) == Ok::<nat, Error>(
            (stride * count) as nat,
        ),
        layout is Ok && checked_storage(layout, stride, count, t_size) is Err ==> checked_storage(
            layout,
            stride,
            count,
            t_size,
        ) == Err::<nat, Error>(Error::INVALID_ARGUMENT),
        checked_storage(layout, stride, count, t_size) matches Ok(n) ==> {
            &&& layout is Ok
            &&& t_size > 0
            &&& n == stride * count
            &&& n <= usize::MAX
            &&& n == t_size * (n / t_size)
        },
        layout is Ok ==> checked_storage(layout, stride, count, 0) is Err,
{
    if t_size > 0 {
        vstd::arithmetic::div_mod::lemma_fundamental_div_mod(stride * count, t_size as int);
        if stride * count == k * t_size {
            vstd::arithmetic::div_mod::lemma_mod_multiples_basic(k as int, t_size as int);
        }
    }
}

/// Storage of whole elements at a multiple of their alignment can be viewed; no storage,
/// none of whole elements, and none that is misaligned can.
pub proof fn lemma_storage_is_viewed_where_it_fits<'buf, F, U, T>(
    count: nat,
    size: nat,
    address: usize,
    k: nat,
)
    ensures
        vstd::layout::size_of::<T>() > 0 && address > 0 && address == k
            * vstd::layout::align_of::<T>() ==> GeometryShared::<'buf, F, U>::viewable::<T>(
            count * vstd::layout::size_of::<T>(),
            address,
        ),
        !GeometryShared::<'buf, F, U>::viewable::<T>(size, 0),
        GeometryShared::<'buf, F, U>::viewable::<T>(size, address) ==> {
            let (t, a) = (vstd::layout::size_of::<T>(), vstd::layout::align_of::<T>());
            &&& t > 0
            &&& size == t * (size / t)
            &&& address == a * (address as nat / a)
        },
{
    broadcast use vstd::layout::align_nonzero;

    let (t, a) = (vstd::layout::size_of::<T>() as int, vstd::layout::align_of::<T>() as int);
    vstd::arithmetic::div_mod::lemma_fundamental_div_mod(address as int, a);
    vstd::arithmetic::div_mod::lemma_mod_multiples_basic(k as int, a);
    if t > 0 {
        vstd::arithmetic::div_mod::lemma_fundamental_div_mod(size as int, t);
        vstd::arithmetic::div_mod::lemma_mod_multiples_basic(count as int, t);
    }
}

/// The items of a run of bytes are the whole ones in it: `n` of them take the bytes of
/// `n` items, and one more would not fit. Items without a size are none.
pub proof fn lemma_items_are_the_whole_ones(bytes: nat, t_size: nat, n: nat)
    requires
        bytes <= usize::MAX,
    ensures
        slice_items(bytes, 0) == 0,
        t_size > 0 ==> slice_items(bytes, t_size) * t_size <= bytes < (slice_items(bytes, t_size)
            + 1) * t_size,
        t_size > 0 && bytes == n * t_size ==> slice_items(bytes, t_size) == n,
{
    if t_size > 0 {
        let (b, t) = (bytes as int, t_size as int);
        vstd::arithmetic::div_mod::lemma_fundamental_div_mod(b, t);
        vstd::arithmetic::div_mod::lemma_div_is_ordered_by_denominator(b, 1, t);
        vstd::arithmetic::div_mod::lemma_div_pos_is_pos(b, t);
        vstd::arithmetic::div_mod::lemma_div_basics(b);
        let q = b / t;
        assert(q * t == t * q && (q + 1) * t == t * q + t) by (nonlinear_arith);
        if bytes == n * t_size {
            vstd::arithmetic::div_mod::lemma_div_by_multiple(n as int, t);
        }
    }
}

/// What a slot reports is what was bound to it: the same buffer at the same offset, or
/// the same data, or storage of the same size, with the layout it was bound with.
pub proof fn lemma_sources_report_the_binding<'buf, F, U>(
    buffer: Buffer,
    byte_offset: usize,
    layout: BufferLayout,
    data: &'buf [u8],
    address: usize,
    size: BufferSize,
)
    ensures
        GeometryShared::<'buf, F, U>::source_of(
            AttachedBuffer::Managed { buffer, byte_offset, layout },
        ) == (BufferSource::Managed { buffer, byte_offset, layout }),
        GeometryShared::<'buf, F, U>::source_of(AttachedBuffer::Shared { data, layout }) == (
        BufferSource::Shared { data, layout }),
        GeometryShared::<'buf, F, U>::source_of(
            AttachedBuffer::Local { address, size, layout },
        ) == (BufferSource::Local { size, layout }),
{
}

/// Storage of the geometry's own has the size it was bound with; no other binding is
/// storage of its own.
pub proof fn lemma_own_storage_has_its_size<'buf, F, U>(
    shared: GeometryShared<'buf, F, U>,
    usage: BufferUsage,
    slot: u32,
)
    ensures
        match shared.attachments@.get((usage, slot)) {
            None => shared.local_size(usage, slot) is None,
            Some(b) => if b is Local {
                shared.local_size(usage, slot) == Some(b->size.value())
            } else {
                shared.local_size(usage, slot) is None
            },
        },
{
}

/// Binding a buffer and setting a callback change that binding and that callback, and
/// nothing else of the geometry.
pub proof fn lemma_changes_leave_the_rest<'buf, F, U>(
    pre: GeometryShared<'buf, F, U>,
    post: GeometryShared<'buf, F, U>,
    key: BindingKey,
    binding: AttachedBuffer<'buf>,
    kind: CbKind,
    slot: Slot<F, U>,
)
    ensures
        post.is_rebind_of(&pre, key, binding) ==> {
            &&& post.handle == pre.handle && post.kind == pre.kind && post.device == pre.device
            &&& post.call_site == pre.call_site
            &&& post.attachments@.dom() == pre.attachments@.dom().insert(key)
            &&& post.attachments@[key] == binding
        },
        post.is_recall_of(&pre, kind, slot) ==> {
            &&& post.handle == pre.handle && post.kind == pre.kind && post.device == pre.device
            &&& post.attachments == pre.attachments
            &&& post.call_site.slot(kind) == slot
        },
{
}

/// The native call of a shared binding names the geometry and its slot and describes the
/// layout as it was asked for, from the first byte of the data, which goes along.
pub proof fn lemma_shared_bindings_are_asked_for_as_given<'buf, F, U>(
    pre: GeometryShared<'buf, F, U>,
    post: GeometryShared<'buf, F, U>,
    usage: BufferUsage,
    slot: u32,
    data: &'buf [u8],
    layout: BufferLayout,
    binding: SharedBinding<'buf>,
)
    requires
        shared_bound(&pre, &post, (usage, slot), data, layout, binding),
    ensures
        binding.call is SetSharedGeometryBuffer,
        binding.call->SetSharedGeometryBuffer_geometry == pre.handle,
        binding.call->SetSharedGeometryBuffer_usage == usage,
        binding.call->SetSharedGeometryBuffer_slot == slot,
        binding.call->SetSharedGeometryBuffer_format == layout.format,
        binding.call->SetSharedGeometryBuffer_byte_offset == 0,
        binding.call->SetSharedGeometryBuffer_stride == layout.stride,
        binding.call->SetSharedGeometryBuffer_item_count == layout.count,
        binding.data@ == data@,
        post.attachments@[(usage, slot)] == (AttachedBuffer::Shared { data, layout }),
        post.handle == pre.handle,
        pre.attachments@.contains_key((usage, slot)) && pre.attachments@[(usage, slot)] is Managed
            ==> binding.due@ == seq![
            NativeCall::ReleaseBuffer { buffer: pre.attachments@[(usage, slot)]->buffer.handle },
        ],
        !pre.attachments@.contains_key((usage, slot)) ==> binding.due@.len() == 0,
{
}

/// A callback that was set has its native call made, is in its slot, and hands back what
/// was there; one that was not accepted makes no call, changes nothing, and comes back
/// itself.
pub proof fn lemma_callback_changes<'buf, F, U>(
    pre: GeometryShared<'buf, F, U>,
    post: GeometryShared<'buf, F, U>,
    kind: CbKind,
    slot: Slot<F, U>,
    call: NativeCall,
    change: CallbackChange<F, U>,
)
    ensures
        callback_set(&pre, &post, kind, slot, call, change) ==> {
            &&& change.call == Some(call)
            &&& change.released == pre.call_site.slot(kind)
            &&& post.call_site.slot(kind) == slot
            &&& post.handle == pre.handle
        },
        callback_ignored(&pre, &post, slot, change) ==> {
            &&& change.call is None
            &&& change.released == slot
            &&& post == pre
        },
{
}

/// A geometry that goes away is released first, once, and after it only references of
/// native buffers are given up.
pub proof fn lemma_a_farewell_releases_the_geometry_first<'buf, F, U>(
    shared: GeometryShared<'buf, F, U>,
    i: int,
)
    ensures
        shared.farewell().len() >= 1,
        shared.farewell()[0] == (NativeCall::ReleaseGeometry { geometry: shared.handle }),
        0 < i < shared.farewell().len() ==> shared.farewell()[i] is ReleaseBuffer,
{
    if 0 < i < shared.farewell().len() {
        crate::attachments::lemma_releases_are_of_bound_buffers(
            shared.attachments.keys(),
            shared.attachments@,
            i - 1,
        );
    }
}

/// One more handle is counted as one more, one less as one less, and only the last one
/// takes the state along.
pub proof fn lemma_handles_are_counted_by_one<'buf, F, U>(
    m: Map<u64, Committed<'buf, F, U>>,
    id: u64,
)
    requires
        m.contains_key(id),
        1 <= m[id].owners < u64::MAX,
    ensures
        with_retained(m, id)[id].owners == m[id].owners + 1,
        with_retained(m, id).dom() == m.dom(),
        m[id].owners == 1 ==> with_released(m, id) == m.remove(id) && release_calls(m, id)
            == m[id].shared.farewell(),
        m[id].owners > 1 ==> with_released(m, id)[id].owners == m[id].owners - 1 && release_calls(
            m,
            id,
        ).len() == 0,
{
    assert(with_retained(m, id).dom() =~= m.dom());
}

/// A store has a handle exactly if it holds state under its key, with the same native
/// handle and of the same kind.
pub proof fn lemma_stores_know_their_handles<'buf, F, U>(
    store: GeometryStore<'buf, F, U>,
    geometry: Geometry,
)
    ensures
        store.has(&geometry) <==> {
            &&& store@.dom().contains(geometry.ident())
            &&& store@[geometry.ident()].shared.handle == geometry.native()
            &&& store@[geometry.ident()].shared.kind == geometry.geometry_kind()
        },
{
}

/// Every setting is made on the geometry of the builder, by the native call of its own
/// name and with the values that were given, each in its place; the builder stays as
/// it is.
pub proof fn lemma_settings_are_passed_on<'buf, F, U>(
    b: &mut GeometryBuilder<'buf, F, U>,
    usage: BufferUsage,
    slot: u32,
    count: u32,
    quality: BuildQuality,
    mode: SubdivisionMode,
    x: Real,
    y: Real,
    address: usize,
    matrix: &[Real; 16],
    q: &QuaternionDecomposition,
    call: NativeCall,
)
    ensures
        call_ensures(
            GeometryBuilder::<'buf, F, U>::update_buffer,
            (b, usage, slot),
            call,
        ) ==> {
            &&& *final(b) == *old(b)
            &&& call == (NativeCall::UpdateGeometryBuffer {
                geometry: old(b).shared.handle,
                usage,
                slot,
            })
        },
        call_ensures(
            GeometryBuilder::<'buf, F, U>::disable,
            (b,),
            call,
        ) ==> {
            &&& *final(b) == *old(b)
            &&& call == (NativeCall::DisableGeometry {
                geometry: old(b).shared.handle,
            })
        },
        call_ensures(
            GeometryBuilder::<'buf, F, U>::enable,
            (b,),
            call,
        ) ==> {
            &&& *final(b) == *old(b)
            &&& call == (NativeCall::EnableGeometry {
                geometry: old(b).shared.handle,
            })
        },
        call_ensures(
            GeometryBuilder::<'buf, F, U>::set_build_quality,
            (b, quality),
            call,
        ) ==> {
            &&& *final(b) == *old(b)
            &&& call == (NativeCall::SetGeometryBuildQuality {
                geometry: old(b).shared.handle,
                quality,
            })
        },
        call_ensures(
            GeometryBuilder::<'buf, F, U>::set_tessellation_rate,
            (b, x),
            call,
        ) ==> {
            &&& *final(b) == *old(b)
            &&& call == (NativeCall::SetGeometryTessellationRate {
                geometry: old(b).shared.handle,
                rate: x,
            })
        },
        call_ensures(
            GeometryBuilder::<'buf, F, U>::set_max_radius_scale,
            (b, x),
            call,
        ) ==> {
            &&& *final(b) == *old(b)
            &&& call == (NativeCall::SetGeometryMaxRadiusScale {
                geometry: old(b).shared.handle,
                scale: x,
            })
        },
        call_ensures(
            GeometryBuilder::<'buf, F, U>::set_mask,
            (b, count),
            call,
        ) ==> {
            &&& *final(b) == *old(b)
            &&& call == (NativeCall::SetGeometryMask {
                geometry: old(b).shared.handle,
                mask: count,
            })
        },
        call_ensures(
            GeometryBuilder::<'buf, F, U>::set_time_step_count,
            (b, count),
            call,
        ) ==> {
            &&& *final(b) == *old(b)
            &&& call == (NativeCall::SetGeometryTimeStepCount {
                geometry: old(b).shared.handle,
                count,
            })
        },
        call_ensures(
            GeometryBuilder::<'buf, F, U>::set_time_range,
            (b, x, y),
            call,
        ) ==> {
            &&& *final(b) == *old(b)
            &&& call == (NativeCall::SetGeometryTimeRange {
                geometry: old(b).shared.handle,
                start: x,
                end: y,
            })
        },
        call_ensures(
            GeometryBuilder::<'buf, F, U>::set_point_query_function,
            (b, address),
            call,
        ) ==> {
            &&& *final(b) == *old(b)
            &&& call == (NativeCall::SetGeometryPointQueryFunction {
                geometry: old(b).shared.handle,
                function: Some(address),
            })
        },
        call_ensures(
            GeometryBuilder::<'buf, F, U>::unset_point_query_function,
            (b,),
            call,
        ) ==> {
            &&& *final(b) == *old(b)
            &&& call == (NativeCall::SetGeometryPointQueryFunction {
                geometry: old(b).shared.handle,
                function: None,
            })
        },
        call_ensures(
            GeometryBuilder::<'buf, F, U>::set_primitive_count,
            (b, count),
            call,
        ) ==> {
            &&& *final(b) == *old(b)
            &&& call == (NativeCall::SetGeometryUserPrimitiveCount {
                geometry: old(b).shared.handle,
                count,
            })
        },
        call_ensures(
            GeometryBuilder::<'buf, F, U>::set_subdivision_mode,
            (b, slot, mode),
            call,
        ) ==> {
            &&& *final(b) == *old(b)
            &&& call == (NativeCall::SetGeometrySubdivisionMode {
                geometry: old(b).shared.handle,
                topology: slot,
                mode,
            })
        },
        call_ensures(
            GeometryBuilder::<'buf, F, U>::set_topology_count,
            (b, count),
            call,
        ) ==> {
            &&& *final(b) == *old(b)
            &&& call == (NativeCall::SetGeometryTopologyCount {
                geometry: old(b).shared.handle,
                count,
            })
        },
        call_ensures(
            GeometryBuilder::<'buf, F, U>::set_vertex_attribute_topology,
            (b, slot, count),
            call,
        ) ==> {
            &&& *final(b) == *old(b)
            &&& call == (NativeCall::SetGeometryVertexAttributeTopology {
                geometry: old(b).shared.handle,
                vertex_attribute: slot,
                topology: count,
            })
        },
        call_ensures(
            GeometryBuilder::<'buf, F, U>::set_instanced_scene,
            (b, address),
            call,
        ) ==> {
            &&& *final(b) == *old(b)
            &&& call == (NativeCall::SetGeometryInstancedScene {
                geometry: old(b).shared.handle,
                scene: address,
            })
        },
        call_ensures(
            GeometryBuilder::<'buf, F, U>::set_transform,
            (b, count, matrix),
            call,
        ) ==> {
            &&& *final(b) == *old(b)
            &&& call == (NativeCall::SetGeometryTransform {
                geometry: old(b).shared.handle,
                time_step: count,
                format: Format::FLOAT4X4_COLUMN_MAJOR,
                matrix: *matrix,
            })
        },
        call_ensures(
            GeometryBuilder::<'buf, F, U>::set_transform_quaternion,
            (b, count, q),
            call,
        ) ==> {
            &&& *final(b) == *old(b)
            &&& call == (NativeCall::SetGeometryTransformQuaternion {
                geometry: old(b).shared.handle,
                time_step: count,
                transform: *q,
            })
        },
{
}

/// A number of vertex attributes is set for the kinds that have attributes, which is
/// all but grids, user geometries and instances; a number of primitives only for user
/// geometries.
pub proof fn lemma_counts_are_set_by_kind<'buf, F, U>(
    b: &mut GeometryBuilder<'buf, F, U>,
    count: u32,
    call: Option<NativeCall>,
)
    ensures
        call_ensures(GeometryBuilder::<'buf, F, U>::set_vertex_attribute_count, (b, count), call)
            ==> {
            &&& *final(b) == *old(b)
            &&& call is None <==> {
                ||| old(b).shared.kind is GRID
                ||| old(b).shared.kind is USER
                ||| old(b).shared.kind is INSTANCE
            }
            &&& call matches Some(c) ==> c == (NativeCall::SetGeometryVertexAttributeCount {
                geometry: old(b).shared.handle,
                count,
            })
        },
        call_ensures(GeometryBuilder::<'buf, F, U>::set_user_primitive_count, (b, count), call)
            ==> {
            &&& *final(b) == *old(b)
            &&& call is Some <==> old(b).shared.kind is USER
            &&& call matches Some(c) ==> c == (NativeCall::SetGeometryUserPrimitiveCount {
                geometry: old(b).shared.handle,
                count,
            })
        },
{
}

/// Vertex attributes are refused for grids, user geometries and instances, and for no
/// other kind.
proof fn lemma_kinds_without_attributes_refuse_them<'buf, F, U>(
    b: &GeometryBuilder<'buf, F, U>,
    r: Result<(), Error>,
)
    requires
        call_ensures(GeometryBuilder::<'buf, F, U>::check_vertex_attribute, (b,), r),
    ensures
        r is Err <==> {
            ||| b.shared.kind is GRID
            ||| b.shared.kind is USER
            ||| b.shared.kind is INSTANCE
        },
        r matches Err(e) ==> e == Error::INVALID_OPERATION,
{
}

/// Subdivision meshes, flat curves and two of the round ones have a tessellation rate.
/// What a maximal radius scale comes to is the error of the device, if it has one.
pub proof fn lemma_rates_and_scales<'buf, F, U>(
    b: &GeometryBuilder<'buf, F, U>,
    r: Result<(), Error>,
    rate: bool,
    error: Error,
)
    requires
        call_ensures(GeometryBuilder::<'buf, F, U>::max_radius_scale_result, (b, error), r),
        call_ensures(GeometryBuilder::<'buf, F, U>::supports_tessellation_rate, (b,), rate),
    ensures
        r is Ok <==> error == Error::NONE,
        r matches Err(e) ==> e == error,
        rate <==> {
            ||| b.shared.kind is SUBDIVISION
            ||| b.shared.kind is FLAT_LINEAR_CURVE
            ||| b.shared.kind is FLAT_BEZIER_CURVE
            ||| b.shared.kind is FLAT_BSPLINE_CURVE
            ||| b.shared.kind is FLAT_HERMITE_CURVE
            ||| b.shared.kind is FLAT_CATMULL_ROM_CURVE
            ||| b.shared.kind is ROUND_LINEAR_CURVE
            ||| b.shared.kind is ROUND_BEZIER_CURVE
        },
{
}

/// The half edges of a geometry are asked for by their own calls, with the numbers that
/// were given.
pub proof fn lemma_half_edges_are_asked_for(
    g: &Geometry,
    id: u32,
    topology: u32,
    call: NativeCall,
)
    ensures
        ({
            let geometry = g.native();
            &&& call_ensures(Geometry::get_first_half_edge, (g, id), call) ==> call == (
            NativeCall::GetGeometryFirstHalfEdge { geometry, face: id })
            &&& call_ensures(Geometry::get_face, (g, id), call) ==> call == (
            NativeCall::GetGeometryFace { geometry, edge: id })
            &&& call_ensures(Geometry::get_next_half_edge, (g, id), call) ==> call == (
            NativeCall::GetGeometryNextHalfEdge { geometry, edge: id })
            &&& call_ensures(Geometry::get_previous_half_edge, (g, id), call) ==> call == (
            NativeCall::GetGeometryPreviousHalfEdge { geometry, edge: id })
            &&& call_ensures(Geometry::get_opposite_half_edge, (g, topology, id), call) ==> call
                == (NativeCall::GetGeometryOppositeHalfEdge { geometry, topology, edge: id })
        }),
{
}

/// A callback that is accepted takes the slot of its own kind, without user data, and is
/// registered under its own name; what was there comes back, and the other slots stay
/// as they are. One that its geometry's kind has no use for comes back itself.
pub proof fn lemma_callbacks_take_their_slots<'buf, F, U>(
    b: &mut GeometryBuilder<'buf, F, U>,
    kind: CbKind,
    f: F,
    change: CallbackChange<F, U>,
)
    requires
        match kind {
            CbKind::IntersectFilter => call_ensures(
                GeometryBuilder::<'buf, F, U>::set_intersect_filter_function,
                (b, f),
                change,
            ),
            CbKind::OccludedFilter => call_ensures(
                GeometryBuilder::<'buf, F, U>::set_occluded_filter_function,
                (b, f),
                change,
            ),
            CbKind::UserBounds => call_ensures(
                GeometryBuilder::<'buf, F, U>::set_bounds_function,
                (b, f),
                change,
            ),
            CbKind::UserIntersect => call_ensures(
                GeometryBuilder::<'buf, F, U>::set_intersect_function,
                (b, f),
                change,
            ),
            CbKind::UserOccluded => call_ensures(
                GeometryBuilder::<'buf, F, U>::set_occluded_function,
                (b, f),
                change,
            ),
            CbKind::Displacement => call_ensures(
                GeometryBuilder::<'buf, F, U>::set_displacement_function,
                (b, f),
                change,
            ),
        },
    ensures
        ({
            let accepted = match kind {
                CbKind::UserBounds | CbKind::UserIntersect | CbKind::UserOccluded => old(
                    b,
                ).shared.kind is USER,
                CbKind::Displacement => old(b).shared.kind is SUBDIVISION,
                _ => true,
            };
            let geometry = old(b).shared.handle;
            &&& accepted ==> {
                &&& change.call == Some(
                    match kind {
                        CbKind::IntersectFilter => NativeCall::SetGeometryIntersectFilterFunction {
                            geometry,
                            registered: true,
                        },
                        CbKind::OccludedFilter => NativeCall::SetGeometryOccludedFilterFunction {
                            geometry,
                            registered: true,
                        },
                        CbKind::UserBounds => NativeCall::SetGeometryBoundsFunction {
                            geometry,
                            registered: true,
                        },
                        CbKind::UserIntersect => NativeCall::SetGeometryIntersectFunction {
                            geometry,
                            registered: true,
                        },
                        CbKind::UserOccluded => NativeCall::SetGeometryOccludedFunction {
                            geometry,
                            registered: true,
                        },
                        CbKind::Displacement => NativeCall::SetGeometryDisplacementFunction {
                            geometry,
                            registered: true,
                        },
                    },
                )
                &&& change.released == old(b).shared.call_site.slot(kind)
                &&& final(b).shared.call_site.slot(kind).closure == Some(f)
                &&& final(b).shared.call_site.slot(kind).user_data == UserBinding::<U>::Unbound
                &&& forall|other: CbKind|
                    other != kind ==> #[trigger] final(b).shared.call_site.slot(other) == old(
                        b,
                    ).shared.call_site.slot(other)
                &&& final(b).shared.attachments == old(b).shared.attachments
                &&& final(b).shared.kind == old(b).shared.kind
                &&& final(b).shared.handle == old(b).shared.handle
            }
            &&& !accepted ==> {
                &&& change.call is None
                &&& change.released.closure == Some(f)
                &&& change.released.user_data == UserBinding::<U>::Unbound
                &&& *final(b) == *old(b)
            }
        }),
{
}

/// The same for a callback that comes with data of its own.
pub proof fn lemma_callbacks_own_their_data<'buf, F, U>(
    b: &mut GeometryBuilder<'buf, F, U>,
    kind: CbKind,
    f: F,
    data: U,
    change: CallbackChange<F, U>,
)
    requires
        match kind {
            CbKind::IntersectFilter => call_ensures(
                GeometryBuilder::<'buf, F, U>::set_intersect_filter_function_owned,
                (b, f, data),
                change,
            ),
            CbKind::OccludedFilter => call_ensures(
                GeometryBuilder::<'buf, F, U>::set_occluded_filter_function_owned,
                (b, f, data),
                change,
            ),
            CbKind::UserBounds => call_ensures(
                GeometryBuilder::<'buf, F, U>::set_bounds_function_owned,
                (b, f, data),
                change,
            ),
            CbKind::UserIntersect => call_ensures(
                GeometryBuilder::<'buf, F, U>::set_intersect_function_owned,
                (b, f, data),
                change,
            ),
            CbKind::UserOccluded => call_ensures(
                GeometryBuilder::<'buf, F, U>::set_occluded_function_owned,
                (b, f, data),
                change,
            ),
            CbKind::Displacement => call_ensures(
                GeometryBuilder::<'buf, F, U>::set_displacement_function_owned,
                (b, f, data),
                change,
            ),
        },
    ensures
        ({
            let accepted = match kind {
                CbKind::UserBounds | CbKind::UserIntersect | CbKind::UserOccluded => old(
                    b,
                ).shared.kind is USER,
                CbKind::Displacement => old(b).shared.kind is SUBDIVISION,
                _ => true,
            };
            let geometry = old(b).shared.handle;
            &&& accepted ==> {
                &&& change.call == Some(
                    match kind {
                        CbKind::IntersectFilter => NativeCall::SetGeometryIntersectFilterFunction {
                            geometry,
                            registered: true,
                        },
                        CbKind::OccludedFilter => NativeCall::SetGeometryOccludedFilterFunction {
                            geometry,
                            registered: true,
                        },
                        CbKind::UserBounds => NativeCall::SetGeometryBoundsFunction {
                            geometry,
                            registered: true,
                        },
                        CbKind::UserIntersect => NativeCall::SetGeometryIntersectFunction {
                            geometry,
                            registered: true,
                        },
                        CbKind::UserOccluded => NativeCall::SetGeometryOccludedFunction {
                            geometry,
                            registered: true,
                        },
                        CbKind::Displacement => NativeCall::SetGeometryDisplacementFunction {
                            geometry,
                            registered: true,
                        },
                    },
                )
                &&& change.released == old(b).shared.call_site.slot(kind)
                &&& final(b).shared.call_site.slot(kind).closure == Some(f)
                &&& final(b).shared.call_site.slot(kind).user_data == UserBinding::Owned(data)
                &&& forall|other: CbKind|
                    other != kind ==> #[trigger] final(b).shared.call_site.slot(other) == old(
                        b,
                    ).shared.call_site.slot(other)
                &&& final(b).shared.attachments == old(b).shared.attachments
                &&& final(b).shared.kind == old(b).shared.kind
                &&& final(b).shared.handle == old(b).shared.handle
            }
            &&& !accepted ==> {
                &&& change.call is None
                &&& change.released.closure == Some(f)
                &&& change.released.user_data == UserBinding::Owned(data)
                &&& *final(b) == *old(b)
            }
        }),
{
}

/// The same for a callback with data that the application keeps.
pub proof fn lemma_callbacks_borrow_their_data<'buf, F, U>(
    b: &mut GeometryBuilder<'buf, F, U>,
    kind: CbKind,
    f: F,
    data: U,
    change: CallbackChange<F, U>,
)
    requires
        match kind {
            CbKind::IntersectFilter => call_ensures(
                GeometryBuilder::<'buf, F, U>::set_intersect_filter_function_borrowed,
                (b, f, data),
                change,
            ),
            CbKind::OccludedFilter => call_ensures(
                GeometryBuilder::<'buf, F, U>::set_occluded_filter_function_borrowed,
                (b, f, data),
                change,
            ),
            CbKind::UserBounds => call_ensures(
                GeometryBuilder::<'buf, F, U>::set_bounds_function_borrowed,
                (b, f, data),
                change,
            ),
            CbKind::UserIntersect => call_ensures(
                GeometryBuilder::<'buf, F, U>::set_intersect_function_borrowed,
                (b, f, data),
                change,
            ),
            CbKind::UserOccluded => call_ensures(
                GeometryBuilder::<'buf, F, U>::set_occluded_function_borrowed,
                (b, f, data),
                change,
            ),
            CbKind::Displacement => call_ensures(
                GeometryBuilder::<'buf, F, U>::set_displacement_function_borrowed,
                (b, f, data),
                change,
            ),
        },
    ensures
        ({
            let accepted = match kind {
                CbKind::UserBounds | CbKind::UserIntersect | CbKind::UserOccluded => old(
                    b,
                ).shared.kind is USER,
                CbKind::Displacement => old(b).shared.kind is SUBDIVISION,
                _ => true,
            };
            let geometry = old(b).shared.handle;
            &&& accepted ==> {
                &&& change.call == Some(
                    match kind {
                        CbKind::IntersectFilter => NativeCall::SetGeometryIntersectFilterFunction {
                            geometry,
                            registered: true,
                        },
                        CbKind::OccludedFilter => NativeCall::SetGeometryOccludedFilterFunction {
                            geometry,
                            registered: true,
                        },
                        CbKind::UserBounds => NativeCall::SetGeometryBoundsFunction {
                            geometry,
                            registered: true,
                        },
                        CbKind::UserIntersect => NativeCall::SetGeometryIntersectFunction {
                            geometry,
                            registered: true,
                        },
                        CbKind::UserOccluded => NativeCall::SetGeometryOccludedFunction {
                            geometry,
                            registered: true,
                        },
                        CbKind::Displacement => NativeCall::SetGeometryDisplacementFunction {
                            geometry,
                            registered: true,
                        },
                    },
                )
                &&& change.released == old(b).shared.call_site.slot(kind)
                &&& final(b).shared.call_site.slot(kind).closure == Some(f)
                &&& final(b).shared.call_site.slot(kind).user_data == UserBinding::Borrowed(data)
                &&& forall|other: CbKind|
                    other != kind ==> #[trigger] final(b).shared.call_site.slot(other) == old(
                        b,
                    ).shared.call_site.slot(other)
                &&& final(b).shared.attachments == old(b).shared.attachments
                &&& final(b).shared.kind == old(b).shared.kind
                &&& final(b).shared.handle == old(b).shared.handle
            }
            &&& !accepted ==> {
                &&& change.call is None
                &&& change.released.closure == Some(f)
                &&& change.released.user_data == UserBinding::Borrowed(data)
                &&& *final(b) == *old(b)
            }
        }),
{
}

/// A callback that is unset leaves its own slot empty and comes back.
pub proof fn lemma_callbacks_leave_their_slots<'buf, F, U>(
    b: &mut GeometryBuilder<'buf, F, U>,
    kind: CbKind,
    change: CallbackChange<F, U>,
)
    requires
        match kind {
            CbKind::IntersectFilter => call_ensures(
                GeometryBuilder::<'buf, F, U>::unset_intersect_filter_function,
                (b,),
                change,
            ),
            CbKind::OccludedFilter => call_ensures(
                GeometryBuilder::<'buf, F, U>::unset_occluded_filter_function,
                (b,),
                change,
            ),
            CbKind::UserBounds => call_ensures(
                GeometryBuilder::<'buf, F, U>::unset_bounds_function,
                (b,),
                change,
            ),
            CbKind::UserIntersect => call_ensures(
                GeometryBuilder::<'buf, F, U>::unset_intersect_function,
                (b,),
                change,
            ),
            CbKind::UserOccluded => call_ensures(
                GeometryBuilder::<'buf, F, U>::unset_occluded_function,
                (b,),
                change,
            ),
            CbKind::Displacement => call_ensures(
                GeometryBuilder::<'buf, F, U>::unset_displacement_function,
                (b,),
                change,
            ),
        },
    ensures
        ({
            let accepted = match kind {
                CbKind::UserBounds | CbKind::UserIntersect | CbKind::UserOccluded => old(
                    b,
                ).shared.kind is USER,
                CbKind::Displacement => old(b).shared.kind is SUBDIVISION,
                _ => true,
            };
            let geometry = old(b).shared.handle;
            &&& accepted ==> {
                &&& change.call == Some(
                    match kind {
                        CbKind::IntersectFilter => NativeCall::SetGeometryIntersectFilterFunction {
                            geometry,
                            registered: false,
                        },
                        CbKind::OccludedFilter => NativeCall::SetGeometryOccludedFilterFunction {
                            geometry,
                            registered: false,
                        },
                        CbKind::UserBounds => NativeCall::SetGeometryBoundsFunction {
                            geometry,
                            registered: false,
                        },
                        CbKind::UserIntersect => NativeCall::SetGeometryIntersectFunction {
                            geometry,
                            registered: false,
                        },
                        CbKind::UserOccluded => NativeCall::SetGeometryOccludedFunction {
                            geometry,
                            registered: false,
                        },
                        CbKind::Displacement => NativeCall::SetGeometryDisplacementFunction {
                            geometry,
                            registered: false,
                        },
                    },
                )
                &&& change.released == old(b).shared.call_site.slot(kind)
                &&& final(b).shared.call_site.slot(kind).closure is None
                &&& final(b).shared.call_site.slot(kind).user_data == UserBinding::<U>::Unbound
                &&& forall|other: CbKind|
                    other != kind ==> #[trigger] final(b).shared.call_site.slot(other) == old(
                        b,
                    ).shared.call_site.slot(other)
                &&& final(b).shared.attachments == old(b).shared.attachments
                &&& final(b).shared.kind == old(b).shared.kind
                &&& final(b).shared.handle == old(b).shared.handle
            }
            &&& !accepted && !(kind is Displacement) ==> {
                &&& change.call is None
                &&& change.released.closure is None
                &&& *final(b) == *old(b)
            }
        }),
{
}

/// Data of the caller's is bound exactly if its layout can be read from it and from
/// where it lies: the elements fit their stride, a multiple of 4, and the data holds
/// them all, the last one up to a multiple of 16 bytes if they are vertices. The
/// native library is told what was given. What is refused changes nothing.
pub proof fn lemma_shared_data_is_bound_where_it_fits<'buf, F, U>(
    b: &mut GeometryBuilder<'buf, F, U>,
    usage: BufferUsage,
    slot: u32,
    format: Format,
    data: &'buf [u8],
    address: usize,
    stride: usize,
    count: usize,
    r: Result<SharedBinding<'buf>, Error>,
)
    requires
        call_ensures(
            GeometryBuilder::<'buf, F, U>::set_shared_buffer_at,
            (b, usage, slot, format, data, address, stride, count),
            r,
        ),
    ensures
        ({
            let refused = usage is VERTEX_ATTRIBUTE && (old(b).shared.kind is GRID || old(
                b,
            ).shared.kind is USER || old(b).shared.kind is INSTANCE);
            let element = crate::buffer::element_bytes(format);
            let last = if usage is VERTEX || usage is VERTEX_ATTRIBUTE {
                (element->Some_0 + 15) / 16 * 16
            } else {
                element->Some_0
            };
            let taken = (count - 1) * stride + last;
            let laid_out = {
                &&& element is Some && element->Some_0 <= stride && stride % 4 == 0
                &&& count > 0 && taken <= usize::MAX
            };
            &&& refused ==> r == Err::<SharedBinding<'buf>, Error>(Error::INVALID_OPERATION)
            &&& !refused ==> {
                &&& r is Ok <==> laid_out && address % 4 == 0 && taken <= data@.len()
                &&& r matches Err(e) ==> e == Error::INVALID_ARGUMENT
            }
            &&& r is Err ==> *final(b) == *old(b)
            &&& r matches Ok(binding) ==> {
                &&& binding.data@ == data@
                &&& binding.call == (NativeCall::SetSharedGeometryBuffer {
                    geometry: old(b).shared.handle,
                    usage,
                    slot,
                    format,
                    byte_offset: 0,
                    stride,
                    item_count: count,
                })
                &&& final(b).shared.attachments@[(usage, slot)] == (AttachedBuffer::Shared {
                    data,
                    layout: BufferLayout { format, stride, count },
                })
                &&& final(b).shared.handle == old(b).shared.handle
                &&& final(b).shared.kind == old(b).shared.kind
                &&& forall|key: BindingKey|
                    key != (usage, slot) && old(b).shared.attachments@.contains_key(key)
                        ==> final(b).shared.attachments@.contains_key(key)
                        && #[trigger] final(b).shared.attachments@[key]
                        == old(b).shared.attachments@[key]
                &&& !old(b).shared.attachments@.contains_key((usage, slot))
                    ==> binding.due@.len() == 0
            }
        }),
{
}

/// The same for a range of bytes of a native buffer, which has to start at a multiple
/// of 4 and to end within the buffer. The buffer is retained, and what was bound
/// before is released.
pub proof fn lemma_buffers_are_bound_where_they_fit<'buf, F, U>(
    b: &mut GeometryBuilder<'buf, F, U>,
    usage: BufferUsage,
    slot: u32,
    format: Format,
    buffer: &Buffer,
    range: ByteRange,
    stride: usize,
    count: usize,
    r: Result<Vec<NativeCall>, Error>,
)
    requires
        call_ensures(
            GeometryBuilder::<'buf, F, U>::set_managed_buffer,
            (b, usage, slot, format, buffer, range, stride, count),
            r,
        ),
        range.representable(),
    ensures
        ({
            let refused = usage is VERTEX_ATTRIBUTE && (old(b).shared.kind is GRID || old(
                b,
            ).shared.kind is USER || old(b).shared.kind is INSTANCE);
            let element = crate::buffer::element_bytes(format);
            let last = if usage is VERTEX || usage is VERTEX_ATTRIBUTE {
                (element->Some_0 + 15) / 16 * 16
            } else {
                element->Some_0
            };
            let taken = (count - 1) * stride + last;
            let laid_out = {
                &&& element is Some && element->Some_0 <= stride && stride % 4 == 0
                &&& count > 0 && taken <= usize::MAX
            };
            let size = buffer.size.value();
            let start = match range.start {
                Bound::Included(n) => n as int,
                Bound::Excluded(n) => n + 1,
                Bound::Unbounded => 0,
            };
            let end = match range.end {
                Bound::Included(n) => n + 1,
                Bound::Excluded(n) => n as int,
                Bound::Unbounded => size as int,
            };
            &&& refused ==> r == Err::<Vec<NativeCall>, Error>(Error::INVALID_OPERATION)
            &&& !refused ==> {
                &&& r is Ok <==> laid_out && start % 4 == 0 && start + taken <= end <= size
                &&& r matches Err(e) ==> e == Error::INVALID_ARGUMENT
            }
            &&& r is Err ==> *final(b) == *old(b)
            &&& r matches Ok(calls) ==> {
                &&& calls@.len() >= 2
                &&& calls@[0] == (NativeCall::SetGeometryBuffer {
                    geometry: old(b).shared.handle,
                    usage,
                    slot,
                    format,
                    buffer: buffer.handle,
                    byte_offset: start as usize,
                    stride,
                    item_count: count,
                })
                &&& calls@[1] == (NativeCall::RetainBuffer { buffer: buffer.handle })
                &&& final(b).shared.attachments@[(usage, slot)] == (AttachedBuffer::Managed {
                    buffer: *buffer,
                    byte_offset: start as usize,
                    layout: BufferLayout { format, stride, count },
                })
                &&& old(b).shared.attachments@.contains_key((usage, slot)) && old(
                    b,
                ).shared.attachments@[(usage, slot)] is Managed ==> calls@.len() == 3 && calls@[2]
                    == (NativeCall::ReleaseBuffer {
                    buffer: old(b).shared.attachments@[(usage, slot)]->buffer.handle,
                })
                &&& final(b).shared.handle == old(b).shared.handle
                &&& final(b).shared.kind == old(b).shared.kind
                &&& forall|key: BindingKey|
                    key != (usage, slot) && old(b).shared.attachments@.contains_key(key)
                        ==> final(b).shared.attachments@.contains_key(key)
                        && #[trigger] final(b).shared.attachments@[key]
                        == old(b).shared.attachments@[key]
                &&& !old(b).shared.attachments@.contains_key((usage, slot))
                    ==> calls@.len() - 2 == 0
            }
        }),
{
    assert(range.first() % 4 == 0 <==> match range.start {
        Bound::Included(n) => n as int % 4 == 0,
        Bound::Excluded(n) => (n + 1) % 4 == 0,
        Bound::Unbounded => true,
    });
}

/// New storage is asked for exactly if its layout is sound, its size can be counted,
/// and whole elements of `T` make it up; the request changes nothing.
pub proof fn lemma_storage_is_asked_for_where_it_fits<'buf, F, U, T>(
    b: &mut GeometryBuilder<'buf, F, U>,
    usage: BufferUsage,
    slot: u32,
    format: Format,
    stride: usize,
    count: usize,
    r: Result<NativeCall, Error>,
)
    requires
        call_ensures(
            GeometryBuilder::<'buf, F, U>::set_new_buffer::<T>,
            (b, usage, slot, format, stride, count),
            r,
        ),
    ensures
        ({
            let refused = usage is VERTEX_ATTRIBUTE && (old(b).shared.kind is GRID || old(
                b,
            ).shared.kind is USER || old(b).shared.kind is INSTANCE);
            let element = crate::buffer::element_bytes(format);
            let last = if usage is VERTEX || usage is VERTEX_ATTRIBUTE {
                (element->Some_0 + 15) / 16 * 16
            } else {
                element->Some_0
            };
            let taken = (count - 1) * stride + last;
            let laid_out = {
                &&& element is Some && element->Some_0 <= stride && stride % 4 == 0
                &&& count > 0 && taken <= usize::MAX
            };
            let t = vstd::layout::size_of::<T>() as int;
            &&& *final(b) == *old(b)
            &&& refused ==> r == Err::<NativeCall, Error>(Error::INVALID_OPERATION)
            &&& !refused ==> {
                &&& r is Ok <==> laid_out && stride * count <= usize::MAX && t > 0 && (stride
                    * count) % t == 0
                &&& r matches Err(e) ==> e == Error::INVALID_ARGUMENT
            }
            &&& r matches Ok(call) ==> call == (NativeCall::SetNewGeometryBuffer {
                geometry: old(b).shared.handle,
                usage,
                slot,
                format,
                stride,
                item_count: count,
            })
        }),
{
}

/// Storage that the native library allocated is bound with the size that was asked
/// for, and hands out as many elements of `T` as it holds; where it could not be
/// allocated the device's error comes back, and misaligned storage is refused.
pub proof fn lemma_allocated_storage_is_bound<'buf, F, U, T>(
    b: &mut GeometryBuilder<'buf, F, U>,
    usage: BufferUsage,
    slot: u32,
    format: Format,
    stride: usize,
    count: usize,
    address: usize,
    error: Error,
    r: Result<(usize, Vec<NativeCall>), Error>,
)
    requires
        call_ensures(
            GeometryBuilder::<'buf, F, U>::bind_new_buffer::<T>,
            (b, usage, slot, format, stride, count, address, error),
            r,
        ),
        old(b).storage_for::<T>(usage, format, stride, count) is Ok,
    ensures
        ({
            &&& r is Ok <==> address != 0 && address as nat % vstd::layout::align_of::<T>() == 0
            &&& address == 0 ==> r == Err::<(usize, Vec<NativeCall>), Error>(error)
            &&& address != 0 && r is Err ==> r == Err::<(usize, Vec<NativeCall>), Error>(
                Error::INVALID_ARGUMENT,
            )
            &&& r is Err ==> *final(b) == *old(b)
            &&& r matches Ok((items, due)) ==> {
                let bound = final(b).shared.attachments@[(usage, slot)];
                &&& items * vstd::layout::size_of::<T>() == stride * count
                &&& bound is Local
                &&& bound->address == address
                &&& bound->size.value() == stride * count
                &&& bound->Local_layout == (BufferLayout { format, stride, count })
                &&& final(b).shared.handle == old(b).shared.handle
                &&& final(b).shared.kind == old(b).shared.kind
                &&& forall|key: BindingKey|
                    key != (usage, slot) && old(b).shared.attachments@.contains_key(key)
                        ==> final(b).shared.attachments@.contains_key(key)
                        && #[trigger] final(b).shared.attachments@[key]
                        == old(b).shared.attachments@[key]
                &&& !old(b).shared.attachments@.contains_key((usage, slot))
                    ==> due@.len() == 0
            }
        }),
{
    let t = vstd::layout::size_of::<T>() as int;
    vstd::arithmetic::div_mod::lemma_fundamental_div_mod(stride * count, t);
    assert((stride * count / t) * t == t * (stride * count / t)) by (nonlinear_arith);
}

/// A new geometry has the kind that was asked for, nothing bound and no callback; a mesh
/// builder makes its own kind.
pub proof fn lemma_new_geometries_are_bare<'buf, F, U>(
    device: &Device,
    kind: GeometryKind,
    handle: usize,
    request: NativeCall,
    r: (GeometryBuilder<'buf, F, U>, NativeCall),
    triangles: (TriangleMeshBuilder<'buf, F, U>, NativeCall),
    quads: (QuadMeshBuilder<'buf, F, U>, NativeCall),
    user: (UserGeometryBuilder<'buf, F, U>, NativeCall),
    instance: (InstanceGeometryBuilder<'buf, F, U>, NativeCall),
    key: BindingKey,
    k: CbKind,
)
    requires
        call_ensures(Geometry::request, (device, kind), request),
        call_ensures(Geometry::new::<F, U>, (device, kind, handle), r),
        call_ensures(TriangleMeshBuilder::<'buf, F, U>::new, (device, handle), triangles),
        call_ensures(QuadMeshBuilder::<'buf, F, U>::new, (device, handle), quads),
        call_ensures(UserGeometryBuilder::<'buf, F, U>::new, (device, handle), user),
        call_ensures(InstanceGeometryBuilder::<'buf, F, U>::new, (device, handle), instance),
    ensures
        request == (NativeCall::NewGeometry { device: device.handle, kind }),
        r.0.shared.kind == kind,
        r.0.shared.handle == handle,
        r.0.shared.device == *device,
        !r.0.shared.attachments@.contains_key(key),
        r.0.shared.call_site.slot(k).closure is None,
        r.0.shared.call_site.slot(k).user_data == UserBinding::<U>::Unbound,
        r.1 == (NativeCall::SetGeometryUserData { geometry: handle }),
        triangles.0.0.shared.kind is TRIANGLE && triangles.0.0.shared.handle == handle,
        quads.0.0.shared.kind is QUAD && quads.0.0.shared.handle == handle,
        user.0.0.shared.kind is USER && user.0.0.shared.handle == handle,
        instance.0.0.shared.kind is INSTANCE && instance.0.0.shared.handle == handle,
{
}

/// A committed geometry has one handle and the state it was built with. Every handle
/// that is taken counts, and only the last one that is left can be edited again, with
/// that state.
pub proof fn lemma_only_the_last_handle_is_edited<'buf, F, U>(
    b: GeometryBuilder<'buf, F, U>,
    g: Geometry,
    store: &mut GeometryStore<'buf, F, U>,
    committed: (Geometry, NativeCall),
    copy: Geometry,
    edit: Result<GeometryBuilder<'buf, F, U>, Geometry>,
)
    requires
        old(store).wf(),
        old(store).next() < u64::MAX,
        old(store).has(&g),
        old(store)@[g.ident()].owners < u64::MAX,
    ensures
        call_ensures(GeometryBuilder::<'buf, F, U>::commit, (b, store), committed) ==> {
            let ident = committed.0.ident();
            &&& !old(store)@.contains_key(ident) && final(store)@.contains_key(ident)
            &&& final(store)@[ident].owners == 1
            &&& final(store)@[ident].shared == b.shared
            &&& committed.0.native() == b.shared.handle
            &&& committed.0.geometry_kind() == b.shared.kind
            &&& committed.1 == (NativeCall::CommitGeometry { geometry: b.shared.handle })
        },
        call_ensures(Geometry::retain::<F, U>, (&g, store), copy) ==> {
            &&& copy == g
            &&& final(store)@[g.ident()].owners == old(store)@[g.ident()].owners + 1
            &&& final(store)@[g.ident()].shared == old(store)@[g.ident()].shared
        },
        call_ensures(Geometry::try_edit::<F, U>, (g, store), edit) ==> {
            &&& edit is Ok <==> old(store)@[g.ident()].owners == 1
            &&& edit matches Ok(again) ==> again.shared == old(store)@[g.ident()].shared
            &&& edit is Ok ==> !final(store)@.contains_key(g.ident())
            &&& edit matches Err(same) ==> same == g && final(store)@ == old(store)@
        },
{
}

/// What is found in a slot is what was bound there, with a reference of the buffer if
/// it is one; storage of the geometry's own can be looked at where whole elements of
/// `T` make it up and lie at a multiple of their alignment.
pub proof fn lemma_bound_buffers_are_found<'buf, F, U, T>(
    b: &GeometryBuilder<'buf, F, U>,
    usage: BufferUsage,
    slot: u32,
    address: usize,
    source: (Option<BufferSource<'buf>>, Option<NativeCall>),
    mapped: Result<(usize, usize), Error>,
)
    requires
        call_ensures(GeometryBuilder::<'buf, F, U>::get_buffer, (b, usage, slot), source),
        call_ensures(
            GeometryBuilder::<'buf, F, U>::map_buffer::<T>,
            (b, usage, slot, address),
            mapped,
        ),
    ensures
        ({
            let found = b.shared.attachments@.contains_key((usage, slot));
            let bound = b.shared.attachments@[(usage, slot)];
            let t = vstd::layout::size_of::<T>();
            &&& source.0 is Some <==> found
            &&& source.1 is Some <==> found && bound is Managed
            &&& found && bound is Managed ==> {
                &&& source.0->Some_0 is Managed
                &&& source.0->Some_0->buffer == bound->buffer
                &&& source.0->Some_0->byte_offset == bound->byte_offset
                &&& source.0->Some_0->Managed_layout == bound->Managed_layout
                &&& source.1 == Some(NativeCall::RetainBuffer { buffer: bound->buffer.handle })
            }
            &&& found && bound is Shared ==> {
                &&& source.0->Some_0 is Shared
                &&& source.0->Some_0->data == bound->data
                &&& source.0->Some_0->Shared_layout == bound->Shared_layout
            }
            &&& found && bound is Local ==> {
                &&& source.0->Some_0 is Local
                &&& source.0->Some_0->size == bound->size
                &&& source.0->Some_0->Local_layout == bound->Local_layout
            }
            &&& mapped is Ok <==> {
                &&& found && bound is Local
                &&& address != 0 && t > 0
                &&& bound->size.value() % t == 0
                &&& address as nat % vstd::layout::align_of::<T>() == 0
            }
            &&& mapped matches Ok((at, items)) ==> at == address && items * t
                == bound->size.value()
            &&& mapped matches Err(e) ==> e == Error::INVALID_ARGUMENT
        }),
{
    let t = vstd::layout::size_of::<T>() as int;
    let bound = b.shared.attachments@[(usage, slot)];
    if mapped is Ok {
        let size = bound->size.value() as int;
        vstd::arithmetic::div_mod::lemma_fundamental_div_mod(size, t);
        assert((size / t) * t == t * (size / t)) by (nonlinear_arith);
    }
}

/// A slice is bound as one element for each whole item of it, as data with that stride and
/// number of elements would be. Where the data lies at an unknown place it is bound only
/// if all that can be told beforehand is right.
pub proof fn lemma_slices_are_bound_item_by_item<'buf, F, U, T>(
    b: &mut GeometryBuilder<'buf, F, U>,
    usage: BufferUsage,
    slot: u32,
    format: Format,
    data: &'buf [u8],
    address: usize,
    items: nat,
    stride: usize,
    count: usize,
    slice: Result<SharedBinding<'buf>, Error>,
    anywhere: Result<SharedBinding<'buf>, Error>,
)
    requires
        data@.len() == items * vstd::layout::size_of::<T>(),
        0 < vstd::layout::size_of::<T>() <= usize::MAX,
        data@.len() <= usize::MAX,
    ensures
        call_ensures(
            GeometryBuilder::<'buf, F, U>::set_shared_slice::<T>,
            (b, usage, slot, format, data, address),
            slice,
        ) ==> {
            let element = crate::buffer::element_bytes(format);
            let plain = !(usage is VERTEX) && !(usage is VERTEX_ATTRIBUTE);
            &&& plain && items > 0 && address % 4 == 0 && vstd::layout::size_of::<T>() % 4 == 0
                && element == Some(vstd::layout::size_of::<T>()) ==> slice is Ok
            &&& slice matches Err(_) ==> *final(b) == *old(b)
            &&& slice matches Ok(binding) ==> {
                &&& element is Some && element->Some_0 <= vstd::layout::size_of::<T>()
                &&& items > 0 && address % 4 == 0 && vstd::layout::size_of::<T>() % 4 == 0
                &&& binding.call == (NativeCall::SetSharedGeometryBuffer {
                    geometry: old(b).shared.handle,
                    usage,
                    slot,
                    format,
                    byte_offset: 0,
                    stride: vstd::layout::size_of::<T>() as usize,
                    item_count: items as usize,
                })
                &&& binding.data@ == data@
            }
        },
        call_ensures(
            GeometryBuilder::<'buf, F, U>::set_shared_buffer,
            (b, usage, slot, format, data, stride, count),
            anywhere,
        ) ==> {
            let refused = usage is VERTEX_ATTRIBUTE && (old(b).shared.kind is GRID || old(
                b,
            ).shared.kind is USER || old(b).shared.kind is INSTANCE);
            let element = crate::buffer::element_bytes(format);
            let last = if usage is VERTEX || usage is VERTEX_ATTRIBUTE {
                (element->Some_0 + 15) / 16 * 16
            } else {
                element->Some_0
            };
            let taken = (count - 1) * stride + last;
            let laid_out = {
                &&& element is Some && element->Some_0 <= stride && stride % 4 == 0
                &&& count > 0 && taken <= usize::MAX
            };
            &&& refused ==> anywhere == Err::<SharedBinding<'buf>, Error>(Error::INVALID_OPERATION)
            &&& !refused && anywhere is Err ==> anywhere->Err_0 == Error::INVALID_ARGUMENT
            &&& anywhere is Err ==> *final(b) == *old(b)
            &&& anywhere matches Ok(binding) ==> {
                &&& laid_out && taken <= data@.len()
                &&& binding.data@ == data@
                &&& binding.call == (NativeCall::SetSharedGeometryBuffer {
                    geometry: old(b).shared.handle,
                    usage,
                    slot,
                    format,
                    byte_offset: 0,
                    stride,
                    item_count: count,
                })
            }
        },
{
    lemma_items_are_the_whole_ones(data@.len(), vstd::layout::size_of::<T>(), items);
    let t = vstd::layout::size_of::<T>();
    assert(items * t == (items - 1) * t + t) by (nonlinear_arith);
}

/// Items `first` to `past` of a native buffer are bound as one element each, from the
/// first one's byte on, with the items' size for a stride.
pub proof fn lemma_items_of_buffers_are_bound<'buf, F, U, T>(
    b: &mut GeometryBuilder<'buf, F, U>,
    usage: BufferUsage,
    slot: u32,
    format: Format,
    buffer: &Buffer,
    first: usize,
    past: usize,
    r: Result<Vec<NativeCall>, Error>,
)
    requires
        call_ensures(
            GeometryBuilder::<'buf, F, U>::set_managed_slice::<T>,
            (
                b,
                usage,
                slot,
                format,
                buffer,
                ByteRange { start: Bound::Included(first), end: Bound::Excluded(past) },
            ),
            r,
        ),
        vstd::layout::size_of::<T>() <= usize::MAX,
        first < past,
    ensures
        ({
            let t = vstd::layout::size_of::<T>();
            let element = crate::buffer::element_bytes(format);
            let plain = !(usage is VERTEX) && !(usage is VERTEX_ATTRIBUTE);
            &&& plain && t % 4 == 0 && element == Some(t) && past * t <= buffer.size.value()
                && buffer.size.value() <= usize::MAX ==> r is Ok
            &&& r is Err ==> *final(b) == *old(b)
            &&& r matches Ok(calls) ==> {
                &&& element is Some && element->Some_0 <= t && t % 4 == 0
                &&& past * t <= buffer.size.value()
                &&& calls@.len() >= 2
                &&& calls@[0] == (NativeCall::SetGeometryBuffer {
                    geometry: old(b).shared.handle,
                    usage,
                    slot,
                    format,
                    buffer: buffer.handle,
                    byte_offset: (first * t) as usize,
                    stride: t as usize,
                    item_count: (past - first) as usize,
                })
                &&& calls@[1] == (NativeCall::RetainBuffer { buffer: buffer.handle })
            }
        }),
{
    let t = vstd::layout::size_of::<T>();
    let count = past - first;
    assert(count * t == (count - 1) * t + t) by (nonlinear_arith);
    assert(past * t == first * t + count * t) by (nonlinear_arith)
        requires
            count == past - first,
    ;
    assert(first * t >= 0) by (nonlinear_arith);
    if t % 4 == 0 {
        let q = t as int / 4;
        assert(first * t == 4 * (first * q)) by (nonlinear_arith)
            requires
                t == 4 * q,
        ;
        vstd::arithmetic::div_mod::lemma_mod_multiples_basic(first * q, 4);
        assert(4 * (first * q) == (first * q) * 4) by (nonlinear_arith);
    }
}

/// What a committed geometry has bound, owns and is, is what its store keeps for it; a
/// store knows its own geometries and no others.
pub proof fn lemma_stores_answer_for_their_geometries<'buf, F, U, T>(
    g: &Geometry,
    store: &GeometryStore<'buf, F, U>,
    usage: BufferUsage,
    slot: u32,
    address: usize,
    k: CbKind,
    source: (Option<BufferSource<'buf>>, Option<NativeCall>),
    mapped: Result<(usize, usize), Error>,
    data: Option<&U>,
    known: bool,
    room: bool,
    entry: Option<&Committed<'buf, F, U>>,
)
    requires
        store.has(g),
        call_ensures(Geometry::get_buffer::<F, U>, (g, store, usage, slot), source),
        call_ensures(Geometry::map_buffer::<F, U, T>, (g, store, usage, slot, address), mapped),
        call_ensures(Geometry::callback_data::<F, U>, (g, store, k), data),
        call_ensures(GeometryStore::<'buf, F, U>::contains, (store, g), known),
        call_ensures(GeometryStore::<'buf, F, U>::has_room, (store,), room),
        call_ensures(GeometryStore::<'buf, F, U>::get, (store, g.ident()), entry),
    ensures
        ({
            let shared = store@[g.ident()].shared;
            let found = shared.attachments@.contains_key((usage, slot));
            let bound = shared.attachments@[(usage, slot)];
            &&& known
            &&& shared.handle == g.native() && shared.kind == g.geometry_kind()
            &&& entry is Some && *entry->Some_0 == store@[g.ident()]
            &&& room <==> store.next() < 0xffff_ffff_ffff_ffffu64
            &&& source.0 is Some <==> found
            &&& source.1 is Some <==> found && bound is Managed
            &&& mapped is Ok ==> found && bound is Local && mapped->Ok_0.0 == address
            &&& mapped matches Err(e) ==> e == Error::INVALID_ARGUMENT
            &&& data is Some <==> shared.call_site.slot(k).user_data is Owned
            &&& data matches Some(u) ==> shared.call_site.slot(k).user_data
                == UserBinding::Owned(*u)
        }),
{
}

/// Own storage is located by the native call of its slot, and nothing else is; a
/// transformation is asked for at the time that is given, as a column-major matrix.
pub proof fn lemma_storage_and_transforms_are_asked_for<'buf, F, U>(
    shared: &GeometryShared<'buf, F, U>,
    usage: BufferUsage,
    slot: u32,
    r: Result<NativeCall, Error>,
    g: &mut Geometry,
    time: Real,
    call: NativeCall,
    handle: usize,
    kind: GeometryKind,
)
    ensures
        call_ensures(
            GeometryShared::<'buf, F, U>::map_local_request,
            (shared, usage, slot),
            r,
        ) ==> {
            let found = shared.attachments@.contains_key((usage, slot));
            &&& r is Ok <==> found && shared.attachments@[(usage, slot)] is Local
            &&& r matches Err(e) ==> e == Error::INVALID_ARGUMENT
            &&& r matches Ok(c) ==> c == (NativeCall::GetGeometryBufferData {
                geometry: shared.handle,
                usage,
                slot,
            })
        },
        call_ensures(Geometry::get_transform, (g, time), call) ==> {
            &&& *final(g) == *old(g)
            &&& call == (NativeCall::GetGeometryTransform {
                geometry: old(g).native(),
                time,
                format: Format::FLOAT4X4_COLUMN_MAJOR,
            })
        },
        call_ensures(Geometry::handle, (old(g),), handle) ==> handle == old(g).native(),
        call_ensures(Geometry::kind, (old(g),), kind) ==> kind == old(g).geometry_kind(),
{
}

} // verus!
