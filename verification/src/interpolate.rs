//! Interpolation of vertex data over a geometry.

use vstd::prelude::*;

use crate::call::{InterpolateTargets, NativeCall};
use crate::geometry::Geometry;
use crate::sys::{BufferUsage, Real, REAL_ZERO};

verus! {

/// The arguments for the [`Geometry::interpolate`] function.
#[derive(Debug, Clone, Copy, PartialEq, Eq, Structural)]
pub struct InterpolateInput {
    pub prim_id: u32,
    pub u: Real,
    pub v: Real,
    pub usage: BufferUsage,
    pub slot: u32,
}

/// The arguments for the [`Geometry::interpolate_n`] function.
#[derive(Debug, Clone, Copy)]
pub struct InterpolateNInput<'a> {
    pub valid: Option<&'a [u32]>,
    pub prim_id: &'a [u32],
    pub u: &'a [Real],
    pub v: &'a [Real],
    pub usage: BufferUsage,
    pub slot: u32,
    pub n: u32,
}

/// A native interpolation of many points, and what it reads: for each point a
/// primitive and its coordinates, and the mask if one goes along.
#[derive(Debug, Clone, Copy)]
pub struct InterpolateNCall<'a> {
    pub call: NativeCall,
    pub valid: Option<&'a [u32]>,
    pub prim_id: &'a [u32],
    pub u: &'a [Real],
    pub v: &'a [Real],
}

/// What can be interpolated: a value, its first and its second derivatives.
#[derive(Debug, Clone, Copy, PartialEq, Eq, Structural)]
pub enum Attribute {
    P,
    DpDu,
    DpDv,
    DdpDuDu,
    DdpDvDv,
    DdpDuDv,
}

impl Attribute {
    /// Order of the derivative.
    pub open spec fn order(self) -> int {
        match self {
            Attribute::P => 0,
            Attribute::DpDu | Attribute::DpDv => 1,
            _ => 2,
        }
    }

    /// Position among the attributes of the same order.
    pub open spec fn position(self) -> int {
        match self {
            Attribute::P | Attribute::DpDu | Attribute::DdpDuDu => 0,
            Attribute::DpDv | Attribute::DdpDvDv => 1,
            Attribute::DdpDuDv => 2,
        }
    }
}

/// Which orders of derivatives are wanted.
#[derive(Debug, Clone, Copy, PartialEq, Eq, Structural)]
pub struct Orders {
    pub zeroth: bool,
    pub first: bool,
    pub second: bool,
}

impl Orders {
    /// Whether an attribute is wanted.
    pub open spec fn wants(self, a: Attribute) -> bool {
        if a.order() == 0 {
            self.zeroth
        } else if a.order() == 1 {
            self.first
        } else {
            self.second
        }
    }

    /// Number of attributes that are wanted of an order below `order`: one value,
    /// two first derivatives, three second derivatives.
    pub open spec fn below(self, order: int) -> int {
        (if order > 0 && self.zeroth {
            1int
        } else {
            0
        }) + (if order > 1 && self.first {
            2int
        } else {
            0
        }) + (if order > 2 && self.second {
            3int
        } else {
            0
        })
    }

    /// Number of attributes that are wanted before `a`.
    pub open spec fn before(self, a: Attribute) -> int {
        self.below(a.order()) + a.position()
    }

    /// Where the values of `a` begin, `count` values for each attribute.
    pub open spec fn offset(self, count: u32, a: Attribute) -> Option<u32> {
        if self.wants(a) {
            Some((self.before(a) * count) as u32)
        } else {
            None
        }
    }
}

/// The output of an interpolation: the values of the wanted attributes, one
/// attribute after the other.
#[derive(Debug)]
pub struct InterpolateOutput {
    /// The interpolated values.
    pub buffer: Vec<Real>,
    /// The offset of each attribute, and the number of values of each.
    pub targets: InterpolateTargets,
}

impl InterpolateOutput {
    /// Where the values of `a` begin in the buffer.
    pub open spec fn offset(&self, a: Attribute) -> Option<u32> {
        match a {
            Attribute::P => self.targets.p,
            Attribute::DpDu => self.targets.dp_du,
            Attribute::DpDv => self.targets.dp_dv,
            Attribute::DdpDuDu => self.targets.ddp_du_du,
            Attribute::DdpDvDv => self.targets.ddp_dv_dv,
            Attribute::DdpDuDv => self.targets.ddp_du_dv,
        }
    }

    /// The values of every attribute lie within the buffer.
    pub open spec fn wf(&self) -> bool {
        forall|a: Attribute| #[trigger]
            self.offset(a) matches Some(o) ==> o + self.targets.value_count <= self.buffer@.len()
                && o + self.targets.value_count <= u32::MAX
    }

    /// The values of `a`.
    pub open spec fn values(&self, a: Attribute) -> Option<Seq<Real>> {
        match self.offset(a) {
            Some(o) => Some(self.buffer@.subrange(o as int, o + self.targets.value_count)),
            None => None,
        }
    }

    /// Space for `count` values of each wanted attribute.
    pub fn new(count: u32, zeroth_order: bool, first_order: bool, second_order: bool) -> (r: Self)
        requires
            count > 0,
            zeroth_order || first_order || second_order,
            ({
                let orders = Orders {
                    zeroth: zeroth_order,
                    first: first_order,
                    second: second_order,
                };
                (orders.below(3) + 1) * count <= u32::MAX
            }),
        ensures
            ({
                let orders = Orders {
                    zeroth: zeroth_order,
                    first: first_order,
                    second: second_order,
                };
                &&& r.wf()
                &&& r.targets.value_count == count
                &&& forall|a: Attribute| #[trigger] r.offset(a) == orders.offset(count, a)
                &&& r.buffer@ == Seq::new(
                    ((orders.below(3) + 1) * count) as nat,
                    |i: int| REAL_ZERO,
                )
            }),
    {
        let ghost orders = Orders {
            zeroth: zeroth_order,
            first: first_order,
            second: second_order,
        };
        proof {
            lemma_multiple(orders.below(3) + 1, count as int);
            assert forall|a: Attribute| #[trigger] orders.wants(a) implies is_multiple(
                orders.before(a),
                count as int,
            ) by {
                lemma_multiple(orders.before(a), count as int);
            }
        }
        let mut offset: u32 = 0;
        let p: Option<u32> = if zeroth_order {
            let o: u32 = offset;
            offset += count;
            Some(o)
        } else {
            None
        };
        let dp_du: Option<u32> = if first_order {
            let o: u32 = offset;
            offset += count;
            Some(o)
        } else {
            None
        };
        let dp_dv: Option<u32> = if first_order {
            let o: u32 = offset;
            offset += count;
            Some(o)
        } else {
            None
        };
        let ddp_du_du: Option<u32> = if second_order {
            let o: u32 = offset;
            offset += count;
            Some(o)
        } else {
            None
        };
        let ddp_dv_dv: Option<u32> = if second_order {
            let o: u32 = offset;
            offset += count;
            Some(o)
        } else {
            None
        };
        let ddp_du_dv: Option<u32> = if second_order {
            let o: u32 = offset;
            offset += count;
            Some(o)
        } else {
            None
        };
        let len: usize = (offset + count) as usize;
        InterpolateOutput {
            buffer: vec![REAL_ZERO; len],
            targets: InterpolateTargets {
                p,
                dp_du,
                dp_dv,
                ddp_du_du,
                ddp_dv_dv,
                ddp_du_dv,
                value_count: count,
            },
        }
    }

    /// The values at `offset`.
    fn range(&self, offset: u32) -> (s: &[Real])
        requires
            offset + self.targets.value_count <= self.buffer@.len(),
            offset + self.targets.value_count <= u32::MAX,
        ensures
            s@ == self.buffer@.subrange(offset as int, offset + self.targets.value_count),
    {
        let end: u32 = offset + self.targets.value_count;
        vstd::slice::slice_subrange(self.buffer.as_slice(), offset as usize, end as usize)
    }

    /// The values at `offset`, for writing. The other values stay.
    fn range_mut(&mut self, offset: u32) -> (s: &mut [Real])
        requires
            offset + old(self).targets.value_count <= old(self).buffer@.len(),
        ensures
            s@ == old(self).buffer@.subrange(
                offset as int,
                offset + old(self).targets.value_count,
            ),
            final(self).targets == old(self).targets,
            final(self).buffer@ == with_values(
                old(self).buffer@,
                offset,
                old(self).targets.value_count,
                final(s)@,
            ),
    {
        let count: usize = self.targets.value_count as usize;
        let (_, rest) = self.buffer.as_mut_slice().split_at_mut(offset as usize);
        let (values, _) = rest.split_at_mut(count);
        values
    }

    /// Returns the number of values per attribute.
    pub fn value_count(&self) -> (n: u32)
        ensures
            n == self.targets.value_count,
    {
        self.targets.value_count
    }

    /// Returns the interpolated value.
    pub fn p(&self) -> (r: Option<&[Real]>)
        requires
            self.wf(),
        ensures
            r is Some == self.values(Attribute::P) is Some,
            r matches Some(s) ==> self.values(Attribute::P) == Some(s@),
    {
        assert(self.offset(Attribute::P) == self.targets.p);
        match self.targets.p {
            Some(offset) => Some(self.range(offset)),
            None => None,
        }
    }

    /// Returns the interpolated value, for writing.
    pub fn p_mut(&mut self) -> (r: Option<&mut [Real]>)
        requires
            old(self).wf(),
        ensures
            final(self).targets == old(self).targets,
            r is Some == old(self).values(Attribute::P) is Some,
            match r {
                Some(s) => {
                    &&& old(self).values(Attribute::P) == Some(s@)
                    &&& final(self).buffer@ == with_values(
                        old(self).buffer@,
                        old(self).targets.p->Some_0,
                        old(self).targets.value_count,
                        final(s)@,
                    )
                },
                None => final(self).buffer@ == old(self).buffer@,
            },
    {
        assert(self.offset(Attribute::P) == self.targets.p);
        match self.targets.p {
            Some(offset) => Some(self.range_mut(offset)),
            None => None,
        }
    }

    /// Returns the interpolated first derivative by u.
    pub fn dp_du(&self) -> (r: Option<&[Real]>)
        requires
            self.wf(),
        ensures
            r is Some == self.values(Attribute::DpDu) is Some,
            r matches Some(s) ==> self.values(Attribute::DpDu) == Some(s@),
    {
        assert(self.offset(Attribute::DpDu) == self.targets.dp_du);
        match self.targets.dp_du {
            Some(offset) => Some(self.range(offset)),
            None => None,
        }
    }

    /// Returns the interpolated first derivative by u, for writing.
    pub fn dp_du_mut(&mut self) -> (r: Option<&mut [Real]>)
        requires
            old(self).wf(),
        ensures
            final(self).targets == old(self).targets,
            r is Some == old(self).values(Attribute::DpDu) is Some,
            match r {
                Some(s) => {
                    &&& old(self).values(Attribute::DpDu) == Some(s@)
                    &&& final(self).buffer@ == with_values(
                        old(self).buffer@,
                        old(self).targets.dp_du->Some_0,
                        old(self).targets.value_count,
                        final(s)@,
                    )
                },
                None => final(self).buffer@ == old(self).buffer@,
            },
    {
        assert(self.offset(Attribute::DpDu) == self.targets.dp_du);
        match self.targets.dp_du {
            Some(offset) => Some(self.range_mut(offset)),
            None => None,
        }
    }

    /// Returns the interpolated first derivative by v.
    pub fn dp_dv(&self) -> (r: Option<&[Real]>)
        requires
            self.wf(),
        ensures
            r is Some == self.values(Attribute::DpDv) is Some,
            r matches Some(s) ==> self.values(Attribute::DpDv) == Some(s@),
    {
        assert(self.offset(Attribute::DpDv) == self.targets.dp_dv);
        match self.targets.dp_dv {
            Some(offset) => Some(self.range(offset)),
            None => None,
        }
    }

    /// Returns the interpolated first derivative by v, for writing.
    pub fn dp_dv_mut(&mut self) -> (r: Option<&mut [Real]>)
        requires
            old(self).wf(),
        ensures
            final(self).targets == old(self).targets,
            r is Some == old(self).values(Attribute::DpDv) is Some,
            match r {
                Some(s) => {
                    &&& old(self).values(Attribute::DpDv) == Some(s@)
                    &&& final(self).buffer@ == with_values(
                        old(self).buffer@,
                        old(self).targets.dp_dv->Some_0,
                        old(self).targets.value_count,
                        final(s)@,
                    )
                },
                None => final(self).buffer@ == old(self).buffer@,
            },
    {
        assert(self.offset(Attribute::DpDv) == self.targets.dp_dv);
        match self.targets.dp_dv {
            Some(offset) => Some(self.range_mut(offset)),
            None => None,
        }
    }

    /// Returns the interpolated second derivative by u.
    pub fn ddp_du_du(&self) -> (r: Option<&[Real]>)
        requires
            self.wf(),
        ensures
            r is Some == self.values(Attribute::DdpDuDu) is Some,
            r matches Some(s) ==> self.values(Attribute::DdpDuDu) == Some(s@),
    {
        assert(self.offset(Attribute::DdpDuDu) == self.targets.ddp_du_du);
        match self.targets.ddp_du_du {
            Some(offset) => Some(self.range(offset)),
            None => None,
        }
    }

    /// Returns the interpolated second derivative by u, for writing.
    pub fn ddp_du_du_mut(&mut self) -> (r: Option<&mut [Real]>)
        requires
            old(self).wf(),
        ensures
            final(self).targets == old(self).targets,
            r is Some == old(self).values(Attribute::DdpDuDu) is Some,
            match r {
                Some(s) => {
                    &&& old(self).values(Attribute::DdpDuDu) == Some(s@)
                    &&& final(self).buffer@ == with_values(
                        old(self).buffer@,
                        old(self).targets.ddp_du_du->Some_0,
                        old(self).targets.value_count,
                        final(s)@,
                    )
                },
                None => final(self).buffer@ == old(self).buffer@,
            },
    {
        assert(self.offset(Attribute::DdpDuDu) == self.targets.ddp_du_du);
        match self.targets.ddp_du_du {
            Some(offset) => Some(self.range_mut(offset)),
            None => None,
        }
    }

    /// Returns the interpolated second derivative by v.
    pub fn ddp_dv_dv(&self) -> (r: Option<&[Real]>)
        requires
            self.wf(),
        ensures
            r is Some == self.values(Attribute::DdpDvDv) is Some,
            r matches Some(s) ==> self.values(Attribute::DdpDvDv) == Some(s@),
    {
        assert(self.offset(Attribute::DdpDvDv) == self.targets.ddp_dv_dv);
        match self.targets.ddp_dv_dv {
            Some(offset) => Some(self.range(offset)),
            None => None,
        }
    }

    /// Returns the interpolated second derivative by v, for writing.
    pub fn ddp_dv_dv_mut(&mut self) -> (r: Option<&mut [Real]>)
        requires
            old(self).wf(),
        ensures
            final(self).targets == old(self).targets,
            r is Some == old(self).values(Attribute::DdpDvDv) is Some,
            match r {
                Some(s) => {
                    &&& old(self).values(Attribute::DdpDvDv) == Some(s@)
                    &&& final(self).buffer@ == with_values(
                        old(self).buffer@,
                        old(self).targets.ddp_dv_dv->Some_0,
                        old(self).targets.value_count,
                        final(s)@,
                    )
                },
                None => final(self).buffer@ == old(self).buffer@,
            },
    {
        assert(self.offset(Attribute::DdpDvDv) == self.targets.ddp_dv_dv);
        match self.targets.ddp_dv_dv {
            Some(offset) => Some(self.range_mut(offset)),
            None => None,
        }
    }

    /// Returns the interpolated mixed second derivative.
    pub fn ddp_du_dv(&self) -> (r: Option<&[Real]>)
        requires
            self.wf(),
        ensures
            r is Some == self.values(Attribute::DdpDuDv) is Some,
            r matches Some(s) ==> self.values(Attribute::DdpDuDv) == Some(s@),
    {
        assert(self.offset(Attribute::DdpDuDv) == self.targets.ddp_du_dv);
        match self.targets.ddp_du_dv {
            Some(offset) => Some(self.range(offset)),
            None => None,
        }
    }

    /// Returns the interpolated mixed second derivative, for writing.
    pub fn ddp_du_dv_mut(&mut self) -> (r: Option<&mut [Real]>)
        requires
            old(self).wf(),
        ensures
            final(self).targets == old(self).targets,
            r is Some == old(self).values(Attribute::DdpDuDv) is Some,
            match r {
                Some(s) => {
                    &&& old(self).values(Attribute::DdpDuDv) == Some(s@)
                    &&& final(self).buffer@ == with_values(
                        old(self).buffer@,
                        old(self).targets.ddp_du_dv->Some_0,
                        old(self).targets.value_count,
                        final(s)@,
                    )
                },
                None => final(self).buffer@ == old(self).buffer@,
            },
    {
        assert(self.offset(Attribute::DdpDuDv) == self.targets.ddp_du_dv);
        match self.targets.ddp_du_dv {
            Some(offset) => Some(self.range_mut(offset)),
            None => None,
        }
    }
}

/// `k * n` for a small `k`, spelled out.
spec fn is_multiple(k: int, n: int) -> bool {
    &&& k == 0 ==> k * n == 0
    &&& k == 1 ==> k * n == n
    &&& k == 2 ==> k * n == n + n
    &&& k == 3 ==> k * n == n + n + n
    &&& k == 4 ==> k * n == n + n + n + n
    &&& k == 5 ==> k * n == n + n + n + n + n
    &&& k == 6 ==> k * n == n + n + n + n + n + n
    &&& k == 7 ==> k * n == n + n + n + n + n + n + n
}

proof fn lemma_multiple(k: int, n: int)
    ensures
        is_multiple(k, n),
{
}

/// `buffer` with the `count` values at `offset` replaced by `values`.
pub open spec fn with_values(
    buffer: Seq<Real>,
    offset: u32,
    count: u32,
    values: Seq<Real>,
) -> Seq<Real> {
    buffer.take(offset as int) + values + buffer.skip(offset + count)
}

impl Geometry {
    /// Smoothly interpolates per-vertex data over the geometry. The native
    /// library writes each wanted attribute to its place in the output.
    pub fn interpolate(&self, input: InterpolateInput, output: &mut InterpolateOutput) -> (call:
        NativeCall)
        ensures
            *final(output) == *old(output),
            call == (NativeCall::Interpolate {
                geometry: self.native(),
                prim_id: input.prim_id,
                u: input.u,
                v: input.v,
                usage: input.usage,
                slot: input.slot,
                targets: old(output).targets,
            }),
    {
        NativeCall::Interpolate {
            geometry: self.handle(),
            prim_id: input.prim_id,
            u: input.u,
            v: input.v,
            usage: input.usage,
            slot: input.slot,
            targets: output.targets,
        }
    }

    /// Performs N interpolations of vertex attribute data. N must be divisible by
    /// 4. Without a mask every coordinate is taken to be valid.
    pub fn interpolate_n<'a>(
        &self,
        input: InterpolateNInput<'a>,
        output: &mut InterpolateOutput,
    ) -> (r: InterpolateNCall<'a>)
        requires
            input.n % 4 == 0,
        ensures
            *final(output) == *old(output),
            r.valid == input.valid,
            r.prim_id == input.prim_id,
            r.u == input.u,
            r.v == input.v,
            r.call == (NativeCall::InterpolateN {
                geometry: self.native(),
                n: input.n,
                masked: input.valid is Some,
                usage: input.usage,
                slot: input.slot,
                targets: old(output).targets,
            }),
    {
        let call = NativeCall::InterpolateN {
            geometry: self.handle(),
            n: input.n,
            masked: input.valid.is_some(),
            usage: input.usage,
            slot: input.slot,
            targets: output.targets,
        };
        InterpolateNCall {
            call,
            valid: input.valid,
            prim_id: input.prim_id,
            u: input.u,
            v: input.v,
        }
    }
}

/// The values of two different attributes never overlap, and one attribute's
/// worth of space is left behind the last of them.
pub proof fn lemma_attributes_are_disjoint(orders: Orders, count: u32, a: Attribute, b: Attribute)
    requires
        count > 0,
        (orders.below(3) + 1) * count <= u32::MAX,
        orders.wants(a),
        orders.wants(b),
    ensures
        orders.offset(count, a)->Some_0 + count <= orders.below(3) * count,
        a != b ==> {
            ||| orders.offset(count, a)->Some_0 + count <= orders.offset(count, b)->Some_0
            ||| orders.offset(count, b)->Some_0 + count <= orders.offset(count, a)->Some_0
        },
{
    let (i, j, n) = (orders.before(a), orders.before(b), orders.below(3));
    assert(0 <= i < n && 0 <= j < n);
    assert(i * count + count <= n * count && j * count + count <= n * count && n * count + count
        == (n + 1) * count) by (nonlinear_arith)
        requires
            0 <= i < n,
            0 <= j < n,
    ;
    if i < j {
        assert(i * count + count <= j * count) by (nonlinear_arith)
            requires
                i < j,
        ;
    } else if j < i {
        assert(j * count + count <= i * count) by (nonlinear_arith)
            requires
                j < i,
        ;
    }
    assert(0 <= i * count && 0 <= j * count) by (nonlinear_arith)
        requires
            0 <= i,
            0 <= j,
    ;
}

/// Writing one attribute leaves the values of every other attribute as they were.
pub proof fn lemma_attributes_are_written_apart(
    pre: InterpolateOutput,
    post: InterpolateOutput,
    a: Attribute,
    b: Attribute,
    values: Seq<Real>,
)
    requires
        pre.wf(),
        pre.offset(a) is Some,
        pre.offset(b) is Some,
        values.len() == pre.targets.value_count,
        pre.offset(a)->Some_0 + pre.targets.value_count <= pre.offset(b)->Some_0
            || pre.offset(b)->Some_0 + pre.targets.value_count <= pre.offset(a)->Some_0,
        post.targets == pre.targets,
        post.buffer@ == with_values(
            pre.buffer@,
            pre.offset(a)->Some_0,
            pre.targets.value_count,
            values,
        ),
    ensures
        post.values(a) == Some(values),
        post.values(b) == pre.values(b),
{
    assert(post.values(a)->Some_0 =~= values);
    assert(post.values(b)->Some_0 =~= pre.values(b)->Some_0);
}

/// The wanted attributes lie one after the other, `count` values each: the value,
/// its derivatives by u and by v, then the second ones by u, by v, and by both. An
/// attribute that is not wanted takes no place.
pub proof fn lemma_attributes_lie_in_order(orders: Orders, count: u32)
    requires
        7 * count <= u32::MAX,
    ensures
        ({
            let zeroth = if orders.zeroth {
                count as int
            } else {
                0
            };
            let first = if orders.first {
                2 * count
            } else {
                0
            };
            &&& orders.offset(count, Attribute::P) == (if orders.zeroth {
                Some(0u32)
            } else {
                None
            })
            &&& orders.offset(count, Attribute::DpDu) is Some == orders.first
            &&& orders.offset(count, Attribute::DpDv) is Some == orders.first
            &&& orders.offset(count, Attribute::DdpDuDu) is Some == orders.second
            &&& orders.offset(count, Attribute::DdpDvDv) is Some == orders.second
            &&& orders.offset(count, Attribute::DdpDuDv) is Some == orders.second
            &&& orders.first ==> {
                &&& orders.offset(count, Attribute::DpDu)->Some_0 == zeroth
                &&& orders.offset(count, Attribute::DpDv)->Some_0 == zeroth + count
            }
            &&& orders.second ==> {
                &&& orders.offset(count, Attribute::DdpDuDu)->Some_0 == zeroth + first
                &&& orders.offset(count, Attribute::DdpDvDv)->Some_0 == zeroth + first + count
                &&& orders.offset(count, Attribute::DdpDuDv)->Some_0 == zeroth + first + 2 * count
            }
            &&& orders.below(3) * count == zeroth + first + (if orders.second {
                3 * count
            } else {
                0
            })
        }),
{
    lemma_multiple(orders.below(3), count as int);
    lemma_multiple(orders.before(Attribute::P), count as int);
    lemma_multiple(orders.before(Attribute::DpDu), count as int);
    lemma_multiple(orders.before(Attribute::DpDv), count as int);
    lemma_multiple(orders.before(Attribute::DdpDuDu), count as int);
    lemma_multiple(orders.before(Attribute::DdpDvDv), count as int);
    lemma_multiple(orders.before(Attribute::DdpDuDv), count as int);
}

/// Each attribute is read where the native library is told to write it.
pub proof fn lemma_attributes_are_read_where_written(output: InterpolateOutput, k: int)
    requires
        output.wf(),
        0 <= k < output.targets.value_count,
    ensures
        output.values(Attribute::P) is Some == output.targets.p is Some,
        output.values(Attribute::DpDu) is Some == output.targets.dp_du is Some,
        output.values(Attribute::DpDv) is Some == output.targets.dp_dv is Some,
        output.values(Attribute::DdpDuDu) is Some == output.targets.ddp_du_du is Some,
        output.values(Attribute::DdpDvDv) is Some == output.targets.ddp_dv_dv is Some,
        output.values(Attribute::DdpDuDv) is Some == output.targets.ddp_du_dv is Some,
        output.targets.p matches Some(o) ==> output.values(Attribute::P)->Some_0[k]
            == output.buffer@[o + k],
        output.targets.dp_du matches Some(o) ==> output.values(Attribute::DpDu)->Some_0[k]
            == output.buffer@[o + k],
        output.targets.dp_dv matches Some(o) ==> output.values(Attribute::DpDv)->Some_0[k]
            == output.buffer@[o + k],
        output.targets.ddp_du_du matches Some(o) ==> output.values(
            Attribute::DdpDuDu,
        )->Some_0[k] == output.buffer@[o + k],
        output.targets.ddp_dv_dv matches Some(o) ==> output.values(
            Attribute::DdpDvDv,
        )->Some_0[k] == output.buffer@[o + k],
        output.targets.ddp_du_dv matches Some(o) ==> output.values(
            Attribute::DdpDuDv,
        )->Some_0[k] == output.buffer@[o + k],
{
    assert(output.offset(Attribute::P) == output.targets.p);
    assert(output.offset(Attribute::DpDu) == output.targets.dp_du);
    assert(output.offset(Attribute::DpDv) == output.targets.dp_dv);
    assert(output.offset(Attribute::DdpDuDu) == output.targets.ddp_du_du);
    assert(output.offset(Attribute::DdpDvDv) == output.targets.ddp_dv_dv);
    assert(output.offset(Attribute::DdpDuDv) == output.targets.ddp_du_dv);
}

/// Writing the values of one attribute puts them at its offset and changes no other
/// word.
pub proof fn lemma_values_are_written_in_place(
    buffer: Seq<Real>,
    offset: u32,
    count: u32,
    values: Seq<Real>,
    j: int,
)
    requires
        offset + count <= buffer.len(),
        values.len() == count,
        0 <= j < buffer.len(),
    ensures
        with_values(buffer, offset, count, values).len() == buffer.len(),
        with_values(buffer, offset, count, values)[j] == (if offset <= j < offset + count {
            values[j - offset]
        } else {
            buffer[j]
        }),
{
}

/// The wanted attributes follow one another without a gap, `count` values each: the value
/// itself, then the first derivatives, then the second ones, of `u` twice before `v`
/// twice before both. What is not wanted has no place, and the space is all zero.
pub proof fn lemma_outputs_hold_the_attributes_in_order(
    count: u32,
    zeroth: bool,
    first: bool,
    second: bool,
    r: InterpolateOutput,
    i: int,
)
    requires
        call_ensures(InterpolateOutput::new, (count, zeroth, first, second), r),
        7 * count <= u32::MAX,
    ensures
        ({
            let t = r.targets;
            let p: int = if zeroth {
                1
            } else {
                0
            };
            let d: int = if first {
                2
            } else {
                0
            };
            let dd: int = if second {
                3
            } else {
                0
            };
            &&& t.value_count == count
            &&& t.p is Some <==> zeroth
            &&& t.dp_du is Some <==> first
            &&& t.dp_dv is Some <==> first
            &&& t.ddp_du_du is Some <==> second
            &&& t.ddp_dv_dv is Some <==> second
            &&& t.ddp_du_dv is Some <==> second
            &&& zeroth ==> t.p == Some(0u32)
            &&& first ==> t.dp_du->Some_0 == p * count && t.dp_dv->Some_0 == (p + 1) * count
            &&& second ==> t.ddp_du_du->Some_0 == (p + d) * count
            &&& second ==> t.ddp_dv_dv->Some_0 == (p + d + 1) * count
            &&& second ==> t.ddp_du_dv->Some_0 == (p + d + 2) * count
            &&& r.buffer@.len() == (p + d + dd + 1) * count
            &&& 0 <= i < r.buffer@.len() ==> r.buffer@[i] == 0
        }),
{
    assert(r.offset(Attribute::P) == r.targets.p);
    assert(r.offset(Attribute::DpDu) == r.targets.dp_du);
    assert(r.offset(Attribute::DpDv) == r.targets.dp_dv);
    assert(r.offset(Attribute::DdpDuDu) == r.targets.ddp_du_du);
    assert(r.offset(Attribute::DdpDvDv) == r.targets.ddp_dv_dv);
    assert(r.offset(Attribute::DdpDuDv) == r.targets.ddp_du_dv);
    let orders = Orders { zeroth, first, second };
    let p: int = if zeroth {
        1
    } else {
        0
    };
    let d: int = if first {
        2
    } else {
        0
    };
    let dd: int = if second {
        3
    } else {
        0
    };
    assert(orders.below(1) == p && orders.below(2) == p + d && orders.below(3) == p + d + dd);
    assert forall|k: int| 0 <= k <= 7 implies 0 <= #[trigger] (k * count) <= u32::MAX by {
        assert(0 <= k * count <= 7 * count) by (nonlinear_arith)
            requires
                0 <= k <= 7,
        ;
    }
    assert(0 * count == 0) by (nonlinear_arith);
}

/// An interpolation is asked for at the place, and of the buffer, that were given, and is
/// written where the output wants it. Several are asked for together, with the mask if
/// there is one.
pub proof fn lemma_interpolations_are_asked_for_as_given<'a>(
    g: &Geometry,
    one: InterpolateInput,
    many: InterpolateNInput<'a>,
    out: &mut InterpolateOutput,
    call: NativeCall,
    calls: InterpolateNCall<'a>,
)
    ensures
        call_ensures(Geometry::interpolate, (g, one, out), call) ==> {
            &&& *final(out) == *old(out)
            &&& call == (NativeCall::Interpolate {
                geometry: g.native(),
                prim_id: one.prim_id,
                u: one.u,
                v: one.v,
                usage: one.usage,
                slot: one.slot,
                targets: old(out).targets,
            })
        },
        call_ensures(Geometry::interpolate_n, (g, many, out), calls) ==> {
            &&& *final(out) == *old(out)
            &&& calls.prim_id == many.prim_id && calls.u == many.u && calls.v == many.v
            &&& calls.valid == many.valid
            &&& calls.call == (NativeCall::InterpolateN {
                geometry: g.native(),
                n: many.n,
                masked: many.valid is Some,
                usage: many.usage,
                slot: many.slot,
                targets: old(out).targets,
            })
        },
{
}

/// Each attribute is read where the output has its place, and written there; what is
/// written to one leaves the others.
pub proof fn lemma_attributes_are_read_at_their_places(
    out: &InterpolateOutput,
    r: Option<&[Real]>,
    i: int,
)
    requires
        out.wf(),
        0 <= i < out.targets.value_count,
    ensures
        call_ensures(InterpolateOutput::p, (out,), r) ==> {
            &&& r is Some <==> out.targets.p is Some
            &&& r matches Some(s) ==> s@.len() == out.targets.value_count && s@[i]
                == out.buffer@[out.targets.p->Some_0 + i]
        },
        call_ensures(InterpolateOutput::dp_du, (out,), r) ==> {
            &&& r is Some <==> out.targets.dp_du is Some
            &&& r matches Some(s) ==> s@.len() == out.targets.value_count && s@[i]
                == out.buffer@[out.targets.dp_du->Some_0 + i]
        },
        call_ensures(InterpolateOutput::dp_dv, (out,), r) ==> {
            &&& r is Some <==> out.targets.dp_dv is Some
            &&& r matches Some(s) ==> s@.len() == out.targets.value_count && s@[i]
                == out.buffer@[out.targets.dp_dv->Some_0 + i]
        },
        call_ensures(InterpolateOutput::ddp_du_du, (out,), r) ==> {
            &&& r is Some <==> out.targets.ddp_du_du is Some
            &&& r matches Some(s) ==> s@.len() == out.targets.value_count && s@[i]
                == out.buffer@[out.targets.ddp_du_du->Some_0 + i]
        },
        call_ensures(InterpolateOutput::ddp_dv_dv, (out,), r) ==> {
            &&& r is Some <==> out.targets.ddp_dv_dv is Some
            &&& r matches Some(s) ==> s@.len() == out.targets.value_count && s@[i]
                == out.buffer@[out.targets.ddp_dv_dv->Some_0 + i]
        },
        call_ensures(InterpolateOutput::ddp_du_dv, (out,), r) ==> {
            &&& r is Some <==> out.targets.ddp_du_dv is Some
            &&& r matches Some(s) ==> s@.len() == out.targets.value_count && s@[i]
                == out.buffer@[out.targets.ddp_du_dv->Some_0 + i]
        },
{
    assert(out.offset(Attribute::P) == out.targets.p);
    assert(out.offset(Attribute::DpDu) == out.targets.dp_du);
    assert(out.offset(Attribute::DpDv) == out.targets.dp_dv);
    assert(out.offset(Attribute::DdpDuDu) == out.targets.ddp_du_du);
    assert(out.offset(Attribute::DdpDvDv) == out.targets.ddp_dv_dv);
    assert(out.offset(Attribute::DdpDuDv) == out.targets.ddp_du_dv);
}

/// Each attribute is written where the output has its place, and nothing else is.
pub proof fn lemma_attributes_are_written_at_their_places(
    out: &mut InterpolateOutput,
    r: Option<&mut [Real]>,
    i: int,
    k: int,
)
    requires
        old(out).wf(),
        0 <= i < old(out).targets.value_count,
        0 <= k < old(out).buffer@.len(),
        r matches Some(s) ==> final(s)@.len() == old(out).targets.value_count,
    ensures
        call_ensures(InterpolateOutput::p_mut, (out,), r) ==> {
            let (at, n) = (old(out).targets.p->Some_0, old(out).targets.value_count);
            &&& r is Some <==> old(out).targets.p is Some
            &&& r matches Some(s) ==> {
                &&& s@[i] == old(out).buffer@[at + i]
                &&& final(out).buffer@[at + i] == final(s)@[i]
                &&& k < at || at + n <= k ==> final(out).buffer@[k] == old(out).buffer@[k]
            }
            &&& r is None ==> final(out).buffer@ == old(out).buffer@
        },
        call_ensures(InterpolateOutput::dp_du_mut, (out,), r) ==> {
            let (at, n) = (old(out).targets.dp_du->Some_0, old(out).targets.value_count);
            &&& r is Some <==> old(out).targets.dp_du is Some
            &&& r matches Some(s) ==> {
                &&& s@[i] == old(out).buffer@[at + i]
                &&& final(out).buffer@[at + i] == final(s)@[i]
                &&& k < at || at + n <= k ==> final(out).buffer@[k] == old(out).buffer@[k]
            }
            &&& r is None ==> final(out).buffer@ == old(out).buffer@
        },
        call_ensures(InterpolateOutput::dp_dv_mut, (out,), r) ==> {
            let (at, n) = (old(out).targets.dp_dv->Some_0, old(out).targets.value_count);
            &&& r is Some <==> old(out).targets.dp_dv is Some
            &&& r matches Some(s) ==> {
                &&& s@[i] == old(out).buffer@[at + i]
                &&& final(out).buffer@[at + i] == final(s)@[i]
                &&& k < at || at + n <= k ==> final(out).buffer@[k] == old(out).buffer@[k]
            }
            &&& r is None ==> final(out).buffer@ == old(out).buffer@
        },
        call_ensures(InterpolateOutput::ddp_du_du_mut, (out,), r) ==> {
            let (at, n) = (old(out).targets.ddp_du_du->Some_0, old(out).targets.value_count);
            &&& r is Some <==> old(out).targets.ddp_du_du is Some
            &&& r matches Some(s) ==> {
                &&& s@[i] == old(out).buffer@[at + i]
                &&& final(out).buffer@[at + i] == final(s)@[i]
                &&& k < at || at + n <= k ==> final(out).buffer@[k] == old(out).buffer@[k]
            }
            &&& r is None ==> final(out).buffer@ == old(out).buffer@
        },
        call_ensures(InterpolateOutput::ddp_dv_dv_mut, (out,), r) ==> {
            let (at, n) = (old(out).targets.ddp_dv_dv->Some_0, old(out).targets.value_count);
            &&& r is Some <==> old(out).targets.ddp_dv_dv is Some
            &&& r matches Some(s) ==> {
                &&& s@[i] == old(out).buffer@[at + i]
                &&& final(out).buffer@[at + i] == final(s)@[i]
                &&& k < at || at + n <= k ==> final(out).buffer@[k] == old(out).buffer@[k]
            }
            &&& r is None ==> final(out).buffer@ == old(out).buffer@
        },
        call_ensures(InterpolateOutput::ddp_du_dv_mut, (out,), r) ==> {
            let (at, n) = (old(out).targets.ddp_du_dv->Some_0, old(out).targets.value_count);
            &&& r is Some <==> old(out).targets.ddp_du_dv is Some
            &&& r matches Some(s) ==> {
                &&& s@[i] == old(out).buffer@[at + i]
                &&& final(out).buffer@[at + i] == final(s)@[i]
                &&& k < at || at + n <= k ==> final(out).buffer@[k] == old(out).buffer@[k]
            }
            &&& r is None ==> final(out).buffer@ == old(out).buffer@
        },
{
    let before = *old(out);
    assert(before.offset(Attribute::P) == before.targets.p);
    assert(before.offset(Attribute::DpDu) == before.targets.dp_du);
    assert(before.offset(Attribute::DpDv) == before.targets.dp_dv);
    assert(before.offset(Attribute::DdpDuDu) == before.targets.ddp_du_du);
    assert(before.offset(Attribute::DdpDvDv) == before.targets.ddp_dv_dv);
    assert(before.offset(Attribute::DdpDuDv) == before.targets.ddp_du_dv);
}

} // verus!
