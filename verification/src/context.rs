//! Per-query contexts.

use vstd::prelude::*;

use crate::sys::{Real, INVALID_ID, REAL_ZERO};

verus! {

/// Number of instance levels that a context keeps track of.
pub const RTC_MAX_INSTANCE_LEVEL_COUNT: usize = 1;

/// Traversal mode of a query.
#[derive(Debug, Clone, Copy, PartialEq, Eq, Structural, Hash)]
#[allow(non_camel_case_types)]
pub enum IntersectContextFlags {
    INCOHERENT,
    COHERENT,
}

/// Per ray-query intersection context.
#[derive(Debug, Clone, Copy, PartialEq, Eq)]
#[allow(non_snake_case)]
pub struct IntersectContext {
    pub flags: IntersectContextFlags,
    /// Address of the context filter, if one is set.
    pub filter: Option<usize>,
    pub instID: [u32; 1],
}

/// Extended intersection context with additional ray query specific data.
#[derive(Debug)]
pub struct IntersectContextExt<E> {
    /// The base context that is carried through to callbacks.
    pub ctx: IntersectContext,
    /// The per-ray payload.
    pub ext: E,
}

impl<E: Clone> Clone for IntersectContextExt<E> {
    fn clone(&self) -> (c: Self)
        ensures
            c.ctx == self.ctx,
            cloned(self.ext, c.ext),
    {
        IntersectContextExt { ctx: self.ctx, ext: self.ext.clone() }
    }
}

impl<E: Copy> Copy for IntersectContextExt<E> {

}

/// Access to the base context of a query and to the payload that travels with
/// it.
pub trait AsIntersectContext {
    /// The per-ray payload: `()` for a plain context.
    type Ext;

    /// The base context.
    spec fn context(&self) -> IntersectContext;

    /// The payload, if any.
    spec fn extension(&self) -> Option<Self::Ext>;

    /// The base context.
    fn as_context(&self) -> (c: &IntersectContext)
        ensures
            *c == self.context(),
    ;

    /// The base context, mutably. The payload stays as it is.
    fn as_mut_context(&mut self) -> (c: &mut IntersectContext)
        ensures
            *c == old(self).context(),
            final(self).context() == *final(c),
            final(self).extension() == old(self).extension(),
    ;

    /// The payload, or `None` for a plain context.
    fn as_extended(&self) -> (e: Option<&Self::Ext>)
        ensures
            e is Some == self.extension() is Some,
            e matches Some(x) ==> self.extension() == Some(*x),
    ;

    /// The payload, mutably. The base context stays as it is.
    fn as_mut_extended(&mut self) -> (e: Option<&mut Self::Ext>)
        ensures
            final(self).context() == old(self).context(),
            e is Some == old(self).extension() is Some,
            match e {
                Some(x) => old(self).extension() == Some(*x) && final(self).extension() == Some(
                    *final(x),
                ),
                None => final(self).extension() == old(self).extension(),
            },
    ;
}

impl IntersectContext {
    /// Shortcut to create a context with the coherent flag set.
    pub fn coherent() -> (c: IntersectContext)
        ensures
            c.flags == IntersectContextFlags::COHERENT,
            c.filter is None,
            c.instID@ == seq![u32::MAX],
    {
        IntersectContext::new(IntersectContextFlags::COHERENT)
    }

    /// Shortcut to create a context with the incoherent flag set.
    pub fn incoherent() -> (c: IntersectContext)
        ensures
            c.flags == IntersectContextFlags::INCOHERENT,
            c.filter is None,
            c.instID@ == seq![u32::MAX],
    {
        IntersectContext::new(IntersectContextFlags::INCOHERENT)
    }

    /// Creates a context with the given traversal `flags`, without a filter and
    /// outside any instance.
    pub fn new(flags: IntersectContextFlags) -> (c: IntersectContext)
        ensures
            c.flags == flags,
            c.filter is None,
            c.instID@ == seq![u32::MAX],
    {
        IntersectContext { flags, filter: None, instID: [u32::MAX; 1] }
    }
}

impl AsIntersectContext for IntersectContext {
    type Ext = ();

    open spec fn context(&self) -> IntersectContext {
        *self
    }

    open spec fn extension(&self) -> Option<()> {
        None
    }

    fn as_context(&self) -> (c: &IntersectContext) {
        self
    }

    fn as_mut_context(&mut self) -> (c: &mut IntersectContext) {
        self
    }

    fn as_extended(&self) -> (e: Option<&()>) {
        None
    }

    fn as_mut_extended(&mut self) -> (e: Option<&mut ()>) {
        None
    }
}

impl<E> AsIntersectContext for IntersectContextExt<E> {
    type Ext = E;

    open spec fn context(&self) -> IntersectContext {
        self.ctx
    }

    open spec fn extension(&self) -> Option<E> {
        Some(self.ext)
    }

    fn as_context(&self) -> (c: &IntersectContext) {
        &self.ctx
    }

    fn as_mut_context(&mut self) -> (c: &mut IntersectContext) {
        &mut self.ctx
    }

    fn as_extended(&self) -> (e: Option<&E>) {
        Some(&self.ext)
    }

    fn as_mut_extended(&mut self) -> (e: Option<&mut E>) {
        Some(&mut self.ext)
    }
}

impl<E> IntersectContextExt<E> {
    /// Creates an extended context with traversal `flags` and the per-ray
    /// payload `extra`.
    pub fn new(flags: IntersectContextFlags, extra: E) -> (c: IntersectContextExt<E>)
        ensures
            c.ctx.flags == flags,
            c.ctx.filter is None,
            c.ctx.instID@ == seq![u32::MAX],
            c.ext == extra,
    {
        IntersectContextExt { ctx: IntersectContext::new(flags), ext: extra }
    }

    /// Extended context with the coherent traversal flag and payload `extra`.
    pub fn coherent(extra: E) -> (c: IntersectContextExt<E>)
        ensures
            c.ctx.flags == IntersectContextFlags::COHERENT,
            c.ctx.filter is None,
            c.ctx.instID@ == seq![u32::MAX],
            c.ext == extra,
    {
        IntersectContextExt { ctx: IntersectContext::coherent(), ext: extra }
    }

    /// Extended context with the incoherent traversal flag and payload `extra`.
    pub fn incoherent(extra: E) -> (c: IntersectContextExt<E>)
        ensures
            c.ctx.flags == IntersectContextFlags::INCOHERENT,
            c.ctx.filter is None,
            c.ctx.instID@ == seq![u32::MAX],
            c.ext == extra,
    {
        IntersectContextExt { ctx: IntersectContext::incoherent(), ext: extra }
    }
}

/// A stack which stores the IDs and instance transformations during the
/// traversal for a point query.
#[derive(Debug, Clone, Copy, PartialEq, Eq)]
#[allow(non_snake_case)]
pub struct PointQueryContext {
    pub world2inst: [[Real; 16]; 1],
    pub inst2world: [[Real; 16]; 1],
    pub instID: [u32; 1],
    pub instStackSize: u32,
}

impl PointQueryContext {
    /// An empty instance stack: no level in use, every ID invalid, every
    /// transformation zero.
    pub open spec fn is_empty_stack(&self) -> bool {
        &&& self.instStackSize == 0
        &&& self.instID@ == seq![INVALID_ID]
        &&& self.world2inst[0]@ == Seq::new(16, |i: int| REAL_ZERO)
        &&& self.inst2world[0]@ == Seq::new(16, |i: int| REAL_ZERO)
    }

    /// Creates a point-query context with an empty instance stack.
    pub fn new() -> (c: Self)
        ensures
            c.is_empty_stack(),
    {
        let c = PointQueryContext {
            world2inst: [[REAL_ZERO; 16]; 1],
            inst2world: [[REAL_ZERO; 16]; 1],
            instID: [INVALID_ID; 1],
            instStackSize: 0,
        };
        assert(c.world2inst[0]@ =~= Seq::new(16, |i: int| REAL_ZERO));
        assert(c.inst2world[0]@ =~= Seq::new(16, |i: int| REAL_ZERO));
        assert(c.instID@ =~= seq![INVALID_ID]);
        c
    }
}

impl Default for PointQueryContext {
    fn default() -> (c: Self)
        ensures
            c.is_empty_stack(),
    {
        Self::new()
    }
}

/// The context of a query is the one it was made with; a plain one has no payload,
/// an extended one its own.
pub proof fn lemma_contexts_carry_their_payload<E>(
    plain: IntersectContext,
    extended: IntersectContextExt<E>,
)
    ensures
        plain.context() == plain,
        plain.extension() is None,
        extended.context() == extended.ctx,
        extended.extension() == Some(extended.ext),
{
}

/// On an empty instance stack no level is in use, no instance is named, and no
/// transformation holds anything.
pub proof fn lemma_empty_stack_names_no_instance(c: PointQueryContext, i: int)
    requires
        c.is_empty_stack(),
        0 <= i < 16,
    ensures
        c.instStackSize == 0,
        c.instID[0] == 0xffff_ffff,
        c.world2inst[0][i] == 0,
        c.inst2world[0][i] == 0,
{
    assert(c.instID@[0] == c.instID[0]);
    assert(c.world2inst[0]@[i] == c.world2inst[0][i]);
    assert(c.inst2world[0]@[i] == c.inst2world[0][i]);
}

/// A context has the flags it was made for, no filter and no instance; one with a
/// payload carries it along.
pub proof fn lemma_contexts_are_made_as_named<E>(
    flags: IntersectContextFlags,
    extra: E,
    plain: IntersectContext,
    coherent: IntersectContext,
    incoherent: IntersectContext,
    x: IntersectContextExt<E>,
    xc: IntersectContextExt<E>,
    xi: IntersectContextExt<E>,
)
    requires
        call_ensures(IntersectContext::new, (flags,), plain),
        call_ensures(IntersectContext::coherent, (), coherent),
        call_ensures(IntersectContext::incoherent, (), incoherent),
        call_ensures(IntersectContextExt::<E>::new, (flags, extra), x),
        call_ensures(IntersectContextExt::<E>::coherent, (extra,), xc),
        call_ensures(IntersectContextExt::<E>::incoherent, (extra,), xi),
    ensures
        plain.flags == flags && plain.filter is None,
        plain.instID[0] == 0xffff_ffffu32,
        coherent.flags == IntersectContextFlags::COHERENT && coherent.filter is None,
        coherent.instID[0] == 0xffff_ffffu32,
        incoherent.flags == IntersectContextFlags::INCOHERENT && incoherent.filter is None,
        incoherent.instID[0] == 0xffff_ffffu32,
        x.ctx.flags == flags && x.ext == extra && x.ctx.filter is None,
        x.ctx.instID[0] == 0xffff_ffffu32,
        xc.ctx.flags == IntersectContextFlags::COHERENT && xc.ext == extra,
        xi.ctx.flags == IntersectContextFlags::INCOHERENT && xi.ext == extra,
        xc.ctx.instID[0] == 0xffff_ffffu32 && xi.ctx.instID[0] == 0xffff_ffffu32,
{
    assert(plain.instID[0] == plain.instID@[0]);
    assert(coherent.instID[0] == coherent.instID@[0]);
    assert(incoherent.instID[0] == incoherent.instID@[0]);
    assert(x.ctx.instID[0] == x.ctx.instID@[0]);
    assert(xc.ctx.instID[0] == xc.ctx.instID@[0]);
    assert(xi.ctx.instID[0] == xi.ctx.instID@[0]);
}

} // verus!
