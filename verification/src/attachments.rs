//! The buffers bound to a geometry, by usage and slot.

use vstd::prelude::*;

use crate::buffer::{Buffer, BufferLayout, BufferSize};
use crate::call::NativeCall;
use crate::sys::BufferUsage;

verus! {

/// How a buffer is bound to a geometry slot.
#[derive(Debug)]
pub enum AttachedBuffer<'buf> {
    /// A sub-range of a native buffer, of which the geometry holds a reference.
    Managed { buffer: Buffer, byte_offset: usize, layout: BufferLayout },
    /// Caller-owned memory.
    Shared { data: &'buf [u8], layout: BufferLayout },
    /// Storage that belongs to the geometry, at `address`.
    Local { address: usize, size: BufferSize, layout: BufferLayout },
}

/// A usage and a slot.
pub type BindingKey = (BufferUsage, u32);

/// One bound slot.
#[derive(Debug)]
struct Attachment<'buf> {
    usage: BufferUsage,
    slot: u32,
    buffer: AttachedBuffer<'buf>,
}

/// The bound slots of a geometry. A slot is bound at most once.
#[derive(Debug)]
pub struct Attachments<'buf> {
    entries: Vec<Attachment<'buf>>,
}

/// The native call that gives up the reference that a binding holds, if it holds
/// one.
pub open spec fn release_of(binding: Option<AttachedBuffer>) -> Seq<NativeCall> {
    match binding {
        Some(AttachedBuffer::Managed { buffer, .. }) => seq![
            NativeCall::ReleaseBuffer { buffer: buffer.handle },
        ],
        _ => Seq::empty(),
    }
}

/// The native calls that give up the references held by the bindings of `keys`,
/// in that order.
pub open spec fn releases_of(
    keys: Seq<BindingKey>,
    bindings: Map<BindingKey, AttachedBuffer>,
) -> Seq<NativeCall>
    decreases keys.len(),
{
    if keys.len() == 0 {
        Seq::empty()
    } else {
        releases_of(keys.drop_last(), bindings) + release_of(Some(bindings[keys.last()]))
    }
}

impl<'buf> View for Attachments<'buf> {
    type V = Map<BindingKey, AttachedBuffer<'buf>>;

    closed spec fn view(&self) -> Map<BindingKey, AttachedBuffer<'buf>> {
        Map::new(
            |k: BindingKey| self.keys().contains(k),
            |k: BindingKey| self.entries@[self.keys().index_of(k)].buffer,
        )
    }
}

impl<'buf> Attachments<'buf> {
    /// The bound slots, in the order in which they were first bound.
    pub closed spec fn keys(&self) -> Seq<BindingKey> {
        self.entries@.map_values(|a: Attachment<'buf>| (a.usage, a.slot))
    }

    #[verifier::type_invariant]
    spec fn bound_once(self) -> bool {
        self.keys().no_duplicates()
    }

    proof fn lemma_at(&self, i: int)
        requires
            self.keys().no_duplicates(),
            0 <= i < self.entries@.len(),
        ensures
            self@.contains_key(self.keys()[i]),
            self@[self.keys()[i]] == self.entries@[i].buffer,
    {
        assert(self.keys().contains(self.keys()[i]));
    }

    /// No slot is bound.
    pub fn new() -> (a: Attachments<'buf>)
        ensures
            a@ == Map::<BindingKey, AttachedBuffer<'buf>>::empty(),
    {
        let a = Attachments { entries: Vec::new() };
        assert(a@ =~= Map::<BindingKey, AttachedBuffer<'buf>>::empty());
        a
    }

    /// Position of the entry of a slot.
    fn find(&self, usage: BufferUsage, slot: u32) -> (r: Option<usize>)
        ensures
            match r {
                Some(i) => i < self.entries@.len() && self.keys()[i as int] == (usage, slot),
                None => !self.keys().contains((usage, slot)),
            },
    {
        let mut i: usize = 0;
        while i < self.entries.len()
            invariant
                i <= self.entries@.len(),
                forall|j: int| 0 <= j < i ==> #[trigger] self.keys()[j] != (usage, slot),
            decreases self.entries@.len() - i,
        {
            if self.entries[i].usage == usage && self.entries[i].slot == slot {
                return Some(i);
            }
            i += 1;
        }
        None
    }

    /// What is bound to a slot.
    pub fn get(&self, usage: BufferUsage, slot: u32) -> (r: Option<&AttachedBuffer<'buf>>)
        ensures
            match r {
                Some(b) => self@.contains_key((usage, slot)) && self@[(usage, slot)] == *b,
                None => !self@.contains_key((usage, slot)),
            },
    {
        proof {
            use_type_invariant(self);
        }
        match self.find(usage, slot) {
            Some(i) => {
                proof {
                    self.lemma_at(i as int);
                }
                Some(&self.entries[i].buffer)
            },
            None => None,
        }
    }

    /// Binds a slot and returns what was bound to it before.
    pub fn insert(&mut self, usage: BufferUsage, slot: u32, buffer: AttachedBuffer<'buf>) -> (r:
        Option<AttachedBuffer<'buf>>)
        ensures
            final(self)@ == old(self)@.insert((usage, slot), buffer),
            r == old(self)@.get((usage, slot)),
    {
        proof {
            use_type_invariant(&*self);
        }
        let ghost pre = *self;
        match self.find(usage, slot) {
            Some(i) => {
                proof {
                    self.lemma_at(i as int);
                }
                let mut entries: Vec<Attachment<'buf>> = Vec::new();
                core::mem::swap(&mut self.entries, &mut entries);
                let mut displaced = Attachment { usage, slot, buffer };
                core::mem::swap(&mut entries[i], &mut displaced);
                proof {
                    let post = Attachments { entries };
                    assert(post.keys() =~= pre.keys());
                    assert forall|k: BindingKey| #[trigger] post@.contains_key(k) implies post@[k]
                        == pre@.insert((usage, slot), buffer)[k] by {
                        let j = post.keys().index_of(k);
                        assert(post.keys()[j] == k);
                    }
                    assert(post@ =~= pre@.insert((usage, slot), buffer));
                }
                self.entries = entries;
                Some(displaced.buffer)
            },
            None => {
                let mut entries: Vec<Attachment<'buf>> = Vec::new();
                core::mem::swap(&mut self.entries, &mut entries);
                entries.push(Attachment { usage, slot, buffer });
                proof {
                    let post = Attachments { entries };
                    let n = pre.entries@.len() as int;
                    assert(post.keys() =~= pre.keys().push((usage, slot)));
                    assert(post.keys()[n] == (usage, slot));
                    assert(post.keys().no_duplicates());
                    assert forall|k: BindingKey|
                        post.keys().contains(k) <==> #[trigger] pre@.insert(
                            (usage, slot),
                            buffer,
                        ).contains_key(k) by {
                        if pre.keys().contains(k) {
                            let j = pre.keys().index_of(k);
                            assert(post.keys()[j] == k);
                        }
                    }
                    assert forall|k: BindingKey| #[trigger] post@.contains_key(k) implies post@[k]
                        == pre@.insert((usage, slot), buffer)[k] by {
                        let j = post.keys().index_of(k);
                        assert(post.keys()[j] == k);
                        if j < n {
                            assert(pre.keys()[j] == k);
                            pre.lemma_at(j);
                        }
                    }
                    assert(post@ =~= pre@.insert((usage, slot), buffer));
                }
                self.entries = entries;
                None
            },
        }
    }

    /// Gives every binding up: the native calls that give up the references that
    /// they hold.
    pub fn release(self) -> (calls: Vec<NativeCall>)
        ensures
            calls@ == releases_of(self.keys(), self@),
            self.keys().no_duplicates(),
            self.keys().to_set() == self@.dom(),
    {
        proof {
            use_type_invariant(&self);
            assert(self.keys().to_set() =~= self@.dom());
        }
        let mut calls: Vec<NativeCall> = Vec::new();
        let mut i: usize = 0;
        while i < self.entries.len()
            invariant
                self.keys().no_duplicates(),
                i <= self.entries@.len(),
                calls@ == releases_of(self.keys().take(i as int), self@),
            decreases self.entries@.len() - i,
        {
            proof {
                self.lemma_at(i as int);
                assert(self.keys().take(i + 1).drop_last() =~= self.keys().take(i as int));
                assert(self.keys().take(i + 1).last() == self.keys()[i as int]);
            }
            match &self.entries[i].buffer {
                AttachedBuffer::Managed { buffer, .. } => {
                    calls.push(NativeCall::ReleaseBuffer { buffer: buffer.handle });
                },
                _ => {},
            }
            i += 1;
        }
        assert(self.keys().take(i as int) =~= self.keys());
        calls
    }
}

/// Whether a binding holds a reference of a native buffer.
pub open spec fn holds(binding: AttachedBuffer, buffer: usize) -> bool {
    binding matches AttachedBuffer::Managed { buffer: b, .. } && b.handle == buffer
}

/// The slots among `keys` whose binding holds a reference of a native buffer.
pub open spec fn holders(
    keys: Set<BindingKey>,
    bindings: Map<BindingKey, AttachedBuffer>,
    buffer: usize,
) -> Set<BindingKey> {
    keys.filter(|k: BindingKey| holds(bindings[k], buffer))
}

/// How many references of a native buffer `calls` give up.
pub open spec fn times_released(calls: Seq<NativeCall>, buffer: usize) -> nat
    decreases calls.len(),
{
    if calls.len() == 0 {
        0
    } else {
        times_released(calls.drop_last(), buffer) + (if calls.last()
            == (NativeCall::ReleaseBuffer { buffer }) {
            1nat
        } else {
            0
        })
    }
}

proof fn lemma_released_after(calls: Seq<NativeCall>, binding: AttachedBuffer, buffer: usize)
    ensures
        times_released(calls + release_of(Some(binding)), buffer) == times_released(calls, buffer)
            + (if holds(binding, buffer) {
            1nat
        } else {
            0
        }),
{
    let all = calls + release_of(Some(binding));
    if binding is Managed {
        assert(all.drop_last() =~= calls);
    } else {
        assert(all =~= calls);
    }
}

/// References of native buffers are neither lost nor given up twice: when a slot
/// is bound anew, the number of references held changes by the one that the new
/// binding brings and the ones that are given up.
pub proof fn lemma_rebinding_balances_references(
    bindings: Map<BindingKey, AttachedBuffer>,
    key: BindingKey,
    binding: AttachedBuffer,
    buffer: usize,
)
    requires
        bindings.dom().finite(),
    ensures
        ({
            let after = bindings.insert(key, binding);
            holders(after.dom(), after, buffer).len() + times_released(
                release_of(bindings.get(key)),
                buffer,
            ) == holders(bindings.dom(), bindings, buffer).len() + (if holds(binding, buffer) {
                1nat
            } else {
                0
            })
        }),
{
    let after = bindings.insert(key, binding);
    let others = holders(bindings.dom(), bindings, buffer).remove(key);
    let post = holders(after.dom(), after, buffer);
    if holds(binding, buffer) {
        assert(post =~= others.insert(key));
    } else {
        assert(post =~= others);
    }
    match bindings.get(key) {
        Some(b) => {
            lemma_released_after(Seq::empty(), b, buffer);
            assert(Seq::<NativeCall>::empty() + release_of(Some(b)) =~= release_of(Some(b)));
        },
        None => {},
    }
}

/// When a geometry goes away, it gives up every reference that its bindings hold,
/// each once.
pub proof fn lemma_every_reference_is_given_up(
    keys: Seq<BindingKey>,
    bindings: Map<BindingKey, AttachedBuffer>,
    buffer: usize,
)
    requires
        keys.no_duplicates(),
    ensures
        times_released(releases_of(keys, bindings), buffer) == holders(
            keys.to_set(),
            bindings,
            buffer,
        ).len(),
        holders(keys.to_set(), bindings, buffer).finite(),
    decreases keys.len(),
{
    if keys.len() == 0 {
        assert(holders(keys.to_set(), bindings, buffer) =~= Set::empty());
    } else {
        let rest = keys.drop_last();
        let last = keys.last();
        lemma_every_reference_is_given_up(rest, bindings, buffer);
        lemma_released_after(releases_of(rest, bindings), bindings[last], buffer);
        assert(!rest.contains(last));
        assert(keys.to_set() =~= rest.to_set().insert(last)) by {
            assert forall|k: BindingKey| keys.contains(k) implies rest.contains(k) || k == last by {
                let j = keys.index_of(k);
                if j < rest.len() {
                    assert(rest[j] == k);
                }
            }
            assert forall|k: BindingKey| rest.contains(k) implies keys.contains(k) by {
                let j = rest.index_of(k);
                assert(keys[j] == k);
            }
            assert(keys[keys.len() - 1] == last);
        }
        let before = holders(rest.to_set(), bindings, buffer);
        if holds(bindings[last], buffer) {
            assert(holders(keys.to_set(), bindings, buffer) =~= before.insert(last));
        } else {
            assert(holders(keys.to_set(), bindings, buffer) =~= before);
        }
    }
}

/// Only a binding of a native buffer holds a reference, and giving it up is one native
/// call for that buffer.
pub proof fn lemma_only_native_buffers_are_released(
    buffer: Buffer,
    byte_offset: usize,
    layout: BufferLayout,
    data: &[u8],
    address: usize,
    size: BufferSize,
)
    ensures
        release_of(Some(AttachedBuffer::Managed { buffer, byte_offset, layout })) == seq![
            NativeCall::ReleaseBuffer { buffer: buffer.handle },
        ],
        release_of(Some(AttachedBuffer::Shared { data, layout })) == Seq::<NativeCall>::empty(),
        release_of(Some(AttachedBuffer::Local { address, size, layout })) == Seq::<
            NativeCall,
        >::empty(),
        release_of(None) == Seq::<NativeCall>::empty(),
        holds(AttachedBuffer::Managed { buffer, byte_offset, layout }, buffer.handle),
        !holds(AttachedBuffer::Shared { data, layout }, buffer.handle),
        !holds(AttachedBuffer::Local { address, size, layout }, buffer.handle),
{
}

/// What is given up with the bindings is references of native buffers that they hold,
/// and nothing else.
pub proof fn lemma_releases_are_of_bound_buffers(
    keys: Seq<BindingKey>,
    bindings: Map<BindingKey, AttachedBuffer>,
    i: int,
)
    requires
        0 <= i < releases_of(keys, bindings).len(),
    ensures
        releases_of(keys, bindings)[i] is ReleaseBuffer,
        exists|k: BindingKey| #[trigger]
            keys.contains(k) && bindings[k] is Managed && releases_of(keys, bindings)[i] == (
            NativeCall::ReleaseBuffer { buffer: bindings[k]->buffer.handle }),
    decreases keys.len(),
{
    if keys.len() > 0 {
        let rest = keys.drop_last();
        if i < releases_of(rest, bindings).len() {
            lemma_releases_are_of_bound_buffers(rest, bindings, i);
            let k = choose|k: BindingKey| #[trigger]
                rest.contains(k) && bindings[k] is Managed && releases_of(rest, bindings)[i] == (
                NativeCall::ReleaseBuffer { buffer: bindings[k]->buffer.handle });
            assert(keys[rest.index_of(k)] == k);
            assert(keys.contains(k));
        } else {
            assert(keys[keys.len() - 1] == keys.last());
            assert(keys.contains(keys.last()));
        }
    }
}

/// What is bound in a slot is found there, and hands back what was there before; every
/// other slot keeps its binding.
pub proof fn lemma_slots_hold_what_was_bound<'buf>(
    a: &mut Attachments<'buf>,
    usage: BufferUsage,
    slot: u32,
    other: BindingKey,
    buffer: AttachedBuffer<'buf>,
    before: Option<AttachedBuffer<'buf>>,
    found: Option<&AttachedBuffer<'buf>>,
    fresh: Attachments<'buf>,
)
    requires
        call_ensures(Attachments::<'buf>::insert, (a, usage, slot, buffer), before),
        call_ensures(Attachments::<'buf>::get, (final(a), usage, slot), found),
        call_ensures(Attachments::<'buf>::new, (), fresh),
        other != (usage, slot),
    ensures
        found is Some && *found->Some_0 == buffer,
        before is Some <==> old(a)@.contains_key((usage, slot)),
        before matches Some(b) ==> b == old(a)@[(usage, slot)],
        final(a)@.contains_key(other) <==> old(a)@.contains_key(other),
        old(a)@.contains_key(other) ==> final(a)@[other] == old(a)@[other],
        !fresh@.contains_key(other),
{
}

/// Giving all bindings up releases each native buffer once for every slot that holds it,
/// and nothing else.
pub proof fn lemma_all_bindings_are_given_up<'buf>(a: Attachments<'buf>, calls: Vec<NativeCall>)
    requires
        call_ensures(Attachments::<'buf>::release, (a,), calls),
    ensures
        forall|i: int|
            0 <= i < calls@.len() ==> (#[trigger] calls@[i]) is ReleaseBuffer && exists|
                key: BindingKey,
            | #[trigger]
                a@.contains_key(key) && a@[key] is Managed && calls@[i]
                    == (NativeCall::ReleaseBuffer { buffer: a@[key]->buffer.handle }),
        (forall|key: BindingKey| #[trigger] a@.contains_key(key) ==> !(a@[key] is Managed))
            ==> calls@.len() == 0,
{
    assert forall|i: int| 0 <= i < calls@.len() implies (#[trigger] calls@[i]) is ReleaseBuffer
        && exists|key: BindingKey| #[trigger]
        a@.contains_key(key) && a@[key] is Managed && calls@[i] == (NativeCall::ReleaseBuffer {
            buffer: a@[key]->buffer.handle,
        }) by {
        lemma_releases_are_of_bound_buffers(a.keys(), a@, i);
    }
    if calls@.len() > 0 {
        assert(calls@[0] is ReleaseBuffer);
    }
}

} // verus!
