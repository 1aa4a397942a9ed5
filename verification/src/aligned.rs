//! Storage with a chosen alignment.

use vstd::arithmetic::power2::is_pow2;
use vstd::prelude::*;

use crate::buffer::BufferData;

verus! {

/// The larger of two alignments.
pub open spec fn stricter(a: nat, b: nat) -> nat {
    if a >= b {
        a
    } else {
        b
    }
}

/// The address of the first element of `v`, from `<[T]>::as_ptr`. A slice lies at a
/// multiple of its elements' alignment, even if it is empty. Nothing more is claimed
/// of the address: where memory lies is up to the machine.
#[verifier::external_body]
pub(crate) fn address_of<T>(v: &[T]) -> (address: usize)
    ensures
        address as nat % vstd::layout::align_of::<T>() == 0,
{
    v.as_ptr() as usize
}

/// Whether element `n` lies at a multiple of `align`, where elements of `size` bytes
/// lie one after the other from `address` on.
pub open spec fn aligned_at(address: int, n: int, size: int, align: int) -> bool {
    (address + n * size) % align == 0
}

/// Element `n` is the first one that lies at a multiple of `align`.
pub open spec fn is_first(address: int, n: nat, size: int, align: int) -> bool {
    &&& aligned_at(address, n as int, size, align)
    &&& forall|k: nat| k < n ==> !#[trigger] aligned_at(address, k as int, size, align)
}

/// A power of two divides every greater one, and the quotient is a power of two.
proof fn lemma_pow2_divides(a: int, b: int)
    requires
        is_pow2(a),
        is_pow2(b),
        a <= b,
    ensures
        a > 0,
        b % a == 0,
        b / a > 0,
        is_pow2(b / a),
        b == a * (b / a),
    decreases b,
{
    reveal(is_pow2);
    if a == 1 {
        assert(b % 1 == 0 && b / 1 == b);
    } else {
        lemma_pow2_divides(a / 2, b / 2);
        let (h, k) = (a / 2, (b / 2) / (a / 2));
        assert(b == a * k) by (nonlinear_arith)
            requires
                a == 2 * h,
                b / 2 == h * k,
                b % 2 == 0,
        ;
        vstd::arithmetic::div_mod::lemma_fundamental_div_mod_converse(b, a, k, 0);
    }
}

/// Steps of an odd number reach a multiple of a power of two from everywhere.
proof fn lemma_odd_steps_reach(x: int, q: int, m: int) -> (n: nat)
    requires
        is_pow2(m),
        q % 2 == 1,
    ensures
        (x + n * q) % m == 0,
    decreases m,
{
    reveal(is_pow2);
    if m == 1 {
        0
    } else {
        let h = m / 2;
        let n = lemma_odd_steps_reach(x, q, h);
        let t = (x + n * q) / h;
        vstd::arithmetic::div_mod::lemma_fundamental_div_mod(x + n * q, h);
        assert(x + n * q == h * t);
        if t % 2 == 0 {
            let u = t / 2;
            assert(x + n * q == m * u) by (nonlinear_arith)
                requires
                    x + n * q == h * t,
                    t == 2 * u,
                    m == 2 * h,
            ;
            vstd::arithmetic::div_mod::lemma_fundamental_div_mod_converse(x + n * q, m, u, 0);
            n
        } else {
            let (l, u) = ((n + h) as nat, (t + q) / 2);
            assert(x + l * q == m * u) by (nonlinear_arith)
                requires
                    x + n * q == h * t,
                    l == n + h,
                    t + q == 2 * u,
                    m == 2 * h,
            ;
            vstd::arithmetic::div_mod::lemma_fundamental_div_mod_converse(x + l * q, m, u, 0);
            l
        }
    }
}

/// Elements of an odd multiple of `unit` in size, from a multiple of `unit` on, reach
/// a multiple of every power of two.
proof fn lemma_odd_elements_reach(address: int, size: int, unit: int, align: int) -> (n: nat)
    requires
        is_pow2(unit),
        is_pow2(align),
        unit <= align,
        address % unit == 0,
        size % unit == 0,
        (size / unit) % 2 == 1,
    ensures
        aligned_at(address, n as int, size, align),
{
    lemma_pow2_divides(unit, align);
    let (x, q, m) = (address / unit, size / unit, align / unit);
    let n = lemma_odd_steps_reach(x, q, m);
    let u = (x + n * q) / m;
    vstd::arithmetic::div_mod::lemma_fundamental_div_mod(x + n * q, m);
    vstd::arithmetic::div_mod::lemma_fundamental_div_mod(address, unit);
    vstd::arithmetic::div_mod::lemma_fundamental_div_mod(size, unit);
    assert(address + n * size == align * u) by (nonlinear_arith)
        requires
            address == unit * x,
            size == unit * q,
            align == unit * m,
            x + n * q == m * u,
    ;
    vstd::arithmetic::div_mod::lemma_fundamental_div_mod_converse(
        address + n * size,
        align,
        u,
        0,
    );
    n
}

/// Whether an element is aligned comes again with every `align / unit` elements.
proof fn lemma_alignment_repeats(address: int, size: int, unit: int, align: int, k: nat)
    requires
        is_pow2(unit),
        is_pow2(align),
        unit <= align,
        size % unit == 0,
    ensures
        align / unit > 0,
        aligned_at(address, k as int, size, align) == aligned_at(
            address,
            k as int % (align / unit),
            size,
            align,
        ),
{
    lemma_pow2_divides(unit, align);
    let (q, m) = (size / unit, align / unit);
    let (c, r) = (k as int / m, k as int % m);
    vstd::arithmetic::div_mod::lemma_fundamental_div_mod(k as int, m);
    vstd::arithmetic::div_mod::lemma_fundamental_div_mod(size, unit);
    assert(address + k * size == align * (c * q) + (address + r * size)) by (nonlinear_arith)
        requires
            k == m * c + r,
            size == unit * q,
            align == unit * m,
    ;
    vstd::arithmetic::div_mod::lemma_mod_multiples_vanish(c * q, address + r * size, align);
}

/// The first element that lies at a multiple of `align`, or `None` if none ever does.
/// Elements of `size` bytes lie one after the other from `address` on; both are
/// multiples of `unit`, the elements' own alignment.
pub fn first_aligned(address: usize, size: usize, unit: usize, align: usize) -> (r: Option<usize>)
    requires
        is_pow2(unit as int),
        is_pow2(align as int),
        unit <= align,
        address % unit == 0,
        size % unit == 0,
    ensures
        match r {
            Some(n) => n < align / unit && is_first(
                address as int,
                n as nat,
                size as int,
                align as int,
            ),
            None => forall|k: nat| !#[trigger]
                aligned_at(address as int, k as int, size as int, align as int),
        },
        (size / unit) % 2 == 1 ==> r is Some,
{
    proof {
        lemma_pow2_divides(unit as int, align as int);
    }
    let period: usize = align / unit;
    let step: usize = size % align;
    let mut rest: usize = address % align;
    let mut n: usize = 0;
    while n < period
        invariant
            n <= period,
            period == align / unit,
            align > 0,
            step == size % align,
            rest as int == (address + n * size) % (align as int),
            forall|k: nat|
                k < n ==> !#[trigger] aligned_at(
                    address as int,
                    k as int,
                    size as int,
                    align as int,
                ),
        decreases period - n,
    {
        if rest == 0 {
            return Some(n);
        }
        let ghost before = address + n * size;
        proof {
            assert(address + (n + 1) * size == before + size) by (nonlinear_arith)
                requires
                    before == address + n * size,
            ;
            vstd::arithmetic::div_mod::lemma_add_mod_noop(before, size as int, align as int);
        }
        if rest >= align - step {
            rest = rest - (align - step);
            proof {
                vstd::arithmetic::div_mod::lemma_mod_multiples_vanish(
                    1,
                    rest as int,
                    align as int,
                );
                vstd::arithmetic::div_mod::lemma_small_mod(rest as nat, align as nat);
            }
        } else {
            rest = rest + step;
            proof {
                vstd::arithmetic::div_mod::lemma_small_mod(rest as nat, align as nat);
            }
        }
        n += 1;
    }
    proof {
        assert forall|k: nat| !#[trigger]
            aligned_at(address as int, k as int, size as int, align as int) by {
            lemma_alignment_repeats(address as int, size as int, unit as int, align as int, k);
            let r = (k as int % (align as int / unit as int)) as nat;
            assert(!aligned_at(address as int, r as int, size as int, align as int));
        }
        if (size / unit) % 2 == 1 {
            let k = lemma_odd_elements_reach(
                address as int,
                size as int,
                unit as int,
                align as int,
            );
        }
    }
    None
}

/// Whether a number is a power of two.
fn is_power_of_two(n: usize) -> (r: bool)
    ensures
        r == is_pow2(n as int),
{
    reveal(is_pow2);
    if n == 0 {
        return false;
    }
    let mut m: usize = n;
    while m % 2 == 0
        invariant
            m > 0,
            is_pow2(m as int) == is_pow2(n as int),
        decreases m,
    {
        reveal(is_pow2);
        m = m / 2;
    }
    m == 1
}

/// Vector whose first element lies at a multiple of a chosen power of two.
///
/// Some elements more than needed are allocated, and the vector begins at the
/// first of them that lies where it should. It never grows, so it stays there.
///
/// Where the size of an element is an odd multiple of its own alignment, as for
/// numbers, one of the elements lies where it should. Else that is up to the
/// machine; where none does, there is no vector.
pub struct AlignedVector<T> {
    storage: Vec<T>,
    /// Where the storage lies.
    address: Ghost<int>,
    start: usize,
    len: usize,
    align: usize,
}

impl<T> View for AlignedVector<T> {
    type V = Seq<T>;

    closed spec fn view(&self) -> Seq<T> {
        self.storage@.subrange(self.start as int, self.start + self.len)
    }
}

impl<T> AlignedVector<T> {
    #[verifier::type_invariant]
    spec fn wf(self) -> bool {
        &&& self.align > 0
        &&& self.start + self.len <= self.storage.len()
        &&& aligned_at(
            self.address@,
            self.start as int,
            vstd::layout::size_of::<T>() as int,
            self.align as int,
        )
    }

    /// The alignment that was asked for, or that of `T` if it is stricter.
    pub closed spec fn aligned_to(&self) -> usize {
        self.align
    }

    /// Where the first element lies, by the address of the storage.
    pub closed spec fn first_at(&self) -> int {
        self.address@ + self.start * vstd::layout::size_of::<T>()
    }

    /// Whether `len` elements of `T` can be laid out with an alignment of at
    /// least `align`.
    pub open spec fn can_hold(len: usize, align: usize) -> bool {
        &&& len * vstd::layout::size_of::<T>() <= usize::MAX
        &&& vstd::layout::valid_layout(
            (len * vstd::layout::size_of::<T>()) as usize,
            stricter(vstd::layout::align_of::<T>(), align as nat) as usize,
        )
    }

    /// How many elements are allocated for `len` of them at a multiple of `align`:
    /// the first elements may have to be skipped.
    pub open spec fn room(len: usize, align: usize) -> int {
        len + stricter(vstd::layout::align_of::<T>(), align as nat) / vstd::layout::align_of::<
            T,
        >() - 1
    }

    /// Whether so many elements can be allocated.
    pub open spec fn has_room(len: usize, align: usize) -> bool {
        &&& Self::room(len, align) <= usize::MAX
        &&& Self::room(len, align) * vstd::layout::size_of::<T>() <= isize::MAX
    }

    /// Whether every power of two has a multiple at which an element lies, wherever
    /// the storage does.
    pub open spec fn always_reaches() -> bool {
        (vstd::layout::size_of::<T>() / vstd::layout::align_of::<T>()) % 2 == 1
    }

    /// No element is skipped where the alignment of `T` is enough.
    proof fn lemma_room(len: usize, align: usize)
        ensures
            Self::room(len, align) >= len,
            align <= vstd::layout::align_of::<T>() ==> Self::room(len, align) == len,
            align <= vstd::layout::align_of::<T>() && Self::can_hold(len, align)
                ==> Self::has_room(len, align),
    {
        broadcast use vstd::layout::align_nonzero;

        let (a, t) = (
            stricter(vstd::layout::align_of::<T>(), align as nat),
            vstd::layout::align_of::<T>(),
        );
        reveal(is_pow2);
        assert(a / t >= 1 && (a == t ==> a / t == 1)) by (nonlinear_arith)
            requires
                a >= t,
                t > 0,
        ;
    }

    /// The size in bytes and the alignment of `len` elements aligned to at least
    /// `align` bytes, or `None` if they cannot be laid out.
    pub fn layout(len: usize, align: usize) -> (r: Option<(usize, usize)>)
        ensures
            r == (if Self::can_hold(len, align) {
                Some(
                    (
                        (len * vstd::layout::size_of::<T>()) as usize,
                        stricter(vstd::layout::align_of::<T>(), align as nat) as usize,
                    ),
                )
            } else {
                None
            }),
    {
        vstd::layout::layout_for_type_is_valid::<T>();
        let t_align: usize = core::mem::align_of::<T>();
        let align: usize = if t_align >= align {
            t_align
        } else {
            align
        };
        let bytes: usize = match len.checked_mul(core::mem::size_of::<T>()) {
            Some(n) => n,
            None => {
                return None;
            },
        };
        if !is_power_of_two(align) {
            return None;
        }
        let most: usize = isize::MAX as usize;
        proof {
            reveal(is_pow2);
            vstd::arithmetic::div_mod::lemma_mod_decreases(most as nat, align as nat);
        }
        if bytes > most - most % align {
            return None;
        }
        Some((bytes, align))
    }

    /// How many elements to allocate for `len` of them at a multiple of `align`, or
    /// `None` if there is no room for those that may have to be skipped.
    pub fn room_for(len: usize, align: usize) -> (r: Option<usize>)
        ensures
            r == (if Self::has_room(len, align) {
                Some(Self::room(len, align) as usize)
            } else {
                None
            }),
    {
        vstd::layout::layout_for_type_is_valid::<T>();
        let t_align: usize = core::mem::align_of::<T>();
        let align: usize = if t_align >= align {
            t_align
        } else {
            align
        };
        let most: usize = isize::MAX as usize;
        proof {
            Self::lemma_room(len, align);
        }
        match len.checked_add(align / t_align - 1) {
            Some(total) => match total.checked_mul(core::mem::size_of::<T>()) {
                Some(bytes) => if bytes <= most {
                    Some(total)
                } else {
                    None
                },
                None => None,
            },
            None => None,
        }
    }

    /// The `len` elements of `storage` from the first one on that lies at a multiple
    /// of `align`, or `None` if there are not so many. `address` is where `storage`
    /// lies.
    pub fn start_at(storage: Vec<T>, address: usize, len: usize, align: usize) -> (r: Option<Self>)
        requires
            is_pow2(align as int),
            align >= vstd::layout::align_of::<T>(),
            address as nat % vstd::layout::align_of::<T>() == 0,
        ensures
            ({
                let size = vstd::layout::size_of::<T>() as int;
                match r {
                    Some(v) => {
                        &&& v.aligned_to() == align
                        &&& v.first_at() % (align as int) == 0
                        &&& exists|n: nat|
                            {
                                &&& #[trigger] is_first(address as int, n, size, align as int)
                                &&& n + len <= storage@.len()
                                &&& v@ == storage@.subrange(n as int, (n + len) as int)
                                &&& v.first_at() == address + n * size
                            }
                    },
                    None => forall|n: nat| #[trigger]
                        is_first(address as int, n, size, align as int) ==> n + len
                            > storage@.len(),
                }
            }),
            Self::always_reaches() && len + align as nat / vstd::layout::align_of::<T>() - 1
                <= storage@.len() ==> r is Some,
            aligned_at(address as int, 0, vstd::layout::size_of::<T>() as int, align as int)
                && len <= storage@.len() ==> r is Some,
    {
        vstd::layout::layout_for_type_is_valid::<T>();
        let size: usize = core::mem::size_of::<T>();
        let total: usize = storage.len();
        match first_aligned(address, size, core::mem::align_of::<T>(), align) {
            Some(n) if n <= total && len <= total - n => {
                let v = AlignedVector {
                    storage,
                    address: Ghost(address as int),
                    start: n,
                    len,
                    align,
                };
                assert(is_first(address as int, n as nat, size as int, align as int));
                Some(v)
            },
            Some(n) => {
                proof {
                    assert forall|k: nat| #[trigger]
                        is_first(address as int, k, size as int, align as int) implies k == n by {
                        assert(aligned_at(address as int, k as int, size as int, align as int));
                        assert(aligned_at(address as int, n as int, size as int, align as int));
                    }
                    if aligned_at(address as int, 0, size as int, align as int) {
                        assert(aligned_at(address as int, 0nat as int, size as int, align as int));
                    }
                }
                None
            },
            None => {
                assert(!aligned_at(address as int, 0nat as int, size as int, align as int));
                None
            },
        }
    }

    /// Allocates `len` elements aligned to at least `align` bytes (and at least
    /// `T`'s own alignment), each initialized to `init`. `None` if there is no room
    /// for the elements that may have to be skipped, or if no element of what was
    /// allocated lies at a multiple of `align`. The second does not happen where
    /// [`always_reaches`](Self::always_reaches) holds, and neither where `T`'s own
    /// alignment is enough.
    pub fn new_init(len: usize, align: usize, init: T) -> (r: Option<Self>) where T: Copy
        requires
            Self::can_hold(len, align),
        ensures
            !Self::has_room(len, align) ==> r is None,
            Self::has_room(len, align) && Self::always_reaches() ==> r is Some,
            align <= vstd::layout::align_of::<T>() ==> r is Some,
            r matches Some(v) ==> {
                &&& v@ == Seq::new(len as nat, |i: int| init)
                &&& v.aligned_to() == stricter(vstd::layout::align_of::<T>(), align as nat)
                &&& v.first_at() % (v.aligned_to() as int) == 0
            },
    {
        vstd::layout::layout_for_type_is_valid::<T>();
        let t_align: usize = core::mem::align_of::<T>();
        proof {
            Self::lemma_room(len, align);
        }
        let total: usize = match Self::room_for(len, align) {
            Some(n) => n,
            None => {
                return None;
            },
        };
        let align: usize = if t_align >= align {
            t_align
        } else {
            align
        };
        let storage: Vec<T> = Self::filled(total, init);
        let address: usize = address_of(storage.as_slice());
        let v = Self::start_at(storage, address, len, align);
        assert(v is Some ==> v->0@ =~= Seq::new(len as nat, |j: int| init));
        v
    }

    /// `n` copies of `init`.
    fn filled(n: usize, init: T) -> (storage: Vec<T>) where T: Copy
        requires
            n * vstd::layout::size_of::<T>() <= isize::MAX,
        ensures
            storage@ == Seq::new(n as nat, |i: int| init),
    {
        let mut storage: Vec<T> = Vec::with_capacity(n);
        let mut i: usize = 0;
        while i < n
            invariant
                i <= n,
                storage@ == Seq::new(i as nat, |j: int| init),
            decreases n - i,
        {
            storage.push(init);
            i += 1;
        }
        storage
    }

    /// Allocates `len` zeroed elements, aligned to at least `align` bytes (and at
    /// least `T`'s own alignment). `None` as in [`new_init`](Self::new_init).
    pub fn zeroed(len: usize, align: usize) -> (r: Option<Self>) where T: BufferData
        requires
            Self::can_hold(len, align),
        ensures
            !Self::has_room(len, align) ==> r is None,
            Self::has_room(len, align) && Self::always_reaches() ==> r is Some,
            align <= vstd::layout::align_of::<T>() ==> r is Some,
            r matches Some(v) ==> {
                &&& v@.len() == len
                &&& forall|i: int| 0 <= i < len ==> (#[trigger] v@[i]).is_zero()
                &&& v.aligned_to() == stricter(vstd::layout::align_of::<T>(), align as nat)
                &&& v.first_at() % (v.aligned_to() as int) == 0
            },
    {
        Self::new_init(len, align, T::zero())
    }

    /// Returns the alignment of the vector. The first element lies at a multiple of
    /// it.
    pub fn alignment(&self) -> (a: usize)
        ensures
            a == self.aligned_to(),
            self.first_at() % (a as int) == 0,
    {
        proof {
            use_type_invariant(self);
        }
        self.align
    }

    /// The elements.
    pub fn as_slice(&self) -> (s: &[T])
        ensures
            s@ == self@,
    {
        proof {
            use_type_invariant(self);
        }
        vstd::slice::slice_subrange(self.storage.as_slice(), self.start, self.start + self.len)
    }

    /// Replaces an element. The others stay, and all of them where they lie.
    pub fn set(&mut self, i: usize, value: T)
        requires
            i < old(self)@.len(),
        ensures
            final(self)@ == old(self)@.update(i as int, value),
            final(self).aligned_to() == old(self).aligned_to(),
            final(self).first_at() == old(self).first_at(),
    {
        proof {
            use_type_invariant(&*self);
        }
        assert(aligned_at(0, 0, vstd::layout::size_of::<T>() as int, self.align as int)) by {
            let size = vstd::layout::size_of::<T>() as int;
            assert(0 * size == 0) by (nonlinear_arith);
        }
        let mut moved = AlignedVector {
            storage: Vec::new(),
            address: Ghost(0),
            start: 0,
            len: 0,
            align: self.align,
        };
        core::mem::swap(self, &mut moved);
        let AlignedVector { mut storage, address, start, len, align } = moved;
        storage[start + i] = value;
        *self = AlignedVector { storage, address, start, len, align };
        assert(self@ =~= old(self)@.update(i as int, value));
    }
}

impl<T> core::ops::Deref for AlignedVector<T> {
    type Target = [T];

    fn deref(&self) -> (s: &[T])
        ensures
            s@ == self@,
    {
        self.as_slice()
    }
}

/// Fixed-size array aligned to 16 bytes.
#[derive(Debug)]
pub struct AlignedArray<T, const N: usize> {
    data: [T; N],
    /// Takes no space; raises the alignment of the array to that of `u128`.
    align: [u128; 0],
}

impl<T, const N: usize> View for AlignedArray<T, N> {
    type V = Seq<T>;

    closed spec fn view(&self) -> Seq<T> {
        self.data@
    }
}

impl<T, const N: usize> AlignedArray<T, N> {
    /// An aligned array with the given elements.
    pub fn new(data: [T; N]) -> (a: Self)
        ensures
            a@ == data@,
    {
        AlignedArray { data, align: [] }
    }

    /// The elements, for writing.
    pub fn data_mut(&mut self) -> (d: &mut [T; N])
        ensures
            d@ == old(self)@,
            final(self)@ == final(d)@,
    {
        &mut self.data
    }
}

impl<T, const N: usize> core::ops::Deref for AlignedArray<T, N> {
    type Target = [T; N];

    fn deref(&self) -> (d: &[T; N])
        ensures
            d@ == self@,
    {
        &self.data
    }
}

/// The stricter of two alignments is one of them, and no weaker than either.
pub proof fn lemma_stricter_is_the_larger(a: nat, b: nat)
    ensures
        stricter(a, b) == a || stricter(a, b) == b,
        stricter(a, b) >= a,
        stricter(a, b) >= b,
{
}

/// An element is aligned exactly if its address is a whole number of alignments, and
/// so is every one that is a whole number of alignments further on.
pub proof fn lemma_aligned_addresses_are_multiples(
    address: int,
    n: int,
    size: int,
    align: int,
    k: int,
)
    requires
        align > 0,
    ensures
        address + n * size == k * align ==> aligned_at(address, n, size, align),
        aligned_at(address, n, size, align) ==> address + n * size == align * ((address + n * size)
            / align),
        aligned_at(address + k * align, n, size, align) == aligned_at(address, n, size, align),
{
    vstd::arithmetic::div_mod::lemma_fundamental_div_mod(address + n * size, align);
    if address + n * size == k * align {
        vstd::arithmetic::div_mod::lemma_mod_multiples_basic(k, align);
    }
    assert(address + k * align + n * size == align * k + (address + n * size)) by (nonlinear_arith);
    vstd::arithmetic::div_mod::lemma_mod_multiples_vanish(k, address + n * size, align);
}

/// For an alignment `k` times that of the elements, `k - 1` elements more than needed
/// are allocated, so that each of `k` elements in a row can be the first one. Where an
/// element is as large as its alignment, one of them always can.
pub proof fn lemma_room_for_the_skipped<T>(len: usize, align: usize, k: nat)
    requires
        k > 0,
        align == k * vstd::layout::align_of::<T>(),
    ensures
        AlignedVector::<T>::room(len, align) == len + k - 1,
        AlignedVector::<T>::has_room(len, align) <==> len + k - 1 <= usize::MAX && (len + k - 1)
            * vstd::layout::size_of::<T>() <= isize::MAX,
        vstd::layout::size_of::<T>() == vstd::layout::align_of::<T>()
            ==> AlignedVector::<T>::always_reaches(),
{
    broadcast use vstd::layout::align_nonzero;

    let t = vstd::layout::align_of::<T>();
    assert(t <= k * t) by (nonlinear_arith)
        requires
            k > 0,
    ;
    vstd::arithmetic::div_mod::lemma_div_by_multiple(k as int, t as int);
    vstd::arithmetic::div_mod::lemma_div_by_self(t as int);
}

/// The first aligned element is aligned, and no aligned one comes before it. There is one
/// where the elements are an odd number of units long.
pub proof fn lemma_the_first_aligned_comes_first(
    address: usize,
    size: usize,
    unit: usize,
    align: usize,
    r: Option<usize>,
    k: nat,
)
    requires
        call_ensures(first_aligned, (address, size, unit, align), r),
    ensures
        r matches Some(n) ==> {
            &&& (address + n * size) % align as int == 0
            &&& (address + k * size) % align as int == 0 ==> n <= k
        },
        (size / unit) % 2 == 1 ==> r is Some,
{
    let aligned = aligned_at(address as int, k as int, size as int, align as int);
    assert(aligned <==> (address + k * size) % align as int == 0);
}

/// So many elements are laid out in as many bytes as they take together, at the stricter
/// of the two alignments; they are exactly if that is a power of two and the bytes, up
/// to a multiple of it, can be addressed.
pub proof fn lemma_layouts_of_elements<T>(len: usize, align: usize, r: Option<(usize, usize)>)
    requires
        call_ensures(AlignedVector::<T>::layout, (len, align), r),
        vstd::layout::align_of::<T>() <= usize::MAX,
    ensures
        r matches Some((bytes, a)) ==> {
            &&& bytes == len * vstd::layout::size_of::<T>()
            &&& a >= align && a >= vstd::layout::align_of::<T>()
            &&& a == align || a == vstd::layout::align_of::<T>()
            &&& is_pow2(a as int)
            &&& bytes <= isize::MAX as int - isize::MAX as int % a as int
        },
        is_pow2(align as int) && align >= vstd::layout::align_of::<T>() && len
            * vstd::layout::size_of::<T>() <= isize::MAX as int - isize::MAX as int % align as int
            ==> r is Some,
{
    broadcast use vstd::layout::align_nonzero;

}

/// Elements that are skipped to reach an alignment are allocated too: as many as the
/// alignment holds of the elements' own, less one. They are refused only where they
/// cannot be addressed.
pub proof fn lemma_skipped_elements_are_allocated<T>(len: usize, align: usize, r: Option<usize>)
    requires
        call_ensures(AlignedVector::<T>::room_for, (len, align), r),
        align >= vstd::layout::align_of::<T>(),
    ensures
        ({
            let more = align as nat / vstd::layout::align_of::<T>() - 1;
            &&& r is Some <==> (len + more) * vstd::layout::size_of::<T>() <= isize::MAX && len
                + more <= usize::MAX
            &&& r matches Some(n) ==> n == len + more
        }),
{
    AlignedVector::<T>::lemma_room(len, align);
}

/// An aligned vector has so many elements, all of them as they were to be, the first one
/// at a multiple of the alignment that was asked for, or of the elements' own if that is
/// stricter.
pub proof fn lemma_aligned_vectors_are_filled<T: Copy>(
    len: usize,
    align: usize,
    init: T,
    room: Option<usize>,
    r: Option<AlignedVector<T>>,
    i: int,
    k: nat,
)
    requires
        call_ensures(AlignedVector::<T>::room_for, (len, align), room),
        call_ensures(AlignedVector::<T>::new_init, (len, align, init), r),
        vstd::layout::align_of::<T>() <= usize::MAX,
        0 <= i < len,
    ensures
        align <= vstd::layout::align_of::<T>() ==> r is Some,
        room is Some && vstd::layout::size_of::<T>() == (2 * k + 1) * vstd::layout::align_of::<T>()
            ==> r is Some,
        room is None ==> r is None,
        r matches Some(v) ==> {
            &&& v@.len() == len
            &&& v@[i] == init
            &&& v.aligned_to() >= align && v.aligned_to() >= vstd::layout::align_of::<T>()
            &&& v.aligned_to() == align || v.aligned_to() == vstd::layout::align_of::<T>()
            &&& v.first_at() % (v.aligned_to() as int) == 0
        },
{
    broadcast use vstd::layout::align_nonzero;

    reveal(is_pow2);
    let t = vstd::layout::align_of::<T>() as int;
    if vstd::layout::size_of::<T>() == (2 * k + 1) * vstd::layout::align_of::<T>() {
        vstd::arithmetic::div_mod::lemma_div_by_multiple((2 * k + 1) as int, t);
    }
}

/// The elements that are kept of a storage begin at the first one that lies at a multiple
/// of the alignment, and are the next so many; they are kept wherever they are there.
pub proof fn lemma_elements_are_kept_from_the_first_aligned<T>(
    storage: Vec<T>,
    address: usize,
    len: usize,
    align: usize,
    r: Option<AlignedVector<T>>,
    i: int,
)
    requires
        call_ensures(AlignedVector::<T>::start_at, (storage, address, len, align), r),
        0 <= i < len,
    ensures
        len <= storage@.len() && address as int % align as int == 0 ==> r is Some && r->Some_0@[i]
            == storage@[i],
        r matches Some(v) ==> {
            &&& v@.len() == len
            &&& v.aligned_to() == align
            &&& v.first_at() % (align as int) == 0
            &&& exists|n: nat|
                {
                    &&& n + len <= storage@.len()
                    &&& #[trigger] storage@[n + i] == v@[i]
                    &&& v.first_at() == address + n * vstd::layout::size_of::<T>()
                }
        },
{
    let size = vstd::layout::size_of::<T>() as int;
    assert(0 * size == 0) by (nonlinear_arith);
    if r is Some {
        let v = r->Some_0;
        let n = choose|n: nat|
            {
                &&& #[trigger] is_first(address as int, n, size, align as int)
                &&& n + len <= storage@.len()
                &&& v@ == storage@.subrange(n as int, (n + len) as int)
                &&& v.first_at() == address + n * size
            };
        assert(storage@[n + i] == v@[i]);
        if address as int % align as int == 0 {
            assert(aligned_at(address as int, 0nat as int, size, align as int));
            assert(n == 0);
        }
    }
}

/// Zeroed elements are all zero; an element that is set is the only one that changes, and
/// none of them moves.
pub proof fn lemma_aligned_elements_are_set_in_place<T: BufferData>(
    len: usize,
    align: usize,
    r: Option<AlignedVector<T>>,
    v: &mut AlignedVector<T>,
    i: usize,
    j: int,
    value: T,
    a: usize,
)
    requires
        vstd::layout::align_of::<T>() <= usize::MAX,
        0 <= j < len,
        i < old(v)@.len(),
    ensures
        call_ensures(AlignedVector::<T>::zeroed, (len, align), r) ==> {
            &&& align <= vstd::layout::align_of::<T>() ==> r is Some
            &&& r matches Some(z) ==> {
                &&& z@.len() == len && z@[j].is_zero()
                &&& z.aligned_to() >= align && z.first_at() % (z.aligned_to() as int) == 0
            }
        },
        call_ensures(AlignedVector::<T>::set, (v, i, value), ()) ==> {
            &&& final(v)@.len() == old(v)@.len()
            &&& final(v)@[i as int] == value
            &&& j < old(v)@.len() && j != i ==> final(v)@[j] == old(v)@[j]
            &&& final(v).first_at() == old(v).first_at()
            &&& final(v).aligned_to() == old(v).aligned_to()
        },
        call_ensures(AlignedVector::<T>::alignment, (old(v),), a) ==> a == old(v).aligned_to()
            && old(v).first_at() % (a as int) == 0,
{
}

} // verus!
