use vstd::prelude::*;

use core::ops::Range;

use crate::errors::BufferError;
use crate::instance::Instance;

verus! {

/// Location tag: the buffer's memory is host-accessible, so it exposes
/// direct `read` and `write`.
#[derive(Clone, Copy, Debug)]
pub struct Cpu;

/// Location tag: the buffer's memory is device-local; the only way to move
/// data in or out is a recorded copy.
#[derive(Clone, Copy, Debug)]
pub struct Gpu;

/// A buffer of host-accessible memory.
pub type CpuBuffer = Buffer<Cpu>;

/// A buffer of device-local memory.
pub type GpuBuffer = Buffer<Gpu>;

/// The range of one allocation that a buffer or binding denotes: the
/// mathematical projection of a handle, which every contract speaks of.
pub struct Span {
    /// Index of the allocation in the context's storage.
    pub alloc: usize,
    /// First element of the range within the allocation.
    pub offset: usize,
    /// Number of elements of the range.
    pub len: usize,
}

impl Span {
    /// The span denotes a positive-length range inside one of the arena's
    /// allocations. Buffer constructors establish this and every
    /// operation preserves it; allocations are never removed or shrunk,
    /// so it is stable.
    pub open spec fn valid_for(self, m: Seq<Seq<u32>>) -> bool {
        &&& self.alloc < m.len()
        &&& self.len > 0
        &&& self.offset + self.len <= m[self.alloc as int].len()
    }

    /// The elements the span denotes, in index order.
    pub open spec fn contents(self, m: Seq<Seq<u32>>) -> Seq<u32> {
        m[self.alloc as int].subrange(self.offset as int, self.offset + self.len)
    }
}

/// `min(a, b)` over naturals; the number of elements a lenient write
/// actually transfers.
pub open spec fn min_nat(a: nat, b: nat) -> nat {
    if a <= b {
        a
    } else {
        b
    }
}

/// `s` with the `d.len()` elements starting at `at` replaced by `d`;
/// positions outside `[at, at + d.len())` keep their old value.
pub open spec fn overwrite(s: Seq<u32>, at: int, d: Seq<u32>) -> Seq<u32> {
    Seq::new(s.len(), |i: int| if at <= i < at + d.len() { d[i - at] } else { s[i] })
}

/// The arena `m` after writing payload `d` through the view `s`: only
/// `s`'s allocation changes, and inside it only the elements of `s`'s
/// range, which take the first `min(d.len(), s.len)` elements of `d`.
pub open spec fn write_mem(m: Seq<Seq<u32>>, s: Span, d: Seq<u32>) -> Seq<Seq<u32>> {
    m.update(
        s.alloc as int,
        overwrite(m[s.alloc as int], s.offset as int, d.take(min_nat(d.len(), s.len as nat) as int)),
    )
}

/// A typed handle to a linear array of 32-bit elements inside an
/// [`Instance`]'s storage. The location tag `L` is `Cpu` or `Gpu`; only
/// `Cpu` buffers expose direct host access, which rules out host access to
/// device-local memory at compile time.
///
/// A buffer never owns its storage: it names a range of one allocation, so
/// cloning a buffer or slicing it with [`Buffer::sub`] yields another view
/// of the same memory, and a write through any view is visible through
/// every overlapping view. Handles are only created by the constructors
/// here, which never produce an empty range, so a buffer's length is
/// positive for its whole life.
#[derive(Copy, Debug)]
pub struct Buffer<L> {
    /// Index of the allocation this buffer is a view of.
    pub(crate) alloc: usize,
    /// First element of the view within the allocation.
    pub(crate) offset: usize,
    /// Number of elements in the view; always positive.
    pub(crate) len: usize,
    /// The location tag.
    pub(crate) location: L,
}

impl<L> Buffer<L> {
    /// A buffer is never empty — a zero-length buffer is a construction
    /// error, not a valid state — and its range never reaches past the
    /// address space, since it was carved out of a real allocation.
    #[verifier::type_invariant]
    spec fn well_formed(self) -> bool {
        self.len > 0 && self.offset + self.len <= usize::MAX
    }

    /// The range of storage this handle denotes.
    pub open(crate) spec fn span(&self) -> Span {
        Span { alloc: self.alloc, offset: self.offset, len: self.len }
    }

    /// The handle denotes a range of the arena `m`; see
    /// [`Span::valid_for`].
    pub open(crate) spec fn valid_for(&self, m: Seq<Seq<u32>>) -> bool {
        self.span().valid_for(m)
    }

    /// The elements this view denotes, in index order.
    pub open(crate) spec fn contents(&self, m: Seq<Seq<u32>>) -> Seq<u32> {
        self.span().contents(m)
    }

    /// Runtime counterpart of `valid_for`, phrased to avoid overflow.
    fn check_valid(&self, instance: &Instance) -> (r: bool)
        ensures
            r == self.valid_for(instance.mem()),
    {
        proof {
            use_type_invariant(&*self);
        }
        self.alloc < instance.allocations.len() && self.len > 0
            && self.offset <= instance.allocations[self.alloc].len()
            && self.len <= instance.allocations[self.alloc].len() - self.offset
    }

    /// Element count of this view, O(1) and always positive.
    pub fn len(&self) -> (n: usize)
        ensures
            n == self.span().len,
            n > 0,
    {
        proof {
            use_type_invariant(&*self);
        }
        self.len
    }

    /// Describes "attach this buffer's storage to resource slot
    /// `binding`". The binding does not keep the buffer alive; it merely
    /// names the same range.
    pub fn bind(&self, binding: u32) -> (r: BufferBinding)
        ensures
            r.slot == binding,
            r.span() == self.span(),
    {
        BufferBinding { slot: binding, alloc: self.alloc, offset: self.offset, len: self.len }
    }
}

impl<L: Copy> Clone for Buffer<L> {
    /// Another handle to the same range of the same allocation.
    fn clone(&self) -> (r: Self)
        ensures
            r == *self,
    {
        *self
    }
}

impl<L: Copy> Buffer<L> {
    /// Returns a view of the elements `range.start..range.end` of this
    /// buffer. The view shares this buffer's storage: writes through
    /// either are visible through the other.
    pub fn sub(&self, range: Range<usize>) -> (r: Result<Buffer<L>, BufferError>)
        ensures
            range.start >= range.end ==> r == Result::<Buffer<L>, BufferError>::Err(BufferError::EmptyRange),
            range.start < range.end && range.end > self.span().len ==> r == Result::<Buffer<L>, BufferError>::Err(
                BufferError::OutOfBounds,
            ),
            range.start < range.end && range.end <= self.span().len ==> r is Ok && (r->Ok_0.span().alloc
                == self.span().alloc && r->Ok_0.span().offset == self.span().offset + range.start
                && r->Ok_0.span().len == range.end - range.start),
    {
        proof {
            use_type_invariant(&*self);
        }
        if range.start >= range.end {
            return Err(BufferError::EmptyRange);
        }
        if range.end > self.len {
            return Err(BufferError::OutOfBounds);
        }
        Ok(
            Buffer {
                alloc: self.alloc,
                offset: self.offset + range.start,
                len: range.end - range.start,
                location: self.location,
            },
        )
    }
}

impl Buffer<Cpu> {
    /// Allocates a zero-initialized host-accessible buffer of `len`
    /// elements. Fails with `ZeroLength` when `len == 0`: an empty buffer
    /// is a construction error, not a valid state.
    pub fn new(instance: &mut Instance, len: usize) -> (r: Result<Buffer<Cpu>, BufferError>)
        ensures
            len == 0 ==> r == Result::<Buffer<Cpu>, BufferError>::Err(BufferError::ZeroLength) && *final(instance) == *old(instance),
            len > 0 ==> r is Ok && final(instance).mem() == old(instance).mem().push(
                Seq::new(len as nat, |i: int| 0u32),
            ) && (r->Ok_0.span().alloc == old(instance).mem().len() && r->Ok_0.span().offset == 0
                && r->Ok_0.span().len == len),
            len > 0 ==> r->Ok_0.valid_for(final(instance).mem()) && r->Ok_0.contents(final(instance).mem())
                == Seq::new(len as nat, |i: int| 0u32),
    {
        if len == 0 {
            return Err(BufferError::ZeroLength);
        }
        let id = instance.allocate(len);
        let b = Buffer { alloc: id, offset: 0, len, location: Cpu };
        proof {
            assert(b.contents(instance.mem()) =~= Seq::new(len as nat, |i: int| 0u32));
        }
        Ok(b)
    }

    /// Allocates a buffer of `data.len()` elements and fills it with
    /// `data` in one step; fails with `ZeroLength` when `data` is empty.
    pub fn from_vec(instance: &mut Instance, data: Vec<u32>) -> (r: Result<Buffer<Cpu>, BufferError>)
        ensures
            data@.len() == 0 ==> r == Result::<Buffer<Cpu>, BufferError>::Err(BufferError::ZeroLength)
                && *final(instance) == *old(instance),
            data@.len() > 0 ==> r is Ok && final(instance).mem() == old(instance).mem().push(data@)
                && (r->Ok_0.span().alloc == old(instance).mem().len() && r->Ok_0.span().offset == 0
                && r->Ok_0.span().len == data@.len()),
            data@.len() > 0 ==> r->Ok_0.valid_for(final(instance).mem()) && r->Ok_0.contents(
                final(instance).mem(),
            ) == data@,
    {
        let ghost m0 = instance.mem();
        let ghost d = data@;
        let buffer = Self::new(instance, data.len())?;
        let ghost m1 = instance.mem();
        let write_result = buffer.write(instance, data);
        proof {
            let zeros = Seq::new(d.len(), |i: int| 0u32);
            assert(buffer.valid_for(m1));
            assert(write_result is Ok);
            assert(instance.mem() =~~= m0.push(d)) by {
                assert(instance.mem() == write_mem(m1, buffer.span(), d));
                assert(d.take(min_nat(d.len(), buffer.span().len as nat) as int) =~= d);
                assert(overwrite(m1[buffer.span().alloc as int], 0, d) =~= d);
                assert(m1 == m0.push(zeros));
            }
            assert(buffer.contents(instance.mem()) =~= d);
        }
        Ok(buffer)
    }

    /// Returns a copy of the view's elements in index order. Submission
    /// completes before it returns in this engine, so a host read can
    /// never collide with in-flight device work; the one way left to fail
    /// (with `ReadFailed`) is a handle that does not denote a range of
    /// `instance`'s storage — a buffer made against a different context.
    pub fn read(&self, instance: &Instance) -> (r: Result<Vec<u32>, BufferError>)
        ensures
            self.valid_for(instance.mem()) ==> r is Ok && r->Ok_0@ == self.contents(instance.mem()),
            !self.valid_for(instance.mem()) ==> r == Result::<Vec<u32>, BufferError>::Err(BufferError::ReadFailed),
    {
        if !self.check_valid(instance) {
            return Err(BufferError::ReadFailed);
        }
        let total = instance.allocations[self.alloc].len();
        let mut out: Vec<u32> = Vec::new();
        let mut i: usize = 0;
        while i < self.len
            invariant
                self.valid_for(instance.mem()),
                i <= self.len,
                total == instance.mem()[self.alloc as int].len(),
                self.offset + self.len <= total,
                out@ == self.contents(instance.mem()).take(i as int),
            decreases self.len - i,
        {
            out.push(instance.allocations[self.alloc][self.offset + i]);
            i = i + 1;
            proof {
                assert(out@ =~= self.contents(instance.mem()).take(i as int));
            }
        }
        proof {
            assert(self.contents(instance.mem()).take(self.len as int) =~= self.contents(instance.mem()));
        }
        Ok(out)
    }

    /// Copies `min(data.len(), self.len)` elements of `data` into the
    /// front of the view. A payload longer than the view is silently
    /// truncated and a shorter one leaves the tail untouched: this
    /// leniency is deliberate, to support partial refreshes; callers that
    /// need strictness must compare lengths themselves. As with `read`,
    /// the one failure left (with `WriteFailed`) is a handle that does
    /// not denote a range of `instance`'s storage.
    pub fn write(&self, instance: &mut Instance, data: Vec<u32>) -> (r: Result<(), BufferError>)
        ensures
            self.valid_for(old(instance).mem()) ==> r is Ok && final(instance).mem() == write_mem(
                old(instance).mem(),
                self.span(),
                data@,
            ),
            !self.valid_for(old(instance).mem()) ==> r == Result::<(), BufferError>::Err(BufferError::WriteFailed)
                && *final(instance) == *old(instance),
    {
        if !self.check_valid(instance) {
            return Err(BufferError::WriteFailed);
        }
        let count = if data.len() <= self.len {
            data.len()
        } else {
            self.len
        };
        let total = instance.allocations[self.alloc].len();
        let ghost m0 = instance.mem();
        let ghost target = write_mem(m0, self.span(), data@);
        let mut i: usize = 0;
        proof {
            assert(data@.take(0) =~= Seq::<u32>::empty());
            assert(overwrite(m0[self.alloc as int], self.offset as int, data@.take(0)) =~= m0[self.alloc as int]);
            assert(m0 =~~= target.update(
                self.alloc as int,
                overwrite(m0[self.alloc as int], self.offset as int, data@.take(0)),
            ));
        }
        while i < count
            invariant
                self.valid_for(m0),
                count == min_nat(data@.len(), self.span().len as nat),
                i <= count,
                count <= data@.len(),
                self.alloc < instance.allocations.len(),
                self.offset + self.len <= total,
                total == instance.mem()[self.alloc as int].len(),
                target == write_mem(m0, self.span(), data@),
                instance.mem() == target.update(
                    self.alloc as int,
                    overwrite(m0[self.alloc as int], self.offset as int, data@.take(i as int)),
                ),
            decreases count - i,
        {
            let ghost before = instance.mem();
            let a = &mut instance.allocations[self.alloc];
            a[self.offset + i] = data[i];
            i = i + 1;
            proof {
                assert(instance.mem() =~~= target.update(
                    self.alloc as int,
                    overwrite(m0[self.alloc as int], self.offset as int, data@.take(i as int)),
                )) by {
                    assert(instance.mem() =~~= before.update(
                        self.alloc as int,
                        before[self.alloc as int].update(self.offset + i - 1, data@[i - 1]),
                    ));
                }
            }
        }
        proof {
            assert(overwrite(m0[self.alloc as int], self.offset as int, data@.take(count as int)) =~= overwrite(
                m0[self.alloc as int],
                self.offset as int,
                data@.take(min_nat(data@.len(), self.span().len as nat) as int),
            ));
            assert(instance.mem() =~~= target);
        }
        Ok(())
    }
}

impl Buffer<Gpu> {
    /// Allocates a zero-initialized device-local buffer of `len` elements.
    /// Fails with `ZeroLength` when `len == 0`. The returned buffer has no
    /// host access: data moves in and out only through recorded copies.
    pub fn new(instance: &mut Instance, len: usize) -> (r: Result<Buffer<Gpu>, BufferError>)
        ensures
            len == 0 ==> r == Result::<Buffer<Gpu>, BufferError>::Err(BufferError::ZeroLength) && *final(instance) == *old(instance),
            len > 0 ==> r is Ok && final(instance).mem() == old(instance).mem().push(
                Seq::new(len as nat, |i: int| 0u32),
            ) && (r->Ok_0.span().alloc == old(instance).mem().len() && r->Ok_0.span().offset == 0
                && r->Ok_0.span().len == len),
            len > 0 ==> r->Ok_0.valid_for(final(instance).mem()) && r->Ok_0.contents(final(instance).mem())
                == Seq::new(len as nat, |i: int| 0u32),
    {
        if len == 0 {
            return Err(BufferError::ZeroLength);
        }
        let id = instance.allocate(len);
        let b = Buffer { alloc: id, offset: 0, len, location: Gpu };
        proof {
            assert(b.contents(instance.mem()) =~= Seq::new(len as nat, |i: int| 0u32));
        }
        Ok(b)
    }
}

/// Law: writing a payload of exactly the view's length and then reading
/// the view returns exactly that payload.
pub proof fn lemma_full_write_round_trip(m: Seq<Seq<u32>>, s: Span, d: Seq<u32>)
    requires
        s.valid_for(m),
        d.len() == s.len,
    ensures
        s.valid_for(write_mem(m, s, d)),
        s.contents(write_mem(m, s, d)) == d,
{
    assert(d.take(min_nat(d.len(), s.len as nat) as int) =~= d);
    assert(s.contents(write_mem(m, s, d)) =~= d);
}

/// Law: a write of `d` through a view replaces the first
/// `min(d.len(), view.len)` elements of the view with the front of `d`
/// and leaves the view's tail untouched — a longer payload is truncated,
/// a shorter one is a partial refresh.
pub proof fn lemma_partial_write(m: Seq<Seq<u32>>, s: Span, d: Seq<u32>)
    requires
        s.valid_for(m),
    ensures
        s.valid_for(write_mem(m, s, d)),
        s.contents(write_mem(m, s, d)) == d.take(min_nat(d.len(), s.len as nat) as int) + s.contents(m).skip(
            min_nat(d.len(), s.len as nat) as int,
        ),
{
    let k = min_nat(d.len(), s.len as nat) as int;
    assert(s.contents(write_mem(m, s, d)) =~= d.take(k) + s.contents(m).skip(k));
}

/// Law: the elements of a sub-view are exactly the corresponding slice of
/// the parent view's elements.
pub proof fn lemma_sub_view_contents(m: Seq<Seq<u32>>, b: Span, s: Span)
    requires
        b.valid_for(m),
        s.valid_for(m),
        s.alloc == b.alloc,
        b.offset <= s.offset,
        s.offset + s.len <= b.offset + b.len,
    ensures
        s.contents(m) == b.contents(m).subrange(s.offset - b.offset, s.offset - b.offset + s.len),
{
    assert(s.contents(m) =~= b.contents(m).subrange(s.offset - b.offset, s.offset - b.offset + s.len));
}

/// Law: views alias. A write through a sub-view `s` of `b` is visible
/// through `b`: afterwards `b`'s elements are its old elements with the
/// written slice replaced, at the sub-view's position.
pub proof fn lemma_aliased_write_visible(m: Seq<Seq<u32>>, b: Span, s: Span, d: Seq<u32>)
    requires
        b.valid_for(m),
        s.valid_for(m),
        s.alloc == b.alloc,
        b.offset <= s.offset,
        s.offset + s.len <= b.offset + b.len,
    ensures
        b.valid_for(write_mem(m, s, d)),
        b.contents(write_mem(m, s, d)) == overwrite(
            b.contents(m),
            s.offset - b.offset,
            d.take(min_nat(d.len(), s.len as nat) as int),
        ),
{
    let k = min_nat(d.len(), s.len as nat) as int;
    assert(b.contents(write_mem(m, s, d)) =~= overwrite(b.contents(m), s.offset - b.offset, d.take(k)));
}

/// Law: isolation by disjointness. A write through one view leaves every
/// view that shares no memory with it — a different allocation, or a
/// non-overlapping range of the same allocation — exactly as it was.
pub proof fn lemma_disjoint_views_unaffected(m: Seq<Seq<u32>>, w: Span, r: Span, d: Seq<u32>)
    requires
        w.valid_for(m),
        r.valid_for(m),
        w.alloc != r.alloc || r.offset + r.len <= w.offset || w.offset + min_nat(d.len(), w.len as nat)
            <= r.offset,
    ensures
        r.valid_for(write_mem(m, w, d)),
        r.contents(write_mem(m, w, d)) == r.contents(m),
{
    assert(r.contents(write_mem(m, w, d)) =~= r.contents(m));
}

/// A short-lived description of "bind this buffer's range to resource
/// slot `slot`", produced by [`Buffer::bind`] and consumed by a dispatch.
/// It claims no invariant of its own: a dispatch re-validates every
/// binding it is handed against the program's layout and the context.
#[derive(Clone, Copy, Debug)]
pub struct BufferBinding {
    /// The resource slot the program is expected to declare.
    pub slot: u32,
    /// The bound allocation.
    pub alloc: usize,
    /// First element of the bound range.
    pub offset: usize,
    /// Number of elements of the bound range.
    pub len: usize,
}

impl BufferBinding {
    /// The range of storage this binding names.
    pub open spec fn span(&self) -> Span {
        Span { alloc: self.alloc, offset: self.offset, len: self.len }
    }
}

} // verus!
