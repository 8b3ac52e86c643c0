use vstd::prelude::*;

use crate::buffer::{overwrite, Buffer, BufferBinding, Span};
use crate::errors::TaskError;
use crate::instance::Instance;
use crate::program::Program;

verus! {

/// One recorded operation of a command sequence.
#[derive(Debug)]
pub enum Op {
    /// Copy `len` elements from one allocation range to another.
    Copy { src_alloc: usize, src_offset: usize, dst_alloc: usize, dst_offset: usize, len: usize },
    /// Bind a compute pipeline and a descriptor set, then dispatch a
    /// three-dimensional grid of workgroups. The elements the kernel
    /// computes into the bound buffers are produced by the device
    /// executor; the model records and validates the dispatch but does
    /// not track those elements.
    Dispatch { wg_size: (usize, usize, usize), bindings: Vec<BufferBinding> },
}

/// The range `[o, o + l)` denotes a positive number of elements inside
/// allocation `a` of the arena `m`.
pub open spec fn span_fits(m: Seq<Seq<u32>>, a: int, o: int, l: int) -> bool {
    &&& 0 <= a < m.len()
    &&& l > 0
    &&& 0 <= o
    &&& o + l <= m[a].len()
}

/// As `span_fits`, but against a snapshot of the allocation sizes.
pub open spec fn span_fits_sizes(sizes: Seq<usize>, a: int, o: int, l: int) -> bool {
    &&& 0 <= a < sizes.len()
    &&& l > 0
    &&& 0 <= o
    &&& o + l <= sizes[a]
}

/// The source and destination ranges of a copy share elements, which
/// makes the copy's result order-dependent; such a copy is refused when
/// recorded.
pub open spec fn copy_overlaps(src_alloc: int, src_offset: int, dst_alloc: int, dst_offset: int, l: int) -> bool {
    src_alloc == dst_alloc && src_offset < dst_offset + l && dst_offset < src_offset + l
}

/// Every range an operation touches lies inside the arena `m`.
pub open spec fn op_fits(m: Seq<Seq<u32>>, op: Op) -> bool {
    match op {
        Op::Copy { src_alloc, src_offset, dst_alloc, dst_offset, len } => span_fits(
            m,
            src_alloc as int,
            src_offset as int,
            len as int,
        ) && span_fits(m, dst_alloc as int, dst_offset as int, len as int),
        Op::Dispatch { bindings, .. } => forall|i: int|
            0 <= i < bindings@.len() ==> span_fits(
                m,
                #[trigger] bindings@[i].alloc as int,
                bindings@[i].offset as int,
                bindings@[i].len as int,
            ),
    }
}

/// Every operation of the sequence fits the arena `m`.
pub open spec fn ops_fit(m: Seq<Seq<u32>>, ops: Seq<Op>) -> bool {
    forall|i: int| 0 <= i < ops.len() ==> op_fits(m, #[trigger] ops[i])
}

/// The host-accountable fold of one operation. A copy moves the source
/// range's elements — read before anything is written — into the
/// destination range; everything else keeps its value. A dispatch
/// contributes nothing to the fold: what the kernel writes is the device
/// executor's work, so [`mem_after_submit`] claims the fold's values only
/// for elements no dispatch could have touched.
pub open spec fn apply_op(m: Seq<Seq<u32>>, op: Op) -> Seq<Seq<u32>> {
    match op {
        Op::Copy { src_alloc, src_offset, dst_alloc, dst_offset, len } => m.update(
            dst_alloc as int,
            overwrite(
                m[dst_alloc as int],
                dst_offset as int,
                m[src_alloc as int].subrange(src_offset as int, src_offset + len),
            ),
        ),
        Op::Dispatch { .. } => m,
    }
}

/// The arena after a whole sequence, applied in recorded order.
pub open spec fn apply_ops(m: Seq<Seq<u32>>, ops: Seq<Op>) -> Seq<Seq<u32>>
    decreases ops.len(),
{
    if ops.len() == 0 {
        m
    } else {
        apply_ops(apply_op(m, ops[0]), ops.skip(1))
    }
}

/// The slot numbers of a binding list, in order.
pub open spec fn slots_of(bs: Seq<BufferBinding>) -> Seq<u32> {
    bs.map_values(|b: BufferBinding| b.slot)
}

/// The provided binding slots cover the declared layout exactly: same
/// count, every provided slot is declared, and no slot is provided twice.
/// With a duplicate-free layout this makes the bindings a one-to-one
/// match of the declaration.
pub open spec fn bindings_match_layout(declared: Seq<u32>, provided: Seq<u32>) -> bool {
    &&& provided.len() == declared.len()
    &&& forall|i: int| 0 <= i < provided.len() ==> declared.contains(#[trigger] provided[i])
    &&& forall|i: int, j: int| 0 <= i < j < provided.len() ==> provided[i] != provided[j]
}

/// `sizes` records the length of every allocation of `m`.
pub open spec fn sizes_match(sizes: Seq<usize>, m: Seq<Seq<u32>>) -> bool {
    &&& sizes.len() == m.len()
    &&& forall|i: int| 0 <= i < m.len() ==> #[trigger] sizes[i] == m[i].len()
}

/// Applying an operation never changes the number of allocations nor any
/// allocation's length.
pub proof fn lemma_apply_op_preserves_shape(m: Seq<Seq<u32>>, op: Op)
    requires
        op_fits(m, op),
    ensures
        apply_op(m, op).len() == m.len(),
        forall|a: int| 0 <= a < m.len() ==> #[trigger] apply_op(m, op)[a].len() == m[a].len(),
{
}

/// Unrolling `apply_ops` at the end: running `i + 1` operations is
/// running `i` and then the next one.
pub proof fn lemma_apply_ops_take_step(m: Seq<Seq<u32>>, ops: Seq<Op>, i: int)
    requires
        0 <= i < ops.len(),
    ensures
        apply_ops(m, ops.take(i + 1)) == apply_op(apply_ops(m, ops.take(i)), ops[i]),
    decreases i,
{
    if i == 0 {
        assert(ops.take(0) =~= Seq::<Op>::empty());
        assert(ops.take(1).skip(1) =~= Seq::<Op>::empty());
        assert(ops.take(1)[0] == ops[0]);
        assert(apply_ops(m, ops.take(1)) == apply_ops(apply_op(m, ops[0]), Seq::<Op>::empty()));
        assert(apply_ops(apply_op(m, ops[0]), Seq::<Op>::empty()) == apply_op(m, ops[0]));
        assert(apply_ops(m, ops.take(0)) == m);
    } else {
        let t1 = ops.take(i + 1);
        let t0 = ops.take(i);
        assert(t1[0] == ops[0]);
        assert(t0[0] == ops[0]);
        assert(t1.skip(1) =~= ops.skip(1).take(i));
        assert(t0.skip(1) =~= ops.skip(1).take(i - 1));
        assert(apply_ops(m, t1) == apply_ops(apply_op(m, ops[0]), ops.skip(1).take(i)));
        assert(apply_ops(m, t0) == apply_ops(apply_op(m, ops[0]), ops.skip(1).take(i - 1)));
        lemma_apply_ops_take_step(apply_op(m, ops[0]), ops.skip(1), i - 1);
        assert(ops.skip(1)[i - 1] == ops[i]);
    }
}

/// An operation sequence that fits an arena also fits the arena after
/// any prefix of it has been applied, since shapes never change.
pub proof fn lemma_ops_fit_preserved(m: Seq<Seq<u32>>, ops: Seq<Op>, i: int)
    requires
        0 <= i <= ops.len(),
        ops_fit(m, ops),
    ensures
        apply_ops(m, ops.take(i)).len() == m.len(),
        forall|a: int|
            0 <= a < m.len() ==> #[trigger] apply_ops(m, ops.take(i))[a].len() == m[a].len(),
    decreases i,
{
    if i == 0 {
        assert(ops.take(0) =~= Seq::<Op>::empty());
    } else {
        lemma_ops_fit_preserved(m, ops, i - 1);
        lemma_apply_ops_take_step(m, ops, i - 1);
        lemma_apply_op_preserves_shape(apply_ops(m, ops.take(i - 1)), ops[i - 1]);
    }
}

/// A copy between these two views can be recorded against the snapshot:
/// both ranges lie inside the context's storage and share no elements.
pub open spec fn copy_recordable(sizes: Seq<usize>, src: Span, dst: Span) -> bool {
    &&& span_fits_sizes(sizes, src.alloc as int, src.offset as int, src.len as int)
    &&& span_fits_sizes(sizes, dst.alloc as int, dst.offset as int, dst.len as int)
    &&& !copy_overlaps(src.alloc as int, src.offset as int, dst.alloc as int, dst.offset as int, src.len as int)
}

/// The operation that a recorded copy between these two views becomes.
pub open spec fn copy_op(src: Span, dst: Span) -> Op {
    Op::Copy {
        src_alloc: src.alloc,
        src_offset: src.offset,
        dst_alloc: dst.alloc,
        dst_offset: dst.offset,
        len: src.len,
    }
}

/// Every bound range lies inside the context's storage.
pub open spec fn bindings_fit_sizes(sizes: Seq<usize>, bindings: Seq<BufferBinding>) -> bool {
    forall|i: int|
        0 <= i < bindings.len() ==> span_fits_sizes(
            sizes,
            #[trigger] bindings[i].alloc as int,
            bindings[i].offset as int,
            bindings[i].len as int,
        )
}

/// Every range an operation touches lies inside the recorded size
/// snapshot; what the builder validates before recording the operation.
pub open spec fn op_fits_sizes(sizes: Seq<usize>, op: Op) -> bool {
    match op {
        Op::Copy { src_alloc, src_offset, dst_alloc, dst_offset, len } => span_fits_sizes(
            sizes,
            src_alloc as int,
            src_offset as int,
            len as int,
        ) && span_fits_sizes(sizes, dst_alloc as int, dst_offset as int, len as int),
        Op::Dispatch { bindings, .. } => forall|i: int|
            0 <= i < bindings@.len() ==> span_fits_sizes(
                sizes,
                #[trigger] bindings@[i].alloc as int,
                bindings@[i].offset as int,
                bindings@[i].len as int,
            ),
    }
}

/// Law: caller errors surface at recording time, not at submission time.
/// A builder's size snapshot agrees with the context it was opened
/// against, so a range that passes recording-time validation fits the
/// same context at submission, and one that does not is refused before
/// anything is recorded.
pub proof fn lemma_snapshot_agrees(sizes: Seq<usize>, m: Seq<Seq<u32>>, a: int, o: int, l: int)
    requires
        sizes_match(sizes, m),
    ensures
        span_fits_sizes(sizes, a, o, l) == span_fits(m, a, o, l),
{
}

/// Law: an operation that passed recording-time validation fits the
/// context the builder was opened against, so a sequence recorded there
/// is owed a successful submission on that same context.
pub proof fn lemma_recorded_op_fits(sizes: Seq<usize>, m: Seq<Seq<u32>>, op: Op)
    requires
        sizes_match(sizes, m),
    ensures
        op_fits_sizes(sizes, op) == op_fits(m, op),
{
}

/// A range of the arena whose binding lists it as a kernel resource.
pub open spec fn bound_by(b: BufferBinding, a: int, j: int) -> bool {
    a == b.span().alloc && b.span().offset <= j < b.span().offset + b.span().len
}

/// Whether the element at position `(a, j)` may, after the sequence has
/// executed, hold a value a dispatched kernel computed. A dispatch makes
/// every element of its bound ranges kernel-computed; a later copy hands
/// the property of its source elements on to its destination — and a
/// copy of elements no kernel touched makes its destination plain again.
pub open spec fn dispatch_dependent(ops: Seq<Op>, a: int, j: int) -> bool
    decreases ops.len(),
{
    if ops.len() == 0 {
        false
    } else {
        let prefix = ops.drop_last();
        match ops.last() {
            Op::Copy { src_alloc, src_offset, dst_alloc, dst_offset, len } => {
                if a == dst_alloc && dst_offset <= j < dst_offset + len {
                    dispatch_dependent(prefix, src_alloc as int, src_offset + (j - dst_offset))
                } else {
                    dispatch_dependent(prefix, a, j)
                }
            },
            Op::Dispatch { bindings, .. } => {
                if exists|k: int| 0 <= k < bindings@.len() && bound_by(#[trigger] bindings@[k], a, j) {
                    true
                } else {
                    dispatch_dependent(prefix, a, j)
                }
            },
        }
    }
}

/// What a completed submission promises of the arena: the shape is
/// unchanged — same allocations, same lengths — and every element that no
/// dispatched kernel could have computed holds exactly what the recorded
/// copies alone produce. Elements a kernel may have written are left
/// unconstrained: their values are the device executor's work, and this
/// engine promises nothing about them.
pub open spec fn mem_after_submit(m0: Seq<Seq<u32>>, ops: Seq<Op>, m1: Seq<Seq<u32>>) -> bool {
    &&& m1.len() == m0.len()
    &&& forall|a: int| 0 <= a < m0.len() ==> #[trigger] m1[a].len() == m0[a].len()
    &&& forall|a: int, j: int|
        0 <= a < m0.len() && 0 <= j < m0[a].len() && !dispatch_dependent(ops, a, j) ==> #[trigger] m1[a][j]
            == apply_ops(m0, ops)[a][j]
}

/// A sequence that records no dispatch.
pub open spec fn copies_only(ops: Seq<Op>) -> bool {
    forall|i: int| 0 <= i < ops.len() ==> ops[i] is Copy
}

/// Without a dispatch in the sequence, no element is kernel-computed.
pub proof fn lemma_copies_only_not_dependent(ops: Seq<Op>, a: int, j: int)
    requires
        copies_only(ops),
    ensures
        !dispatch_dependent(ops, a, j),
    decreases ops.len(),
{
    if ops.len() > 0 {
        let prefix = ops.drop_last();
        assert(ops.last() == ops[ops.len() - 1]);
        assert(copies_only(prefix)) by {
            assert(forall|i: int| 0 <= i < prefix.len() ==> prefix[i] == ops[i]);
        }
        match ops.last() {
            Op::Copy { src_alloc, src_offset, dst_alloc, dst_offset, len } => {
                if a == dst_alloc && dst_offset <= j < dst_offset + len {
                    lemma_copies_only_not_dependent(prefix, src_alloc as int, src_offset + (j - dst_offset));
                } else {
                    lemma_copies_only_not_dependent(prefix, a, j);
                }
            },
            Op::Dispatch { .. } => {
                assert(false);
            },
        }
    }
}

/// Law: a sequence of copies alone is fully determined. Whatever a
/// completed submission of it left behind is exactly the copies applied
/// in order — the weaker dispatch clause costs nothing when no dispatch
/// was recorded.
pub proof fn lemma_copies_fully_determined(m0: Seq<Seq<u32>>, ops: Seq<Op>, m1: Seq<Seq<u32>>)
    requires
        ops_fit(m0, ops),
        copies_only(ops),
        mem_after_submit(m0, ops, m1),
    ensures
        m1 == apply_ops(m0, ops),
{
    lemma_ops_fit_preserved(m0, ops, ops.len() as int);
    assert(ops.take(ops.len() as int) =~= ops);
    assert forall|a: int, j: int|
        0 <= a < m0.len() && 0 <= j < m0[a].len() implies m1[a][j] == apply_ops(m0, ops)[a][j] by {
        lemma_copies_only_not_dependent(ops, a, j);
    }
    assert(m1 =~~= apply_ops(m0, ops));
}

/// Law: a copy written through the executor moves exactly the source's
/// elements at execution time. Copying `a` into `b` and then `b` into `c`
/// therefore hands `a`'s original elements through unchanged, whatever
/// locations the three buffers live in — this is the staging pattern that
/// moves data across device-local memory.
pub proof fn lemma_copy_round_trip(m: Seq<Seq<u32>>, a: Span, b: Span, c: Span)
    requires
        a.valid_for(m),
        b.valid_for(m),
        c.valid_for(m),
        a.len == b.len,
        b.len == c.len,
    ensures
        ({
            let m2 = apply_op(apply_op(m, copy_op(a, b)), copy_op(b, c));
            c.valid_for(m2) && c.contents(m2) == a.contents(m)
        }),
{
    let m1 = apply_op(m, copy_op(a, b));
    let m2 = apply_op(m1, copy_op(b, c));
    assert(b.contents(m1) =~= a.contents(m));
    assert(c.contents(m2) =~= b.contents(m1));
}

/// The asynchronous completion handle of exactly one submission. It is
/// consumed by the single wait operation: a future can neither be waited
/// on twice nor polled.
pub struct TaskFuture {}

impl TaskFuture {
    /// Blocks until the submitted sequence has completed on the queue,
    /// consuming the future. In this engine the executor completes the
    /// sequence before submission returns, so the completion fence is
    /// already signalled and waiting always succeeds.
    pub fn wait(self) -> (r: Result<(), TaskError>)
        ensures
            r is Ok,
    {
        Ok(())
    }
}

/// A finalized, immutable command sequence. Submitting it does not
/// capture buffer values: every submission re-reads whatever the
/// referenced allocations hold at that moment, so one task may be
/// submitted any number of times with different effects.
pub struct Task {
    /// The recorded operations, in execution order.
    pub(crate) ops: Vec<Op>,
}

impl Task {
    /// The recorded operations, in execution order.
    pub open(crate) spec fn recorded(&self) -> Seq<Op> {
        self.ops@
    }

    /// Enqueues the sequence and completes it in recorded order,
    /// returning the completion handle. Fails with `SubmissionFailed` —
    /// leaving every allocation untouched — exactly when some recorded
    /// operation does not fit `instance`'s storage, which can only happen
    /// when the sequence was recorded against a different context; queue
    /// rejection has no analogue in this engine. On success the arena
    /// satisfies [`mem_after_submit`]: its shape is unchanged, elements no
    /// dispatched kernel could have computed hold exactly what the
    /// recorded copies produce on the submission-time contents, and the
    /// elements of dispatch-bound ranges are whatever the kernels made of
    /// them.
    pub fn submit(&self, instance: &mut Instance) -> (r: Result<TaskFuture, TaskError>)
        ensures
            ops_fit(old(instance).mem(), self.recorded()) ==> r is Ok && mem_after_submit(
                old(instance).mem(),
                self.recorded(),
                final(instance).mem(),
            ),
            !ops_fit(old(instance).mem(), self.recorded()) ==> r == Result::<TaskFuture, TaskError>::Err(
                TaskError::SubmissionFailed,
            ) && *final(instance) == *old(instance),
    {
        let ghost m0 = instance.mem();
        let n = self.ops.len();
        let mut i: usize = 0;
        while i < n
            invariant
                n == self.ops@.len(),
                i <= n,
                forall|k: int| 0 <= k < i ==> op_fits(instance.mem(), #[trigger] self.ops@[k]),
            decreases n - i,
        {
            if !op_fits_check(instance, &self.ops[i]) {
                return Err(TaskError::SubmissionFailed);
            }
            i = i + 1;
        }
        let mut i: usize = 0;
        proof {
            assert(self.ops@.take(0) =~= Seq::<Op>::empty());
        }
        while i < n
            invariant
                n == self.ops@.len(),
                i <= n,
                ops_fit(m0, self.ops@),
                instance.mem() == apply_ops(m0, self.ops@.take(i as int)),
            decreases n - i,
        {
            proof {
                lemma_ops_fit_preserved(m0, self.ops@, i as int);
                lemma_apply_ops_take_step(m0, self.ops@, i as int);
            }
            match &self.ops[i] {
                Op::Copy { src_alloc, src_offset, dst_alloc, dst_offset, len } => {
                    run_copy(instance, *src_alloc, *src_offset, *dst_alloc, *dst_offset, *len);
                },
                Op::Dispatch { .. } => {
                    // The kernel's effect on the bound buffers comes from the
                    // device executor; the modeled arena keeps its elements.
                },
            }
            i = i + 1;
        }
        proof {
            assert(self.ops@.take(n as int) =~= self.ops@);
            lemma_ops_fit_preserved(m0, self.ops@, n as int);
            assert(mem_after_submit(m0, self.ops@, instance.mem()));
        }
        Ok(TaskFuture {  })
    }

    /// Submits the sequence and then waits on the returned future,
    /// surfacing either error verbatim.
    pub fn submit_and_wait(&self, instance: &mut Instance) -> (r: Result<(), TaskError>)
        ensures
            ops_fit(old(instance).mem(), self.recorded()) ==> r is Ok && mem_after_submit(
                old(instance).mem(),
                self.recorded(),
                final(instance).mem(),
            ),
            !ops_fit(old(instance).mem(), self.recorded()) ==> r == Result::<(), TaskError>::Err(
                TaskError::SubmissionFailed,
            ) && *final(instance) == *old(instance),
    {
        self.submit(instance)?.wait()?;
        Ok(())
    }
}

/// A mutable, append-only accumulator of copy and dispatch operations.
/// Every recording call consumes the builder and returns it, so one
/// in-progress sequence has exactly one owner and is built strictly
/// sequentially; `build` freezes it into an immutable [`Task`].
#[derive(Debug)]
pub struct TaskBuilder {
    /// Snapshot of every allocation's length in the context the builder
    /// was opened against, used to validate recorded ranges.
    pub(crate) sizes: Vec<usize>,
    /// The operations recorded so far, in order.
    pub(crate) ops: Vec<Op>,
}

impl TaskBuilder {
    /// The allocation-length snapshot recorded ranges are validated
    /// against.
    pub open(crate) spec fn snapshot(&self) -> Seq<usize> {
        self.sizes@
    }

    /// The operations recorded so far, in order.
    pub open(crate) spec fn recorded(&self) -> Seq<Op> {
        self.ops@
    }

    /// Opens a builder against `instance`, recording no operations yet.
    /// The builder validates every recorded range against the lengths of
    /// the allocations that exist now; in this engine the recording
    /// resource itself cannot fail to allocate.
    pub fn new(instance: &Instance) -> (r: Result<TaskBuilder, TaskError>)
        ensures
            r is Ok,
            sizes_match(r->Ok_0.snapshot(), instance.mem()),
            r->Ok_0.recorded() == Seq::<Op>::empty(),
    {
        let n = instance.allocations.len();
        let mut sizes: Vec<usize> = Vec::new();
        let mut i: usize = 0;
        while i < n
            invariant
                n == instance.mem().len(),
                i <= n,
                sizes@.len() == i,
                forall|k: int| 0 <= k < i ==> #[trigger] sizes@[k] == instance.mem()[k].len(),
            decreases n - i,
        {
            sizes.push(instance.allocations[i].len());
            i = i + 1;
        }
        Ok(TaskBuilder { sizes, ops: Vec::new() })
    }

    /// Records a copy of all elements of `src` into `dst`. The two
    /// buffers must have exactly equal lengths: a mis-sized copy almost
    /// always indicates a caller bug, so unlike the lenient single-buffer
    /// `write` it is rejected with `UnequalBufferSize`, and nothing is
    /// recorded. Fails with `CopyRecordingFailed` when a buffer does not
    /// belong to the builder's context or the two ranges overlap.
    pub fn copy_buffer<LS, LD>(self, src: &Buffer<LS>, dst: &Buffer<LD>) -> (r: Result<
        TaskBuilder,
        TaskError,
    >)
        ensures
            src.span().len != dst.span().len ==> r == Result::<TaskBuilder, TaskError>::Err(
                TaskError::UnequalBufferSize,
            ),
            src.span().len == dst.span().len && !copy_recordable(self.snapshot(), src.span(), dst.span())
                ==> r == Result::<TaskBuilder, TaskError>::Err(TaskError::CopyRecordingFailed),
            src.span().len == dst.span().len && copy_recordable(self.snapshot(), src.span(), dst.span())
                ==> r is Ok && r->Ok_0.snapshot() == self.snapshot() && r->Ok_0.recorded() == self.recorded().push(
                copy_op(src.span(), dst.span()),
            ),
    {
        if src.len != dst.len {
            return Err(TaskError::UnequalBufferSize);
        }
        if !span_check_sizes(&self.sizes, src.alloc, src.offset, src.len) {
            return Err(TaskError::CopyRecordingFailed);
        }
        if !span_check_sizes(&self.sizes, dst.alloc, dst.offset, dst.len) {
            return Err(TaskError::CopyRecordingFailed);
        }
        if src.alloc == dst.alloc && src.offset < dst.offset + dst.len && dst.offset < src.offset + src.len {
            return Err(TaskError::CopyRecordingFailed);
        }
        let mut ops = self.ops;
        ops.push(
            Op::Copy {
                src_alloc: src.alloc,
                src_offset: src.offset,
                dst_alloc: dst.alloc,
                dst_offset: dst.offset,
                len: src.len,
            },
        );
        Ok(TaskBuilder { sizes: self.sizes, ops })
    }

    /// Records a dispatch of `program` over a three-dimensional grid of
    /// `wg_size` workgroups, with a fresh descriptor set built from
    /// `bindings`. The bindings must match the program's derived layout
    /// slot for slot — same count, every slot declared, none bound twice
    /// — otherwise the call fails with `DescriptorSetCreationFailed`
    /// here, at recording time, and nothing is recorded. Fails with
    /// `DispatchRecordingFailed` when a bound buffer does not belong to
    /// the builder's context.
    pub fn run_program(self, program: &Program, wg_size: (usize, usize, usize), bindings: Vec<
        BufferBinding,
    >) -> (r: Result<TaskBuilder, TaskError>)
        ensures
            !bindings_match_layout(program.slots@, slots_of(bindings@)) ==> r == Result::<
                TaskBuilder,
                TaskError,
            >::Err(TaskError::DescriptorSetCreationFailed),
            bindings_match_layout(program.slots@, slots_of(bindings@)) && !bindings_fit_sizes(
                self.snapshot(),
                bindings@,
            ) ==> r == Result::<TaskBuilder, TaskError>::Err(TaskError::DispatchRecordingFailed),
            bindings_match_layout(program.slots@, slots_of(bindings@)) && bindings_fit_sizes(
                self.snapshot(),
                bindings@,
            ) ==> r is Ok && r->Ok_0.snapshot() == self.snapshot() && r->Ok_0.recorded() == self.recorded().push(
                (Op::Dispatch { wg_size, bindings: bindings }),
            ),
    {
        let n = bindings.len();
        let mut i: usize = 0;
        if n != program.slots.len() {
            return Err(TaskError::DescriptorSetCreationFailed);
        }
        while i < n
            invariant
                n == bindings@.len(),
                n == program.slots@.len(),
                i <= n,
                forall|k: int| 0 <= k < i ==> program.slots@.contains(#[trigger] slots_of(bindings@)[k]),
                forall|k: int, j: int| 0 <= k < j < i ==> slots_of(bindings@)[k] != slots_of(bindings@)[j],
            decreases n - i,
        {
            if !slot_list_contains(&program.slots, bindings[i].slot) {
                proof {
                    assert(slots_of(bindings@)[i as int] == bindings@[i as int].slot);
                }
                return Err(TaskError::DescriptorSetCreationFailed);
            }
            let mut j: usize = 0;
            while j < i
                invariant
                    n == bindings@.len(),
                    j <= i < n,
                    forall|k: int| 0 <= k < j ==> slots_of(bindings@)[k] != slots_of(bindings@)[i as int],
                decreases i - j,
            {
                if bindings[j].slot == bindings[i].slot {
                    proof {
                        assert(slots_of(bindings@)[j as int] == slots_of(bindings@)[i as int]);
                    }
                    return Err(TaskError::DescriptorSetCreationFailed);
                }
                j = j + 1;
            }
            i = i + 1;
        }
        let mut i: usize = 0;
        while i < n
            invariant
                n == bindings@.len(),
                i <= n,
                forall|k: int| 0 <= k < i ==> span_fits_sizes(
                    self.sizes@,
                    #[trigger] bindings@[k].alloc as int,
                    bindings@[k].offset as int,
                    bindings@[k].len as int,
                ),
                bindings_match_layout(program.slots@, slots_of(bindings@)),
            decreases n - i,
        {
            if !span_check_sizes(&self.sizes, bindings[i].alloc, bindings[i].offset, bindings[i].len) {
                return Err(TaskError::DispatchRecordingFailed);
            }
            i = i + 1;
        }
        let mut ops = self.ops;
        ops.push(Op::Dispatch { wg_size, bindings });
        Ok(TaskBuilder { sizes: self.sizes, ops })
    }

    /// Finalizes the recording, consuming the builder and yielding an
    /// immutable, resubmittable task holding exactly the recorded
    /// sequence. In this engine a recorded sequence is always consistent,
    /// so finalizing cannot fail.
    pub fn build(self) -> (r: Result<Task, TaskError>)
        ensures
            r is Ok,
            r->Ok_0.recorded() == self.recorded(),
    {
        Ok(Task { ops: self.ops })
    }

    /// Finalizes the sequence, submits it once and waits for completion,
    /// surfacing the first error met.
    pub fn build_submit_and_wait(self, instance: &mut Instance) -> (r: Result<(), TaskError>)
        ensures
            ops_fit(old(instance).mem(), self.recorded()) ==> r is Ok && mem_after_submit(
                old(instance).mem(),
                self.recorded(),
                final(instance).mem(),
            ),
            !ops_fit(old(instance).mem(), self.recorded()) ==> r == Result::<(), TaskError>::Err(
                TaskError::SubmissionFailed,
            ) && *final(instance) == *old(instance),
    {
        self.build()?.submit_and_wait(instance)?;
        Ok(())
    }
}

/// Runtime check that a slot list contains `slot`.
fn slot_list_contains(slots: &Vec<u32>, slot: u32) -> (r: bool)
    ensures
        r == slots@.contains(slot),
{
    let n = slots.len();
    let mut i: usize = 0;
    while i < n
        invariant
            n == slots@.len(),
            i <= n,
            forall|k: int| 0 <= k < i ==> slots@[k] != slot,
        decreases n - i,
    {
        if slots[i] == slot {
            return true;
        }
        i = i + 1;
    }
    false
}

/// Runtime check that `[o, o + l)` is a positive range inside allocation
/// `a` of the recorded size snapshot, phrased to avoid overflow.
fn span_check_sizes(sizes: &Vec<usize>, a: usize, o: usize, l: usize) -> (r: bool)
    ensures
        r == span_fits_sizes(sizes@, a as int, o as int, l as int),
{
    a < sizes.len() && l > 0 && o <= sizes[a] && l <= sizes[a] - o
}

/// Runtime check that an operation's ranges fit the context's storage.
fn op_fits_check(instance: &Instance, op: &Op) -> (r: bool)
    ensures
        r == op_fits(instance.mem(), *op),
{
    match op {
        Op::Copy { src_alloc, src_offset, dst_alloc, dst_offset, len } => {
            span_check(instance, *src_alloc, *src_offset, *len) && span_check(
                instance,
                *dst_alloc,
                *dst_offset,
                *len,
            )
        },
        Op::Dispatch { bindings, .. } => {
            let mut i: usize = 0;
            let mut ok = true;
            while i < bindings.len()
                invariant
                    i <= bindings@.len(),
                    ok == forall|k: int|
                        0 <= k < i ==> span_fits(
                            instance.mem(),
                            #[trigger] bindings@[k].alloc as int,
                            bindings@[k].offset as int,
                            bindings@[k].len as int,
                        ),
                decreases bindings@.len() - i,
            {
                let b = &bindings[i];
                ok = ok && span_check(instance, b.alloc, b.offset, b.len);
                i = i + 1;
            }
            ok
        },
    }
}

/// Runtime check that `[o, o + l)` is a positive range inside allocation
/// `a`, phrased to avoid overflow.
fn span_check(instance: &Instance, a: usize, o: usize, l: usize) -> (r: bool)
    ensures
        r == span_fits(instance.mem(), a as int, o as int, l as int),
{
    a < instance.allocations.len() && l > 0 && o <= instance.allocations[a].len() && l
        <= instance.allocations[a].len() - o
}

/// Executes one copy: reads the source range, then writes it over the
/// destination range.
fn run_copy(instance: &mut Instance, src_alloc: usize, src_offset: usize, dst_alloc: usize, dst_offset: usize, len: usize)
    requires
        span_fits(old(instance).mem(), src_alloc as int, src_offset as int, len as int),
        span_fits(old(instance).mem(), dst_alloc as int, dst_offset as int, len as int),
    ensures
        final(instance).mem() == apply_op(
            old(instance).mem(),
            (Op::Copy { src_alloc, src_offset, dst_alloc, dst_offset, len }),
        ),
{
    let ghost m0 = instance.mem();
    let ghost payload = m0[src_alloc as int].subrange(src_offset as int, src_offset + len);
    let src_total = instance.allocations[src_alloc].len();
    let dst_total = instance.allocations[dst_alloc].len();
    let mut tmp: Vec<u32> = Vec::new();
    let mut i: usize = 0;
    while i < len
        invariant
            span_fits(instance.mem(), src_alloc as int, src_offset as int, len as int),
            i <= len,
            src_total == instance.mem()[src_alloc as int].len(),
            tmp@ == payload.take(i as int),
            payload == instance.mem()[src_alloc as int].subrange(src_offset as int, src_offset + len),
        decreases len - i,
    {
        tmp.push(instance.allocations[src_alloc][src_offset + i]);
        i = i + 1;
        proof {
            assert(tmp@ =~= payload.take(i as int));
        }
    }
    proof {
        assert(tmp@ =~= payload);
    }
    let ghost target = apply_op(m0, (Op::Copy { src_alloc, src_offset, dst_alloc, dst_offset, len }));
    let mut i: usize = 0;
    proof {
        assert(payload.take(0) =~= Seq::<u32>::empty());
        assert(overwrite(m0[dst_alloc as int], dst_offset as int, payload.take(0)) =~= m0[dst_alloc as int]);
        assert(m0 =~~= target.update(
            dst_alloc as int,
            overwrite(m0[dst_alloc as int], dst_offset as int, payload.take(0)),
        ));
    }
    while i < len
        invariant
            span_fits(m0, dst_alloc as int, dst_offset as int, len as int),
            i <= len,
            len == payload.len(),
            tmp@ == payload,
            dst_alloc < instance.allocations.len(),
            dst_offset + len <= dst_total,
            dst_total == instance.mem()[dst_alloc as int].len(),
            target == apply_op(m0, (Op::Copy { src_alloc, src_offset, dst_alloc, dst_offset, len })),
            instance.mem() == target.update(
                dst_alloc as int,
                overwrite(m0[dst_alloc as int], dst_offset as int, payload.take(i as int)),
            ),
        decreases len - i,
    {
        let ghost before = instance.mem();
        let a = &mut instance.allocations[dst_alloc];
        a[dst_offset + i] = tmp[i];
        i = i + 1;
        proof {
            assert(instance.mem() =~~= target.update(
                dst_alloc as int,
                overwrite(m0[dst_alloc as int], dst_offset as int, payload.take(i as int)),
            )) by {
                assert(instance.mem() =~~= before.update(
                    dst_alloc as int,
                    before[dst_alloc as int].update(dst_offset + i - 1, payload[i - 1]),
                ));
            }
        }
    }
    proof {
        assert(payload.take(len as int) =~= payload);
        assert(instance.mem() =~~= target);
    }
}

} // verus!
