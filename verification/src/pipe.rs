//! The in-memory byte pipe that carries a client's own voice into its mixer.
use std::collections::VecDeque;
use vstd::prelude::*;

verus! {

/// How many bytes move when `have` bytes are ready and `room` bytes fit.
pub open spec fn transfer(have: nat, room: nat) -> nat {
    if have < room {
        have
    } else {
        room
    }
}

/// `buf` after the first `count` bytes of `queue` were read into it.
pub open spec fn filled(queue: Seq<u8>, buf: Seq<u8>, count: nat) -> Seq<u8> {
    queue.take(count as int) + buf.skip(count as int)
}

/// Moves bytes from the front of `queue` to the start of `buf`, as many as
/// there are and as fit, and returns how many were moved.
pub(crate) fn drain_into(queue: &mut VecDeque<u8>, buf: &mut [u8]) -> (count: usize)
    ensures
        count == transfer(old(queue)@.len(), old(buf)@.len()),
        final(queue)@ == old(queue)@.skip(count as int),
        final(buf)@ == filled(old(queue)@, old(buf)@, count as nat),
{
    let room: usize = buf.len();
    let mut i: usize = 0;
    assert(queue@ =~= old(queue)@.skip(0));
    assert(buf@ =~= filled(old(queue)@, old(buf)@, 0));
    while i < room
        invariant
            i <= room,
            room == buf@.len() == old(buf)@.len(),
            i <= old(queue)@.len(),
            queue@ == old(queue)@.skip(i as int),
            buf@ == filled(old(queue)@, old(buf)@, i as nat),
        ensures
            i == room || queue@.len() == 0,
        decreases room - i,
    {
        match queue.pop_front() {
            Some(byte) => {
                buf[i] = byte;
                i = i + 1;
                assert(queue@ =~= old(queue)@.skip(i as int));
                assert(buf@ =~= filled(old(queue)@, old(buf)@, i as nat));
            },
            None => {
                break;
            },
        }
    }
    i
}

/// Appends the bytes of `data` to the back of `queue`.
pub(crate) fn append_bytes(queue: &mut VecDeque<u8>, data: &[u8])
    ensures
        final(queue)@ == old(queue)@ + data@,
{
    let mut i: usize = 0;
    assert(queue@ =~= old(queue)@ + data@.take(0));
    while i < data.len()
        invariant
            i <= data@.len(),
            queue@ == old(queue)@ + data@.take(i as int),
        decreases data@.len() - i,
    {
        queue.push_back(data[i]);
        i = i + 1;
        assert(queue@ =~= old(queue)@ + data@.take(i as int));
    }
    assert(data@.take(i as int) =~= data@);
}

/// The state of a pipe.
#[verifier::ext_equal]
pub struct PipeModel<W> {
    /// The bytes that were written and not read yet, oldest first.
    pub queue: Seq<u8>,
    /// Who waits for bytes.
    pub waker: Option<W>,
}

/// One use of a pipe.
pub enum PipeOp<W> {
    /// A read by this reader, with room for so many bytes.
    Read(W, nat),
    /// A write of these bytes.
    Write(Seq<u8>),
    Flush,
    Close,
}

/// Whether a use of a pipe is a read that finds nothing to read, or no room
/// for it.
pub open spec fn comes_up_empty<W>(m: PipeModel<W>, op: PipeOp<W>) -> bool {
    match op {
        PipeOp::Read(_, room) => transfer(m.queue.len(), room) == 0,
        _ => false,
    }
}

/// Who is woken by a use of a pipe.
pub open spec fn woken<W>(m: PipeModel<W>, op: PipeOp<W>) -> Option<W> {
    match op {
        PipeOp::Flush | PipeOp::Close => m.waker,
        _ => None,
    }
}

/// The state after a use of a pipe.
pub open spec fn after_op<W>(m: PipeModel<W>, op: PipeOp<W>) -> PipeModel<W> {
    match op {
        PipeOp::Read(waker, room) => PipeModel {
            queue: m.queue.skip(transfer(m.queue.len(), room) as int),
            waker: if comes_up_empty(m, op) {
                Some(waker)
            } else {
                m.waker
            },
        },
        PipeOp::Write(data) => PipeModel { queue: m.queue + data, waker: m.waker },
        PipeOp::Flush | PipeOp::Close => PipeModel { queue: m.queue, waker: None },
    }
}

/// An unbounded first-in first-out byte pipe.
///
/// The last reader that came up empty is remembered by its waker, so that the
/// next flush can wake it.
pub struct BytesPipe<W> {
    buf: VecDeque<u8>,
    waker: Option<W>,
}

impl<W> View for BytesPipe<W> {
    type V = PipeModel<W>;

    closed spec fn view(&self) -> PipeModel<W> {
        PipeModel { queue: self.buf@, waker: self.waker }
    }
}

impl<W> BytesPipe<W> {
    /// An empty pipe that nobody waits for.
    pub fn new() -> (pipe: BytesPipe<W>)
        ensures
            pipe@ == (PipeModel { queue: Seq::<u8>::empty(), waker: None::<W> }),
    {
        let pipe = BytesPipe { buf: VecDeque::new(), waker: None };
        assert(pipe@.queue =~= Seq::<u8>::empty());
        pipe
    }

    /// Reads what is there into the start of `buf`.
    ///
    /// Returns how many bytes were read, or `None` when none could be, and
    /// then the reader is remembered, in place of one that waited before.
    pub fn poll_read(&mut self, waker: W, buf: &mut [u8]) -> (read: Option<usize>)
        ensures
            ({
                let count = transfer(old(self)@.queue.len(), old(buf)@.len());
                &&& read == if count == 0 { None::<usize> } else { Some(count as usize) }
                &&& final(buf)@ == filled(old(self)@.queue, old(buf)@, count)
            }),
            final(self)@ == after_op(old(self)@, PipeOp::Read(waker, old(buf)@.len())),
    {
        let count: usize = drain_into(&mut self.buf, buf);
        if count == 0 {
            self.waker = Some(waker);
            None
        } else {
            Some(count)
        }
    }

    /// Writes all of `data` and returns its length. Nobody is woken.
    pub fn poll_write(&mut self, data: &[u8]) -> (written: usize)
        ensures
            written == data@.len(),
            final(self)@ == after_op(old(self)@, PipeOp::Write(data@)),
    {
        append_bytes(&mut self.buf, data);
        data.len()
    }

    /// Returns the reader that has to be woken, if one waits, and forgets it.
    pub fn poll_flush(&mut self) -> (wake: Option<W>)
        ensures
            wake == woken(old(self)@, PipeOp::Flush),
            final(self)@ == after_op(old(self)@, PipeOp::Flush),
    {
        self.waker.take()
    }

    /// Closing wakes a waiting reader as a flush does. The pipe stays usable.
    pub fn poll_close(&mut self) -> (wake: Option<W>)
        ensures
            wake == woken(old(self)@, PipeOp::Close),
            final(self)@ == after_op(old(self)@, PipeOp::Close),
    {
        self.waker.take()
    }
}

/// The state after a run of uses.
pub open spec fn after_ops<W>(m: PipeModel<W>, ops: Seq<PipeOp<W>>) -> PipeModel<W>
    decreases ops.len(),
{
    if ops.len() == 0 {
        m
    } else {
        after_op(after_ops(m, ops.drop_last()), ops.last())
    }
}

/// Whether the use at position `i` of a run is a read that comes up empty.
pub open spec fn waits_at<W>(m: PipeModel<W>, ops: Seq<PipeOp<W>>, i: int) -> bool {
    0 <= i < ops.len() && comes_up_empty(after_ops(m, ops.take(i)), ops[i])
}

/// Whether the use at position `i` of a run is the last read that comes up
/// empty.
pub open spec fn waits_last_at<W>(m: PipeModel<W>, ops: Seq<PipeOp<W>>, i: int) -> bool {
    waits_at(m, ops, i) && forall|j: int| i < j < ops.len() ==> !#[trigger] waits_at(m, ops, j)
}

/// Whether no use in a run wakes anybody.
pub open spec fn wakes_nobody<W>(ops: Seq<PipeOp<W>>) -> bool {
    forall|i: int| 0 <= i < ops.len() ==> !((#[trigger] ops[i]) is Flush || ops[i] is Close)
}

proof fn lemma_last_waits<W>(m: PipeModel<W>, ops: Seq<PipeOp<W>>, i: int)
    requires
        wakes_nobody(ops),
        waits_last_at(m, ops, i),
    ensures
        ops[i] is Read,
        after_ops(m, ops).waker == Some(ops[i]->Read_0),
    decreases ops.len(),
{
    let front = ops.drop_last();
    let last = ops.len() - 1;
    assert(ops.take(last) =~= front);
    if i < last {
        assert(!waits_at(m, ops, last));
        assert(front.take(i) =~= ops.take(i));
        assert forall|j: int| i < j < front.len() implies !#[trigger] waits_at(m, front, j) by {
            assert(front.take(j) =~= ops.take(j));
            assert(!waits_at(m, ops, j));
        }
        assert forall|j: int| 0 <= j < front.len() implies !((#[trigger] front[j]) is Flush
            || front[j] is Close) by {
            assert(front[j] == ops[j]);
        }
        lemma_last_waits(m, front, i);
        assert(!(ops[last] is Flush || ops[last] is Close));
    }
}

proof fn lemma_nobody_waits<W>(m: PipeModel<W>, ops: Seq<PipeOp<W>>)
    requires
        wakes_nobody(ops),
        forall|i: int| !#[trigger] waits_at(m, ops, i),
    ensures
        after_ops(m, ops).waker == m.waker,
    decreases ops.len(),
{
    if ops.len() > 0 {
        let front = ops.drop_last();
        let last = ops.len() - 1;
        assert(ops.take(last) =~= front);
        assert(!waits_at(m, ops, last));
        assert forall|j: int| !#[trigger] waits_at(m, front, j) by {
            if 0 <= j < front.len() {
                assert(front.take(j) =~= ops.take(j));
                assert(!waits_at(m, ops, j));
            }
        }
        assert forall|j: int| 0 <= j < front.len() implies !((#[trigger] front[j]) is Flush
            || front[j] is Close) by {
            assert(front[j] == ops[j]);
        }
        lemma_nobody_waits(m, front);
        assert(!(ops[last] is Flush || ops[last] is Close));
    }
}

/// After any run of reads and writes on a pipe that nobody waited for, a flush
/// or a close wakes the last reader that came up empty, and nobody when none
/// did. A second one wakes nobody. Neither touches the bytes.
pub proof fn law_latest_reader_is_woken_once<W>(
    m: PipeModel<W>,
    ops: Seq<PipeOp<W>>,
    first: PipeOp<W>,
    second: PipeOp<W>,
)
    requires
        m.waker is None,
        wakes_nobody(ops),
        first is Flush || first is Close,
        second is Flush || second is Close,
    ensures
        ({
            let before = after_ops(m, ops);
            let between = after_op(before, first);
            &&& forall|i: int| #[trigger]
                waits_last_at(m, ops, i) ==> ops[i] is Read && woken(before, first) == Some(
                    ops[i]->Read_0,
                )
            &&& (forall|i: int| !#[trigger] waits_at(m, ops, i)) ==> woken(before, first) is None
            &&& woken(between, second) is None
            &&& between.queue == before.queue
            &&& after_op(between, second) == between
        }),
{
    assert forall|i: int| #[trigger] waits_last_at(m, ops, i) implies ops[i] is Read && woken(
        after_ops(m, ops),
        first,
    ) == Some(ops[i]->Read_0) by {
        lemma_last_waits(m, ops, i);
    }
    if forall|i: int| !#[trigger] waits_at(m, ops, i) {
        lemma_nobody_waits(m, ops);
    }
}

/// Nothing is lost or reordered: what a read hands out, followed by what is
/// still queued, is what was queued before.
pub proof fn law_read_conserves_bytes(queue: Seq<u8>, buf: Seq<u8>)
    ensures
        filled(queue, buf, transfer(queue.len(), buf.len())).len() == buf.len(),
        filled(queue, buf, transfer(queue.len(), buf.len())).take(
            transfer(queue.len(), buf.len()) as int,
        ) + queue.skip(transfer(queue.len(), buf.len()) as int) == queue,
{
    let count = transfer(queue.len(), buf.len());
    let out = filled(queue, buf, count);
    assert(out.take(count as int) =~= queue.take(count as int));
    assert(queue.take(count as int) + queue.skip(count as int) =~= queue);
}

/// All bytes that a run of uses reads.
pub open spec fn all_read<W>(m: PipeModel<W>, ops: Seq<PipeOp<W>>) -> Seq<u8>
    decreases ops.len(),
{
    if ops.len() == 0 {
        Seq::empty()
    } else {
        let before = after_ops(m, ops.drop_last());
        match ops.last() {
            PipeOp::Read(_, room) => all_read(m, ops.drop_last()) + before.queue.take(
                transfer(before.queue.len(), room) as int,
            ),
            _ => all_read(m, ops.drop_last()),
        }
    }
}

/// All bytes that a run of uses writes.
pub open spec fn all_written<W>(ops: Seq<PipeOp<W>>) -> Seq<u8>
    decreases ops.len(),
{
    if ops.len() == 0 {
        Seq::empty()
    } else {
        match ops.last() {
            PipeOp::Write(data) => all_written(ops.drop_last()) + data,
            _ => all_written(ops.drop_last()),
        }
    }
}

/// Over any run of uses, the bytes read are the bytes written, in order, but
/// for those that are still queued.
pub proof fn law_pipe_is_faithful<W>(m: PipeModel<W>, ops: Seq<PipeOp<W>>)
    ensures
        all_read(m, ops) + after_ops(m, ops).queue == m.queue + all_written(ops),
    decreases ops.len(),
{
    if ops.len() == 0 {
        assert(all_read(m, ops) + after_ops(m, ops).queue =~= m.queue + all_written(ops));
    } else {
        let front = ops.drop_last();
        let before = after_ops(m, front);
        law_pipe_is_faithful(m, front);
        match ops.last() {
            PipeOp::Read(_, room) => {
                let count = transfer(before.queue.len(), room) as int;
                assert(before.queue.take(count) + before.queue.skip(count) =~= before.queue);
                assert(all_read(m, ops) + after_ops(m, ops).queue =~= all_read(m, front) + (
                before.queue.take(count) + before.queue.skip(count)));
            },
            PipeOp::Write(data) => {
                assert(all_read(m, ops) + after_ops(m, ops).queue =~= (all_read(m, front)
                    + before.queue) + data);
                assert((m.queue + all_written(front)) + data =~= m.queue + all_written(ops));
            },
            _ => {},
        }
    }
}

/// What is written comes out behind what was queued before it, unchanged: a
/// read with room for both hands out both, in order, and empties the pipe.
pub proof fn law_write_then_read(queue: Seq<u8>, data: Seq<u8>, buf: Seq<u8>)
    requires
        queue.len() + data.len() <= buf.len(),
    ensures
        transfer((queue + data).len(), buf.len()) == queue.len() + data.len(),
        filled(queue + data, buf, (queue + data).len()) == queue + data + buf.skip(
            (queue.len() + data.len()) as int,
        ),
        (queue + data).skip((queue + data).len() as int) == Seq::<u8>::empty(),
{
    let all = queue + data;
    assert(all.take(all.len() as int) =~= all);
    assert(all.skip(all.len() as int) =~= Seq::<u8>::empty());
}

/// Two reads in a row hand out what one larger read would.
pub proof fn law_reads_join(queue: Seq<u8>, first: nat, second: nat)
    requires
        first + second <= queue.len(),
    ensures
        queue.take(first as int) + queue.skip(first as int).take(second as int) == queue.take(
            (first + second) as int,
        ),
        queue.skip(first as int).skip(second as int) == queue.skip((first + second) as int),
{
    let both = (first + second) as int;
    assert(queue.take(first as int) + queue.skip(first as int).take(second as int) =~= queue.take(
        both,
    ));
    assert(queue.skip(first as int).skip(second as int) =~= queue.skip(both));
}

/// A read moves the first bytes of the queue, as many as there are and as fit,
/// to the start of the buffer, and leaves the rest of the buffer alone.
pub proof fn law_read_moves_what_fits(queue: Seq<u8>, buf: Seq<u8>)
    ensures
        ({
            let n = transfer(queue.len(), buf.len());
            let out = filled(queue, buf, n);
            &&& n <= queue.len() && n <= buf.len()
            &&& n == queue.len() || n == buf.len()
            &&& out.len() == buf.len()
            &&& forall|i: int| 0 <= i < n ==> #[trigger] out[i] == queue[i]
            &&& forall|i: int| n <= i < buf.len() ==> #[trigger] out[i] == buf[i]
        }),
{
}

/// A read takes its bytes off the front of the queue, and who comes up empty
/// waits. A write adds its bytes at the back. Neither wakes anybody. A flush
/// and a close wake who waits, and only that.
pub proof fn law_each_use_of_a_pipe<W>(m: PipeModel<W>, waker: W, room: nat, data: Seq<u8>)
    ensures
        ({
            let read = after_op(m, PipeOp::Read(waker, room));
            let taken = m.queue.len() - read.queue.len();
            &&& 0 <= taken <= room
            &&& read.queue == m.queue.skip(taken)
            &&& taken < room ==> read.queue.len() == 0
            &&& taken == 0 ==> read.waker == Some(waker)
            &&& taken > 0 ==> read.waker == m.waker
            &&& woken(m, PipeOp::Read(waker, room)) is None
        }),
        after_op(m, PipeOp::Write(data)).queue == m.queue + data,
        after_op(m, PipeOp::Write(data)).waker == m.waker,
        woken(m, PipeOp::Write(data)) is None,
        woken(m, PipeOp::Flush) == m.waker,
        after_op(m, PipeOp::Flush).queue == m.queue,
        after_op(m, PipeOp::Flush).waker is None,
        woken(m, PipeOp::Close) == m.waker,
        after_op(m, PipeOp::Close).queue == m.queue,
        after_op(m, PipeOp::Close).waker is None,
{
}

} // verus!
