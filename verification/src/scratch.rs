//! The working buffers of one mixing round.
use crate::pipe::{BytesPipe, PipeOp};
use crate::reader::{BufferBlockingRead, FetchEvent};
use vstd::prelude::*;

verus! {

/// The samples in one voice frame.
pub const FRAMESIZE: usize = 512;

/// The size of a mixing buffer: two frames of two-byte samples.
pub const BUFFER_BYTES: usize = FRAMESIZE * 2 * 2;

/// The state of the working buffers.
#[verifier::ext_equal]
pub struct MixModel {
    /// The bytes of the last read, at the start.
    pub buf: Seq<u8>,
    /// The frame under construction.
    pub mixed: Seq<u8>,
    /// How many bytes of the frame are in use.
    pub size: nat,
}

/// Whether the buffers have their fixed size and the frame fits into them.
pub open spec fn mix_inv(m: MixModel) -> bool {
    &&& m.buf.len() == BUFFER_BYTES
    &&& m.mixed.len() == BUFFER_BYTES
    &&& m.size <= BUFFER_BYTES
}

/// The buffers after the first `size` bytes of the last read were mixed in.
pub open spec fn absorbed(m: MixModel, size: nat) -> MixModel {
    MixModel {
        buf: m.buf,
        mixed: crate::sample::mix_into(size, m.buf, m.mixed),
        size: if size > m.size {
            size
        } else {
            m.size
        },
    }
}

/// The buffers at the start of a round: the frame is silent and empty.
pub open spec fn cleared(m: MixModel) -> MixModel {
    MixModel { buf: m.buf, mixed: Seq::new(m.mixed.len(), |i: int| 0u8), size: 0 }
}

/// The buffers after `queue`, the contents of a pipe, was read into them with
/// room for `room` bytes.
pub open spec fn mix_after_pipe(queue: Seq<u8>, room: nat, m: MixModel) -> MixModel {
    let count = crate::pipe::transfer(queue.len(), room);
    let read = MixModel { buf: crate::pipe::filled(queue, m.buf, count), ..m };
    if count == 0 {
        read
    } else {
        absorbed(read, count)
    }
}

/// The working buffers of a mixing loop.
pub struct Scratch {
    mixed: Vec<u8>,
    buf: Vec<u8>,
    mixed_size: usize,
}

impl View for Scratch {
    type V = MixModel;

    closed spec fn view(&self) -> MixModel {
        MixModel { buf: self.buf@, mixed: self.mixed@, size: self.mixed_size as nat }
    }
}

impl Scratch {
    /// Silent buffers with an empty frame.
    pub fn new() -> (scratch: Scratch)
        ensures
            mix_inv(scratch@),
            scratch@ == (MixModel {
                buf: Seq::new(BUFFER_BYTES as nat, |i: int| 0u8),
                mixed: Seq::new(BUFFER_BYTES as nat, |i: int| 0u8),
                size: 0,
            }),
    {
        let mixed: Vec<u8> = vec![0u8; BUFFER_BYTES];
        let buf: Vec<u8> = vec![0u8; BUFFER_BYTES];
        assert(mixed@ =~= Seq::new(BUFFER_BYTES as nat, |i: int| 0u8));
        assert(buf@ =~= Seq::new(BUFFER_BYTES as nat, |i: int| 0u8));
        Scratch { mixed, buf, mixed_size: 0 }
    }

    /// Starts a new frame.
    pub fn clear(&mut self)
        requires
            mix_inv(old(self)@),
        ensures
            final(self)@ == cleared(old(self)@),
            mix_inv(final(self)@),
    {
        let len: usize = self.mixed.len();
        let mut i: usize = 0;
        while i < len
            invariant
                i <= len,
                len == self.mixed@.len() == old(self)@.mixed.len(),
                self.buf@ == old(self)@.buf,
                forall|j: int| 0 <= j < i ==> self.mixed@[j] == 0,
            decreases len - i,
        {
            self.mixed[i] = 0;
            i = i + 1;
        }
        self.mixed_size = 0;
        assert(self@ =~= cleared(old(self)@));
    }

    /// Mixes the first `size` bytes of the last read into the frame.
    pub fn absorb(&mut self, size: usize)
        requires
            mix_inv(old(self)@),
            size <= BUFFER_BYTES,
        ensures
            final(self)@ == absorbed(old(self)@, size as nat),
            mix_inv(final(self)@),
    {
        if size > self.mixed_size {
            self.mixed_size = size;
        }
        crate::sample::mix(size, self.buf.as_slice(), self.mixed.as_mut_slice());
    }

    /// The frame and its length in samples, or `None` when nothing was mixed.
    pub fn frame(&self) -> (frame: Option<(&[u8], usize)>)
        requires
            mix_inv(self@),
        ensures
            frame is None <==> self@.size == 0,
            frame matches Some((bytes, samples)) ==> {
                &&& bytes@ == self@.mixed.take(self@.size as int)
                &&& samples == self@.size / 2
            },
    {
        if self.mixed_size == 0 {
            None
        } else {
            let bytes: &[u8] = vstd::slice::slice_subrange(
                self.mixed.as_slice(),
                0,
                self.mixed_size,
            );
            Some((bytes, self.mixed_size / 2))
        }
    }

    /// Reads up to `room` bytes of a source.
    pub fn read_source<W>(
        &mut self,
        reader: &mut BufferBlockingRead<W>,
        event: &FetchEvent,
        waker: W,
        room: usize,
    ) -> (read: Option<usize>)
        requires
            crate::reader::event_fits(old(reader)@, *event),
            room <= BUFFER_BYTES,
            mix_inv(old(self)@),
        ensures
            read == crate::reader::poll_result(old(reader)@, *event, room as nat),
            final(reader)@ == crate::reader::after_poll(
                old(reader)@,
                *event,
                waker,
                room as nat,
            ),
            final(self)@ == (MixModel {
                buf: crate::pipe::filled(
                    crate::reader::queue_with(old(reader)@, *event),
                    old(self)@.buf,
                    crate::reader::polled_count(old(reader)@, *event, room as nat),
                ),
                ..old(self)@
            }),
            mix_inv(final(self)@),
            read matches Some(size) ==> size <= room,
    {
        let ghost queue = crate::reader::queue_with(reader@, *event);
        let ghost count = crate::reader::polled_count(reader@, *event, room as nat);
        let (head, tail) = self.buf.as_mut_slice().split_at_mut(room);
        let read: Option<usize> = reader.poll_read(event, waker, head);
        assert(self.buf@ =~= crate::pipe::filled(queue, old(self)@.buf, count));
        read
    }

    /// Reads up to `room` bytes of a pipe and mixes them into the frame.
    pub fn read_pipe<W>(&mut self, pipe: &mut BytesPipe<W>, waker: W, room: usize)
        requires
            room <= BUFFER_BYTES,
            mix_inv(old(self)@),
        ensures
            final(pipe)@ == crate::pipe::after_op(old(pipe)@, PipeOp::Read(waker, room as nat)),
            final(self)@ == mix_after_pipe(old(pipe)@.queue, room as nat, old(self)@),
            mix_inv(final(self)@),
    {
        let ghost queue = pipe@.queue;
        let ghost count = crate::pipe::transfer(queue.len(), room as nat);
        let (head, tail) = self.buf.as_mut_slice().split_at_mut(room);
        let read: Option<usize> = pipe.poll_read(waker, head);
        assert(self.buf@ =~= crate::pipe::filled(queue, old(self)@.buf, count));
        if let Some(size) = read {
            self.absorb(size);
        }
    }
}

/// The buffers hold two frames of two-byte samples each, and a frame is never
/// longer than that.
pub proof fn law_buffers_hold_two_frames(m: MixModel)
    ensures
        mix_inv(m) <==> m.buf.len() == 2048 && m.mixed.len() == 2048 && m.size <= 2048,
{
}

/// A new frame is empty and silent, and what was read last is still there.
pub proof fn law_new_frame_is_silent(m: MixModel)
    ensures
        cleared(m).size == 0,
        cleared(m).buf == m.buf,
        cleared(m).mixed.len() == m.mixed.len(),
        forall|i: int| 0 <= i < m.mixed.len() ==> #[trigger] cleared(m).mixed[i] == 0,
{
}

/// What is absorbed is mixed in, sample by sample and in numbers, and makes the
/// frame at least as long as itself.
pub proof fn law_absorbed_bytes_are_added(m: MixModel, size: nat, k: int)
    requires
        0 <= k,
        2 * k + 2 <= m.mixed.len(),
    ensures
        ({
            let after = absorbed(m, size);
            let value = |bytes: Seq<u8>|
                bytes[2 * k] + 256 * bytes[2 * k + 1] - (if bytes[2 * k + 1] >= 128 {
                    65536int
                } else {
                    0int
                });
            let sum = value(m.buf) + value(m.mixed);
            &&& after.buf == m.buf
            &&& after.mixed.len() == m.mixed.len()
            &&& after.size >= size && after.size >= m.size
            &&& after.size == size || after.size == m.size
            &&& 2 * k < size && -32768 <= sum <= 32767 ==> value(after.mixed) == sum
            &&& 2 * k < size && sum > 32767 ==> value(after.mixed) == 32767
            &&& 2 * k < size && sum < -32768 ==> value(after.mixed) == -32768
            &&& 2 * k >= size ==> value(after.mixed) == value(m.mixed)
        }),
{
    crate::sample::law_mix_is_saturating_addition(size, m.buf, m.mixed, k);
}

/// All that fits of a pipe is absorbed, and an empty pipe leaves the frame as it
/// is.
pub proof fn law_pipe_is_absorbed(queue: Seq<u8>, room: nat, m: MixModel)
    requires
        room <= m.buf.len(),
    ensures
        ({
            let after = mix_after_pipe(queue, room, m);
            let n = if queue.len() < room { queue.len() } else { room };
            &&& after.buf.len() == m.buf.len()
            &&& forall|i: int| 0 <= i < n ==> #[trigger] after.buf[i] == queue[i]
            &&& forall|i: int| n <= i < m.buf.len() ==> #[trigger] after.buf[i] == m.buf[i]
            &&& n == 0 ==> after.mixed == m.mixed && after.size == m.size
            &&& n > 0 ==> after == absorbed(MixModel { buf: after.buf, ..m }, n)
        }),
{
}

} // verus!
