//! Regrouping frames: a repacketizer collects the frames of packets that share a coding
//! configuration and writes them out again as one packet, or as packets of any run of them.

use vstd::prelude::*;
use vstd::slice::slice_subrange;
use crate::encoding::{
    packet_bytes, pad_bytes, writable, written_packet_frames, written_packet_reads_back,
    written_packet_shape,
};
use crate::error::Error;
use crate::framing::{
    announced_frames, frames_total, layout_facts, lengths, parse_layout, MAX_FRAMES,
    MAX_FRAME_BYTES,
};
use crate::packet::{contents, packet_frames, packet_layout};
use crate::padding::frames_in;
use crate::writer::{bare_len, build_packet, copy_into, packet_len};

verus! {

/// The frames of `first` followed by the frames of `second`.
fn joined<'a>(first: &Vec<&'a [u8]>, second: &Vec<&'a [u8]>) -> (all: Vec<&'a [u8]>)
    ensures
        all@ == first@ + second@,
{
    let mut all: Vec<&'a [u8]> = Vec::new();
    let mut i: usize = 0;
    while i < first.len()
        invariant
            i <= first@.len(),
            all@ == first@.take(i as int),
        decreases first@.len() - i,
    {
        all.push(first[i]);
        proof {
            assert(all@ =~= first@.take(i as int + 1));
        }
        i = i + 1;
    }
    let mut j: usize = 0;
    proof {
        assert(all@ =~= first@ + second@.take(0));
    }
    while j < second.len()
        invariant
            j <= second@.len(),
            all@ == first@ + second@.take(j as int),
        decreases second@.len() - j,
    {
        all.push(second[j]);
        proof {
            assert(all@ =~= first@ + second@.take(j as int + 1));
        }
        j = j + 1;
    }
    proof {
        assert(second@.take(second@.len() as int) =~= second@);
    }
    all
}

/// Collects frames and writes them out as packets.
///
/// The frames are borrowed from the packets that were pushed: those packets must outlive
/// the repacketizer.
pub struct Repacketizer<'a> {
    toc: u8,
    frames: Vec<&'a [u8]>,
}

impl<'a> Repacketizer<'a> {
    /// The frames that are queued, in the order in which they were pushed, empty frames
    /// included. The repacketizer is empty where there are none.
    pub closed spec fn queued(&self) -> Seq<Seq<u8>> {
        contents(self.frames@)
    }

    /// The table-of-contents byte of the first packet pushed since the repacketizer was
    /// last empty. Its six high bits are the coding configuration of every queued frame.
    pub closed spec fn configuration(&self) -> u8 {
        self.toc
    }

    /// Every repacketizer holds a queue that fits into one packet.
    #[verifier::type_invariant]
    closed spec fn fits(&self) -> bool {
        &&& self.frames@.len() <= MAX_FRAMES
        &&& forall|i: int|
            0 <= i < self.frames@.len() ==> (#[trigger] self.frames@[i])@.len()
                <= MAX_FRAME_BYTES
    }

    /// Whether the queue fits into one packet: at most 48 frames, none above 1275 bytes.
    /// It does in every repacketizer that a program holds.
    pub open spec fn well_formed(&self) -> bool {
        &&& self.queued().len() <= MAX_FRAMES
        &&& forall|i: int|
            0 <= i < self.queued().len() ==> (#[trigger] self.queued()[i]).len()
                <= MAX_FRAME_BYTES
    }

    /// Why `push` refuses a packet, if it does: the packet is empty; it is not well formed;
    /// its coding configuration differs from that of the queued frames; or the queue would
    /// grow beyond 48 frames.
    pub open spec fn push_refusal(&self, packet: Seq<u8>) -> Option<Error> {
        if packet.len() == 0 {
            Some(Error::BadArg)
        } else if parse_layout(packet) is None {
            Some(Error::InvalidPacket)
        } else if self.queued().len() > 0 && packet[0] / 4 != self.configuration() / 4 {
            Some(Error::IncompatibleFrame)
        } else if self.queued().len() + parse_layout(packet).unwrap().sizes.len() > MAX_FRAMES {
            Some(Error::CapacityExceeded)
        } else {
            None
        }
    }

    /// Why `out_range` refuses its arguments, if it does: the buffer is empty or the range
    /// is empty or not within the queue; or the packet does not fit into `room` bytes.
    pub open spec fn out_refusal(&self, begin: int, end: int, room: int) -> Option<Error> {
        if room <= 0 || begin < 0 || end <= begin || end > self.queued().len() {
            Some(Error::BadArg)
        } else if bare_len(self.queued().subrange(begin, end), true) > room {
            Some(Error::BufferTooSmall)
        } else {
            None
        }
    }

    /// The packet that holds the queued frames from `begin` up to `end`: a counted run
    /// under the coding configuration of the queue, without padding.
    pub open spec fn packet_of(&self, begin: int, end: int) -> Seq<u8> {
        packet_bytes(self.configuration(), self.queued().subrange(begin, end), true, 0)
    }

    /// What `out_range` returns and leaves in a buffer that held `buffer`: an error and the
    /// buffer as it was, or the length of the packet and the packet in front of the rest
    /// of the buffer.
    pub open spec fn emit(&self, begin: int, end: int, buffer: Seq<u8>) -> (
        Result<usize, Error>,
        Seq<u8>,
    ) {
        match self.out_refusal(begin, end, buffer.len() as int) {
            Some(e) => (Err(e), buffer),
            None => {
                let packet = self.packet_of(begin, end);
                (
                    Ok(packet.len() as usize),
                    packet + buffer.subrange(packet.len() as int, buffer.len() as int),
                )
            },
        }
    }

    /// A queue that fits is well formed.
    proof fn fits_is_well_formed(&self)
        requires
            self.fits(),
        ensures
            self.well_formed(),
    {
        assert forall|i: int| 0 <= i < self.queued().len() implies (
        #[trigger] self.queued()[i]).len() <= MAX_FRAME_BYTES by {
            assert(self.queued()[i] == self.frames@[i]@);
        }
    }

    /// Create a new repacketizer, which is empty.
    pub fn new() -> (r: Result<Self, Error>)
        ensures
            r is Ok,
            r.unwrap().queued().len() == 0,
            r.unwrap().well_formed(),
    {
        let rp = Repacketizer { toc: 0, frames: Vec::new() };
        proof {
            assert(rp.queued() =~= Seq::<Seq<u8>>::empty());
        }
        Ok(rp)
    }

    /// Reset internal state: the repacketizer is empty again.
    pub fn reset(&mut self)
        ensures
            final(self).queued().len() == 0,
            final(self).well_formed(),
    {
        self.frames = Vec::new();
        proof {
            assert(self.queued() =~= Seq::<Seq<u8>>::empty());
        }
    }

    /// Add a packet to the current state.
    ///
    /// Every frame of the packet joins the queue, and the first packet into an empty queue
    /// sets the coding configuration. A refused packet leaves the state as it was.
    pub fn push(&mut self, packet: &'a [u8]) -> (r: Result<(), Error>)
        ensures
            final(self).well_formed(),
            match old(self).push_refusal(packet@) {
                Some(e) => {
                    &&& r == Err::<(), Error>(e)
                    &&& final(self).queued() == old(self).queued()
                    &&& final(self).configuration() == old(self).configuration()
                },
                None => {
                    &&& r is Ok
                    &&& final(self).queued() == old(self).queued() + frames_in(packet@)
                    &&& final(self).configuration() == (if old(self).queued().len() == 0 {
                        packet@[0]
                    } else {
                        old(self).configuration()
                    })
                },
            },
    {
        proof {
            use_type_invariant(&*self);
            self.fits_is_well_formed();
        }
        if packet.len() == 0 {
            return Err(Error::BadArg);
        }
        let layout = match packet_layout(packet) {
            Err(_) => {
                return Err(Error::InvalidPacket);
            },
            Ok(layout) => layout,
        };
        proof {
            layout_facts(packet@);
            frames_total(packet@, layout@);
        }
        let held: usize = self.frames.len();
        if held > 0 && packet[0] / 4 != self.toc / 4 {
            return Err(Error::IncompatibleFrame);
        }
        if held + layout.sizes.len() > MAX_FRAMES {
            return Err(Error::CapacityExceeded);
        }
        let fresh: Vec<&'a [u8]> = packet_frames(packet, &layout);
        if held == 0 {
            self.toc = packet[0];
        }
        let ghost before = self.frames@;
        let ghost added = fresh@;
        proof {
            assert(contents(before + added) =~= contents(before) + contents(added));
            let sizes = lengths(frames_in(packet@));
            assert forall|i: int| 0 <= i < added.len() implies (#[trigger] added[i])@.len()
                <= MAX_FRAME_BYTES by {
                assert(sizes[i] == frames_in(packet@)[i].len());
                assert(contents(added)[i] == added[i]@);
            }
            assert forall|i: int| 0 <= i < (before + added).len() implies (#[trigger] (before
                + added)[i])@.len() <= MAX_FRAME_BYTES by {
                if i >= before.len() {
                    assert((before + added)[i] == added[i - before.len()]);
                } else {
                    assert((before + added)[i] == before[i]);
                }
            }
        }
        self.frames = joined(&self.frames, &fresh);
        proof {
            self.fits_is_well_formed();
        }
        Ok(())
    }

    /// Number of frames currently queued.
    pub fn frames(&self) -> (n: i32)
        ensures
            n == self.queued().len(),
            0 <= n <= MAX_FRAMES,
    {
        proof {
            use_type_invariant(self);
        }
        self.frames.len() as i32
    }

    /// Emit a packet containing the queued frames in range [begin, end).
    ///
    /// The packet is written over the first bytes of `out`, and its length is returned; the
    /// bytes behind it stay as they are. Fails with [`Error::BadArg`] where `out` is empty
    /// or the range is empty or not within the queue, and with [`Error::BufferTooSmall`]
    /// where the packet does not fit into `out`; `out` is then unchanged. The queue stays
    /// as it is in either case.
    pub fn out_range(&self, begin: i32, end: i32, out: &mut [u8]) -> (r: Result<usize, Error>)
        ensures
            (r, final(out)@) == self.emit(begin as int, end as int, old(out)@),
            final(out)@.len() == old(out)@.len(),
    {
        proof {
            use_type_invariant(self);
            self.fits_is_well_formed();
        }
        let room: usize = out.len();
        if room == 0 || begin < 0 || end <= begin {
            return Err(Error::BadArg);
        }
        if end as usize > self.frames.len() {
            return Err(Error::BadArg);
        }
        let run = slice_subrange(self.frames.as_slice(), begin as usize, end as usize);
        proof {
            assert(contents(run@) =~= self.queued().subrange(begin as int, end as int));
            let sizes = lengths(contents(run@));
            assert forall|i: int| 0 <= i < sizes.len() implies 0 <= #[trigger] sizes[i]
                <= MAX_FRAME_BYTES by {
                assert(sizes[i] == self.queued()[begin + i].len());
            }
            assert(pad_bytes(0) =~= Seq::<u8>::empty());
            written_packet_shape(self.toc, contents(run@), true, 0);
        }
        let needed: usize = packet_len(run, true);
        if needed > room {
            return Err(Error::BufferTooSmall);
        }
        let built: Vec<u8> = build_packet(self.toc, run, true, 0);
        copy_into(out, built.as_slice());
        Ok(built.len())
    }

    /// Emit a packet with all queued frames.
    ///
    /// Fails with [`Error::BadArg`] where `out` is empty or no frame is queued, and with
    /// [`Error::BufferTooSmall`] where the packet does not fit into `out`.
    pub fn out(&self, out: &mut [u8]) -> (r: Result<usize, Error>)
        ensures
            (r, final(out)@) == self.emit(0, self.queued().len() as int, old(out)@),
            final(out)@.len() == old(out)@.len(),
    {
        let count: i32 = self.frames();
        self.out_range(0, count, out)
    }
}

/// Emitting is a pure read: emitting a second time, into the buffer that the first time
/// left, returns the same value and leaves the same bytes.
pub proof fn out_is_repeatable(rp: Repacketizer, begin: int, end: int, buffer: Seq<u8>)
    requires
        rp.well_formed(),
    ensures
        rp.emit(begin, end, rp.emit(begin, end, buffer).1) == rp.emit(begin, end, buffer),
        rp.emit(begin, end, buffer).1.len() == buffer.len(),
{
    if rp.out_refusal(begin, end, buffer.len() as int) is None {
        let frames = rp.queued().subrange(begin, end);
        let packet = rp.packet_of(begin, end);
        run_is_writable(rp, begin, end);
        written_packet_shape(rp.configuration(), frames, true, 0);
        let after = rp.emit(begin, end, buffer).1;
        assert(after.subrange(packet.len() as int, after.len() as int) =~= buffer.subrange(
            packet.len() as int,
            buffer.len() as int,
        ));
    }
}

/// Every run of queued frames can be written as one packet.
pub proof fn run_is_writable(rp: Repacketizer, begin: int, end: int)
    requires
        rp.well_formed(),
        0 <= begin < end <= rp.queued().len(),
    ensures
        writable(rp.queued().subrange(begin, end), true, 0),
        rp.packet_of(begin, end).len() == bare_len(rp.queued().subrange(begin, end), true),
        2 <= rp.packet_of(begin, end).len(),
{
    let frames = rp.queued().subrange(begin, end);
    let sizes = lengths(frames);
    assert forall|i: int| 0 <= i < sizes.len() implies 0 <= #[trigger] sizes[i]
        <= MAX_FRAME_BYTES by {
        assert(sizes[i] == rp.queued()[begin + i].len());
    }
    assert(pad_bytes(0) =~= Seq::<u8>::empty());
    written_packet_shape(rp.configuration(), frames, true, 0);
}

/// What is emitted is a well-formed packet without padding that holds exactly the frames
/// of the run, in order, under the coding configuration of the queue.
pub proof fn emitted_packet_holds_frames(rp: Repacketizer, begin: int, end: int)
    requires
        rp.well_formed(),
        0 <= begin < end <= rp.queued().len(),
    ensures
        parse_layout(rp.packet_of(begin, end)) is Some,
        frames_in(rp.packet_of(begin, end)) == rp.queued().subrange(begin, end),
        parse_layout(rp.packet_of(begin, end)).unwrap().sizes.len() == end - begin,
        parse_layout(rp.packet_of(begin, end)).unwrap().padding == 0,
        rp.packet_of(begin, end)[0] / 4 == rp.configuration() / 4,
{
    let frames = rp.queued().subrange(begin, end);
    run_is_writable(rp, begin, end);
    written_packet_reads_back(rp.configuration(), frames, true, 0);
    written_packet_frames(rp.configuration(), frames, true, 0);
    written_packet_shape(rp.configuration(), frames, true, 0);
    layout_facts(rp.packet_of(begin, end));
    assert(pad_bytes(0) =~= Seq::<u8>::empty());
}

/// The queue holds up to 48 frames and no more: a well-formed packet of a fitting coding
/// configuration is accepted where its frames bring the queue to 48 frames or fewer, and
/// is refused for want of room where they bring it beyond; a queue of 48 frames accepts
/// no packet.
pub proof fn capacity_boundary(rp: Repacketizer, packet: Seq<u8>)
    requires
        rp.well_formed(),
        parse_layout(packet) is Some,
        rp.queued().len() == 0 || packet[0] / 4 == rp.configuration() / 4,
    ensures
        rp.queued().len() + announced_frames(packet) <= MAX_FRAMES ==> rp.push_refusal(packet)
            is None,
        rp.queued().len() + announced_frames(packet) > MAX_FRAMES ==> rp.push_refusal(packet)
            == Some(Error::CapacityExceeded),
        rp.queued().len() == MAX_FRAMES ==> rp.push_refusal(packet) == Some(
            Error::CapacityExceeded,
        ),
{
    layout_facts(packet);
}

} // verus!
