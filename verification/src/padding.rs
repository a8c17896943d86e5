//! Padding: lengthening a packet to an exact size without touching its frames, and taking
//! the padding away again.

use vstd::prelude::*;
use vstd::slice::slice_subrange;
use crate::encoding::{
    counted_head, head_fits, packet_bytes, pad_bytes, pad_bytes_len, padding_of, stream_bytes,
    stream_rewrite_fits, writable, written_packet_frames, written_packet_reads_back,
    written_packet_shape, written_stream_reads_back,
};
use crate::error::Error;
use crate::framing::{
    extent, frames_agree, frames_of, frames_total, layout_facts, lengths, parse_layout,
    stream_layout, stream_layout_extends, stream_layout_facts, valid_sizes,
};
use crate::packet::{
    packet_frames, packet_layout, stream_frames, stream_packet_layout,
};
use crate::writer::{bare_len, build_packet, build_stream, copy_into, packet_len};

verus! {

/// The frames of a well-formed packet, in order, empty frames included.
pub open spec fn frames_in(data: Seq<u8>) -> Seq<Seq<u8>> {
    frames_of(data, parse_layout(data).unwrap())
}

/// The packet `data` lengthened to `new_len` bytes: the same frames under the same coding
/// configuration, written as a counted run with padding behind them. A packet that already
/// has that length stays as it is.
pub open spec fn padded(data: Seq<u8>, new_len: int) -> Seq<u8> {
    if new_len == data.len() {
        data
    } else {
        let frames = frames_in(data);
        packet_bytes(data[0], frames, true, new_len - bare_len(frames, true))
    }
}

/// The packet `data` without padding and with the shortest head: the same frames under the
/// same coding configuration.
pub open spec fn unpadded(data: Seq<u8>) -> Seq<u8> {
    packet_bytes(data[0], frames_in(data), false, 0)
}

/// Why `packet_pad` refuses its arguments, if it does: the lengths are out of order or out
/// of the buffer, or the first `len` bytes are no well-formed packet.
pub open spec fn pad_refusal(buffer: Seq<u8>, len: int, new_len: int) -> Option<Error> {
    if new_len < len || new_len > buffer.len() || len <= 0 {
        Some(Error::BadArg)
    } else if new_len == len {
        None
    } else if parse_layout(buffer.subrange(0, len)) is None {
        Some(Error::InvalidPacket)
    } else {
        None
    }
}

/// Why `packet_unpad` refuses its arguments, if it does.
pub open spec fn unpad_refusal(buffer: Seq<u8>, len: int) -> Option<Error> {
    if len > buffer.len() || len <= 0 {
        Some(Error::BadArg)
    } else if parse_layout(buffer.subrange(0, len)) is None {
        Some(Error::InvalidPacket)
    } else {
        None
    }
}

/// The frames of a well-formed packet can be written again, in the shortest form or as a
/// counted run, and neither takes more room than the packet does, but for the one byte
/// that a count costs.
pub proof fn rewritable(data: Seq<u8>)
    requires
        parse_layout(data) is Some,
    ensures
        valid_sizes(lengths(frames_in(data))),
        1 <= bare_len(frames_in(data), false) <= data.len(),
        2 <= bare_len(frames_in(data), true) <= data.len() + 1,
{
    let layout = parse_layout(data).unwrap();
    layout_facts(data);
    frames_total(data, layout);
    head_fits(data);
    assert(pad_bytes(0) =~= Seq::<u8>::empty());
}

/// Padding adds to the head of a counted run exactly the bytes of the padding field.
pub proof fn counted_head_len(toc: u8, sizes: Seq<int>, extra: int)
    requires
        0 <= extra,
    ensures
        counted_head(toc, sizes, extra).len() == counted_head(0u8, sizes, 0).len() + pad_bytes(
            extra,
        ).len(),
{
    assert(pad_bytes(0) =~= Seq::<u8>::empty());
}

/// A padded packet has exactly the length asked for.
pub proof fn padded_len(data: Seq<u8>, new_len: int)
    requires
        parse_layout(data) is Some,
        data.len() <= new_len,
    ensures
        padded(data, new_len).len() == new_len,
        new_len > data.len() ==> writable(
            frames_in(data),
            true,
            new_len - bare_len(frames_in(data), true),
        ),
{
    if new_len > data.len() {
        let frames = frames_in(data);
        let extra = new_len - bare_len(frames, true);
        rewritable(data);
        written_packet_shape(data[0], frames, true, extra);
        counted_head_len(data[0], lengths(frames), extra);
        if extra > 0 {
            pad_bytes_len(extra);
        } else {
            assert(pad_bytes(0) =~= Seq::<u8>::empty());
        }
    }
}

/// An unpadded packet is never longer than the packet it was made from.
pub proof fn unpadded_len(data: Seq<u8>)
    requires
        parse_layout(data) is Some,
    ensures
        1 <= unpadded(data).len() <= data.len(),
        unpadded(data).len() == bare_len(frames_in(data), false),
        writable(frames_in(data), false, 0),
{
    let frames = frames_in(data);
    rewritable(data);
    written_packet_shape(data[0], frames, false, 0);
    assert(pad_bytes(0) =~= Seq::<u8>::empty());
}

/// The bytes of a written packet depend on the table-of-contents byte only through the
/// coding configuration in its six high bits.
pub proof fn configuration_decides(a: u8, b: u8, frames: Seq<Seq<u8>>, counted: bool, extra: int)
    requires
        a / 4 == b / 4,
    ensures
        packet_bytes(a, frames, counted, extra) == packet_bytes(b, frames, counted, extra),
{
}

/// Writing the frames of a well-formed packet again gives a well-formed packet with the
/// same frames and the same coding configuration.
pub proof fn rewritten_keeps_frames(data: Seq<u8>, counted: bool, extra: int)
    requires
        parse_layout(data) is Some,
        writable(frames_in(data), counted, extra),
    ensures
        parse_layout(packet_bytes(data[0], frames_in(data), counted, extra)) is Some,
        frames_in(packet_bytes(data[0], frames_in(data), counted, extra)) == frames_in(data),
        packet_bytes(data[0], frames_in(data), counted, extra)[0] / 4 == data[0] / 4,
        parse_layout(packet_bytes(data[0], frames_in(data), counted, extra)).unwrap().padding
            == padding_of(extra),
{
    let frames = frames_in(data);
    let written = packet_bytes(data[0], frames, counted, extra);
    written_packet_reads_back(data[0], frames, counted, extra);
    written_packet_frames(data[0], frames, counted, extra);
    written_packet_shape(data[0], frames, counted, extra);
    layout_facts(written);
}

/// Padding keeps a packet well formed and leaves its frames and its coding configuration
/// as they are; taking the padding away again gives what taking it away from the first
/// packet gives.
pub proof fn unpad_undoes_pad(data: Seq<u8>, new_len: int)
    requires
        parse_layout(data) is Some,
        data.len() <= new_len,
    ensures
        parse_layout(padded(data, new_len)) is Some,
        frames_in(padded(data, new_len)) == frames_in(data),
        padded(data, new_len)[0] / 4 == data[0] / 4,
        padded(data, new_len).len() == new_len,
        unpadded(padded(data, new_len)) == unpadded(data),
{
    padded_len(data, new_len);
    if new_len > data.len() {
        let frames = frames_in(data);
        let extra = new_len - bare_len(frames, true);
        rewritten_keeps_frames(data, true, extra);
        configuration_decides(padded(data, new_len)[0], data[0], frames, false, 0);
    }
}

/// Taking the padding away keeps a packet well formed and leaves its frames and its coding
/// configuration as they are; the packet that comes out has no padding, and taking the
/// padding away from it changes nothing more.
pub proof fn unpadded_is_shortest(data: Seq<u8>)
    requires
        parse_layout(data) is Some,
    ensures
        parse_layout(unpadded(data)) is Some,
        frames_in(unpadded(data)) == frames_in(data),
        unpadded(data)[0] / 4 == data[0] / 4,
        parse_layout(unpadded(data)).unwrap().padding == 0,
        unpadded(unpadded(data)) == unpadded(data),
{
    let frames = frames_in(data);
    unpadded_len(data);
    rewritten_keeps_frames(data, false, 0);
    configuration_decides(unpadded(data)[0], data[0], frames, false, 0);
    assert(pad_bytes(0) =~= Seq::<u8>::empty());
}

/// Padding and then taking the padding away gives the packet back: for every well-formed
/// packet that is written in the shortest form, and every length it can be padded to.
pub proof fn pad_round_trip(data: Seq<u8>, new_len: int)
    requires
        parse_layout(data) is Some,
        unpadded(data) == data,
        data.len() <= new_len,
    ensures
        pad_refusal(padded(data, new_len), new_len, new_len) is None,
        unpad_refusal(padded(data, new_len), new_len) is None,
        unpadded(padded(data, new_len)) == data,
        unpadded(padded(data, new_len)).len() == data.len(),
{
    unpad_undoes_pad(data, new_len);
    assert(padded(data, new_len).subrange(0, new_len) =~= padded(data, new_len));
}

/// A copy of the first `len` bytes of `src`.
fn copy_prefix(src: &[u8], len: usize) -> (copy: Vec<u8>)
    requires
        len <= src@.len(),
    ensures
        copy@ == src@.subrange(0, len as int),
{
    let mut copy: Vec<u8> = Vec::new();
    copy.extend_from_slice(slice_subrange(src, 0, len));
    proof {
        assert(copy@ =~= src@.subrange(0, len as int));
    }
    copy
}

/// Increase a packet's size by adding padding to reach `new_len`.
///
/// The packet is the first `len` bytes of `packet`; the padded packet takes its place and
/// the bytes behind `new_len` stay as they are. Fails with [`Error::BadArg`] where
/// `new_len < len`, `new_len` exceeds the buffer or `len` is zero, and with
/// [`Error::InvalidPacket`] where the packet is to grow and is not well formed; the buffer
/// is then unchanged. Succeeds on every other input.
pub fn packet_pad(packet: &mut [u8], len: usize, new_len: usize) -> (r: Result<(), Error>)
    ensures
        final(packet)@.len() == old(packet)@.len(),
        match pad_refusal(old(packet)@, len as int, new_len as int) {
            Some(e) => r == Err::<(), Error>(e) && final(packet)@ == old(packet)@,
            None => r is Ok && final(packet)@ == padded(
                old(packet)@.subrange(0, len as int),
                new_len as int,
            ) + old(packet)@.subrange(new_len as int, old(packet)@.len() as int),
        },
{
    let size: usize = packet.len();
    if new_len < len || new_len > size || len == 0 {
        return Err(Error::BadArg);
    }
    if new_len == len {
        proof {
            assert(packet@ =~= packet@.subrange(0, len as int) + packet@.subrange(
                len as int,
                size as int,
            ));
        }
        return Ok(());
    }
    let copy: Vec<u8> = copy_prefix(packet, len);
    let layout = match packet_layout(copy.as_slice()) {
        Err(_) => {
            return Err(Error::InvalidPacket);
        },
        Ok(layout) => layout,
    };
    let frames = packet_frames(copy.as_slice(), &layout);
    proof {
        rewritable(copy@);
        padded_len(copy@, new_len as int);
    }
    let bare: usize = packet_len(frames.as_slice(), true);
    let built: Vec<u8> = build_packet(layout.toc, frames.as_slice(), true, new_len - bare);
    proof {
        layout_facts(copy@);
    }
    copy_into(packet, built.as_slice());
    Ok(())
}

/// Remove padding from a packet; returns the new length.
///
/// The packet is the first `len` bytes of `packet`; the same frames, written in the
/// shortest form, take its place, and the bytes behind the new length stay as they are.
/// Fails with [`Error::BadArg`] where `len` is zero or exceeds the buffer, and with
/// [`Error::InvalidPacket`] where the packet is not well formed; the buffer is then
/// unchanged. Succeeds on every other input.
pub fn packet_unpad(packet: &mut [u8], len: usize) -> (r: Result<usize, Error>)
    ensures
        final(packet)@.len() == old(packet)@.len(),
        match unpad_refusal(old(packet)@, len as int) {
            Some(e) => r == Err::<usize, Error>(e) && final(packet)@ == old(packet)@,
            None => match r {
                Ok(new_len) => {
                    &&& new_len == unpadded(old(packet)@.subrange(0, len as int)).len()
                    &&& 1 <= new_len <= len
                    &&& final(packet)@ == unpadded(old(packet)@.subrange(0, len as int))
                        + old(packet)@.subrange(new_len as int, old(packet)@.len() as int)
                },
                Err(_) => false,
            },
        },
{
    let size: usize = packet.len();
    if len > size || len == 0 {
        return Err(Error::BadArg);
    }
    let copy: Vec<u8> = copy_prefix(packet, len);
    let layout = match packet_layout(copy.as_slice()) {
        Err(_) => {
            return Err(Error::InvalidPacket);
        },
        Ok(layout) => layout,
    };
    let frames = packet_frames(copy.as_slice(), &layout);
    proof {
        rewritable(copy@);
        unpadded_len(copy@);
        layout_facts(copy@);
    }
    let built: Vec<u8> = build_packet(layout.toc, frames.as_slice(), false, 0);
    copy_into(packet, built.as_slice());
    Ok(built.len())
}

/// The index behind the first `skip` streams of a packet of several streams, each of
/// them a self-delimiting packet; `None` where the data ends before them or one of them is
/// not well formed.
pub open spec fn stream_start(data: Seq<u8>, skip: int) -> Option<int>
    decreases skip,
{
    if skip <= 0 {
        Some(0)
    } else {
        match stream_start(data, skip - 1) {
            None => None,
            Some(at) => if at >= data.len() {
                None
            } else {
                match stream_layout(data.subrange(at, data.len() as int)) {
                    None => None,
                    Some(layout) => Some(at + extent(layout)),
                }
            },
        }
    }
}

/// The first `count` streams of a packet of several streams, each written again in the
/// shortest form and without padding, and the index behind them in the data.
pub open spec fn streams_rewritten(data: Seq<u8>, count: int) -> Option<(Seq<u8>, int)>
    decreases count,
{
    if count <= 0 {
        Some((Seq::empty(), 0))
    } else {
        match streams_rewritten(data, count - 1) {
            None => None,
            Some((written, at)) => if at >= data.len() {
                None
            } else {
                let rest = data.subrange(at, data.len() as int);
                match stream_layout(rest) {
                    None => None,
                    Some(layout) => Some(
                        (
                            written + stream_bytes(rest[0], frames_of(rest, layout)),
                            at + extent(layout),
                        ),
                    ),
                }
            },
        }
    }
}

/// A packet of `streams` streams without padding: every stream written again in the
/// shortest form, the last as a packet that fills the rest, the others self-delimiting.
/// `None` where the data is no such packet. For no stream at all it is empty.
pub open spec fn streams_unpadded(data: Seq<u8>, streams: int) -> Option<Seq<u8>> {
    if streams <= 0 {
        Some(Seq::empty())
    } else {
        match streams_rewritten(data, streams - 1) {
            None => None,
            Some((written, at)) => if at >= data.len() {
                None
            } else {
                let last = data.subrange(at, data.len() as int);
                if parse_layout(last) is None {
                    None
                } else {
                    Some(written + unpadded(last))
                }
            },
        }
    }
}

/// A packet of `streams` streams lengthened to `new_len` bytes: the padding goes into the
/// last stream, the others stay as they are.
pub open spec fn streams_padded(data: Seq<u8>, new_len: int, streams: int) -> Seq<u8> {
    if new_len == data.len() {
        data
    } else {
        let at = stream_start(data, streams - 1).unwrap();
        data.subrange(0, at) + padded(data.subrange(at, data.len() as int), new_len - at)
    }
}

/// Why `multistream_packet_pad` refuses its arguments, if it does: the lengths are out of
/// order or out of the buffer; one of the streams is not well formed; or nothing is left
/// for the last stream.
pub open spec fn streams_pad_refusal(
    buffer: Seq<u8>,
    len: int,
    new_len: int,
    streams: int,
) -> Option<Error> {
    if new_len < len || new_len > buffer.len() || len <= 0 {
        Some(Error::BadArg)
    } else if new_len == len {
        None
    } else {
        let data = buffer.subrange(0, len);
        match stream_start(data, streams - 1) {
            None => Some(Error::InvalidPacket),
            Some(at) => if at >= len {
                Some(Error::BadArg)
            } else if parse_layout(data.subrange(at, len)) is None {
                Some(Error::InvalidPacket)
            } else {
                None
            },
        }
    }
}

/// Why `multistream_packet_unpad` refuses its arguments, if it does.
pub open spec fn streams_unpad_refusal(buffer: Seq<u8>, len: int, streams: int) -> Option<Error> {
    if len > buffer.len() || len <= 0 {
        Some(Error::BadArg)
    } else if streams_unpadded(buffer.subrange(0, len), streams) is None {
        Some(Error::InvalidPacket)
    } else {
        None
    }
}

/// The streams in front of a stream lie within the data.
pub proof fn stream_start_bounds(data: Seq<u8>, skip: int)
    ensures
        match stream_start(data, skip) {
            Some(at) => 0 <= at <= data.len(),
            None => true,
        },
    decreases skip,
{
    if skip > 0 {
        stream_start_bounds(data, skip - 1);
        match stream_start(data, skip - 1) {
            None => {},
            Some(at) => {
                if at < data.len() {
                    let rest = data.subrange(at, data.len() as int);
                    if stream_layout(rest) is Some {
                        stream_layout_facts(rest);
                    }
                }
            },
        }
    }
}

/// The streams that can be walked can be written again, and writing them again ends
/// where walking them ends, at or behind every stream before.
pub proof fn rewritten_ends_at_start(data: Seq<u8>, count: int)
    ensures
        streams_rewritten(data, count) is Some <==> stream_start(data, count) is Some,
        streams_rewritten(data, count) is Some ==> streams_rewritten(data, count).unwrap().1
            == stream_start(data, count).unwrap(),
        streams_rewritten(data, count) is Some ==> 0 <= stream_start(data, count).unwrap()
            <= data.len(),
    decreases count,
{
    if count > 0 {
        rewritten_ends_at_start(data, count - 1);
        stream_start_bounds(data, count);
    }
}

/// The first streams of a packet of several streams are the same streams in data that
/// agrees with the packet up to their end and is no shorter.
pub proof fn streams_stay(data: Seq<u8>, other: Seq<u8>, count: int)
    requires
        streams_rewritten(data, count) is Some,
        data.len() <= other.len(),
        forall|i: int| 0 <= i < streams_rewritten(data, count).unwrap().1 ==> data[i] == other[i],
    ensures
        streams_rewritten(other, count) == streams_rewritten(data, count),
    decreases count,
{
    if count > 0 {
        rewritten_ends_at_start(data, count - 1);
        let (written, at) = streams_rewritten(data, count - 1).unwrap();
        let rest = data.subrange(at, data.len() as int);
        let near = other.subrange(at, other.len() as int);
        let layout = stream_layout(rest).unwrap();
        stream_layout_facts(rest);
        streams_stay(data, other, count - 1);
        assert forall|i: int| 0 <= i < extent(layout) implies rest[i] == near[i] by {
            assert(data[at + i] == other[at + i]);
        }
        stream_layout_extends(rest, near);
        frames_agree(rest, near, layout);
    }
}

/// Taking the padding away from a padded packet of several streams gives what taking it
/// away from the first packet gives; and the padded packet has the length asked for.
pub proof fn streams_unpad_undoes_pad(data: Seq<u8>, new_len: int, streams: int)
    requires
        streams_pad_refusal(data, data.len() as int, new_len, streams) is None,
    ensures
        streams_padded(data, new_len, streams).len() == new_len,
        streams_unpadded(streams_padded(data, new_len, streams), streams) == streams_unpadded(
            data,
            streams,
        ),
        new_len > data.len() && streams >= 1 ==> streams_unpadded(data, streams) is Some,
{
    let len = data.len() as int;
    assert(data.subrange(0, len) =~= data);
    if new_len > len {
        stream_start_bounds(data, streams - 1);
        let at = stream_start(data, streams - 1).unwrap();
        let last = data.subrange(at, len);
        let grown = padded(last, new_len - at);
        let other = streams_padded(data, new_len, streams);
        unpad_undoes_pad(last, new_len - at);
        assert(other.subrange(at, other.len() as int) =~= grown);
        if streams >= 1 {
            rewritten_ends_at_start(data, streams - 1);
            assert forall|i: int| 0 <= i < at implies data[i] == other[i] by {}
            streams_stay(data, other, streams - 1);
        }
    }
}

/// The bytes of a written self-delimiting packet depend on the table-of-contents byte only
/// through the coding configuration in its six high bits.
pub proof fn stream_configuration_decides(a: u8, b: u8, frames: Seq<Seq<u8>>)
    requires
        a / 4 == b / 4,
    ensures
        stream_bytes(a, frames) == stream_bytes(b, frames),
{
}

/// Streams that are written again take no more room than they took.
pub proof fn rewritten_is_no_longer(data: Seq<u8>, count: int)
    requires
        streams_rewritten(data, count) is Some,
    ensures
        0 <= streams_rewritten(data, count).unwrap().0.len() <= streams_rewritten(
            data,
            count,
        ).unwrap().1 <= data.len(),
    decreases count,
{
    if count > 0 {
        rewritten_is_no_longer(data, count - 1);
        let (written, at) = streams_rewritten(data, count - 1).unwrap();
        let rest = data.subrange(at, data.len() as int);
        stream_layout_facts(rest);
        stream_rewrite_fits(rest);
    }
}

/// Streams that were written again are, in front of whatever follows them, streams that
/// stay as they are when they are written again.
pub proof fn rewritten_streams_stand(data: Seq<u8>, count: int, tail: Seq<u8>)
    requires
        streams_rewritten(data, count) is Some,
    ensures
        streams_rewritten(streams_rewritten(data, count).unwrap().0 + tail, count) == Some(
            (
                streams_rewritten(data, count).unwrap().0,
                streams_rewritten(data, count).unwrap().0.len() as int,
            ),
        ),
    decreases count,
{
    let written = streams_rewritten(data, count).unwrap().0;
    if count > 0 {
        let (before, at) = streams_rewritten(data, count - 1).unwrap();
        let rest = data.subrange(at, data.len() as int);
        let layout = stream_layout(rest).unwrap();
        let frames = frames_of(rest, layout);
        let stream = stream_bytes(rest[0], frames);
        let full = written + tail;
        stream_rewrite_fits(rest);
        rewritten_streams_stand(data, count - 1, stream + tail);
        assert(full =~= before + (stream + tail));
        assert(full.subrange(before.len() as int, full.len() as int) =~= stream + tail);
        written_stream_reads_back(rest[0], frames, tail);
        stream_configuration_decides((stream + tail)[0], rest[0], frames);
    } else {
        assert(written =~= Seq::<u8>::empty());
    }
}

/// A packet of several streams whose padding was taken away is well formed and no longer
/// than the packet it was made from, and taking the padding away from it changes nothing
/// more.
pub proof fn streams_unpadded_is_shortest(data: Seq<u8>, streams: int)
    requires
        streams_unpadded(data, streams) is Some,
    ensures
        streams_unpadded(data, streams).unwrap().len() <= data.len(),
        streams_unpadded(streams_unpadded(data, streams).unwrap(), streams) == streams_unpadded(
            data,
            streams,
        ),
{
    if streams >= 1 {
        let (written, at) = streams_rewritten(data, streams - 1).unwrap();
        let last = data.subrange(at, data.len() as int);
        let out = written + unpadded(last);
        rewritten_is_no_longer(data, streams - 1);
        rewritten_streams_stand(data, streams - 1, unpadded(last));
        unpadded_len(last);
        unpadded_is_shortest(last);
        assert(out.subrange(written.len() as int, out.len() as int) =~= unpadded(last));
    }
}

/// For one stream, padding and taking the padding away are what they are for a packet
/// that is no packet of several streams.
pub proof fn one_stream_is_a_packet(data: Seq<u8>, new_len: int)
    requires
        data.len() > 0,
    ensures
        streams_padded(data, new_len, 1) == padded(data, new_len),
        streams_pad_refusal(data, data.len() as int, new_len, 1) == pad_refusal(
            data,
            data.len() as int,
            new_len,
        ),
        streams_unpadded(data, 1) == (if parse_layout(data) is Some {
            Some(unpadded(data))
        } else {
            None
        }),
{
    let len = data.len() as int;
    assert(data.subrange(0, len) =~= data);
    assert(stream_start(data, 0) == Some(0int));
    assert(streams_rewritten(data, 0) == Some((Seq::<u8>::empty(), 0int)));
    if new_len != len {
        assert(data.subrange(0, 0) + padded(data.subrange(0, len), new_len) =~= padded(
            data,
            new_len,
        ));
    }
    if parse_layout(data) is Some {
        assert(Seq::<u8>::empty() + unpadded(data.subrange(0, len)) =~= unpadded(data));
    }
}

/// Finds the index behind the first `skip` streams of `data`.
fn skip_streams(data: &[u8], skip: i32) -> (r: Option<usize>)
    ensures
        match r {
            Some(at) => stream_start(data@, skip as int) == Some(at as int) && at <= data@.len(),
            None => stream_start(data@, skip as int) is None,
        },
{
    let len: usize = data.len();
    let mut at: usize = 0;
    let mut done: i32 = 0;
    while done < skip
        invariant
            len == data@.len(),
            0 <= done,
            done <= skip || skip < 0,
            at <= len,
            stream_start(data@, done as int) == Some(at as int),
            skip <= 0 ==> done == 0,
        decreases skip - done,
    {
        if at >= len {
            proof {
                stream_unreachable(data@, done as int + 1, skip as int);
            }
            return None;
        }
        let rest = slice_subrange(data, at, len);
        match stream_packet_layout(rest) {
            None => {
                proof {
                    stream_unreachable(data@, done as int + 1, skip as int);
                }
                return None;
            },
            Some(layout) => {
                proof {
                    stream_layout_facts(rest@);
                }
                at = at + layout.extent();
                done = done + 1;
            },
        }
    }
    Some(at)
}

/// Once the streams cannot be walked, no larger number of them can.
pub proof fn stream_unreachable(data: Seq<u8>, reached: int, skip: int)
    requires
        0 <= reached <= skip,
        stream_start(data, reached) is None,
    ensures
        stream_start(data, skip) is None,
    decreases skip - reached,
{
    if reached < skip {
        stream_unreachable(data, reached, skip - 1);
    }
}

/// Writing one stream more again appends that stream to what was written and moves on by
/// its extent.
pub proof fn rewrite_step(data: Seq<u8>, done: int)
    requires
        0 <= done,
        streams_rewritten(data, done) is Some,
        streams_rewritten(data, done).unwrap().1 < data.len(),
        stream_layout(
            data.subrange(streams_rewritten(data, done).unwrap().1, data.len() as int),
        ) is Some,
    ensures
        streams_rewritten(data, done + 1) == ({
            let (written, at) = streams_rewritten(data, done).unwrap();
            let rest = data.subrange(at, data.len() as int);
            let layout = stream_layout(rest).unwrap();
            Some((written + stream_bytes(rest[0], frames_of(rest, layout)), at + extent(layout)))
        }),
{
}

/// Where the data ends behind the streams written so far, or no well-formed stream
/// follows them, one stream more cannot be written again.
pub proof fn rewrite_stops(data: Seq<u8>, done: int)
    requires
        0 <= done,
        streams_rewritten(data, done) is Some,
        streams_rewritten(data, done).unwrap().1 >= data.len() || stream_layout(
            data.subrange(streams_rewritten(data, done).unwrap().1, data.len() as int),
        ) is None,
    ensures
        streams_rewritten(data, done + 1) is None,
{
}

/// Once the streams cannot be written again, no larger number of them can.
pub proof fn rewrite_unreachable(data: Seq<u8>, reached: int, count: int)
    requires
        0 <= reached <= count,
        streams_rewritten(data, reached) is None,
    ensures
        streams_rewritten(data, count) is None,
    decreases count - reached,
{
    if reached < count {
        rewrite_unreachable(data, reached, count - 1);
    }
}

/// Pad a multistream packet to `new_len` given `nb_streams`.
///
/// The packet is the first `len` bytes of `packet`. Every stream but the last is a
/// self-delimiting packet; the padding goes into the last stream, and the bytes behind
/// `new_len` stay as they are. Fails with [`Error::BadArg`] where `new_len < len`,
/// `new_len` exceeds the buffer, `len` is zero, or the streams in front leave nothing for
/// the last, and with [`Error::InvalidPacket`] where the packet is to grow and a stream is
/// not well formed; the buffer is then unchanged. Succeeds on every other input.
pub fn multistream_packet_pad(packet: &mut [u8], len: usize, new_len: usize, nb_streams: i32) -> (r:
    Result<(), Error>)
    ensures
        final(packet)@.len() == old(packet)@.len(),
        match streams_pad_refusal(old(packet)@, len as int, new_len as int, nb_streams as int) {
            Some(e) => r == Err::<(), Error>(e) && final(packet)@ == old(packet)@,
            None => r is Ok && final(packet)@ == streams_padded(
                old(packet)@.subrange(0, len as int),
                new_len as int,
                nb_streams as int,
            ) + old(packet)@.subrange(new_len as int, old(packet)@.len() as int),
        },
{
    let size: usize = packet.len();
    if new_len < len || new_len > size || len == 0 {
        return Err(Error::BadArg);
    }
    if new_len == len {
        proof {
            assert(packet@ =~= packet@.subrange(0, len as int) + packet@.subrange(
                len as int,
                size as int,
            ));
        }
        return Ok(());
    }
    let copy: Vec<u8> = copy_prefix(packet, len);
    let skip: i32 = if nb_streams > 0 {
        nb_streams - 1
    } else {
        0
    };
    proof {
        if nb_streams <= 0 {
            assert(stream_start(copy@, nb_streams - 1) == Some(0int));
        }
    }
    let at: usize = match skip_streams(copy.as_slice(), skip) {
        None => {
            return Err(Error::InvalidPacket);
        },
        Some(at) => at,
    };
    if at >= len {
        return Err(Error::BadArg);
    }
    let last = slice_subrange(copy.as_slice(), at, len);
    let layout = match packet_layout(last) {
        Err(_) => {
            return Err(Error::InvalidPacket);
        },
        Ok(layout) => layout,
    };
    let frames = packet_frames(last, &layout);
    proof {
        rewritable(last@);
        padded_len(last@, new_len - at);
        layout_facts(last@);
    }
    let bare: usize = packet_len(frames.as_slice(), true);
    let built: Vec<u8> = build_packet(layout.toc, frames.as_slice(), true, new_len - at - bare);
    let mut whole: Vec<u8> = copy_prefix(copy.as_slice(), at);
    whole.extend_from_slice(built.as_slice());
    copy_into(packet, whole.as_slice());
    Ok(())
}

/// Appends to `written` the stream at `at`, written again in the shortest form, and returns
/// the index behind the stream; returns `None` where no well-formed stream starts there.
fn rewrite_stream(data: &[u8], at: usize, written: &mut Vec<u8>) -> (r: Option<usize>)
    requires
        at < data@.len(),
        old(written)@.len() <= at,
    ensures
        match r {
            Some(next) => {
                let rest = data@.subrange(at as int, data@.len() as int);
                &&& stream_layout(rest) is Some
                &&& next == at + extent(stream_layout(rest).unwrap())
                &&& next <= data@.len()
                &&& final(written)@ == old(written)@ + stream_bytes(
                    rest[0],
                    frames_of(rest, stream_layout(rest).unwrap()),
                )
                &&& final(written)@.len() <= next
            },
            None => stream_layout(data@.subrange(at as int, data@.len() as int)) is None
                && final(written)@ == old(written)@,
        },
{
    let len: usize = data.len();
    let rest = slice_subrange(data, at, len);
    match stream_packet_layout(rest) {
        None => None,
        Some(layout) => {
            proof {
                stream_layout_facts(rest@);
                stream_rewrite_fits(rest@);
            }
            let frames = stream_frames(rest, &layout);
            let built: Vec<u8> = build_stream(layout.toc, frames.as_slice());
            written.extend_from_slice(built.as_slice());
            Some(at + layout.extent())
        },
    }
}

/// Appends to `written` the packet that fills `data` from `at` on, written again in the
/// shortest form and without padding; returns whether that packet is well formed.
fn rewrite_last(data: &[u8], at: usize, written: &mut Vec<u8>) -> (ok: bool)
    requires
        at < data@.len(),
        old(written)@.len() <= at,
    ensures
        ok == (parse_layout(data@.subrange(at as int, data@.len() as int)) is Some),
        ok ==> final(written)@ == old(written)@ + unpadded(
            data@.subrange(at as int, data@.len() as int),
        ) && final(written)@.len() <= data@.len(),
        !ok ==> final(written)@ == old(written)@,
{
    let len: usize = data.len();
    let last = slice_subrange(data, at, len);
    let layout = match packet_layout(last) {
        Err(_) => {
            return false;
        },
        Ok(layout) => layout,
    };
    let frames = packet_frames(last, &layout);
    proof {
        rewritable(last@);
        unpadded_len(last@);
        layout_facts(last@);
    }
    let built: Vec<u8> = build_packet(layout.toc, frames.as_slice(), false, 0);
    written.extend_from_slice(built.as_slice());
    true
}

/// Remove padding from a multistream packet; returns the new length.
///
/// The packet is the first `len` bytes of `packet`. Every stream is written again in the
/// shortest form and without padding, one behind the other, and the bytes behind the new
/// length stay as they are. Fails with [`Error::BadArg`] where `len` is zero or exceeds the
/// buffer, and with [`Error::InvalidPacket`] where the data ends before the last stream or
/// a stream is not well formed; the buffer is then unchanged. Succeeds on every other
/// input; for no stream at all it returns zero.
pub fn multistream_packet_unpad(packet: &mut [u8], len: usize, nb_streams: i32) -> (r: Result<
    usize,
    Error,
>)
    ensures
        final(packet)@.len() == old(packet)@.len(),
        match streams_unpad_refusal(old(packet)@, len as int, nb_streams as int) {
            Some(e) => r == Err::<usize, Error>(e) && final(packet)@ == old(packet)@,
            None => match r {
                Ok(new_len) => {
                    let written = streams_unpadded(
                        old(packet)@.subrange(0, len as int),
                        nb_streams as int,
                    ).unwrap();
                    &&& new_len == written.len()
                    &&& new_len <= len
                    &&& final(packet)@ == written + old(packet)@.subrange(
                        new_len as int,
                        old(packet)@.len() as int,
                    )
                },
                Err(_) => false,
            },
        },
{
    let size: usize = packet.len();
    if len > size || len == 0 {
        return Err(Error::BadArg);
    }
    if nb_streams <= 0 {
        proof {
            assert(packet@ =~= Seq::<u8>::empty() + packet@.subrange(0, size as int));
        }
        return Ok(0);
    }
    let copy: Vec<u8> = copy_prefix(packet, len);
    let mut written: Vec<u8> = Vec::new();
    let mut at: usize = 0;
    let mut done: i32 = 0;
    while done < nb_streams - 1
        invariant
            packet@ == old(packet)@,
            copy@ == old(packet)@.subrange(0, len as int),
            0 < len <= old(packet)@.len(),
            len == copy@.len(),
            0 <= done <= nb_streams - 1,
            at <= len,
            written@.len() <= at,
            streams_rewritten(copy@, done as int) == Some((written@, at as int)),
        decreases nb_streams - 1 - done,
    {
        if at >= len {
            proof {
                rewrite_stops(copy@, done as int);
                rewrite_unreachable(copy@, done as int + 1, nb_streams as int - 1);
            }
            return Err(Error::InvalidPacket);
        }
        match rewrite_stream(copy.as_slice(), at, &mut written) {
            None => {
                proof {
                    rewrite_stops(copy@, done as int);
                    rewrite_unreachable(copy@, done as int + 1, nb_streams as int - 1);
                }
                return Err(Error::InvalidPacket);
            },
            Some(next) => {
                proof {
                    rewrite_step(copy@, done as int);
                }
                at = next;
                done = done + 1;
            },
        }
    }
    if at >= len {
        return Err(Error::InvalidPacket);
    }
    if !rewrite_last(copy.as_slice(), at, &mut written) {
        return Err(Error::InvalidPacket);
    }
    copy_into(packet, written.as_slice());
    Ok(written.len())
}

} // verus!
