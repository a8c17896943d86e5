//! Inspection of packets: their layout, their frames, and what the table-of-contents byte
//! says of the audio they carry.

use vstd::prelude::*;
use vstd::slice::slice_subrange;
use crate::error::Error;
use crate::framing::{
    announced_frames, equal_sizes, extent, frame_bytes, frame_start, frames_of, frames_total,
    layout_counted, layout_facts, lengths, non_empty, non_empty_total, pad_field,
    pad_field_bounds, parse_layout, size_field, size_fields, size_fields_stay_unreadable,
    stream_layout, stream_layout_counted, stream_layout_facts, total, total_len, total_push,
    total_take_bounds, total_take_step, valid_sizes, Layout, MAX_FRAMES, MAX_FRAME_BYTES,
};
pub use crate::padding::{
    multistream_packet_pad, multistream_packet_unpad, packet_pad, packet_unpad,
};
use crate::types::{Bandwidth, Channels, SampleRate};

verus! {

/// The sizes of a vector of sizes, as mathematical integers.
pub open spec fn sizes_of(sizes: Seq<usize>) -> Seq<int> {
    Seq::new(sizes.len(), |i: int| sizes[i] as int)
}

/// The contents of a sequence of borrowed byte runs.
pub open spec fn contents(frames: Seq<&[u8]>) -> Seq<Seq<u8>> {
    Seq::new(frames.len(), |i: int| frames[i]@)
}

/// Where the frames of a packet lie, as computed from its bytes.
pub struct PacketLayout {
    /// The table-of-contents byte.
    pub toc: u8,
    /// The index of the first byte of the first frame.
    pub payload_offset: usize,
    /// The size of every frame, in order, empty frames included.
    pub sizes: Vec<usize>,
    /// The number of padding bytes behind the last frame.
    pub padding: usize,
}

impl View for PacketLayout {
    type V = Layout;

    open spec fn view(&self) -> Layout {
        Layout {
            toc: self.toc,
            sizes: sizes_of(self.sizes@),
            payload_offset: self.payload_offset as int,
            padding: self.padding as int,
        }
    }
}

impl PacketLayout {
    /// The number of bytes that the packet takes: head, frames and padding.
    pub(crate) fn extent(&self) -> (n: usize)
        requires
            valid_sizes(self@.sizes),
            0 <= extent(self@) <= usize::MAX,
            0 <= self@.padding,
        ensures
            n == extent(self@),
    {
        let count: usize = self.sizes.len();
        let mut sum: usize = self.payload_offset;
        let mut i: usize = 0;
        proof {
            total_take_step(self@.sizes, 0);
        }
        while i < count
            invariant
                valid_sizes(self@.sizes),
                0 <= extent(self@) <= usize::MAX,
                0 <= self@.padding,
                count == self.sizes@.len(),
                i <= count,
                sum == self@.payload_offset + total(self@.sizes.take(i as int)),
            decreases count - i,
        {
            proof {
                assert(self@.sizes[i as int] == self.sizes@[i as int]);
                total_take_step(self@.sizes, i as int);
                total_take_bounds(self@.sizes, i as int + 1);
            }
            sum = sum + self.sizes[i];
            i = i + 1;
        }
        proof {
            assert(self@.sizes.take(count as int) =~= self@.sizes);
        }
        sum + self.padding
    }
}

/// Reads the length field at `at`, which must end before `end`.
fn read_size(data: &[u8], at: usize, end: usize) -> (r: Option<(usize, usize)>)
    requires
        at <= end <= data@.len(),
    ensures
        match r {
            Some((size, bytes)) => size_field(data@, at as int, end as int) == Some(
                (size as int, bytes as int),
            ) && size <= MAX_FRAME_BYTES && at + bytes <= end,
            None => size_field(data@, at as int, end as int) is None,
        },
{
    if at >= end {
        None
    } else if data[at] < 252 {
        Some((data[at] as usize, 1))
    } else if end - at < 2 {
        None
    } else {
        let low: usize = data[at] as usize;
        let high: usize = data[at + 1] as usize;
        Some((low + 4 * high, 2))
    }
}

/// Reads the padding field behind the count byte. Returns `None` where the field runs past
/// the data, or where the field and the padding it states do not fit into the packet.
fn read_padding(data: &[u8]) -> (r: Option<(usize, usize)>)
    requires
        data@.len() >= 2,
    ensures
        match r {
            Some((pad, bytes)) => pad_field(data@, 2) == Some((pad as int, bytes as int)) && 2
                + bytes + pad <= data@.len(),
            None => match pad_field(data@, 2) {
                Some((pad, bytes)) => 2 + bytes + pad > data@.len(),
                None => true,
            },
        },
{
    let len: usize = data.len();
    let mut at: usize = 2;
    let mut pad: usize = 0;
    loop
        invariant
            len == data@.len(),
            2 <= at <= len,
            pad == 254 * (at - 2),
            at + pad <= len,
            pad_field(data@, 2) == match pad_field(data@, at as int) {
                Some((p, b)) => Some((p + pad, b + (at - 2))),
                None => None,
            },
        decreases len - at,
    {
        if at >= len {
            return None;
        }
        let p: u8 = data[at];
        let room: usize = len - at - pad;
        if p == 255 {
            if room < 255 {
                proof {
                    pad_field_bounds(data@, at + 1);
                }
                return None;
            }
            pad = pad + 254;
            at = at + 1;
        } else {
            if room < 1 + p as usize {
                return None;
            }
            return Some((pad + p as usize, at - 1));
        }
    }
}

/// Reads `k` length fields from `start`, all of which must end before `end`. Returns the
/// sizes, the index behind the last field and the sum of the sizes.
fn read_sizes(data: &[u8], start: usize, end: usize, k: usize) -> (r: Option<
    (Vec<usize>, usize, usize),
>)
    requires
        start <= end <= data@.len(),
        k < MAX_FRAMES,
    ensures
        match r {
            Some((sizes, next, sum)) => size_fields(data@, start as int, end as int, k as int)
                == Some((sizes_of(sizes@), next as int)) && sum == total(sizes_of(sizes@))
                && sizes@.len() == k && start <= next <= end && sum <= MAX_FRAME_BYTES * k,
            None => size_fields(data@, start as int, end as int, k as int) is None,
        },
{
    let mut sizes: Vec<usize> = Vec::new();
    let mut at: usize = start;
    let mut sum: usize = 0;
    let mut i: usize = 0;
    proof {
        assert(sizes_of(sizes@) =~= Seq::<int>::empty());
    }
    while i < k
        invariant
            start <= at <= end <= data@.len(),
            i <= k < MAX_FRAMES,
            sizes@.len() == i,
            size_fields(data@, start as int, end as int, i as int) == Some(
                (sizes_of(sizes@), at as int),
            ),
            sum == total(sizes_of(sizes@)),
            sum <= MAX_FRAME_BYTES * i,
        decreases k - i,
    {
        match read_size(data, at, end) {
            None => {
                proof {
                    size_fields_stay_unreadable(
                        data@,
                        start as int,
                        end as int,
                        i as int + 1,
                        k as int,
                    );
                }
                return None;
            },
            Some((size, bytes)) => {
                proof {
                    assert(sizes_of(sizes@.push(size)) =~= sizes_of(sizes@).push(size as int));
                    total_push(sizes_of(sizes@), size as int);
                }
                sizes.push(size);
                sum = sum + size;
                at = at + bytes;
                i = i + 1;
            },
        }
    }
    Some((sizes, at, sum))
}

/// A vector of `count` sizes, each of them `each`.
fn repeat_size(count: usize, each: usize) -> (sizes: Vec<usize>)
    ensures
        sizes_of(sizes@) == equal_sizes(count as int, each as int),
{
    let mut sizes: Vec<usize> = Vec::new();
    let mut i: usize = 0;
    while i < count
        invariant
            i <= count,
            sizes@.len() == i,
            forall|j: int| 0 <= j < i ==> sizes@[j] == each,
        decreases count - i,
    {
        sizes.push(each);
        i = i + 1;
    }
    proof {
        assert(sizes_of(sizes@) =~= equal_sizes(count as int, each as int));
    }
    sizes
}

/// Computes the layout of a counted run of frames.
fn counted_layout(packet: &[u8]) -> (r: Option<PacketLayout>)
    requires
        packet@.len() >= 1,
    ensures
        match r {
            Some(layout) => layout_counted(packet@) == Some(layout@),
            None => layout_counted(packet@) is None,
        },
{
    let len: usize = packet.len();
    if len < 2 {
        return None;
    }
    let ch: u8 = packet[1];
    let count: usize = (ch % 64) as usize;
    if count == 0 || count > MAX_FRAMES {
        return None;
    }
    let mut pad: usize = 0;
    let mut pad_bytes: usize = 0;
    if (ch / 64) % 2 == 1 {
        match read_padding(packet) {
            None => {
                proof {
                    pad_field_bounds(packet@, 2);
                }
                return None;
            },
            Some((p, b)) => {
                pad = p;
                pad_bytes = b;
            },
        }
    }
    let start: usize = 2 + pad_bytes;
    let end: usize = len - pad;
    if ch >= 128 {
        match read_sizes(packet, start, end, count - 1) {
            None => None,
            Some((sizes, offset, sum)) => {
                let mut sizes = sizes;
                if end - offset < sum {
                    return None;
                }
                let last: usize = end - offset - sum;
                if last > MAX_FRAME_BYTES {
                    return None;
                }
                proof {
                    assert(sizes_of(sizes@.push(last)) =~= sizes_of(sizes@).push(last as int));
                }
                sizes.push(last);
                Some(PacketLayout { toc: packet[0], payload_offset: offset, sizes, padding: pad })
            },
        }
    } else {
        let rest: usize = end - start;
        if rest % count != 0 || rest / count > MAX_FRAME_BYTES {
            return None;
        }
        let sizes = repeat_size(count, rest / count);
        Some(PacketLayout { toc: packet[0], payload_offset: start, sizes, padding: pad })
    }
}

/// Computes where the frames of `packet` lie.
///
/// Fails with [`Error::BadArg`] on an empty packet and with [`Error::InvalidPacket`] on
/// bytes that are no well-formed packet; succeeds on every other input.
pub fn packet_layout(packet: &[u8]) -> (r: Result<PacketLayout, Error>)
    ensures
        packet@.len() == 0 ==> r == Err::<PacketLayout, Error>(Error::BadArg),
        packet@.len() > 0 ==> match r {
            Ok(layout) => parse_layout(packet@) == Some(layout@),
            Err(e) => e == Error::InvalidPacket && parse_layout(packet@) is None,
        },
{
    proof {
        reveal(parse_layout);
    }
    let len: usize = packet.len();
    if len == 0 {
        return Err(Error::BadArg);
    }
    let toc: u8 = packet[0];
    let code: u8 = toc % 4;
    if code == 0 {
        let size: usize = len - 1;
        if size > MAX_FRAME_BYTES {
            return Err(Error::InvalidPacket);
        }
        let mut sizes: Vec<usize> = Vec::new();
        sizes.push(size);
        proof {
            assert(sizes_of(sizes@) =~= seq![size as int]);
        }
        Ok(PacketLayout { toc, payload_offset: 1, sizes, padding: 0 })
    } else if code == 1 {
        let rest: usize = len - 1;
        if rest % 2 != 0 || rest / 2 > MAX_FRAME_BYTES {
            return Err(Error::InvalidPacket);
        }
        let mut sizes: Vec<usize> = Vec::new();
        sizes.push(rest / 2);
        sizes.push(rest / 2);
        proof {
            assert(sizes_of(sizes@) =~= seq![(rest / 2) as int, (rest / 2) as int]);
        }
        Ok(PacketLayout { toc, payload_offset: 1, sizes, padding: 0 })
    } else if code == 2 {
        match read_size(packet, 1, len) {
            None => Err(Error::InvalidPacket),
            Some((first, bytes)) => {
                if len - 1 - bytes < first {
                    return Err(Error::InvalidPacket);
                }
                let second: usize = len - 1 - bytes - first;
                if second > MAX_FRAME_BYTES {
                    return Err(Error::InvalidPacket);
                }
                let mut sizes: Vec<usize> = Vec::new();
                sizes.push(first);
                sizes.push(second);
                proof {
                    assert(sizes_of(sizes@) =~= seq![first as int, second as int]);
                }
                Ok(PacketLayout { toc, payload_offset: 1 + bytes, sizes, padding: 0 })
            },
        }
    } else {
        match counted_layout(packet) {
            None => Err(Error::InvalidPacket),
            Some(layout) => Ok(layout),
        }
    }
}

/// Computes the layout of a self-delimiting counted run of frames.
fn counted_stream_layout(data: &[u8]) -> (r: Option<PacketLayout>)
    requires
        data@.len() >= 1,
    ensures
        match r {
            Some(layout) => stream_layout_counted(data@) == Some(layout@),
            None => stream_layout_counted(data@) is None,
        },
{
    let len: usize = data.len();
    if len < 2 {
        return None;
    }
    let ch: u8 = data[1];
    let count: usize = (ch % 64) as usize;
    if count == 0 || count > MAX_FRAMES {
        return None;
    }
    let mut pad: usize = 0;
    let mut pad_bytes: usize = 0;
    if (ch / 64) % 2 == 1 {
        match read_padding(data) {
            None => {
                proof {
                    pad_field_bounds(data@, 2);
                }
                return None;
            },
            Some((p, b)) => {
                pad = p;
                pad_bytes = b;
            },
        }
    }
    let start: usize = 2 + pad_bytes;
    let end: usize = len - pad;
    if ch >= 128 {
        match read_sizes(data, start, end, count - 1) {
            None => None,
            Some((sizes, offset, sum)) => {
                let mut sizes = sizes;
                match read_size(data, offset, end) {
                    None => None,
                    Some((last, bytes)) => {
                        if end - offset - bytes < sum + last {
                            return None;
                        }
                        proof {
                            assert(sizes_of(sizes@.push(last)) =~= sizes_of(sizes@).push(
                                last as int,
                            ));
                        }
                        sizes.push(last);
                        Some(
                            PacketLayout {
                                toc: data[0],
                                payload_offset: offset + bytes,
                                sizes,
                                padding: pad,
                            },
                        )
                    },
                }
            },
        }
    } else {
        match read_size(data, start, end) {
            None => None,
            Some((size, bytes)) => {
                assert(count * size <= 48 * 1275) by (nonlinear_arith)
                    requires
                        count <= 48,
                        size <= 1275,
                ;
                if end - start - bytes < count * size {
                    return None;
                }
                let sizes = repeat_size(count, size);
                Some(
                    PacketLayout {
                        toc: data[0],
                        payload_offset: start + bytes,
                        sizes,
                        padding: pad,
                    },
                )
            },
        }
    }
}

/// Computes where the frames of the self-delimiting packet at the start of `data` lie.
/// Returns `None` where the bytes do not start with such a packet.
pub fn stream_packet_layout(data: &[u8]) -> (r: Option<PacketLayout>)
    ensures
        match r {
            Some(layout) => stream_layout(data@) == Some(layout@),
            None => stream_layout(data@) is None,
        },
{
    proof {
        reveal(stream_layout);
    }
    let len: usize = data.len();
    if len == 0 {
        return None;
    }
    let toc: u8 = data[0];
    let code: u8 = toc % 4;
    if code == 0 || code == 1 {
        let count: usize = if code == 0 {
            1
        } else {
            2
        };
        match read_size(data, 1, len) {
            None => None,
            Some((size, bytes)) => {
                if len - 1 - bytes < count * size {
                    return None;
                }
                let sizes = repeat_size(count, size);
                Some(PacketLayout { toc, payload_offset: 1 + bytes, sizes, padding: 0 })
            },
        }
    } else if code == 2 {
        match read_size(data, 1, len) {
            None => None,
            Some((first, first_bytes)) => match read_size(data, 1 + first_bytes, len) {
                None => None,
                Some((second, second_bytes)) => {
                    if len - 1 - first_bytes - second_bytes < first + second {
                        return None;
                    }
                    let mut sizes: Vec<usize> = Vec::new();
                    sizes.push(first);
                    sizes.push(second);
                    proof {
                        assert(sizes_of(sizes@) =~= seq![first as int, second as int]);
                    }
                    Some(
                        PacketLayout {
                            toc,
                            payload_offset: 1 + first_bytes + second_bytes,
                            sizes,
                            padding: 0,
                        },
                    )
                },
            },
        }
    } else {
        counted_stream_layout(data)
    }
}

/// Every frame of the self-delimiting packet at the start of `data`, in order, empty
/// frames included, each borrowed from the data.
pub(crate) fn stream_frames<'a>(data: &'a [u8], layout: &PacketLayout) -> (frames: Vec<&'a [u8]>)
    requires
        stream_layout(data@) == Some(layout@),
    ensures
        contents(frames@) == frames_of(data@, layout@),
{
    proof {
        stream_layout_facts(data@);
    }
    frames_at(data, layout)
}

/// The frames of a layout whose frames lie within `data`.
fn frames_at<'a>(data: &'a [u8], layout: &PacketLayout) -> (frames: Vec<&'a [u8]>)
    requires
        valid_sizes(layout@.sizes),
        extent(layout@) <= data@.len(),
        0 <= layout@.padding,
    ensures
        contents(frames@) == frames_of(data@, layout@),
{
    let count: usize = layout.sizes.len();
    let len: usize = data.len();
    let mut frames: Vec<&'a [u8]> = Vec::new();
    let mut at: usize = layout.payload_offset;
    let mut i: usize = 0;
    proof {
        total_take_step(layout@.sizes, 0);
    }
    while i < count
        invariant
            valid_sizes(layout@.sizes),
            extent(layout@) <= data@.len(),
            0 <= layout@.padding,
            count == layout.sizes@.len(),
            len == data@.len(),
            i <= count,
            at == frame_start(layout@.sizes, layout@.payload_offset, i as int),
            frames@.len() == i,
            forall|j: int|
                0 <= j < i ==> (#[trigger] frames@[j])@ == frame_bytes(
                    data@,
                    layout@.sizes,
                    layout@.payload_offset,
                    j,
                ),
        decreases count - i,
    {
        let size: usize = layout.sizes[i];
        proof {
            assert(layout@.sizes[i as int] == size);
            total_take_step(layout@.sizes, i as int);
            total_take_bounds(layout@.sizes, i as int + 1);
        }
        let frame = slice_subrange(data, at, at + size);
        frames.push(frame);
        at = at + size;
        i = i + 1;
    }
    proof {
        assert(contents(frames@) =~= frames_of(data@, layout@));
    }
    frames
}

/// Every frame of `packet`, in order, empty frames included, each borrowed from the packet.
pub(crate) fn packet_frames<'a>(packet: &'a [u8], layout: &PacketLayout) -> (frames: Vec<&'a [u8]>)
    requires
        parse_layout(packet@) == Some(layout@),
    ensures
        contents(frames@) == frames_of(packet@, layout@),
{
    proof {
        layout_facts(packet@);
    }
    frames_at(packet, layout)
}

/// The frames of `all` that hold at least one byte, in order.
fn keep_non_empty<'a>(all: &Vec<&'a [u8]>) -> (frames: Vec<&'a [u8]>)
    ensures
        contents(frames@) == non_empty(contents(all@)),
{
    let mut frames: Vec<&'a [u8]> = Vec::new();
    let mut i: usize = 0;
    proof {
        assert(contents(all@).take(0) =~= Seq::<Seq<u8>>::empty());
        assert(contents(frames@) =~= Seq::<Seq<u8>>::empty());
    }
    while i < all.len()
        invariant
            i <= all@.len(),
            contents(frames@) == non_empty(contents(all@).take(i as int)),
        decreases all@.len() - i,
    {
        let frame = all[i];
        proof {
            let upto = contents(all@).take(i as int + 1);
            assert(upto.drop_last() =~= contents(all@).take(i as int));
            assert(upto.last() == frame@);
            if frame@.len() > 0 {
                assert(contents(frames@.push(frame)) =~= contents(frames@).push(frame@));
            }
        }
        if frame.len() > 0 {
            frames.push(frame);
        }
        i = i + 1;
    }
    proof {
        assert(contents(all@).take(all@.len() as int) =~= contents(all@));
    }
    frames
}

/// Parse a packet into its table-of-contents byte, the offset of its payload and its frames.
///
/// The frames are borrowed from `packet`, in order; a frame without bytes is left out of the
/// list. Fails with [`Error::BadArg`] on an empty packet and with [`Error::InvalidPacket`]
/// on bytes that are no well-formed packet; succeeds on every other input.
pub fn packet_parse<'a>(packet: &'a [u8]) -> (r: Result<(u8, usize, Vec<&'a [u8]>), Error>)
    ensures
        packet@.len() == 0 ==> r == Err::<(u8, usize, Vec<&'a [u8]>), Error>(Error::BadArg),
        packet@.len() > 0 ==> match r {
            Ok((toc, payload_offset, frames)) => match parse_layout(packet@) {
                Some(layout) => {
                    &&& toc == layout.toc
                    &&& payload_offset == layout.payload_offset
                    &&& contents(frames@) == non_empty(frames_of(packet@, layout))
                    &&& payload_offset + total_len(contents(frames@)) <= packet@.len()
                },
                None => false,
            },
            Err(e) => e == Error::InvalidPacket && parse_layout(packet@) is None,
        },
{
    let layout = match packet_layout(packet) {
        Err(e) => {
            return Err(e);
        },
        Ok(layout) => layout,
    };
    let all = packet_frames(packet, &layout);
    let frames = keep_non_empty(&all);
    proof {
        layout_facts(packet@);
        frames_total(packet@, layout@);
        non_empty_total(frames_of(packet@, layout@));
    }
    Ok((layout.toc, layout.payload_offset, frames))
}

/// Every frame of a run either holds bytes or is empty: the frames that `packet_parse`
/// returns are as many as the packet announces, less the empty ones.
pub proof fn frame_count_law(packet: Seq<u8>)
    requires
        parse_layout(packet) is Some,
    ensures
        non_empty(frames_of(packet, parse_layout(packet).unwrap())).len() + empty_frames(
            parse_layout(packet).unwrap().sizes,
        ) == announced_frames(packet),
        1 <= announced_frames(packet) <= MAX_FRAMES,
        parse_layout(packet).unwrap().payload_offset + total(parse_layout(packet).unwrap().sizes)
            <= packet.len(),
{
    let layout = parse_layout(packet).unwrap();
    layout_facts(packet);
    frames_total(packet, layout);
    non_empty_count(frames_of(packet, layout));
}

/// The number of empty frames among frames of the given sizes.
pub open spec fn empty_frames(sizes: Seq<int>) -> int
    decreases sizes.len(),
{
    if sizes.len() == 0 {
        0
    } else {
        empty_frames(sizes.drop_last()) + (if sizes.last() == 0 {
            1int
        } else {
            0
        })
    }
}

/// The frames that hold bytes and the empty frames of a run are all its frames.
pub proof fn non_empty_count(frames: Seq<Seq<u8>>)
    ensures
        non_empty(frames).len() + empty_frames(lengths(frames)) == frames.len(),
    decreases frames.len(),
{
    if frames.len() > 0 {
        non_empty_count(frames.drop_last());
        assert(lengths(frames).drop_last() =~= lengths(frames.drop_last()));
    }
}

/// The coding configuration of a table-of-contents byte: its five high bits.
pub open spec fn config_of(toc: u8) -> int {
    (toc / 8) as int
}

/// The audio bandwidth that a table-of-contents byte announces. Configurations 0 to 11
/// are narrowband, mediumband and wideband in fours; 12 and 13 are super-wideband, 14 and
/// 15 fullband; 16 to 31 are narrowband, wideband, super-wideband and fullband in fours.
pub open spec fn bandwidth_of(toc: u8) -> Bandwidth {
    let config = config_of(toc);
    if config < 4 {
        Bandwidth::Narrowband
    } else if config < 8 {
        Bandwidth::Mediumband
    } else if config < 12 {
        Bandwidth::Wideband
    } else if config < 14 {
        Bandwidth::SuperWideband
    } else if config < 16 {
        Bandwidth::Fullband
    } else if config < 20 {
        Bandwidth::Narrowband
    } else if config < 24 {
        Bandwidth::Wideband
    } else if config < 28 {
        Bandwidth::SuperWideband
    } else {
        Bandwidth::Fullband
    }
}

/// The channel layout that a table-of-contents byte announces: stereo where bit 2 is set.
pub open spec fn channels_of(toc: u8) -> Channels {
    if (toc / 4) % 2 == 1 {
        Channels::Stereo
    } else {
        Channels::Mono
    }
}

/// The duration of one frame, in units of 2.5 ms, that a table-of-contents byte announces.
/// Configurations 0 to 11 last 10, 20, 40 and 60 ms in turn; 12 to 15 last 10 and 20 ms
/// in turn; 16 to 31 last 2.5, 5, 10 and 20 ms in turn.
pub open spec fn frame_units(toc: u8) -> int {
    let config = config_of(toc);
    if config < 12 {
        if config % 4 == 0 {
            4
        } else if config % 4 == 1 {
            8
        } else if config % 4 == 2 {
            16
        } else {
            24
        }
    } else if config < 16 {
        if config % 2 == 0 {
            4
        } else {
            8
        }
    } else if config % 4 == 0 {
        1
    } else if config % 4 == 1 {
        2
    } else if config % 4 == 2 {
        4
    } else {
        8
    }
}

/// The number of samples per channel in one frame at a sample rate: 2.5 ms are one part
/// in 400 of a second.
pub open spec fn samples_per_frame(toc: u8, sample_rate: SampleRate) -> int {
    frame_units(toc) * sample_rate.hertz() / 400
}

/// Get bandwidth from a packet.
///
/// Fails with [`Error::BadArg`] on an empty packet; succeeds on every other input.
pub fn packet_bandwidth(packet: &[u8]) -> (r: Result<Bandwidth, Error>)
    ensures
        r == (if packet@.len() == 0 {
            Err::<Bandwidth, Error>(Error::BadArg)
        } else {
            Ok(bandwidth_of(packet@[0]))
        }),
{
    if packet.len() == 0 {
        return Err(Error::BadArg);
    }
    let config: u8 = packet[0] / 8;
    Ok(
        if config < 4 {
            Bandwidth::Narrowband
        } else if config < 8 {
            Bandwidth::Mediumband
        } else if config < 12 {
            Bandwidth::Wideband
        } else if config < 14 {
            Bandwidth::SuperWideband
        } else if config < 16 {
            Bandwidth::Fullband
        } else if config < 20 {
            Bandwidth::Narrowband
        } else if config < 24 {
            Bandwidth::Wideband
        } else if config < 28 {
            Bandwidth::SuperWideband
        } else {
            Bandwidth::Fullband
        },
    )
}

/// Get channel count encoded by the packet.
///
/// Fails with [`Error::BadArg`] on an empty packet; succeeds on every other input.
pub fn packet_channels(packet: &[u8]) -> (r: Result<Channels, Error>)
    ensures
        r == (if packet@.len() == 0 {
            Err::<Channels, Error>(Error::BadArg)
        } else {
            Ok(channels_of(packet@[0]))
        }),
{
    if packet.len() == 0 {
        return Err(Error::BadArg);
    }
    if (packet[0] / 4) % 2 == 1 {
        Ok(Channels::Stereo)
    } else {
        Ok(Channels::Mono)
    }
}

/// Get number of frames in a packet, empty frames included.
///
/// Fails with [`Error::BadArg`] on an empty packet and with [`Error::InvalidPacket`] on
/// bytes that are no well-formed packet; succeeds on every other input.
pub fn packet_nb_frames(packet: &[u8]) -> (r: Result<usize, Error>)
    ensures
        r == (if packet@.len() == 0 {
            Err::<usize, Error>(Error::BadArg)
        } else if parse_layout(packet@) is None {
            Err(Error::InvalidPacket)
        } else {
            Ok(announced_frames(packet@) as usize)
        }),
        r is Ok ==> 1 <= r.unwrap() <= MAX_FRAMES,
{
    match packet_layout(packet) {
        Err(e) => Err(e),
        Ok(layout) => {
            proof {
                layout_facts(packet@);
            }
            Ok(layout.sizes.len())
        },
    }
}

/// The duration of one frame in units of 2.5 ms.
fn units_per_frame(toc: u8) -> (units: usize)
    ensures
        units == frame_units(toc),
        1 <= units <= 24,
{
    let config: u8 = toc / 8;
    if config < 12 {
        if config % 4 == 0 {
            4
        } else if config % 4 == 1 {
            8
        } else if config % 4 == 2 {
            16
        } else {
            24
        }
    } else if config < 16 {
        if config % 2 == 0 {
            4
        } else {
            8
        }
    } else if config % 4 == 0 {
        1
    } else if config % 4 == 1 {
        2
    } else if config % 4 == 2 {
        4
    } else {
        8
    }
}

/// Get the number of samples per frame for a packet at a given sample rate.
///
/// Fails with [`Error::BadArg`] on an empty packet; succeeds on every other input.
pub fn packet_samples_per_frame(packet: &[u8], sample_rate: SampleRate) -> (r: Result<
    usize,
    Error,
>)
    ensures
        r == (if packet@.len() == 0 {
            Err::<usize, Error>(Error::BadArg)
        } else {
            Ok(samples_per_frame(packet@[0], sample_rate) as usize)
        }),
        r is Ok ==> 20 <= r.unwrap() <= 2880,
{
    if packet.len() == 0 {
        return Err(Error::BadArg);
    }
    let units: usize = units_per_frame(packet[0]);
    let hz: usize = sample_rate.as_i32() as usize;
    assert(8000 <= units * hz <= 24 * 48000) by (nonlinear_arith)
        requires
            1 <= units <= 24,
            8000 <= hz <= 48000,
    ;
    Ok(units * hz / 400)
}

/// What `packet_nb_samples` returns for a packet: the samples of all its frames, or a
/// refusal where the packet is empty, is not well formed, or lasts longer than 120 ms.
pub open spec fn samples_in(packet: Seq<u8>, sample_rate: SampleRate) -> Result<usize, Error> {
    if packet.len() == 0 {
        Err(Error::BadArg)
    } else if parse_layout(packet) is None {
        Err(Error::InvalidPacket)
    } else if announced_frames(packet) * frame_units(packet[0]) > 48 {
        Err(Error::InvalidPacket)
    } else {
        Ok((announced_frames(packet) * samples_per_frame(packet[0], sample_rate)) as usize)
    }
}

/// Get total samples (per channel) in a packet at the given sample rate.
///
/// Fails with [`Error::BadArg`] on an empty packet, and with [`Error::InvalidPacket`] on
/// bytes that are no well-formed packet or whose frames last more than 120 ms together;
/// succeeds on every other input.
pub fn packet_nb_samples(packet: &[u8], sample_rate: SampleRate) -> (r: Result<usize, Error>)
    ensures
        r == samples_in(packet@, sample_rate),
{
    let count: usize = match packet_nb_frames(packet) {
        Err(e) => {
            return Err(e);
        },
        Ok(count) => count,
    };
    let units: usize = units_per_frame(packet[0]);
    assert(count * units <= 48 * 24) by (nonlinear_arith)
        requires
            count <= 48,
            units <= 24,
    ;
    if count * units > 48 {
        return Err(Error::InvalidPacket);
    }
    let hz: usize = sample_rate.as_i32() as usize;
    assert(units * hz <= 24 * 48000) by (nonlinear_arith)
        requires
            units <= 24,
            hz <= 48000,
    ;
    let each: usize = units * hz / 400;
    assert(count * each <= 48 * 2880) by (nonlinear_arith)
        requires
            count <= 48,
            each <= 2880,
    ;
    Ok(count * each)
}

/// Whether the first frame of a packet announces redundancy at low bit rate. Packets of
/// the configurations 16 to 31 never do. In the others the first byte of the first frame
/// starts with one voice-activity flag for each 20 ms the frame lasts and one redundancy
/// flag behind them, for the first channel and then, in stereo, for the second.
pub open spec fn lbrr_flag(toc: u8, first: u8) -> bool {
    let parts: int = if frame_units(toc) > 8 {
        frame_units(toc) / 8
    } else {
        1
    };
    let mid = if parts == 1 {
        (first / 64) % 2 == 1
    } else if parts == 2 {
        (first / 32) % 2 == 1
    } else {
        (first / 16) % 2 == 1
    };
    let side = if parts == 1 {
        (first / 16) % 2 == 1
    } else if parts == 2 {
        (first / 4) % 2 == 1
    } else {
        first % 2 == 1
    };
    config_of(toc) < 16 && (mid || (channels_of(toc) == Channels::Stereo && side))
}

/// What `packet_has_lbrr` returns for a packet.
pub open spec fn lbrr_in(packet: Seq<u8>) -> Result<bool, Error> {
    if packet.len() == 0 {
        Err(Error::BadArg)
    } else if config_of(packet[0]) >= 16 {
        Ok(false)
    } else {
        match parse_layout(packet) {
            None => Err(Error::InvalidPacket),
            Some(layout) => if layout.sizes[0] == 0 {
                Ok(false)
            } else {
                Ok(lbrr_flag(packet[0], packet[layout.payload_offset]))
            },
        }
    }
}

/// Check if packet has LBRR.
///
/// Fails with [`Error::BadArg`] on an empty packet, and with [`Error::InvalidPacket`] on a
/// packet of the configurations 0 to 15 that is not well formed; succeeds on every other
/// input.
pub fn packet_has_lbrr(packet: &[u8]) -> (r: Result<bool, Error>)
    ensures
        r == lbrr_in(packet@),
{
    if packet.len() == 0 {
        return Err(Error::BadArg);
    }
    let toc: u8 = packet[0];
    if toc / 8 >= 16 {
        return Ok(false);
    }
    let layout = match packet_layout(packet) {
        Err(e) => {
            return Err(e);
        },
        Ok(layout) => layout,
    };
    proof {
        layout_facts(packet@);
        total_take_step(layout@.sizes, 0);
        assert(layout@.sizes.take(1) =~= seq![layout@.sizes[0]]);
        total_take_bounds(layout@.sizes, 1);
        assert(layout@.sizes[0] == layout.sizes@[0]);
    }
    if layout.sizes[0] == 0 {
        return Ok(false);
    }
    let first: u8 = packet[layout.payload_offset];
    let units: usize = units_per_frame(toc);
    let parts: usize = if units > 8 {
        units / 8
    } else {
        1
    };
    let mid: bool = if parts == 1 {
        (first / 64) % 2 == 1
    } else if parts == 2 {
        (first / 32) % 2 == 1
    } else {
        (first / 16) % 2 == 1
    };
    let side: bool = if parts == 1 {
        (first / 16) % 2 == 1
    } else if parts == 2 {
        (first / 4) % 2 == 1
    } else {
        first % 2 == 1
    };
    let stereo: bool = (toc / 4) % 2 == 1;
    Ok(mid || (stereo && side))
}

/// What `soft_clip` answers for a buffer of `pcm_len` samples and clipping state for
/// `mem_len` channels: the frame size to hand to the codec, or a refusal. There must be a
/// sample and a channel at least; the state must cover every channel; the buffer must hold
/// the frame of every channel; and the codec must be able to count the frame.
pub open spec fn soft_clip_plan(
    pcm_len: int,
    frame_size: int,
    channels: int,
    mem_len: int,
) -> Result<i32, Error> {
    if frame_size == 0 || channels <= 0 || mem_len < channels || frame_size * channels
        > usize::MAX || pcm_len < frame_size * channels || frame_size > i32::MAX {
        Err(Error::BadArg)
    } else {
        Ok(frame_size as i32)
    }
}

/// Checks the buffers of a call that clips PCM in floating point softly into [-1, 1]:
/// `pcm_len` is the number of samples in the buffer, `mem_len` the number of channels
/// that the clipping state covers. Returns the frame size to hand to the codec.
pub fn soft_clip(pcm_len: usize, frame_size_per_ch: usize, channels: i32, mem_len: usize) -> (r:
    Result<i32, Error>)
    ensures
        r == soft_clip_plan(
            pcm_len as int,
            frame_size_per_ch as int,
            channels as int,
            mem_len as int,
        ),
{
    if frame_size_per_ch == 0 || channels <= 0 {
        return Err(Error::BadArg);
    }
    let each: usize = channels as usize;
    if mem_len < each {
        return Err(Error::BadArg);
    }
    let needed: usize = match frame_size_per_ch.checked_mul(each) {
        None => {
            return Err(Error::BadArg);
        },
        Some(needed) => needed,
    };
    if pcm_len < needed || frame_size_per_ch > i32::MAX as usize {
        return Err(Error::BadArg);
    }
    Ok(frame_size_per_ch as i32)
}

} // verus!
