//! The byte layout of a packet, as mathematics: which frames a sequence of bytes holds.
//!
//! A packet starts with a table-of-contents byte. Its two low bits say how the frames are
//! laid out: one frame; two frames of equal size; two frames, the first with a stated size;
//! or a counted run of frames, with an optional run of padding behind the last one.

use vstd::prelude::*;

verus! {

/// The largest number of frames one packet may carry.
pub const MAX_FRAMES: usize = 48;

/// The largest size of one frame in bytes: the largest size a length field can state.
pub const MAX_FRAME_BYTES: usize = 1275;

/// Where the frames of a packet lie.
pub struct Layout {
    /// The table-of-contents byte.
    pub toc: u8,
    /// The size of every frame, in order, empty frames included.
    pub sizes: Seq<int>,
    /// The index of the first byte of the first frame.
    pub payload_offset: int,
    /// The number of padding bytes behind the last frame.
    pub padding: int,
}

/// The sum of a sequence of sizes.
pub open spec fn total(sizes: Seq<int>) -> int
    decreases sizes.len(),
{
    if sizes.len() == 0 {
        0
    } else {
        total(sizes.drop_last()) + sizes.last()
    }
}

/// The length field at index `at`, which must end before `end`: the size it states and the
/// number of bytes it takes. A first byte below 252 is the size; a larger one is followed by
/// a second byte that counts fours.
pub open spec fn size_field(data: Seq<u8>, at: int, end: int) -> Option<(int, int)> {
    if at < 0 || at >= end || end > data.len() {
        None
    } else if data[at] < 252 {
        Some((data[at] as int, 1))
    } else if at + 1 >= end {
        None
    } else {
        Some((data[at] as int + 4 * (data[at + 1] as int), 2))
    }
}

/// The padding field at index `at`: the number of padding bytes it states and the number of
/// bytes it takes. Each byte of value 255 stands for 254 padding bytes and is followed by
/// another byte; the first byte below 255 states the rest and ends the field.
pub open spec fn pad_field(data: Seq<u8>, at: int) -> Option<(int, int)>
    decreases data.len() - at,
{
    if at < 0 || at >= data.len() {
        None
    } else if data[at] == 255 {
        match pad_field(data, at + 1) {
            Some((pad, bytes)) => Some((pad + 254, bytes + 1)),
            None => None,
        }
    } else {
        Some((data[at] as int, 1))
    }
}

/// The first `k` length fields of a run that starts at `at` and ends before `end`: the sizes
/// they state and the index behind the last of them.
pub open spec fn size_fields(data: Seq<u8>, at: int, end: int, k: int) -> Option<(Seq<int>, int)>
    decreases k,
{
    if k <= 0 {
        Some((Seq::empty(), at))
    } else {
        match size_fields(data, at, end, k - 1) {
            None => None,
            Some((sizes, next)) => match size_field(data, next, end) {
                None => None,
                Some((size, bytes)) => Some((sizes.push(size), next + bytes)),
            },
        }
    }
}

/// Layout of a packet whose table of contents announces one frame: the rest of the packet.
pub open spec fn layout_single(data: Seq<u8>) -> Option<Layout> {
    let size = data.len() - 1;
    if size > MAX_FRAME_BYTES {
        None
    } else {
        Some(Layout { toc: data[0], sizes: seq![size], payload_offset: 1, padding: 0 })
    }
}

/// Layout of a packet whose table of contents announces two frames of equal size.
pub open spec fn layout_pair_equal(data: Seq<u8>) -> Option<Layout> {
    let rest = data.len() - 1;
    if rest % 2 != 0 || rest / 2 > MAX_FRAME_BYTES {
        None
    } else {
        Some(
            Layout { toc: data[0], sizes: seq![rest / 2, rest / 2], payload_offset: 1, padding: 0 },
        )
    }
}

/// Layout of a packet whose table of contents announces two frames, the first with a length
/// field, the second taking the rest.
pub open spec fn layout_pair_sized(data: Seq<u8>) -> Option<Layout> {
    match size_field(data, 1, data.len() as int) {
        None => None,
        Some((first, bytes)) => {
            let second = data.len() - 1 - bytes - first;
            if second < 0 || second > MAX_FRAME_BYTES {
                None
            } else {
                Some(
                    Layout {
                        toc: data[0],
                        sizes: seq![first, second],
                        payload_offset: 1 + bytes,
                        padding: 0,
                    },
                )
            }
        },
    }
}

/// The padding that the frame-count byte `ch` announces for a packet: none where the padding
/// flag is clear, else what the padding field behind the count byte states.
pub open spec fn counted_padding(data: Seq<u8>, ch: u8) -> Option<(int, int)> {
    if (ch / 64) % 2 == 1 {
        pad_field(data, 2)
    } else {
        Some((0, 0))
    }
}

/// Layout of a packet whose table of contents announces a counted run of frames. The byte
/// behind it holds the count in its low six bits, the padding flag in the next bit and the
/// flag for frames of varying size in the top bit. With that flag every frame but the last
/// has a length field; without it the frames share the bytes equally.
pub open spec fn layout_counted(data: Seq<u8>) -> Option<Layout> {
    if data.len() < 2 {
        None
    } else {
        let ch = data[1];
        let count = (ch % 64) as int;
        if count == 0 || count > MAX_FRAMES {
            None
        } else {
            match counted_padding(data, ch) {
                None => None,
                Some((pad, pad_bytes)) => {
                    let start = 2 + pad_bytes;
                    let end = data.len() - pad;
                    if end < start {
                        None
                    } else if ch >= 128 {
                        match size_fields(data, start, end, count - 1) {
                            None => None,
                            Some((sizes, offset)) => {
                                let last = end - offset - total(sizes);
                                if last < 0 || last > MAX_FRAME_BYTES {
                                    None
                                } else {
                                    Some(
                                        Layout {
                                            toc: data[0],
                                            sizes: sizes.push(last),
                                            payload_offset: offset,
                                            padding: pad,
                                        },
                                    )
                                }
                            },
                        }
                    } else {
                        let rest = end - start;
                        if rest % count != 0 || rest / count > MAX_FRAME_BYTES {
                            None
                        } else {
                            Some(
                                Layout {
                                    toc: data[0],
                                    sizes: equal_sizes(count, rest / count),
                                    payload_offset: start,
                                    padding: pad,
                                },
                            )
                        }
                    }
                },
            }
        }
    }
}

/// `count` sizes, each of them `each`.
pub open spec fn equal_sizes(count: int, each: int) -> Seq<int> {
    Seq::new(count as nat, |i: int| each)
}

/// The layout of a packet, or `None` where the bytes are no well-formed packet.
#[verifier::opaque]
pub open spec fn parse_layout(data: Seq<u8>) -> Option<Layout> {
    if data.len() == 0 {
        None
    } else if data[0] % 4 == 0 {
        layout_single(data)
    } else if data[0] % 4 == 1 {
        layout_pair_equal(data)
    } else if data[0] % 4 == 2 {
        layout_pair_sized(data)
    } else {
        layout_counted(data)
    }
}

/// Layout of a self-delimiting packet that announces one frame, or two frames of equal
/// size: one length field states the size of each frame.
pub open spec fn stream_layout_equal(data: Seq<u8>, count: int) -> Option<Layout> {
    match size_field(data, 1, data.len() as int) {
        None => None,
        Some((size, bytes)) => if 1 + bytes + count * size > data.len() {
            None
        } else {
            Some(
                Layout {
                    toc: data[0],
                    sizes: equal_sizes(count, size),
                    payload_offset: 1 + bytes,
                    padding: 0,
                },
            )
        },
    }
}

/// Layout of a self-delimiting packet that announces two frames with a length field
/// each.
pub open spec fn stream_layout_pair(data: Seq<u8>) -> Option<Layout> {
    match size_field(data, 1, data.len() as int) {
        None => None,
        Some((first, first_bytes)) => match size_field(
            data,
            1 + first_bytes,
            data.len() as int,
        ) {
            None => None,
            Some((second, second_bytes)) => if 1 + first_bytes + second_bytes + first + second
                > data.len() {
                None
            } else {
                Some(
                    Layout {
                        toc: data[0],
                        sizes: seq![first, second],
                        payload_offset: 1 + first_bytes + second_bytes,
                        padding: 0,
                    },
                )
            },
        },
    }
}

/// Layout of a self-delimiting packet that announces a counted run of frames: as in a
/// packet that fills its buffer, but with a length field for the last frame too, or, where
/// the frames share one size, a length field that states it. Head and frames must leave
/// room in the data for the padding, which stands behind the last frame.
pub open spec fn stream_layout_counted(data: Seq<u8>) -> Option<Layout> {
    if data.len() < 2 {
        None
    } else {
        let ch = data[1];
        let count = (ch % 64) as int;
        if count == 0 || count > MAX_FRAMES {
            None
        } else {
            match counted_padding(data, ch) {
                None => None,
                Some((pad, pad_bytes)) => {
                    let start = 2 + pad_bytes;
                    let end = data.len() - pad;
                    if end < start {
                        None
                    } else if ch >= 128 {
                        match size_fields(data, start, end, count - 1) {
                            None => None,
                            Some((sizes, offset)) => match size_field(data, offset, end) {
                                None => None,
                                Some((last, bytes)) => if offset + bytes + total(sizes) + last
                                    > end {
                                    None
                                } else {
                                    Some(
                                        Layout {
                                            toc: data[0],
                                            sizes: sizes.push(last),
                                            payload_offset: offset + bytes,
                                            padding: pad,
                                        },
                                    )
                                },
                            },
                        }
                    } else {
                        match size_field(data, start, end) {
                            None => None,
                            Some((size, bytes)) => if start + bytes + count * size > end {
                                None
                            } else {
                                Some(
                                    Layout {
                                        toc: data[0],
                                        sizes: equal_sizes(count, size),
                                        payload_offset: start + bytes,
                                        padding: pad,
                                    },
                                )
                            },
                        }
                    }
                },
            }
        }
    }
}

/// The layout of the self-delimiting packet at the start of `data`, or `None` where the
/// bytes do not start with one. A self-delimiting packet states the size of every frame,
/// so that it can be followed by other data: it is the form of every stream but the last
/// in a packet of several streams.
#[verifier::opaque]
pub open spec fn stream_layout(data: Seq<u8>) -> Option<Layout> {
    if data.len() == 0 {
        None
    } else if data[0] % 4 == 0 {
        stream_layout_equal(data, 1)
    } else if data[0] % 4 == 1 {
        stream_layout_equal(data, 2)
    } else if data[0] % 4 == 2 {
        stream_layout_pair(data)
    } else {
        stream_layout_counted(data)
    }
}

/// The number of bytes that a packet with this layout takes: head, frames and padding.
pub open spec fn extent(layout: Layout) -> int {
    layout.payload_offset + total(layout.sizes) + layout.padding
}

/// The sizes that a self-delimiting packet states are sizes of the frames of one packet.
pub proof fn stream_sizes_valid(data: Seq<u8>)
    requires
        stream_layout(data) is Some,
    ensures
        valid_sizes(stream_layout(data).unwrap().sizes),
{
    reveal(stream_layout);
    let code = data[0] % 4;
    if code == 3 {
        let ch = data[1];
        let count = (ch % 64) as int;
        let (pad, pad_bytes) = counted_padding(data, ch).unwrap();
        if (ch / 64) % 2 == 1 {
            pad_field_bounds(data, 2);
        }
        if ch >= 128 {
            size_fields_bounds(data, 2 + pad_bytes, data.len() - pad, count - 1);
        }
    }
}

/// What holds of the layout of every self-delimiting packet: it carries between one and
/// 48 frames, none larger than 1275 bytes; the payload starts behind the head; and head,
/// frames and padding lie within the data.
pub proof fn stream_layout_facts(data: Seq<u8>)
    requires
        stream_layout(data) is Some,
    ensures
        ({
            let layout = stream_layout(data).unwrap();
            &&& layout.toc == data[0]
            &&& valid_sizes(layout.sizes)
            &&& 2 <= layout.payload_offset
            &&& 0 <= layout.padding
            &&& 0 <= total(layout.sizes)
            &&& 2 <= extent(layout) <= data.len()
        }),
{
    reveal(stream_layout);
    let layout = stream_layout(data).unwrap();
    let code = data[0] % 4;
    stream_sizes_valid(data);
    total_nonnegative(layout.sizes);
    if code == 0 || code == 1 {
        let count: int = if code == 0 {
            1
        } else {
            2
        };
        let (size, bytes) = size_field(data, 1, data.len() as int).unwrap();
        equal_sizes_total(count, size);
        assert(size * count == count * size) by (nonlinear_arith);
    } else if code == 2 {
        let (first, first_bytes) = size_field(data, 1, data.len() as int).unwrap();
        let (second, second_bytes) = size_field(data, 1 + first_bytes, data.len() as int).unwrap();
        assert(layout.sizes =~= seq![first].push(second));
        total_push(seq![first], second);
        assert(seq![first].drop_last() =~= Seq::<int>::empty());
        assert(total(seq![first]) == first + total(Seq::<int>::empty()));
    } else {
        let ch = data[1];
        let count = (ch % 64) as int;
        let (pad, pad_bytes) = counted_padding(data, ch).unwrap();
        if (ch / 64) % 2 == 1 {
            pad_field_bounds(data, 2);
        }
        let start = 2 + pad_bytes;
        let end = data.len() - pad;
        if ch >= 128 {
            size_fields_bounds(data, start, end, count - 1);
            let (sizes, offset) = size_fields(data, start, end, count - 1).unwrap();
            let (last, bytes) = size_field(data, offset, end).unwrap();
            total_push(sizes, last);
        } else {
            let (size, bytes) = size_field(data, start, end).unwrap();
            equal_sizes_total(count, size);
            assert(size * count == count * size) by (nonlinear_arith);
        }
    }
}

/// A length field reads the same in data that agrees on its bytes and allows it as much
/// room.
pub proof fn size_field_extends(
    data: Seq<u8>,
    other: Seq<u8>,
    at: int,
    end: int,
    other_end: int,
)
    requires
        size_field(data, at, end) is Some,
        end <= other_end <= other.len(),
        forall|i: int| at <= i < at + size_field(data, at, end).unwrap().1 ==> data[i] == other[i],
    ensures
        size_field(other, at, other_end) == size_field(data, at, end),
{
    assert(data[at] == other[at]);
    if data[at] >= 252 {
        assert(data[at + 1] == other[at + 1]);
    }
}

/// A padding field reads the same in data that agrees on its bytes.
pub proof fn pad_field_extends(data: Seq<u8>, other: Seq<u8>, at: int)
    requires
        pad_field(data, at) is Some,
        at + pad_field(data, at).unwrap().1 <= other.len(),
        forall|i: int| at <= i < at + pad_field(data, at).unwrap().1 ==> data[i] == other[i],
    ensures
        pad_field(other, at) == pad_field(data, at),
    decreases data.len() - at,
{
    pad_field_bounds(data, at);
    assert(data[at] == other[at]);
    if data[at] == 255 {
        pad_field_bounds(data, at + 1);
        pad_field_extends(data, other, at + 1);
    }
}

/// A run of length fields reads the same in data that agrees on its bytes and allows it
/// as much room.
pub proof fn size_fields_extend(
    data: Seq<u8>,
    other: Seq<u8>,
    at: int,
    end: int,
    other_end: int,
    k: int,
)
    requires
        0 <= at <= end <= data.len(),
        0 <= k,
        size_fields(data, at, end, k) is Some,
        end <= other_end <= other.len(),
        forall|i: int| at <= i < size_fields(data, at, end, k).unwrap().1 ==> data[i] == other[i],
    ensures
        size_fields(other, at, other_end, k) == size_fields(data, at, end, k),
    decreases k,
{
    if k > 0 {
        size_fields_bounds(data, at, end, k - 1);
        let (front, next) = size_fields(data, at, end, k - 1).unwrap();
        let (size, bytes) = size_field(data, next, end).unwrap();
        size_fields_extend(data, other, at, end, other_end, k - 1);
        size_field_extends(data, other, next, end, other_end);
    }
}

/// A self-delimiting packet is the same packet in front of whatever follows it: data that
/// agrees with it up to the payload and is no shorter starts with a packet of the same
/// layout.
pub proof fn stream_layout_extends(data: Seq<u8>, other: Seq<u8>)
    requires
        stream_layout(data) is Some,
        data.len() <= other.len(),
        forall|i: int|
            0 <= i < stream_layout(data).unwrap().payload_offset ==> data[i] == other[i],
    ensures
        stream_layout(other) == stream_layout(data),
{
    reveal(stream_layout);
    stream_layout_facts(data);
    let layout = stream_layout(data).unwrap();
    let len = data.len() as int;
    let other_len = other.len() as int;
    assert(data[0] == other[0]);
    let code = data[0] % 4;
    if code == 0 || code == 1 {
        size_field_extends(data, other, 1, len, other_len);
    } else if code == 2 {
        let (first, first_bytes) = size_field(data, 1, len).unwrap();
        size_field_extends(data, other, 1, len, other_len);
        size_field_extends(data, other, 1 + first_bytes, len, other_len);
    } else {
        assert(data[1] == other[1]);
        let ch = data[1];
        let count = (ch % 64) as int;
        let (pad, pad_bytes) = counted_padding(data, ch).unwrap();
        let start = 2 + pad_bytes;
        let end = len - pad;
        let other_end = other_len - pad;
        if (ch / 64) % 2 == 1 {
            pad_field_bounds(data, 2);
        }
        if ch >= 128 {
            size_fields_bounds(data, start, end, count - 1);
            let (sizes, offset) = size_fields(data, start, end, count - 1).unwrap();
            assert(start <= offset <= layout.payload_offset);
            if (ch / 64) % 2 == 1 {
                pad_field_extends(data, other, 2);
            }
            size_fields_extend(data, other, start, end, other_end, count - 1);
            size_field_extends(data, other, offset, end, other_end);
        } else {
            assert(start <= layout.payload_offset);
            if (ch / 64) % 2 == 1 {
                pad_field_extends(data, other, 2);
            }
            size_field_extends(data, other, start, end, other_end);
        }
    }
}

/// The number of frames that the head of a packet announces: one, two, or the count that
/// the byte behind the table of contents holds.
pub open spec fn announced_frames(data: Seq<u8>) -> int {
    if data[0] % 4 == 0 {
        1
    } else if data[0] % 4 == 3 {
        (data[1] % 64) as int
    } else {
        2
    }
}

/// The index at which frame `i` of a run of frames starts, the run starting at `offset`.
pub open spec fn frame_start(sizes: Seq<int>, offset: int, i: int) -> int {
    offset + total(sizes.take(i))
}

/// The bytes of frame `i` of a packet with the given frame sizes and payload offset.
pub open spec fn frame_bytes(data: Seq<u8>, sizes: Seq<int>, offset: int, i: int) -> Seq<u8> {
    data.subrange(frame_start(sizes, offset, i), frame_start(sizes, offset, i) + sizes[i])
}

/// Every frame of a packet, in order, empty frames included.
pub open spec fn frames_of(data: Seq<u8>, layout: Layout) -> Seq<Seq<u8>> {
    Seq::new(layout.sizes.len(), |i: int| frame_bytes(data, layout.sizes, layout.payload_offset, i))
}

/// The frames of a run that hold at least one byte, in order.
pub open spec fn non_empty(frames: Seq<Seq<u8>>) -> Seq<Seq<u8>>
    decreases frames.len(),
{
    if frames.len() == 0 {
        Seq::empty()
    } else if frames.last().len() == 0 {
        non_empty(frames.drop_last())
    } else {
        non_empty(frames.drop_last()).push(frames.last())
    }
}

/// The number of bytes that a run of frames holds in all.
pub open spec fn total_len(frames: Seq<Seq<u8>>) -> int
    decreases frames.len(),
{
    if frames.len() == 0 {
        0
    } else {
        total_len(frames.drop_last()) + frames.last().len()
    }
}

/// The sizes of a run of frames.
pub open spec fn lengths(frames: Seq<Seq<u8>>) -> Seq<int> {
    Seq::new(frames.len(), |i: int| frames[i].len() as int)
}

/// Whether the sizes can be those of the frames of one packet: between one and 48 frames,
/// none larger than a length field can state.
pub open spec fn valid_sizes(sizes: Seq<int>) -> bool {
    &&& 1 <= sizes.len() <= MAX_FRAMES
    &&& forall|i: int| 0 <= i < sizes.len() ==> 0 <= #[trigger] sizes[i] <= MAX_FRAME_BYTES
}

/// `total` of a sequence with one more size at its end.
pub proof fn total_push(sizes: Seq<int>, size: int)
    ensures
        total(sizes.push(size)) == total(sizes) + size,
{
    assert(sizes.push(size).drop_last() =~= sizes);
}

/// The first `i + 1` sizes hold what the first `i` hold and size `i`.
pub proof fn total_take_step(sizes: Seq<int>, i: int)
    requires
        0 <= i < sizes.len(),
    ensures
        total(sizes.take(i + 1)) == total(sizes.take(i)) + sizes[i],
        total(sizes.take(0)) == 0,
{
    assert(sizes.take(i + 1).drop_last() =~= sizes.take(i));
}

/// `total` of sizes that are not negative is not negative, and grows with the prefix.
pub proof fn total_take_bounds(sizes: Seq<int>, i: int)
    requires
        forall|j: int| 0 <= j < sizes.len() ==> 0 <= #[trigger] sizes[j],
        0 <= i <= sizes.len(),
    ensures
        0 <= total(sizes.take(i)) <= total(sizes),
    decreases sizes.len() - i,
{
    if i == sizes.len() {
        assert(sizes.take(i) =~= sizes);
        total_nonnegative(sizes);
    } else {
        total_take_bounds(sizes, i + 1);
        assert(sizes.take(i + 1).drop_last() =~= sizes.take(i));
        total_nonnegative(sizes.take(i));
    }
}

/// `total` of sizes that are not negative is not negative.
pub proof fn total_nonnegative(sizes: Seq<int>)
    requires
        forall|j: int| 0 <= j < sizes.len() ==> 0 <= #[trigger] sizes[j],
    ensures
        0 <= total(sizes),
    decreases sizes.len(),
{
    if sizes.len() > 0 {
        total_nonnegative(sizes.drop_last());
    }
}

/// A padding field states a count that is not negative and takes at least one byte, all of
/// them inside the data.
pub proof fn pad_field_bounds(data: Seq<u8>, at: int)
    ensures
        match pad_field(data, at) {
            Some((pad, bytes)) => 0 <= pad && 1 <= bytes && at + bytes <= data.len() && pad
                >= 254 * (bytes - 1),
            None => true,
        },
    decreases data.len() - at,
{
    if at < 0 || at >= data.len() {
    } else if data[at] == 255 {
        pad_field_bounds(data, at + 1);
    }
}

/// A run of length fields states sizes within what a length field can state, and ends
/// inside the bounds it was read in.
pub proof fn size_fields_bounds(data: Seq<u8>, at: int, end: int, k: int)
    requires
        0 <= at <= end <= data.len(),
        0 <= k,
    ensures
        match size_fields(data, at, end, k) {
            Some((sizes, next)) => {
                &&& sizes.len() == k
                &&& at <= next <= end
                &&& forall|i: int| 0 <= i < k ==> 0 <= #[trigger] sizes[i] <= MAX_FRAME_BYTES
            },
            None => true,
        },
    decreases k,
{
    if k > 0 {
        size_fields_bounds(data, at, end, k - 1);
    }
}

/// Once a run of length fields cannot be read, no longer run from the same start can.
pub proof fn size_fields_stay_unreadable(data: Seq<u8>, at: int, end: int, k: int, n: int)
    requires
        0 <= k <= n,
        size_fields(data, at, end, k) is None,
    ensures
        size_fields(data, at, end, n) is None,
    decreases n - k,
{
    if k < n {
        size_fields_stay_unreadable(data, at, end, k, n - 1);
    }
}

/// The sizes that a well-formed packet states are sizes of the frames of one packet.
pub proof fn sizes_valid(data: Seq<u8>)
    requires
        parse_layout(data) is Some,
    ensures
        valid_sizes(parse_layout(data).unwrap().sizes),
{
    reveal(parse_layout);
    let code = data[0] % 4;
    if code == 3 {
        let ch = data[1];
        let count = (ch % 64) as int;
        let (pad, pad_bytes) = counted_padding(data, ch).unwrap();
        if (ch / 64) % 2 == 1 {
            pad_field_bounds(data, 2);
        }
        if ch >= 128 {
            size_fields_bounds(data, 2 + pad_bytes, data.len() - pad, count - 1);
        }
    }
}

/// What holds of the layout of every well-formed packet: it carries between one and 48
/// frames, as many as its head announces, none larger than 1275 bytes; the payload starts
/// behind the head; and head, frames and padding fill the packet exactly.
pub proof fn layout_facts(data: Seq<u8>)
    requires
        parse_layout(data) is Some,
    ensures
        ({
            let layout = parse_layout(data).unwrap();
            &&& layout.toc == data[0]
            &&& valid_sizes(layout.sizes)
            &&& layout.sizes.len() == announced_frames(data)
            &&& 1 <= layout.payload_offset
            &&& 0 <= layout.padding
            &&& 0 <= total(layout.sizes)
            &&& layout.payload_offset + total(layout.sizes) + layout.padding == data.len()
            &&& 1 <= data.len()
        }),
{
    reveal(parse_layout);
    let layout = parse_layout(data).unwrap();
    sizes_valid(data);
    total_nonnegative(layout.sizes);
    let code = data[0] % 4;
    if code == 0 {
        assert(layout.sizes.drop_last() =~= Seq::<int>::empty());
        assert(total(layout.sizes) == layout.sizes.last() + total(Seq::<int>::empty()));
    } else if code == 1 {
        let half = (data.len() - 1) / 2;
        assert(layout.sizes =~= seq![half].push(half));
        total_push(seq![half], half);
        assert(seq![half].drop_last() =~= Seq::<int>::empty());
        assert(total(seq![half]) == half + total(Seq::<int>::empty()));
    } else if code == 2 {
        let (first, bytes) = size_field(data, 1, data.len() as int).unwrap();
        let second = data.len() - 1 - bytes - first;
        assert(layout.sizes =~= seq![first].push(second));
        total_push(seq![first], second);
        assert(seq![first].drop_last() =~= Seq::<int>::empty());
        assert(total(seq![first]) == first + total(Seq::<int>::empty()));
    } else {
        let ch = data[1];
        let count = (ch % 64) as int;
        let (pad, pad_bytes) = counted_padding(data, ch).unwrap();
        if (ch / 64) % 2 == 1 {
            pad_field_bounds(data, 2);
        }
        let start = 2 + pad_bytes;
        let end = data.len() - pad;
        if ch >= 128 {
            size_fields_bounds(data, start, end, count - 1);
            let (sizes, offset) = size_fields(data, start, end, count - 1).unwrap();
            let last = end - offset - total(sizes);
            total_push(sizes, last);
        } else {
            let each = (end - start) / count;
            equal_sizes_total(count, each);
            assert((end - start) == each * count) by (nonlinear_arith)
                requires
                    (end - start) % count == 0,
                    each == (end - start) / count,
                    count > 0,
            ;
        }
    }
}

/// A run of frames holds as many bytes as its sizes add up to.
pub proof fn total_len_is_total(frames: Seq<Seq<u8>>)
    ensures
        total_len(frames) == total(lengths(frames)),
    decreases frames.len(),
{
    if frames.len() > 0 {
        total_len_is_total(frames.drop_last());
        assert(lengths(frames).drop_last() =~= lengths(frames.drop_last()));
    }
}

/// Frames that lie within the data have the sizes that their layout states.
pub proof fn frames_lengths(data: Seq<u8>, layout: Layout)
    requires
        valid_sizes(layout.sizes),
        0 <= layout.payload_offset,
        layout.payload_offset + total(layout.sizes) <= data.len(),
    ensures
        lengths(frames_of(data, layout)) == layout.sizes,
        total_len(frames_of(data, layout)) == total(layout.sizes),
{
    let frames = frames_of(data, layout);
    assert forall|i: int| 0 <= i < layout.sizes.len() implies (#[trigger] frames[i]).len()
        == layout.sizes[i] by {
        total_take_step(layout.sizes, i);
        total_take_bounds(layout.sizes, i);
        total_take_bounds(layout.sizes, i + 1);
    }
    assert(lengths(frames) =~= layout.sizes);
    total_len_is_total(frames);
}

/// Frames that lie within the part on which two runs of data agree are the same frames.
pub proof fn frames_agree(data: Seq<u8>, other: Seq<u8>, layout: Layout)
    requires
        valid_sizes(layout.sizes),
        0 <= layout.payload_offset,
        layout.payload_offset + total(layout.sizes) <= data.len(),
        layout.payload_offset + total(layout.sizes) <= other.len(),
        forall|i: int|
            0 <= i < layout.payload_offset + total(layout.sizes) ==> data[i] == other[i],
    ensures
        frames_of(other, layout) == frames_of(data, layout),
{
    assert forall|k: int| 0 <= k < layout.sizes.len() implies frame_bytes(
        other,
        layout.sizes,
        layout.payload_offset,
        k,
    ) == frame_bytes(data, layout.sizes, layout.payload_offset, k) by {
        total_take_step(layout.sizes, k);
        total_take_bounds(layout.sizes, k);
        total_take_bounds(layout.sizes, k + 1);
        assert(frame_bytes(other, layout.sizes, layout.payload_offset, k) =~= frame_bytes(
            data,
            layout.sizes,
            layout.payload_offset,
            k,
        ));
    }
    assert(frames_of(other, layout) =~= frames_of(data, layout));
}

/// The frames of a well-formed packet have the sizes of its layout.
pub proof fn frames_total(data: Seq<u8>, layout: Layout)
    requires
        parse_layout(data) == Some(layout),
    ensures
        lengths(frames_of(data, layout)) == layout.sizes,
        total_len(frames_of(data, layout)) == total(layout.sizes),
{
    layout_facts(data);
    frames_lengths(data, layout);
}

/// Leaving out the empty frames of a run does not change the number of bytes it holds.
pub proof fn non_empty_total(frames: Seq<Seq<u8>>)
    ensures
        total_len(non_empty(frames)) == total_len(frames),
        non_empty(frames).len() <= frames.len(),
    decreases frames.len(),
{
    if frames.len() > 0 {
        non_empty_total(frames.drop_last());
        if frames.last().len() > 0 {
            assert(non_empty(frames.drop_last()).push(frames.last()).drop_last() =~= non_empty(
                frames.drop_last(),
            ));
        }
    }
}

/// `count` frames of `each` bytes hold `count * each` bytes in all.
pub proof fn equal_sizes_total(count: int, each: int)
    requires
        0 <= count,
    ensures
        total(equal_sizes(count, each)) == each * count,
    decreases count,
{
    let s = equal_sizes(count, each);
    if count > 0 {
        equal_sizes_total(count - 1, each);
        assert(s.drop_last() =~= equal_sizes(count - 1, each));
        assert(each * count == each * (count - 1) + each) by (nonlinear_arith);
    } else {
        assert(each * count == 0) by (nonlinear_arith)
            requires
                count == 0,
        ;
    }
}

} // verus!
