//! The bytes that a run of frames is written as, and the proof that reading them gives the
//! frames back.

use vstd::prelude::*;
use crate::framing::{
    counted_padding, equal_sizes, equal_sizes_total, extent, frame_bytes, frames_lengths,
    frames_of, layout_counted, layout_facts, lengths, pad_field, pad_field_bounds,
    parse_layout, size_field, size_fields, size_fields_bounds, stream_layout,
    stream_layout_counted, stream_layout_facts, total, total_len, total_len_is_total,
    total_take_bounds, total_take_step, valid_sizes, Layout, MAX_FRAME_BYTES,
};

verus! {

/// The length field that states `size`: one byte below 252, or a byte from 252 to 255 and a
/// byte that counts fours.
pub open spec fn size_bytes(size: int) -> Seq<u8> {
    if size < 252 {
        seq![size as u8]
    } else {
        seq![(252 + size % 4) as u8, ((size - 252 - size % 4) / 4) as u8]
    }
}

/// The length fields of a run of sizes, one behind the other.
pub open spec fn sizes_bytes(sizes: Seq<int>) -> Seq<u8>
    decreases sizes.len(),
{
    if sizes.len() == 0 {
        Seq::empty()
    } else {
        sizes_bytes(sizes.drop_last()) + size_bytes(sizes.last())
    }
}

/// The padding field that, together with the padding it states, takes `extra` bytes.
pub open spec fn pad_bytes(extra: int) -> Seq<u8>
    decreases extra,
{
    if extra <= 0 {
        Seq::empty()
    } else if extra <= 255 {
        seq![(extra - 1) as u8]
    } else {
        seq![255u8] + pad_bytes(extra - 255)
    }
}

/// `n` bytes of value zero.
pub open spec fn zeros(n: int) -> Seq<u8> {
    Seq::new(n as nat, |i: int| 0u8)
}

/// The bytes of a run of frames, one frame behind the other.
pub open spec fn concat(frames: Seq<Seq<u8>>) -> Seq<u8>
    decreases frames.len(),
{
    if frames.len() == 0 {
        Seq::empty()
    } else {
        concat(frames.drop_last()) + frames.last()
    }
}

/// Whether every size of a run equals the first.
pub open spec fn all_equal(sizes: Seq<int>) -> bool {
    forall|i: int| 0 <= i < sizes.len() ==> #[trigger] sizes[i] == sizes[0]
}

/// The table-of-contents byte `toc` with its two layout bits cleared.
pub open spec fn toc_base(toc: u8) -> int {
    (toc / 4) * 4
}

/// The frame-count byte of a counted run: the count, the flag for padding and the flag for
/// frames of varying size.
pub open spec fn count_byte(sizes: Seq<int>, extra: int) -> int {
    sizes.len() + (if extra > 0 {
        64int
    } else {
        0
    }) + (if all_equal(sizes) {
        0int
    } else {
        128
    })
}

/// The head of a packet written as a counted run: table of contents, count byte, padding
/// field where `extra` bytes are to be added, and the length fields of all frames but the
/// last where their sizes vary.
pub open spec fn counted_head(toc: u8, sizes: Seq<int>, extra: int) -> Seq<u8> {
    seq![(toc_base(toc) + 3) as u8, count_byte(sizes, extra) as u8] + pad_bytes(extra) + (
    if all_equal(sizes) {
        Seq::empty()
    } else {
        sizes_bytes(sizes.drop_last())
    })
}

/// Whether a packet of these frames is written as a counted run: when asked for, and
/// always for more than two frames.
pub open spec fn is_counted(sizes: Seq<int>, counted: bool) -> bool {
    counted || sizes.len() > 2
}

/// The head of a packet: everything before the first frame. Where `counted` is false the
/// shortest head is chosen: a lone table-of-contents byte for one frame or two equal ones,
/// with one length field behind it for two frames that differ.
pub open spec fn head_bytes(toc: u8, sizes: Seq<int>, counted: bool, extra: int) -> Seq<u8> {
    if is_counted(sizes, counted) {
        counted_head(toc, sizes, extra)
    } else if sizes.len() == 1 {
        seq![toc_base(toc) as u8]
    } else if sizes[0] == sizes[1] {
        seq![(toc_base(toc) + 1) as u8]
    } else {
        seq![(toc_base(toc) + 2) as u8] + size_bytes(sizes[0])
    }
}

/// The number of padding bytes that stand behind the frames where `extra` bytes are added:
/// what the padding field leaves of them.
pub open spec fn padding_of(extra: int) -> int {
    extra - pad_bytes(extra).len()
}

/// The packet that holds `frames` under the coding configuration of `toc`: head, frames,
/// and zero bytes of padding. `extra` is the number of bytes by which padding lengthens the
/// packet, padding field included.
pub open spec fn packet_bytes(toc: u8, frames: Seq<Seq<u8>>, counted: bool, extra: int) -> Seq<
    u8,
> {
    head_bytes(toc, lengths(frames), counted, extra) + concat(frames) + zeros(padding_of(extra))
}

/// The self-delimiting packet that holds `frames` under the coding configuration of `toc`:
/// the shortest head, a length field for the last frame, and the frames. Where the frames
/// share one size that field states it.
pub open spec fn stream_bytes(toc: u8, frames: Seq<Seq<u8>>) -> Seq<u8> {
    head_bytes(toc, lengths(frames), false, 0) + size_bytes(lengths(frames).last()) + concat(
        frames,
    )
}

/// Whether a packet can be written for these arguments: the frames are valid for one
/// packet, and padding is asked for only in a counted run.
pub open spec fn writable(frames: Seq<Seq<u8>>, counted: bool, extra: int) -> bool {
    &&& valid_sizes(lengths(frames))
    &&& 0 <= extra
    &&& extra > 0 ==> is_counted(lengths(frames), counted)
}

/// The layout that the written packet has.
pub open spec fn written_layout(
    toc: u8,
    frames: Seq<Seq<u8>>,
    counted: bool,
    extra: int,
) -> Layout {
    let head = head_bytes(toc, lengths(frames), counted, extra);
    Layout {
        toc: head[0],
        sizes: lengths(frames),
        payload_offset: head.len() as int,
        padding: padding_of(extra),
    }
}

/// A length field takes one byte for a size below 252 and two bytes above.
pub proof fn size_bytes_len(size: int)
    requires
        0 <= size <= MAX_FRAME_BYTES,
    ensures
        size_bytes(size).len() == (if size < 252 {
            1int
        } else {
            2
        }),
{
}

/// Reading a length field where `size_bytes(size)` stands gives `size` back.
pub proof fn size_field_reads_back(data: Seq<u8>, at: int, end: int, size: int)
    requires
        0 <= size <= MAX_FRAME_BYTES,
        0 <= at,
        at + size_bytes(size).len() <= end <= data.len(),
        data.subrange(at, at + size_bytes(size).len()) == size_bytes(size),
    ensures
        size_field(data, at, end) == Some((size, size_bytes(size).len() as int)),
{
    let field = size_bytes(size);
    let part = data.subrange(at, at + field.len());
    assert(part[0] == data[at]);
    if size >= 252 {
        assert(part[1] == data[at + 1]);
        let low = 252 + size % 4;
        let high = (size - 252 - size % 4) / 4;
        assert(0 <= high <= 255);
        assert(low + 4 * high == size);
    }
}

/// The padding field for `extra` bytes takes at least one byte and at most `extra`.
pub proof fn pad_bytes_len(extra: int)
    requires
        extra > 0,
    ensures
        1 <= pad_bytes(extra).len() <= extra,
        0 <= padding_of(extra),
    decreases extra,
{
    if extra > 255 {
        pad_bytes_len(extra - 255);
    }
}

/// Reading a padding field where `pad_bytes(extra)` stands gives the padding that it was
/// written for.
pub proof fn pad_field_reads_back(data: Seq<u8>, at: int, extra: int)
    requires
        extra > 0,
        0 <= at,
        at + pad_bytes(extra).len() <= data.len(),
        data.subrange(at, at + pad_bytes(extra).len()) == pad_bytes(extra),
    ensures
        pad_field(data, at) == Some((padding_of(extra), pad_bytes(extra).len() as int)),
    decreases extra,
{
    let field = pad_bytes(extra);
    let part = data.subrange(at, at + field.len());
    pad_bytes_len(extra);
    assert(part[0] == data[at]);
    if extra > 255 {
        let rest = pad_bytes(extra - 255);
        pad_bytes_len(extra - 255);
        assert(field.len() == 1 + rest.len());
        assert(data.subrange(at + 1, at + 1 + rest.len()) =~= rest) by {
            assert forall|i: int| 0 <= i < rest.len() implies data[at + 1 + i] == rest[i] by {
                assert(part[1 + i] == data[at + 1 + i]);
            }
        }
        pad_field_reads_back(data, at + 1, extra - 255);
    }
}

/// The length fields of a run of valid sizes take between one and two bytes each.
pub proof fn sizes_bytes_len(sizes: Seq<int>)
    requires
        forall|i: int| 0 <= i < sizes.len() ==> 0 <= #[trigger] sizes[i] <= MAX_FRAME_BYTES,
    ensures
        sizes.len() <= sizes_bytes(sizes).len() <= 2 * sizes.len(),
    decreases sizes.len(),
{
    if sizes.len() > 0 {
        sizes_bytes_len(sizes.drop_last());
        size_bytes_len(sizes.last());
    }
}

/// Reading a run of length fields where `sizes_bytes(sizes)` stands gives `sizes` back.
pub proof fn size_fields_read_back(data: Seq<u8>, at: int, end: int, sizes: Seq<int>)
    requires
        forall|i: int| 0 <= i < sizes.len() ==> 0 <= #[trigger] sizes[i] <= MAX_FRAME_BYTES,
        0 <= at,
        at + sizes_bytes(sizes).len() <= end <= data.len(),
        data.subrange(at, at + sizes_bytes(sizes).len()) == sizes_bytes(sizes),
    ensures
        size_fields(data, at, end, sizes.len() as int) == Some(
            (sizes, at + sizes_bytes(sizes).len()),
        ),
    decreases sizes.len(),
{
    if sizes.len() == 0 {
        assert(sizes =~= Seq::<int>::empty());
    } else {
        let front = sizes.drop_last();
        let last = sizes.last();
        let all = sizes_bytes(sizes);
        let part = data.subrange(at, at + all.len());
        let front_bytes = sizes_bytes(front);
        let last_bytes = size_bytes(last);
        sizes_bytes_len(front);
        size_bytes_len(last);
        assert(data.subrange(at, at + front_bytes.len()) =~= front_bytes) by {
            assert forall|i: int| 0 <= i < front_bytes.len() implies data[at + i]
                == front_bytes[i] by {
                assert(part[i] == data[at + i]);
            }
        }
        size_fields_read_back(data, at, end, front);
        let next = at + front_bytes.len();
        assert(data.subrange(next, next + last_bytes.len()) =~= last_bytes) by {
            assert forall|i: int| 0 <= i < last_bytes.len() implies data[next + i]
                == last_bytes[i] by {
                assert(part[front_bytes.len() + i] == data[next + i]);
            }
        }
        size_field_reads_back(data, next, end, last);
        assert(front.push(last) =~= sizes);
    }
}

/// The length fields of a run of one size are the length field of that size.
pub proof fn sizes_bytes_one(size: int)
    ensures
        sizes_bytes(seq![size]) == size_bytes(size),
{
    let one = seq![size];
    assert(one.drop_last() =~= Seq::<int>::empty());
    assert(sizes_bytes(one.drop_last()) =~= Seq::<u8>::empty());
    assert(sizes_bytes(one) =~= sizes_bytes(one.drop_last()) + size_bytes(one.last()));
    assert(sizes_bytes(one) =~= size_bytes(size));
}

/// A run of length fields that was read takes as many bytes as writing its sizes takes.
pub proof fn size_fields_len(data: Seq<u8>, at: int, end: int, k: int)
    requires
        0 <= at <= end <= data.len(),
        0 <= k,
        size_fields(data, at, end, k) is Some,
    ensures
        size_fields(data, at, end, k).unwrap().1 - at == sizes_bytes(
            size_fields(data, at, end, k).unwrap().0,
        ).len(),
    decreases k,
{
    if k > 0 {
        size_fields_len(data, at, end, k - 1);
        let (front, next) = size_fields(data, at, end, k - 1).unwrap();
        let (size, bytes) = size_field(data, next, end).unwrap();
        assert(front.push(size).drop_last() =~= front);
    } else {
        assert(sizes_bytes(Seq::<int>::empty()) =~= Seq::<u8>::empty());
    }
}

/// A run of frames, written one behind the other, takes as many bytes as the frames hold.
pub proof fn concat_len(frames: Seq<Seq<u8>>)
    ensures
        concat(frames).len() == total_len(frames),
    decreases frames.len(),
{
    if frames.len() > 0 {
        concat_len(frames.drop_last());
    }
}

/// Frame `i` of a run written one behind the other stands where the sizes before it end.
pub proof fn concat_holds_frame(frames: Seq<Seq<u8>>, i: int)
    requires
        0 <= i < frames.len(),
    ensures
        0 <= total(lengths(frames).take(i)),
        total(lengths(frames).take(i)) + frames[i].len() <= concat(frames).len(),
        concat(frames).subrange(
            total(lengths(frames).take(i)),
            total(lengths(frames).take(i)) + frames[i].len(),
        ) == frames[i],
    decreases frames.len(),
{
    let sizes = lengths(frames);
    let front = frames.drop_last();
    concat_len(frames);
    concat_len(front);
    total_len_is_total(frames);
    total_len_is_total(front);
    assert(lengths(front) =~= sizes.drop_last());
    total_take_bounds(sizes, i);
    total_take_step(sizes, i);
    total_take_bounds(sizes, i + 1);
    if i == frames.len() - 1 {
        assert(sizes.take(i) =~= sizes.drop_last());
        assert(concat(frames).subrange(
            total(sizes.take(i)),
            total(sizes.take(i)) + frames[i].len(),
        ) =~= frames[i]);
    } else {
        concat_holds_frame(front, i);
        assert(lengths(front).take(i) =~= sizes.take(i));
        assert(concat(frames).subrange(
            total(sizes.take(i)),
            total(sizes.take(i)) + frames[i].len(),
        ) =~= concat(front).subrange(
            total(sizes.take(i)),
            total(sizes.take(i)) + frames[i].len(),
        ));
    }
}

/// Frames that stand one behind the other from `offset` on are the frames of the layout
/// that gives their sizes and that offset.
pub proof fn frames_stand_in_packet(
    data: Seq<u8>,
    head: Seq<u8>,
    frames: Seq<Seq<u8>>,
    tail: Seq<u8>,
    layout: Layout,
)
    requires
        data == head + concat(frames) + tail,
        layout.sizes == lengths(frames),
        layout.payload_offset == head.len(),
    ensures
        frames_of(data, layout) == frames,
{
    let body = concat(frames);
    assert forall|i: int| 0 <= i < frames.len() implies frame_bytes(
        data,
        layout.sizes,
        layout.payload_offset,
        i,
    ) == frames[i] by {
        concat_holds_frame(frames, i);
        let from = total(lengths(frames).take(i));
        assert(data.subrange(head.len() + from, head.len() + from + frames[i].len())
            =~= body.subrange(from, from + frames[i].len()));
    }
    assert(frames_of(data, layout) =~= frames);
}

/// The sizes of a run of frames whose sizes are all equal are so many copies of the first.
pub proof fn equal_lengths(frames: Seq<Seq<u8>>)
    requires
        frames.len() > 0,
        all_equal(lengths(frames)),
    ensures
        lengths(frames) == equal_sizes(frames.len() as int, frames[0].len() as int),
        total_len(frames) == frames[0].len() * frames.len(),
{
    let sizes = lengths(frames);
    assert forall|i: int| 0 <= i < sizes.len() implies sizes[i] == frames[0].len() by {
        assert(sizes[i] == sizes[0]);
    }
    assert(sizes =~= equal_sizes(frames.len() as int, frames[0].len() as int));
    equal_sizes_total(frames.len() as int, frames[0].len() as int);
    total_len_is_total(frames);
}

/// A packet written without a count byte reads back as the layout it was written for.
pub proof fn short_packet_reads_back(toc: u8, frames: Seq<Seq<u8>>)
    requires
        valid_sizes(lengths(frames)),
        frames.len() <= 2,
    ensures
        parse_layout(packet_bytes(toc, frames, false, 0)) == Some(
            written_layout(toc, frames, false, 0),
        ),
{
    reveal(parse_layout);
    let sizes = lengths(frames);
    let head = head_bytes(toc, sizes, false, 0);
    let body = concat(frames);
    let data = packet_bytes(toc, frames, false, 0);
    let layout = written_layout(toc, frames, false, 0);
    concat_len(frames);
    total_len_is_total(frames);
    assert(zeros(padding_of(0)) =~= Seq::<u8>::empty());
    assert(data =~= head + body);
    assert(data[0] == head[0]);
    assert(sizes[0] == frames[0].len());
    assert(sizes.take(0) =~= Seq::<int>::empty());
    total_take_step(sizes, 0);
    if frames.len() == 1 {
        assert(sizes.take(1) =~= sizes);
        assert(sizes =~= seq![sizes[0]]);
    } else {
        assert(sizes[1] == frames[1].len());
        total_take_step(sizes, 1);
        assert(sizes.take(2) =~= sizes);
        assert(sizes =~= seq![sizes[0], sizes[1]]);
        if sizes[0] != sizes[1] {
            let field = size_bytes(sizes[0]);
            size_bytes_len(sizes[0]);
            assert(data.subrange(1, 1 + field.len() as int) =~= field);
            size_field_reads_back(data, 1, data.len() as int, sizes[0]);
        }
    }
}

/// What the head of a counted run says when it is read: the count, the two flags, and the
/// padding where there is one.
pub proof fn counted_head_reads_back(
    data: Seq<u8>,
    toc: u8,
    sizes: Seq<int>,
    extra: int,
    rest: Seq<u8>,
)
    requires
        valid_sizes(sizes),
        0 <= extra,
        data == counted_head(toc, sizes, extra) + rest,
    ensures
        data.len() >= 2,
        data[0] == (toc_base(toc) + 3) as u8,
        data[0] % 4 == 3,
        data[1] % 64 == sizes.len(),
        data[1] >= 128 <==> !all_equal(sizes),
        counted_padding(data, data[1]) == Some((padding_of(extra), pad_bytes(extra).len() as int)),
{
    let pad = pad_bytes(extra);
    let ch = count_byte(sizes, extra);
    let head = counted_head(toc, sizes, extra);
    assert(head[0] == (toc_base(toc) + 3) as u8);
    assert(head[1] == ch as u8);
    assert(data[0] == head[0]);
    assert(data[1] == head[1]);
    assert((ch as u8) % 64 == sizes.len());
    assert(((ch as u8) / 64) % 2 == 1 <==> extra > 0);
    assert((ch as u8) >= 128 <==> !all_equal(sizes));
    if extra > 0 {
        pad_bytes_len(extra);
        assert(data.subrange(2, 2 + pad.len() as int) =~= pad);
        pad_field_reads_back(data, 2, extra);
    } else {
        assert(pad =~= Seq::<u8>::empty());
    }
}

/// A packet written as a counted run reads back as the layout it was written for.
pub proof fn counted_packet_reads_back(toc: u8, frames: Seq<Seq<u8>>, counted: bool, extra: int)
    requires
        writable(frames, counted, extra),
        is_counted(lengths(frames), counted),
    ensures
        parse_layout(packet_bytes(toc, frames, counted, extra)) == Some(
            written_layout(toc, frames, counted, extra),
        ),
{
    reveal(parse_layout);
    let sizes = lengths(frames);
    let count = sizes.len() as int;
    let head = counted_head(toc, sizes, extra);
    let body = concat(frames);
    let padding = padding_of(extra);
    let data = packet_bytes(toc, frames, counted, extra);
    let pad = pad_bytes(extra);
    concat_len(frames);
    total_len_is_total(frames);
    if extra > 0 {
        pad_bytes_len(extra);
    } else {
        assert(pad =~= Seq::<u8>::empty());
    }
    assert(data =~= head + (body + zeros(padding)));
    counted_head_reads_back(data, toc, sizes, extra, body + zeros(padding));
    let start: int = 2 + pad.len() as int;
    let end: int = data.len() - padding;
    if all_equal(sizes) {
        equal_lengths(frames);
        let each = frames[0].len() as int;
        assert(head.len() == start);
        assert(end - start == each * count);
        assert((each * count) % count == 0 && (each * count) / count == each)
            by (nonlinear_arith)
            requires
                count > 0,
        ;
        assert(layout_counted(data) == Some(written_layout(toc, frames, counted, extra)));
    } else {
        let front = sizes.drop_last();
        let fields = sizes_bytes(front);
        sizes_bytes_len(front);
        assert(head.len() == start + fields.len());
        assert(data.subrange(start, start + fields.len() as int) =~= fields);
        size_fields_read_back(data, start, end, front);
        assert(front.push(sizes.last()) =~= sizes);
        assert(layout_counted(data) == Some(written_layout(toc, frames, counted, extra)));
    }
}

/// The head of a written packet keeps the coding configuration of `toc`, and the packet
/// takes as many bytes as head, frames and padding take.
pub proof fn written_packet_shape(toc: u8, frames: Seq<Seq<u8>>, counted: bool, extra: int)
    requires
        writable(frames, counted, extra),
    ensures
        head_bytes(toc, lengths(frames), counted, extra).len() >= 1,
        head_bytes(toc, lengths(frames), counted, extra)[0] / 4 == toc / 4,
        0 <= padding_of(extra),
        packet_bytes(toc, frames, counted, extra).len() == head_bytes(
            toc,
            lengths(frames),
            counted,
            extra,
        ).len() + total_len(frames) + padding_of(extra),
{
    concat_len(frames);
    if extra > 0 {
        pad_bytes_len(extra);
    }
}

/// The frames of a written packet are the frames it was written from.
pub proof fn written_packet_frames(toc: u8, frames: Seq<Seq<u8>>, counted: bool, extra: int)
    ensures
        frames_of(
            packet_bytes(toc, frames, counted, extra),
            written_layout(toc, frames, counted, extra),
        ) == frames,
{
    frames_stand_in_packet(
        packet_bytes(toc, frames, counted, extra),
        head_bytes(toc, lengths(frames), counted, extra),
        frames,
        zeros(padding_of(extra)),
        written_layout(toc, frames, counted, extra),
    );
}

/// No well-formed packet has a shorter head than the one its frames are written with: the
/// shortest head fits before the payload, and the head of a counted run takes at most one
/// byte more.
pub proof fn head_fits(data: Seq<u8>)
    requires
        parse_layout(data) is Some,
    ensures
        head_bytes(0u8, parse_layout(data).unwrap().sizes, false, 0).len() <= parse_layout(
            data,
        ).unwrap().payload_offset,
        head_bytes(0u8, parse_layout(data).unwrap().sizes, true, 0).len() <= parse_layout(
            data,
        ).unwrap().payload_offset + 1,
{
    reveal(parse_layout);
    let layout = parse_layout(data).unwrap();
    let sizes = layout.sizes;
    layout_facts(data);
    assert(pad_bytes(0) =~= Seq::<u8>::empty());
    let code = data[0] % 4;
    if code == 0 {
        assert(all_equal(sizes));
    } else if code == 1 {
        assert(all_equal(sizes));
    } else if code == 2 {
        let (first, bytes) = size_field(data, 1, data.len() as int).unwrap();
        size_bytes_len(first);
        assert(sizes.drop_last() =~= seq![first]);
        sizes_bytes_one(first);
    } else {
        let ch = data[1];
        let count = (ch % 64) as int;
        let (pad, pad_len) = counted_padding(data, ch).unwrap();
        if (ch / 64) % 2 == 1 {
            pad_field_bounds(data, 2);
        }
        let start = 2 + pad_len;
        let end = data.len() - pad;
        if ch >= 128 {
            size_fields_bounds(data, start, end, count - 1);
            size_fields_len(data, start, end, count - 1);
            let (front, offset) = size_fields(data, start, end, count - 1).unwrap();
            assert(sizes.drop_last() =~= front);
            if count == 2 {
                assert(front =~= seq![sizes[0]]);
                sizes_bytes_one(sizes[0]);
            }
        } else {
            assert(all_equal(sizes));
        }
    }
}

/// No self-delimiting packet has a shorter head than the one its frames are written with:
/// the shortest head and the length field of the last frame fit before the payload.
pub proof fn stream_head_fits(data: Seq<u8>)
    requires
        stream_layout(data) is Some,
    ensures
        head_bytes(0u8, stream_layout(data).unwrap().sizes, false, 0).len() + size_bytes(
            stream_layout(data).unwrap().sizes.last(),
        ).len() <= stream_layout(data).unwrap().payload_offset,
{
    reveal(stream_layout);
    let layout = stream_layout(data).unwrap();
    let sizes = layout.sizes;
    stream_layout_facts(data);
    assert(pad_bytes(0) =~= Seq::<u8>::empty());
    let code = data[0] % 4;
    if code == 0 || code == 1 {
        let (size, bytes) = size_field(data, 1, data.len() as int).unwrap();
        size_bytes_len(size);
        assert(all_equal(sizes));
    } else if code == 2 {
        let (first, first_bytes) = size_field(data, 1, data.len() as int).unwrap();
        let (second, second_bytes) = size_field(data, 1 + first_bytes, data.len() as int).unwrap();
        size_bytes_len(first);
        size_bytes_len(second);
    } else {
        let ch = data[1];
        let count = (ch % 64) as int;
        let (pad, pad_len) = counted_padding(data, ch).unwrap();
        if (ch / 64) % 2 == 1 {
            pad_field_bounds(data, 2);
        }
        let start = 2 + pad_len;
        let end = data.len() - pad;
        if ch >= 128 {
            size_fields_bounds(data, start, end, count - 1);
            size_fields_len(data, start, end, count - 1);
            let (front, offset) = size_fields(data, start, end, count - 1).unwrap();
            let (last, bytes) = size_field(data, offset, end).unwrap();
            size_bytes_len(last);
            assert(sizes.drop_last() =~= front);
            if count == 2 {
                assert(front =~= seq![sizes[0]]);
                sizes_bytes_one(sizes[0]);
                size_bytes_len(sizes[0]);
            }
        } else {
            let (size, bytes) = size_field(data, start, end).unwrap();
            size_bytes_len(size);
            assert(all_equal(sizes));
        }
    }
}

/// A written self-delimiting packet takes the bytes of its head, of the length field of its
/// last frame, and of its frames; the head is as long under every coding configuration.
pub proof fn stream_bytes_len(toc: u8, frames: Seq<Seq<u8>>)
    ensures
        stream_bytes(toc, frames).len() == head_bytes(0u8, lengths(frames), false, 0).len()
            + size_bytes(lengths(frames).last()).len() + total_len(frames),
{
    concat_len(frames);
    assert(head_bytes(toc, lengths(frames), false, 0).len() == head_bytes(
        0u8,
        lengths(frames),
        false,
        0,
    ).len());
}

/// A self-delimiting packet that is written again takes no more room than it took: its
/// frames have the sizes of its layout, they can be written, and what is written is
/// between two bytes and the extent of the packet long.
pub proof fn stream_rewrite_fits(data: Seq<u8>)
    requires
        stream_layout(data) is Some,
    ensures
        valid_sizes(lengths(frames_of(data, stream_layout(data).unwrap()))),
        2 <= stream_bytes(data[0], frames_of(data, stream_layout(data).unwrap())).len()
            <= extent(stream_layout(data).unwrap()),
{
    let layout = stream_layout(data).unwrap();
    let frames = frames_of(data, layout);
    stream_layout_facts(data);
    frames_lengths(data, layout);
    stream_head_fits(data);
    stream_bytes_len(data[0], frames);
    stream_head_len(layout.sizes);
}

/// The head of a self-delimiting packet and the length field of its last frame take two
/// bytes at least.
pub proof fn stream_head_len(sizes: Seq<int>)
    requires
        valid_sizes(sizes),
    ensures
        2 <= head_bytes(0u8, sizes, false, 0).len() + size_bytes(sizes.last()).len(),
{
    size_bytes_len(sizes.last());
}

/// The layout that a written self-delimiting packet has.
pub open spec fn written_stream_layout(toc: u8, frames: Seq<Seq<u8>>) -> Layout {
    let head = head_bytes(toc, lengths(frames), false, 0);
    Layout {
        toc: head[0],
        sizes: lengths(frames),
        payload_offset: (head.len() + size_bytes(lengths(frames).last()).len()) as int,
        padding: 0,
    }
}

/// A self-delimiting packet of up to two frames reads back as the layout it was written
/// for, whatever follows it.
pub proof fn short_stream_reads_back(toc: u8, frames: Seq<Seq<u8>>, rest: Seq<u8>)
    requires
        valid_sizes(lengths(frames)),
        frames.len() <= 2,
    ensures
        stream_layout(stream_bytes(toc, frames) + rest) == Some(
            written_stream_layout(toc, frames),
        ),
{
    reveal(stream_layout);
    let sizes = lengths(frames);
    let head = head_bytes(toc, sizes, false, 0);
    let last = size_bytes(sizes.last());
    let body = concat(frames);
    let data = stream_bytes(toc, frames) + rest;
    let len = data.len() as int;
    concat_len(frames);
    total_len_is_total(frames);
    size_bytes_len(sizes.last());
    assert(data =~= head + (last + (body + rest)));
    assert(data[0] == head[0]);
    assert(sizes.take(0) =~= Seq::<int>::empty());
    total_take_step(sizes, 0);
    if frames.len() == 1 {
        assert(sizes.take(1) =~= sizes);
        assert(data.subrange(1, 1 + last.len() as int) =~= last);
        size_field_reads_back(data, 1, len, sizes[0]);
        assert(sizes =~= equal_sizes(1, sizes[0]));
    } else {
        total_take_step(sizes, 1);
        assert(sizes.take(2) =~= sizes);
        if sizes[0] == sizes[1] {
            assert(data.subrange(1, 1 + last.len() as int) =~= last);
            size_field_reads_back(data, 1, len, sizes[1]);
            assert(sizes =~= equal_sizes(2, sizes[0]));
        } else {
            let first = size_bytes(sizes[0]);
            size_bytes_len(sizes[0]);
            assert(head =~= seq![(toc_base(toc) + 2) as u8] + first);
            assert(data.subrange(1, 1 + first.len() as int) =~= first);
            size_field_reads_back(data, 1, len, sizes[0]);
            let next: int = 1 + first.len() as int;
            assert(data.subrange(next, next + last.len() as int) =~= last);
            size_field_reads_back(data, next, len, sizes[1]);
            assert(sizes =~= seq![sizes[0], sizes[1]]);
        }
    }
}

/// A self-delimiting packet of more than two frames reads back as the layout it was
/// written for, whatever follows it.
pub proof fn counted_stream_reads_back(toc: u8, frames: Seq<Seq<u8>>, rest: Seq<u8>)
    requires
        valid_sizes(lengths(frames)),
        frames.len() > 2,
    ensures
        stream_layout(stream_bytes(toc, frames) + rest) == Some(
            written_stream_layout(toc, frames),
        ),
{
    reveal(stream_layout);
    let sizes = lengths(frames);
    let count = sizes.len() as int;
    let head = counted_head(toc, sizes, 0);
    let last = size_bytes(sizes.last());
    let body = concat(frames);
    let data = stream_bytes(toc, frames) + rest;
    let len = data.len() as int;
    concat_len(frames);
    total_len_is_total(frames);
    size_bytes_len(sizes.last());
    assert(pad_bytes(0) =~= Seq::<u8>::empty());
    assert(data =~= head + (last + (body + rest)));
    counted_head_reads_back(data, toc, sizes, 0, last + (body + rest));
    if all_equal(sizes) {
        equal_lengths(frames);
        let each = frames[0].len() as int;
        assert(sizes.last() == sizes[0]);
        assert(head.len() == 2);
        assert(data.subrange(2, 2 + last.len() as int) =~= last);
        size_field_reads_back(data, 2, len, each);
        assert(count * each == each * count) by (nonlinear_arith);
        assert(stream_layout_counted(data) == Some(written_stream_layout(toc, frames)));
    } else {
        let front = sizes.drop_last();
        let fields = sizes_bytes(front);
        sizes_bytes_len(front);
        assert(head.len() == 2 + fields.len());
        assert(data.subrange(2, 2 + fields.len() as int) =~= fields);
        size_fields_read_back(data, 2, len, front);
        let offset: int = 2 + fields.len() as int;
        assert(data.subrange(offset, offset + last.len() as int) =~= last);
        size_field_reads_back(data, offset, len, sizes.last());
        assert(front.push(sizes.last()) =~= sizes);
        assert(stream_layout_counted(data) == Some(written_stream_layout(toc, frames)));
    }
}

/// Reading a written self-delimiting packet gives back what was written, whatever follows
/// the packet: the layout is the one it was written for, the frames are the frames it was
/// written from, the coding configuration is that of `toc`, and the packet ends where its
/// bytes end.
pub proof fn written_stream_reads_back(toc: u8, frames: Seq<Seq<u8>>, rest: Seq<u8>)
    requires
        valid_sizes(lengths(frames)),
    ensures
        stream_layout(stream_bytes(toc, frames) + rest) == Some(
            written_stream_layout(toc, frames),
        ),
        frames_of(stream_bytes(toc, frames) + rest, written_stream_layout(toc, frames))
            == frames,
        extent(written_stream_layout(toc, frames)) == stream_bytes(toc, frames).len(),
        (stream_bytes(toc, frames) + rest)[0] / 4 == toc / 4,
{
    let sizes = lengths(frames);
    let head = head_bytes(toc, sizes, false, 0);
    let last = size_bytes(sizes.last());
    let body = concat(frames);
    if frames.len() > 2 {
        counted_stream_reads_back(toc, frames, rest);
    } else {
        short_stream_reads_back(toc, frames, rest);
    }
    written_stream_shape(toc, frames, rest);
    frames_stand_in_packet(
        stream_bytes(toc, frames) + rest,
        head + last,
        frames,
        rest,
        written_stream_layout(toc, frames),
    );
}

/// A written self-delimiting packet starts with a byte of the coding configuration of
/// `toc` and takes as many bytes as its layout extends over.
pub proof fn written_stream_shape(toc: u8, frames: Seq<Seq<u8>>, rest: Seq<u8>)
    requires
        valid_sizes(lengths(frames)),
    ensures
        extent(written_stream_layout(toc, frames)) == stream_bytes(toc, frames).len(),
        (stream_bytes(toc, frames) + rest)[0] / 4 == toc / 4,
        stream_bytes(toc, frames) + rest == (head_bytes(toc, lengths(frames), false, 0)
            + size_bytes(lengths(frames).last())) + concat(frames) + rest,
{
    let sizes = lengths(frames);
    let head = head_bytes(toc, sizes, false, 0);
    let last = size_bytes(sizes.last());
    let body = concat(frames);
    concat_len(frames);
    total_len_is_total(frames);
    size_bytes_len(sizes.last());
    assert(pad_bytes(0) =~= Seq::<u8>::empty());
    assert((stream_bytes(toc, frames) + rest)[0] == head[0]);
    assert(stream_bytes(toc, frames) + rest =~= (head + last) + body + rest);
}

/// Reading a written packet gives back what was written: the packet is well formed, and
/// its layout is the one it was written for.
pub proof fn written_packet_reads_back(toc: u8, frames: Seq<Seq<u8>>, counted: bool, extra: int)
    requires
        writable(frames, counted, extra),
    ensures
        parse_layout(packet_bytes(toc, frames, counted, extra)) == Some(
            written_layout(toc, frames, counted, extra),
        ),
{
    if is_counted(lengths(frames), counted) {
        counted_packet_reads_back(toc, frames, counted, extra);
    } else {
        short_packet_reads_back(toc, frames);
    }
}

} // verus!
