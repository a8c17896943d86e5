//! Writing packets: the executable counterpart of the byte layout.

use vstd::prelude::*;
use crate::encoding::{
    all_equal, concat, counted_head, head_bytes, packet_bytes, pad_bytes, size_bytes,
    size_bytes_len, sizes_bytes, stream_bytes, writable, zeros,
};
use crate::framing::{lengths, total_len, valid_sizes, MAX_FRAME_BYTES};
use crate::packet::contents;

verus! {

/// The largest number of bytes that the head and the frames of one packet can take: 48
/// frames of 1275 bytes, with two bytes of head and a length field of two bytes for each
/// frame but the last.
pub const MAX_PACKET_BYTES: usize = 61296;

/// The number of bytes that the head of a packet takes.
pub open spec fn head_len(sizes: Seq<int>, counted: bool, extra: int) -> int {
    head_bytes(0u8, sizes, counted, extra).len() as int
}

/// The number of bytes that a packet of these frames takes without padding.
pub open spec fn bare_len(frames: Seq<Seq<u8>>, counted: bool) -> int {
    head_len(lengths(frames), counted, 0) + total_len(frames)
}

/// Whether all frames have the size of the first.
fn same_sizes(frames: &[&[u8]]) -> (same: bool)
    requires
        frames@.len() > 0,
    ensures
        same == all_equal(lengths(contents(frames@))),
{
    let first: usize = frames[0].len();
    let mut i: usize = 1;
    while i < frames.len()
        invariant
            1 <= i <= frames@.len(),
            first == frames@[0]@.len(),
            forall|j: int| 0 <= j < i ==> (#[trigger] frames@[j])@.len() == first,
        decreases frames@.len() - i,
    {
        if frames[i].len() != first {
            proof {
                let sizes = lengths(contents(frames@));
                assert(sizes[i as int] != sizes[0]);
            }
            return false;
        }
        i = i + 1;
    }
    proof {
        let sizes = lengths(contents(frames@));
        assert forall|j: int| 0 <= j < sizes.len() implies #[trigger] sizes[j] == sizes[0] by {
            assert(frames@[j]@.len() == first);
        }
    }
    true
}

/// The number of bytes that the frames hold in all.
fn payload_len(frames: &[&[u8]]) -> (sum: usize)
    requires
        valid_sizes(lengths(contents(frames@))),
    ensures
        sum == total_len(contents(frames@)),
        sum <= MAX_FRAME_BYTES * frames@.len(),
{
    let ghost all = contents(frames@);
    let mut sum: usize = 0;
    let mut i: usize = 0;
    proof {
        assert(all.take(0) =~= Seq::<Seq<u8>>::empty());
    }
    while i < frames.len()
        invariant
            all == contents(frames@),
            valid_sizes(lengths(all)),
            i <= frames@.len(),
            sum == total_len(all.take(i as int)),
            sum <= MAX_FRAME_BYTES * i,
        decreases frames@.len() - i,
    {
        proof {
            assert(all.take(i as int + 1).drop_last() =~= all.take(i as int));
            assert(lengths(all)[i as int] == frames@[i as int]@.len());
        }
        sum = sum + frames[i].len();
        i = i + 1;
    }
    proof {
        assert(all.take(frames@.len() as int) =~= all);
    }
    sum
}

/// The number of bytes that the length fields of the first `k` frames take.
fn fields_len(frames: &[&[u8]], k: usize) -> (sum: usize)
    requires
        valid_sizes(lengths(contents(frames@))),
        k <= frames@.len(),
    ensures
        sum == sizes_bytes(lengths(contents(frames@)).take(k as int)).len(),
        sum <= 2 * k,
{
    let ghost sizes = lengths(contents(frames@));
    let mut sum: usize = 0;
    let mut i: usize = 0;
    proof {
        assert(sizes.take(0) =~= Seq::<int>::empty());
    }
    while i < k
        invariant
            sizes == lengths(contents(frames@)),
            valid_sizes(sizes),
            i <= k <= frames@.len(),
            sum == sizes_bytes(sizes.take(i as int)).len(),
            sum <= 2 * i,
        decreases k - i,
    {
        proof {
            assert(sizes.take(i as int + 1).drop_last() =~= sizes.take(i as int));
            assert(sizes[i as int] == frames@[i as int]@.len());
            size_bytes_len(sizes[i as int]);
        }
        if frames[i].len() < 252 {
            sum = sum + 1;
        } else {
            sum = sum + 2;
        }
        i = i + 1;
    }
    sum
}

/// The number of bytes that a packet of `frames` takes without padding: as a counted run
/// where `counted` is true, else in the shortest form.
pub(crate) fn packet_len(frames: &[&[u8]], counted: bool) -> (len: usize)
    requires
        valid_sizes(lengths(contents(frames@))),
    ensures
        len == bare_len(contents(frames@), counted),
        1 <= len <= MAX_PACKET_BYTES,
{
    let ghost sizes = lengths(contents(frames@));
    let count: usize = frames.len();
    let body: usize = payload_len(frames);
    proof {
        assert(pad_bytes(0) =~= Seq::<u8>::empty());
        assert(sizes[0] == frames@[0]@.len());
        assert(sizes.drop_last() =~= sizes.take(count as int - 1));
    }
    if counted || count > 2 {
        if same_sizes(frames) {
            2 + body
        } else {
            2 + fields_len(frames, count - 1) + body
        }
    } else if count == 1 {
        1 + body
    } else {
        proof {
            assert(sizes[1] == frames@[1]@.len());
            size_bytes_len(sizes[0]);
        }
        if frames[0].len() == frames[1].len() {
            1 + body
        } else if frames[0].len() < 252 {
            2 + body
        } else {
            3 + body
        }
    }
}

/// Appends the length field that states `size`.
fn push_size(out: &mut Vec<u8>, size: usize)
    requires
        size <= MAX_FRAME_BYTES,
    ensures
        final(out)@ == old(out)@ + size_bytes(size as int),
{
    if size < 252 {
        out.push(size as u8);
        proof {
            assert(out@ =~= old(out)@ + size_bytes(size as int));
        }
    } else {
        let low: usize = 252 + size % 4;
        let high: usize = (size - low) / 4;
        out.push(low as u8);
        out.push(high as u8);
        proof {
            assert(out@ =~= old(out)@ + size_bytes(size as int));
        }
    }
}

/// Appends the padding field for `extra` added bytes, and returns the number of bytes that
/// the field takes.
fn push_padding_field(out: &mut Vec<u8>, extra: usize) -> (used: usize)
    ensures
        final(out)@ == old(out)@ + pad_bytes(extra as int),
        used == pad_bytes(extra as int).len(),
        used <= extra,
{
    let mut left: usize = extra;
    let mut used: usize = 0;
    proof {
        assert(out@ + pad_bytes(left as int) =~= old(out)@ + pad_bytes(extra as int));
    }
    while left > 255
        invariant
            left <= extra,
            used + left <= extra,
            out@ + pad_bytes(left as int) == old(out)@ + pad_bytes(extra as int),
            used + pad_bytes(left as int).len() == pad_bytes(extra as int).len(),
        decreases left,
    {
        proof {
            assert(out@.push(255u8) + pad_bytes(left as int - 255) =~= out@ + pad_bytes(
                left as int,
            ));
        }
        out.push(255u8);
        left = left - 255;
        used = used + 1;
    }
    if left > 0 {
        proof {
            assert(out@.push((left - 1) as u8) =~= out@ + pad_bytes(left as int));
        }
        out.push((left - 1) as u8);
        used = used + 1;
    } else {
        proof {
            assert(out@ + pad_bytes(left as int) =~= out@);
        }
    }
    used
}

/// Appends the length fields of the first `k` frames.
fn push_fields(out: &mut Vec<u8>, frames: &[&[u8]], k: usize)
    requires
        valid_sizes(lengths(contents(frames@))),
        k <= frames@.len(),
    ensures
        final(out)@ == old(out)@ + sizes_bytes(lengths(contents(frames@)).take(k as int)),
{
    let ghost sizes = lengths(contents(frames@));
    let mut i: usize = 0;
    proof {
        assert(sizes.take(0) =~= Seq::<int>::empty());
        assert(out@ =~= old(out)@ + sizes_bytes(sizes.take(0)));
    }
    while i < k
        invariant
            sizes == lengths(contents(frames@)),
            valid_sizes(sizes),
            i <= k <= frames@.len(),
            out@ == old(out)@ + sizes_bytes(sizes.take(i as int)),
        decreases k - i,
    {
        let ghost before = out@;
        proof {
            assert(sizes.take(i as int + 1).drop_last() =~= sizes.take(i as int));
            assert(sizes[i as int] == frames@[i as int]@.len());
        }
        push_size(out, frames[i].len());
        proof {
            assert(out@ =~= old(out)@ + sizes_bytes(sizes.take(i as int + 1)));
        }
        i = i + 1;
    }
}

/// Appends the bytes of every frame.
fn push_frames(out: &mut Vec<u8>, frames: &[&[u8]])
    ensures
        final(out)@ == old(out)@ + concat(contents(frames@)),
{
    let ghost all = contents(frames@);
    let mut i: usize = 0;
    proof {
        assert(all.take(0) =~= Seq::<Seq<u8>>::empty());
        assert(out@ =~= old(out)@ + concat(all.take(0)));
    }
    while i < frames.len()
        invariant
            all == contents(frames@),
            i <= frames@.len(),
            out@ == old(out)@ + concat(all.take(i as int)),
        decreases frames@.len() - i,
    {
        proof {
            assert(all.take(i as int + 1).drop_last() =~= all.take(i as int));
            assert(all.take(i as int + 1).last() == frames@[i as int]@);
        }
        out.extend_from_slice(frames[i]);
        proof {
            assert(out@ =~= old(out)@ + concat(all.take(i as int + 1)));
        }
        i = i + 1;
    }
    proof {
        assert(all.take(frames@.len() as int) =~= all);
    }
}

/// Appends `n` bytes of value zero.
fn push_zeros(out: &mut Vec<u8>, n: usize)
    ensures
        final(out)@ == old(out)@ + zeros(n as int),
{
    let mut i: usize = 0;
    proof {
        assert(out@ =~= old(out)@ + zeros(0));
    }
    while i < n
        invariant
            i <= n,
            out@ == old(out)@ + zeros(i as int),
        decreases n - i,
    {
        out.push(0u8);
        proof {
            assert(out@ =~= old(out)@ + zeros(i as int + 1));
        }
        i = i + 1;
    }
}

/// Copies `src` over the first bytes of `dst`.
pub(crate) fn copy_into(dst: &mut [u8], src: &[u8])
    requires
        src@.len() <= old(dst)@.len(),
    ensures
        final(dst)@ == src@ + old(dst)@.subrange(src@.len() as int, old(dst)@.len() as int),
{
    let n: usize = src.len();
    let total: usize = dst.len();
    let mut i: usize = 0;
    while i < n
        invariant
            n == src@.len(),
            total == dst@.len(),
            total == old(dst)@.len(),
            i <= n <= total,
            forall|j: int| 0 <= j < i ==> dst@[j] == src@[j],
            forall|j: int| i <= j < total ==> dst@[j] == old(dst)@[j],
        decreases n - i,
    {
        dst[i] = src[i];
        i = i + 1;
    }
    proof {
        assert(dst@ =~= src@ + old(dst)@.subrange(n as int, total as int));
    }
}

/// Appends the head of the packet that holds `frames`, and returns the number of bytes
/// that its padding field takes.
fn push_head(out: &mut Vec<u8>, toc: u8, frames: &[&[u8]], counted: bool, extra: usize) -> (used:
    usize)
    requires
        writable(contents(frames@), counted, extra as int),
    ensures
        final(out)@ == old(out)@ + head_bytes(
            toc,
            lengths(contents(frames@)),
            counted,
            extra as int,
        ),
        used == pad_bytes(extra as int).len(),
        used <= extra,
{
    let ghost sizes = lengths(contents(frames@));
    let count: usize = frames.len();
    let base: u8 = (toc / 4) * 4;
    let ghost before = out@;
    proof {
        assert(sizes[0] == frames@[0]@.len());
        assert(sizes.drop_last() =~= sizes.take(count as int - 1));
        assert(pad_bytes(0) =~= Seq::<u8>::empty());
    }
    if counted || count > 2 {
        let same: bool = same_sizes(frames);
        let mut ch: u8 = count as u8;
        if extra > 0 {
            ch = ch + 64;
        }
        if !same {
            ch = ch + 128;
        }
        out.push(base + 3);
        out.push(ch);
        let used: usize = push_padding_field(out, extra);
        if !same {
            push_fields(out, frames, count - 1);
        }
        proof {
            assert(out@ =~= before + counted_head(toc, sizes, extra as int));
        }
        used
    } else if count == 1 {
        out.push(base);
        proof {
            assert(out@ =~= before + head_bytes(toc, sizes, counted, extra as int));
        }
        0
    } else {
        proof {
            assert(sizes[1] == frames@[1]@.len());
        }
        if frames[0].len() == frames[1].len() {
            out.push(base + 1);
            proof {
                assert(out@ =~= before + head_bytes(toc, sizes, counted, extra as int));
            }
        } else {
            out.push(base + 2);
            push_size(out, frames[0].len());
            proof {
                assert(out@ =~= before + head_bytes(toc, sizes, counted, extra as int));
            }
        }
        0
    }
}

/// Writes the packet that holds `frames` under the coding configuration of `toc`: as a
/// counted run where `counted` is true or there are more than two frames, else in the
/// shortest form; lengthened by `extra` bytes of padding field and padding.
pub(crate) fn build_packet(toc: u8, frames: &[&[u8]], counted: bool, extra: usize) -> (packet:
    Vec<u8>)
    requires
        writable(contents(frames@), counted, extra as int),
    ensures
        packet@ == packet_bytes(toc, contents(frames@), counted, extra as int),
{
    let mut out: Vec<u8> = Vec::new();
    let used: usize = push_head(&mut out, toc, frames, counted, extra);
    push_frames(&mut out, frames);
    push_zeros(&mut out, extra - used);
    proof {
        assert(out@ =~= packet_bytes(toc, contents(frames@), counted, extra as int));
    }
    out
}

/// Writes the self-delimiting packet that holds `frames` under the coding configuration of
/// `toc`, in the shortest form and without padding.
pub(crate) fn build_stream(toc: u8, frames: &[&[u8]]) -> (packet: Vec<u8>)
    requires
        valid_sizes(lengths(contents(frames@))),
    ensures
        packet@ == stream_bytes(toc, contents(frames@)),
{
    let ghost sizes = lengths(contents(frames@));
    let count: usize = frames.len();
    let mut out: Vec<u8> = Vec::new();
    push_head(&mut out, toc, frames, false, 0);
    proof {
        assert(sizes.last() == frames@[count as int - 1]@.len());
    }
    push_size(&mut out, frames[count - 1].len());
    push_frames(&mut out, frames);
    proof {
        assert(out@ =~= stream_bytes(toc, contents(frames@)));
    }
    out
}

} // verus!
