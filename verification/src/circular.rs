//! A byte array addressed by ever-growing cursors, as a ring.
//!
//! A cursor never wraps: position `cursor` of the byte stream lies in slot
//! `cursor % size` of an array of `size` bytes.

use vstd::arithmetic::div_mod::{
    lemma_add_mod_noop_right, lemma_mod_bound, lemma_mod_twice, lemma_small_mod,
    lemma_sub_mod_noop, lemma_sub_mod_noop_right,
};
use vstd::arithmetic::power::pow;
use vstd::arithmetic::power2::{
    is_pow2, is_pow2_equiv, lemma2_to64_rest, lemma_pow2_strictly_increases, pow2,
};
use vstd::bits::lemma_u64_low_bits_mask_is_mod;
use vstd::prelude::*;

verus! {

/// The slot of an array of `size` bytes that holds stream position `cursor`.
pub open spec fn slot(cursor: int, size: int) -> int {
    cursor % size
}

/// The `len` bytes of the stream that start at `cursor`.
pub open spec fn window(data: Seq<u8>, cursor: int, len: int) -> Seq<u8> {
    Seq::new(len as nat, |i: int| data[slot(cursor + i, data.len() as int)])
}

/// The array after `bytes` were stored at stream position `cursor`; every slot that
/// the stored range does not reach keeps its byte.
pub open spec fn overwrite(data: Seq<u8>, cursor: int, bytes: Seq<u8>) -> Seq<u8> {
    Seq::new(
        data.len(),
        |p: int|
            {
                let i = slot(p - cursor, data.len() as int);
                if i < bytes.len() {
                    bytes[i]
                } else {
                    data[p]
                }
            },
    )
}

/// Two positions less than `size` apart share a slot only if they are equal.
pub proof fn lemma_slot_injective(a: int, b: int, size: int)
    requires
        size > 0,
        slot(a, size) == slot(b, size),
        -size < a - b < size,
    ensures
        a == b,
{
    lemma_sub_mod_noop(a, b, size);
    assert((a - b) % size == 0) by {
        lemma_small_mod(0, size as nat);
    }
    if a > b {
        lemma_small_mod((a - b) as nat, size as nat);
    }
    if b > a {
        lemma_sub_mod_noop(b, a, size);
        lemma_small_mod(0, size as nat);
        lemma_small_mod((b - a) as nat, size as nat);
    }
}

/// The offset from `cursor` at which `overwrite` looks a slot up.
proof fn lemma_slot_offset(cursor: int, i: int, size: int)
    requires
        size > 0,
        0 <= i < size,
    ensures
        slot(slot(cursor + i, size) - cursor, size) == i,
        0 <= slot(cursor + i, size) < size,
{
    lemma_mod_bound(cursor + i, size);
    lemma_sub_mod_noop(cursor + i, cursor, size);
    lemma_sub_mod_noop(slot(cursor + i, size), cursor, size);
    lemma_mod_twice(cursor + i, size);
    assert(slot(slot(cursor + i, size) - cursor, size) == slot(cursor + i - cursor, size));
    lemma_small_mod(i as nat, size as nat);
}

/// The converse: the slot `p` lies at its offset from `cursor`.
proof fn lemma_offset_slot(cursor: int, p: int, size: int)
    requires
        size > 0,
        0 <= p < size,
    ensures
        slot(cursor + slot(p - cursor, size), size) == p,
        0 <= slot(p - cursor, size) < size,
{
    lemma_mod_bound(p - cursor, size);
    lemma_add_mod_noop_right(cursor, p - cursor, size);
    lemma_small_mod(p as nat, size as nat);
}

/// What was stored is read back.
pub proof fn lemma_window_of_overwrite(data: Seq<u8>, cursor: int, bytes: Seq<u8>)
    requires
        data.len() > 0,
        bytes.len() <= data.len(),
    ensures
        window(overwrite(data, cursor, bytes), cursor, bytes.len() as int) == bytes,
        overwrite(data, cursor, bytes).len() == data.len(),
{
    let size = data.len() as int;
    let after = overwrite(data, cursor, bytes);
    assert forall|i: int| 0 <= i < bytes.len() implies window(
        after,
        cursor,
        bytes.len() as int,
    )[i] == bytes[i] by {
        lemma_slot_offset(cursor, i, size);
    }
    assert(window(after, cursor, bytes.len() as int) =~= bytes);
}

/// A store leaves every window outside the stored range as it was.
pub proof fn lemma_window_untouched(
    data: Seq<u8>,
    cursor: int,
    bytes: Seq<u8>,
    from: int,
    len: int,
)
    requires
        data.len() > 0,
        0 <= len,
        from + len <= cursor,
        cursor + bytes.len() <= from + data.len(),
    ensures
        window(overwrite(data, cursor, bytes), from, len) == window(data, from, len),
{
    let size = data.len() as int;
    let after = overwrite(data, cursor, bytes);
    assert forall|i: int| 0 <= i < len implies window(after, from, len)[i] == window(
        data,
        from,
        len,
    )[i] by {
        let p = slot(from + i, size);
        lemma_mod_bound(from + i, size);
        let k = slot(p - cursor, size);
        lemma_offset_slot(cursor, p, size);
        if k < bytes.len() {
            lemma_slot_injective(cursor + k, from + i, size);
        }
    }
    assert(window(after, from, len) =~= window(data, from, len));
}

/// Two stores side by side are one store of the joined bytes.
pub proof fn lemma_overwrite_joins(data: Seq<u8>, cursor: int, a: Seq<u8>, b: Seq<u8>)
    requires
        data.len() > 0,
        a.len() + b.len() <= data.len(),
    ensures
        overwrite(overwrite(data, cursor, a), cursor + a.len(), b) == overwrite(
            data,
            cursor,
            a + b,
        ),
{
    let size = data.len() as int;
    let first = overwrite(data, cursor, a);
    let both = overwrite(first, cursor + a.len(), b);
    let once = overwrite(data, cursor, a + b);
    assert forall|p: int| 0 <= p < size implies both[p] == once[p] by {
        let i = slot(p - cursor, size);
        let j = slot(p - (cursor + a.len()), size);
        lemma_offset_slot(cursor, p, size);
        lemma_offset_slot(cursor + a.len(), p, size);
        // Both `cursor + i` and `cursor + a.len() + j` lie in slot `p`.
        if i >= a.len() {
            lemma_slot_injective(cursor + i, cursor + a.len() + j, size);
        } else {
            if j < b.len() {
                lemma_slot_injective(cursor + i, cursor + a.len() + j, size);
            }
        }
    }
    assert(both =~= once);
}

/// A window splits into two.
pub proof fn lemma_window_splits(data: Seq<u8>, cursor: int, a: int, b: int)
    requires
        0 <= a,
        0 <= b,
    ensures
        window(data, cursor, a + b) == window(data, cursor, a) + window(data, cursor + a, b),
{
    assert(window(data, cursor, a + b) =~= window(data, cursor, a) + window(data, cursor + a, b));
}

/// Storing one more byte of a run updates one slot.
proof fn lemma_overwrite_step(data: Seq<u8>, cursor: int, bytes: Seq<u8>, i: int)
    requires
        data.len() > 0,
        0 <= i < bytes.len() <= data.len(),
    ensures
        overwrite(data, cursor, bytes.take(i + 1)) == overwrite(data, cursor, bytes.take(i)).update(
            slot(cursor + i, data.len() as int),
            bytes[i],
        ),
{
    let size = data.len() as int;
    let q = slot(cursor + i, size);
    lemma_slot_offset(cursor, i, size);
    let before = overwrite(data, cursor, bytes.take(i));
    let after = overwrite(data, cursor, bytes.take(i + 1));
    assert forall|p: int| 0 <= p < size implies after[p] == before.update(q, bytes[i])[p] by {
        let k = slot(p - cursor, size);
        lemma_offset_slot(cursor, p, size);
        if k == i {
            assert(p == q);
        }
    }
    assert(after =~= before.update(q, bytes[i]));
}

/// Position `i` of a run that starts in slot `start`.
proof fn lemma_slot_of_run(cursor: int, start: int, i: int, size: int)
    requires
        size > 0,
        start == slot(cursor, size),
        0 <= i < size,
    ensures
        slot(cursor + i, size) == if start + i < size {
            start + i
        } else {
            start + i - size
        },
{
    lemma_mod_bound(cursor, size);
    lemma_add_mod_noop_right(i, cursor, size);
    assert(slot(cursor + i, size) == (i + start) % size);
    if start + i < size {
        lemma_small_mod((start + i) as nat, size as nat);
    } else {
        lemma_sub_mod_noop_right(start + i, size, size);
        assert((start + i - size) % size == (start + i) % size) by {
            vstd::arithmetic::div_mod::lemma_mod_sub_multiples_vanish(start + i, size);
        }
        lemma_small_mod((start + i - size) as nat, size as nat);
    }
}

/// Whether `n` is a power of two.
pub fn is_power_of_two(n: usize) -> (r: bool)
    ensures
        r == is_pow2(n as int),
{
    proof {
        reveal(is_pow2);
    }
    if n == 0 {
        return false;
    }
    let mut m: usize = n;
    while m % 2 == 0
        invariant
            m > 0,
            is_pow2(m as int) == is_pow2(n as int),
        decreases m,
    {
        proof {
            reveal_with_fuel(is_pow2, 2);
        }
        m = m / 2;
    }
    proof {
        reveal(is_pow2);
    }
    m == 1
}

/// The slot of `cursor` in an array whose size is the power of two `mask + 1`.
pub fn masked_slot(cursor: u64, mask: usize) -> (r: usize)
    requires
        is_pow2(mask + 1),
        mask < usize::MAX,
    ensures
        r == slot(cursor as int, mask + 1),
        r <= mask,
{
    let masked: u64 = cursor & (mask as u64);
    proof {
        is_pow2_equiv(mask + 1);
        let n = choose|n: nat| #[trigger] pow(2, n) == mask + 1;
        assert(pow2(n) == mask + 1);
        lemma2_to64_rest();
        if n >= 64 {
            if n > 64 {
                lemma_pow2_strictly_increases(64, n);
            }
            assert(false);
        }
        lemma_u64_low_bits_mask_is_mod(cursor, n);
        lemma_mod_bound(cursor as int, mask + 1);
    }
    masked as usize
}

/// The two runs of slots, each as its first slot and its length, that hold the stream from
/// `from` up to `to` in an array of `size` bytes: up to the end of the array, then on from its
/// start. A stretch longer than the array counts for its first `size` positions.
pub fn pieces(from: u64, to: u64, size: usize) -> (r: ((usize, usize), (usize, usize)))
    requires
        size > 0,
        from <= to,
    ensures
        ({
            let ((start, first), (again, rest)) = r;
            &&& first + rest == (if to - from < size {
                to - from
            } else {
                size as int
            })
            &&& start == slot(from as int, size as int)
            &&& again == 0
            &&& start + first <= size
            &&& rest > 0 ==> start + first == size
            &&& forall|i: int|
                0 <= i < first ==> start + i == #[trigger] slot(from + i, size as int)
            &&& forall|i: int|
                first <= i < first + rest ==> again + i - first == #[trigger] slot(
                    from + i,
                    size as int,
                )
        }),
{
    let stretch: u64 = to - from;
    let len: usize = if stretch < size as u64 {
        stretch as usize
    } else {
        size
    };
    let start: usize = (from % size as u64) as usize;
    let first: usize = if len < size - start {
        len
    } else {
        size - start
    };
    proof {
        assert forall|i: int| 0 <= i < len implies #[trigger] slot(from + i, size as int) == if i
            < first {
            start + i
        } else {
            i - first
        } by {
            lemma_slot_of_run(from as int, start as int, i, size as int);
        }
    }
    ((start, first), (0, len - first))
}

/// Stores `bytes` at stream position `cursor`: up to the end of the array, then on
/// from its start.
pub fn write_ring(data: &mut [u8], mask: usize, cursor: u64, bytes: &[u8])
    requires
        is_pow2(mask + 1),
        old(data)@.len() == mask + 1,
        bytes@.len() <= old(data)@.len(),
    ensures
        final(data)@ == overwrite(old(data)@, cursor as int, bytes@),
{
    let size: usize = data.len();
    let start: usize = masked_slot(cursor, mask);
    let ghost before = data@;
    let first_len: usize = if bytes.len() < size - start {
        bytes.len()
    } else {
        size - start
    };
    let mut i: usize = 0;
    proof {
        lemma_mod_bound(cursor as int, size as int);
        assert(bytes@.take(0) =~= Seq::<u8>::empty());
        assert forall|p: int| 0 <= p < size implies before[p] == overwrite(
            before,
            cursor as int,
            bytes@.take(0),
        )[p] by {
            lemma_mod_bound(p - cursor, size as int);
        }
        assert(before =~= overwrite(before, cursor as int, bytes@.take(0)));
    }
    while i < first_len
        invariant
            0 <= i <= first_len <= bytes@.len() <= size,
            first_len <= size - start,
            size == mask + 1,
            size == before.len(),
            data@.len() == size,
            start == slot(cursor as int, size as int),
            data@ == overwrite(before, cursor as int, bytes@.take(i as int)),
        decreases first_len - i,
    {
        data[start + i] = bytes[i];
        proof {
            lemma_slot_of_run(cursor as int, start as int, i as int, size as int);
            lemma_overwrite_step(before, cursor as int, bytes@, i as int);
        }
        i += 1;
    }
    while i < bytes.len()
        invariant
            first_len <= i <= bytes@.len() <= size,
            first_len == bytes@.len() || first_len == size - start,
            start < size,
            size == mask + 1,
            size == before.len(),
            data@.len() == size,
            start == slot(cursor as int, size as int),
            data@ == overwrite(before, cursor as int, bytes@.take(i as int)),
        decreases bytes@.len() - i,
    {
        data[i - first_len] = bytes[i];
        proof {
            lemma_slot_of_run(cursor as int, start as int, i as int, size as int);
            lemma_overwrite_step(before, cursor as int, bytes@, i as int);
        }
        i += 1;
    }
    assert(bytes@.take(i as int) =~= bytes@);
}

/// Copies the `len` bytes at stream position `cursor` to the front of `buf`.
pub fn read_ring(data: &[u8], mask: usize, cursor: u64, buf: &mut [u8], len: usize)
    requires
        is_pow2(mask + 1),
        data@.len() == mask + 1,
        len <= data@.len(),
        len <= old(buf)@.len(),
    ensures
        final(buf)@ == window(data@, cursor as int, len as int) + old(buf)@.skip(len as int),
{
    let size: usize = data.len();
    let start: usize = masked_slot(cursor, mask);
    let ghost before = buf@;
    let first_len: usize = if len < size - start {
        len
    } else {
        size - start
    };
    let mut i: usize = 0;
    proof {
        lemma_mod_bound(cursor as int, size as int);
        assert(before =~= window(data@, cursor as int, 0) + before.skip(0));
    }
    while i < first_len
        invariant
            0 <= i <= first_len <= len <= size,
            first_len <= size - start,
            size == data@.len(),
            len <= before.len(),
            buf@.len() == before.len(),
            start == slot(cursor as int, size as int),
            buf@ == window(data@, cursor as int, i as int) + before.skip(i as int),
        decreases first_len - i,
    {
        let ghost prior = buf@;
        buf[i] = data[start + i];
        proof {
            lemma_slot_of_run(cursor as int, start as int, i as int, size as int);
            assert(buf@ =~= window(data@, cursor as int, i + 1) + before.skip(i + 1));
        }
        i += 1;
    }
    while i < len
        invariant
            first_len <= i <= len <= size,
            first_len == len || first_len == size - start,
            start < size,
            size == data@.len(),
            len <= before.len(),
            buf@.len() == before.len(),
            start == slot(cursor as int, size as int),
            buf@ == window(data@, cursor as int, i as int) + before.skip(i as int),
        decreases len - i,
    {
        buf[i] = data[i - first_len];
        proof {
            lemma_slot_of_run(cursor as int, start as int, i as int, size as int);
            assert(buf@ =~= window(data@, cursor as int, i + 1) + before.skip(i + 1));
        }
        i += 1;
    }
}

/// A ring keeps position `c` of the stream in slot `c` modulo its size: what is stored lies there,
/// byte for byte and going on at the start of the array, and every other slot keeps its byte.
pub proof fn law_stream_goes_round(mask: usize, cursor: u64, bytes: &[u8], at: usize)
    requires
        is_pow2(mask + 1),
        mask < usize::MAX,
        bytes@.len() <= mask + 1,
    ensures
        call_ensures(masked_slot, (cursor, mask), at) ==> at == cursor as int % (mask + 1),
        forall|data: &mut [u8]|
            (*data)@.len() == mask + 1 && #[trigger] call_ensures(
                write_ring,
                (data, mask, cursor, bytes),
                (),
            ) ==> {
                let size = mask + 1;
                let after = (*final(data))@;
                &&& after.len() == size
                &&& forall|i: int|
                    0 <= i < bytes@.len() ==> after[(cursor + i) % size] == #[trigger] bytes@[i]
                &&& forall|p: int|
                    0 <= p < size && (p - cursor) % size >= bytes@.len() ==> #[trigger] after[p]
                        == (*data)@[p]
            },
{
    assert forall|data: &mut [u8]|
        (*data)@.len() == mask + 1 && #[trigger] call_ensures(
            write_ring,
            (data, mask, cursor, bytes),
            (),
        ) implies forall|i: int|
        0 <= i < bytes@.len() ==> (*final(data))@[(cursor + i) % (mask + 1)]
            == #[trigger] bytes@[i] by {
        assert forall|i: int| 0 <= i < bytes@.len() implies (*final(data))@[(cursor + i) % (mask
            + 1)] == #[trigger] bytes@[i] by {
            lemma_slot_offset(cursor as int, i, mask + 1);
        }
    }
}

/// What is read from a ring is what lies there: the bytes of the stream from `cursor` on, at the
/// front of the buffer, the rest of which is left alone.
pub proof fn law_stream_is_read_as_it_lies(data: &[u8], mask: usize, cursor: u64, len: usize)
    requires
        is_pow2(mask + 1),
        data@.len() == mask + 1,
        len <= data@.len(),
    ensures
        forall|buf: &mut [u8]|
            len <= (*buf)@.len() && #[trigger] call_ensures(
                read_ring,
                (data, mask, cursor, buf, len),
                (),
            ) ==> {
                let after = (*final(buf))@;
                &&& after.len() == (*buf)@.len()
                &&& forall|i: int|
                    0 <= i < len ==> #[trigger] after[i] == data@[(cursor + i) % (mask + 1)]
                &&& forall|i: int| len <= i < after.len() ==> #[trigger] after[i] == (*buf)@[i]
            },
{
}

/// A power of two is one that has no odd factor but 1: halving an even number, or doubling one,
/// does not change whether it is.
pub proof fn law_powers_of_two(n: usize, half: usize, r: bool, s: bool)
    requires
        call_ensures(is_power_of_two, (n,), r),
        call_ensures(is_power_of_two, (half,), s),
    ensures
        n == 0 ==> !r,
        n == 1 ==> r,
        n % 2 == 1 && n > 1 ==> !r,
        half > 0 && n == 2 * half ==> (r <==> s),
{
    reveal_with_fuel(is_pow2, 2);
}

/// The two runs of slots lie in the array and do not meet; together they are as long as the stretch
/// of the stream, and the second begins at the start of the array, where the first has reached the
/// end. Each position of the stretch is in one of them, in order.
pub proof fn law_runs_cover_the_stretch(
    from: u64,
    to: u64,
    size: usize,
    r: ((usize, usize), (usize, usize)),
)
    requires
        size > 0,
        from <= to <= from + size,
        call_ensures(pieces, (from, to, size), r),
    ensures
        call_requires(pieces, (from, to, size)),
        r.0.1 + r.1.1 == to - from,
        r.0.0 + r.0.1 <= size,
        r.1.0 == 0,
        r.1.1 > 0 ==> r.0.0 + r.0.1 == size && r.1.1 <= r.0.0,
        r.0.0 == from as int % size as int,
        forall|i: int|
            0 <= i < r.0.1 ==> r.0.0 + i == #[trigger] ((from + i) % size as int),
        forall|i: int|
            r.0.1 <= i < to - from ==> r.1.0 + i - r.0.1 == #[trigger] ((from + i) % size as int),
{
    assert forall|i: int| 0 <= i < r.0.1 implies r.0.0 + i == #[trigger] ((from + i)
        % size as int) by {
        assert(slot(from + i, size as int) == (from + i) % size as int);
    }
    assert forall|i: int| r.0.1 <= i < to - from implies r.1.0 + i - r.0.1 == #[trigger] ((from + i)
        % size as int) by {
        assert(slot(from + i, size as int) == (from + i) % size as int);
    }
}

} // verus!
