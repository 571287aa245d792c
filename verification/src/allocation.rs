//! A single-allocation layout builder.
//!
//! [`Lengths`] accumulates `(element layout, count)` requests and folds them
//! into one combined `(size, align)` memory layout, recording where each
//! array lands inside the block.  Each new array is placed in front of the
//! block built so far, padded so that the older block keeps its alignment.
//! [`Lengths::backing`] sizes one byte buffer for the whole combination
//! (with `align - 1` bytes of slack so the block can be realigned at any
//! base address), and [`Lengths::write`] / [`Lengths::read`] walk the
//! recorded arrays back out of such a buffer, most recently declared first.
//! Buffers are addressed by index, with index 0 taken as the aligned base
//! of the block, so the realignment slack lies past the block's end and no
//! leading bytes need discarding.

use vstd::prelude::*;

verus! {

/// One accumulated array request: `count` elements of `elem_size` bytes,
/// each aligned to `elem_align`, together with `offset`, the number of
/// bytes this array (plus its trailing padding) occupies in front of the
/// older block.
#[derive(Clone, Copy, Debug, PartialEq, Eq, Structural)]
pub struct Extent {
    pub count: usize,
    pub offset: usize,
    pub elem_size: usize,
    pub elem_align: usize,
}

/// Rounds `x` up to the next multiple of `a`.
pub open spec fn round_up(x: int, a: int) -> int
    recommends
        a >= 1,
        x >= 0,
{
    x + ((a - x % a) % a)
}

/// The combined layout's size: each extension contributes its own array
/// plus the padding in front of the older block, so the total is the sum
/// of the recorded offsets.
pub open spec fn combined_size(s: Seq<Extent>) -> int
    decreases s.len(),
{
    if s.len() == 0 {
        0
    } else {
        s.last().offset + combined_size(s.drop_last())
    }
}

/// The combined layout's alignment: the largest element alignment seen so
/// far, and 1 for the empty layout.
pub open spec fn combined_align(s: Seq<Extent>) -> int
    decreases s.len(),
{
    if s.len() == 0 {
        1
    } else if s.last().elem_align >= combined_align(s.drop_last()) {
        s.last().elem_align as int
    } else {
        combined_align(s.drop_last())
    }
}

/// Each recorded offset is exactly the new array's byte length rounded up
/// to the alignment of the block built before it.
pub open spec fn extents_wf(s: Seq<Extent>) -> bool
    decreases s.len(),
{
    if s.len() == 0 {
        true
    } else {
        &&& extents_wf(s.drop_last())
        &&& s.last().elem_align >= 1
        &&& s.last().offset == round_up(
            s.last().count * s.last().elem_size,
            combined_align(s.drop_last()),
        )
    }
}

/// The whole block, including realignment slack, stays within the address
/// range a single allocation may span.
pub open spec fn fits(s: Seq<Extent>) -> bool {
    combined_size(s) + combined_align(s) - 1 <= isize::MAX as int
}

/// Layout arithmetic exceeded the address range a single allocation may
/// span.
#[derive(Clone, Copy, Debug, PartialEq, Eq, Structural)]
pub struct LayoutError;

/// The layout builder: an ordered record of array requests plus the
/// combined layout they add up to.
#[derive(Clone)]
pub struct Lengths {
    pub extents: Vec<Extent>,
    pub size: usize,
    pub align: usize,
}

impl View for Lengths {
    type V = Seq<Extent>;

    open spec fn view(&self) -> Seq<Extent> {
        self.extents@
    }
}

/// Whether one more array of `count` elements `(elem_size, elem_align)`
/// still fits: the padded array, the older block and the realignment
/// slack must together stay within the allocatable range.
pub open spec fn extend_fits(s: Seq<Extent>, elem_size: int, elem_align: int, count: int) -> bool {
    let off = round_up(count * elem_size, combined_align(s));
    let a = if elem_align >= combined_align(s) {
        elem_align
    } else {
        combined_align(s)
    };
    off + combined_size(s) + a - 1 <= isize::MAX as int
}

/// The extent that such an extension records.
pub open spec fn extended_with(s: Seq<Extent>, elem_size: int, elem_align: int, count: int) -> Seq<
    Extent,
> {
    s.push(
        Extent {
            count: count as usize,
            offset: round_up(count * elem_size, combined_align(s)) as usize,
            elem_size: elem_size as usize,
            elem_align: elem_align as usize,
        },
    )
}

impl Default for Lengths {
    fn default() -> (r: Lengths)
        ensures
            r@ == Seq::<Extent>::empty(),
            r.wf(),
    {
        Lengths::new()
    }
}

pub proof fn lemma_combined_align_pos(s: Seq<Extent>)
    ensures
        combined_align(s) >= 1,
    decreases s.len(),
{
    if s.len() > 0 {
        lemma_combined_align_pos(s.drop_last());
    }
}

pub proof fn lemma_combined_size_nonneg(s: Seq<Extent>)
    ensures
        combined_size(s) >= 0,
    decreases s.len(),
{
    if s.len() > 0 {
        lemma_combined_size_nonneg(s.drop_last());
    }
}

pub proof fn lemma_round_up_ge(x: int, a: int)
    requires
        a >= 1,
        x >= 0,
    ensures
        round_up(x, a) >= x,
        round_up(x, a) < x + a,
{
    assert(x % a >= 0 && x % a < a);
    assert((a - x % a) % a >= 0 && (a - x % a) % a < a);
}

impl Lengths {
    /// The builder's bookkeeping is consistent: the recorded offsets obey
    /// the layout-extension rule and the cached size and alignment match
    /// what the record adds up to.
    pub open spec fn wf(&self) -> bool {
        &&& extents_wf(self@)
        &&& self.size == combined_size(self@)
        &&& self.align == combined_align(self@)
        &&& fits(self@)
    }

    /// The empty layout: no arrays, zero size, alignment 1.
    pub fn new() -> (r: Lengths)
        ensures
            r@ == Seq::<Extent>::empty(),
            r.wf(),
    {
        Lengths { extents: Vec::new(), size: 0, align: 1 }
    }

    /// Folds one more array of `count` elements, each of `elem_size` bytes
    /// aligned to `elem_align`, into the layout.  The new array is placed
    /// in front of the block built so far, padded so that the older block
    /// keeps its alignment.  Fails exactly when the enlarged layout would
    /// no longer fit in a single allocation.
    pub fn and(self, elem_size: usize, elem_align: usize, count: usize) -> (r: Result<
        Lengths,
        LayoutError,
    >)
        requires
            self.wf(),
            elem_align >= 1,
        ensures
            match r {
                Ok(l) => {
                    &&& extend_fits(self@, elem_size as int, elem_align as int, count as int)
                    &&& l@ == extended_with(self@, elem_size as int, elem_align as int, count as int)
                    &&& l.wf()
                },
                Err(e) => {
                    &&& !extend_fits(self@, elem_size as int, elem_align as int, count as int)
                    &&& e == LayoutError
                },
            },
    {
        proof {
            lemma_combined_align_pos(self@);
            lemma_combined_size_nonneg(self@);
            lemma_round_up_ge(count as int * elem_size as int, combined_align(self@));
        }
        let arr = match count.checked_mul(elem_size) {
            Some(v) => v,
            None => {
                return Err(LayoutError);
            },
        };
        let rem = arr % self.align;
        let pad = (self.align - rem) % self.align;
        let offset = match arr.checked_add(pad) {
            Some(v) => v,
            None => {
                return Err(LayoutError);
            },
        };
        let size = match offset.checked_add(self.size) {
            Some(v) => v,
            None => {
                return Err(LayoutError);
            },
        };
        let align = if elem_align >= self.align {
            elem_align
        } else {
            self.align
        };
        match size.checked_add(align - 1) {
            Some(t) if t <= isize::MAX as usize => {},
            _ => {
                return Err(LayoutError);
            },
        };
        let mut extents = self.extents;
        extents.push(Extent { count, offset, elem_size, elem_align });
        let r = Lengths { extents, size, align };
        proof {
            assert(r@.drop_last() =~= self@);
        }
        Ok(r)
    }

    /// Allocates one zeroed byte buffer for the combined layout: its size
    /// plus `align - 1` bytes of slack, enough to realign the block at
    /// whatever base address the allocator returns.
    pub fn backing(&self) -> (r: Vec<u8>)
        requires
            self.wf(),
        ensures
            r@.len() == combined_size(self@) + combined_align(self@) - 1,
            forall|k: int| 0 <= k < r@.len() ==> r@[k] == 0u8,
    {
        proof {
            lemma_combined_align_pos(self@);
            lemma_combined_size_nonneg(self@);
        }
        let n = self.size + (self.align - 1);
        let mut r: Vec<u8> = Vec::new();
        let mut k: usize = 0;
        while k < n
            invariant
                k <= n,
                r@.len() == k,
                forall|j: int| 0 <= j < k ==> r@[j] == 0u8,
            decreases n - k,
        {
            r.push(0u8);
            k = k + 1;
        }
        r
    }

    /// Opens a buffer of exactly the expected length for writing and
    /// returns a cursor over the recorded arrays.  A buffer of any other
    /// length is a caller bug, ruled out here rather than reported.
    pub fn write(&self, data: &Vec<u8>) -> (r: SlicesWrite)
        requires
            self.wf(),
            data@.len() == combined_size(self@) + combined_align(self@) - 1,
        ensures
            r.extents@ == self@,
            r.pos == 0,
            r.buflen == data@.len(),
            r.wf(),
    {
        proof {
            lemma_combined_align_pos(self@);
        }
        SlicesWrite { extents: copy_extents(&self.extents), pos: 0, buflen: data.len() }
    }

    /// Opens a buffer of exactly the expected length for reading; the
    /// counterpart of [`Lengths::write`].
    pub fn read(&self, data: &Vec<u8>) -> (r: SlicesRead)
        requires
            self.wf(),
            data@.len() == combined_size(self@) + combined_align(self@) - 1,
        ensures
            r.extents@ == self@,
            r.pos == 0,
            r.buflen == data@.len(),
            r.wf(),
    {
        proof {
            lemma_combined_align_pos(self@);
        }
        SlicesRead { extents: copy_extents(&self.extents), pos: 0, buflen: data.len() }
    }
}

fn copy_extents(v: &Vec<Extent>) -> (r: Vec<Extent>)
    ensures
        r@ == v@,
{
    let mut r: Vec<Extent> = Vec::new();
    let mut k: usize = 0;
    while k < v.len()
        invariant
            k <= v@.len(),
            r@ == v@.subrange(0, k as int),
        decreases v@.len() - k,
    {
        r.push(v[k]);
        proof {
            assert(r@ =~= v@.subrange(0, k + 1 as int));
        }
        k = k + 1;
    }
    proof {
        assert(r@ =~= v@);
    }
    r
}

/// One array's window into the backing buffer: `count` elements of
/// `elem_size` bytes starting at byte `base` of a buffer of length
/// `buflen`.
#[derive(Clone, Copy, Debug, PartialEq, Eq, Structural)]
pub struct Segment {
    pub base: usize,
    pub count: usize,
    pub elem_size: usize,
    pub buflen: usize,
}

/// The bytes of element `i` of the segment, as a range of buffer indices:
/// `[start, start + elem_size)`.
pub open spec fn seg_start(seg: Segment, i: int) -> int {
    seg.base + i * seg.elem_size
}

/// The buffer after writing `b` as element `i` of `seg`: the element's
/// bytes are replaced, every other byte is untouched.
pub open spec fn seg_write(d: Seq<u8>, seg: Segment, i: int, b: Seq<u8>) -> Seq<u8> {
    Seq::new(
        d.len(),
        |k: int|
            if seg_start(seg, i) <= k < seg_start(seg, i) + b.len() {
                b[k - seg_start(seg, i)]
            } else {
                d[k]
            },
    )
}

/// The bytes of element `i` of `seg` in the buffer `d`.
pub open spec fn seg_read(d: Seq<u8>, seg: Segment, i: int) -> Seq<u8> {
    d.subrange(seg_start(seg, i), seg_start(seg, i) + seg.elem_size)
}

impl Segment {
    /// All of the segment's elements lie inside the buffer.
    pub open spec fn wf(&self) -> bool {
        self.base + self.count * self.elem_size <= self.buflen
    }

    /// The number of elements in this segment.
    pub fn len(&self) -> (r: usize)
        ensures
            r == self.count,
    {
        self.count
    }

    /// Writes `bytes` as element `i`, leaving every byte outside that
    /// element unchanged.
    pub fn set(&self, data: &mut Vec<u8>, i: usize, bytes: &[u8])
        requires
            self.wf(),
            old(data)@.len() == self.buflen,
            i < self.count,
            bytes@.len() == self.elem_size,
        ensures
            final(data)@ == seg_write(old(data)@, *self, i as int, bytes@),
    {
        proof {
            lemma_element_in_bounds(*self, i as int);
        }
        let start = self.base + i * self.elem_size;
        let ghost d0 = data@;
        let mut j: usize = 0;
        while j < self.elem_size
            invariant
                self.wf(),
                j <= self.elem_size,
                bytes@.len() == self.elem_size,
                i < self.count,
                start == seg_start(*self, i as int),
                start + self.elem_size <= d0.len(),
                data@.len() == d0.len(),
                d0.len() == self.buflen,
                forall|k: int|
                    0 <= k < data@.len() ==> data@[k] == (if start <= k < start + j {
                        bytes@[k - start]
                    } else {
                        d0[k]
                    }),
            decreases self.elem_size - j,
        {
            data[start + j] = bytes[j];
            j = j + 1;
        }
        proof {
            assert(data@ =~= seg_write(d0, *self, i as int, bytes@));
        }
    }

    /// Reads element `i` back out of the buffer.
    pub fn get(&self, data: &Vec<u8>, i: usize) -> (r: Vec<u8>)
        requires
            self.wf(),
            data@.len() == self.buflen,
            i < self.count,
        ensures
            r@ == seg_read(data@, *self, i as int),
    {
        proof {
            lemma_element_in_bounds(*self, i as int);
        }
        let start = self.base + i * self.elem_size;
        let mut r: Vec<u8> = Vec::new();
        let mut j: usize = 0;
        while j < self.elem_size
            invariant
                j <= self.elem_size,
                start == seg_start(*self, i as int),
                data@.len() == self.buflen,
                start + self.elem_size <= data@.len(),
                r@ == data@.subrange(start as int, start + j),
            decreases self.elem_size - j,
        {
            r.push(data[start + j]);
            proof {
                assert(r@ =~= data@.subrange(start as int, start + j + 1));
            }
            j = j + 1;
        }
        proof {
            assert(r@ =~= seg_read(data@, *self, i as int));
        }
        r
    }
}

/// Element `i` of a well-formed segment lies inside the buffer.
pub proof fn lemma_element_in_bounds(seg: Segment, i: int)
    requires
        seg.wf(),
        0 <= i < seg.count,
    ensures
        seg.base <= seg_start(seg, i),
        seg_start(seg, i) + seg.elem_size <= seg.base + seg.count * seg.elem_size,
{
    vstd::arithmetic::mul::lemma_mul_inequality(i + 1, seg.count as int, seg.elem_size as int);
    vstd::arithmetic::mul::lemma_mul_is_distributive_add_other_way(
        seg.elem_size as int,
        i,
        1,
    );
    vstd::arithmetic::mul::lemma_mul_nonnegative(i, seg.elem_size as int);
}

/// The bytes occupied by the arrays' elements alone, without padding.
pub open spec fn elems_size(s: Seq<Extent>) -> int
    decreases s.len(),
{
    if s.len() == 0 {
        0
    } else {
        s.last().count * s.last().elem_size + elems_size(s.drop_last())
    }
}

/// The combined layout is exactly the arrays' elements plus, in front of
/// each previously built block, the padding its alignment demands: every
/// recorded offset exceeds its array's bytes by less than that alignment,
/// and the total size is the element bytes plus those gaps and no more.
pub proof fn lemma_size_is_elems_plus_padding(s: Seq<Extent>)
    requires
        extents_wf(s),
    ensures
        elems_size(s) <= combined_size(s),
        combined_size(s) <= elems_size(s) + s.len() * (combined_align(s) - 1),
    decreases s.len(),
{
    lemma_combined_align_pos(s);
    if s.len() == 0 {
    } else {
        let prev = s.drop_last();
        let e = s.last();
        lemma_size_is_elems_plus_padding(prev);
        lemma_combined_align_pos(prev);
        vstd::arithmetic::mul::lemma_mul_nonnegative(e.count as int, e.elem_size as int);
        lemma_round_up_ge(e.count * e.elem_size, combined_align(prev));
        assert(combined_align(prev) <= combined_align(s));
        vstd::arithmetic::mul::lemma_mul_inequality(
            combined_align(prev) - 1,
            combined_align(s) - 1,
            prev.len() as int,
        );
        vstd::arithmetic::mul::lemma_mul_is_commutative(combined_align(prev) - 1, prev.len() as int);
        vstd::arithmetic::mul::lemma_mul_is_commutative(combined_align(s) - 1, prev.len() as int);
        vstd::arithmetic::mul::lemma_mul_is_distributive_add_other_way(
            combined_align(s) - 1,
            prev.len() as int,
            1,
        );
    }
}

/// Round trip through one element: reading element `i` back right after
/// writing it yields exactly the bytes written.
pub proof fn lemma_write_then_read(d: Seq<u8>, seg: Segment, i: int, b: Seq<u8>)
    requires
        seg.wf(),
        d.len() == seg.buflen,
        0 <= i < seg.count,
        b.len() == seg.elem_size,
    ensures
        seg_read(seg_write(d, seg, i, b), seg, i) == b,
{
    lemma_element_in_bounds(seg, i);
    assert(seg_read(seg_write(d, seg, i, b), seg, i) =~= b);
}

/// Writing one element disturbs nothing else: any element of any segment
/// whose bytes do not overlap the written element reads back unchanged.
pub proof fn lemma_write_preserves_disjoint(
    d: Seq<u8>,
    seg1: Segment,
    i: int,
    b: Seq<u8>,
    seg2: Segment,
    j: int,
)
    requires
        seg1.wf(),
        seg2.wf(),
        d.len() == seg1.buflen,
        seg1.buflen == seg2.buflen,
        0 <= i < seg1.count,
        0 <= j < seg2.count,
        b.len() == seg1.elem_size,
        seg_start(seg1, i) + seg1.elem_size <= seg_start(seg2, j) || seg_start(seg2, j)
            + seg2.elem_size <= seg_start(seg1, i),
    ensures
        seg_read(seg_write(d, seg1, i, b), seg2, j) == seg_read(d, seg2, j),
{
    lemma_element_in_bounds(seg1, i);
    lemma_element_in_bounds(seg2, j);
    assert(seg_read(seg_write(d, seg1, i, b), seg2, j) =~= seg_read(d, seg2, j));
}

/// A cursor for writing the recorded arrays, most recently declared
/// first.  Constructed by [`Lengths::write`].
pub struct SlicesWrite {
    pub extents: Vec<Extent>,
    pub pos: usize,
    pub buflen: usize,
}

/// A cursor for reading the recorded arrays back, most recently declared
/// first.  Constructed by [`Lengths::read`].
#[derive(Clone)]
pub struct SlicesRead {
    pub extents: Vec<Extent>,
    pub pos: usize,
    pub buflen: usize,
}

/// What both cursors maintain: the arrays still to be handed out lie
/// between `pos` and the end of the buffer.
pub open spec fn cursor_wf(extents: Seq<Extent>, pos: int, buflen: int) -> bool {
    &&& extents_wf(extents)
    &&& pos >= 0
    &&& pos + combined_size(extents) <= buflen
}

/// The segment the cursor hands out next, and the cursor state that
/// remains.
pub open spec fn cursor_step(extents: Seq<Extent>, pos: int, buflen: int) -> (Segment, (
    Seq<Extent>,
    int,
)) {
    let e = extents.last();
    (
        Segment {
            base: pos as usize,
            count: e.count,
            elem_size: e.elem_size,
            buflen: buflen as usize,
        },
        (extents.drop_last(), pos + e.offset),
    )
}

/// Popping the most recently declared array yields a well-formed segment
/// and leaves a well-formed cursor whose position has moved past that
/// array and its padding, so segments handed out later lie entirely
/// behind it.
pub proof fn lemma_cursor_step(extents: Seq<Extent>, pos: int, buflen: int)
    requires
        cursor_wf(extents, pos, buflen),
        extents.len() > 0,
        buflen <= usize::MAX as int,
    ensures
        ({
            let (seg, (rest, pos2)) = cursor_step(extents, pos, buflen);
            &&& seg.wf()
            &&& cursor_wf(rest, pos2, buflen)
            &&& seg.base == pos
            &&& pos2 == pos + extents.last().offset
            &&& seg.base + seg.count * seg.elem_size <= pos2
            &&& pos2 <= buflen
        }),
{
    let e = extents.last();
    lemma_combined_align_pos(extents.drop_last());
    lemma_combined_size_nonneg(extents.drop_last());
    lemma_round_up_ge(e.count * e.elem_size, combined_align(extents.drop_last()));
    vstd::arithmetic::mul::lemma_mul_nonnegative(e.count as int, e.elem_size as int);
}

/// Segments a cursor hands out are pairwise disjoint: an array's
/// elements end at or before the position where the cursor continues,
/// and every later segment starts at or past that position.  Writing
/// through one segment therefore never disturbs another (see
/// [`lemma_write_preserves_disjoint`]).
pub proof fn lemma_cursor_segments_disjoint(extents: Seq<Extent>, pos: int, buflen: int)
    requires
        cursor_wf(extents, pos, buflen),
        extents.len() >= 2,
        buflen <= usize::MAX as int,
    ensures
        ({
            let (seg1, (rest, pos2)) = cursor_step(extents, pos, buflen);
            let (seg2, _) = cursor_step(rest, pos2, buflen);
            seg1.base + seg1.count * seg1.elem_size <= seg2.base
        }),
{
    lemma_cursor_step(extents, pos, buflen);
    let (seg1, (rest, pos2)) = cursor_step(extents, pos, buflen);
    lemma_cursor_step(rest, pos2, buflen);
}

impl SlicesWrite {
    /// See [`cursor_wf`].
    pub open spec fn wf(&self) -> bool {
        cursor_wf(self.extents@, self.pos as int, self.buflen as int)
    }

    /// Pops the most recently declared array and returns its segment
    /// together with the cursor for the arrays declared before it.
    pub fn next(self) -> (r: (Segment, SlicesWrite))
        requires
            self.wf(),
            self.extents@.len() > 0,
        ensures
            ({
                let (seg, (rest, pos2)) = cursor_step(
                    self.extents@,
                    self.pos as int,
                    self.buflen as int,
                );
                &&& r.0 == seg
                &&& r.0.wf()
                &&& r.1.extents@ == rest
                &&& r.1.pos == pos2
                &&& r.1.buflen == self.buflen
                &&& r.1.wf()
                &&& r.0.base + r.0.count * r.0.elem_size <= r.1.pos
            }),
    {
        proof {
            lemma_cursor_step(self.extents@, self.pos as int, self.buflen as int);
        }
        let mut extents = self.extents;
        let e = match extents.pop() {
            Some(e) => e,
            None => {
                proof {
                    assert(false);
                }
                Extent { count: 0, offset: 0, elem_size: 0, elem_align: 1 }
            },
        };
        let seg = Segment {
            base: self.pos,
            count: e.count,
            elem_size: e.elem_size,
            buflen: self.buflen,
        };
        (seg, SlicesWrite { extents, pos: self.pos + e.offset, buflen: self.buflen })
    }
}

impl SlicesRead {
    /// See [`cursor_wf`].
    pub open spec fn wf(&self) -> bool {
        cursor_wf(self.extents@, self.pos as int, self.buflen as int)
    }

    /// Pops the most recently declared array and returns its segment
    /// together with the cursor for the arrays declared before it.
    pub fn next(self) -> (r: (Segment, SlicesRead))
        requires
            self.wf(),
            self.extents@.len() > 0,
        ensures
            ({
                let (seg, (rest, pos2)) = cursor_step(
                    self.extents@,
                    self.pos as int,
                    self.buflen as int,
                );
                &&& r.0 == seg
                &&& r.0.wf()
                &&& r.1.extents@ == rest
                &&& r.1.pos == pos2
                &&& r.1.buflen == self.buflen
                &&& r.1.wf()
                &&& r.0.base + r.0.count * r.0.elem_size <= r.1.pos
            }),
    {
        proof {
            lemma_cursor_step(self.extents@, self.pos as int, self.buflen as int);
        }
        let mut extents = self.extents;
        let e = match extents.pop() {
            Some(e) => e,
            None => {
                proof {
                    assert(false);
                }
                Extent { count: 0, offset: 0, elem_size: 0, elem_align: 1 }
            },
        };
        let seg = Segment {
            base: self.pos,
            count: e.count,
            elem_size: e.elem_size,
            buflen: self.buflen,
        };
        (seg, SlicesRead { extents, pos: self.pos + e.offset, buflen: self.buflen })
    }
}

} // verus!
