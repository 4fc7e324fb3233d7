//! Runs of records of one width, as the memory map and the table of section
//! headers hold them.

use vstd::prelude::*;

use crate::wire::lemma_len_fits;

verus! {

/// How many records `stride` bytes apart lie whole in `room` bytes, where a
/// record must be at least `width` bytes wide to be read at all.
pub open spec fn whole_records(room: int, stride: int, width: int) -> nat {
    if room < 0 || stride < width || stride <= 0 {
        0
    } else {
        (room / stride) as nat
    }
}

/// The offsets of `count` records that lie `stride` bytes apart, the first
/// at `first`.
pub open spec fn offsets_from(first: int, stride: int, count: nat) -> Seq<int> {
    Seq::new(count, |i: int| first + i * stride)
}

/// A cursor over a run of records in a block.
pub struct Records<'a> {
    data: &'a [u8],
    cursor: usize,
    stride: usize,
    width: usize,
    remaining: usize,
}

impl<'a> Records<'a> {
    #[verifier::type_invariant]
    spec fn fits(self) -> bool {
        &&& 0 < self.width <= self.stride
        &&& self.cursor + self.remaining * self.stride <= self.data@.len()
    }

    /// The block.
    pub closed spec fn data(&self) -> Seq<u8> {
        self.data@
    }

    /// The fewest bytes that a record of this run has.
    pub closed spec fn width(&self) -> int {
        self.width as int
    }

    /// The offsets of the records still to come.
    pub closed spec fn offsets(&self) -> Seq<int> {
        offsets_from(self.cursor as int, self.stride as int, self.remaining as nat)
    }

    /// The bytes of the block.
    pub(crate) fn bytes(&self) -> (data: &'a [u8])
        ensures
            data@ == self.data(),
    {
        self.data
    }

    /// A run without records.
    pub(crate) fn none(data: &'a [u8], width: usize) -> (records: Records<'a>)
        requires
            0 < width,
        ensures
            records.data() == data@,
            records.width() == width,
            records.offsets() == Seq::<int>::empty(),
    {
        let records = Records { data, cursor: 0, stride: width, width, remaining: 0 };
        assert(records.offsets() =~= Seq::<int>::empty());
        records
    }

    /// The records that lie whole between `first` and `end`, `stride` bytes
    /// apart.
    pub(crate) fn between(
        data: &'a [u8],
        first: usize,
        end: usize,
        stride: usize,
        width: usize,
    ) -> (records: Records<'a>)
        requires
            0 < width,
            end <= data@.len(),
        ensures
            records.data() == data@,
            records.width() == width,
            records.offsets() == offsets_from(
                first as int,
                stride as int,
                whole_records(end - first, stride as int, width as int),
            ),
    {
        if first > end || stride < width {
            let records = Records { data, cursor: 0, stride: width, width, remaining: 0 };
            assert(records.offsets() =~= offsets_from(first as int, stride as int, 0));
            return records;
        }
        let room: usize = end - first;
        let remaining: usize = room / stride;
        assert(remaining * stride <= room) by (nonlinear_arith)
            requires
                remaining == room / stride,
                stride > 0,
                room >= 0,
        ;
        Records { data, cursor: first, stride, width, remaining }
    }

    /// The first `at_most` of the records, or all of them if they are fewer.
    pub(crate) fn limited(self, at_most: usize) -> (records: Records<'a>)
        ensures
            records.data() == self.data(),
            records.width() == self.width(),
            records.offsets() == if at_most <= self.offsets().len() {
                self.offsets().take(at_most as int)
            } else {
                self.offsets()
            },
    {
        proof {
            use_type_invariant(&self);
        }
        if at_most >= self.remaining {
            return self;
        }
        assert(at_most * self.stride <= self.remaining * self.stride) by (nonlinear_arith)
            requires
                0 <= at_most <= self.remaining,
                self.stride > 0,
        ;
        let records = Records {
            data: self.data,
            cursor: self.cursor,
            stride: self.stride,
            width: self.width,
            remaining: at_most,
        };
        assert(records.offsets() =~= self.offsets().take(at_most as int));
        records
    }

    /// The offset of the next record, if one is left, without moving on.
    pub(crate) fn peek(&self) -> (offset: Option<usize>)
        ensures
            self.offsets().len() == 0 ==> offset is None,
            self.offsets().len() > 0 ==> offset is Some && offset->0 == self.offsets()[0],
            offset is Some ==> offset->0 + self.width() <= self.data().len(),
    {
        proof {
            use_type_invariant(self);
        }
        if self.remaining == 0 {
            None
        } else {
            let ghost stride = self.stride as int;
            let ghost remaining = self.remaining as int;
            assert(remaining * stride >= stride) by (nonlinear_arith)
                requires
                    remaining >= 1,
                    stride >= 0,
            ;
            assert(self.offsets()[0] == self.cursor + 0 * stride);
            Some(self.cursor)
        }
    }

    /// The offset of the next record, if one is left. The record lies whole
    /// in the block.
    pub(crate) fn next(&mut self) -> (offset: Option<usize>)
        ensures
            final(self).data() == old(self).data(),
            final(self).width() == old(self).width(),
            old(self).offsets().len() == 0 ==> offset is None && final(self).offsets() == old(
                self,
            ).offsets(),
            old(self).offsets().len() > 0 ==> offset is Some && offset->0 == old(
                self,
            ).offsets()[0] && final(self).offsets() == old(self).offsets().drop_first(),
            offset is Some ==> offset->0 + old(self).width() <= old(self).data().len(),
        no_unwind
    {
        proof {
            use_type_invariant(&*self);
            lemma_len_fits(self.data);
        }
        if self.remaining == 0 {
            return None;
        }
        let ghost before = self.offsets();
        let ghost stride = self.stride as int;
        let ghost remaining = self.remaining as int;
        assert(remaining * stride == stride + (remaining - 1) * stride) by (nonlinear_arith);
        assert((remaining - 1) * stride >= 0) by (nonlinear_arith)
            requires
                remaining >= 1,
                stride >= 0,
        ;
        let offset: usize = self.cursor;
        assert(before[0] == offset + 0 * stride);
        self.remaining = self.remaining - 1;
        self.cursor = self.cursor + self.stride;
        assert(self.offsets() =~= before.drop_first()) by {
            assert forall|i: int| 0 <= i < remaining - 1 implies self.offsets()[i] == before[i
                + 1] by {
                assert((i + 1) * stride == i * stride + stride) by (nonlinear_arith);
            }
        }
        Some(offset)
    }
}

} // verus!
