//! The walk over the tagged records of a boot information block.

use vstd::prelude::*;

use crate::multiboot::{limit, MultibootInfo, END_TAG};
use crate::wire::{le_u32, read_u32};

verus! {

/// One tagged record: its type, the length it declares (its own header of
/// eight bytes included), and the offset of that header in the block.
#[derive(Clone, Copy, Debug, PartialEq, Eq, Structural)]
pub struct Tag {
    pub typ: u32,
    pub size: u32,
    pub offset: usize,
}

/// A record's length rounded up to the alignment of records.
pub open spec fn padded(size: u32) -> int {
    (size + 7) / 8 * 8
}

/// The record whose header starts at `cursor`.
pub open spec fn tag_at(data: Seq<u8>, cursor: int) -> Tag {
    Tag { typ: le_u32(data, cursor), size: le_u32(data, cursor + 4), offset: cursor as usize }
}

/// The records met from `cursor` on, in order. The walk ends before an end
/// marker, before a header that would not fit in the block, and after a
/// record that declares no length at all.
///
/// Each step moves the cursor by the record's padded length.
pub open spec fn walk(data: Seq<u8>, cursor: int) -> Seq<Tag>
    decreases limit(data) - cursor,
{
    if cursor < 8 || cursor + 8 > limit(data) {
        Seq::empty()
    } else {
        let tag = tag_at(data, cursor);
        if tag.typ == END_TAG {
            Seq::empty()
        } else if tag.size == 0 || cursor + padded(tag.size) + 8 > limit(data) {
            seq![tag]
        } else {
            seq![tag] + walk(data, cursor + padded(tag.size))
        }
    }
}

/// All records of the block, in order.
pub open spec fn tags_of(data: Seq<u8>) -> Seq<Tag> {
    walk(data, 8)
}

/// The first of `tags` that has type `typ`.
pub open spec fn first_of_type(tags: Seq<Tag>, typ: u32) -> Option<Tag>
    decreases tags.len(),
{
    if tags.len() == 0 {
        None
    } else if tags[0].typ == typ {
        Some(tags[0])
    } else {
        first_of_type(tags.drop_first(), typ)
    }
}

/// The first record of the block that has type `typ`.
pub open spec fn find_tag(data: Seq<u8>, typ: u32) -> Option<Tag> {
    first_of_type(tags_of(data), typ)
}

/// Where a record's bytes end: where it says, or where the block ends if
/// that comes first.
pub open spec fn tag_end(data: Seq<u8>, tag: Tag) -> int {
    if tag.offset + tag.size <= limit(data) {
        tag.offset + tag.size
    } else {
        limit(data)
    }
}

/// Whatever the block holds, every record that the walk meets from `cursor`
/// on is the one that the bytes at its offset encode, and its header lies
/// inside the block.
proof fn lemma_walk_lies_in_block(data: Seq<u8>, cursor: int)
    ensures
        forall|i: int|
            0 <= i < walk(data, cursor).len() ==> {
                let tag = #[trigger] walk(data, cursor)[i];
                &&& cursor <= tag.offset
                &&& tag.offset + 8 <= limit(data)
                &&& tag == tag_at(data, tag.offset as int)
                &&& tag.typ != END_TAG
            },
    decreases limit(data) - cursor,
{
    let tags = walk(data, cursor);
    if tags.len() > 0 {
        let tag = tag_at(data, cursor);
        let next = cursor + padded(tag.size);
        if tag.size == 0 || next + 8 > limit(data) {
            assert(tags =~= seq![tag]);
        } else {
            lemma_walk_lies_in_block(data, next);
            let rest = walk(data, next);
            assert(tags =~= seq![tag] + rest);
            assert forall|i: int| 0 <= i < tags.len() implies {
                let met = #[trigger] tags[i];
                &&& cursor <= met.offset
                &&& met.offset + 8 <= limit(data)
                &&& met == tag_at(data, met.offset as int)
                &&& met.typ != END_TAG
            } by {
                if i > 0 {
                    assert(tags[i] == rest[i - 1]);
                }
            }
        }
    }
}

/// Whatever the block holds, every record that the walk meets is the one
/// that the bytes at its offset encode, and its header lies behind the
/// block's own header and before the block's end: the walk reads nothing
/// beyond the size that the block declares, nor beyond the bytes at hand.
pub proof fn lemma_tags_lie_in_block(data: Seq<u8>)
    ensures
        limit(data) <= data.len(),
        data.len() >= 8 ==> limit(data) <= le_u32(data, 0),
        forall|i: int|
            0 <= i < tags_of(data).len() ==> {
                let tag = #[trigger] tags_of(data)[i];
                &&& 8 <= tag.offset
                &&& tag.offset + 8 <= limit(data)
                &&& tag == tag_at(data, tag.offset as int)
                &&& tag.typ != END_TAG
            },
{
    lemma_walk_lies_in_block(data, 8);
}

/// What `first_of_type` finds is the first of `tags` with that type.
proof fn lemma_first_of_type(tags: Seq<Tag>, typ: u32)
    ensures
        match first_of_type(tags, typ) {
            Some(tag) => exists|i: int|
                0 <= i < tags.len() && #[trigger] tags[i] == tag && tag.typ == typ && forall|j: int|
                    0 <= j < i ==> (#[trigger] tags[j]).typ != typ,
            None => forall|j: int| 0 <= j < tags.len() ==> (#[trigger] tags[j]).typ != typ,
        },
    decreases tags.len(),
{
    if tags.len() > 0 && tags[0].typ != typ {
        let rest = tags.drop_first();
        lemma_first_of_type(rest, typ);
        match first_of_type(rest, typ) {
            Some(tag) => {
                let i = choose|i: int|
                    0 <= i < rest.len() && #[trigger] rest[i] == tag && tag.typ == typ && forall|
                        j: int,
                    |
                        0 <= j < i ==> (#[trigger] rest[j]).typ != typ;
                assert(tags[i + 1] == tag);
                assert forall|j: int| 0 <= j < i + 1 implies (#[trigger] tags[j]).typ != typ by {
                    if j > 0 {
                        assert(tags[j] == rest[j - 1]);
                    }
                }
            },
            None => {
                assert forall|j: int| 0 <= j < tags.len() implies (#[trigger] tags[j]).typ
                    != typ by {
                    if j > 0 {
                        assert(tags[j] == rest[j - 1]);
                    }
                }
            },
        }
    } else if tags.len() > 0 {
        assert(tags[0] == tags[0]);
    }
}

/// The record that is found for a type is the first record of that type
/// that the walk meets; none is found only where the walk meets none.
pub proof fn lemma_find_tag_is_first(data: Seq<u8>, typ: u32)
    ensures
        match find_tag(data, typ) {
            Some(tag) => exists|i: int|
                0 <= i < tags_of(data).len() && #[trigger] tags_of(data)[i] == tag && tag.typ
                    == typ && forall|j: int| 0 <= j < i ==> (#[trigger] tags_of(data)[j]).typ != typ,
            None => forall|j: int|
                0 <= j < tags_of(data).len() ==> (#[trigger] tags_of(data)[j]).typ != typ,
        },
{
    lemma_first_of_type(tags_of(data), typ);
}

/// The padded lengths of `tags`, summed.
pub open spec fn span(tags: Seq<Tag>) -> int
    decreases tags.len(),
{
    if tags.len() == 0 {
        0
    } else {
        padded(tags[0].size) + span(tags.drop_first())
    }
}

/// Whether records follow one another from `cursor` to the end of a block
/// that declares `le_u32(data, 0)` bytes: each at least as long as its own
/// header and, padding included, inside the block; the last of them an end
/// marker of eight bytes, or a record that ends where the block ends.
pub open spec fn valid_from(data: Seq<u8>, cursor: int) -> bool
    decreases le_u32(data, 0) - cursor,
{
    let total = le_u32(data, 0) as int;
    if cursor == total {
        true
    } else if cursor < 8 || cursor + 8 > total {
        false
    } else {
        let tag = tag_at(data, cursor);
        if tag.typ == END_TAG {
            tag.size == 8
        } else {
            &&& tag.size >= 8
            &&& cursor + padded(tag.size) <= total
            &&& valid_from(data, cursor + padded(tag.size))
        }
    }
}

/// Whether `data` holds a well-formed block: all the bytes that its header
/// declares, and after the header a valid stream of records.
pub open spec fn valid_stream(data: Seq<u8>) -> bool {
    &&& 8 <= le_u32(data, 0) <= data.len()
    &&& valid_from(data, 8)
}

/// What the walk does from `cursor` on a valid stream.
proof fn lemma_walk_from(data: Seq<u8>, cursor: int)
    requires
        8 <= le_u32(data, 0) <= data.len(),
        valid_from(data, cursor),
    ensures
        ({
            let tags = walk(data, cursor);
            let total = le_u32(data, 0) as int;
            let stop = cursor + span(tags);
            &&& stop == total || (stop + 8 <= total && tag_at(data, stop).typ == END_TAG)
            &&& tags.len() > 0 ==> tags[0].offset == cursor
            &&& forall|i: int|
                0 <= i < tags.len() ==> (#[trigger] tags[i]).size >= 8 && tags[i].offset + padded(
                    tags[i].size,
                ) <= total
            &&& forall|i: int|
                0 <= i < tags.len() - 1 ==> (#[trigger] tags[i + 1]).offset == tags[i].offset
                    + padded(tags[i].size)
        }),
    decreases le_u32(data, 0) - cursor,
{
    let total = le_u32(data, 0) as int;
    let tags = walk(data, cursor);
    if cursor == total || tag_at(data, cursor).typ == END_TAG {
        assert(tags =~= Seq::<Tag>::empty());
    } else {
        let tag = tag_at(data, cursor);
        let next = cursor + padded(tag.size);
        if next + 8 > limit(data) {
            assert(tags =~= seq![tag]);
            assert(tags.drop_first() =~= Seq::<Tag>::empty());
            assert(span(tags.drop_first()) == 0);
            assert(next == total) by {
                reveal_with_fuel(valid_from, 2);
            }
        } else {
            let rest = walk(data, next);
            lemma_walk_from(data, next);
            assert(tags =~= seq![tag] + rest);
            assert(tags.drop_first() =~= rest);
            assert(span(tags) == padded(tag.size) + span(rest));
            assert forall|i: int| 0 <= i < tags.len() - 1 implies (#[trigger] tags[i + 1]).offset
                == tags[i].offset + padded(tags[i].size) by {
                if i > 0 {
                    assert(tags[i + 1] == rest[i - 1 + 1]);
                    assert(tags[i] == rest[i - 1]);
                }
            }
            assert forall|i: int| 0 <= i < tags.len() implies (#[trigger] tags[i]).size >= 8
                && tags[i].offset + padded(tags[i].size) <= total by {
                if i > 0 {
                    assert(tags[i] == rest[i - 1]);
                }
            }
        }
    }
}

/// On a well-formed block the walk steps from record to record by each
/// record's padded length, starting behind the header, and the lengths add
/// up to the end of the block or to the offset of the end marker. No record
/// that it meets reaches beyond the size that the header declares.
pub proof fn lemma_walk_spans_stream(data: Seq<u8>)
    requires
        valid_stream(data),
    ensures
        ({
            let tags = tags_of(data);
            let total = le_u32(data, 0) as int;
            let stop = 8 + span(tags);
            &&& stop == total || (stop + 8 <= total && tag_at(data, stop).typ == END_TAG)
            &&& tags.len() > 0 ==> tags[0].offset == 8
            &&& forall|i: int|
                0 <= i < tags.len() ==> (#[trigger] tags[i]).size >= 8 && tags[i].offset + padded(
                    tags[i].size,
                ) <= total
            &&& forall|i: int|
                0 <= i < tags.len() - 1 ==> (#[trigger] tags[i + 1]).offset == tags[i].offset
                    + padded(tags[i].size)
        }),
{
    lemma_walk_from(data, 8);
}

impl<'a> MultibootInfo<'a> {
    /// The record at `cursor` and the offset of the next one, if the walk
    /// goes on; `None` where the walk ends.
    fn step(&self, cursor: usize) -> (found: Option<(Tag, Option<usize>)>)
        requires
            8 <= cursor,
        ensures
            match found {
                None => walk(self@, cursor as int) == Seq::<Tag>::empty(),
                Some((tag, None)) => walk(self@, cursor as int) == seq![tag],
                Some((tag, Some(next))) => {
                    &&& walk(self@, cursor as int) == seq![tag] + walk(self@, next as int)
                    &&& cursor < next
                    &&& next + 8 <= limit(self@)
                },
            },
            found matches Some((tag, _)) ==> tag == tag_at(self@, cursor as int) && cursor + 8
                <= limit(self@),
    {
        let end: usize = self.end();
        if end < 8 || cursor > end - 8 {
            return None;
        }
        let data = self.bytes();
        let typ: u32 = read_u32(data, cursor);
        let size: u32 = read_u32(data, cursor + 4);
        if typ == END_TAG {
            return None;
        }
        let tag = Tag { typ, size, offset: cursor };
        if size == 0 {
            return Some((tag, None));
        }
        let advance: u64 = (size as u64 + 7) / 8 * 8;
        let room: u64 = (end - 8 - cursor) as u64;
        if advance > room {
            Some((tag, None))
        } else {
            Some((tag, Some(cursor + advance as usize)))
        }
    }

    /// Where the bytes of `tag` end.
    pub(crate) fn end_of(&self, tag: &Tag) -> (end: usize)
        ensures
            end == tag_end(self@, *tag),
            end <= limit(self@),
    {
        let end: usize = self.end();
        if tag.offset <= end && tag.size as u64 <= (end - tag.offset) as u64 {
            tag.offset + tag.size as usize
        } else {
            end
        }
    }

    /// All records of the block, in order.
    pub fn tags(&self) -> (tags: Vec<Tag>)
        ensures
            tags@ == tags_of(self@),
    {
        let mut tags: Vec<Tag> = Vec::new();
        let mut cursor: usize = 8;
        loop
            invariant_except_break
                8 <= cursor,
                tags_of(self@) == tags@ + walk(self@, cursor as int),
            ensures
                tags@ == tags_of(self@),
            decreases limit(self@) - cursor,
        {
            match self.step(cursor) {
                None => {
                    assert(tags@ + Seq::<Tag>::empty() =~= tags@);
                    break ;
                },
                Some((tag, None)) => {
                    tags.push(tag);
                    break ;
                },
                Some((tag, Some(next))) => {
                    assert(tags@ + (seq![tag] + walk(self@, next as int)) =~= tags@.push(tag)
                        + walk(self@, next as int));
                    tags.push(tag);
                    cursor = next;
                },
            }
        }
        tags
    }

    /// The first record of type `typ`, if the block holds one.
    pub fn find_tag(&self, typ: u32) -> (found: Option<Tag>)
        ensures
            found == find_tag(self@, typ),
    {
        let mut cursor: usize = 8;
        loop
            invariant_except_break
                8 <= cursor,
                find_tag(self@, typ) == first_of_type(walk(self@, cursor as int), typ),
            decreases limit(self@) - cursor,
        {
            match self.step(cursor) {
                None => {
                    return None;
                },
                Some((tag, next)) => {
                    if tag.typ == typ {
                        return Some(tag);
                    }
                    match next {
                        None => {
                            assert(seq![tag].drop_first() =~= Seq::<Tag>::empty());
                            assert(first_of_type(Seq::<Tag>::empty(), typ) == None::<Tag>);
                            return None;
                        },
                        Some(next) => {
                            assert((seq![tag] + walk(self@, next as int)).drop_first() =~= walk(
                                self@,
                                next as int,
                            ));
                            cursor = next;
                        },
                    }
                },
            }
        }
    }
}

} // verus!
