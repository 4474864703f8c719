use vstd::prelude::*;

use crate::cursor::{spec_be32_at, spec_tag_at};
use crate::parser::{spec_chunk, spec_guess, spec_leaf_from, spec_range, Record};
use crate::tag::Tag;
use vstd::arithmetic::div_mod::{lemma_div_is_ordered, lemma_div_plus_one};

verus! {

/// Alignment invariant: when the walk of a chunk succeeds, the effective
/// consumed length is the declared size rounded up to the next even number,
/// and the cursor ends exactly that many bytes past the payload start — so
/// the position after a chunk is always even relative to its payload start.
pub proof fn lemma_alignment(data: Seq<u8>, pos: int, tag: Tag, size: u32, depth: u32)
    ensures
        ({
            let co = spec_chunk(data, pos, tag, size, depth);
            co.res is Ok ==> co.res->Ok_0 as int == size as int + (size as int % 2) && co.end
                == pos + co.res->Ok_0 && (co.end - pos) % 2 == 0
        }),
    decreases size as int, 0int,
{
    if size >= 12 && pos + 12 <= data.len() && spec_guess(
        spec_tag_at(data, pos),
        spec_tag_at(data, pos + 4),
        spec_be32_at(data, pos + 8),
        size,
    ) {
        lemma_containment(data, pos + 4, size as int - 4, (depth + 1) as u32);
    }
}

/// Containment invariant: when the walk of a child range succeeds, the
/// children's effective consumed lengths (headers, payloads and padding)
/// sum to exactly the byte budget the parent granted — children never
/// overrun the parent's declared extent, and a child that would is
/// surfaced as `StructuralOverrun` by the range walk instead.
pub proof fn lemma_containment(data: Seq<u8>, pos: int, budget: int, depth: u32)
    requires
        0 <= budget,
    ensures
        ({
            let sr = spec_range(data, pos, budget, depth);
            sr.res is Ok ==> sr.end == pos + budget
        }),
    decreases budget, 1int,
{
    if budget >= 8 && pos + 8 <= data.len() {
        let ctag = spec_tag_at(data, pos);
        let csize = spec_be32_at(data, pos + 4);
        if csize as int + 8 <= budget {
            let co = spec_chunk(data, pos + 8, ctag, csize, depth);
            lemma_alignment(data, pos + 8, ctag, csize, depth);
            if co.res is Ok {
                let n = co.res->Ok_0;
                if n as int + 8 <= budget {
                    lemma_containment(data, co.end, budget - n - 8, depth);
                }
            }
        }
    }
}

/// Rewind correctness: when the container guess is positive but the range
/// walk of the presumed children fails, and the source still holds the
/// chunk's declared extent, the walk of the chunk is observably identical
/// to the direct leaf walk — same result, same final cursor position, and
/// the one leaf record with no children.
pub proof fn lemma_rewind_equivalence(data: Seq<u8>, pos: int, tag: Tag, size: u32, depth: u32)
    requires
        size >= 12,
        pos + 12 <= data.len(),
        spec_guess(
            spec_tag_at(data, pos),
            spec_tag_at(data, pos + 4),
            spec_be32_at(data, pos + 8),
            size,
        ),
        spec_range(data, pos + 4, size as int - 4, (depth + 1) as u32).res is Err,
        pos + size <= data.len(),
    ensures
        spec_chunk(data, pos, tag, size, depth) == spec_leaf_from(
            data,
            pos,
            size,
            (Record {
                offset: (pos - 8) as usize,
                depth,
                typeid: tag,
                size,
                container: false,
            }),
            pos,
        ),
{
}

/// Depth correctness, chunk side: the chunk's own record carries the depth
/// it was walked at; every record of its subtree lies strictly deeper; and
/// when children were kept, the first child's record lies exactly one level
/// deeper.  The depth bound is the same machine limit the walker carries.
pub proof fn lemma_chunk_depths(data: Seq<u8>, pos: int, tag: Tag, size: u32, depth: u32)
    requires
        depth as int + size as int / 12 <= u32::MAX as int,
    ensures
        ({
            let co = spec_chunk(data, pos, tag, size, depth);
            co.recs.len() >= 1 && co.recs[0].depth == depth && (forall|i: int|
                1 <= i < co.recs.len() ==> #[trigger] co.recs[i].depth > depth) && (co.recs.len()
                >= 2 ==> co.recs[1].depth == depth + 1)
        }),
    decreases size as int, 0int,
{
    if size >= 12 && pos + 12 <= data.len() && spec_guess(
        spec_tag_at(data, pos),
        spec_tag_at(data, pos + 4),
        spec_be32_at(data, pos + 8),
        size,
    ) {
        lemma_div_is_ordered(12, size as int, 12);
        lemma_range_depths(data, pos + 4, size as int - 4, (depth + 1) as u32);
    }
}

/// Depth correctness, range side: every record reported while iterating a
/// child range lies at the range's depth or deeper, and the first one — a
/// child's own record — lies at exactly the range's depth.
pub proof fn lemma_range_depths(data: Seq<u8>, pos: int, budget: int, depth: u32)
    requires
        depth as int + (budget + 4) / 12 <= u32::MAX as int + 1,
    ensures
        ({
            let sr = spec_range(data, pos, budget, depth);
            (forall|i: int| 0 <= i < sr.recs.len() ==> #[trigger] sr.recs[i].depth >= depth) && (
            sr.recs.len() >= 1 ==> sr.recs[0].depth == depth)
        }),
    decreases budget, 1int,
{
    if budget >= 8 && pos + 8 <= data.len() {
        let ctag = spec_tag_at(data, pos);
        let csize = spec_be32_at(data, pos + 4);
        if csize as int + 8 <= budget {
            let co = spec_chunk(data, pos + 8, ctag, csize, depth);
            lemma_div_is_ordered(csize as int + 12, budget + 4, 12);
            lemma_div_plus_one(csize as int, 12);
            lemma_chunk_depths(data, pos + 8, ctag, csize, depth);
            if co.res is Ok {
                let n = co.res->Ok_0;
                if n as int + 8 <= budget {
                    lemma_div_is_ordered(budget - n - 8 + 4, budget + 4, 12);
                    lemma_range_depths(data, co.end, budget - n - 8, depth);
                }
            }
        }
    }
}

} // verus!
