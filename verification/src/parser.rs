use vstd::prelude::*;

use crate::cursor::{spec_be32_at, spec_tag_at, Cursor};
use crate::error::ChunkError;
use crate::tag::{spec_valid_tag, Tag};

verus! {

/// One structural header: a tag and the declared payload size in bytes.
/// The declared size does not include the 8 header bytes themselves.
#[derive(Clone, Copy, PartialEq, Eq, Debug, Structural)]
pub struct IFFHeader {
    pub typeid: Tag,
    pub size: u32,
}

/// What the walker reports for one visited chunk, in visit (pre-)order: a
/// container stands before any of its children.  A chunk first guessed as a
/// container and then rewound is reported as a leaf, with no children.
#[derive(Clone, Copy, PartialEq, Eq, Debug, Structural)]
pub struct Record {
    /// Absolute offset of the chunk's header.
    pub offset: usize,
    /// Nesting level; 0 at the top of the file.
    pub depth: u32,
    pub typeid: Tag,
    pub size: u32,
    /// Whether the payload was walked as a sequence of sub-chunks.
    pub container: bool,
}

/// Outcome of walking one chunk body: the walker's result (the effective
/// consumed length, payload plus padding, on success), the cursor position
/// after the walk, and the records reported for the chunk and its subtree.
pub ghost struct ChunkOutcome {
    pub res: Result<u64, ChunkError>,
    pub end: int,
    pub recs: Seq<Record>,
}

/// Outcome of iterating a container's child range under a byte budget.
pub ghost struct RangeOutcome {
    pub res: Result<(), ChunkError>,
    pub end: int,
    pub recs: Seq<Record>,
}

/// Outcome of a whole top-level parse.
pub ghost struct ParseOutcome {
    pub res: Result<(), ChunkError>,
    pub end: int,
    pub recs: Seq<Record>,
}

/// The container guess: a chunk is presumed a container when its payload
/// begins with a plausible tag (the container marker), a plausible nested
/// header follows, and the nested chunk's declared size leaves room to spare
/// inside the parent payload after the nested header itself.
pub open spec fn spec_guess(sub: Tag, nid: Tag, nlen: u32, size: u32) -> bool {
    spec_valid_tag(sub) && spec_valid_tag(nid) && (nlen as int) < size as int - 8
}

/// The leaf path from the start of the payload: advance by the declared
/// size, then consume one padding byte when the size is odd.  `fail_at` is
/// where the cursor stands if the advance itself fails: the advance moves
/// nothing, so the cursor keeps the position the caller reached before it.
pub open spec fn spec_leaf_from(
    data: Seq<u8>,
    pos: int,
    size: u32,
    rec: Record,
    fail_at: int,
) -> ChunkOutcome {
    if pos + size > data.len() {
        ChunkOutcome { res: Err(ChunkError::TruncatedInput), end: fail_at, recs: seq![rec] }
    } else if size % 2 == 0 {
        ChunkOutcome { res: Ok(size as u64), end: pos + size, recs: seq![rec] }
    } else if pos + size + 1 <= data.len() {
        ChunkOutcome {
            res: Ok((size as int + 1) as u64),
            end: pos + size + 1,
            recs: seq![rec],
        }
    } else {
        ChunkOutcome { res: Err(ChunkError::TruncatedInput), end: pos + size, recs: seq![rec] }
    }
}

/// The walk of one chunk whose header (`tag`, `size`) has just been read:
/// the cursor stands at `pos`, the start of the payload, 8 bytes past the
/// chunk's own offset.
///
/// A payload under 12 bytes cannot hold a container marker and a nested
/// header, so the chunk is a leaf by definition.  Otherwise the walker
/// probes 12 bytes of lookahead; when the guess is positive it gives the
/// nested header back and walks the children from `pos + 4` under a budget
/// of `size - 4` (the marker tag stays consumed), and when the children
/// cannot be walked it discards them and repositions to `pos + size`, the
/// position a direct leaf skip would have reached.
pub open spec fn spec_chunk(data: Seq<u8>, pos: int, tag: Tag, size: u32, depth: u32) -> ChunkOutcome
    recommends
        8 <= pos <= data.len(),
    decreases size as int, 0int,
{
    let leaf_rec = Record {
        offset: (pos - 8) as usize,
        depth,
        typeid: tag,
        size,
        container: false,
    };
    if size < 12 {
        spec_leaf_from(data, pos, size, leaf_rec, pos)
    } else if pos + 4 > data.len() {
        ChunkOutcome { res: Err(ChunkError::TruncatedInput), end: pos, recs: seq![leaf_rec] }
    } else if pos + 8 > data.len() {
        ChunkOutcome { res: Err(ChunkError::TruncatedInput), end: pos + 4, recs: seq![leaf_rec] }
    } else if pos + 12 > data.len() {
        ChunkOutcome { res: Err(ChunkError::TruncatedInput), end: pos + 8, recs: seq![leaf_rec] }
    } else if !spec_guess(
        spec_tag_at(data, pos),
        spec_tag_at(data, pos + 4),
        spec_be32_at(data, pos + 8),
        size,
    ) {
        // the probe consumed 12 bytes; the leaf path skips the rest
        spec_leaf_from(data, pos, size, leaf_rec, pos + 12)
    } else {
        let cont_rec = Record {
            offset: (pos - 8) as usize,
            depth,
            typeid: tag,
            size,
            container: true,
        };
        let sr = spec_range(data, pos + 4, size as int - 4, (depth + 1) as u32);
        match sr.res {
            Ok(_) => {
                if size % 2 == 0 {
                    ChunkOutcome { res: Ok(size as u64), end: sr.end, recs: seq![cont_rec] + sr.recs }
                } else if sr.end + 1 <= data.len() {
                    ChunkOutcome {
                        res: Ok((size as int + 1) as u64),
                        end: sr.end + 1,
                        recs: seq![cont_rec] + sr.recs,
                    }
                } else {
                    ChunkOutcome {
                        res: Err(ChunkError::TruncatedInput),
                        end: sr.end,
                        recs: seq![cont_rec] + sr.recs,
                    }
                }
            },
            Err(_) => spec_leaf_from(data, pos, size, leaf_rec, sr.end),
        }
    }
}

/// The walk of a container's child range: chunks are read from `pos` until
/// the remaining budget reaches exactly zero.  A budget that cannot hold a
/// further header, or a child whose declared extent (or padding) would push
/// the consumed count past the budget, is a structural overrun.  The
/// child's extent is checked against the budget before descending into it.
pub open spec fn spec_range(data: Seq<u8>, pos: int, budget: int, depth: u32) -> RangeOutcome
    recommends
        0 <= pos <= data.len(),
    decreases budget, 1int,
{
    if budget <= 0 {
        RangeOutcome { res: Ok(()), end: pos, recs: Seq::empty() }
    } else if budget < 8 {
        RangeOutcome { res: Err(ChunkError::StructuralOverrun), end: pos, recs: Seq::empty() }
    } else if pos + 4 > data.len() {
        RangeOutcome { res: Err(ChunkError::TruncatedInput), end: pos, recs: Seq::empty() }
    } else if pos + 8 > data.len() {
        RangeOutcome { res: Err(ChunkError::TruncatedInput), end: pos + 4, recs: Seq::empty() }
    } else {
        let ctag = spec_tag_at(data, pos);
        let csize = spec_be32_at(data, pos + 4);
        if csize as int + 8 > budget {
            RangeOutcome {
                res: Err(ChunkError::StructuralOverrun),
                end: pos + 8,
                recs: Seq::empty(),
            }
        } else {
            let co = spec_chunk(data, pos + 8, ctag, csize, depth);
            match co.res {
                Err(e) => RangeOutcome { res: Err(e), end: co.end, recs: co.recs },
                Ok(n) => {
                    if n as int + 8 > budget {
                        RangeOutcome {
                            res: Err(ChunkError::StructuralOverrun),
                            end: co.end,
                            recs: co.recs,
                        }
                    } else {
                        let rest = spec_range(data, co.end, budget - n - 8, depth);
                        RangeOutcome {
                            res: rest.res,
                            end: rest.end,
                            recs: co.recs + rest.recs,
                        }
                    }
                },
            }
        }
    }
}

/// The walk of every top-level chunk from `pos` to the end of the source.
/// Each chunk is walked at depth 0; any failure here is fatal, because there
/// is no enclosing guess left to rewind.
pub open spec fn spec_parse_at(data: Seq<u8>, pos: int) -> ParseOutcome
    recommends
        0 <= pos <= data.len(),
    decreases data.len() - pos,
{
    if pos >= data.len() {
        ParseOutcome { res: Ok(()), end: pos, recs: Seq::empty() }
    } else if pos + 4 > data.len() {
        ParseOutcome { res: Err(ChunkError::TruncatedInput), end: pos, recs: Seq::empty() }
    } else if pos + 8 > data.len() {
        ParseOutcome { res: Err(ChunkError::TruncatedInput), end: pos + 4, recs: Seq::empty() }
    } else {
        let tag = spec_tag_at(data, pos);
        let size = spec_be32_at(data, pos + 4);
        let co = spec_chunk(data, pos + 8, tag, size, 0);
        match co.res {
            Err(e) => ParseOutcome { res: Err(e), end: co.end, recs: co.recs },
            Ok(n) => {
                if pos + 8 + n <= data.len() {
                    let rest = spec_parse_at(data, pos + 8 + n);
                    ParseOutcome { res: rest.res, end: rest.end, recs: co.recs + rest.recs }
                } else {
                    // never taken: a finished chunk never stands past the end
                    ParseOutcome { res: Err(ChunkError::TruncatedInput), end: co.end, recs: co.recs }
                }
            },
        }
    }
}

/// The heuristic IFF parser: a byte cursor, the current nesting depth, and
/// the records of the chunks visited so far.
pub struct IFFParser {
    cur: Cursor,
    depth: u32,
    records: Vec<Record>,
}

impl IFFParser {
    /// The bytes of the source being walked.
    pub closed spec fn spec_data(self) -> Seq<u8> {
        self.cur.spec_data()
    }

    /// The cursor's absolute offset.
    pub closed spec fn spec_pos(self) -> int {
        self.cur.spec_pos()
    }

    /// The current nesting depth.
    pub closed spec fn spec_depth(self) -> u32 {
        self.depth
    }

    /// The records reported so far, in visit order.
    pub closed spec fn spec_records(self) -> Seq<Record> {
        self.records@
    }

    pub open spec fn wf(self) -> bool {
        0 <= self.spec_pos() <= self.spec_data().len()
    }

    /// A parser over an in-memory byte source, standing at its start.
    pub fn cursor(data: Vec<u8>) -> (p: IFFParser)
        ensures
            p.wf(),
            p.spec_data() == data@,
            p.spec_pos() == 0,
            p.spec_depth() == 0,
            p.spec_records() == Seq::<Record>::empty(),
    {
        IFFParser { cur: Cursor::new(data), depth: 0, records: Vec::new() }
    }

    /// Absolute position of the cursor.
    pub fn position(&self) -> (p: usize)
        ensures
            p as int == self.spec_pos(),
    {
        self.cur.position()
    }

    /// Total length of the source.
    pub fn len(&self) -> (n: usize)
        ensures
            n as int == self.spec_data().len(),
    {
        self.cur.len()
    }

    /// The nesting depth the walker currently stands at; 0 at the top.
    pub fn depth(&self) -> (d: u32)
        ensures
            d == self.spec_depth(),
    {
        self.depth
    }

    /// The records of the chunks visited so far, in visit order.
    pub fn records(&self) -> (r: &Vec<Record>)
        ensures
            r@ == self.spec_records(),
    {
        &self.records
    }

    /// Advance the cursor over `n` opaque bytes.
    pub fn skip(&mut self, n: usize) -> (r: Result<(), ChunkError>)
        requires
            old(self).wf(),
        ensures
            final(self).wf(),
            final(self).spec_data() == old(self).spec_data(),
            final(self).spec_depth() == old(self).spec_depth(),
            final(self).spec_records() == old(self).spec_records(),
            old(self).spec_pos() + n <= old(self).spec_data().len() ==> r == Ok::<(), ChunkError>(
                (),
            ) && final(self).spec_pos() == old(self).spec_pos() + n,
            old(self).spec_pos() + n > old(self).spec_data().len() ==> r == Err::<(), ChunkError>(
                ChunkError::TruncatedInput,
            ) && final(self).spec_pos() == old(self).spec_pos(),
    {
        self.cur.skip(n)
    }

    /// Reposition the cursor to an absolute offset.
    pub fn seek(&mut self, to: usize) -> (r: Result<(), ChunkError>)
        requires
            old(self).wf(),
        ensures
            final(self).wf(),
            final(self).spec_data() == old(self).spec_data(),
            final(self).spec_depth() == old(self).spec_depth(),
            final(self).spec_records() == old(self).spec_records(),
            to <= old(self).spec_data().len() ==> r == Ok::<(), ChunkError>(())
                && final(self).spec_pos() == to as int,
            to > old(self).spec_data().len() ==> r == Err::<(), ChunkError>(
                ChunkError::TruncatedInput,
            ) && final(self).spec_pos() == old(self).spec_pos(),
    {
        self.cur.seek(to)
    }

    /// Read one structural header at the current position: a 4-byte tag and
    /// a big-endian 32-bit size.  Consumes exactly 8 bytes, or fails with
    /// `TruncatedInput` when fewer than 8 remain; no validation happens
    /// here, because the same decoder serves speculative lookahead.
    pub fn header(&mut self) -> (r: Result<IFFHeader, ChunkError>)
        requires
            old(self).wf(),
        ensures
            final(self).wf(),
            final(self).spec_data() == old(self).spec_data(),
            final(self).spec_depth() == old(self).spec_depth(),
            final(self).spec_records() == old(self).spec_records(),
            old(self).spec_pos() + 8 <= old(self).spec_data().len() ==> r == Ok::<
                IFFHeader,
                ChunkError,
            >(
                (IFFHeader {
                    typeid: spec_tag_at(old(self).spec_data(), old(self).spec_pos()),
                    size: spec_be32_at(old(self).spec_data(), old(self).spec_pos() + 4),
                }),
            ) && final(self).spec_pos() == old(self).spec_pos() + 8,
            old(self).spec_pos() + 4 <= old(self).spec_data().len() < old(self).spec_pos() + 8
                ==> r == Err::<IFFHeader, ChunkError>(ChunkError::TruncatedInput)
                && final(self).spec_pos() == old(self).spec_pos() + 4,
            old(self).spec_pos() + 4 > old(self).spec_data().len() ==> r == Err::<
                IFFHeader,
                ChunkError,
            >(ChunkError::TruncatedInput) && final(self).spec_pos() == old(self).spec_pos(),
    {
        let typeid = match self.cur.read_tag() {
            Ok(t) => t,
            Err(e) => {
                return Err(e);
            },
        };
        let size = match self.cur.read_be_u32() {
            Ok(s) => s,
            Err(e) => {
                return Err(e);
            },
        };
        Ok(IFFHeader { typeid, size })
    }

    /// The strict, non-heuristic variant of the header step: read a header
    /// and demand a specific tag, failing with `UnexpectedTag` otherwise.
    pub fn expect(&mut self, want: Tag) -> (r: Result<IFFHeader, ChunkError>)
        requires
            old(self).wf(),
        ensures
            final(self).wf(),
            final(self).spec_data() == old(self).spec_data(),
            final(self).spec_depth() == old(self).spec_depth(),
            final(self).spec_records() == old(self).spec_records(),
            old(self).spec_pos() + 8 <= old(self).spec_data().len() ==> final(self).spec_pos()
                == old(self).spec_pos() + 8 && (if spec_tag_at(
                old(self).spec_data(),
                old(self).spec_pos(),
            ) == want {
                r == Ok::<IFFHeader, ChunkError>(
                    (IFFHeader {
                        typeid: want,
                        size: spec_be32_at(old(self).spec_data(), old(self).spec_pos() + 4),
                    }),
                )
            } else {
                r == Err::<IFFHeader, ChunkError>(ChunkError::UnexpectedTag)
            }),
            old(self).spec_pos() + 4 <= old(self).spec_data().len() < old(self).spec_pos() + 8
                ==> r == Err::<IFFHeader, ChunkError>(ChunkError::TruncatedInput)
                && final(self).spec_pos() == old(self).spec_pos() + 4,
            old(self).spec_pos() + 4 > old(self).spec_data().len() ==> r == Err::<
                IFFHeader,
                ChunkError,
            >(ChunkError::TruncatedInput) && final(self).spec_pos() == old(self).spec_pos(),
    {
        let h = match self.header() {
            Ok(h) => h,
            Err(e) => {
                return Err(e);
            },
        };
        if h.typeid == want {
            Ok(h)
        } else {
            Err(ChunkError::UnexpectedTag)
        }
    }

    /// Walk one chunk whose header `h` has just been read, the cursor
    /// standing at the start of its payload: guess container against leaf,
    /// descend or skip, apply alignment padding, and rewind to the leaf
    /// interpretation when a positive guess fails partway through.  Returns
    /// the effective consumed length: the declared size rounded up to even.
    ///
    /// The depth bound in the requires is the machine limit on the
    /// diagnostic counter: each level of nesting costs at least 12 declared
    /// bytes, so the bound is inductive across the descent.
    pub fn heuristic(&mut self, h: &IFFHeader) -> (r: Result<u64, ChunkError>)
        requires
            old(self).wf(),
            old(self).spec_pos() >= 8,
            old(self).spec_depth() as int + h.size as int / 12 <= u32::MAX as int,
        ensures
            final(self).wf(),
            final(self).spec_data() == old(self).spec_data(),
            final(self).spec_depth() == old(self).spec_depth(),
            ({
                let co = spec_chunk(
                    old(self).spec_data(),
                    old(self).spec_pos(),
                    h.typeid,
                    h.size,
                    old(self).spec_depth(),
                );
                r == co.res && final(self).spec_pos() == co.end && final(self).spec_records()
                    == old(self).spec_records() + co.recs
            }),
        decreases h.size as int, 0int,
    {
        let ghost data0 = old(self).spec_data();
        let ghost pos0 = old(self).spec_pos();
        let ghost depth0 = old(self).spec_depth();
        let ghost recs0 = old(self).spec_records();
        let ghost co = spec_chunk(data0, pos0, h.typeid, h.size, depth0);
        let pos = self.cur.position();
        let base = self.records.len();
        let leaf_rec = Record {
            offset: pos - 8,
            depth: self.depth,
            typeid: h.typeid,
            size: h.size,
            container: false,
        };
        self.records.push(leaf_rec);
        proof {
            assert(self.spec_records() =~= recs0 + seq![leaf_rec]);
        }
        if h.size >= 12 {
            // speculative probe: a candidate container marker and a
            // candidate nested header
            let sub = match self.cur.read_tag() {
                Ok(t) => t,
                Err(e) => {
                    return Err(e);
                },
            };
            let nid = match self.cur.read_tag() {
                Ok(t) => t,
                Err(e) => {
                    return Err(e);
                },
            };
            let nlen = match self.cur.read_be_u32() {
                Ok(v) => v,
                Err(e) => {
                    return Err(e);
                },
            };
            if sub.is_valid() && nid.is_valid() && nlen < h.size - 8 {
                // presumed container: give the nested header back and walk
                // the children, keeping the marker tag consumed
                let cont_rec = Record {
                    offset: pos - 8,
                    depth: self.depth,
                    typeid: h.typeid,
                    size: h.size,
                    container: true,
                };
                self.records.truncate(base);
                self.records.push(cont_rec);
                proof {
                    assert(self.spec_records() =~= recs0 + seq![cont_rec]);
                }
                match self.cur.rewind(8) {
                    Ok(_) => {},
                    Err(e) => {
                        // never taken: the probe advanced the cursor 12 bytes
                        proof {
                            assert(false);
                        }
                        return Err(e);
                    },
                }
                let ghost sr = spec_range(
                    data0,
                    pos0 + 4,
                    h.size as int - 4,
                    (depth0 + 1) as u32,
                );
                proof {
                    vstd::arithmetic::div_mod::lemma_div_is_ordered(12, h.size as int, 12);
                }
                match self.subchunks(h.size as u64 - 4) {
                    Ok(_) => {
                        proof {
                            assert(self.spec_records() =~= recs0 + (seq![cont_rec] + sr.recs));
                        }
                    },
                    Err(e) => {
                        // false positive: discard the subtree and treat the
                        // whole chunk as an opaque leaf after all
                        self.records.truncate(base);
                        self.records.push(leaf_rec);
                        proof {
                            assert(self.spec_records() =~= recs0 + seq![leaf_rec]);
                        }
                        let n = self.cur.len();
                        if h.size as usize <= n - pos {
                            match self.cur.seek(pos + h.size as usize) {
                                Ok(_) => {},
                                Err(e2) => {
                                    // never taken: the target was just checked
                                    proof {
                                        assert(false);
                                    }
                                    return Err(e2);
                                },
                            }
                        } else {
                            return Err(ChunkError::TruncatedInput);
                        }
                    },
                }
            } else {
                // unknown chunk: the only thing left to do is skip the rest
                match self.cur.skip((h.size - 12) as usize) {
                    Ok(_) => {},
                    Err(e) => {
                        return Err(e);
                    },
                }
            }
        } else {
            // too small to contain a nested header: a leaf by definition
            match self.cur.skip(h.size as usize) {
                Ok(_) => {},
                Err(e) => {
                    return Err(e);
                },
            }
        }
        // chunks of this family align to even offsets
        if h.size % 2 == 0 {
            Ok(h.size as u64)
        } else {
            match self.cur.skip(1) {
                Ok(_) => Ok(h.size as u64 + 1),
                Err(e) => Err(e),
            }
        }
    }

    /// Enter a container's children: the depth rises for the duration of
    /// the range walk and falls again on every exit path.
    pub fn subchunks(&mut self, budget: u64) -> (r: Result<(), ChunkError>)
        requires
            old(self).wf(),
            old(self).spec_depth() < u32::MAX,
            old(self).spec_depth() as int + (budget as int + 4) / 12 <= u32::MAX as int,
        ensures
            final(self).wf(),
            final(self).spec_data() == old(self).spec_data(),
            final(self).spec_depth() == old(self).spec_depth(),
            ({
                let sr = spec_range(
                    old(self).spec_data(),
                    old(self).spec_pos(),
                    budget as int,
                    (old(self).spec_depth() + 1) as u32,
                );
                r == sr.res && final(self).spec_pos() == sr.end && final(self).spec_records()
                    == old(self).spec_records() + sr.recs
            }),
        decreases budget as int, 2int,
    {
        self.depth = self.depth + 1;
        let r = self.walk_range(budget);
        self.depth = self.depth - 1;
        r
    }

    /// One pass over a child range: read a header, check the child against
    /// the remaining budget, walk it, and repeat on what is left.
    fn walk_range(&mut self, remaining: u64) -> (r: Result<(), ChunkError>)
        requires
            old(self).wf(),
            old(self).spec_depth() as int + (remaining as int + 4) / 12 <= u32::MAX as int + 1,
        ensures
            final(self).wf(),
            final(self).spec_data() == old(self).spec_data(),
            final(self).spec_depth() == old(self).spec_depth(),
            ({
                let sr = spec_range(
                    old(self).spec_data(),
                    old(self).spec_pos(),
                    remaining as int,
                    old(self).spec_depth(),
                );
                r == sr.res && final(self).spec_pos() == sr.end && final(self).spec_records()
                    == old(self).spec_records() + sr.recs
            }),
        decreases remaining as int, 1int,
    {
        let ghost data0 = old(self).spec_data();
        let ghost pos0 = old(self).spec_pos();
        let ghost d = old(self).spec_depth();
        let ghost recs0 = old(self).spec_records();
        let ghost sr = spec_range(data0, pos0, remaining as int, d);
        if remaining == 0 {
            proof {
                assert(recs0 + sr.recs =~= recs0);
            }
            return Ok(());
        }
        if remaining < 8 {
            proof {
                assert(recs0 + sr.recs =~= recs0);
            }
            return Err(ChunkError::StructuralOverrun);
        }
        let h = match self.header() {
            Ok(h) => h,
            Err(e) => {
                proof {
                    assert(recs0 + sr.recs =~= recs0);
                }
                return Err(e);
            },
        };
        if h.size as u64 > remaining - 8 {
            proof {
                assert(recs0 + sr.recs =~= recs0);
            }
            return Err(ChunkError::StructuralOverrun);
        }
        let ghost co = spec_chunk(data0, pos0 + 8, h.typeid, h.size, d);
        proof {
            vstd::arithmetic::div_mod::lemma_div_is_ordered(
                h.size as int + 12,
                remaining as int + 4,
                12,
            );
            vstd::arithmetic::div_mod::lemma_div_plus_one(h.size as int, 12);
        }
        let n = match self.heuristic(&h) {
            Ok(n) => n,
            Err(e) => {
                return Err(e);
            },
        };
        if n > remaining - 8 {
            return Err(ChunkError::StructuralOverrun);
        }
        let ghost rest = spec_range(data0, co.end, remaining as int - n - 8, d);
        proof {
            vstd::arithmetic::div_mod::lemma_div_is_ordered(
                remaining as int - n - 8 + 4,
                remaining as int + 4,
                12,
            );
        }
        let r = self.walk_range(remaining - 8 - n);
        proof {
            assert(self.spec_records() =~= recs0 + (co.recs + rest.recs));
        }
        r
    }

    /// The top-level entry point: walk chunks from the current position to
    /// the end of the source, each at depth 0.  On success the returned
    /// final position equals the total length of the source.  Any failure
    /// here is fatal and surfaced as-is, with the cursor standing where the
    /// failing step left it.
    #[verifier::loop_isolation(false)]
    pub fn parse(&mut self) -> (r: Result<usize, ChunkError>)
        requires
            old(self).wf(),
            old(self).spec_depth() == 0,
        ensures
            final(self).wf(),
            final(self).spec_data() == old(self).spec_data(),
            final(self).spec_depth() == 0,
            ({
                let po = spec_parse_at(old(self).spec_data(), old(self).spec_pos());
                &&& final(self).spec_pos() == po.end
                &&& final(self).spec_records() == old(self).spec_records() + po.recs
                &&& (po.res is Ok ==> r is Ok && r->Ok_0 as int == po.end && po.end == old(
                    self,
                ).spec_data().len())
                &&& (po.res is Err ==> r == Err::<usize, ChunkError>(po.res->Err_0))
            }),
    {
        let ghost data0 = old(self).spec_data();
        let ghost pos0 = old(self).spec_pos();
        let ghost recs0 = old(self).spec_records();
        let ghost po = spec_parse_at(data0, pos0);
        loop
            invariant
                self.wf(),
                self.spec_data() == data0,
                self.spec_depth() == 0,
                ({
                    let sub = spec_parse_at(data0, self.spec_pos());
                    po.res == sub.res && po.end == sub.end && recs0 + po.recs
                        == self.spec_records() + sub.recs
                }),
            decreases data0.len() - self.spec_pos(),
        {
            let pos = self.cur.position();
            let n = self.cur.len();
            if pos >= n {
                break ;
            }
            let ghost recs_head = self.spec_records();
            let h = match self.header() {
                Ok(h) => h,
                Err(e) => {
                    proof {
                        let sub = spec_parse_at(data0, pos as int);
                        assert(self.spec_records() + sub.recs =~= self.spec_records());
                    }
                    return Err(e);
                },
            };
            proof {
                vstd::arithmetic::div_mod::lemma_div_is_ordered(
                    h.size as int,
                    u32::MAX as int,
                    12,
                );
            }
            let ghost co = spec_chunk(data0, pos as int + 8, h.typeid, h.size, 0);
            match self.heuristic(&h) {
                Ok(k) => {
                    proof {
                        crate::laws::lemma_alignment(data0, pos as int + 8, h.typeid, h.size, 0);
                        let sub_new = spec_parse_at(data0, self.spec_pos());
                        assert(recs_head + (co.recs + sub_new.recs) =~= (recs_head + co.recs)
                            + sub_new.recs);
                    }
                },
                Err(e) => {
                    return Err(e);
                },
            }
        }
        proof {
            let sub = spec_parse_at(data0, self.spec_pos());
            assert(self.spec_records() + sub.recs =~= self.spec_records());
        }
        Ok(self.cur.position())
    }
}

} // verus!
