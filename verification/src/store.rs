//! The in-memory header store: one header per block number, point lookup,
//! the best number, and the range walk that answers header requests.

use std::collections::HashMap;
use vstd::prelude::*;
use crate::header::{BlockBody, BlockHeader, BlockId, BlockNumber, H256};

verus! {

broadcast use vstd::std_specs::hash::group_hash_axioms;

/// The signed distance between two headers of a walk: `skip + 1`, negative when
/// the walk runs towards the genesis block.
pub open spec fn walk_step(skip: u64, reverse: bool) -> int {
    if reverse {
        -(skip + 1)
    } else {
        skip + 1
    }
}

/// Whether `cursor` is a block number at which `headers` holds a header.
pub open spec fn hit(headers: Map<BlockNumber, BlockHeader>, cursor: int) -> bool {
    0 <= cursor <= u64::MAX && headers.contains_key(cursor as u64)
}

/// The headers met by a walk that starts at `cursor`, moves by `step` and takes
/// at most `limit` headers: it ends at the first cursor without a header, and a
/// cursor outside the range of block numbers has none.
pub open spec fn range_walk(
    headers: Map<BlockNumber, BlockHeader>,
    cursor: int,
    step: int,
    limit: nat,
) -> Seq<BlockHeader>
    decreases limit,
{
    if limit == 0 || !hit(headers, cursor) {
        Seq::empty()
    } else {
        seq![headers[cursor as u64]] + range_walk(headers, cursor + step, step, (limit - 1) as nat)
    }
}

/// What a header request returns from a store that holds `headers`.
pub open spec fn requested(
    headers: Map<BlockNumber, BlockHeader>,
    block_id: BlockId,
    max_header: u64,
    skip: u64,
    reverse: bool,
) -> Seq<BlockHeader> {
    match block_id {
        BlockId::Hash(_) => Seq::empty(),
        BlockId::Number(n) => range_walk(
            headers,
            n as int,
            walk_step(skip, reverse),
            max_header as nat,
        ),
    }
}

/// Whether every header of `headers` is filed under its own number.
pub open spec fn filed_by_number(headers: Map<BlockNumber, BlockHeader>) -> bool {
    forall|k: BlockNumber| #[trigger] headers.contains_key(k) ==> headers[k].number == k
}

/// What a point lookup at `number` returns from a store that holds `headers`.
pub open spec fn lookup(headers: Map<BlockNumber, BlockHeader>, number: BlockNumber) -> Option<
    BlockHeader,
> {
    if headers.contains_key(number) {
        Some(headers[number])
    } else {
        None
    }
}

/// Whether `best` is the largest key of `headers`, or `None` for no key at all.
pub open spec fn is_best(headers: Map<BlockNumber, BlockHeader>, best: Option<BlockNumber>) -> bool {
    match best {
        None => forall|k: BlockNumber| !headers.contains_key(k),
        Some(b) => headers.contains_key(b) && forall|k: BlockNumber|
            headers.contains_key(k) ==> k <= b,
    }
}

/// Whether the `i`-th header of `walk` is the one that `headers` holds at
/// `cursor + i * step`.
pub open spec fn taken_at(
    headers: Map<BlockNumber, BlockHeader>,
    cursor: int,
    step: int,
    walk: Seq<BlockHeader>,
    i: int,
) -> bool {
    hit(headers, cursor + i * step) && walk[i] == headers[(cursor + i * step) as u64]
}

/// A walk is pinned down by its start, its step and its limit: it takes at most
/// `limit` headers, its `i`-th header is the one stored at `cursor + i * step`,
/// and if it took fewer than `limit`, the next cursor has no header (or lies
/// outside the block numbers, as after an underflow of a downward walk).
pub proof fn lemma_walk_shape(
    headers: Map<BlockNumber, BlockHeader>,
    cursor: int,
    step: int,
    limit: nat,
)
    ensures
        range_walk(headers, cursor, step, limit).len() <= limit,
        forall|i: int|
            0 <= i < range_walk(headers, cursor, step, limit).len() ==> #[trigger] taken_at(
                headers,
                cursor,
                step,
                range_walk(headers, cursor, step, limit),
                i,
            ),
        range_walk(headers, cursor, step, limit).len() < limit ==> !hit(
            headers,
            cursor + range_walk(headers, cursor, step, limit).len() * step,
        ),
    decreases limit,
{
    let walk = range_walk(headers, cursor, step, limit);
    if limit == 0 || !hit(headers, cursor) {
        assert(walk.len() == 0);
        assert(cursor + 0 * step == cursor);
    } else {
        let tail = range_walk(headers, cursor + step, step, (limit - 1) as nat);
        lemma_walk_shape(headers, cursor + step, step, (limit - 1) as nat);
        assert(walk == seq![headers[cursor as u64]] + tail);
        assert(walk.len() == tail.len() + 1);
        assert forall|i: int| 0 <= i < walk.len() implies #[trigger] taken_at(
            headers,
            cursor,
            step,
            walk,
            i,
        ) by {
            if i == 0 {
                assert(cursor + 0 * step == cursor);
            } else {
                assert(walk[i] == tail[i - 1]);
                assert(taken_at(headers, cursor + step, step, tail, i - 1));
                assert((cursor + step) + (i - 1) * step == cursor + i * step)
                    by (nonlinear_arith);
            }
        }
        if walk.len() < limit {
            assert((cursor + step) + tail.len() * step == cursor + walk.len() * step)
                by (nonlinear_arith)
                requires
                    walk.len() == tail.len() + 1,
            ;
        }
    }
}

/// A forward walk over a store whose headers are filed by number returns the
/// numbers `n`, `n + (skip + 1)`, `n + 2 (skip + 1)`, and so on; a downward walk
/// returns `n`, `n - (skip + 1)`, and so on.
pub proof fn lemma_walk_numbers(
    headers: Map<BlockNumber, BlockHeader>,
    n: BlockNumber,
    max_header: u64,
    skip: u64,
    reverse: bool,
)
    requires
        filed_by_number(headers),
    ensures
        forall|i: int|
            0 <= i < requested(headers, BlockId::Number(n), max_header, skip, reverse).len() ==> (
            #[trigger] requested(
                headers,
                BlockId::Number(n),
                max_header,
                skip,
                reverse,
            )[i]).number == if reverse {
                n - i * (skip + 1)
            } else {
                n + i * (skip + 1)
            },
{
    let step = walk_step(skip, reverse);
    let walk = requested(headers, BlockId::Number(n), max_header, skip, reverse);
    lemma_walk_shape(headers, n as int, step, max_header as nat);
    assert forall|i: int| 0 <= i < walk.len() implies (#[trigger] walk[i]).number == if reverse {
        n - i * (skip + 1)
    } else {
        n + i * (skip + 1)
    } by {
        assert(taken_at(headers, n as int, step, walk, i));
        assert(headers.contains_key((n + i * step) as u64));
        if reverse {
            assert(i * (-(skip + 1)) == -(i * (skip + 1))) by (nonlinear_arith);
        }
    }
}

/// A header that was imported is the one that a lookup at its number returns,
/// and no other number's lookup changes.
pub proof fn lemma_import_then_lookup(
    headers: Map<BlockNumber, BlockHeader>,
    header: BlockHeader,
    other: BlockNumber,
)
    ensures
        lookup(headers.insert(header.number, header), header.number) == Some(header),
        other != header.number ==> lookup(headers.insert(header.number, header), other) == lookup(
            headers,
            other,
        ),
{
}

/// The best number of a store that holds any header is its largest key, and
/// only one number can be the best.
pub proof fn lemma_best_is_max(
    headers: Map<BlockNumber, BlockHeader>,
    best: Option<BlockNumber>,
    other: Option<BlockNumber>,
    k: BlockNumber,
)
    requires
        is_best(headers, best),
        is_best(headers, other),
        headers.contains_key(k),
    ensures
        best == other,
        best matches Some(b) && k <= b && headers.contains_key(b),
{
}

/// Headers indexed by block number, kept in memory.
pub struct BlockchainInMemory {
    headers: HashMap<BlockNumber, BlockHeader>,
    best: Option<BlockNumber>,
}

impl View for BlockchainInMemory {
    type V = Map<BlockNumber, BlockHeader>;

    closed spec fn view(&self) -> Map<BlockNumber, BlockHeader> {
        self.headers@
    }
}

impl BlockchainInMemory {
    /// Every header is filed under its own number, and the cached best number
    /// is the largest key.
    pub closed spec fn well_formed(&self) -> bool {
        &&& is_best(self.headers@, self.best)
        &&& filed_by_number(self.headers@)
    }

    /// An empty store.
    pub fn new() -> (store: BlockchainInMemory)
        ensures
            store.well_formed(),
            store@ == Map::<BlockNumber, BlockHeader>::empty(),
    {
        BlockchainInMemory { headers: HashMap::new(), best: None }
    }

    /// The header stored at `number`, if there is one.
    pub fn header(&self, number: BlockNumber) -> (found: Option<BlockHeader>)
        requires
            self.well_formed(),
        ensures
            found == lookup(self@, number),
            found matches Some(h) ==> h.number == number,
    {
        match self.headers.get(&number) {
            Some(h) => Some(*h),
            None => None,
        }
    }

    /// Bodies are not kept: the answer is always absent.
    pub fn body(&self, hash: &H256) -> (found: Option<BlockBody>)
        ensures
            found is None,
    {
        None
    }

    /// The largest block number that has a header, or `None` for an empty store.
    pub fn best_header(&self) -> (best: Option<BlockNumber>)
        requires
            self.well_formed(),
        ensures
            is_best(self@, best),
    {
        self.best
    }

    /// Files `header` under its number, in place of any header that was there.
    pub fn import_header(&mut self, header: &BlockHeader)
        requires
            old(self).well_formed(),
        ensures
            final(self).well_formed(),
            final(self)@ == old(self)@.insert(header.number, *header),
    {
        let number = header.number;
        let best = match self.best {
            Some(b) => if b < number { number } else { b },
            None => number,
        };
        self.headers.insert(number, *header);
        self.best = Some(best);
    }

    /// Walks the store from `block_id`, taking a header at each cursor and moving
    /// by `skip + 1` (downwards when `reverse`), until `max_header` headers are
    /// taken or a cursor has no header. A start given by hash is not resolved.
    pub fn header_request(
        &self,
        block_id: BlockId,
        max_header: u64,
        skip: u64,
        reverse: bool,
    ) -> (headers: Vec<BlockHeader>)
        requires
            self.well_formed(),
        ensures
            headers@ == requested(self@, block_id, max_header, skip, reverse),
            headers@.len() <= max_header,
            block_id matches BlockId::Number(n) ==> forall|i: int|
                0 <= i < headers@.len() ==> (#[trigger] headers@[i]).number == n + i * walk_step(
                    skip,
                    reverse,
                ),
    {
        proof {
            if let BlockId::Number(n) = block_id {
                let step = walk_step(skip, reverse);
                let walk = range_walk(self@, n as int, step, max_header as nat);
                lemma_walk_shape(self@, n as int, step, max_header as nat);
                assert forall|i: int| 0 <= i < walk.len() implies (#[trigger] walk[i]).number == n
                    + i * step by {
                    assert(taken_at(self@, n as int, step, walk, i));
                }
            }
        }
        let mut headers: Vec<BlockHeader> = Vec::new();
        let start = match block_id {
            BlockId::Hash(_) => { return headers; },
            BlockId::Number(number) => number,
        };
        let ghost step = walk_step(skip, reverse);
        let ghost whole = range_walk(self@, start as int, step, max_header as nat);
        let mut cursor: u64 = start;
        let mut taken: u64 = 0;
        while taken < max_header
            invariant_except_break
                whole == headers@ + range_walk(
                    self@,
                    cursor as int,
                    step,
                    (max_header - taken) as nat,
                ),
            invariant
                self.well_formed(),
                taken <= max_header,
                step == walk_step(skip, reverse),
            ensures
                whole == headers@,
            decreases max_header - taken,
        {
            let ghost before = headers@;
            let ghost rest = range_walk(self@, cursor as int, step, (max_header - taken) as nat);
            match self.headers.get(&cursor) {
                None => {
                    assert(before + rest == before);
                    break;
                },
                Some(h) => {
                    headers.push(*h);
                    taken = taken + 1;
                },
            }
            let ghost tail = range_walk(
                self@,
                cursor + step,
                step,
                (max_header - taken) as nat,
            );
            assert(whole == headers@ + tail) by {
                assert(rest == seq![self@[cursor]] + tail);
                assert(before + (seq![self@[cursor]] + tail) == before.push(self@[cursor]) + tail);
            }
            let next = match skip.checked_add(1) {
                None => None,
                Some(distance) => if reverse {
                    cursor.checked_sub(distance)
                } else {
                    cursor.checked_add(distance)
                },
            };
            match next {
                Some(c) => {
                    cursor = c;
                },
                None => {
                    assert(!hit(self@, cursor + step));
                    assert(headers@ + tail == headers@);
                    break;
                },
            }
        }
        proof {
            assert(headers@ + Seq::<BlockHeader>::empty() == headers@);
        }
        headers
    }
}

} // verus!
