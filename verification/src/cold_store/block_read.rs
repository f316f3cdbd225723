//! Answering a read from fixed-size blocks of an object.

use vstd::prelude::*;
use crate::cold_store::ColdStoreError;
use crate::wire::put_slice;

verus! {

/// One block of an object: the bytes `start..end`.
#[derive(Debug, Clone, Copy, PartialEq, Eq, Structural)]
pub struct BlockRange {
    pub index: u64,
    pub start: u64,
    pub end: u64,
}

pub open spec fn least(a: int, b: int) -> int {
    if a < b {
        a
    } else {
        b
    }
}

pub open spec fn greatest(a: int, b: int) -> int {
    if a > b {
        a
    } else {
        b
    }
}

/// The block number `index`: full size, but for the last one of the object.
pub open spec fn block_at(index: int, block_size: u64, object_size: u64) -> BlockRange {
    BlockRange {
        index: index as u64,
        start: (index * block_size) as u64,
        end: least(index * block_size + block_size, object_size as int) as u64,
    }
}

proof fn lemma_block_index(offset: int, block_size: int)
    requires
        0 <= offset,
        0 < block_size,
    ensures
        0 <= offset / block_size <= offset,
        (offset / block_size) * block_size <= offset,
        offset < (offset / block_size) * block_size + block_size,
{
    vstd::arithmetic::div_mod::lemma_fundamental_div_mod(offset, block_size);
    vstd::arithmetic::div_mod::lemma_mod_bound(offset, block_size);
    vstd::arithmetic::mul::lemma_mul_is_commutative(block_size, offset / block_size);
    vstd::arithmetic::div_mod::lemma_div_pos_is_pos(offset, block_size);
    assert(offset / block_size <= offset) by (nonlinear_arith)
        requires
            0 <= offset,
            0 < block_size,
    ;
}

proof fn lemma_block_steps(index: int, later: int, block_size: int)
    requires
        0 <= index < later,
        0 < block_size,
    ensures
        index * block_size + block_size <= later * block_size,
        (index + 1) * block_size == index * block_size + block_size,
        0 <= index * block_size,
{
    assert(index * block_size + block_size <= later * block_size) by (nonlinear_arith)
        requires
            0 <= index < later,
            0 < block_size,
    ;
    assert((index + 1) * block_size == index * block_size + block_size) by (nonlinear_arith);
    assert(0 <= index * block_size) by (nonlinear_arith)
        requires
            0 <= index,
            0 < block_size,
    ;
}

/// A read that is put together from the blocks that hold its bytes.
#[derive(Debug)]
pub struct CachedRead {
    object_size: u64,
    block_size: u64,
    object_start: u64,
    object_end: u64,
    next: u64,
    done: bool,
    payload: Vec<u8>,
}

impl CachedRead {
    pub closed spec fn object_size(&self) -> u64 {
        self.object_size
    }

    pub closed spec fn block_size(&self) -> u64 {
        self.block_size
    }

    pub closed spec fn object_start(&self) -> u64 {
        self.object_start
    }

    pub closed spec fn object_end(&self) -> u64 {
        self.object_end
    }

    /// The block that is wanted next.
    pub closed spec fn next(&self) -> int {
        self.next as int
    }

    /// Whether every block was taken.
    pub closed spec fn done(&self) -> bool {
        self.done
    }

    /// The bytes put together so far.
    pub closed spec fn payload(&self) -> Seq<u8> {
        self.payload@
    }

    pub open spec fn first_block(&self) -> int {
        self.object_start() as int / self.block_size() as int
    }

    pub open spec fn last_block(&self) -> int {
        (self.object_end() - 1) / self.block_size() as int
    }

    /// The offset in the object up to which bytes are there.
    pub open spec fn reached(&self) -> int {
        if self.done() {
            self.object_end() as int
        } else {
            greatest(self.object_start() as int, self.next() * self.block_size())
        }
    }

    pub open spec fn wf(&self) -> bool {
        &&& 0 < self.block_size() <= usize::MAX
        &&& self.object_start() < self.object_end() <= self.object_size()
        &&& self.first_block() <= self.next() <= self.last_block()
        &&& self.payload().len() == self.reached() - self.object_start()
    }

    /// Where the wanted bytes of the next block begin in it.
    pub open spec fn slice_start(&self) -> int {
        let start = self.next() * self.block_size();
        greatest(self.object_start() as int, start) - start
    }

    /// Where the wanted bytes of the next block end in it.
    pub open spec fn slice_end(&self) -> int {
        let start = self.next() * self.block_size();
        least(
            self.object_end() as int,
            least(start + self.block_size(), self.object_size() as int),
        ) - start
    }

    /// Whether the bytes so far are the bytes of an object with this content.
    pub open spec fn agrees_with(&self, content: Seq<u8>) -> bool {
        &&& content.len() == self.object_size()
        &&& self.payload() == content.subrange(
            self.object_start() as int,
            self.object_start() + self.payload().len(),
        )
    }

    pub fn new(object_size: u64, block_size: u64, object_start: u64, object_end: u64) -> (r: Self)
        requires
            0 < block_size <= usize::MAX,
            object_start < object_end <= object_size,
        ensures
            r.wf(),
            r.object_size() == object_size,
            r.block_size() == block_size,
            r.object_start() == object_start,
            r.object_end() == object_end,
            r.next() == r.first_block(),
            !r.done(),
            r.payload() == Seq::<u8>::empty(),
    {
        proof {
            lemma_block_index(object_start as int, block_size as int);
            vstd::arithmetic::div_mod::lemma_div_is_ordered(
                object_start as int,
                object_end - 1,
                block_size as int,
            );
        }
        CachedRead {
            object_size,
            block_size,
            object_start,
            object_end,
            next: object_start / block_size,
            done: false,
            payload: Vec::new(),
        }
    }

    /// The block that is wanted next; none when every block was taken.
    pub fn next_block(&self) -> (r: Option<BlockRange>)
        requires
            self.wf(),
        ensures
            r == if self.done() {
                None::<BlockRange>
            } else {
                Some(block_at(self.next(), self.block_size(), self.object_size()))
            },
            r matches Some(block) ==> {
                &&& block.start == self.next() * self.block_size()
                &&& block.start < block.end <= self.object_size()
                &&& block.end == least(block.start + self.block_size(), self.object_size() as int)
                &&& 0 <= self.slice_start() < self.slice_end() <= block.end - block.start
            },
    {
        if self.done {
            return None;
        }
        proof {
            self.lemma_next_block();
        }
        let start: u64 = self.next * self.block_size;
        let full_end: u64 = start.saturating_add(self.block_size);
        let end: u64 = if full_end < self.object_size {
            full_end
        } else {
            self.object_size
        };
        Some(BlockRange { index: self.next, start, end })
    }

    /// Takes the wanted bytes out of the next block.
    pub fn accept_block(&mut self, block: &[u8])
        requires
            old(self).wf(),
            !old(self).done(),
            old(self).slice_end() <= block@.len(),
        ensures
            final(self).wf(),
            final(self).object_size() == old(self).object_size(),
            final(self).block_size() == old(self).block_size(),
            final(self).object_start() == old(self).object_start(),
            final(self).object_end() == old(self).object_end(),
            final(self).payload() == old(self).payload() + block@.subrange(
                old(self).slice_start(),
                old(self).slice_end(),
            ),
            final(self).done() == (old(self).next() == old(self).last_block()),
            final(self).next() == if old(self).next() == old(self).last_block() {
                old(self).next()
            } else {
                old(self).next() + 1
            },
            forall|content: Seq<u8>|
                #![trigger old(self).agrees_with(content)]
                old(self).agrees_with(content) && block@ == content.subrange(
                    old(self).next() * old(self).block_size(),
                    least(
                        old(self).next() * old(self).block_size() + old(self).block_size(),
                        old(self).object_size() as int,
                    ),
                ) ==> final(self).agrees_with(content),
    {
        proof {
            self.lemma_next_block();
            lemma_block_index(self.object_end - 1, self.block_size as int);
        }
        let ghost before = *self;
        let start: u64 = self.next * self.block_size;
        let full_end: u64 = start.saturating_add(self.block_size);
        let end: u64 = if full_end < self.object_size {
            full_end
        } else {
            self.object_size
        };
        let from: u64 = if self.object_start > start {
            self.object_start
        } else {
            start
        };
        let to: u64 = if self.object_end < end {
            self.object_end
        } else {
            end
        };
        let slice_start: usize = (from - start) as usize;
        let slice_end: usize = (to - start) as usize;
        let taken = vstd::slice::slice_subrange(block, slice_start, slice_end);
        put_slice(&mut self.payload, taken);
        let last: u64 = (self.object_end - 1) / self.block_size;
        if self.next == last {
            self.done = true;
        } else {
            proof {
                lemma_block_steps(self.next as int, last as int, self.block_size as int);
            }
            self.next = self.next + 1;
        }
        proof {
            assert forall|content: Seq<u8>|
                #![trigger before.agrees_with(content)]
                before.agrees_with(content) && block@ == content.subrange(
                    start as int,
                    end as int,
                ) implies self.agrees_with(content) by {
                assert(self.payload() =~= content.subrange(
                    self.object_start() as int,
                    self.object_start() + self.payload().len(),
                ));
            }
        }
    }

    /// The bytes of the read.
    pub fn finish(self) -> (r: Vec<u8>)
        requires
            self.wf(),
            self.done(),
        ensures
            r@ == self.payload(),
            r@.len() == self.object_end() - self.object_start(),
            forall|content: Seq<u8>|
                #![trigger self.agrees_with(content)]
                self.agrees_with(content) ==> r@ == content.subrange(
                    self.object_start() as int,
                    self.object_end() as int,
                ),
    {
        self.payload
    }

    proof fn lemma_next_block(&self)
        requires
            self.wf(),
            !self.done(),
        ensures
            0 <= self.next() * self.block_size() < self.object_end(),
            0 <= self.slice_start() < self.slice_end() <= self.block_size(),
            self.slice_start() + self.next() * self.block_size() == self.reached(),
            self.next() < self.last_block() ==> {
                &&& self.slice_end() == self.block_size()
                &&& self.next() * self.block_size() + self.block_size() < self.object_end()
                &&& self.object_start() < self.next() * self.block_size() + self.block_size()
            },
            self.next() == self.last_block() ==> self.slice_end() + self.next() * self.block_size()
                == self.object_end(),
    {
        let size = self.block_size() as int;
        lemma_block_index(self.object_start() as int, size);
        lemma_block_index(self.object_end() - 1, size);
        if self.next() < self.last_block() {
            lemma_block_steps(self.next(), self.last_block(), size);
        } else {
            lemma_block_steps(self.next(), self.next() + 1, size);
        }
        if self.first_block() < self.next() {
            lemma_block_steps(self.first_block(), self.next(), size);
        }
    }
}

/// Checks what the store returned for a block.
pub fn check_block(
    path: &String,
    returned: usize,
    block: BlockRange,
    object_size: u64,
) -> (r: Result<(), ColdStoreError>)
    requires
        block.start <= block.end,
    ensures
        r == if returned == block.end - block.start {
            Ok::<(), ColdStoreError>(())
        } else {
            Err(
                ColdStoreError::ShortBlock {
                    path: *path,
                    returned,
                    block_start: block.start,
                    block_end: block.end,
                    object_size,
                },
            )
        },
{
    if returned as u64 != block.end - block.start {
        return Err(
            ColdStoreError::ShortBlock {
                path: path.clone(),
                returned,
                block_start: block.start,
                block_end: block.end,
                object_size,
            },
        );
    }
    Ok(())
}

/// The number of the first block that has no byte before `object_end`.
pub open spec fn block_after(object_end: u64, block_size: u64) -> int {
    object_end as int / block_size as int + if object_end as int % block_size as int == 0 {
        0int
    } else {
        1int
    }
}

/// The blocks to read ahead behind a read: up to `count` of them, while the
/// object has more.
pub fn readahead_blocks(
    object_end: u64,
    object_size: u64,
    block_size: u64,
    count: usize,
) -> (r: Vec<BlockRange>)
    requires
        0 < block_size,
        object_end <= object_size,
        object_size + block_size <= u64::MAX,
    ensures
        r@.len() <= count,
        forall|i: int|
            0 <= i < r@.len() ==> {
                &&& #[trigger] r@[i] == block_at(
                    block_after(object_end, block_size) + i,
                    block_size,
                    object_size,
                )
                &&& r@[i].start == (block_after(object_end, block_size) + i) * block_size
                &&& object_end <= r@[i].start < r@[i].end <= object_size
            },
        r@.len() < count ==> object_size <= (block_after(object_end, block_size) + r@.len())
            * block_size,
        r@.len() == 0 && count > 0 ==> object_size - object_end < block_size,
        r@.len() > 0 ==> r@[0].start - object_end < block_size,
        forall|i: int|
            0 <= i < r@.len() ==> {
                &&& (#[trigger] r@[i]).start == r@[i].index * block_size
                &&& r@[i].end == r@[i].start + block_size || r@[i].end == object_size
                &&& r@[i].end - r@[i].start <= block_size
                &&& r@[i].start == r@[0].start + i * block_size
            },
        0 < r@.len() < count ==> r@.last().end == object_size,
{
    let mut blocks: Vec<BlockRange> = Vec::new();
    let ghost first = block_after(object_end, block_size);
    let ghost size = block_size as int;
    proof {
        lemma_block_index(object_end as int, size);
        vstd::arithmetic::div_mod::lemma_fundamental_div_mod(object_end as int, size);
        vstd::arithmetic::mul::lemma_mul_is_commutative(size, object_end as int / size);
        lemma_block_steps(object_end as int / size, object_end as int / size + 1, size);
    }
    let mut start: u64 = if object_end % block_size == 0 {
        object_end
    } else {
        (object_end / block_size) * block_size + block_size
    };
    let mut index: u64 = if object_end % block_size == 0 {
        object_end / block_size
    } else {
        proof {
            assert(object_end as int / size + 1 <= u64::MAX) by {
                assert(object_end as int / size <= object_end);
            }
        }
        object_end / block_size + 1
    };
    let ghost start_of_all = start as int;
    let mut i: usize = 0;
    assert(start_of_all - object_end < size) by {
        assert(start_of_all == first * size);
    }
    assert(0 * size == 0);
    while i < count && start < object_size
        invariant
            0 < block_size,
            size == block_size,
            object_size + block_size <= u64::MAX,
            i <= count,
            i == blocks@.len(),
            first == block_after(object_end, block_size),
            0 <= first,
            index == first + i,
            start == index * size,
            object_end <= start <= object_size + block_size,
            start == start_of_all + i * size,
            i > 0 ==> blocks@[i - 1].end == object_size || start < object_size,
            forall|j: int|
                0 <= j < blocks@.len() ==> {
                    &&& (#[trigger] blocks@[j]).start == blocks@[j].index * size
                    &&& blocks@[j].end == blocks@[j].start + size || blocks@[j].end == object_size
                    &&& blocks@[j].end - blocks@[j].start <= size
                    &&& blocks@[j].start == start_of_all + j * size
                },
            forall|j: int|
                0 <= j < blocks@.len() ==> {
                    &&& #[trigger] blocks@[j] == block_at(first + j, block_size, object_size)
                    &&& blocks@[j].start == (first + j) * size
                    &&& object_end <= blocks@[j].start < blocks@[j].end <= object_size
                },
        decreases count - i,
    {
        let full_end: u64 = start + block_size;
        let end: u64 = if full_end < object_size {
            full_end
        } else {
            object_size
        };
        proof {
            lemma_block_steps(index as int, index + 1, size);
            lemma_block_steps(i as int, i + 1, size);
            assert(index <= start) by (nonlinear_arith)
                requires
                    start == index * size,
                    0 < size,
            ;
        }
        blocks.push(BlockRange { index, start, end });
        start = full_end;
        index = index + 1;
        i = i + 1;
    }
    blocks
}

} // verus!
