//! A cache of object blocks, bounded by the bytes that it holds.

use std::collections::VecDeque;
use vstd::prelude::*;
use crate::cold_config::{
    DEFAULT_COLD_CACHE_BLOCK_BYTES, DEFAULT_COLD_CACHE_BYTES, DEFAULT_COLD_CACHE_READAHEAD_BLOCKS,
};
use crate::env;
use crate::env::EnvVars;
use crate::ids::{BucketStreamId, StreamName};
use crate::recency;
use crate::recency::{take_oldest, Stamped};
use crate::table;
use crate::table::{Key, Table};
use crate::text;
use crate::text::{same_text, starts_with};

verus! {

/// Settings of a read cache.
#[derive(Debug, Clone, Copy, PartialEq, Eq, Structural)]
pub struct ColdReadCacheConfig {
    pub max_bytes: usize,
    pub block_bytes: usize,
    pub max_readahead_blocks: usize,
}

/// Names a block of an object.
#[derive(Debug)]
pub struct ColdCacheKey {
    pub path: String,
    pub block_index: u64,
}

/// What a block key is.
pub struct BlockName {
    pub path: Seq<char>,
    pub block_index: u64,
}

impl View for ColdCacheKey {
    type V = BlockName;

    open spec fn view(&self) -> BlockName {
        BlockName { path: self.path@, block_index: self.block_index }
    }
}

impl Key for ColdCacheKey {
    fn same_key(&self, other: &Self) -> bool {
        self.path == other.path && self.block_index == other.block_index
    }

    fn copy_key(&self) -> Self {
        ColdCacheKey { path: self.path.clone(), block_index: self.block_index }
    }
}

/// A cached block and when it was last used.
#[derive(Debug)]
pub struct CachedBlock {
    bytes: Vec<u8>,
    last_use: u64,
}

impl Stamped for CachedBlock {
    closed spec fn stamp(&self) -> u64 {
        self.last_use
    }

    fn last_use(&self) -> u64 {
        self.last_use
    }
}

/// Where a stream was read last.
#[derive(Debug, Clone, Copy, PartialEq, Eq, Structural)]
pub struct StreamReadState {
    pub next_offset: u64,
    pub sequential_score: usize,
}

/// Blocks of objects, up to a number of bytes.
#[derive(Debug)]
pub struct ColdReadCache {
    config: ColdReadCacheConfig,
    blocks: Table<ColdCacheKey, CachedBlock>,
    uses: VecDeque<(ColdCacheKey, u64)>,
    current_bytes: usize,
    latest_use: u64,
    readers: Table<BucketStreamId, StreamReadState>,
}

// ---------------------------------------------------------------------------
// Bytes held
// ---------------------------------------------------------------------------

/// How many bytes the blocks have together.
pub open spec fn held_bytes(blocks: Map<BlockName, Seq<u8>>) -> nat
    decreases blocks.dom().len(),
{
    if blocks.dom().finite() && blocks.dom().len() > 0 {
        let name = blocks.dom().choose();
        blocks[name].len() + held_bytes(blocks.remove(name))
    } else {
        0
    }
}

/// Taking a block away takes away its bytes.
pub proof fn lemma_held_remove(blocks: Map<BlockName, Seq<u8>>, name: BlockName)
    requires
        blocks.dom().finite(),
        blocks.contains_key(name),
    ensures
        held_bytes(blocks) == blocks[name].len() + held_bytes(blocks.remove(name)),
    decreases blocks.dom().len(),
{
    let chosen = blocks.dom().choose();
    assert(blocks.dom().contains(chosen));
    if chosen != name {
        let without = blocks.remove(chosen);
        lemma_held_remove(without, name);
        lemma_held_remove(blocks.remove(name), chosen);
        assert(without.remove(name) =~= blocks.remove(name).remove(chosen));
    }
}

/// A new block adds its bytes.
pub proof fn lemma_held_insert(
    blocks: Map<BlockName, Seq<u8>>,
    name: BlockName,
    bytes: Seq<u8>,
)
    requires
        blocks.dom().finite(),
        !blocks.contains_key(name),
    ensures
        held_bytes(blocks.insert(name, bytes)) == held_bytes(blocks) + bytes.len(),
{
    lemma_held_remove(blocks.insert(name, bytes), name);
    assert(blocks.insert(name, bytes).remove(name) =~= blocks);
}

proof fn lemma_held_positive(blocks: Map<BlockName, Seq<u8>>) -> (name: BlockName)
    requires
        held_bytes(blocks) > 0,
    ensures
        blocks.contains_key(name),
{
    let name = blocks.dom().choose();
    assert(blocks.dom().contains(name));
    name
}

// ---------------------------------------------------------------------------
// Eviction
// ---------------------------------------------------------------------------

/// The blocks, their last uses and the recorded uses.
pub struct BlockState {
    pub blocks: Map<BlockName, Seq<u8>>,
    pub last_uses: Map<BlockName, u64>,
    pub records: Seq<(BlockName, u64)>,
}

impl BlockState {
    /// Every last use is recorded, and exactly the blocks have last uses.
    pub open spec fn sound(self) -> bool {
        &&& self.blocks.dom().finite()
        &&& self.blocks.dom() == self.last_uses.dom()
        &&& recency::all_recorded(self.records, self.last_uses)
    }
}

/// What is left after blocks were given up, the one with the oldest last use
/// first, until no more than `max_bytes` are held.
pub open spec fn evicted(state: BlockState, max_bytes: nat) -> BlockState
    decreases state.records.len(),
{
    let first = recency::oldest(state.records, state.last_uses);
    if held_bytes(state.blocks) <= max_bytes {
        state
    } else if first < 0 || first >= state.records.len() {
        BlockState { records: Seq::empty(), ..state }
    } else {
        let victim = state.records[first].0;
        evicted(
            BlockState {
                blocks: state.blocks.remove(victim),
                last_uses: state.last_uses.remove(victim),
                records: state.records.skip(first + 1),
            },
            max_bytes,
        )
    }
}

/// Eviction leaves no more than the bound.
pub proof fn law_eviction_bounds_bytes(state: BlockState, max_bytes: nat)
    requires
        state.sound(),
    ensures
        evicted(state, max_bytes).sound(),
        held_bytes(evicted(state, max_bytes).blocks) <= max_bytes,
    decreases state.records.len(),
{
    if held_bytes(state.blocks) > max_bytes {
        let name = lemma_held_positive(state.blocks);
        assert(state.last_uses.contains_key(name));
        recency::lemma_oldest_exists(state.records, state.last_uses, name);
        recency::lemma_oldest(state.records, state.last_uses);
        recency::lemma_oldest_dropped(state.records, state.last_uses);
        let first = recency::oldest(state.records, state.last_uses);
        let victim = state.records[first].0;
        let next = BlockState {
            blocks: state.blocks.remove(victim),
            last_uses: state.last_uses.remove(victim),
            records: state.records.skip(first + 1),
        };
        assert(next.blocks.dom() =~= next.last_uses.dom());
        law_eviction_bounds_bytes(next, max_bytes);
    }
}

/// Eviction only takes blocks away.
pub proof fn lemma_evicted_is_part(state: BlockState, max_bytes: nat, name: BlockName)
    requires
        evicted(state, max_bytes).blocks.contains_key(name),
    ensures
        state.blocks.contains_key(name),
        evicted(state, max_bytes).blocks[name] == state.blocks[name],
    decreases state.records.len(),
{
    let first = recency::oldest(state.records, state.last_uses);
    if held_bytes(state.blocks) > max_bytes && 0 <= first < state.records.len() {
        let victim = state.records[first].0;
        lemma_evicted_is_part(
            BlockState {
                blocks: state.blocks.remove(victim),
                last_uses: state.last_uses.remove(victim),
                records: state.records.skip(first + 1),
            },
            max_bytes,
            name,
        );
    }
}

/// A block that is given up was used before every block that stays.
pub proof fn law_eviction_takes_least_recently_used(
    state: BlockState,
    max_bytes: nat,
    latest: int,
    gone: BlockName,
    kept: BlockName,
)
    requires
        state.sound(),
        recency::in_order(state.records, latest),
        state.blocks.contains_key(gone),
        !evicted(state, max_bytes).blocks.contains_key(gone),
        evicted(state, max_bytes).blocks.contains_key(kept),
    ensures
        state.last_uses[gone] < state.last_uses[kept],
    decreases state.records.len(),
{
    let first = recency::oldest(state.records, state.last_uses);
    lemma_evicted_is_part(state, max_bytes, kept);
    assert(state.last_uses.contains_key(kept));
    recency::lemma_oldest(state.records, state.last_uses);
    recency::lemma_oldest_is_least_recent(state.records, state.last_uses, latest, kept);
    let victim = state.records[first].0;
    let next = BlockState {
        blocks: state.blocks.remove(victim),
        last_uses: state.last_uses.remove(victim),
        records: state.records.skip(first + 1),
    };
    lemma_evicted_is_part(next, max_bytes, kept);
    if gone != victim {
        recency::lemma_oldest_dropped(state.records, state.last_uses);
        recency::lemma_in_order_skip(state.records, latest, first + 1);
        assert(next.blocks.dom() =~= next.last_uses.dom());
        law_eviction_takes_least_recently_used(next, max_bytes, latest, gone, kept);
    }
}

/// No more is given up than has to be: where a block was given up, what is left would be
/// above the bound with one of those that went.
pub proof fn law_eviction_takes_no_more_than_it_must(state: BlockState, max_bytes: nat)
    requires
        state.sound(),
    ensures
        held_bytes(state.blocks) <= max_bytes ==> evicted(state, max_bytes) == state,
        held_bytes(state.blocks) > max_bytes ==> exists|gone: BlockName| #[trigger]
            state.blocks.contains_key(gone) && !evicted(state, max_bytes).blocks.contains_key(gone)
                && held_bytes(evicted(state, max_bytes).blocks) + state.blocks[gone].len()
                > max_bytes,
    decreases state.records.len(),
{
    if held_bytes(state.blocks) > max_bytes {
        let name = lemma_held_positive(state.blocks);
        assert(state.last_uses.contains_key(name));
        recency::lemma_oldest_exists(state.records, state.last_uses, name);
        recency::lemma_oldest(state.records, state.last_uses);
        recency::lemma_oldest_dropped(state.records, state.last_uses);
        let first = recency::oldest(state.records, state.last_uses);
        let victim = state.records[first].0;
        assert(recency::is_current(state.records[first], state.last_uses));
        assert(state.blocks.contains_key(victim));
        let next = BlockState {
            blocks: state.blocks.remove(victim),
            last_uses: state.last_uses.remove(victim),
            records: state.records.skip(first + 1),
        };
        assert(next.blocks.dom() =~= next.last_uses.dom());
        lemma_held_remove(state.blocks, victim);
        law_eviction_takes_no_more_than_it_must(next, max_bytes);
        if held_bytes(next.blocks) <= max_bytes {
            assert(state.blocks.contains_key(victim) && !evicted(
                state,
                max_bytes,
            ).blocks.contains_key(victim));
        } else {
            let gone = choose|gone: BlockName| #[trigger]
                next.blocks.contains_key(gone) && !evicted(next, max_bytes).blocks.contains_key(gone)
                    && held_bytes(evicted(next, max_bytes).blocks) + next.blocks[gone].len()
                    > max_bytes;
            assert(state.blocks.contains_key(gone));
        }
    }
}

/// An empty cache holds nothing, a new block adds its bytes, and a block that goes takes
/// its bytes with it.
pub proof fn law_held_bytes_are_those_of_the_blocks(
    blocks: Map<BlockName, Seq<u8>>,
    name: BlockName,
    bytes: Seq<u8>,
)
    requires
        blocks.dom().finite(),
    ensures
        held_bytes(Map::empty()) == 0,
        !blocks.contains_key(name) ==> held_bytes(blocks.insert(name, bytes)) == held_bytes(blocks)
            + bytes.len(),
        blocks.contains_key(name) ==> held_bytes(blocks.remove(name)) + blocks[name].len()
            == held_bytes(blocks),
{
    if blocks.contains_key(name) {
        lemma_held_remove(blocks, name);
    } else {
        lemma_held_insert(blocks, name, bytes);
    }
}

proof fn lemma_evicted_in_order(state: BlockState, max_bytes: nat, latest: int)
    requires
        recency::in_order(state.records, latest),
    ensures
        recency::in_order(evicted(state, max_bytes).records, latest),
    decreases state.records.len(),
{
    let first = recency::oldest(state.records, state.last_uses);
    if held_bytes(state.blocks) > max_bytes && 0 <= first < state.records.len() {
        let victim = state.records[first].0;
        recency::lemma_in_order_skip(state.records, latest, first + 1);
        lemma_evicted_in_order(
            BlockState {
                blocks: state.blocks.remove(victim),
                last_uses: state.last_uses.remove(victim),
                records: state.records.skip(first + 1),
            },
            max_bytes,
            latest,
        );
    }
}

/// The block that was used last stays, provided that it fits at all.
pub proof fn law_eviction_keeps_the_latest(
    state: BlockState,
    max_bytes: nat,
    latest: int,
    name: BlockName,
)
    requires
        state.sound(),
        recency::in_order(state.records, latest),
        state.blocks.contains_key(name),
        state.blocks[name].len() <= max_bytes,
        state.last_uses[name] == latest,
    ensures
        evicted(state, max_bytes).blocks.contains_key(name),
    decreases state.records.len(),
{
    if held_bytes(state.blocks) > max_bytes {
        let first = recency::oldest(state.records, state.last_uses);
        assert(state.last_uses.contains_key(name));
        recency::lemma_oldest(state.records, state.last_uses);
        recency::lemma_oldest_is_least_recent(state.records, state.last_uses, latest, name);
        let victim = state.records[first].0;
        let next = BlockState {
            blocks: state.blocks.remove(victim),
            last_uses: state.last_uses.remove(victim),
            records: state.records.skip(first + 1),
        };
        if victim == name {
            lemma_held_remove(state.blocks, name);
            let other = lemma_held_positive(state.blocks.remove(name));
            assert(state.last_uses.contains_key(other));
            recency::lemma_oldest_is_least_recent(state.records, state.last_uses, latest, other);
            assert(state.records.contains((other, state.last_uses[other])));
        } else {
            recency::lemma_oldest_dropped(state.records, state.last_uses);
            recency::lemma_in_order_skip(state.records, latest, first + 1);
            assert(next.blocks.dom() =~= next.last_uses.dom());
            law_eviction_keeps_the_latest(next, max_bytes, latest, name);
        }
    }
}

// ---------------------------------------------------------------------------
// The cache
// ---------------------------------------------------------------------------

/// The stamp of the use after `stamp`; behind the last stamp comes zero.
pub open spec fn next_stamp(stamp: u64) -> u64 {
    if stamp == u64::MAX {
        0
    } else {
        (stamp + 1) as u64
    }
}

/// Where a stream stands after a read: one step further in sequence if the read
/// began where the last one ended, else out of sequence.
pub open spec fn after_read(
    state: StreamReadState,
    read_start: u64,
    len: usize,
    max_score: usize,
) -> StreamReadState {
    StreamReadState {
        next_offset: if read_start + len > u64::MAX {
            u64::MAX
        } else {
            (read_start + len) as u64
        },
        sequential_score: if read_start != state.next_offset {
            0
        } else if state.sequential_score < max_score {
            (state.sequential_score + 1) as usize
        } else {
            max_score
        },
    }
}

/// Where a stream stands that was never read.
pub open spec fn unread() -> StreamReadState {
    StreamReadState { next_offset: 0, sequential_score: 0 }
}

impl ColdReadCache {
    pub closed spec fn config(&self) -> ColdReadCacheConfig {
        self.config
    }

    /// The cached blocks, their last uses and the recorded uses.
    pub closed spec fn state(&self) -> BlockState {
        BlockState {
            blocks: self.blocks@.map_values(|cached: CachedBlock| cached.bytes@),
            last_uses: recency::stamps_of::<ColdCacheKey, CachedBlock>(self.blocks@),
            records: recency::record_names(self.uses@),
        }
    }

    /// The stamp of the latest use.
    pub closed spec fn latest_use(&self) -> u64 {
        self.latest_use
    }

    /// Where streams were read last.
    pub closed spec fn readers(&self) -> Map<StreamName, StreamReadState> {
        self.readers@
    }

    /// The cache counts the bytes that it holds, holds no more than it may, and
    /// has every last use recorded.
    pub closed spec fn wf(&self) -> bool {
        &&& self.blocks.wf()
        &&& self.readers.wf()
        &&& self.state().sound()
        &&& self.current_bytes == held_bytes(self.state().blocks)
        &&& self.current_bytes <= self.config.max_bytes
        &&& self.config.block_bytes > 0
    }

    /// Whether uses still carry ascending stamps.
    pub open spec fn in_order(&self) -> bool {
        recency::in_order(self.state().records, self.latest_use() as int)
    }

    /// A cache has every last use recorded, and holds no more than it may.
    pub proof fn law_cache_is_sound_and_bounded(&self)
        requires
            self.wf(),
        ensures
            self.state().sound(),
            held_bytes(self.state().blocks) <= self.config().max_bytes,
            self.config().block_bytes > 0,
    {
    }

    pub fn new(config: ColdReadCacheConfig) -> (r: Self)
        ensures
            r.wf(),
            r.in_order(),
            r.config().max_bytes == config.max_bytes,
            r.config().block_bytes == if config.block_bytes == 0 {
                1
            } else {
                config.block_bytes
            },
            r.config().max_readahead_blocks == config.max_readahead_blocks,
            r.state().blocks == Map::<BlockName, Seq<u8>>::empty(),
            r.state().last_uses == Map::<BlockName, u64>::empty(),
            r.state().records == Seq::<(BlockName, u64)>::empty(),
            r.latest_use() == 0,
            r.readers() == Map::<StreamName, StreamReadState>::empty(),
    {
        let block_bytes: usize = if config.block_bytes == 0 {
            1
        } else {
            config.block_bytes
        };
        let r = ColdReadCache {
            config: ColdReadCacheConfig {
                max_bytes: config.max_bytes,
                block_bytes,
                max_readahead_blocks: config.max_readahead_blocks,
            },
            blocks: Table::new(),
            uses: VecDeque::new(),
            current_bytes: 0,
            latest_use: 0,
            readers: Table::new(),
        };
        proof {
            assert(r.state().blocks =~= Map::<BlockName, Seq<u8>>::empty());
            assert(r.state().last_uses =~= Map::<BlockName, u64>::empty());
            assert(r.state().records =~= Seq::<(BlockName, u64)>::empty());
            assert(r.state().blocks.dom() =~= r.state().last_uses.dom());
        }
        r
    }

    /// The cache that the environment asks for; none where its size is zero.
    pub fn from_env(vars: &EnvVars) -> (r: Option<Self>)
        requires
            vars.wf(),
        ensures
            ({
                let max_bytes = env::number_or(
                    vars@,
                    "URSULA_COLD_CACHE_BYTES"@,
                    DEFAULT_COLD_CACHE_BYTES,
                );
                let block_bytes = env::number_or(
                    vars@,
                    "URSULA_COLD_CACHE_BLOCK_BYTES"@,
                    DEFAULT_COLD_CACHE_BLOCK_BYTES,
                );
                let readahead = env::number_or(
                    vars@,
                    "URSULA_COLD_CACHE_READAHEAD_BLOCKS"@,
                    DEFAULT_COLD_CACHE_READAHEAD_BLOCKS,
                );
                if max_bytes == 0 {
                    r is None
                } else {
                    &&& r is Some
                    &&& r->0.wf()
                    &&& r->0.in_order()
                    &&& r->0.state().blocks == Map::<BlockName, Seq<u8>>::empty()
                    &&& r->0.state().last_uses == Map::<BlockName, u64>::empty()
                    &&& r->0.state().records == Seq::<(BlockName, u64)>::empty()
                    &&& r->0.latest_use() == 0
                    &&& r->0.readers() == Map::<StreamName, StreamReadState>::empty()
                    &&& r->0.config() == (ColdReadCacheConfig {
                        max_bytes: max_bytes as usize,
                        block_bytes: if block_bytes == 0 {
                            1
                        } else {
                            block_bytes as usize
                        },
                        max_readahead_blocks: readahead as usize,
                    })
                }
            }),
    {
        let max_bytes: usize = vars.env_usize("URSULA_COLD_CACHE_BYTES", DEFAULT_COLD_CACHE_BYTES);
        if max_bytes == 0 {
            return None;
        }
        Some(
            ColdReadCache::new(
                ColdReadCacheConfig {
                    max_bytes,
                    block_bytes: vars.env_usize(
                        "URSULA_COLD_CACHE_BLOCK_BYTES",
                        DEFAULT_COLD_CACHE_BLOCK_BYTES,
                    ),
                    max_readahead_blocks: vars.env_usize(
                        "URSULA_COLD_CACHE_READAHEAD_BLOCKS",
                        DEFAULT_COLD_CACHE_READAHEAD_BLOCKS,
                    ),
                },
            ),
        )
    }

    /// How many bytes a full block has.
    pub fn block_size(&self) -> (r: u64)
        requires
            self.wf(),
        ensures
            r == self.config().block_bytes,
            r > 0,
    {
        self.config.block_bytes as u64
    }

    /// How many blocks are cached.
    pub fn block_count(&self) -> (r: usize)
        requires
            self.wf(),
        ensures
            r == self.state().blocks.dom().len(),
    {
        assert(self.state().blocks.dom() =~= self.blocks@.dom());
        self.blocks.len()
    }

    /// How many bytes are held.
    pub fn current_bytes(&self) -> (r: usize)
        requires
            self.wf(),
        ensures
            r == held_bytes(self.state().blocks),
            r <= self.config().max_bytes,
    {
        self.current_bytes
    }

    /// The block, if it is cached; finding it is a use.
    pub fn get(&mut self, path: &str, block_index: u64) -> (r: Option<Vec<u8>>)
        requires
            old(self).wf(),
        ensures
            final(self).wf(),
            final(self).config() == old(self).config(),
            final(self).readers() == old(self).readers(),
            final(self).state().blocks == old(self).state().blocks,
            ({
                let name = BlockName { path: path@, block_index };
                let stamp = next_stamp(old(self).latest_use());
                if old(self).state().blocks.contains_key(name) {
                    &&& r is Some
                    &&& r->0@ == old(self).state().blocks[name]
                    &&& final(self).latest_use() == stamp
                    &&& final(self).state().last_uses == old(self).state().last_uses.insert(
                        name,
                        stamp,
                    )
                    &&& final(self).state().records == old(self).state().records.push(
                        (name, stamp),
                    )
                } else {
                    &&& r is None
                    &&& final(self).latest_use() == old(self).latest_use()
                    &&& final(self).state() == old(self).state()
                }
            }),
            old(self).in_order() && old(self).latest_use() < u64::MAX ==> final(self).in_order(),
    {
        let key = ColdCacheKey { path: path.to_owned(), block_index };
        let bytes = match self.blocks.get(&key) {
            Some(cached) => cached.bytes.clone(),
            None => {
                return None;
            },
        };
        let ghost before = *self;
        let ghost name = key@;
        let stamp: u64 = self.latest_use.wrapping_add(1);
        self.latest_use = stamp;
        let copy = bytes.clone();
        assert(copy@ =~= bytes@);
        self.uses.push_back((key.copy_key(), stamp));
        self.blocks.insert(key, CachedBlock { bytes: copy, last_use: stamp });
        proof {
            assert(self.state().blocks =~= before.state().blocks);
            assert(self.state().last_uses =~= before.state().last_uses.insert(name, stamp));
            assert(self.state().records =~= before.state().records.push((name, stamp)));
            assert(self.state().blocks.dom() =~= self.state().last_uses.dom());
            recency::lemma_recorded_push(
                before.state().records,
                before.state().last_uses,
                name,
                stamp,
            );
        }
        Some(bytes)
    }

    /// Caches a block, which is a use. A block above the bound of the cache is
    /// not cached; otherwise blocks are given up until the bound holds.
    pub fn insert(&mut self, path: &str, block_index: u64, bytes: Vec<u8>)
        requires
            old(self).wf(),
            held_bytes(old(self).state().blocks) + bytes@.len() <= usize::MAX,
        ensures
            final(self).wf(),
            final(self).config() == old(self).config(),
            final(self).readers() == old(self).readers(),
            ({
                let name = BlockName { path: path@, block_index };
                let stamp = next_stamp(old(self).latest_use());
                let max_bytes = old(self).config().max_bytes;
                if bytes@.len() > max_bytes || max_bytes == 0 {
                    &&& final(self).state() == old(self).state()
                    &&& final(self).latest_use() == old(self).latest_use()
                } else {
                    &&& final(self).latest_use() == stamp
                    &&& final(self).state() == evicted(
                        BlockState {
                            blocks: old(self).state().blocks.insert(name, bytes@),
                            last_uses: old(self).state().last_uses.insert(name, stamp),
                            records: old(self).state().records.push((name, stamp)),
                        },
                        max_bytes as nat,
                    )
                    &&& old(self).in_order() && old(self).latest_use() < u64::MAX ==> {
                        &&& final(self).in_order()
                        &&& final(self).state().blocks.contains_key(name)
                        &&& final(self).state().blocks[name] == bytes@
                    }
                }
            }),
            forall|other: BlockName| #[trigger]
                final(self).state().blocks.contains_key(other) ==> if other.path == path@
                    && other.block_index == block_index && bytes@.len() <= old(
                    self
                ).config().max_bytes && old(self).config().max_bytes > 0 {
                    final(self).state().blocks[other] == bytes@
                } else {
                    old(self).state().blocks.contains_key(other) && final(
                        self
                    ).state().blocks[other] == old(self).state().blocks[other]
                },
            0 < old(self).config().max_bytes && held_bytes(old(self).state().blocks)
                + bytes@.len() <= old(self).config().max_bytes ==> final(self).state().blocks
                == old(self).state().blocks.insert(BlockName { path: path@, block_index }, bytes@),
    {
        if bytes.len() > self.config.max_bytes || self.config.max_bytes == 0 {
            return;
        }
        let ghost before = *self;
        let key = ColdCacheKey { path: path.to_owned(), block_index };
        let ghost name = key@;
        let ghost old_blocks = self.state().blocks;
        match self.blocks.remove(&key) {
            Some(previous) => {
                proof {
                    lemma_held_remove(old_blocks, name);
                }
                self.current_bytes = self.current_bytes - previous.bytes.len();
            },
            None => {},
        }
        let stamp: u64 = self.latest_use.wrapping_add(1);
        self.latest_use = stamp;
        proof {
            let left = old_blocks.remove(name);
            assert(self.state().blocks =~= left);
            lemma_held_insert(left, name, bytes@);
            if !old_blocks.contains_key(name) {
                assert(left =~= old_blocks);
            }
        }
        self.current_bytes = self.current_bytes + bytes.len();
        self.uses.push_back((key.copy_key(), stamp));
        let ghost content = bytes@;
        self.blocks.insert(key, CachedBlock { bytes, last_use: stamp });
        let ghost start = BlockState {
            blocks: before.state().blocks.insert(name, content),
            last_uses: before.state().last_uses.insert(name, stamp),
            records: before.state().records.push((name, stamp)),
        };
        proof {
            assert(self.state().blocks =~= start.blocks);
            assert(self.state().last_uses =~= start.last_uses);
            assert(self.state().records =~= start.records);
            assert(start.blocks.dom() =~= start.last_uses.dom());
            recency::lemma_recorded_push(
                before.state().records,
                before.state().last_uses,
                name,
                stamp,
            );
            assert(old_blocks.remove(name).insert(name, content) =~= start.blocks);
            assert forall|other: BlockName| #[trigger]
                evicted(start, self.config.max_bytes as nat).blocks.contains_key(
                    other,
                ) implies start.blocks.contains_key(other) && evicted(
                start,
                self.config.max_bytes as nat,
            ).blocks[other] == start.blocks[other] by {
                lemma_evicted_is_part(start, self.config.max_bytes as nat, other);
            }
            if before.in_order() && before.latest_use < u64::MAX {
                let max_bytes = self.config.max_bytes as nat;
                recency::lemma_in_order_push(
                    before.state().records,
                    before.latest_use as int,
                    name,
                    stamp,
                );
                lemma_evicted_in_order(start, max_bytes, stamp as int);
                law_eviction_keeps_the_latest(start, max_bytes, stamp as int, name);
                lemma_evicted_is_part(start, max_bytes, name);
            }
        }
        self.evict(Ghost(start));
    }

    fn evict(&mut self, Ghost(start): Ghost<BlockState>)
        requires
            old(self).blocks.wf(),
            old(self).readers.wf(),
            old(self).state().sound(),
            old(self).state() == start,
            old(self).current_bytes == held_bytes(old(self).state().blocks),
            old(self).config.block_bytes > 0,
        ensures
            final(self).wf(),
            final(self).state() == evicted(start, old(self).config.max_bytes as nat),
            final(self).config == old(self).config,
            final(self).latest_use == old(self).latest_use,
            final(self).readers() == old(self).readers(),
    {
        let max_bytes: usize = self.config.max_bytes;
        while self.current_bytes > max_bytes
            invariant
                self.blocks.wf(),
                self.readers.wf(),
                self.state().sound(),
                self.current_bytes == held_bytes(self.state().blocks),
                self.config == old(self).config,
                self.latest_use == old(self).latest_use,
                self.readers() == old(self).readers(),
                max_bytes == self.config.max_bytes,
                evicted(self.state(), max_bytes as nat) == evicted(start, max_bytes as nat),
            decreases self.uses@.len(),
        {
            let ghost state = self.state();
            let ghost first = recency::oldest(state.records, state.last_uses);
            proof {
                let name = lemma_held_positive(state.blocks);
                assert(state.last_uses.contains_key(name));
                recency::lemma_oldest(state.records, state.last_uses);
                recency::lemma_oldest_exists(state.records, state.last_uses, name);
                recency::lemma_oldest_dropped(state.records, state.last_uses);
            }
            match take_oldest(&mut self.uses, &self.blocks) {
                Some(victim) => {
                    let ghost name = victim@;
                    proof {
                        assert(recency::is_current(state.records[first], state.last_uses));
                        assert(state.blocks.contains_key(name));
                        lemma_held_remove(state.blocks, name);
                    }
                    match self.blocks.remove(&victim) {
                        Some(entry) => {
                            self.current_bytes = self.current_bytes - entry.bytes.len();
                        },
                        None => {},
                    }
                    proof {
                        assert(self.state().blocks =~= state.blocks.remove(name));
                        assert(self.state().last_uses =~= state.last_uses.remove(name));
                        assert(self.state().blocks.dom() =~= self.state().last_uses.dom());
                        assert(self.uses@.len() == self.state().records.len());
                        assert(state.records.len() == state.records.skip(first + 1).len() + first
                            + 1);
                    }
                },
                None => {},
            }
        }
    }

    /// Notes a read of a stream and says how many blocks to read ahead: the more
    /// the longer the stream was read in sequence.
    pub fn record_stream_read(
        &mut self,
        stream_id: &BucketStreamId,
        read_start: u64,
        len: usize,
    ) -> (r: usize)
        requires
            old(self).wf(),
        ensures
            final(self).wf(),
            final(self).config() == old(self).config(),
            final(self).state() == old(self).state(),
            final(self).latest_use() == old(self).latest_use(),
            ({
                let state = if old(self).readers().contains_key(stream_id@) {
                    old(self).readers()[stream_id@]
                } else {
                    unread()
                };
                let next = after_read(
                    state,
                    read_start,
                    len,
                    old(self).config().max_readahead_blocks,
                );
                &&& final(self).readers() == old(self).readers().insert(stream_id@, next)
                &&& r == next.sequential_score
                &&& r <= old(self).config().max_readahead_blocks
            }),
            ({
                let max = old(self).config().max_readahead_blocks;
                let is_known = old(self).readers().contains_key(stream_id@);
                let expected = if is_known {
                    old(self).readers()[stream_id@].next_offset
                } else {
                    0
                };
                let score: int = if is_known {
                    old(self).readers()[stream_id@].sequential_score as int
                } else {
                    0
                };
                &&& read_start != expected ==> r == 0
                &&& read_start == expected && score < max ==> r == score + 1
                &&& read_start == expected && score >= max ==> r == max
                &&& final(self).readers().contains_key(stream_id@)
                &&& final(self).readers()[stream_id@].sequential_score == r
                &&& read_start + len <= u64::MAX ==> final(
                    self
                ).readers()[stream_id@].next_offset == read_start + len
            }),
    {
        let max_score: usize = self.config.max_readahead_blocks;
        let state = match self.readers.get(stream_id) {
            Some(state) => *state,
            None => StreamReadState { next_offset: 0, sequential_score: 0 },
        };
        let sequential_score: usize = if read_start == state.next_offset {
            if state.sequential_score < max_score {
                state.sequential_score + 1
            } else {
                max_score
            }
        } else {
            0
        };
        let next_offset: u64 = read_start.saturating_add(len as u64);
        self.readers.insert(
            stream_id.clone(),
            StreamReadState { next_offset, sequential_score },
        );
        sequential_score
    }

    /// Gives up every block of the object at `path`.
    pub fn invalidate_path(&mut self, path: &str)
        requires
            old(self).wf(),
        ensures
            final(self).wf(),
            final(self).config() == old(self).config(),
            final(self).readers() == old(self).readers(),
            final(self).latest_use() == old(self).latest_use(),
            final(self).state().records == old(self).state().records,
            final(self).state().blocks == old(self).state().blocks.restrict(
                Set::new(|name: BlockName| name.path != path@),
            ),
            final(self).state().last_uses == old(self).state().last_uses.restrict(
                Set::new(|name: BlockName| name.path != path@),
            ),
    {
        let ghost before = *self;
        let mut i: usize = 0;
        while i < self.blocks.len()
            invariant
                self.wf(),
                self.config == before.config,
                self.readers == before.readers,
                self.latest_use == before.latest_use,
                self.uses == before.uses,
                i <= self.blocks.entries().len(),
                forall|j: int|
                    0 <= j < i ==> (#[trigger] self.blocks.entries()[j]).0@.path != path@,
                forall|name: BlockName| #[trigger]
                    self.blocks@.contains_key(name) ==> before.blocks@.contains_key(name)
                        && self.blocks@[name] == before.blocks@[name],
                forall|name: BlockName| #[trigger]
                    before.blocks@.contains_key(name) && name.path != path@
                        ==> self.blocks@.contains_key(name),
            decreases self.blocks.entries().len() - i,
        {
            let (key, _) = self.blocks.entry(i);
            if same_text(key.path.as_str(), path) {
                self.remove_block(i);
            } else {
                i = i + 1;
            }
        }
        proof {
            let keep = Set::new(|name: BlockName| name.path != path@);
            assert forall|name: BlockName| #[trigger] self.blocks@.contains_key(
                name,
            ) implies name.path != path@ by {
                let at = table::lemma_table_index(&self.blocks, name);
                assert(self.blocks.entries()[at].0@ == name);
            }
            assert(self.state().blocks =~= before.state().blocks.restrict(keep));
            assert(self.state().last_uses =~= before.state().last_uses.restrict(keep));
        }
    }

    /// Gives up every block of the objects whose path begins with `prefix`.
    pub fn invalidate_prefix(&mut self, prefix: &str)
        requires
            old(self).wf(),
        ensures
            final(self).wf(),
            final(self).config() == old(self).config(),
            final(self).readers() == old(self).readers(),
            final(self).latest_use() == old(self).latest_use(),
            final(self).state().records == old(self).state().records,
            final(self).state().blocks == old(self).state().blocks.restrict(
                Set::new(|name: BlockName| !text::begins_with(name.path, prefix@)),
            ),
            final(self).state().last_uses == old(self).state().last_uses.restrict(
                Set::new(|name: BlockName| !text::begins_with(name.path, prefix@)),
            ),
    {
        let ghost before = *self;
        let mut i: usize = 0;
        while i < self.blocks.len()
            invariant
                self.wf(),
                self.config == before.config,
                self.readers == before.readers,
                self.latest_use == before.latest_use,
                self.uses == before.uses,
                i <= self.blocks.entries().len(),
                forall|j: int|
                    0 <= j < i ==> !text::begins_with(
                        (#[trigger] self.blocks.entries()[j]).0@.path,
                        prefix@,
                    ),
                forall|name: BlockName| #[trigger]
                    self.blocks@.contains_key(name) ==> before.blocks@.contains_key(name)
                        && self.blocks@[name] == before.blocks@[name],
                forall|name: BlockName| #[trigger]
                    before.blocks@.contains_key(name) && !text::begins_with(name.path, prefix@)
                        ==> self.blocks@.contains_key(name),
            decreases self.blocks.entries().len() - i,
        {
            let (key, _) = self.blocks.entry(i);
            if starts_with(key.path.as_str(), prefix) {
                self.remove_block(i);
            } else {
                i = i + 1;
            }
        }
        proof {
            let keep = Set::new(|name: BlockName| !text::begins_with(name.path, prefix@));
            assert forall|name: BlockName| #[trigger] self.blocks@.contains_key(
                name,
            ) implies !text::begins_with(name.path, prefix@) by {
                let at = table::lemma_table_index(&self.blocks, name);
                assert(self.blocks.entries()[at].0@ == name);
            }
            assert(self.state().blocks =~= before.state().blocks.restrict(keep));
            assert(self.state().last_uses =~= before.state().last_uses.restrict(keep));
        }
    }

    fn remove_block(&mut self, i: usize)
        requires
            old(self).wf(),
            i < old(self).blocks.entries().len(),
        ensures
            final(self).wf(),
            final(self).config == old(self).config,
            final(self).readers == old(self).readers,
            final(self).latest_use == old(self).latest_use,
            final(self).uses == old(self).uses,
            final(self).blocks.entries() == old(self).blocks.entries().remove(i as int),
            final(self).blocks@ == old(self).blocks@.remove(old(self).blocks.entries()[i as int].0@),
    {
        let ghost state = self.state();
        let ghost name = self.blocks.entries()[i as int].0@;
        proof {
            table::lemma_table_entry(&self.blocks, i as int);
            lemma_held_remove(state.blocks, name);
        }
        let (_, entry) = self.blocks.remove_at(i);
        self.current_bytes = self.current_bytes - entry.bytes.len();
        proof {
            assert(self.state().blocks =~= state.blocks.remove(name));
            assert(self.state().last_uses =~= state.last_uses.remove(name));
            assert(self.state().blocks.dom() =~= self.state().last_uses.dom());
        }
    }
}

} // verus!
