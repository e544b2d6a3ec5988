//! The position cache: a direct-mapped table of fixed size from position
//! hashes to scores. Each score is kept as White sees it and turned to the
//! asking side on the way out, so one entry serves both players.
use crate::board::{Board, Color};
use crate::fen::ranks_text;
use chess::CacheTable;
use vstd::prelude::*;

verus! {

/// The number of slots of a cache made without a size of its own.
pub const DEFAULT_CAPACITY: usize = 524_288;

/// `chess::CacheTable`, the table behind the cache; what it holds is named
/// `table_slots`.
#[verifier::external_type_specification]
#[verifier::external_body]
#[verifier::reject_recursive_types(T)]
pub struct ExCacheTable<T: Copy + Clone + PartialEq + PartialOrd>(CacheTable<T>);

/// What a table holds: for each slot, the hash last written there and the
/// entry written with it.
pub uninterp spec fn table_slots(table: CacheTable<i32>) -> Seq<(u64, i32)>;

/// The slot that a hash falls into in a table of `len` slots: the hash's
/// low bits.
pub open spec fn slot_of(len: nat, hash: u64) -> int {
    (hash & ((len - 1) as u64)) as int
}

/// A table of `size` slots that has not been written: every slot holds
/// hash 0 and score 0.
pub open spec fn empty_slots(size: nat) -> Seq<(u64, i32)> {
    Seq::new(size, |i: int| (0u64, 0i32))
}

/// Whether a number of slots is a power of two.
pub open spec fn is_power_of_two(size: usize) -> bool {
    size > 0 && size & ((size - 1) as usize) == 0
}

/// `chess::CacheTable::new` with entry 0: a table of `size` slots, each
/// holding hash 0 and entry 0. The crate panics unless `size` has exactly
/// one bit set.
#[verifier::external_body]
fn table_new(size: usize) -> (table: CacheTable<i32>)
    requires
        is_power_of_two(size),
    ensures
        table_slots(table) == empty_slots(size as nat),
{
    CacheTable::new(size, 0)
}

/// `chess::CacheTable::get`: the entry of the hash's slot if the slot was
/// last written with this hash, else nothing.
#[verifier::external_body]
fn table_get(table: &CacheTable<i32>, hash: u64) -> (entry: Option<i32>)
    ensures
        entry == {
            let slot = table_slots(*table)[slot_of(table_slots(*table).len(), hash)];
            if slot.0 == hash {
                Some(slot.1)
            } else {
                None
            }
        },
{
    table.get(hash)
}

/// `chess::CacheTable::add`: writes hash and entry into the hash's slot,
/// whatever the slot held, and leaves every other slot alone.
#[verifier::external_body]
fn table_add(table: &mut CacheTable<i32>, hash: u64, entry: i32)
    ensures
        table_slots(*final(table)) == table_slots(*old(table)).update(
            slot_of(table_slots(*old(table)).len(), hash),
            (hash, entry),
        ),
{
    table.add(hash, entry)
}

/// A score as White sees it, given as the player `side` sees it, and back.
pub open spec fn canonical(side: Color, score: int) -> int {
    match side {
        Color::White => score,
        Color::Black => -score,
    }
}

/// Whether a table can be probed and written: it has a slot, and every
/// entry can be negated.
pub open spec fn slots_valid(slots: Seq<(u64, i32)>) -> bool {
    &&& 0 < slots.len() <= u64::MAX
    &&& forall|i: int| 0 <= i < slots.len() ==> (#[trigger] slots[i]).1 > i32::MIN
}

/// The score that a table gives for a hash to the player `side`.
pub open spec fn probe_slots(slots: Seq<(u64, i32)>, hash: u64, side: Color) -> Option<int> {
    let slot = slots[slot_of(slots.len(), hash)];
    if slot.0 == hash {
        Some(canonical(side, slot.1 as int))
    } else {
        None
    }
}

/// The table after a score, given as the player `side` sees it, has been
/// written for a hash.
pub open spec fn record_slots(slots: Seq<(u64, i32)>, hash: u64, side: Color, score: int) -> Seq<
    (u64, i32),
> {
    slots.update(slot_of(slots.len(), hash), (hash, canonical(side, score) as i32))
}

/// A hash's slot lies within the table.
pub proof fn lemma_slot_in_table(len: nat, hash: u64)
    requires
        0 < len <= u64::MAX,
    ensures
        0 <= slot_of(len, hash) < len,
{
    let mask = (len - 1) as u64;
    assert(hash & mask <= mask) by (bit_vector);
}

/// Writing a score that can be negated keeps a table valid.
pub proof fn lemma_record_keeps_valid(slots: Seq<(u64, i32)>, hash: u64, side: Color, score: int)
    requires
        slots_valid(slots),
        i32::MIN < score <= i32::MAX,
    ensures
        slots_valid(record_slots(slots, hash, side, score)),
{
    lemma_slot_in_table(slots.len(), hash);
}

/// The position cache.
pub struct ScoreCache {
    table: CacheTable<i32>,
}

impl View for ScoreCache {
    type V = Seq<(u64, i32)>;

    /// The slots of the cache.
    closed spec fn view(&self) -> Seq<(u64, i32)> {
        table_slots(self.table)
    }
}

impl ScoreCache {
    /// Whether the cache can be probed and written.
    pub open spec fn wf(&self) -> bool {
        slots_valid(self@)
    }

    /// An empty cache of `capacity` slots.
    pub fn with_capacity(capacity: usize) -> (cache: ScoreCache)
        requires
            is_power_of_two(capacity),
        ensures
            cache.wf(),
            cache@ == empty_slots(capacity as nat),
    {
        ScoreCache { table: table_new(capacity) }
    }

    /// An empty cache of the default size.
    pub fn new() -> (cache: ScoreCache)
        ensures
            cache.wf(),
            cache@ == empty_slots(DEFAULT_CAPACITY as nat),
    {
        assert(is_power_of_two(DEFAULT_CAPACITY)) by {
            assert(524_288usize & 524_287usize == 0) by (bit_vector);
        }
        ScoreCache::with_capacity(DEFAULT_CAPACITY)
    }

    /// The score kept for a position, as its player to move sees it.
    pub fn probe(&self, board: &Board) -> (score: Option<i32>)
        requires
            self.wf(),
        ensures
            score.is_some() == probe_slots(self@, board.hash, board.side).is_some(),
            score matches Some(s) ==> probe_slots(self@, board.hash, board.side) == Some(s as int)
                && s > i32::MIN,
    {
        proof {
            lemma_slot_in_table(self@.len(), board.hash);
        }
        match table_get(&self.table, board.hash) {
            None => None,
            Some(entry) => match board.side {
                Color::White => Some(entry),
                Color::Black => Some(-entry),
            },
        }
    }

    /// Keeps a score for a position, given as its player to move sees it,
    /// in place of whatever the position's slot held.
    pub fn record(&mut self, board: &Board, score: i32)
        requires
            old(self).wf(),
            score > i32::MIN,
        ensures
            final(self).wf(),
            final(self)@ == record_slots(old(self)@, board.hash, board.side, score as int),
    {
        proof {
            lemma_record_keeps_valid(self@, board.hash, board.side, score as int);
        }
        let entry = match board.side {
            Color::White => score,
            Color::Black => -score,
        };
        table_add(&mut self.table, board.hash, entry);
    }
}

/// A score written for a hash is read back exactly by the side that wrote
/// it and negated by the other side.
pub proof fn lemma_cache_round_trip(
    slots: Seq<(u64, i32)>,
    hash: u64,
    writer: Color,
    reader: Color,
    score: int,
)
    requires
        slots_valid(slots),
        i32::MIN < score <= i32::MAX,
    ensures
        probe_slots(record_slots(slots, hash, writer, score), hash, reader) == Some(
            if reader == writer {
                score
            } else {
                -score
            },
        ),
{
    lemma_slot_in_table(slots.len(), hash);
}

/// One entry serves both players: a score recorded for a position is read
/// back from the same placement exactly where the same player is to move
/// and negated where the other is. The positions are such as this library
/// reads or reaches: the rules library takes them, and they carry their
/// identity as their hash.
pub proof fn lemma_cache_serves_both_sides(
    slots: Seq<(u64, i32)>,
    writer: Board,
    reader: Board,
    score: int,
)
    requires
        slots_valid(slots),
        i32::MIN < score <= i32::MAX,
        ranks_text(writer, 0) == ranks_text(reader, 0),
    ensures
        writer.accepted() && reader.accepted() && writer.keyed() && reader.keyed() ==> probe_slots(
            record_slots(slots, writer.hash, writer.side, score),
            reader.hash,
            reader.side,
        ) == Some(
            if reader.side == writer.side {
                score
            } else {
                -score
            },
        ),
{
    if writer.accepted() && reader.accepted() && writer.keyed() && reader.keyed() {
        lemma_cache_round_trip(slots, writer.hash, writer.side, reader.side, score);
    }
}

} // verus!
