//! Ordering keys: the keys that place records in a list that can be
//! reordered at will, the keys given to a block that is moved between two
//! neighbours, and the renumbering of a whole list.
//!
//! A key is a fixed-point number: a count of ticks, of which
//! [`TICKS_PER_UNIT`] make one whole unit.
use crate::rank::{
    count_before, is_rank, lemma_count_bounds, lemma_rank_follows_order, lemma_ranks_distinct,
    lemma_ranks_onto, lemma_same_order_same_count, orders_positions, rank_of,
};
use crate::text::{
    chars_before, chars_eq, chars_of, lemma_text_before_asymmetric, lemma_text_before_total,
    lemma_text_before_transitive, text_before,
};
use vstd::arithmetic::div_mod::{lemma_div_is_ordered, lemma_div_plus_one, lemma_div_pos_is_pos};
use vstd::arithmetic::mul::{lemma_mul_inequality, lemma_mul_strict_inequality};
use vstd::prelude::*;

verus! {

/// Number of ticks in one whole unit of an ordering key.
pub const TICKS_PER_UNIT: i64 = 1048576;

/// Seconds between two renumberings of a list that is kept in order.
pub const REBALANCE_INTERVAL_SECONDS: u64 = 32400;

/// An ordering key. Keys are compared by their ticks; a key has no meaning
/// but its place among the others.
#[derive(Debug, Clone, Copy, PartialEq, Eq, PartialOrd, Ord, Hash, Structural)]
pub struct OrderKey {
    pub ticks: i64,
}

impl View for OrderKey {
    type V = int;

    open spec fn view(&self) -> int {
        self.ticks as int
    }
}

/// Why no keys could be given.
#[derive(Debug, Clone, Copy, PartialEq, Eq, Structural)]
pub enum OrderError {
    /// A key that would have to be given lies outside the range of keys.
    KeyOutOfRange,
}

impl OrderKey {
    /// The key of a whole number of units.
    pub fn from_units(units: i32) -> (key: OrderKey)
        ensures
            key@ == units * TICKS_PER_UNIT,
    {
        OrderKey { ticks: (units as i64) * TICKS_PER_UNIT }
    }

    /// The key of a number of ticks.
    pub fn from_ticks(ticks: i64) -> (key: OrderKey)
        ensures
            key@ == ticks,
    {
        OrderKey { ticks }
    }

    /// The ticks of the key.
    pub fn ticks(&self) -> (ticks: i64)
        ensures
            ticks == self@,
    {
        self.ticks
    }

    /// Whether the key is a whole number of units.
    pub fn is_whole(&self) -> (whole: bool)
        ensures
            whole == (self@ % (TICKS_PER_UNIT as int) == 0),
    {
        self.ticks % TICKS_PER_UNIT == 0
    }
}

/// The ticks of a list of keys.
pub open spec fn key_views(keys: Seq<OrderKey>) -> Seq<int> {
    Seq::new(keys.len(), |i: int| keys[i]@)
}

/// The ticks of a neighbour that may be absent.
pub open spec fn anchor(key: Option<OrderKey>) -> Option<int> {
    match key {
        Some(k) => Some(k@),
        None => None,
    }
}

/// Whether a number of ticks can be held by a key.
pub open spec fn in_key_range(ticks: int) -> bool {
    i64::MIN <= ticks <= i64::MAX
}

/// The order in which a block is taken up: by current key, and among equal
/// keys by position in the block.
pub open spec fn key_order(keys: Seq<int>) -> spec_fn(int, int) -> bool {
    |k: int, j: int| keys[k] < keys[j] || (keys[k] == keys[j] && k < j)
}

/// The order of a block is a strict total order of its positions.
pub proof fn lemma_key_order(keys: Seq<int>)
    ensures
        orders_positions(key_order(keys), keys.len() as int),
{
}

/// The key of the member of rank `rank`, counted from 0, of a block of
/// `count` members that is placed after `prev` and before `next`.
///
/// Between two neighbours of which the second has the greater key, the
/// members divide the interval evenly, each taking the last tick at or below
/// its point of division. After a neighbour alone (or one that the second
/// does not exceed) they follow it at distances of one unit. Before a
/// neighbour alone they precede it at distances of one unit, the last one
/// unit before it. Without neighbours they take the whole units from 1 on.
pub open spec fn slot(prev: Option<int>, next: Option<int>, count: int, rank: int) -> int {
    if prev.is_some() && next.is_some() && next.unwrap() > prev.unwrap() {
        prev.unwrap() + ((next.unwrap() - prev.unwrap()) * (rank + 1)) / (count + 1)
    } else if prev.is_some() {
        prev.unwrap() + (rank + 1) * TICKS_PER_UNIT
    } else if next.is_some() {
        next.unwrap() - (count - rank) * TICKS_PER_UNIT
    } else {
        (rank + 1) * TICKS_PER_UNIT
    }
}

/// Whether the keys of a block of `count` members can all be held: the
/// first and the last can.
pub open spec fn slots_fit(prev: Option<int>, next: Option<int>, count: int) -> bool {
    count > 0 ==> in_key_range(slot(prev, next, count, 0)) && in_key_range(
        slot(prev, next, count, count - 1),
    )
}

/// The new keys of a block whose members have the keys `keys`, member by
/// member: each gets the slot of its rank in the order of the block.
pub open spec fn allocated(prev: Option<int>, next: Option<int>, keys: Seq<int>) -> Seq<int> {
    Seq::new(
        keys.len(),
        |j: int| slot(prev, next, keys.len() as int, rank_of(key_order(keys), keys.len() as int, j)),
    )
}

/// Slots never descend as the rank grows.
pub proof fn lemma_slots_ascend(
    prev: Option<int>,
    next: Option<int>,
    count: int,
    low: int,
    high: int,
)
    requires
        0 <= low <= high < count,
    ensures
        slot(prev, next, count, low) <= slot(prev, next, count, high),
{
    if prev.is_some() && next.is_some() && next.unwrap() > prev.unwrap() {
        let gap = next.unwrap() - prev.unwrap();
        lemma_mul_inequality(low + 1, high + 1, gap);
        assert(gap * (low + 1) == (low + 1) * gap) by (nonlinear_arith);
        assert(gap * (high + 1) == (high + 1) * gap) by (nonlinear_arith);
        lemma_div_is_ordered(gap * (low + 1), gap * (high + 1), count + 1);
    } else {
        lemma_mul_inequality(low + 1, high + 1, TICKS_PER_UNIT as int);
        lemma_mul_inequality(count - high, count - low, TICKS_PER_UNIT as int);
    }
}

/// Between two neighbours of which the second has the greater key, no slot
/// lies below the first or reaches the second.
pub proof fn lemma_slots_within(prev: int, next: int, count: int, rank: int)
    requires
        prev < next,
        0 <= rank < count,
    ensures
        prev <= slot(Some(prev), Some(next), count, rank) < next,
{
    let gap = next - prev;
    let point = gap * (rank + 1);
    assert(0 <= point) by (nonlinear_arith)
        requires
            0 < gap,
            0 <= rank,
            point == gap * (rank + 1),
    ;
    assert(point < gap * (count + 1)) by (nonlinear_arith)
        requires
            0 < gap,
            rank < count,
            point == gap * (rank + 1),
    ;
    lemma_div_pos_is_pos(point, count + 1);
    assert(point / (count + 1) < gap) by (nonlinear_arith)
        requires
            point < gap * (count + 1),
            0 < count + 1,
    ;
}

/// Where the second neighbour exceeds the first by more ticks than the block
/// has members, every slot lies strictly between the two, and the slots
/// strictly ascend.
pub proof fn lemma_slots_strictly_between(prev: int, next: int, count: int, rank: int)
    requires
        next - prev > count,
        0 <= rank < count,
    ensures
        prev < slot(Some(prev), Some(next), count, rank) < next,
        rank + 1 < count ==> slot(Some(prev), Some(next), count, rank) < slot(
            Some(prev),
            Some(next),
            count,
            rank + 1,
        ),
{
    lemma_slots_within(prev, next, count, rank);
    let gap = next - prev;
    let d = count + 1;
    let point = gap * (rank + 1);
    assert(point >= d) by (nonlinear_arith)
        requires
            gap >= d,
            d > 0,
            rank >= 0,
            point == gap * (rank + 1),
    ;
    lemma_div_is_ordered(d, point, d);
    assert(d / d == 1) by (nonlinear_arith)
        requires
            d > 0,
    ;
    let after = gap * (rank + 2);
    assert(after >= point + d) by (nonlinear_arith)
        requires
            gap >= d,
            d > 0,
            point == gap * (rank + 1),
            after == gap * (rank + 2),
    ;
    lemma_div_plus_one(point, d);
    lemma_div_is_ordered(point + d, after, d);
    assert(gap * (rank + 1 + 1) == after) by (nonlinear_arith)
        requires
            after == gap * (rank + 2),
    ;
}

/// After a neighbour alone, the slots follow it and strictly ascend; before
/// a neighbour alone, they strictly ascend and the last lies one unit before
/// it.
pub proof fn lemma_slots_beside(anchor: int, count: int, rank: int)
    requires
        0 <= rank < count,
    ensures
        slot(Some(anchor), None, count, rank) == anchor + (rank + 1) * TICKS_PER_UNIT,
        slot(Some(anchor), None, count, rank) > anchor,
        slot(None, Some(anchor), count, rank) < anchor,
        slot(None, Some(anchor), count, count - 1) == anchor - TICKS_PER_UNIT,
        rank + 1 < count ==> slot(Some(anchor), None, count, rank) < slot(
            Some(anchor),
            None,
            count,
            rank + 1,
        ),
        rank + 1 < count ==> slot(None, Some(anchor), count, rank) < slot(
            None,
            Some(anchor),
            count,
            rank + 1,
        ),
{
    lemma_mul_strict_inequality(0, rank + 1, TICKS_PER_UNIT as int);
    lemma_mul_strict_inequality(0, count - rank, TICKS_PER_UNIT as int);
    lemma_mul_strict_inequality(rank + 1, rank + 2, TICKS_PER_UNIT as int);
    lemma_mul_strict_inequality(count - rank - 1, count - rank, TICKS_PER_UNIT as int);
    assert(rank + 1 + 1 == rank + 2);
    assert(count - (rank + 1) == count - rank - 1);
}

/// A block keeps its order: a member that comes before another in the order
/// of the block gets no greater key, and a lesser one wherever the slots
/// strictly ascend.
pub proof fn lemma_allocation_keeps_order(
    prev: Option<int>,
    next: Option<int>,
    keys: Seq<int>,
    i: int,
    j: int,
)
    requires
        0 <= i < keys.len(),
        0 <= j < keys.len(),
        key_order(keys)(i, j),
    ensures
        allocated(prev, next, keys)[i] <= allocated(prev, next, keys)[j],
        (prev.is_some() && next.is_some() && next.unwrap() - prev.unwrap() > keys.len()) || !(
        prev.is_some() && next.is_some() && next.unwrap() > prev.unwrap()) ==> allocated(
            prev,
            next,
            keys,
        )[i] < allocated(prev, next, keys)[j],
{
    let n = keys.len() as int;
    let order = key_order(keys);
    lemma_key_order(keys);
    lemma_rank_follows_order(order, n, i, j);
    lemma_ranks_distinct(order, n);
    let ri = rank_of(order, n, i);
    let rj = rank_of(order, n, j);
    lemma_slots_ascend(prev, next, n, ri, rj);
    lemma_slots_ascend(prev, next, n, ri + 1, rj);
    if prev.is_some() && next.is_some() && next.unwrap() > prev.unwrap() {
        if next.unwrap() - prev.unwrap() > n {
            lemma_slots_strictly_between(prev.unwrap(), next.unwrap(), n, ri);
        }
    } else if prev.is_some() {
        lemma_slots_beside(prev.unwrap(), n, ri);
    } else if next.is_some() {
        lemma_slots_beside(next.unwrap(), n, ri);
    } else {
        lemma_mul_strict_inequality(ri + 1, ri + 2, TICKS_PER_UNIT as int);
        assert(ri + 1 + 1 == ri + 2);
    }
}

/// The ticks of an optional key, for arithmetic.
fn anchor_ticks(key: &Option<OrderKey>) -> (ticks: Option<i128>)
    ensures
        ticks.is_some() == key.is_some(),
        ticks.is_some() ==> ticks.unwrap() == key.unwrap()@,
{
    match key {
        Some(k) => Some(k.ticks as i128),
        None => None,
    }
}

/// Executable form of [`slot`].
fn slot_ticks(prev: &Option<OrderKey>, next: &Option<OrderKey>, count: usize, rank: usize) -> (ticks:
    i128)
    requires
        rank < count,
    ensures
        ticks == slot(anchor(*prev), anchor(*next), count as int, rank as int),
{
    let unit: i128 = TICKS_PER_UNIT as i128;
    let position: i128 = rank as i128 + 1;
    match (anchor_ticks(prev), anchor_ticks(next)) {
        (Some(a), Some(b)) if b > a => {
            let gap: u128 = (b - a) as u128;
            let parts: u128 = count as u128 + 1;
            let place: u128 = rank as u128 + 1;
            assert(gap * place <= 0xFFFF_FFFF_FFFF_FFFF * 0xFFFF_FFFF_FFFF_FFFF) by (nonlinear_arith)
                requires
                    0 <= gap <= 0xFFFF_FFFF_FFFF_FFFF,
                    0 <= place <= 0xFFFF_FFFF_FFFF_FFFF,
            ;
            let point: u128 = gap * place;
            let share: u128 = point / parts;
            proof {
                lemma_slots_within(a as int, b as int, count as int, rank as int);
                assert((b as int - a as int) * (rank as int + 1) == point as int);
            }
            a + share as i128
        },
        (Some(a), _) => {
            assert(position * unit == (rank + 1) * TICKS_PER_UNIT <= 0x1_0000_0000_0000_0000
                * 1048576) by (nonlinear_arith)
                requires
                    position == rank + 1,
                    unit == TICKS_PER_UNIT,
                    unit == 1048576,
                    0 <= rank < 0x1_0000_0000_0000_0000,
            ;
            a + position * unit
        },
        (None, Some(b)) => {
            let back: i128 = (count - rank) as i128;
            assert(back * unit == (count - rank) * TICKS_PER_UNIT <= 0x1_0000_0000_0000_0000
                * 1048576) by (nonlinear_arith)
                requires
                    back == count - rank,
                    unit == TICKS_PER_UNIT,
                    unit == 1048576,
                    0 < back < 0x1_0000_0000_0000_0000,
            ;
            b - back * unit
        },
        (None, None) => {
            assert(position * unit == (rank + 1) * TICKS_PER_UNIT <= 0x1_0000_0000_0000_0000
                * 1048576) by (nonlinear_arith)
                requires
                    position == rank + 1,
                    unit == TICKS_PER_UNIT,
                    unit == 1048576,
                    0 <= rank < 0x1_0000_0000_0000_0000,
            ;
            position * unit
        },
    }
}

/// Whether a number of ticks can be held by a key.
fn ticks_fit(ticks: i128) -> (fit: bool)
    ensures
        fit == in_key_range(ticks as int),
{
    -0x8000_0000_0000_0000 <= ticks && ticks <= 0x7FFF_FFFF_FFFF_FFFF
}

/// The rank of the member at position `j` in the order of the block.
fn rank_in_block(keys: &Vec<OrderKey>, j: usize) -> (rank: usize)
    requires
        j < keys.len(),
    ensures
        rank == rank_of(key_order(key_views(keys@)), keys.len() as int, j as int),
        rank < keys.len(),
{
    let ghost order = key_order(key_views(keys@));
    let mut rank: usize = 0;
    let mut k: usize = 0;
    while k < keys.len()
        invariant
            k <= keys.len(),
            j < keys.len(),
            order == key_order(key_views(keys@)),
            rank == count_before(order, j as int, k as int),
            rank <= k,
        decreases keys.len() - k,
    {
        proof {
            lemma_count_bounds(order, j as int, k as int + 1);
        }
        if keys[k].ticks < keys[j].ticks || (keys[k].ticks == keys[j].ticks && k < j) {
            rank += 1;
        }
        k += 1;
    }
    proof {
        lemma_count_bounds(order, j as int, keys.len() as int);
    }
    rank
}

/// Gives new keys to a block that is moved to the place after `prev` and
/// before `next`, either of which may be absent. `moved` holds the current
/// keys of the members of the block. The result holds their new keys,
/// member by member: the block keeps the order of its current keys, members
/// with the same key keep the order in which they stand in `moved`, and the
/// member of each rank gets the [`slot`] of that rank.
///
/// No keys are given when the first or the last of them would lie outside
/// the range of keys.
pub fn allocate_order(prev: Option<OrderKey>, next: Option<OrderKey>, moved: &Vec<OrderKey>) -> (keys:
    Result<Vec<OrderKey>, OrderError>)
    ensures
        keys.is_ok() == slots_fit(anchor(prev), anchor(next), moved@.len() as int),
        keys.is_ok() ==> key_views(keys.unwrap()@) == allocated(
            anchor(prev),
            anchor(next),
            key_views(moved@),
        ),
        keys.is_err() ==> keys == Err::<Vec<OrderKey>, OrderError>(OrderError::KeyOutOfRange),
{
    let count = moved.len();
    let mut keys: Vec<OrderKey> = Vec::new();
    if count == 0 {
        assert(key_views(keys@) =~= allocated(anchor(prev), anchor(next), key_views(moved@)));
        return Ok(keys);
    }
    if !ticks_fit(slot_ticks(&prev, &next, count, 0)) || !ticks_fit(
        slot_ticks(&prev, &next, count, count - 1),
    ) {
        return Err(OrderError::KeyOutOfRange);
    }
    let ghost current = key_views(moved@);
    let mut j: usize = 0;
    while j < count
        invariant
            j <= count,
            count == moved.len(),
            count > 0,
            current == key_views(moved@),
            slots_fit(anchor(prev), anchor(next), count as int),
            keys@.len() == j,
            forall|i: int|
                0 <= i < j ==> (#[trigger] keys@[i])@ == slot(
                    anchor(prev),
                    anchor(next),
                    count as int,
                    rank_of(key_order(current), count as int, i),
                ),
        decreases count - j,
    {
        let rank = rank_in_block(moved, j);
        let ticks = slot_ticks(&prev, &next, count, rank);
        proof {
            lemma_slots_ascend(anchor(prev), anchor(next), count as int, 0, rank as int);
            lemma_slots_ascend(anchor(prev), anchor(next), count as int, rank as int, count - 1);
        }
        keys.push(OrderKey { ticks: ticks as i64 });
        j += 1;
    }
    assert(key_views(keys@) =~= allocated(anchor(prev), anchor(next), current));
    Ok(keys)
}

/// The key of a copy that is placed right after the record that it copies:
/// half-way to the next record where there is one with a greater key, else
/// one unit after the copied record. It is the slot of a block of one member
/// between the two.
pub fn duplicate_order(copied: OrderKey, next: Option<OrderKey>) -> (key: Result<
    OrderKey,
    OrderError,
>)
    ensures
        key.is_ok() == in_key_range(slot(Some(copied@), anchor(next), 1, 0)),
        key.is_ok() ==> key.unwrap()@ == slot(Some(copied@), anchor(next), 1, 0),
        key.is_err() ==> key == Err::<OrderKey, OrderError>(OrderError::KeyOutOfRange),
{
    let ticks = slot_ticks(&Some(copied), &next, 1, 0);
    if ticks_fit(ticks) {
        Ok(OrderKey { ticks: ticks as i64 })
    } else {
        Err(OrderError::KeyOutOfRange)
    }
}

/// The key of a record that is added at the end of the list: one unit after
/// the greatest key in use, and one unit where no key is in use.
pub fn append_order(greatest: Option<OrderKey>) -> (key: Result<OrderKey, OrderError>)
    ensures
        key.is_ok() == in_key_range(slot(anchor(greatest), None, 1, 0)),
        key.is_ok() ==> key.unwrap()@ == slot(anchor(greatest), None, 1, 0),
        key.is_err() ==> key == Err::<OrderKey, OrderError>(OrderError::KeyOutOfRange),
{
    let ticks = slot_ticks(&greatest, &None, 1, 0);
    if ticks_fit(ticks) {
        Ok(OrderKey { ticks: ticks as i64 })
    } else {
        Err(OrderError::KeyOutOfRange)
    }
}

/// A record of the list that is renumbered: its key, the time at which it
/// was created, and its code.
#[derive(Debug)]
pub struct OrderedItem {
    pub key: OrderKey,
    /// The time of creation, as a count of ticks of a clock.
    pub created_at: i64,
    /// The code of the record.
    pub case_id: String,
}

/// Mathematical model of an [`OrderedItem`].
pub struct OrderedItemView {
    pub key: int,
    pub created_at: int,
    pub case_id: Seq<char>,
}

impl View for OrderedItem {
    type V = OrderedItemView;

    open spec fn view(&self) -> OrderedItemView {
        OrderedItemView {
            key: self.key@,
            created_at: self.created_at as int,
            case_id: self.case_id@,
        }
    }
}

/// The views of a list of records.
pub open spec fn ordered_views(items: Seq<OrderedItem>) -> Seq<OrderedItemView> {
    Seq::new(items.len(), |i: int| items[i]@)
}

/// Whether the record `first` at position `k` comes before the record
/// `second` at position `j` when the list is renumbered: by key, then by
/// time of creation, then by code in the order of a dictionary; records
/// that agree in all three keep the order of their positions.
pub open spec fn record_before(first: OrderedItemView, k: int, second: OrderedItemView, j: int) -> bool {
    if first.key != second.key {
        first.key < second.key
    } else if first.created_at != second.created_at {
        first.created_at < second.created_at
    } else if first.case_id != second.case_id {
        text_before(first.case_id, second.case_id)
    } else {
        k < j
    }
}

/// The order in which a list is renumbered.
pub open spec fn item_order(items: Seq<OrderedItemView>) -> spec_fn(int, int) -> bool {
    |k: int, j: int| record_before(items[k], k, items[j], j)
}

/// The order in which a list is renumbered is a strict total order of its
/// positions.
pub proof fn lemma_item_order(items: Seq<OrderedItemView>)
    ensures
        orders_positions(item_order(items), items.len() as int),
{
    let n = items.len() as int;
    let before = item_order(items);
    assert forall|i: int, j: int| 0 <= i < n && 0 <= j < n && i != j implies #[trigger] before(i, j)
        || #[trigger] before(j, i) by {
        let a = items[i].case_id;
        let b = items[j].case_id;
        if !text_before(a, b) && !text_before(b, a) {
            lemma_text_before_total(a, b, 0);
            assert(a.skip(0) =~= a);
            assert(b.skip(0) =~= b);
        }
    }
    assert forall|i: int, j: int, k: int|
        0 <= i < n && 0 <= j < n && 0 <= k < n && #[trigger] before(i, j) && #[trigger] before(
            j,
            k,
        ) implies before(i, k) by {
        let a = items[i].case_id;
        let b = items[j].case_id;
        let c = items[k].case_id;
        if text_before(a, b) && text_before(b, c) {
            lemma_text_before_transitive(a, b, c, 0);
        }
        if text_before(a, b) {
            lemma_text_before_asymmetric(a, b, 0);
        }
        if text_before(b, c) {
            lemma_text_before_asymmetric(b, c, 0);
        }
    }
}

/// The keys of a renumbered list, record by record: the whole units from 1
/// on, each record getting the unit of its rank in the order of the list.
pub open spec fn rebalanced(items: Seq<OrderedItemView>) -> Seq<int> {
    Seq::new(
        items.len(),
        |j: int| (rank_of(item_order(items), items.len() as int, j) + 1) * TICKS_PER_UNIT,
    )
}

/// The records of `items` with the keys `keys` in place of their own.
pub open spec fn with_keys(items: Seq<OrderedItemView>, keys: Seq<int>) -> Seq<OrderedItemView> {
    Seq::new(
        items.len(),
        |j: int|
            OrderedItemView {
                key: keys[j],
                created_at: items[j].created_at,
                case_id: items[j].case_id,
            },
    )
}

/// The new key of every record is a whole number of units from 1 to the
/// number of records; a record that came before another gets the lesser
/// key, so that no two records share one; and every whole number of units
/// from 1 to the number of records is the key of some record.
pub proof fn lemma_rebalanced_dense(items: Seq<OrderedItemView>)
    ensures
        forall|j: int|
            0 <= j < items.len() ==> #[trigger] rebalanced(items)[j] == (rank_of(
                item_order(items),
                items.len() as int,
                j,
            ) + 1) * TICKS_PER_UNIT && 0 <= rank_of(item_order(items), items.len() as int, j)
                < items.len(),
        forall|i: int, j: int|
            0 <= i < items.len() && 0 <= j < items.len() && record_before(items[i], i, items[j], j)
                ==> #[trigger] rebalanced(items)[i] < #[trigger] rebalanced(items)[j],
        forall|i: int, j: int|
            0 <= i < items.len() && 0 <= j < items.len() && i != j ==> #[trigger] rebalanced(
                items,
            )[i] != #[trigger] rebalanced(items)[j],
        forall|r: int|
            0 <= r < items.len() ==> #[trigger] is_rank(item_order(items), items.len() as int, r),
{
    let n = items.len() as int;
    let before = item_order(items);
    lemma_item_order(items);
    lemma_ranks_distinct(before, n);
    lemma_ranks_onto(before, n);
    assert forall|i: int, j: int|
        0 <= i < n && 0 <= j < n && record_before(items[i], i, items[j], j) implies #[trigger] rebalanced(
        items,
    )[i] < #[trigger] rebalanced(items)[j] by {
        assert(before(i, j));
        lemma_rank_follows_order(before, n, i, j);
        lemma_mul_strict_inequality(
            rank_of(before, n, i) + 1,
            rank_of(before, n, j) + 1,
            TICKS_PER_UNIT as int,
        );
    }
    assert forall|i: int, j: int| 0 <= i < n && 0 <= j < n && i != j implies #[trigger] rebalanced(
        items,
    )[i] != #[trigger] rebalanced(items)[j] by {
        if before(i, j) {
            assert(record_before(items[i], i, items[j], j));
        } else {
            assert(before(j, i));
            assert(record_before(items[j], j, items[i], i));
        }
    }
}

/// Renumbering a list that was just renumbered changes no key.
pub proof fn lemma_rebalance_idempotent(items: Seq<OrderedItemView>)
    ensures
        rebalanced(with_keys(items, rebalanced(items))) == rebalanced(items),
{
    let n = items.len() as int;
    let keys = rebalanced(items);
    let again = with_keys(items, keys);
    let first = item_order(items);
    let second = item_order(again);
    lemma_rebalanced_dense(items);
    lemma_item_order(items);
    assert forall|i: int, k: int| 0 <= i < n && 0 <= k < n implies #[trigger] first(i, k) == second(
        i,
        k,
    ) by {
        if i != k {
            if first(i, k) {
                assert(record_before(items[i], i, items[k], k));
                assert(keys[i] < keys[k]);
            } else {
                assert(first(k, i));
                assert(record_before(items[k], k, items[i], i));
                assert(keys[k] < keys[i]);
            }
        }
    }
    assert forall|j: int| 0 <= j < n implies rebalanced(again)[j] == keys[j] by {
        lemma_same_order_same_count(first, second, n, j, n);
    }
    assert(rebalanced(again) =~= keys);
}

/// The rank of the record at position `j` in the order of the list; `codes`
/// holds the characters of the codes of the records.
fn rank_in_list(items: &Vec<OrderedItem>, codes: &Vec<Vec<char>>, j: usize) -> (rank: usize)
    requires
        j < items.len(),
        codes@.len() == items@.len(),
        forall|i: int| 0 <= i < items@.len() ==> (#[trigger] codes@[i])@ == items@[i].case_id@,
    ensures
        rank == rank_of(item_order(ordered_views(items@)), items.len() as int, j as int),
        rank < items.len(),
{
    let ghost order = item_order(ordered_views(items@));
    let mut rank: usize = 0;
    let mut k: usize = 0;
    while k < items.len()
        invariant
            k <= items.len(),
            j < items.len(),
            codes@.len() == items@.len(),
            forall|i: int| 0 <= i < items@.len() ==> (#[trigger] codes@[i])@ == items@[i].case_id@,
            order == item_order(ordered_views(items@)),
            rank == count_before(order, j as int, k as int),
            rank <= k,
        decreases items.len() - k,
    {
        proof {
            lemma_count_bounds(order, j as int, k as int + 1);
        }
        let first = &items[k];
        let second = &items[j];
        let comes_first = if first.key.ticks != second.key.ticks {
            first.key.ticks < second.key.ticks
        } else if first.created_at != second.created_at {
            first.created_at < second.created_at
        } else if !chars_eq(&codes[k], &codes[j]) {
            chars_before(&codes[k], &codes[j])
        } else {
            k < j
        };
        assert(comes_first == order(k as int, j as int));
        if comes_first {
            rank += 1;
        }
        k += 1;
    }
    proof {
        lemma_count_bounds(order, j as int, items.len() as int);
    }
    rank
}

/// Renumbers a list: the result holds the new key of each record, record by
/// record, which is the whole number of units of its place, from 1 on, in
/// the order by key, then by time of creation, then by code.
///
/// No keys are given for a list of more records than there are whole units
/// in the range of keys.
pub fn rebalance(items: &Vec<OrderedItem>) -> (keys: Result<Vec<OrderKey>, OrderError>)
    ensures
        keys.is_ok() == in_key_range(items@.len() * TICKS_PER_UNIT),
        keys.is_ok() ==> key_views(keys.unwrap()@) == rebalanced(ordered_views(items@)),
        keys.is_err() ==> keys == Err::<Vec<OrderKey>, OrderError>(OrderError::KeyOutOfRange),
{
    let count = items.len();
    assert(count * TICKS_PER_UNIT <= 0x1_0000_0000_0000_0000 * 1048576) by (nonlinear_arith)
        requires
            0 <= count < 0x1_0000_0000_0000_0000,
            TICKS_PER_UNIT == 1048576,
    ;
    if !ticks_fit(count as i128 * TICKS_PER_UNIT as i128) {
        return Err(OrderError::KeyOutOfRange);
    }
    let mut codes: Vec<Vec<char>> = Vec::new();
    let mut i: usize = 0;
    while i < count
        invariant
            i <= count,
            count == items.len(),
            codes@.len() == i,
            forall|k: int| 0 <= k < i ==> (#[trigger] codes@[k])@ == items@[k].case_id@,
        decreases count - i,
    {
        codes.push(chars_of(items[i].case_id.as_str()));
        i += 1;
    }
    let ghost views = ordered_views(items@);
    let mut keys: Vec<OrderKey> = Vec::new();
    let mut j: usize = 0;
    while j < count
        invariant
            j <= count,
            count == items.len(),
            codes@.len() == count,
            forall|k: int| 0 <= k < count ==> (#[trigger] codes@[k])@ == items@[k].case_id@,
            views == ordered_views(items@),
            in_key_range(count * TICKS_PER_UNIT),
            keys@.len() == j,
            forall|k: int|
                0 <= k < j ==> (#[trigger] keys@[k])@ == (rank_of(
                    item_order(views),
                    count as int,
                    k,
                ) + 1) * TICKS_PER_UNIT,
        decreases count - j,
    {
        let rank = rank_in_list(items, &codes, j);
        assert(0 < (rank + 1) * TICKS_PER_UNIT <= count * TICKS_PER_UNIT) by (nonlinear_arith)
            requires
                0 <= rank < count,
                TICKS_PER_UNIT == 1048576,
        ;
        let ticks: i128 = (rank as i128 + 1) * TICKS_PER_UNIT as i128;
        keys.push(OrderKey { ticks: ticks as i64 });
        j += 1;
    }
    assert(key_views(keys@) =~= rebalanced(views));
    Ok(keys)
}

/// A block of one member gets the slot of rank 0, so that the key of a copy
/// is the key of a block of one that is moved to the place after the
/// copied record.
pub proof fn lemma_block_of_one(prev: Option<int>, next: Option<int>, key: int)
    ensures
        allocated(prev, next, seq![key]) == seq![slot(prev, next, 1, 0)],
{
    let keys = seq![key];
    let order = key_order(keys);
    assert(!order(0, 0));
    reveal_with_fuel(count_before, 2);
    assert(rank_of(order, 1, 0) == 0);
    assert(allocated(prev, next, keys) =~= seq![slot(prev, next, 1, 0)]);
}

/// The key of a copy lies strictly between the key of the copied record and
/// the key of the next record wherever the two are more than one tick
/// apart, and one unit after the copied record where there is no next
/// record.
pub proof fn lemma_copy_between(copied: int, next: Option<int>)
    ensures
        next.is_some() && next.unwrap() - copied > 1 ==> copied < slot(
            Some(copied),
            next,
            1,
            0,
        ) < next.unwrap(),
        next.is_some() && next.unwrap() > copied ==> slot(Some(copied), next, 1, 0) == copied
            + (next.unwrap() - copied) / 2,
        next.is_none() ==> slot(Some(copied), next, 1, 0) == copied + TICKS_PER_UNIT,
{
    if next.is_some() && next.unwrap() - copied > 1 {
        lemma_slots_strictly_between(copied, next.unwrap(), 1, 0);
    }
    if next.is_some() && next.unwrap() > copied {
        assert((next.unwrap() - copied) * (0 + 1) == next.unwrap() - copied) by (nonlinear_arith);
    }
}

} // verus!
