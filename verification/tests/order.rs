use testspectra::order::{
    allocate_order, append_order, duplicate_order, rebalance, OrderError, OrderKey, OrderedItem,
    TICKS_PER_UNIT,
};

fn units(n: i32) -> OrderKey {
    OrderKey::from_units(n)
}

fn as_number(key: OrderKey) -> f64 {
    key.ticks() as f64 / TICKS_PER_UNIT as f64
}

fn item(key: OrderKey, created_at: i64, case_id: &str) -> OrderedItem {
    OrderedItem { key, created_at, case_id: case_id.to_string() }
}

#[test]
fn keys_of_whole_units() {
    assert_eq!(units(1).ticks(), 1_048_576);
    assert_eq!(units(-3).ticks(), -3 * 1_048_576);
    assert!(units(5).is_whole());
    assert!(!OrderKey::from_ticks(5).is_whole());
    assert_eq!(as_number(units(3)), 3.0);
    assert!(units(1) < units(2));
}

#[test]
fn a_block_between_two_neighbours_divides_the_interval() {
    let moved = vec![units(10), units(11)];
    let keys = allocate_order(Some(units(1)), Some(units(2)), &moved).unwrap();
    assert_eq!(keys.len(), 2);
    assert!(units(1) < keys[0]);
    assert!(keys[0] < keys[1]);
    assert!(keys[1] < units(2));
    assert_eq!(keys[0].ticks(), 1_048_576 + 349_525);
    assert_eq!(keys[1].ticks(), 1_048_576 + 699_050);
    assert!((as_number(keys[0]) - (1.0 + 1.0 / 3.0)).abs() < 1e-5);
    assert!((as_number(keys[1]) - (1.0 + 2.0 / 3.0)).abs() < 1e-5);
}

#[test]
fn a_block_keeps_the_order_of_its_current_keys() {
    let moved = vec![units(30), units(10), units(20)];
    let keys = allocate_order(Some(units(1)), Some(units(5)), &moved).unwrap();
    assert_eq!(keys[1], units(2));
    assert_eq!(keys[2], units(3));
    assert_eq!(keys[0], units(4));
}

#[test]
fn members_with_the_same_key_keep_their_positions() {
    let moved = vec![units(7), units(7), units(3), units(7)];
    let keys = allocate_order(Some(units(0)), None, &moved).unwrap();
    assert_eq!(keys, vec![units(2), units(3), units(1), units(4)]);
}

#[test]
fn a_block_after_a_neighbour_alone_follows_it_by_units() {
    let keys = allocate_order(Some(units(5)), None, &vec![units(1)]).unwrap();
    assert_eq!(keys, vec![units(6)]);
    assert_eq!(as_number(keys[0]), 6.0);
    let keys = allocate_order(Some(units(5)), None, &vec![units(2), units(1)]).unwrap();
    assert_eq!(keys, vec![units(7), units(6)]);
}

#[test]
fn a_block_before_a_neighbour_alone_ends_one_unit_before_it() {
    let keys = allocate_order(None, Some(units(10)), &vec![units(1), units(2), units(3)]).unwrap();
    assert_eq!(keys, vec![units(7), units(8), units(9)]);
    let keys = allocate_order(None, Some(units(1)), &vec![units(5), units(4)]).unwrap();
    assert_eq!(keys, vec![units(0), units(-1)]);
}

#[test]
fn a_block_without_neighbours_takes_the_units_from_one_on() {
    let keys = allocate_order(None, None, &vec![units(9), units(8), units(7)]).unwrap();
    assert_eq!(keys, vec![units(3), units(2), units(1)]);
}

#[test]
fn neighbours_in_the_wrong_order_count_as_the_first_alone() {
    let keys = allocate_order(Some(units(4)), Some(units(4)), &vec![units(1), units(2)]).unwrap();
    assert_eq!(keys, vec![units(5), units(6)]);
    let keys = allocate_order(Some(units(4)), Some(units(2)), &vec![units(1)]).unwrap();
    assert_eq!(keys, vec![units(5)]);
}

#[test]
fn an_empty_block_gets_no_keys() {
    assert_eq!(allocate_order(Some(units(1)), Some(units(2)), &vec![]), Ok(vec![]));
    assert_eq!(allocate_order(None, None, &vec![]), Ok(vec![]));
}

#[test]
fn neighbours_that_are_too_close_leave_keys_that_coincide() {
    let prev = OrderKey::from_ticks(100);
    let next = OrderKey::from_ticks(102);
    let keys = allocate_order(Some(prev), Some(next), &vec![units(1), units(2), units(3)]).unwrap();
    assert_eq!(
        keys,
        vec![OrderKey::from_ticks(100), OrderKey::from_ticks(101), OrderKey::from_ticks(101)]
    );
    let keys = allocate_order(Some(prev), Some(next), &vec![units(1)]).unwrap();
    assert_eq!(keys, vec![OrderKey::from_ticks(101)]);
}

#[test]
fn keys_outside_the_range_are_not_given() {
    let last = OrderKey::from_ticks(i64::MAX - 5);
    assert_eq!(allocate_order(Some(last), None, &vec![units(1)]), Err(OrderError::KeyOutOfRange));
    let first = OrderKey::from_ticks(i64::MIN + 5);
    assert_eq!(allocate_order(None, Some(first), &vec![units(1)]), Err(OrderError::KeyOutOfRange));
    assert_eq!(duplicate_order(last, None), Err(OrderError::KeyOutOfRange));
    assert_eq!(append_order(Some(last)), Err(OrderError::KeyOutOfRange));
    let far = allocate_order(
        Some(OrderKey::from_ticks(i64::MIN)),
        Some(OrderKey::from_ticks(i64::MAX)),
        &vec![units(1)],
    )
    .unwrap();
    assert_eq!(far, vec![OrderKey::from_ticks(-1)]);
}

#[test]
fn a_copy_is_placed_half_way_to_the_next_record() {
    let key = duplicate_order(units(3), Some(units(4))).unwrap();
    assert_eq!(as_number(key), 3.5);
    assert_eq!(key.ticks(), 3 * 1_048_576 + 524_288);
}

#[test]
fn a_copy_of_the_last_record_is_placed_one_unit_after_it() {
    let key = duplicate_order(units(3), None).unwrap();
    assert_eq!(as_number(key), 4.0);
    assert_eq!(duplicate_order(units(3), Some(units(3))), Ok(units(4)));
    assert_eq!(duplicate_order(units(3), Some(units(1))), Ok(units(4)));
}

#[test]
fn a_copy_is_a_block_of_one() {
    for (copied, next) in [(units(3), Some(units(4))), (units(3), None), (units(7), Some(units(2)))] {
        let single = allocate_order(Some(copied), next, &vec![units(99)]).unwrap();
        assert_eq!(duplicate_order(copied, next), Ok(single[0]));
    }
}

#[test]
fn a_new_record_is_appended_one_unit_after_the_greatest_key() {
    assert_eq!(append_order(None), Ok(units(1)));
    assert_eq!(append_order(Some(units(41))), Ok(units(42)));
    assert_eq!(
        append_order(Some(OrderKey::from_ticks(10))),
        Ok(OrderKey::from_ticks(10 + 1_048_576))
    );
}

#[test]
fn rebalance_numbers_the_records_in_their_order() {
    let items = vec![
        item(OrderKey::from_ticks(3_500_000), 10, "TC-0003"),
        item(units(1), 10, "TC-0001"),
        item(OrderKey::from_ticks(1_048_577), 10, "TC-0002"),
        item(units(-4), 10, "TC-0004"),
    ];
    let keys = rebalance(&items).unwrap();
    assert_eq!(keys, vec![units(4), units(2), units(3), units(1)]);
    let mut seen: Vec<f64> = keys.iter().map(|k| as_number(*k)).collect();
    seen.sort_by(|a, b| a.partial_cmp(b).unwrap());
    assert_eq!(seen, vec![1.0, 2.0, 3.0, 4.0]);
}

#[test]
fn rebalance_breaks_ties_by_time_then_by_code_then_by_position() {
    let items = vec![
        item(units(1), 20, "TC-0001"),
        item(units(1), 10, "TC-0009"),
        item(units(1), 10, "TC-0002"),
        item(units(1), 10, "TC-0002"),
        item(units(1), 10, "TC-00021"),
        item(units(1), 10, "TC"),
    ];
    let keys = rebalance(&items).unwrap();
    assert_eq!(keys, vec![units(6), units(5), units(2), units(3), units(4), units(1)]);
}

#[test]
fn rebalance_twice_changes_nothing() {
    let mut items = vec![
        item(OrderKey::from_ticks(17), 5, "b"),
        item(OrderKey::from_ticks(17), 5, "a"),
        item(OrderKey::from_ticks(-40), 9, "c"),
        item(OrderKey::from_ticks(900), 1, "d"),
    ];
    let first = rebalance(&items).unwrap();
    for (record, key) in items.iter_mut().zip(first.iter()) {
        record.key = *key;
    }
    let second = rebalance(&items).unwrap();
    assert_eq!(first, second);
    assert_eq!(first, vec![units(3), units(2), units(1), units(4)]);
}

#[test]
fn rebalance_of_nothing_gives_nothing() {
    assert_eq!(rebalance(&vec![]), Ok(vec![]));
}
