use oraiswap_v3::error::ContractError;
use oraiswap_v3::msg::PositionTick;
use oraiswap_v3::position::FeeGrowth;
use oraiswap_v3::position_ticks::{get_position_ticks, TickLookup, POSITION_TICK_LIMIT};

fn tick(index: i32) -> PositionTick {
    PositionTick {
        index,
        fee_growth_outside_x: FeeGrowth::new(index as u128 * 10),
        fee_growth_outside_y: FeeGrowth::new(0),
        seconds_outside: 0,
    }
}

#[test]
fn position_tick_limit_value() {
    assert_eq!(POSITION_TICK_LIMIT, 372);
}

#[test]
fn position_ticks_offset_past_end_is_refused() {
    let lookups: Vec<TickLookup> = vec![(Some(tick(-10)), Some(tick(10)))];
    assert_eq!(get_position_ticks(&lookups, 2), Err(ContractError::InvalidOffset));
    assert_eq!(get_position_ticks(&lookups, 1), Ok(vec![]));
    assert_eq!(get_position_ticks(&vec![], 0), Ok(vec![]));
}

#[test]
fn position_ticks_skip_missing_and_start_at_offset() {
    let lookups: Vec<TickLookup> = vec![
        (Some(tick(-30)), Some(tick(30))),
        (Some(tick(-20)), None),
        (None, Some(tick(20))),
        (Some(tick(-10)), Some(tick(10))),
    ];
    let all = get_position_ticks(&lookups, 0).unwrap();
    let indexes: Vec<i32> = all.iter().map(|t| t.index).collect();
    assert_eq!(indexes, vec![-30, 30, -20, 20, -10, 10]);
    let from_two = get_position_ticks(&lookups, 2).unwrap();
    assert_eq!(from_two, vec![tick(20), tick(-10), tick(10)]);
}

#[test]
fn position_ticks_stop_at_limit() {
    let lookups: Vec<TickLookup> =
        (0..300).map(|i| (Some(tick(-i - 1)), Some(tick(i + 1)))).collect();
    let listed = get_position_ticks(&lookups, 0).unwrap();
    assert_eq!(listed.len(), POSITION_TICK_LIMIT);
    assert_eq!(listed[POSITION_TICK_LIMIT - 1], tick(POSITION_TICK_LIMIT as i32 / 2));
    // a position's two ticks are listed together, so the list may end one past the limit
    let mut odd: Vec<TickLookup> = vec![(Some(tick(-1000)), None)];
    odd.extend(lookups);
    assert_eq!(get_position_ticks(&odd, 0).unwrap().len(), POSITION_TICK_LIMIT + 1);
}

/// The ticks a freshly opened position from `lower` to `upper` is bounded
/// by, both found.
fn opened(lower: i32, upper: i32) -> TickLookup {
    let fresh = |index: i32| PositionTick {
        index,
        fee_growth_outside_x: FeeGrowth::new(0),
        fee_growth_outside_y: FeeGrowth::new(0),
        seconds_outside: 0,
    };
    (Some(fresh(lower)), Some(fresh(upper)))
}

#[test]
fn test_get_position_ticks() {
    let positions = vec![opened(-10, 10)];
    let result: Vec<PositionTick> = get_position_ticks(&positions, 0).unwrap();
    assert_eq!(result.len(), 2);
    assert_eq!(result[0], positions[0].0.unwrap());
    assert_eq!(result[1], positions[0].1.unwrap());
    assert_eq!(result[0].index, -10);
    assert_eq!(result[1].index, 10);
}

#[test]
fn test_get_position_ticks_limit() {
    let positions: Vec<TickLookup> =
        (1..=POSITION_TICK_LIMIT / 2).map(|i| opened(-(i as i32), i as i32)).collect();
    let result: Vec<PositionTick> = get_position_ticks(&positions, 0).unwrap();
    assert_eq!(result.len(), POSITION_TICK_LIMIT);
    for i in 1..=POSITION_TICK_LIMIT / 2 {
        assert_eq!(result[i * 2 - 2].index, -(i as i32));
        assert_eq!(result[i * 2 - 1].index, i as i32);
    }
}

#[test]
fn test_get_position_ticks_with_offset() {
    let positions = vec![opened(-10, 30), opened(-20, 40)];
    let result_1: Vec<PositionTick> = get_position_ticks(&positions, 0).unwrap();
    assert_eq!(result_1.len(), 4);
    let result_2: Vec<PositionTick> = get_position_ticks(&positions, 1).unwrap();
    assert_eq!(result_2.len(), 2);
    assert_eq!(result_1[2], result_2[0]);
    assert_eq!(result_1[3], result_2[1]);
}
