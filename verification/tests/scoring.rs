use grid::tetris::scoring::{
    level_of, line_score, raised, score_after_clear, score_after_drop, tick_millis,
    LINES_PER_LEVEL, MIN_TICK_MILLIS,
};

#[test]
fn the_level_rises_every_ten_lines() {
    assert_eq!(LINES_PER_LEVEL, 10);
    assert_eq!(level_of(0), 1);
    assert_eq!(level_of(9), 1);
    assert_eq!(level_of(10), 2);
    assert_eq!(level_of(19), 2);
    assert_eq!(level_of(25), 3);
    assert_eq!(level_of(100), 11);
    assert_eq!(level_of(usize::MAX), usize::MAX / 10 + 1);
}

#[test]
fn one_to_four_rows_have_a_worth() {
    assert_eq!(line_score(0), None);
    assert_eq!(line_score(1), Some(100));
    assert_eq!(line_score(2), Some(300));
    assert_eq!(line_score(3), Some(500));
    assert_eq!(line_score(4), Some(1000));
    assert_eq!(line_score(5), None);
    assert_eq!(line_score(usize::MAX), None);
}

#[test]
fn cleared_rows_are_worth_their_table_value_times_the_level() {
    for level in [1usize, 2, 3, 7, 15] {
        assert_eq!(score_after_clear(0, 1, level), 100 * level);
        assert_eq!(score_after_clear(0, 2, level), 300 * level);
        assert_eq!(score_after_clear(0, 3, level), 500 * level);
        assert_eq!(score_after_clear(0, 4, level), 1000 * level);
        assert_eq!(score_after_clear(250, 4, level), 250 + 1000 * level);
    }
    assert_eq!(score_after_clear(77, 0, 3), 77);
    assert_eq!(score_after_clear(77, 5, 3), 77);
}

#[test]
fn a_hard_drop_is_worth_two_per_row_and_level() {
    assert_eq!(score_after_drop(0, 0, 1), 0);
    assert_eq!(score_after_drop(0, 23, 1), 46);
    assert_eq!(score_after_drop(5, 7, 2), 33);
    assert_eq!(score_after_drop(100, 20, 5), 300);
    assert_eq!(score_after_drop(100, 20, 0), 100);
}

#[test]
fn a_score_stops_at_the_largest_number() {
    assert_eq!(score_after_drop(usize::MAX, 1, 1), usize::MAX);
    assert_eq!(score_after_drop(0, usize::MAX, 2), usize::MAX);
    assert_eq!(score_after_drop(1, usize::MAX / 2, 1), usize::MAX);
    assert_eq!(score_after_drop(0, usize::MAX / 2, 1), usize::MAX - 1);
    assert_eq!(score_after_clear(usize::MAX - 99, 1, 1), usize::MAX);
    assert_eq!(score_after_clear(usize::MAX - 100, 1, 1), usize::MAX);
    assert_eq!(score_after_clear(usize::MAX - 101, 1, 1), usize::MAX - 1);
    assert_eq!(score_after_clear(0, 4, usize::MAX), usize::MAX);
    assert_eq!(raised(10, 3, 4), 22);
    assert_eq!(raised(10, usize::MAX, 2), usize::MAX);
}

#[test]
fn the_fall_quickens_with_the_level() {
    assert_eq!(MIN_TICK_MILLIS, 100);
    assert_eq!(tick_millis(0), 1000);
    assert_eq!(tick_millis(1), 900);
    assert_eq!(tick_millis(2), 800);
    assert_eq!(tick_millis(8), 200);
    assert_eq!(tick_millis(9), 100);
    assert_eq!(tick_millis(10), 100);
    assert_eq!(tick_millis(11), 100);
    assert_eq!(tick_millis(usize::MAX), 100);
}
