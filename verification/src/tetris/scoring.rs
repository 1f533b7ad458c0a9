//! Score, level and the pace of the fall.

use vstd::prelude::*;

verus! {

/// How many cleared lines make a level.
pub const LINES_PER_LEVEL: usize = 10;

/// The fewest milliseconds that a piece rests before it falls a row.
pub const MIN_TICK_MILLIS: u64 = 100;

/// The level that play has reached once `lines` lines were cleared.
pub open spec fn level_for(lines: nat) -> nat {
    lines / 10 + 1
}

/// What clearing `cleared` rows at once is worth at level 1. Rows are cleared
/// one to four at a time.
pub open spec fn line_award(cleared: nat) -> nat {
    if cleared == 1 {
        100
    } else if cleared == 2 {
        300
    } else if cleared == 3 {
        500
    } else if cleared == 4 {
        1000
    } else {
        0
    }
}

/// What a hard drop through `rows` rows is worth at level `level`.
pub open spec fn drop_award(rows: nat, level: nat) -> nat {
    rows * level * 2
}

/// A count that was to be `n` but cannot exceed the largest number that the
/// machine holds.
pub open spec fn capped(n: int) -> usize {
    if n > usize::MAX {
        usize::MAX
    } else {
        n as usize
    }
}

/// For how many milliseconds a piece rests at level `level` before it falls
/// a row.
pub open spec fn tick_budget(level: nat) -> nat {
    if 1000 - 100 * level >= MIN_TICK_MILLIS {
        (1000 - 100 * level) as nat
    } else {
        MIN_TICK_MILLIS as nat
    }
}

/// Clearing one, two, three or four rows at level `level` is worth 100, 300,
/// 500 or 1000 times the level, and a hard drop through `rows` rows twice the
/// level for every row. A score that the machine can hold is not capped.
pub proof fn lemma_awards(score: usize, level: usize, rows: usize)
    ensures
        line_award(1) * level == 100 * level,
        line_award(2) * level == 300 * level,
        line_award(3) * level == 500 * level,
        line_award(4) * level == 1000 * level,
        drop_award(rows as nat, level as nat) == 2 * rows * level,
        forall|n: int| 0 <= n <= usize::MAX ==> #[trigger] capped(n) == n,
{
    assert(rows * level * 2 == 2 * rows * level) by (nonlinear_arith);
}

/// The level that play has reached once `lines` lines were cleared: one more
/// than the number of full tens.
pub fn level_of(lines: usize) -> (level: usize)
    ensures
        level == level_for(lines as nat),
        level >= 1,
{
    lines / 10 + 1
}

/// What clearing `cleared` rows at once is worth at level 1, if rows can be
/// cleared so many at a time.
pub fn line_score(cleared: usize) -> (worth: Option<usize>)
    ensures
        worth is Some <==> 1 <= cleared <= 4,
        worth matches Some(w) ==> w == line_award(cleared as nat),
{
    if cleared == 1 {
        Some(100)
    } else if cleared == 2 {
        Some(300)
    } else if cleared == 3 {
        Some(500)
    } else if cleared == 4 {
        Some(1000)
    } else {
        None
    }
}

/// `score` and `worth * times` more, or the largest number if that is too
/// much.
pub fn raised(score: usize, worth: usize, times: usize) -> (total: usize)
    ensures
        total == capped(score + worth * times),
{
    match worth.checked_mul(times) {
        Some(more) => score.saturating_add(more),
        None => {
            assert(score + worth * times > usize::MAX);
            usize::MAX
        },
    }
}

/// The score after `cleared` rows were cleared at once at level `level`.
pub fn score_after_clear(score: usize, cleared: usize, level: usize) -> (total: usize)
    ensures
        total == capped(score + line_award(cleared as nat) * level),
{
    match line_score(cleared) {
        Some(worth) => raised(score, worth, level),
        None => {
            assert(line_award(cleared as nat) * level == 0) by (nonlinear_arith)
                requires
                    line_award(cleared as nat) == 0,
            ;
            score
        },
    }
}

/// The score after a hard drop through `rows` rows at level `level`.
pub fn score_after_drop(score: usize, rows: usize, level: usize) -> (total: usize)
    ensures
        total == capped(score + drop_award(rows as nat, level as nat)),
{
    match rows.checked_mul(level) {
        Some(product) => raised(score, product, 2),
        None => {
            assert(score + rows * level * 2 > usize::MAX) by (nonlinear_arith)
                requires
                    rows * level > usize::MAX,
                    score >= 0,
            ;
            usize::MAX
        },
    }
}

/// For how many milliseconds a piece rests at level `level` before it falls
/// a row: a tenth of a second less with every level, down to
/// `MIN_TICK_MILLIS`.
pub fn tick_millis(level: usize) -> (millis: u64)
    ensures
        millis == tick_budget(level as nat),
        MIN_TICK_MILLIS <= millis <= 1000,
{
    if level >= 9 {
        MIN_TICK_MILLIS
    } else {
        1000 - 100 * (level as u64)
    }
}

} // verus!
