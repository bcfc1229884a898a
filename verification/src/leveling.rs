//! The experience curve and how gained experience turns into levels.

use vstd::prelude::*;

verus! {

/// Experience for completing any quest.
pub const XP_QUEST_BASE: u64 = 50;

/// Further experience for completing a story quest.
pub const XP_QUEST_STORY_BONUS: u64 = 100;

/// `r` is the integer nearest to the square root of `m`: the square root lies
/// within a half of `r`, which for integers is `r² - r < m <= r² + r`.
pub open spec fn is_nearest_root(m: nat, r: nat) -> bool {
    r * r - r < m <= r * r + r
}

/// The integer nearest to the square root of `m`, for `m >= 1`.
pub open spec fn nearest_root(m: nat) -> nat {
    choose|r: nat| is_nearest_root(m, r)
}

/// The square of `100 * level^1.5`.
pub open spec fn curve_square(level: nat) -> nat {
    10000 * level * level * level
}

/// The experience that reaching `level` takes: nothing up to level 1, then
/// `100 * level^1.5` rounded to the nearest integer. That value is the square
/// root of `10000 * level³`, which is never halfway between two integers.
pub open spec fn xp_for_level(level: nat) -> nat {
    if level <= 1 {
        0
    } else {
        nearest_root(curve_square(level))
    }
}

/// The experience that completing a quest of the given type is worth.
pub open spec fn quest_xp(quest_type: Seq<char>) -> nat {
    if quest_type == "story"@ {
        150
    } else {
        50
    }
}

/// A level, the experience gathered in it, and the experience that the next
/// level takes.
pub struct Standing {
    pub level: nat,
    pub xp: nat,
    pub xp_to_next_level: nat,
}

/// Turns gathered experience into levels: as long as the experience reaches
/// the threshold (and the threshold is not 0), the threshold is paid, the
/// level rises by one, and the next threshold is that of the level after.
pub open spec fn resolve_levels(level: nat, xp: nat, threshold: nat) -> Standing
    decreases xp,
{
    if threshold > 0 && xp >= threshold {
        resolve_levels(level + 1, (xp - threshold) as nat, xp_for_level(level + 2))
    } else {
        Standing { level, xp, xp_to_next_level: threshold }
    }
}

/// The standing after `amount` experience is gained. A level of 0 marks a
/// record from before levels existed and counts as level 1.
pub open spec fn standing_after(level: nat, xp: nat, threshold: nat, amount: nat) -> Standing {
    if level == 0 {
        resolve_levels(1, xp + amount, xp_for_level(2))
    } else {
        resolve_levels(level, xp + amount, threshold)
    }
}

/// The gain can be computed in machine integers: the sum of experience fits,
/// and if a level is gained the level reached is below the largest `u32`.
pub open spec fn gain_fits(level: nat, xp: nat, threshold: nat, amount: nat) -> bool {
    let start: nat = if level == 0 {
        1
    } else {
        level
    };
    let end = standing_after(level, xp, threshold, amount).level;
    &&& xp + amount <= u64::MAX
    &&& (end == start || end < u32::MAX)
}

// ---------------------------------------------------------------------------
// Laws
// ---------------------------------------------------------------------------
/// Every number from 1 on has a nearest root.
pub proof fn lemma_nearest_root_exists(m: nat)
    requires
        m >= 1,
    ensures
        is_nearest_root(m, nearest_root(m)),
    decreases m,
{
    if m == 1 {
        assert(is_nearest_root(1, 1));
    } else {
        lemma_nearest_root_exists((m - 1) as nat);
        let r = nearest_root((m - 1) as nat);
        if m <= r * r + r {
            assert(is_nearest_root(m, r));
        } else {
            assert(is_nearest_root(m, r + 1)) by (nonlinear_arith)
                requires
                    m == r * r + r + 1,
            ;
        }
    }
}

/// Larger numbers have nearest roots that are at least as large; so a number
/// has one nearest root only.
pub proof fn lemma_nearest_root_ordered(m1: nat, r1: nat, m2: nat, r2: nat)
    requires
        is_nearest_root(m1, r1),
        is_nearest_root(m2, r2),
        m1 <= m2,
    ensures
        r1 <= r2,
{
    if r1 > r2 {
        assert(r1 * r1 - r1 >= r2 * r2 + r2) by (nonlinear_arith)
            requires
                r1 >= r2 + 1,
        ;
    }
}

/// Higher levels never take less experience, and level 1 takes none.
pub proof fn lemma_xp_for_level_monotonic(a: nat, b: nat)
    requires
        a <= b,
    ensures
        xp_for_level(a) <= xp_for_level(b),
        xp_for_level(1) == 0,
{
    if a > 1 {
        assert(1 <= curve_square(a) <= curve_square(b)) by (nonlinear_arith)
            requires
                2 <= a <= b,
        ;
        lemma_nearest_root_exists(curve_square(a));
        lemma_nearest_root_exists(curve_square(b));
        lemma_nearest_root_ordered(
            curve_square(a),
            nearest_root(curve_square(a)),
            curve_square(b),
            nearest_root(curve_square(b)),
        );
    }
}

/// From level 2 on the threshold is positive, and up to level 2³² it stays
/// below 2⁵⁵.
pub proof fn lemma_xp_for_level_bounds(level: nat)
    requires
        2 <= level <= 0x1_0000_0000,
    ensures
        0 < xp_for_level(level) < 0x80_0000_0000_0000,
{
    let m = curve_square(level);
    assert(1 <= m <= 0x2710_0000_0000_0000_0000_0000_0000) by (nonlinear_arith)
        requires
            m == 10000 * level * level * level,
            2 <= level <= 0x1_0000_0000,
    ;
    lemma_nearest_root_exists(m);
    let r = nearest_root(m);
    if r >= 0x80_0000_0000_0000 {
        assert(r * r - r >= 0x80_0000_0000_0000 * 0x7F_FFFF_FFFF_FFFF) by (nonlinear_arith)
            requires
                r >= 0x80_0000_0000_0000,
        ;
    }
}

// ---------------------------------------------------------------------------
// Executable functions
// ---------------------------------------------------------------------------
/// The experience that reaching `level` takes.
pub fn calculate_xp_for_level(level: u32) -> (r: u64)
    ensures
        r == xp_for_level(level as nat),
{
    if level <= 1 {
        return 0;
    }
    let l: u128 = level as u128;
    assert(l * l <= 0xFFFF_FFFF * 0xFFFF_FFFF) by (nonlinear_arith)
        requires
            l <= 0xFFFF_FFFF,
    ;
    let square: u128 = l * l;
    assert(square * l <= 0xFFFF_FFFF * 0xFFFF_FFFF * 0xFFFF_FFFF) by (nonlinear_arith)
        requires
            square <= 0xFFFF_FFFF * 0xFFFF_FFFF,
            l <= 0xFFFF_FFFF,
    ;
    let cube: u128 = square * l;
    let m: u128 = 10000 * cube;
    assert(m == curve_square(level as nat)) by (nonlinear_arith)
        requires
            m == 10000 * (l * l * l),
            l == level,
            curve_square(level as nat) == 10000 * (level as nat) * (level as nat) * (level as nat),
    ;
    assert(m >= 1) by (nonlinear_arith)
        requires
            m == 10000 * (l * l * l),
            l >= 2,
    ;
    // The least `hi` with `m <= hi² + hi` lies in `(lo, hi]` throughout.
    let mut lo: u128 = 0;
    let mut hi: u128 = 0x80_0000_0000_0000;
    while hi - lo > 1
        invariant
            lo < hi <= 0x80_0000_0000_0000,
            lo * lo + lo < m,
            m <= hi * hi + hi,
            m == curve_square(level as nat),
        decreases hi - lo,
    {
        let mid: u128 = lo + (hi - lo) / 2;
        assert(mid * mid + mid <= 0x80_0000_0000_0000 * 0x80_0000_0000_0000 + 0x80_0000_0000_0000)
            by (nonlinear_arith)
            requires
                mid <= 0x80_0000_0000_0000,
        ;
        if mid * mid + mid >= m {
            hi = mid;
        } else {
            lo = mid;
        }
    }
    proof {
        assert(hi * hi - hi == lo * lo + lo) by (nonlinear_arith)
            requires
                hi == lo + 1,
        ;
        assert(is_nearest_root(m as nat, hi as nat));
        lemma_nearest_root_exists(m as nat);
        lemma_nearest_root_ordered(m as nat, hi as nat, m as nat, nearest_root(m as nat));
        lemma_nearest_root_ordered(m as nat, nearest_root(m as nat), m as nat, hi as nat);
    }
    hi as u64
}

/// The experience that completing a quest is worth: 150 for a story quest, 50
/// for any other.
pub fn quest_completion_xp(is_story: bool) -> (r: u64)
    ensures
        r == (if is_story {
            150u64
        } else {
            50u64
        }),
{
    if is_story {
        XP_QUEST_BASE + XP_QUEST_STORY_BONUS
    } else {
        XP_QUEST_BASE
    }
}

/// Adds `amount` experience to a standing and resolves the levels gained.
/// Returns the new level, the experience left in it and the next threshold.
pub fn gain_experience(level: u32, xp: u64, threshold: u64, amount: u64) -> (r: (u32, u64, u64))
    requires
        gain_fits(level as nat, xp as nat, threshold as nat, amount as nat),
    ensures
        ({
            let s = standing_after(level as nat, xp as nat, threshold as nat, amount as nat);
            r.0 == s.level && r.1 == s.xp && r.2 == s.xp_to_next_level
        }),
{
    let mut cur_level: u32 = level;
    let mut cur_threshold: u64 = threshold;
    if level == 0 {
        cur_level = 1;
        cur_threshold = calculate_xp_for_level(2);
    }
    let mut cur_xp: u64 = xp + amount;
    let ghost start_level = cur_level;
    let ghost goal = standing_after(level as nat, xp as nat, threshold as nat, amount as nat);
    while cur_xp >= cur_threshold && cur_threshold > 0
        invariant
            goal == resolve_levels(cur_level as nat, cur_xp as nat, cur_threshold as nat),
            start_level <= cur_level,
            goal.level == start_level || goal.level < u32::MAX,
            start_level >= 1,
        decreases cur_xp,
    {
        proof {
            // The level reached is at least the level after this step.
            lemma_resolve_levels_rises(
                (cur_level + 1) as nat,
                (cur_xp - cur_threshold) as nat,
                xp_for_level((cur_level + 2) as nat),
            );
            lemma_xp_for_level_bounds((cur_level + 2) as nat);
        }
        cur_xp -= cur_threshold;
        cur_level += 1;
        cur_threshold = calculate_xp_for_level(cur_level + 1);
    }
    (cur_level, cur_xp, cur_threshold)
}

/// Resolving never lowers the level.
pub proof fn lemma_resolve_levels_rises(level: nat, xp: nat, threshold: nat)
    ensures
        resolve_levels(level, xp, threshold).level >= level,
        resolve_levels(level, xp, threshold).xp <= xp,
    decreases xp,
{
    if threshold > 0 && xp >= threshold {
        lemma_resolve_levels_rises(level + 1, (xp - threshold) as nat, xp_for_level(level + 2));
    }
}

/// After resolving, the experience left is below the threshold, unless the
/// threshold is 0.
pub proof fn lemma_resolve_levels_settles(level: nat, xp: nat, threshold: nat)
    ensures
        ({
            let s = resolve_levels(level, xp, threshold);
            s.xp_to_next_level == 0 || s.xp < s.xp_to_next_level
        }),
    decreases xp,
{
    if threshold > 0 && xp >= threshold {
        lemma_resolve_levels_settles(level + 1, (xp - threshold) as nat, xp_for_level(level + 2));
    }
}

/// Whether the gain of experience can be computed in machine integers.
pub fn can_gain_experience(level: u32, xp: u64, threshold: u64, amount: u64) -> (r: bool)
    ensures
        r == gain_fits(level as nat, xp as nat, threshold as nat, amount as nat),
{
    if xp > u64::MAX - amount {
        return false;
    }
    let mut cur_level: u32 = level;
    let mut cur_threshold: u64 = threshold;
    if level == 0 {
        cur_level = 1;
        cur_threshold = calculate_xp_for_level(2);
    }
    let mut cur_xp: u64 = xp + amount;
    let ghost start_level = cur_level;
    let ghost goal = standing_after(level as nat, xp as nat, threshold as nat, amount as nat);
    while cur_xp >= cur_threshold && cur_threshold > 0
        invariant
            goal == resolve_levels(cur_level as nat, cur_xp as nat, cur_threshold as nat),
            goal == standing_after(level as nat, xp as nat, threshold as nat, amount as nat),
            xp + amount <= u64::MAX,
            start_level == (if level == 0 {
                1u32
            } else {
                level
            }),
            start_level <= cur_level,
            cur_level == start_level || cur_level < u32::MAX,
        decreases cur_xp,
    {
        proof {
            lemma_resolve_levels_rises(
                (cur_level + 1) as nat,
                (cur_xp - cur_threshold) as nat,
                xp_for_level((cur_level + 2) as nat),
            );
        }
        if cur_level >= u32::MAX - 1 {
            return false;
        }
        cur_xp -= cur_threshold;
        cur_level += 1;
        cur_threshold = calculate_xp_for_level(cur_level + 1);
    }
    true
}

} // verus!
