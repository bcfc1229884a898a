//! Catching fish and setting them free.

use crate::counters::{
    is_plain_key, lemma_total_of_two, lemma_total_requirement, lemma_two_catches_counted,
};
use crate::document::{count_at, lemma_empty_document_has_no_key};
use crate::economy::{can_add_to_inventory, stack_key, units_added_fit, with_units_added};
use crate::items::{calculate_fish_xp, checked_fish_xp, fish_xp};
use crate::ledger::{ledger_valid, lemma_add_valid, put_units};
use crate::leveling::{can_gain_experience, gain_fits};
use crate::quests::{
    can_count_catch, catch_counted_fits, completion_rejection, lemma_catch_counted_in_each_row,
    lemma_catch_keeps_quest_rows, progress_after_catch, update_quest_progress_for_fish,
    with_catch_counted,
};
use crate::sessions::{add_xp_internal, event, log_event_internal, with_event, with_xp};
use crate::store::{
    catch_index, find_catch, find_stats, lemma_player_quest_index_found,
    lemma_stats_index_update, player_index, player_quest_index, quest_index, stats_index,
    FishCatch, FishCatchView, PlayerStatsView, QuestState, Rejection, World, WorldView,
};
use crate::text::{append_chars, decimal_text, from_chars, push_decimal, to_chars};
use vstd::prelude::*;

verus! {

/// How the log of catches writes a rarity: the number of stars, then `star`.
pub open spec fn star_text(rarity: u8) -> Seq<char> {
    decimal_text(rarity as nat) + "star"@
}

/// What the event of a catch carries: the species and the size of the fish.
pub open spec fn catch_metadata(fish_type: Seq<char>, size: Seq<char>) -> Seq<char> {
    "{\"fish_type\":\""@ + fish_type + "\",\"size\":"@ + size + "}"@
}

/// The world with one more fish counted in the stats of the player, if the
/// player has any.
pub open spec fn with_fish_counted(w: WorldView, player_id: Seq<char>) -> WorldView {
    match stats_index(w.stats, player_id) {
        Some(j) => WorldView {
            stats: w.stats.update(
                j,
                PlayerStatsView {
                    total_fish_caught: (w.stats[j].total_fish_caught + 1) as u32,
                    ..w.stats[j]
                },
            ),
            ..w
        },
        None => w,
    }
}

/// The world after a player catches a fish at `now`: the catch is logged,
/// the fish is in the inventory, the catch is recorded as an event and
/// counted in the stats, its experience is gained, and it counts in every
/// active quest of the player.
pub open spec fn after_catch(
    w: WorldView,
    player_id: Seq<char>,
    item_id: Seq<char>,
    fish_type: Seq<char>,
    size: Seq<char>,
    rarity: u8,
    water_body_id: Seq<char>,
    now: i64,
) -> WorldView {
    let logged = WorldView {
        fish_catches: w.fish_catches.push(
            FishCatchView {
                id: w.next_fish_catch_id,
                fish_id: item_id,
                player_id,
                fish_type,
                rarity: star_text(rarity),
                water_body_id,
                released: false,
                caught_at: now,
            },
        ),
        next_fish_catch_id: (w.next_fish_catch_id + 1) as u64,
        ..w
    };
    let stocked = with_units_added(logged, player_id, item_id, rarity, 1);
    let recorded = with_event(
        stocked,
        event(
            player_id,
            "fish_caught"@,
            Some(item_id),
            Some(1u32),
            None,
            Some(rarity),
            Some(water_body_id),
            Some(catch_metadata(fish_type, size)),
        ),
        now,
    );
    let levelled = with_xp(
        with_fish_counted(recorded, player_id),
        player_id,
        fish_xp(item_id, rarity) as u64,
    );
    WorldView {
        player_quests: with_catch_counted(levelled.player_quests, player_id, item_id, rarity, 0),
        ..levelled
    }
}

/// A catch can be computed in machine integers: the counters that it raises
/// have room, and so have the experience and the levels that it brings.
pub open spec fn catch_fits(w: WorldView, player_id: Seq<char>, item_id: Seq<char>, rarity: u8) -> bool {
    &&& w.next_fish_catch_id < u64::MAX
    &&& units_added_fit(w, player_id, item_id, rarity, 1)
    &&& w.next_event_id < u64::MAX
    &&& fish_xp(item_id, rarity) <= u64::MAX
    &&& match stats_index(w.stats, player_id) {
        Some(j) => {
            &&& w.stats[j].total_fish_caught < u32::MAX
            &&& gain_fits(
                w.stats[j].level as nat,
                w.stats[j].xp as nat,
                w.stats[j].xp_to_next_level as nat,
                fish_xp(item_id, rarity),
            )
        },
        None => true,
    }
    &&& catch_counted_fits(w.player_quests, player_id, item_id, 0)
}

// ---------------------------------------------------------------------------
// Laws
// ---------------------------------------------------------------------------
/// A catch changes no account and no definition of a quest, and is counted
/// in the rows of the quests.
pub proof fn lemma_catch_counts_in_quests(
    w: WorldView,
    player_id: Seq<char>,
    item_id: Seq<char>,
    fish_type: Seq<char>,
    size: Seq<char>,
    rarity: u8,
    water_body_id: Seq<char>,
    now: i64,
)
    ensures
        ({
            let after = after_catch(
                w,
                player_id,
                item_id,
                fish_type,
                size,
                rarity,
                water_body_id,
                now,
            );
            &&& after.players == w.players
            &&& after.quests == w.quests
            &&& after.player_quests == with_catch_counted(
                w.player_quests,
                player_id,
                item_id,
                rarity,
                0,
            )
        }),
{
}

/// A catch is counted in an active quest of the player: the row stays where
/// it is and active, and its progress is the progress after the catch.
pub proof fn lemma_catch_counts_in_active_quest(
    w: WorldView,
    player_id: Seq<char>,
    quest_id: Seq<char>,
    item_id: Seq<char>,
    fish_type: Seq<char>,
    size: Seq<char>,
    rarity: u8,
    water_body_id: Seq<char>,
    now: i64,
)
    requires
        player_quest_index(w.player_quests, player_id, quest_id, QuestState::Active) is Some,
    ensures
        ({
            let after = after_catch(
                w,
                player_id,
                item_id,
                fish_type,
                size,
                rarity,
                water_body_id,
                now,
            );
            let i = player_quest_index(
                w.player_quests,
                player_id,
                quest_id,
                QuestState::Active,
            )->Some_0;
            &&& 0 <= i < w.player_quests.len()
            &&& player_quest_index(after.player_quests, player_id, quest_id, QuestState::Active)
                == Some(i)
            &&& after.player_quests[i].progress == progress_after_catch(
                w.player_quests[i].progress,
                item_id,
                rarity,
            )
        }),
{
    lemma_catch_counts_in_quests(
        w,
        player_id,
        item_id,
        fish_type,
        size,
        rarity,
        water_body_id,
        now,
    );
    lemma_player_quest_index_found(w.player_quests, player_id, quest_id, QuestState::Active, 0);
    let i = player_quest_index(w.player_quests, player_id, quest_id, QuestState::Active)->Some_0;
    lemma_catch_keeps_quest_rows(
        w.player_quests,
        player_id,
        item_id,
        rarity,
        player_id,
        quest_id,
        QuestState::Active,
        0,
    );
    lemma_catch_counted_in_each_row(w.player_quests, player_id, item_id, rarity, 0, i);
}

/// A quest that asks for a total of two fish and nothing else, taken by a
/// player with an account and not begun, cannot be completed before the
/// second catch, and can be after it, whatever fish were caught.
pub proof fn lemma_two_catches_complete_a_total_of_two(
    w: WorldView,
    player_id: Seq<char>,
    quest_id: Seq<char>,
    first: Seq<char>,
    first_rarity: u8,
    second: Seq<char>,
    second_rarity: u8,
    fish_type: Seq<char>,
    size: Seq<char>,
    water_body_id: Seq<char>,
    now: i64,
)
    requires
        player_index(w.players, player_id) is Some,
        player_quest_index(w.player_quests, player_id, quest_id, QuestState::Active) matches Some(i)
            && w.player_quests[i].progress == "{}"@,
        quest_index(w.quests, quest_id) matches Some(q) && w.quests[q].requirements
            == "{\"total_fish\":2}"@,
        is_plain_key(first),
        is_plain_key(second),
        first != "total"@ && first != "max_rarity"@,
        second != "total"@ && second != "max_rarity"@,
    ensures
        ({
            let once = after_catch(
                w,
                player_id,
                first,
                fish_type,
                size,
                first_rarity,
                water_body_id,
                now,
            );
            let twice = after_catch(
                once,
                player_id,
                second,
                fish_type,
                size,
                second_rarity,
                water_body_id,
                now,
            );
            let i = player_quest_index(
                w.player_quests,
                player_id,
                quest_id,
                QuestState::Active,
            )->Some_0;
            &&& completion_rejection(w, player_id, quest_id) == Some(Rejection::RequirementsNotMet)
            &&& completion_rejection(once, player_id, quest_id) == Some(
                Rejection::RequirementsNotMet,
            )
            &&& completion_rejection(twice, player_id, quest_id) is None
            &&& count_at(twice.player_quests[i].progress, "total"@) == 2
        }),
{
    let once = after_catch(w, player_id, first, fish_type, size, first_rarity, water_body_id, now);
    let i = player_quest_index(w.player_quests, player_id, quest_id, QuestState::Active)->Some_0;
    lemma_catch_counts_in_quests(
        w,
        player_id,
        first,
        fish_type,
        size,
        first_rarity,
        water_body_id,
        now,
    );
    lemma_catch_counts_in_active_quest(
        w,
        player_id,
        quest_id,
        first,
        fish_type,
        size,
        first_rarity,
        water_body_id,
        now,
    );
    lemma_catch_counts_in_quests(
        once,
        player_id,
        second,
        fish_type,
        size,
        second_rarity,
        water_body_id,
        now,
    );
    lemma_catch_counts_in_active_quest(
        once,
        player_id,
        quest_id,
        second,
        fish_type,
        size,
        second_rarity,
        water_body_id,
        now,
    );
    lemma_two_catches_counted(first, first_rarity, second, second_rarity);
    lemma_total_of_two();
    lemma_empty_document_has_no_key("total"@);
    lemma_total_requirement(2, "{}"@);
    lemma_total_requirement(2, progress_after_catch("{}"@, first, first_rarity));
}

fn star_string(rarity: u8) -> (r: String)
    ensures
        r@ == star_text(rarity),
{
    let mut out: Vec<char> = Vec::new();
    push_decimal(&mut out, rarity as u64);
    let tail = to_chars("star");
    append_chars(&mut out, &tail);
    assert(out@ =~= star_text(rarity));
    from_chars(&out)
}

fn catch_text(fish_type: &str, size: &str) -> (r: String)
    ensures
        r@ == catch_metadata(fish_type@, size@),
{
    let mut out = to_chars("{\"fish_type\":\"");
    let species = to_chars(fish_type);
    append_chars(&mut out, &species);
    let middle = to_chars("\",\"size\":");
    append_chars(&mut out, &middle);
    let measure = to_chars(size);
    append_chars(&mut out, &measure);
    let tail = to_chars("}");
    append_chars(&mut out, &tail);
    from_chars(&out)
}

/// Records that a player caught a fish. `size` is the size of the fish as it
/// is to be written into the event. Nothing can turn a catch down.
pub fn catch_fish(
    w: &mut World,
    player_id: &str,
    item_id: &str,
    fish_type: &str,
    size: &str,
    rarity: u8,
    water_body_id: &str,
    now: i64,
)
    requires
        catch_fits(old(w)@, player_id@, item_id@, rarity),
    ensures
        final(w)@ == after_catch(
            old(w)@,
            player_id@,
            item_id@,
            fish_type@,
            size@,
            rarity,
            water_body_id@,
            now,
        ),
        ledger_valid(old(w)@.inventory) ==> ledger_valid(final(w)@.inventory),
{
    let pid = player_id.to_owned();
    let iid = item_id.to_owned();
    let ghost catches_before = w@.fish_catches;
    w.fish_catches.push(
        FishCatch {
            id: w.next_fish_catch_id,
            fish_id: iid.clone(),
            player_id: pid.clone(),
            fish_type: fish_type.to_owned(),
            rarity: star_string(rarity),
            water_body_id: water_body_id.to_owned(),
            released: false,
            caught_at: now,
        },
    );
    assert(w@.fish_catches =~= catches_before.push(
        FishCatchView {
            id: w.next_fish_catch_id,
            fish_id: item_id@,
            player_id: player_id@,
            fish_type: fish_type@,
            rarity: star_text(rarity),
            water_body_id: water_body_id@,
            released: false,
            caught_at: now,
        },
    ));
    w.next_fish_catch_id = w.next_fish_catch_id + 1;
    proof {
        if ledger_valid(w@.inventory) {
            lemma_add_valid(
                w@.inventory,
                w@.next_inventory_id as nat,
                stack_key(player_id@, item_id@, rarity),
                1,
            );
        }
    }
    put_units(&mut w.inventory, &mut w.next_inventory_id, &pid, &iid, rarity, 1);
    log_event_internal(
        w,
        pid.clone(),
        "fish_caught".to_owned(),
        Some(iid),
        Some(1),
        None,
        Some(rarity),
        Some(water_body_id.to_owned()),
        Some(catch_text(fish_type, size)),
        now,
    );
    let ghost stats_before = w@.stats;
    match find_stats(&w.stats, &pid) {
        Some(j) => {
            assert(stats_before[j as int] == w.stats[j as int]@);
            w.stats[j].total_fish_caught = w.stats[j].total_fish_caught + 1;
            let ghost changed = PlayerStatsView {
                total_fish_caught: (stats_before[j as int].total_fish_caught + 1) as u32,
                ..stats_before[j as int]
            };
            assert(w@.stats =~= stats_before.update(j as int, changed));
            proof {
                lemma_stats_index_update(stats_before, j as int, changed, player_id@, 0);
            }
        },
        None => {},
    }
    let xp = calculate_fish_xp(item_id, rarity);
    add_xp_internal(w, player_id, xp);
    update_quest_progress_for_fish(w, player_id, item_id, rarity);
}

/// Marks a logged catch as set free. Turned down where the log holds no
/// catch with the id.
pub fn release_fish(w: &mut World, catch_id: u64) -> (r: Result<(), Rejection>)
    ensures
        match r {
            Ok(_) => match catch_index(old(w)@.fish_catches, catch_id) {
                Some(i) => final(w)@ == (WorldView {
                    fish_catches: old(w)@.fish_catches.update(
                        i,
                        FishCatchView { released: true, ..old(w)@.fish_catches[i] },
                    ),
                    ..old(w)@
                }),
                None => false,
            },
            Err(e) => e == Rejection::CatchNotFound && catch_index(old(w)@.fish_catches, catch_id)
                is None && final(w)@ == old(w)@,
        },
{
    match find_catch(&w.fish_catches, catch_id) {
        Some(i) => {
            let ghost before = w@.fish_catches;
            assert(before[i as int] == w.fish_catches[i as int]@);
            w.fish_catches[i].released = true;
            assert(w@.fish_catches =~= before.update(
                i as int,
                FishCatchView { released: true, ..before[i as int] },
            ));
            Ok(())
        },
        None => Err(Rejection::CatchNotFound),
    }
}

/// Whether the catch can be computed in machine integers.
pub fn can_catch_fish(w: &World, player_id: &str, item_id: &str, rarity: u8) -> (r: bool)
    ensures
        r == catch_fits(w@, player_id@, item_id@, rarity),
{
    if w.next_fish_catch_id == u64::MAX || w.next_event_id == u64::MAX {
        return false;
    }
    if !can_add_to_inventory(w, player_id, item_id, rarity, 1) {
        return false;
    }
    let xp = match checked_fish_xp(item_id, rarity) {
        Some(xp) => xp,
        None => {
            return false;
        },
    };
    let pid = player_id.to_owned();
    match find_stats(&w.stats, &pid) {
        Some(j) => {
            assert(w@.stats[j as int] == w.stats[j as int]@);
            if w.stats[j].total_fish_caught == u32::MAX {
                return false;
            }
            if !can_gain_experience(
                w.stats[j].level,
                w.stats[j].xp,
                w.stats[j].xp_to_next_level,
                xp,
            ) {
                return false;
            }
        },
        None => {},
    }
    can_count_catch(w, player_id, item_id)
}

} // verus!
