//! Quests: accepting them, counting catches towards them, and completing
//! them for their rewards.
//!
//! A player and a quest are in one of three states. While no row of the
//! player's quests names the quest, the quest is open to be accepted.
//! Accepting it adds a row with the status `active`; completing it turns the
//! status to `completed`. A completed daily quest can be accepted again, which
//! replaces its row; a completed story quest stays completed.

use crate::document::{
    count_at, count_in, number_at, number_in, number_set, objects_at, objects_in,
    requirements_check, requirements_met, reward_item_id, reward_item_id_in, reward_quantity,
    texts, with_number,
};
use crate::items::{capacity, get_max_stack_size};
use crate::ledger::ledger_valid;
use crate::leveling::{quest_completion_xp, quest_xp};
use crate::sessions::{
    add_xp_internal, can_add_xp, event, log_event_internal, with_event, with_xp, xp_fits,
};
use crate::store::{
    find_player, find_player_quest, find_quest, is_quest_row, lemma_player_quest_index_found,
    player_index, player_quest_index,
    player_quest_index_from, player_quests_view, quest_index, string_is, Inventory, InventoryView,
    PlayerQuest,
    PlayerQuestView, PlayerView, QuestState, Rejection, World, WorldView,
};
use crate::text::{append_chars, from_chars, to_chars};
use vstd::prelude::*;

verus! {

// ---------------------------------------------------------------------------
// Progress
// ---------------------------------------------------------------------------
/// The progress document after one more catch: the count of the fish and the
/// count `total` rise by one, and `max_rarity` rises to the rarity of the
/// catch if that is higher.
pub open spec fn progress_after_catch(progress: Seq<char>, item_id: Seq<char>, rarity: u8) -> Seq<
    char,
> {
    let counted = with_number(progress, item_id, (count_at(progress, item_id) + 1) as u32);
    let totalled = with_number(counted, "total"@, (count_at(counted, "total"@) + 1) as u32);
    if rarity as u32 > count_at(totalled, "max_rarity"@) {
        with_number(totalled, "max_rarity"@, rarity as u32)
    } else {
        totalled
    }
}

/// The counts that one more catch raises have room.
pub open spec fn progress_fits(progress: Seq<char>, item_id: Seq<char>) -> bool {
    &&& count_at(progress, item_id) < u32::MAX
    &&& count_at(
        with_number(progress, item_id, (count_at(progress, item_id) + 1) as u32),
        "total"@,
    ) < u32::MAX
}

/// The row is an active quest of the player.
pub open spec fn is_active_row(row: PlayerQuestView, player_id: Seq<char>) -> bool {
    row.player_id == player_id && row.status == "active"@
}

/// The rows with the catch counted in every active quest of the player from
/// index `i` on.
pub open spec fn with_catch_counted(
    rows: Seq<PlayerQuestView>,
    player_id: Seq<char>,
    item_id: Seq<char>,
    rarity: u8,
    i: int,
) -> Seq<PlayerQuestView>
    decreases rows.len() - i,
{
    if i < 0 || i >= rows.len() {
        rows
    } else if is_active_row(rows[i], player_id) {
        with_catch_counted(
            rows.update(
                i,
                PlayerQuestView {
                    progress: progress_after_catch(rows[i].progress, item_id, rarity),
                    ..rows[i]
                },
            ),
            player_id,
            item_id,
            rarity,
            i + 1,
        )
    } else {
        with_catch_counted(rows, player_id, item_id, rarity, i + 1)
    }
}

/// The counts of every active quest of the player from index `i` on have
/// room for one more catch.
pub open spec fn catch_counted_fits(
    rows: Seq<PlayerQuestView>,
    player_id: Seq<char>,
    item_id: Seq<char>,
    i: int,
) -> bool
    decreases rows.len() - i,
{
    if i < 0 || i >= rows.len() {
        true
    } else {
        &&& is_active_row(rows[i], player_id) ==> progress_fits(rows[i].progress, item_id)
        &&& catch_counted_fits(rows, player_id, item_id, i + 1)
    }
}

proof fn lemma_fits_from_later_rows(
    a: Seq<PlayerQuestView>,
    b: Seq<PlayerQuestView>,
    player_id: Seq<char>,
    item_id: Seq<char>,
    i: int,
)
    requires
        0 <= i,
        a.len() == b.len(),
        forall|k: int| i <= k < a.len() ==> a[k] == b[k],
    ensures
        catch_counted_fits(a, player_id, item_id, i) == catch_counted_fits(b, player_id, item_id, i),
    decreases a.len() - i,
{
    if i < a.len() {
        lemma_fits_from_later_rows(a, b, player_id, item_id, i + 1);
    }
}

/// A catch is counted row by row: each active quest of the player from index
/// `i` on has the progress after the catch, and every other row is as it
/// was.
pub proof fn lemma_catch_counted_in_each_row(
    rows: Seq<PlayerQuestView>,
    player_id: Seq<char>,
    item_id: Seq<char>,
    rarity: u8,
    i: int,
    k: int,
)
    requires
        0 <= i,
        0 <= k < rows.len(),
    ensures
        with_catch_counted(rows, player_id, item_id, rarity, i).len() == rows.len(),
        with_catch_counted(rows, player_id, item_id, rarity, i)[k] == (if i <= k && is_active_row(
            rows[k],
            player_id,
        ) {
            PlayerQuestView {
                progress: progress_after_catch(rows[k].progress, item_id, rarity),
                ..rows[k]
            }
        } else {
            rows[k]
        }),
    decreases rows.len() - i,
{
    if i < rows.len() {
        if is_active_row(rows[i], player_id) {
            let counted = rows.update(
                i,
                PlayerQuestView {
                    progress: progress_after_catch(rows[i].progress, item_id, rarity),
                    ..rows[i]
                },
            );
            lemma_catch_counted_in_each_row(counted, player_id, item_id, rarity, i + 1, k);
        } else {
            lemma_catch_counted_in_each_row(rows, player_id, item_id, rarity, i + 1, k);
        }
    }
}

/// Counting a catch moves no row: the row of any player and quest, in any
/// state, is found where it was.
pub proof fn lemma_catch_keeps_quest_rows(
    rows: Seq<PlayerQuestView>,
    player_id: Seq<char>,
    item_id: Seq<char>,
    rarity: u8,
    of_player: Seq<char>,
    of_quest: Seq<char>,
    state: QuestState,
    i: int,
)
    requires
        0 <= i,
    ensures
        player_quest_index_from(
            with_catch_counted(rows, player_id, item_id, rarity, 0),
            of_player,
            of_quest,
            state,
            i,
        ) == player_quest_index_from(rows, of_player, of_quest, state, i),
    decreases rows.len() - i,
{
    if rows.len() > 0 {
        lemma_catch_counted_in_each_row(rows, player_id, item_id, rarity, 0, 0);
    }
    if i < rows.len() {
        lemma_catch_counted_in_each_row(rows, player_id, item_id, rarity, 0, i);
        lemma_catch_keeps_quest_rows(
            rows,
            player_id,
            item_id,
            rarity,
            of_player,
            of_quest,
            state,
            i + 1,
        );
    }
}

fn count_catch(progress: &String, item: &Vec<char>, rarity: u8) -> (r: String)
    requires
        progress_fits(progress@, item@),
    ensures
        r@ == progress_after_catch(progress@, item@, rarity),
{
    let doc = to_chars(progress.as_str());
    let counted = number_set(&doc, item, count_in(&doc, item) + 1);
    let total = to_chars("total");
    let totalled = number_set(&counted, &total, count_in(&counted, &total) + 1);
    let max_rarity = to_chars("max_rarity");
    if rarity as u32 > count_in(&totalled, &max_rarity) {
        let raised = number_set(&totalled, &max_rarity, rarity as u32);
        from_chars(&raised)
    } else {
        from_chars(&totalled)
    }
}

/// Counts a catch in the progress of every active quest of the player,
/// whether the quest asks for that fish or not.
pub fn update_quest_progress_for_fish(w: &mut World, player_id: &str, item_id: &str, rarity: u8)
    requires
        catch_counted_fits(old(w)@.player_quests, player_id@, item_id@, 0),
    ensures
        final(w)@ == (WorldView {
            player_quests: with_catch_counted(
                old(w)@.player_quests,
                player_id@,
                item_id@,
                rarity,
                0,
            ),
            ..old(w)@
        }),
{
    let pid = player_id.to_owned();
    let item = to_chars(item_id);
    let mut i: usize = 0;
    while i < w.player_quests.len()
        invariant
            i <= w.player_quests.len(),
            pid@ == player_id@,
            item@ == item_id@,
            with_catch_counted(old(w)@.player_quests, player_id@, item_id@, rarity, 0)
                == with_catch_counted(w@.player_quests, player_id@, item_id@, rarity, i as int),
            catch_counted_fits(w@.player_quests, player_id@, item_id@, i as int),
            w@ == (WorldView { player_quests: w@.player_quests, ..old(w)@ }),
        decreases w.player_quests.len() - i,
    {
        let ghost rows = w@.player_quests;
        assert(rows[i as int] == w.player_quests[i as int]@);
        if w.player_quests[i].player_id == pid && string_is(&w.player_quests[i].status, "active") {
            let progress = count_catch(&w.player_quests[i].progress, &item, rarity);
            w.player_quests[i].progress = progress;
            assert(w@.player_quests =~= rows.update(
                i as int,
                PlayerQuestView {
                    progress: progress_after_catch(rows[i as int].progress, item_id@, rarity),
                    ..rows[i as int]
                },
            ));
            proof {
                lemma_fits_from_later_rows(rows, w@.player_quests, player_id@, item_id@, i + 1);
            }
        }
        i += 1;
    }
}

// ---------------------------------------------------------------------------
// Accepting
// ---------------------------------------------------------------------------
/// The index of the row that accepting the quest replaces: the first row of
/// the player and the quest, if it is completed and the quest is a daily one.
pub open spec fn replaced_row(w: WorldView, player_id: Seq<char>, quest_id: Seq<char>) -> Option<
    int,
> {
    match quest_index(w.quests, quest_id) {
        Some(q) => match player_quest_index(w.player_quests, player_id, quest_id, QuestState::Any) {
            Some(i) => if w.player_quests[i].status == "completed"@ && w.quests[q].quest_type
                == "daily"@ {
                Some(i)
            } else {
                None
            },
            None => None,
        },
        None => None,
    }
}

/// The rows of the players' quests without the row that accepting the quest
/// replaces.
pub open spec fn rows_kept(w: WorldView, player_id: Seq<char>, quest_id: Seq<char>) -> Seq<
    PlayerQuestView,
> {
    match replaced_row(w, player_id, quest_id) {
        Some(i) => w.player_quests.remove(i),
        None => w.player_quests,
    }
}

/// Why accepting a quest is turned down, if it is: the quest is unknown, the
/// player is in it, the player has completed it and it is a story quest, or
/// it has a prerequisite that the player has not completed.
pub open spec fn accept_rejection(w: WorldView, player_id: Seq<char>, quest_id: Seq<char>) -> Option<
    Rejection,
> {
    match quest_index(w.quests, quest_id) {
        None => Some(Rejection::QuestNotFound),
        Some(q) => {
            let existing = player_quest_index(
                w.player_quests,
                player_id,
                quest_id,
                QuestState::Any,
            );
            if existing is Some && w.player_quests[existing->0].status == "active"@ {
                Some(Rejection::QuestAlreadyActive)
            } else if existing is Some && w.player_quests[existing->0].status == "completed"@
                && w.quests[q].quest_type == "story"@ {
                Some(Rejection::QuestAlreadyCompleted)
            } else {
                match w.quests[q].prerequisite_quest_id {
                    Some(pre) => if player_quest_index(
                        rows_kept(w, player_id, quest_id),
                        player_id,
                        pre,
                        QuestState::Completed,
                    ) is None {
                        Some(Rejection::PrerequisiteNotMet)
                    } else {
                        None
                    },
                    None => None,
                }
            }
        },
    }
}

/// The world after the player accepts the quest at `now`: a completed daily
/// row is gone, and a new active row with the empty progress `{}` is added.
pub open spec fn after_accept(w: WorldView, player_id: Seq<char>, quest_id: Seq<char>, now: i64) -> WorldView {
    WorldView {
        player_quests: rows_kept(w, player_id, quest_id).push(
            PlayerQuestView {
                id: w.next_player_quest_id,
                player_id,
                quest_id,
                status: "active"@,
                progress: "{}"@,
                accepted_at: Some(now),
                completed_at: None,
            },
        ),
        next_player_quest_id: (w.next_player_quest_id + 1) as u64,
        ..w
    }
}

/// A quest that is accepted by a player who is not in it begins with the
/// empty progress: the new row is the last, it is the active row of the
/// player and the quest, and its progress is `{}`. No account and no
/// definition of a quest changes.
pub proof fn lemma_accepted_quest_begins_empty(
    w: WorldView,
    player_id: Seq<char>,
    quest_id: Seq<char>,
    now: i64,
)
    requires
        player_quest_index(w.player_quests, player_id, quest_id, QuestState::Active) is None,
    ensures
        ({
            let after = after_accept(w, player_id, quest_id, now);
            let last = after.player_quests.len() - 1;
            &&& after.players == w.players
            &&& after.quests == w.quests
            &&& player_quest_index(after.player_quests, player_id, quest_id, QuestState::Active)
                == Some(last)
            &&& after.player_quests[last].progress == "{}"@
        }),
{
    let rows = w.player_quests;
    let kept = rows_kept(w, player_id, quest_id);
    let after = after_accept(w, player_id, quest_id, now).player_quests;
    lemma_player_quest_index_found(rows, player_id, quest_id, QuestState::Active, 0);
    lemma_player_quest_index_found(rows, player_id, quest_id, QuestState::Any, 0);
    lemma_player_quest_index_found(after, player_id, quest_id, QuestState::Active, 0);
    assert forall|j: int| 0 <= j < kept.len() implies !is_quest_row(
        #[trigger] after[j],
        player_id,
        quest_id,
        QuestState::Active,
    ) by {
        match replaced_row(w, player_id, quest_id) {
            Some(gone) => {
                if j < gone {
                    assert(after[j] == rows[j]);
                } else {
                    assert(after[j] == rows[j + 1]);
                }
            },
            None => {
                assert(after[j] == rows[j]);
            },
        }
    }
    assert(is_quest_row(after[kept.len() as int], player_id, quest_id, QuestState::Active));
}

/// Accepts a quest for a player. Returns the id of the new row.
pub fn accept_quest(w: &mut World, player_id: &str, quest_id: &str, now: i64) -> (r: Result<
    u64,
    Rejection,
>)
    requires
        accept_rejection(old(w)@, player_id@, quest_id@) is None ==> old(w).next_player_quest_id
            < u64::MAX,
    ensures
        match r {
            Ok(id) => accept_rejection(old(w)@, player_id@, quest_id@) is None && id == old(
                w,
            ).next_player_quest_id && final(w)@ == after_accept(
                old(w)@,
                player_id@,
                quest_id@,
                now,
            ),
            Err(e) => accept_rejection(old(w)@, player_id@, quest_id@) == Some(e) && final(w)@
                == old(w)@,
        },
{
    let pid = player_id.to_owned();
    let qid = quest_id.to_owned();
    let q = match find_quest(&w.quests, &qid) {
        Some(q) => q,
        None => {
            return Err(Rejection::QuestNotFound);
        },
    };
    assert(w@.quests[q as int] == w.quests[q as int]@);
    let mut replaced: Option<usize> = None;
    match find_player_quest(&w.player_quests, &pid, &qid, QuestState::Any) {
        Some(i) => {
            assert(w@.player_quests[i as int] == w.player_quests[i as int]@);
            if string_is(&w.player_quests[i].status, "active") {
                return Err(Rejection::QuestAlreadyActive);
            }
            if string_is(&w.player_quests[i].status, "completed") {
                if string_is(&w.quests[q].quest_type, "story") {
                    return Err(Rejection::QuestAlreadyCompleted);
                }
                if string_is(&w.quests[q].quest_type, "daily") {
                    replaced = Some(i);
                }
            }
        },
        None => {},
    }
    proof {
        reveal_strlit("story");
        reveal_strlit("daily");
        reveal_strlit("active");
        reveal_strlit("completed");
        assert("story"@ != "daily"@) by {
            assert("story"@[0] != "daily"@[0]);
        }
        assert("active"@.len() != "completed"@.len());
    }
    assert(match replaced {
        Some(i) => replaced_row(w@, player_id@, quest_id@) == Some(i as int),
        None => replaced_row(w@, player_id@, quest_id@) is None,
    });
    let mut stash: Option<PlayerQuest> = None;
    match replaced {
        Some(i) => {
            let ghost rows = w@.player_quests;
            let row = w.player_quests.remove(i);
            assert(w@.player_quests =~= rows.remove(i as int));
            stash = Some(row);
        },
        None => {},
    }
    assert(w@.player_quests == rows_kept(old(w)@, player_id@, quest_id@));
    let met = match &w.quests[q].prerequisite_quest_id {
        Some(pre) => find_player_quest(&w.player_quests, &pid, pre, QuestState::Completed).is_some(),
        None => true,
    };
    if !met {
        match replaced {
            Some(i) => {
                match stash {
                    Some(row) => {
                        let ghost rows = w@.player_quests;
                        let ghost row_view = row@;
                        w.player_quests.insert(i, row);
                        assert(w@.player_quests =~= rows.insert(i as int, row_view));
                        assert(w@.player_quests =~= old(w)@.player_quests);
                    },
                    None => {},
                }
            },
            None => {},
        }
        return Err(Rejection::PrerequisiteNotMet);
    }
    let id = w.next_player_quest_id;
    let ghost rows = w@.player_quests;
    w.player_quests.push(
        PlayerQuest {
            id,
            player_id: pid,
            quest_id: qid,
            status: "active".to_owned(),
            progress: "{}".to_owned(),
            accepted_at: Some(now),
            completed_at: None,
        },
    );
    assert(w@.player_quests =~= rows.push(
        PlayerQuestView {
            id,
            player_id: player_id@,
            quest_id: quest_id@,
            status: "active"@,
            progress: "{}"@,
            accepted_at: Some(now),
            completed_at: None,
        },
    ));
    w.next_player_quest_id = id + 1;
    Ok(id)
}

// ---------------------------------------------------------------------------
// Rewards
// ---------------------------------------------------------------------------
/// The item that a reward object grants: the item that it names, if it asks
/// for at least one unit of it. An object that names no item, or asks for
/// no unit, grants nothing.
pub open spec fn granted_item(obj: Seq<char>) -> Option<Seq<char>> {
    if reward_quantity(obj) >= 1 {
        reward_item_id(obj)
    } else {
        None
    }
}

/// The stack that a reward object grants: the quantity it names, but no more
/// than one stack of the item holds, at rarity 0.
pub open spec fn reward_stack(id: u64, player_id: Seq<char>, item_id: Seq<char>, obj: Seq<char>) -> InventoryView {
    InventoryView {
        id,
        player_id,
        item_id,
        rarity: 0,
        quantity: if reward_quantity(obj) <= capacity(item_id) {
            reward_quantity(obj)
        } else {
            capacity(item_id) as u32
        },
    }
}

/// The world after the player is granted the reward objects from index `k`
/// on: each object that grants an item adds one new stack.
pub open spec fn with_reward_items(
    w: WorldView,
    player_id: Seq<char>,
    objs: Seq<Seq<char>>,
    k: int,
) -> WorldView
    decreases objs.len() - k,
{
    if k < 0 || k >= objs.len() {
        w
    } else {
        match granted_item(objs[k]) {
            Some(item_id) => with_reward_items(
                WorldView {
                    inventory: w.inventory.push(
                        reward_stack(w.next_inventory_id, player_id, item_id, objs[k]),
                    ),
                    next_inventory_id: (w.next_inventory_id + 1) as u64,
                    ..w
                },
                player_id,
                objs,
                k + 1,
            ),
            None => with_reward_items(w, player_id, objs, k + 1),
        }
    }
}

/// The number of reward objects from index `k` on that grant an item.
pub open spec fn reward_stacks(objs: Seq<Seq<char>>, k: int) -> nat
    decreases objs.len() - k,
{
    if k < 0 || k >= objs.len() {
        0
    } else if granted_item(objs[k]) is Some {
        1 + reward_stacks(objs, k + 1)
    } else {
        reward_stacks(objs, k + 1)
    }
}

/// The world after the player at index `p` is paid the gold that the rewards
/// name, at `now`. Nothing changes where they name none.
pub open spec fn with_reward_gold(w: WorldView, p: int, rewards: Seq<char>, now: i64) -> WorldView {
    match number_at(rewards, "gold"@) {
        Some(gold) => WorldView {
            players: w.players.update(
                p,
                PlayerView {
                    gold: (w.players[p].gold + gold) as u32,
                    last_updated: now,
                    ..w.players[p]
                },
            ),
            ..w
        },
        None => w,
    }
}

/// The world after the player at index `p` is granted the rewards of a quest
/// at `now`: the gold under `gold`, and a new stack for each object of the
/// list under `items` that grants an item.
pub open spec fn with_rewards(w: WorldView, p: int, rewards: Seq<char>, now: i64) -> WorldView {
    with_reward_items(
        with_reward_gold(w, p, rewards, now),
        w.players[p].id,
        objects_at(rewards, "items"@),
        0,
    )
}

/// The account has room for the gold, and the counter of stacks for the
/// stacks, that the rewards grant to the player.
pub open spec fn rewards_fit(w: WorldView, player_id: Seq<char>, rewards: Seq<char>) -> bool {
    match player_index(w.players, player_id) {
        Some(p) => {
            &&& match number_at(rewards, "gold"@) {
                Some(gold) => w.players[p].gold + gold <= u32::MAX,
                None => true,
            }
            &&& w.next_inventory_id + reward_stacks(objects_at(rewards, "items"@), 0) <= u64::MAX
        },
        None => true,
    }
}

/// Granting reward items keeps a valid ledger valid, and touches nothing but
/// the inventory and its counter.
pub proof fn lemma_reward_items_valid(
    w: WorldView,
    player_id: Seq<char>,
    objs: Seq<Seq<char>>,
    k: int,
)
    requires
        0 <= k,
    ensures
        ledger_valid(w.inventory) ==> ledger_valid(
            with_reward_items(w, player_id, objs, k).inventory,
        ),
        with_reward_items(w, player_id, objs, k) == (WorldView {
            inventory: with_reward_items(w, player_id, objs, k).inventory,
            next_inventory_id: with_reward_items(w, player_id, objs, k).next_inventory_id,
            ..w
        }),
    decreases objs.len() - k,
{
    if k < objs.len() {
        match granted_item(objs[k]) {
            Some(item_id) => {
                let stack = reward_stack(w.next_inventory_id, player_id, item_id, objs[k]);
                let next = WorldView {
                    inventory: w.inventory.push(stack),
                    next_inventory_id: (w.next_inventory_id + 1) as u64,
                    ..w
                };
                if ledger_valid(w.inventory) {
                    assert forall|j: int| 0 <= j < next.inventory.len() implies 1 <= (
                    #[trigger] next.inventory[j]).quantity <= capacity(
                        next.inventory[j].item_id,
                    ) by {
                        if j < w.inventory.len() {
                            assert(next.inventory[j] == w.inventory[j]);
                        }
                    }
                }
                lemma_reward_items_valid(next, player_id, objs, k + 1);
            },
            None => {
                lemma_reward_items_valid(w, player_id, objs, k + 1);
            },
        }
    }
}

/// Grants the rewards of a quest to a player: the gold that they name, and
/// for each item that they list a new stack of the quantity asked for, but of
/// no more than one stack holds. An item of which no unit is asked for is not
/// granted. Turned down, with nothing granted, where the player has no
/// account.
pub fn grant_quest_rewards(w: &mut World, player_id: &str, rewards_json: &str, now: i64) -> (r:
    Result<(), Rejection>)
    requires
        rewards_fit(old(w)@, player_id@, rewards_json@),
    ensures
        match r {
            Ok(_) => match player_index(old(w)@.players, player_id@) {
                Some(p) => final(w)@ == with_rewards(old(w)@, p, rewards_json@, now),
                None => false,
            },
            Err(e) => e == Rejection::PlayerNotFound && player_index(old(w)@.players, player_id@)
                is None && final(w)@ == old(w)@,
        },
        ledger_valid(old(w)@.inventory) ==> ledger_valid(final(w)@.inventory),
{
    let pid = player_id.to_owned();
    let p = match find_player(&w.players, &pid) {
        Some(p) => p,
        None => {
            return Err(Rejection::PlayerNotFound);
        },
    };
    let rewards = to_chars(rewards_json);
    let gold_key = to_chars("gold");
    let ghost players_before = w@.players;
    assert(players_before[p as int] == w.players[p as int]@);
    match number_in(&rewards, &gold_key) {
        Some(gold) => {
            w.players[p].gold = w.players[p].gold + gold;
            w.players[p].last_updated = now;
            assert(w@.players =~= players_before.update(
                p as int,
                PlayerView {
                    gold: (players_before[p as int].gold + gold) as u32,
                    last_updated: now,
                    ..players_before[p as int]
                },
            ));
        },
        None => {},
    }
    let items_key = to_chars("items");
    let objs = objects_in(&rewards, &items_key);
    let ghost goal = with_rewards(old(w)@, p as int, rewards_json@, now);
    proof {
        lemma_reward_items_valid(w@, player_id@, texts(objs@), 0);
    }
    let mut k: usize = 0;
    while k < objs.len()
        invariant
            k <= objs.len(),
            pid@ == player_id@,
            goal == with_reward_items(w@, player_id@, texts(objs@), k as int),
            w@.next_inventory_id + reward_stacks(texts(objs@), k as int) <= u64::MAX,
        decreases objs.len() - k,
    {
        assert(texts(objs@)[k as int] == objs[k as int]@);
        let key = to_chars("quantity");
        let quantity = match number_in(&objs[k], &key) {
            Some(n) => n,
            None => 1,
        };
        if quantity >= 1 {
            match reward_item_id_in(&objs[k]) {
                Some(item) => {
                    let item_id = from_chars(&item);
                    let cap = get_max_stack_size(item_id.as_str());
                    let ghost inventory_before = w@.inventory;
                    w.inventory.push(
                        Inventory {
                            id: w.next_inventory_id,
                            player_id: pid.clone(),
                            item_id,
                            rarity: 0,
                            quantity: if quantity <= cap {
                                quantity
                            } else {
                                cap
                            },
                        },
                    );
                    assert(w@.inventory =~= inventory_before.push(
                        reward_stack(w.next_inventory_id, player_id@, item@, objs[k as int]@),
                    ));
                    w.next_inventory_id = w.next_inventory_id + 1;
                },
                None => {},
            }
        }
        k += 1;
    }
    Ok(())
}

// ---------------------------------------------------------------------------
// Completing
// ---------------------------------------------------------------------------
/// Why completing a quest is turned down, if it is: the player has no account
/// to be rewarded, the player is not in the quest, the definition of the
/// quest is gone, or the progress does not meet the requirements.
pub open spec fn completion_rejection(w: WorldView, player_id: Seq<char>, quest_id: Seq<char>) -> Option<
    Rejection,
> {
    if player_index(w.players, player_id) is None {
        Some(Rejection::PlayerNotFound)
    } else {
        match player_quest_index(w.player_quests, player_id, quest_id, QuestState::Active) {
            None => Some(Rejection::QuestNotActive),
            Some(i) => match quest_index(w.quests, quest_id) {
                None => Some(Rejection::QuestDefinitionMissing),
                Some(q) => if requirements_met(
                    w.quests[q].requirements,
                    w.player_quests[i].progress,
                ) {
                    None
                } else {
                    Some(Rejection::RequirementsNotMet)
                },
            },
        }
    }
}

/// What the event of a completed quest carries: the rewards of the quest.
pub open spec fn rewards_metadata(rewards: Seq<char>) -> Seq<char> {
    "{\"rewards\":"@ + rewards + "}"@
}

/// The world after the player at index `p` completes the quest at `now`,
/// where `i` is the index of the player's active row and `q` that of the
/// quest: the row is completed, the rewards are granted, the experience of
/// the quest is gained, and the completion is recorded.
pub open spec fn after_completion(w: WorldView, p: int, i: int, q: int, now: i64) -> WorldView {
    let player_id = w.players[p].id;
    let completed = WorldView {
        player_quests: w.player_quests.update(
            i,
            PlayerQuestView { status: "completed"@, completed_at: Some(now), ..w.player_quests[i] },
        ),
        ..w
    };
    let rewarded = with_rewards(completed, p, w.quests[q].rewards, now);
    let levelled = with_xp(rewarded, player_id, quest_xp(w.quests[q].quest_type) as u64);
    with_event(
        levelled,
        event(
            player_id,
            "quest_completed"@,
            Some(w.quests[q].id),
            None,
            None,
            None,
            None,
            Some(rewards_metadata(w.quests[q].rewards)),
        ),
        now,
    )
}

/// A completion that is not turned down can be computed in machine integers.
pub open spec fn completion_fits(w: WorldView, player_id: Seq<char>, quest_id: Seq<char>) -> bool {
    completion_rejection(w, player_id, quest_id) is None ==> {
        let q = quest_index(w.quests, quest_id)->0;
        &&& rewards_fit(w, player_id, w.quests[q].rewards)
        &&& xp_fits(w, player_id, quest_xp(w.quests[q].quest_type) as u64)
        &&& w.next_event_id < u64::MAX
    }
}

fn rewards_text(rewards: &String) -> (r: String)
    ensures
        r@ == rewards_metadata(rewards@),
{
    let mut out = to_chars("{\"rewards\":");
    let body = to_chars(rewards.as_str());
    append_chars(&mut out, &body);
    let tail = to_chars("}");
    append_chars(&mut out, &tail);
    from_chars(&out)
}

/// Completes a quest that the player is in, if the progress meets its
/// requirements: grants its rewards and its experience, 150 for a story
/// quest and 50 for any other. Turned down, with nothing changed, where the
/// player has no account.
pub fn complete_quest(w: &mut World, player_id: &str, quest_id: &str, now: i64) -> (r: Result<
    (),
    Rejection,
>)
    requires
        completion_fits(old(w)@, player_id@, quest_id@),
    ensures
        match r {
            Ok(_) => completion_rejection(old(w)@, player_id@, quest_id@) is None && final(w)@
                == after_completion(
                old(w)@,
                player_index(old(w)@.players, player_id@)->0,
                player_quest_index(
                    old(w)@.player_quests,
                    player_id@,
                    quest_id@,
                    QuestState::Active,
                )->0,
                quest_index(old(w)@.quests, quest_id@)->0,
                now,
            ),
            Err(e) => completion_rejection(old(w)@, player_id@, quest_id@) == Some(e) && final(w)@
                == old(w)@,
        },
        ledger_valid(old(w)@.inventory) ==> ledger_valid(final(w)@.inventory),
{
    let pid = player_id.to_owned();
    let qid = quest_id.to_owned();
    let p = match find_player(&w.players, &pid) {
        Some(p) => p,
        None => {
            return Err(Rejection::PlayerNotFound);
        },
    };
    let i = match find_player_quest(&w.player_quests, &pid, &qid, QuestState::Active) {
        Some(i) => i,
        None => {
            return Err(Rejection::QuestNotActive);
        },
    };
    let q = match find_quest(&w.quests, &qid) {
        Some(q) => q,
        None => {
            return Err(Rejection::QuestDefinitionMissing);
        },
    };
    assert(w@.quests[q as int] == w.quests[q as int]@);
    assert(w@.player_quests[i as int] == w.player_quests[i as int]@);
    assert(w@.players[p as int] == w.players[p as int]@);
    let requirements = to_chars(w.quests[q].requirements.as_str());
    let progress = to_chars(w.player_quests[i].progress.as_str());
    if !requirements_check(&requirements, &progress) {
        return Err(Rejection::RequirementsNotMet);
    }
    let ghost rows = w@.player_quests;
    w.player_quests[i].status = "completed".to_owned();
    w.player_quests[i].completed_at = Some(now);
    assert(w@.player_quests =~= rows.update(
        i as int,
        PlayerQuestView { status: "completed"@, completed_at: Some(now), ..rows[i as int] },
    ));
    let rewards = w.quests[q].rewards.clone();
    let is_story = string_is(&w.quests[q].quest_type, "story");
    let ghost completed = w@;
    let granted = grant_quest_rewards(w, player_id, rewards.as_str(), now);
    assert(granted is Ok);
    proof {
        lemma_reward_items_valid(
            with_reward_gold(completed, p as int, rewards@, now),
            player_id@,
            objects_at(rewards@, "items"@),
            0,
        );
    }
    add_xp_internal(w, player_id, quest_completion_xp(is_story));
    log_event_internal(
        w,
        pid,
        "quest_completed".to_owned(),
        Some(qid),
        None,
        None,
        None,
        None,
        Some(rewards_text(&rewards)),
        now,
    );
    Ok(())
}

// ---------------------------------------------------------------------------
// The quest board
// ---------------------------------------------------------------------------
/// How many quests are open to a player, how many the player is in, and how
/// many the player has completed.
#[derive(Clone, Copy, Debug, PartialEq, Eq)]
pub struct QuestCounts {
    pub available: usize,
    pub active: usize,
    pub completed: usize,
}

/// Where a quest stands for a player.
pub enum QuestStanding {
    /// The player is in the quest.
    Active,
    /// The player has completed the quest.
    Completed,
    /// The player can accept the quest.
    Available,
    /// The quest has a prerequisite that the player has not completed.
    Locked,
}

/// Where the quest at index `q` stands for the player. The first row of the
/// player and the quest decides; without one, or where its status is neither
/// `active` nor `completed`, the prerequisite decides.
pub open spec fn quest_standing(w: WorldView, player_id: Seq<char>, q: int) -> QuestStanding {
    let row = player_quest_index(w.player_quests, player_id, w.quests[q].id, QuestState::Any);
    if row is Some && w.player_quests[row->0].status == "active"@ {
        QuestStanding::Active
    } else if row is Some && w.player_quests[row->0].status == "completed"@ {
        QuestStanding::Completed
    } else {
        match w.quests[q].prerequisite_quest_id {
            Some(pre) => if player_quest_index(
                w.player_quests,
                player_id,
                pre,
                QuestState::Completed,
            ) is Some {
                QuestStanding::Available
            } else {
                QuestStanding::Locked
            },
            None => QuestStanding::Available,
        }
    }
}

/// The number of quests before index `k` that stand as `standing` for the
/// player.
pub open spec fn quests_standing(w: WorldView, player_id: Seq<char>, standing: QuestStanding, k: int) -> nat
    decreases k,
{
    if k <= 0 || k > w.quests.len() {
        0
    } else {
        quests_standing(w, player_id, standing, k - 1) + if quest_standing(w, player_id, k - 1)
            == standing {
            1nat
        } else {
            0nat
        }
    }
}

/// Counts the quests that are open to a player, that the player is in, and
/// that the player has completed.
pub fn get_available_quests(w: &World, player_id: &str) -> (r: QuestCounts)
    ensures
        r.available == quests_standing(w@, player_id@, QuestStanding::Available, w@.quests.len() as int),
        r.active == quests_standing(w@, player_id@, QuestStanding::Active, w@.quests.len() as int),
        r.completed == quests_standing(w@, player_id@, QuestStanding::Completed, w@.quests.len() as int),
{
    let pid = player_id.to_owned();
    let mut counts = QuestCounts { available: 0, active: 0, completed: 0 };
    let mut k: usize = 0;
    proof {
        reveal_strlit("active");
        reveal_strlit("completed");
        assert("active"@.len() != "completed"@.len());
    }
    while k < w.quests.len()
        invariant
            k <= w.quests.len(),
            pid@ == player_id@,
            "active"@ != "completed"@,
            counts.available == quests_standing(w@, player_id@, QuestStanding::Available, k as int),
            counts.active == quests_standing(w@, player_id@, QuestStanding::Active, k as int),
            counts.completed == quests_standing(w@, player_id@, QuestStanding::Completed, k as int),
            counts.available <= k,
            counts.active <= k,
            counts.completed <= k,
        decreases w.quests.len() - k,
    {
        assert(w@.quests[k as int] == w.quests[k as int]@);
        let row = find_player_quest(&w.player_quests, &pid, &w.quests[k].id, QuestState::Any);
        let mut decided = false;
        match row {
            Some(i) => {
                assert(w@.player_quests[i as int] == w.player_quests[i as int]@);
                if string_is(&w.player_quests[i].status, "active") {
                    counts.active = counts.active + 1;
                    decided = true;
                } else if string_is(&w.player_quests[i].status, "completed") {
                    counts.completed = counts.completed + 1;
                    decided = true;
                }
            },
            None => {},
        }
        if !decided {
            let open = match &w.quests[k].prerequisite_quest_id {
                Some(pre) => find_player_quest(
                    &w.player_quests,
                    &pid,
                    pre,
                    QuestState::Completed,
                ).is_some(),
                None => true,
            };
            if open {
                counts.available = counts.available + 1;
            }
        }
        k += 1;
    }
    counts
}

// ---------------------------------------------------------------------------
// Room for the numbers
// ---------------------------------------------------------------------------
fn progress_has_room(progress: &String, item: &Vec<char>) -> (r: bool)
    ensures
        r == progress_fits(progress@, item@),
{
    let doc = to_chars(progress.as_str());
    let count = count_in(&doc, item);
    if count == u32::MAX {
        return false;
    }
    let counted = number_set(&doc, item, count + 1);
    let total = to_chars("total");
    count_in(&counted, &total) < u32::MAX
}

/// Whether the counts of every active quest of the player have room for one
/// more catch.
pub fn can_count_catch(w: &World, player_id: &str, item_id: &str) -> (r: bool)
    ensures
        r == catch_counted_fits(w@.player_quests, player_id@, item_id@, 0),
{
    let pid = player_id.to_owned();
    let item = to_chars(item_id);
    let mut i: usize = w.player_quests.len();
    while i > 0
        invariant
            i <= w.player_quests.len(),
            pid@ == player_id@,
            item@ == item_id@,
            catch_counted_fits(w@.player_quests, player_id@, item_id@, i as int),
        decreases i,
    {
        i -= 1;
        assert(w@.player_quests[i as int] == w.player_quests[i as int]@);
        if w.player_quests[i].player_id == pid && string_is(&w.player_quests[i].status, "active") {
            if !progress_has_room(&w.player_quests[i].progress, &item) {
                proof {
                    lemma_fits_needs_every_row(w@.player_quests, player_id@, item_id@, 0, i as int);
                }
                return false;
            }
        }
    }
    true
}

proof fn lemma_fits_needs_every_row(
    rows: Seq<PlayerQuestView>,
    player_id: Seq<char>,
    item_id: Seq<char>,
    i: int,
    bad: int,
)
    requires
        0 <= i <= bad < rows.len(),
        is_active_row(rows[bad], player_id),
        !progress_fits(rows[bad].progress, item_id),
    ensures
        !catch_counted_fits(rows, player_id, item_id, i),
    decreases bad - i,
{
    if i < bad {
        lemma_fits_needs_every_row(rows, player_id, item_id, i + 1, bad);
    }
}

/// Whether the account has room for the gold, and the counter of stacks for
/// the stacks, that the rewards grant to the player.
pub fn can_grant_rewards(w: &World, player_id: &str, rewards_json: &str) -> (r: bool)
    ensures
        r == rewards_fit(w@, player_id@, rewards_json@),
{
    let pid = player_id.to_owned();
    let p = match find_player(&w.players, &pid) {
        Some(p) => p,
        None => {
            return true;
        },
    };
    assert(w@.players[p as int] == w.players[p as int]@);
    let rewards = to_chars(rewards_json);
    let gold_key = to_chars("gold");
    match number_in(&rewards, &gold_key) {
        Some(gold) => {
            if w.players[p].gold > u32::MAX - gold {
                return false;
            }
        },
        None => {},
    }
    let items_key = to_chars("items");
    let objs = objects_in(&rewards, &items_key);
    let mut stacks: usize = 0;
    let mut k: usize = objs.len();
    while k > 0
        invariant
            k <= objs.len(),
            stacks == reward_stacks(texts(objs@), k as int),
            stacks <= objs.len() - k,
        decreases k,
    {
        k -= 1;
        assert(texts(objs@)[k as int] == objs[k as int]@);
        let key = to_chars("quantity");
        let quantity = match number_in(&objs[k], &key) {
            Some(n) => n,
            None => 1,
        };
        if quantity >= 1 && reward_item_id_in(&objs[k]).is_some() {
            stacks += 1;
        }
    }
    stacks as u128 + w.next_inventory_id as u128 <= u64::MAX as u128
}

fn find_player_quest_without(
    rows: &Vec<PlayerQuest>,
    player_id: &String,
    quest_id: &String,
    state: QuestState,
    skipped: usize,
) -> (r: bool)
    requires
        skipped < rows.len(),
    ensures
        r == player_quest_index(
            player_quests_view(rows@).remove(skipped as int),
            player_id@,
            quest_id@,
            state,
        ).is_some(),
{
    let ghost kept = player_quests_view(rows@).remove(skipped as int);
    let mut m: usize = 0;
    while m + 1 < rows.len()
        invariant
            m + 1 <= rows.len(),
            skipped < rows.len(),
            kept == player_quests_view(rows@).remove(skipped as int),
            player_quest_index(kept, player_id@, quest_id@, state) == crate::store::player_quest_index_from(
                kept,
                player_id@,
                quest_id@,
                state,
                m as int,
            ),
        decreases rows.len() - m,
    {
        let at: usize = if m < skipped {
            m
        } else {
            m + 1
        };
        assert(kept[m as int] == rows[at as int]@);
        if crate::store::row_is_quest_row(&rows[at], player_id, quest_id, &state) {
            return true;
        }
        m += 1;
    }
    false
}

/// Why accepting the quest would be turned down, if it would be.
pub fn accept_verdict(w: &World, player_id: &str, quest_id: &str) -> (r: Option<Rejection>)
    ensures
        r == accept_rejection(w@, player_id@, quest_id@),
{
    let pid = player_id.to_owned();
    let qid = quest_id.to_owned();
    let q = match find_quest(&w.quests, &qid) {
        Some(q) => q,
        None => {
            return Some(Rejection::QuestNotFound);
        },
    };
    assert(w@.quests[q as int] == w.quests[q as int]@);
    let mut replaced: Option<usize> = None;
    match find_player_quest(&w.player_quests, &pid, &qid, QuestState::Any) {
        Some(i) => {
            assert(w@.player_quests[i as int] == w.player_quests[i as int]@);
            if string_is(&w.player_quests[i].status, "active") {
                return Some(Rejection::QuestAlreadyActive);
            }
            if string_is(&w.player_quests[i].status, "completed") {
                if string_is(&w.quests[q].quest_type, "story") {
                    return Some(Rejection::QuestAlreadyCompleted);
                }
                if string_is(&w.quests[q].quest_type, "daily") {
                    replaced = Some(i);
                }
            }
        },
        None => {},
    }
    proof {
        reveal_strlit("story");
        reveal_strlit("daily");
        reveal_strlit("active");
        reveal_strlit("completed");
        assert("story"@ != "daily"@) by {
            assert("story"@[0] != "daily"@[0]);
        }
        assert("active"@.len() != "completed"@.len());
    }
    let met = match &w.quests[q].prerequisite_quest_id {
        Some(pre) => match replaced {
            Some(i) => find_player_quest_without(
                &w.player_quests,
                &pid,
                pre,
                QuestState::Completed,
                i,
            ),
            None => find_player_quest(&w.player_quests, &pid, pre, QuestState::Completed).is_some(),
        },
        None => true,
    };
    if met {
        None
    } else {
        Some(Rejection::PrerequisiteNotMet)
    }
}

/// Whether accepting the quest, if it is not turned down, finds room in the
/// counter of rows.
pub fn can_accept_quest(w: &World, player_id: &str, quest_id: &str) -> (r: bool)
    ensures
        r == (accept_rejection(w@, player_id@, quest_id@) is None ==> w.next_player_quest_id
            < u64::MAX),
{
    w.next_player_quest_id < u64::MAX || accept_verdict(w, player_id, quest_id).is_some()
}

/// Why completing the quest would be turned down, if it would be.
pub fn completion_verdict(w: &World, player_id: &str, quest_id: &str) -> (r: Option<Rejection>)
    ensures
        r == completion_rejection(w@, player_id@, quest_id@),
{
    let pid = player_id.to_owned();
    let qid = quest_id.to_owned();
    if find_player(&w.players, &pid).is_none() {
        return Some(Rejection::PlayerNotFound);
    }
    let i = match find_player_quest(&w.player_quests, &pid, &qid, QuestState::Active) {
        Some(i) => i,
        None => {
            return Some(Rejection::QuestNotActive);
        },
    };
    let q = match find_quest(&w.quests, &qid) {
        Some(q) => q,
        None => {
            return Some(Rejection::QuestDefinitionMissing);
        },
    };
    assert(w@.quests[q as int] == w.quests[q as int]@);
    assert(w@.player_quests[i as int] == w.player_quests[i as int]@);
    let requirements = to_chars(w.quests[q].requirements.as_str());
    let progress = to_chars(w.player_quests[i].progress.as_str());
    if requirements_check(&requirements, &progress) {
        None
    } else {
        Some(Rejection::RequirementsNotMet)
    }
}

/// Whether completing the quest, if it is not turned down, can be computed
/// in machine integers.
pub fn can_complete_quest(w: &World, player_id: &str, quest_id: &str) -> (r: bool)
    ensures
        r == completion_fits(w@, player_id@, quest_id@),
{
    match completion_verdict(w, player_id, quest_id) {
        Some(_) => true,
        None => {
            let qid = quest_id.to_owned();
            match find_quest(&w.quests, &qid) {
                Some(q) => {
                    assert(w@.quests[q as int] == w.quests[q as int]@);
                    let is_story = string_is(&w.quests[q].quest_type, "story");
                    can_grant_rewards(w, player_id, w.quests[q].rewards.as_str()) && can_add_xp(
                        w,
                        player_id,
                        quest_completion_xp(is_story),
                    ) && w.next_event_id < u64::MAX
                },
                None => true,
            }
        },
    }
}

} // verus!
