//! Keeping the definitions: quests, items and storylines are created,
//! changed and removed here, and the stock definitions are seeded.

use crate::store::{
    find_item, find_quest, find_storyline, item_index, quest_index, storyline_index,
    ItemDefinition, PlayerQuestView, Quest, QuestView, Rejection, Storyline, World, WorldView,
};
use vstd::prelude::*;

verus! {

// ---------------------------------------------------------------------------
// Quests
// ---------------------------------------------------------------------------
/// The rows of the players' quests without those, from index `i` on, that
/// are of the quest.
pub open spec fn without_quest(rows: Seq<PlayerQuestView>, quest_id: Seq<char>, i: int) -> Seq<
    PlayerQuestView,
>
    decreases rows.len() - i,
{
    if i < 0 || i >= rows.len() {
        rows
    } else if rows[i].quest_id == quest_id {
        without_quest(rows.remove(i), quest_id, i)
    } else {
        without_quest(rows, quest_id, i + 1)
    }
}

/// The world with the quest added.
pub open spec fn with_quest(w: WorldView, quest: QuestView) -> WorldView {
    WorldView { quests: w.quests.push(quest), ..w }
}

/// The world with the quest at index `q` replaced by one of the same id.
pub open spec fn with_quest_changed(w: WorldView, q: int, quest: QuestView) -> WorldView {
    WorldView { quests: w.quests.update(q, QuestView { id: w.quests[q].id, ..quest }), ..w }
}

/// The world without the quest at index `q` and without any player's row of
/// that quest.
pub open spec fn with_quest_deleted(w: WorldView, q: int) -> WorldView {
    WorldView {
        quests: w.quests.remove(q),
        player_quests: without_quest(w.player_quests, w.quests[q].id, 0),
        ..w
    }
}

/// Creates a quest. Turned down where a quest with the id exists.
pub fn admin_create_quest(w: &mut World, quest: Quest) -> (r: Result<(), Rejection>)
    ensures
        match r {
            Ok(_) => quest_index(old(w)@.quests, quest@.id) is None && final(w)@ == with_quest(
                old(w)@,
                quest@,
            ),
            Err(e) => e == Rejection::AlreadyExists && quest_index(old(w)@.quests, quest@.id)
                is Some && final(w)@ == old(w)@,
        },
{
    if find_quest(&w.quests, &quest.id).is_some() {
        return Err(Rejection::AlreadyExists);
    }
    let ghost before = w@.quests;
    let ghost added = quest@;
    w.quests.push(quest);
    assert(w@.quests =~= before.push(added));
    Ok(())
}

/// Replaces the quest that has the id of `quest`. Turned down where there is
/// none.
pub fn admin_update_quest(w: &mut World, quest: Quest) -> (r: Result<(), Rejection>)
    ensures
        match r {
            Ok(_) => match quest_index(old(w)@.quests, quest@.id) {
                Some(q) => final(w)@ == with_quest_changed(old(w)@, q, quest@),
                None => false,
            },
            Err(e) => e == Rejection::NotFound && quest_index(old(w)@.quests, quest@.id) is None
                && final(w)@ == old(w)@,
        },
{
    match find_quest(&w.quests, &quest.id) {
        Some(q) => {
            let ghost before = w@.quests;
            let ghost changed = quest@;
            assert(before[q as int] == w.quests[q as int]@);
            w.quests[q] = quest;
            assert(w@.quests =~= before.update(q as int, changed));
            assert(changed == QuestView { id: before[q as int].id, ..changed });
            Ok(())
        },
        None => Err(Rejection::NotFound),
    }
}

fn drop_rows_of_quest(w: &mut World, quest_id: &String) -> (removed: usize)
    ensures
        final(w)@ == (WorldView {
            player_quests: without_quest(old(w)@.player_quests, quest_id@, 0),
            ..old(w)@
        }),
        removed == old(w)@.player_quests.len() - final(w)@.player_quests.len(),
{
    let mut removed: usize = 0;
    let mut i: usize = 0;
    while i < w.player_quests.len()
        invariant
            i <= w.player_quests.len(),
            without_quest(old(w)@.player_quests, quest_id@, 0) == without_quest(
                w@.player_quests,
                quest_id@,
                i as int,
            ),
            w@ == (WorldView { player_quests: w@.player_quests, ..old(w)@ }),
            removed + w.player_quests.len() == old(w).player_quests.len(),
        decreases w.player_quests.len() - i,
    {
        let ghost rows = w@.player_quests;
        assert(rows[i as int] == w.player_quests[i as int]@);
        if w.player_quests[i].quest_id == *quest_id {
            w.player_quests.remove(i);
            assert(w@.player_quests =~= rows.remove(i as int));
            removed += 1;
        } else {
            i += 1;
        }
    }
    removed
}

/// Removes a quest and every player's row of it. Turned down where no quest
/// has the id.
pub fn admin_delete_quest(w: &mut World, id: &str) -> (r: Result<(), Rejection>)
    ensures
        match r {
            Ok(_) => match quest_index(old(w)@.quests, id@) {
                Some(q) => final(w)@ == with_quest_deleted(old(w)@, q),
                None => false,
            },
            Err(e) => e == Rejection::NotFound && quest_index(old(w)@.quests, id@) is None
                && final(w)@ == old(w)@,
        },
{
    let qid = id.to_owned();
    match find_quest(&w.quests, &qid) {
        Some(q) => {
            let ghost before = w@.quests;
            assert(before[q as int] == w.quests[q as int]@);
            w.quests.remove(q);
            assert(w@.quests =~= before.remove(q as int));
            drop_rows_of_quest(w, &qid);
            Ok(())
        },
        None => Err(Rejection::NotFound),
    }
}

/// Removes every player's row of a quest, so that all may accept it afresh.
/// Returns how many rows were removed.
pub fn admin_reset_quest_progress(w: &mut World, quest_id: &str) -> (removed: usize)
    ensures
        final(w)@ == (WorldView {
            player_quests: without_quest(old(w)@.player_quests, quest_id@, 0),
            ..old(w)@
        }),
        removed == old(w)@.player_quests.len() - final(w)@.player_quests.len(),
{
    let qid = quest_id.to_owned();
    drop_rows_of_quest(w, &qid)
}

// ---------------------------------------------------------------------------
// Items
// ---------------------------------------------------------------------------
/// Creates an item definition. Turned down where one with the id exists.
pub fn admin_create_item(w: &mut World, item: ItemDefinition) -> (r: Result<(), Rejection>)
    ensures
        match r {
            Ok(_) => item_index(old(w)@.items, item@.id) is None && final(w)@ == (WorldView {
                items: old(w)@.items.push(item@),
                ..old(w)@
            }),
            Err(e) => e == Rejection::AlreadyExists && item_index(old(w)@.items, item@.id)
                is Some && final(w)@ == old(w)@,
        },
{
    if find_item(&w.items, &item.id).is_some() {
        return Err(Rejection::AlreadyExists);
    }
    let ghost before = w@.items;
    let ghost added = item@;
    w.items.push(item);
    assert(w@.items =~= before.push(added));
    Ok(())
}

/// Replaces the item definition that has the id of `item`. Turned down where
/// there is none.
pub fn admin_update_item(w: &mut World, item: ItemDefinition) -> (r: Result<(), Rejection>)
    ensures
        match r {
            Ok(_) => match item_index(old(w)@.items, item@.id) {
                Some(i) => final(w)@ == (WorldView {
                    items: old(w)@.items.update(i, item@),
                    ..old(w)@
                }),
                None => false,
            },
            Err(e) => e == Rejection::NotFound && item_index(old(w)@.items, item@.id) is None
                && final(w)@ == old(w)@,
        },
{
    match find_item(&w.items, &item.id) {
        Some(i) => {
            let ghost before = w@.items;
            let ghost changed = item@;
            w.items[i] = item;
            assert(w@.items =~= before.update(i as int, changed));
            Ok(())
        },
        None => Err(Rejection::NotFound),
    }
}

/// Removes an item definition. Turned down where none has the id.
pub fn admin_delete_item(w: &mut World, id: &str) -> (r: Result<(), Rejection>)
    ensures
        match r {
            Ok(_) => match item_index(old(w)@.items, id@) {
                Some(i) => final(w)@ == (WorldView {
                    items: old(w)@.items.remove(i),
                    ..old(w)@
                }),
                None => false,
            },
            Err(e) => e == Rejection::NotFound && item_index(old(w)@.items, id@) is None
                && final(w)@ == old(w)@,
        },
{
    let iid = id.to_owned();
    match find_item(&w.items, &iid) {
        Some(i) => {
            let ghost before = w@.items;
            w.items.remove(i);
            assert(w@.items =~= before.remove(i as int));
            Ok(())
        },
        None => Err(Rejection::NotFound),
    }
}

// ---------------------------------------------------------------------------
// Storylines
// ---------------------------------------------------------------------------
/// Creates a storyline. Turned down where one with the id exists.
pub fn admin_create_storyline(w: &mut World, line: Storyline) -> (r: Result<(), Rejection>)
    ensures
        match r {
            Ok(_) => storyline_index(old(w)@.storylines, line@.id) is None && final(w)@
                == (WorldView { storylines: old(w)@.storylines.push(line@), ..old(w)@ }),
            Err(e) => e == Rejection::AlreadyExists && storyline_index(
                old(w)@.storylines,
                line@.id,
            ) is Some && final(w)@ == old(w)@,
        },
{
    if find_storyline(&w.storylines, &line.id).is_some() {
        return Err(Rejection::AlreadyExists);
    }
    let ghost before = w@.storylines;
    let ghost added = line@;
    w.storylines.push(line);
    assert(w@.storylines =~= before.push(added));
    Ok(())
}

/// Replaces the storyline that has the id of `line`. Turned down where there
/// is none.
pub fn admin_update_storyline(w: &mut World, line: Storyline) -> (r: Result<(), Rejection>)
    ensures
        match r {
            Ok(_) => match storyline_index(old(w)@.storylines, line@.id) {
                Some(i) => final(w)@ == (WorldView {
                    storylines: old(w)@.storylines.update(i, line@),
                    ..old(w)@
                }),
                None => false,
            },
            Err(e) => e == Rejection::NotFound && storyline_index(old(w)@.storylines, line@.id)
                is None && final(w)@ == old(w)@,
        },
{
    match find_storyline(&w.storylines, &line.id) {
        Some(i) => {
            let ghost before = w@.storylines;
            let ghost changed = line@;
            w.storylines[i] = line;
            assert(w@.storylines =~= before.update(i as int, changed));
            Ok(())
        },
        None => Err(Rejection::NotFound),
    }
}

/// Removes a storyline. Turned down where none has the id.
pub fn admin_delete_storyline(w: &mut World, id: &str) -> (r: Result<(), Rejection>)
    ensures
        match r {
            Ok(_) => match storyline_index(old(w)@.storylines, id@) {
                Some(i) => final(w)@ == (WorldView {
                    storylines: old(w)@.storylines.remove(i),
                    ..old(w)@
                }),
                None => false,
            },
            Err(e) => e == Rejection::NotFound && storyline_index(old(w)@.storylines, id@)
                is None && final(w)@ == old(w)@,
        },
{
    let sid = id.to_owned();
    match find_storyline(&w.storylines, &sid) {
        Some(i) => {
            let ghost before = w@.storylines;
            w.storylines.remove(i);
            assert(w@.storylines =~= before.remove(i as int));
            Ok(())
        },
        None => Err(Rejection::NotFound),
    }
}

} // verus!
