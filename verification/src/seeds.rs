//! The stock definitions: the quests and items that a new world starts with.

use crate::store::{
    find_item, find_quest, item_index, quest_index, ItemDefinition, ItemDefinitionView, Quest,
    QuestView, World, WorldView,
};
use vstd::prelude::*;

verus! {

/// The view of an optional string slice.
pub open spec fn opt_str_view(s: Option<&str>) -> Option<Seq<char>> {
    match s {
        Some(t) => Some(t@),
        None => None,
    }
}

fn owned(s: Option<&str>) -> (r: Option<String>)
    ensures
        crate::store::opt_view(r) == opt_str_view(s),
{
    match s {
        Some(t) => Some(t.to_owned()),
        None => None,
    }
}

/// A quest without a quest giver.
pub open spec fn quest_definition(
    id: Seq<char>,
    title: Seq<char>,
    description: Seq<char>,
    quest_type: Seq<char>,
    storyline: Option<Seq<char>>,
    story_order: Option<u32>,
    prerequisite_quest_id: Option<Seq<char>>,
    requirements: Seq<char>,
    rewards: Seq<char>,
) -> QuestView {
    QuestView {
        id,
        title,
        description,
        quest_type,
        storyline,
        story_order,
        prerequisite_quest_id,
        requirements,
        rewards,
        quest_giver_type: None,
        quest_giver_id: None,
    }
}

fn quest_of(
    id: &str,
    title: &str,
    description: &str,
    quest_type: &str,
    storyline: Option<&str>,
    story_order: Option<u32>,
    prerequisite_quest_id: Option<&str>,
    requirements: &str,
    rewards: &str,
) -> (r: Quest)
    ensures
        r@ == quest_definition(
            id@,
            title@,
            description@,
            quest_type@,
            opt_str_view(storyline),
            story_order,
            opt_str_view(prerequisite_quest_id),
            requirements@,
            rewards@,
        ),
{
    Quest {
        id: id.to_owned(),
        title: title.to_owned(),
        description: description.to_owned(),
        quest_type: quest_type.to_owned(),
        storyline: owned(storyline),
        story_order,
        prerequisite_quest_id: owned(prerequisite_quest_id),
        requirements: requirements.to_owned(),
        rewards: rewards.to_owned(),
        quest_giver_type: None,
        quest_giver_id: None,
    }
}

/// The stock quests: three of the Fisherman's Guild, two of the Ocean
/// Mysteries, and one daily quest.
pub open spec fn stock_quests() -> Seq<QuestView> {
    seq![
        quest_definition(
            "guild_1"@,
            "Guild Initiation"@,
            "Prove your worth to the Fisherman's Guild by catching any 2 fish."@,
            "story"@,
            Some("fishermans_guild"@),
            Some(1u32),
            None,
            "{\"total_fish\": 2}"@,
            "{\"gold\": 50}"@,
        ),
        quest_definition(
            "guild_2"@,
            "Freshwater Mastery"@,
            "Master the art of freshwater fishing. Catch 3 pond fish and 2 river fish."@,
            "story"@,
            Some("fishermans_guild"@),
            Some(2u32),
            Some("guild_1"@),
            "{\"fish\": {\"fish_pond_1\": 1, \"fish_pond_2\": 1, \"fish_pond_3\": 1, \"fish_river_1\": 1, \"fish_river_2\": 1}}"@,
            "{\"gold\": 100, \"items\": [{\"item_id\": \"pole_2\", \"quantity\": 1}]}"@,
        ),
        quest_definition(
            "guild_3"@,
            "Guild Champion"@,
            "Become a true champion! Catch a rare 3-star fish of any type."@,
            "story"@,
            Some("fishermans_guild"@),
            Some(3u32),
            Some("guild_2"@),
            "{\"min_rarity\": 3}"@,
            "{\"gold\": 300, \"items\": [{\"item_id\": \"pole_3\", \"quantity\": 1}]}"@,
        ),
        quest_definition(
            "ocean_1"@,
            "Coastal Curiosity"@,
            "The ocean holds many secrets. Start by catching 3 ocean fish."@,
            "story"@,
            Some("ocean_mysteries"@),
            Some(1u32),
            None,
            "{\"fish\": {\"fish_ocean_1\": 1, \"fish_ocean_2\": 1, \"fish_ocean_3\": 1}}"@,
            "{\"gold\": 75}"@,
        ),
        quest_definition(
            "ocean_2"@,
            "Deep Waters"@,
            "Venture deeper into the ocean's mysteries. Catch 5 ocean fish including at least one 2-star."@,
            "story"@,
            Some("ocean_mysteries"@),
            Some(2u32),
            Some("ocean_1"@),
            "{\"total_fish\": 5, \"min_rarity\": 2}"@,
            "{\"gold\": 200, \"items\": [{\"item_id\": \"lure_2\", \"quantity\": 1}]}"@,
        ),
        quest_definition(
            "daily_haul"@,
            "Daily Haul"@,
            "A simple task for any fisher. Catch 5 fish of any type today."@,
            "daily"@,
            None,
            None,
            None,
            "{\"total_fish\": 5}"@,
            "{\"gold\": 25}"@,
        ),
    ]
}

/// The stock quests.
pub fn default_quests() -> (r: Vec<Quest>)
    ensures
        crate::store::quests_view(r@) == stock_quests(),
{
    let mut r: Vec<Quest> = Vec::new();
    r.push(
        quest_of(
            "guild_1",
            "Guild Initiation",
            "Prove your worth to the Fisherman's Guild by catching any 2 fish.",
            "story",
            Some("fishermans_guild"),
            Some(1),
            None,
            "{\"total_fish\": 2}",
            "{\"gold\": 50}",
        ),
    );
    r.push(
        quest_of(
            "guild_2",
            "Freshwater Mastery",
            "Master the art of freshwater fishing. Catch 3 pond fish and 2 river fish.",
            "story",
            Some("fishermans_guild"),
            Some(2),
            Some("guild_1"),
            "{\"fish\": {\"fish_pond_1\": 1, \"fish_pond_2\": 1, \"fish_pond_3\": 1, \"fish_river_1\": 1, \"fish_river_2\": 1}}",
            "{\"gold\": 100, \"items\": [{\"item_id\": \"pole_2\", \"quantity\": 1}]}",
        ),
    );
    r.push(
        quest_of(
            "guild_3",
            "Guild Champion",
            "Become a true champion! Catch a rare 3-star fish of any type.",
            "story",
            Some("fishermans_guild"),
            Some(3),
            Some("guild_2"),
            "{\"min_rarity\": 3}",
            "{\"gold\": 300, \"items\": [{\"item_id\": \"pole_3\", \"quantity\": 1}]}",
        ),
    );
    r.push(
        quest_of(
            "ocean_1",
            "Coastal Curiosity",
            "The ocean holds many secrets. Start by catching 3 ocean fish.",
            "story",
            Some("ocean_mysteries"),
            Some(1),
            None,
            "{\"fish\": {\"fish_ocean_1\": 1, \"fish_ocean_2\": 1, \"fish_ocean_3\": 1}}",
            "{\"gold\": 75}",
        ),
    );
    r.push(
        quest_of(
            "ocean_2",
            "Deep Waters",
            "Venture deeper into the ocean's mysteries. Catch 5 ocean fish including at least one 2-star.",
            "story",
            Some("ocean_mysteries"),
            Some(2),
            Some("ocean_1"),
            "{\"total_fish\": 5, \"min_rarity\": 2}",
            "{\"gold\": 200, \"items\": [{\"item_id\": \"lure_2\", \"quantity\": 1}]}",
        ),
    );
    r.push(
        quest_of(
            "daily_haul",
            "Daily Haul",
            "A simple task for any fisher. Catch 5 fish of any type today.",
            "daily",
            None,
            None,
            None,
            "{\"total_fish\": 5}",
            "{\"gold\": 25}",
        ),
    );
    assert(crate::store::quests_view(r@) =~= stock_quests());
    r
}

/// The quests with those of `stock`, from index `k` on, added that are not
/// among them by id.
pub open spec fn with_missing_quests(quests: Seq<QuestView>, stock: Seq<QuestView>, k: int) -> Seq<
    QuestView,
>
    decreases stock.len() - k,
{
    if k < 0 || k >= stock.len() {
        quests
    } else if quest_index(quests, stock[k].id) is None {
        with_missing_quests(quests.push(stock[k]), stock, k + 1)
    } else {
        with_missing_quests(quests, stock, k + 1)
    }
}

/// How many quests a seeding added and how many it found in place.
#[derive(Clone, Copy, Debug, PartialEq, Eq)]
pub struct Seeded {
    pub added: usize,
    pub skipped: usize,
}

/// Adds the stock quests that the world lacks. Quests that exist are left as
/// they are.
pub fn admin_seed_quests(w: &mut World) -> (r: Seeded)
    ensures
        final(w)@ == (WorldView {
            quests: with_missing_quests(old(w)@.quests, stock_quests(), 0),
            ..old(w)@
        }),
        r.added == final(w)@.quests.len() - old(w)@.quests.len(),
        r.added + r.skipped == stock_quests().len(),
{
    let mut stock = default_quests();
    let ghost goal = with_missing_quests(w@.quests, stock_quests(), 0);
    let mut seeded = Seeded { added: 0, skipped: 0 };
    let ghost total = stock.len();
    assert(crate::store::quests_view(stock@).len() == stock@.len());
    // The stock is taken from the back, so it is walked in reverse first.
    let mut queue: Vec<Quest> = Vec::new();
    while stock.len() > 0
        invariant
            stock.len() + queue.len() == total,
            total == stock_quests().len(),
            forall|j: int|
                0 <= j < stock.len() ==> (#[trigger] stock[j])@ == stock_quests()[j],
            forall|j: int|
                0 <= j < queue.len() ==> (#[trigger] queue[j])@ == stock_quests()[total - 1 - j],
        decreases stock.len(),
    {
        let q = stock.pop().unwrap();
        queue.push(q);
    }
    let mut k: usize = 0;
    while queue.len() > 0
        invariant
            k + queue.len() == total,
            total == stock_quests().len(),
            forall|j: int|
                0 <= j < queue.len() ==> (#[trigger] queue[j])@ == stock_quests()[total - 1 - j],
            goal == with_missing_quests(w@.quests, stock_quests(), k as int),
            w@ == (WorldView { quests: w@.quests, ..old(w)@ }),
            seeded.added == w@.quests.len() - old(w)@.quests.len(),
            seeded.added + seeded.skipped == k,
            w.quests.len() == w@.quests.len(),
        decreases queue.len(),
    {
        let quest = queue.pop().unwrap();
        assert(quest@ == stock_quests()[k as int]);
        if find_quest(&w.quests, &quest.id).is_none() {
            let ghost before = w@.quests;
            let ghost added = quest@;
            w.quests.push(quest);
            assert(w@.quests =~= before.push(added));
            seeded.added = seeded.added + 1;
        } else {
            seeded.skipped = seeded.skipped + 1;
        }
        k += 1;
    }
    seeded
}

// ---------------------------------------------------------------------------
// Items
// ---------------------------------------------------------------------------
/// The price factors of a fish by rarity, as a document.
pub const FISH_MULTIPLIERS: &'static str = "{\"2\": 2.0, \"3\": 4.0}";

/// An item that is in the game, whose sprite bears its id.
pub open spec fn item_definition(
    id: Seq<char>,
    name: Seq<char>,
    category: Seq<char>,
    water_type: Option<Seq<char>>,
    tier: u8,
    buy_price: u32,
    sell_price: u32,
    stack_size: u32,
    description: Seq<char>,
    rarity_multipliers: Option<Seq<char>>,
) -> ItemDefinitionView {
    ItemDefinitionView {
        id,
        name,
        category,
        water_type,
        tier,
        buy_price,
        sell_price,
        stack_size,
        sprite_id: id,
        description: Some(description),
        is_active: true,
        rarity_multipliers,
        metadata: None,
    }
}

fn item_of(
    id: &str,
    name: &str,
    category: &str,
    water_type: Option<&str>,
    tier: u8,
    buy_price: u32,
    sell_price: u32,
    stack_size: u32,
    description: &str,
    rarity_multipliers: Option<&str>,
) -> (r: ItemDefinition)
    ensures
        r@ == item_definition(
            id@,
            name@,
            category@,
            opt_str_view(water_type),
            tier,
            buy_price,
            sell_price,
            stack_size,
            description@,
            opt_str_view(rarity_multipliers),
        ),
{
    ItemDefinition {
        id: id.to_owned(),
        name: name.to_owned(),
        category: category.to_owned(),
        water_type: owned(water_type),
        tier,
        buy_price,
        sell_price,
        stack_size,
        sprite_id: id.to_owned(),
        description: Some(description.to_owned()),
        is_active: true,
        rarity_multipliers: owned(rarity_multipliers),
        metadata: None,
    }
}

/// The stock items: four fish of each water, four poles and four lures.
pub open spec fn stock_items() -> Seq<ItemDefinitionView> {
    seq![
        item_definition("fish_pond_1"@, "Pond Sunfish"@, "fish"@, Some("pond"@), 1, 0, 10, 5, "A common sunfish found in peaceful ponds."@, Some(FISH_MULTIPLIERS@)),
        item_definition("fish_pond_2"@, "Pond Bass"@, "fish"@, Some("pond"@), 2, 0, 25, 5, "A medium-sized bass dwelling in calm waters."@, Some(FISH_MULTIPLIERS@)),
        item_definition("fish_pond_3"@, "Pond Pike"@, "fish"@, Some("pond"@), 3, 0, 50, 5, "A rare pike that lurks in pond depths."@, Some(FISH_MULTIPLIERS@)),
        item_definition("fish_pond_4"@, "Pond Legend"@, "fish"@, Some("pond"@), 4, 0, 150, 5, "A legendary fish of pond lore."@, Some(FISH_MULTIPLIERS@)),
        item_definition("fish_river_1"@, "River Trout"@, "fish"@, Some("river"@), 1, 0, 12, 5, "A common trout swimming in rivers."@, Some(FISH_MULTIPLIERS@)),
        item_definition("fish_river_2"@, "River Salmon"@, "fish"@, Some("river"@), 2, 0, 30, 5, "A strong salmon fighting the current."@, Some(FISH_MULTIPLIERS@)),
        item_definition("fish_river_3"@, "River Catfish"@, "fish"@, Some("river"@), 3, 0, 60, 5, "A rare catfish hiding among river rocks."@, Some(FISH_MULTIPLIERS@)),
        item_definition("fish_river_4"@, "River Monster"@, "fish"@, Some("river"@), 4, 0, 180, 5, "A legendary river monster of ancient tales."@, Some(FISH_MULTIPLIERS@)),
        item_definition("fish_ocean_1"@, "Ocean Mackerel"@, "fish"@, Some("ocean"@), 1, 0, 15, 5, "A common mackerel from the open sea."@, Some(FISH_MULTIPLIERS@)),
        item_definition("fish_ocean_2"@, "Ocean Tuna"@, "fish"@, Some("ocean"@), 2, 0, 40, 5, "A powerful tuna from deep waters."@, Some(FISH_MULTIPLIERS@)),
        item_definition("fish_ocean_3"@, "Ocean Marlin"@, "fish"@, Some("ocean"@), 3, 0, 80, 5, "A rare marlin with a magnificent bill."@, Some(FISH_MULTIPLIERS@)),
        item_definition("fish_ocean_4"@, "Ocean Leviathan"@, "fish"@, Some("ocean"@), 4, 0, 250, 5, "A legendary sea creature from the abyss."@, Some(FISH_MULTIPLIERS@)),
        item_definition("fish_night_1"@, "Night Eel"@, "fish"@, Some("night"@), 1, 0, 20, 5, "A slippery eel that emerges at night."@, Some(FISH_MULTIPLIERS@)),
        item_definition("fish_night_2"@, "Night Lanternfish"@, "fish"@, Some("night"@), 2, 0, 45, 5, "A glowing fish that lights the dark waters."@, Some(FISH_MULTIPLIERS@)),
        item_definition("fish_night_3"@, "Night Anglerfish"@, "fish"@, Some("night"@), 3, 0, 90, 5, "A rare anglerfish with a luminous lure."@, Some(FISH_MULTIPLIERS@)),
        item_definition("fish_night_4"@, "Night Phantom"@, "fish"@, Some("night"@), 4, 0, 300, 5, "A legendary phantom fish seen only under moonlight."@, Some(FISH_MULTIPLIERS@)),
        item_definition("pole_1"@, "Starter Rod"@, "pole"@, None, 1, 0, 0, 1, "A basic fishing rod for beginners."@, None),
        item_definition("pole_2"@, "Steel Rod"@, "pole"@, None, 2, 200, 200, 1, "An improved rod with better durability."@, None),
        item_definition("pole_3"@, "Carbon Rod"@, "pole"@, None, 3, 500, 500, 1, "An advanced carbon fiber fishing rod."@, None),
        item_definition("pole_4"@, "Legendary Rod"@, "pole"@, None, 4, 1500, 1500, 1, "A masterwork rod crafted by experts."@, None),
        item_definition("lure_1"@, "Basic Lure"@, "lure"@, None, 1, 20, 10, 99, "A simple lure for basic fishing."@, None),
        item_definition("lure_2"@, "Spinner Lure"@, "lure"@, None, 2, 60, 30, 99, "A spinning lure that attracts fish."@, None),
        item_definition("lure_3"@, "Premium Lure"@, "lure"@, None, 3, 160, 80, 99, "A high-quality lure for serious anglers."@, None),
        item_definition("lure_4"@, "Master Lure"@, "lure"@, None, 4, 500, 250, 99, "A legendary lure that fish cannot resist."@, None),
    ]
}

/// The stock items.
pub fn default_items() -> (r: Vec<ItemDefinition>)
    ensures
        crate::store::items_view(r@) == stock_items(),
{
    let mut r: Vec<ItemDefinition> = Vec::new();
    r.push(item_of("fish_pond_1", "Pond Sunfish", "fish", Some("pond"), 1, 0, 10, 5, "A common sunfish found in peaceful ponds.", Some(FISH_MULTIPLIERS)));
    r.push(item_of("fish_pond_2", "Pond Bass", "fish", Some("pond"), 2, 0, 25, 5, "A medium-sized bass dwelling in calm waters.", Some(FISH_MULTIPLIERS)));
    r.push(item_of("fish_pond_3", "Pond Pike", "fish", Some("pond"), 3, 0, 50, 5, "A rare pike that lurks in pond depths.", Some(FISH_MULTIPLIERS)));
    r.push(item_of("fish_pond_4", "Pond Legend", "fish", Some("pond"), 4, 0, 150, 5, "A legendary fish of pond lore.", Some(FISH_MULTIPLIERS)));
    r.push(item_of("fish_river_1", "River Trout", "fish", Some("river"), 1, 0, 12, 5, "A common trout swimming in rivers.", Some(FISH_MULTIPLIERS)));
    r.push(item_of("fish_river_2", "River Salmon", "fish", Some("river"), 2, 0, 30, 5, "A strong salmon fighting the current.", Some(FISH_MULTIPLIERS)));
    r.push(item_of("fish_river_3", "River Catfish", "fish", Some("river"), 3, 0, 60, 5, "A rare catfish hiding among river rocks.", Some(FISH_MULTIPLIERS)));
    r.push(item_of("fish_river_4", "River Monster", "fish", Some("river"), 4, 0, 180, 5, "A legendary river monster of ancient tales.", Some(FISH_MULTIPLIERS)));
    r.push(item_of("fish_ocean_1", "Ocean Mackerel", "fish", Some("ocean"), 1, 0, 15, 5, "A common mackerel from the open sea.", Some(FISH_MULTIPLIERS)));
    r.push(item_of("fish_ocean_2", "Ocean Tuna", "fish", Some("ocean"), 2, 0, 40, 5, "A powerful tuna from deep waters.", Some(FISH_MULTIPLIERS)));
    r.push(item_of("fish_ocean_3", "Ocean Marlin", "fish", Some("ocean"), 3, 0, 80, 5, "A rare marlin with a magnificent bill.", Some(FISH_MULTIPLIERS)));
    r.push(item_of("fish_ocean_4", "Ocean Leviathan", "fish", Some("ocean"), 4, 0, 250, 5, "A legendary sea creature from the abyss.", Some(FISH_MULTIPLIERS)));
    r.push(item_of("fish_night_1", "Night Eel", "fish", Some("night"), 1, 0, 20, 5, "A slippery eel that emerges at night.", Some(FISH_MULTIPLIERS)));
    r.push(item_of("fish_night_2", "Night Lanternfish", "fish", Some("night"), 2, 0, 45, 5, "A glowing fish that lights the dark waters.", Some(FISH_MULTIPLIERS)));
    r.push(item_of("fish_night_3", "Night Anglerfish", "fish", Some("night"), 3, 0, 90, 5, "A rare anglerfish with a luminous lure.", Some(FISH_MULTIPLIERS)));
    r.push(item_of("fish_night_4", "Night Phantom", "fish", Some("night"), 4, 0, 300, 5, "A legendary phantom fish seen only under moonlight.", Some(FISH_MULTIPLIERS)));
    r.push(item_of("pole_1", "Starter Rod", "pole", None, 1, 0, 0, 1, "A basic fishing rod for beginners.", None));
    r.push(item_of("pole_2", "Steel Rod", "pole", None, 2, 200, 200, 1, "An improved rod with better durability.", None));
    r.push(item_of("pole_3", "Carbon Rod", "pole", None, 3, 500, 500, 1, "An advanced carbon fiber fishing rod.", None));
    r.push(item_of("pole_4", "Legendary Rod", "pole", None, 4, 1500, 1500, 1, "A masterwork rod crafted by experts.", None));
    r.push(item_of("lure_1", "Basic Lure", "lure", None, 1, 20, 10, 99, "A simple lure for basic fishing.", None));
    r.push(item_of("lure_2", "Spinner Lure", "lure", None, 2, 60, 30, 99, "A spinning lure that attracts fish.", None));
    r.push(item_of("lure_3", "Premium Lure", "lure", None, 3, 160, 80, 99, "A high-quality lure for serious anglers.", None));
    r.push(item_of("lure_4", "Master Lure", "lure", None, 4, 500, 250, 99, "A legendary lure that fish cannot resist.", None));
    assert(crate::store::items_view(r@) =~= stock_items());
    r
}

/// The world with the item added, unless an item with its id exists.
pub open spec fn with_item_seeded(w: WorldView, item: ItemDefinitionView) -> WorldView {
    if item_index(w.items, item.id) is None {
        WorldView { items: w.items.push(item), ..w }
    } else {
        w
    }
}

/// The world with the items of `stock`, from index `k` on, seeded.
pub open spec fn with_items_seeded(w: WorldView, stock: Seq<ItemDefinitionView>, k: int) -> WorldView
    decreases stock.len() - k,
{
    if k < 0 || k >= stock.len() {
        w
    } else {
        with_items_seeded(with_item_seeded(w, stock[k]), stock, k + 1)
    }
}

/// Adds an item definition unless one with its id exists. Returns whether it
/// was added.
pub fn seed_item(w: &mut World, item: ItemDefinition) -> (added: bool)
    ensures
        final(w)@ == with_item_seeded(old(w)@, item@),
        added == item_index(old(w)@.items, item@.id) is None,
{
    if find_item(&w.items, &item.id).is_some() {
        return false;
    }
    let ghost before = w@.items;
    let ghost added = item@;
    w.items.push(item);
    assert(w@.items =~= before.push(added));
    true
}

/// Adds the stock items that the world lacks. Items that exist are left as
/// they are.
pub fn admin_seed_items(w: &mut World)
    ensures
        final(w)@ == with_items_seeded(old(w)@, stock_items(), 0),
{
    let mut stock = default_items();
    let ghost goal = with_items_seeded(w@, stock_items(), 0);
    let ghost total = stock.len();
    assert(crate::store::items_view(stock@).len() == stock@.len());
    let mut queue: Vec<ItemDefinition> = Vec::new();
    while stock.len() > 0
        invariant
            stock.len() + queue.len() == total,
            total == stock_items().len(),
            forall|j: int| 0 <= j < stock.len() ==> (#[trigger] stock[j])@ == stock_items()[j],
            forall|j: int|
                0 <= j < queue.len() ==> (#[trigger] queue[j])@ == stock_items()[total - 1 - j],
        decreases stock.len(),
    {
        let item = stock.pop().unwrap();
        queue.push(item);
    }
    let mut k: usize = 0;
    while queue.len() > 0
        invariant
            k + queue.len() == total,
            total == stock_items().len(),
            forall|j: int|
                0 <= j < queue.len() ==> (#[trigger] queue[j])@ == stock_items()[total - 1 - j],
            goal == with_items_seeded(w@, stock_items(), k as int),
        decreases queue.len(),
    {
        let item = queue.pop().unwrap();
        assert(item@ == stock_items()[k as int]);
        seed_item(w, item);
        k += 1;
    }
}

} // verus!
