//! The tables of the game and the world that holds them.
//!
//! Each row type has a view: the same record with every string replaced by
//! its sequence of characters. The view of the world holds the views of its
//! tables, in table order, and the counters that number new rows. All
//! contracts of the game's transactions are stated over these views.
//!
//! Times are microseconds since the Unix epoch.

use crate::text::same_text;
use vstd::prelude::*;

verus! {

/// The view of an optional string.
pub open spec fn opt_view(s: Option<String>) -> Option<Seq<char>> {
    match s {
        Some(t) => Some(t@),
        None => None,
    }
}

/// A player account.
#[derive(Clone, Debug, PartialEq, Eq)]
pub struct Player {
    /// Stable id of the authenticated player.
    pub id: String,
    /// Display name.
    pub name: String,
    /// Colour, as ARGB.
    pub color: u32,
    /// Whether the player is in the world.
    pub is_online: bool,
    /// Gold owned.
    pub gold: u32,
    /// The pole in use, if any; an item the player owns.
    pub equipped_pole_id: Option<String>,
    /// When the account last changed.
    pub last_updated: i64,
}

pub struct PlayerView {
    pub id: Seq<char>,
    pub name: Seq<char>,
    pub color: u32,
    pub is_online: bool,
    pub gold: u32,
    pub equipped_pole_id: Option<Seq<char>>,
    pub last_updated: i64,
}

impl View for Player {
    type V = PlayerView;

    open spec fn view(&self) -> PlayerView {
        PlayerView {
            id: self.id@,
            name: self.name@,
            color: self.color,
            is_online: self.is_online,
            gold: self.gold,
            equipped_pole_id: opt_view(self.equipped_pole_id),
            last_updated: self.last_updated,
        }
    }
}

/// One stack of an item in a player's inventory.
#[derive(Clone, Debug, PartialEq, Eq)]
pub struct Inventory {
    /// Row id.
    pub id: u64,
    /// The owner.
    pub player_id: String,
    /// The item, such as `fish_ocean_1` or `pole_2`.
    pub item_id: String,
    /// Stars of a fish, 1 to 3; 0 for anything else.
    pub rarity: u8,
    /// Units in the stack.
    pub quantity: u32,
}

pub struct InventoryView {
    pub id: u64,
    pub player_id: Seq<char>,
    pub item_id: Seq<char>,
    pub rarity: u8,
    pub quantity: u32,
}

impl View for Inventory {
    type V = InventoryView;

    open spec fn view(&self) -> InventoryView {
        InventoryView {
            id: self.id,
            player_id: self.player_id@,
            item_id: self.item_id@,
            rarity: self.rarity,
            quantity: self.quantity,
        }
    }
}

/// The log entry of one caught fish.
#[derive(Clone, Debug, PartialEq, Eq)]
pub struct FishCatch {
    /// Row id.
    pub id: u64,
    /// The item id of the fish.
    pub fish_id: String,
    /// Who caught it.
    pub player_id: String,
    /// Its species.
    pub fish_type: String,
    /// Its rarity, written as the number of stars and `star`.
    pub rarity: String,
    /// The water it came from.
    pub water_body_id: String,
    /// Whether it was set free again.
    pub released: bool,
    /// When it was caught.
    pub caught_at: i64,
}

pub struct FishCatchView {
    pub id: u64,
    pub fish_id: Seq<char>,
    pub player_id: Seq<char>,
    pub fish_type: Seq<char>,
    pub rarity: Seq<char>,
    pub water_body_id: Seq<char>,
    pub released: bool,
    pub caught_at: i64,
}

impl View for FishCatch {
    type V = FishCatchView;

    open spec fn view(&self) -> FishCatchView {
        FishCatchView {
            id: self.id,
            fish_id: self.fish_id@,
            player_id: self.player_id@,
            fish_type: self.fish_type@,
            rarity: self.rarity@,
            water_body_id: self.water_body_id@,
            released: self.released,
            caught_at: self.caught_at,
        }
    }
}

/// The definition of a quest.
#[derive(Clone, Debug, PartialEq, Eq)]
pub struct Quest {
    /// Quest id, such as `guild_1` or `daily_haul`.
    pub id: String,
    /// Title shown to the player.
    pub title: String,
    /// Flavour text.
    pub description: String,
    /// `story` or `daily`.
    pub quest_type: String,
    /// The storyline it belongs to; none for a daily quest.
    pub storyline: Option<String>,
    /// Its place in the storyline.
    pub story_order: Option<u32>,
    /// The quest that must be completed before this one can be accepted.
    pub prerequisite_quest_id: Option<String>,
    /// What completing it takes, as a document.
    pub requirements: String,
    /// What completing it grants, as a document.
    pub rewards: String,
    /// Kind of quest giver: `npc` or `sign`.
    pub quest_giver_type: Option<String>,
    /// Id of the quest giver.
    pub quest_giver_id: Option<String>,
}

pub struct QuestView {
    pub id: Seq<char>,
    pub title: Seq<char>,
    pub description: Seq<char>,
    pub quest_type: Seq<char>,
    pub storyline: Option<Seq<char>>,
    pub story_order: Option<u32>,
    pub prerequisite_quest_id: Option<Seq<char>>,
    pub requirements: Seq<char>,
    pub rewards: Seq<char>,
    pub quest_giver_type: Option<Seq<char>>,
    pub quest_giver_id: Option<Seq<char>>,
}

impl View for Quest {
    type V = QuestView;

    open spec fn view(&self) -> QuestView {
        QuestView {
            id: self.id@,
            title: self.title@,
            description: self.description@,
            quest_type: self.quest_type@,
            storyline: opt_view(self.storyline),
            story_order: self.story_order,
            prerequisite_quest_id: opt_view(self.prerequisite_quest_id),
            requirements: self.requirements@,
            rewards: self.rewards@,
            quest_giver_type: opt_view(self.quest_giver_type),
            quest_giver_id: opt_view(self.quest_giver_id),
        }
    }
}

/// A player's state in one quest.
#[derive(Clone, Debug, PartialEq, Eq)]
pub struct PlayerQuest {
    /// Row id.
    pub id: u64,
    /// The player.
    pub player_id: String,
    /// The quest.
    pub quest_id: String,
    /// `active` or `completed`.
    pub status: String,
    /// Counters of what was caught since the quest was accepted, as a document.
    pub progress: String,
    /// When the quest was accepted.
    pub accepted_at: Option<i64>,
    /// When the quest was completed.
    pub completed_at: Option<i64>,
}

pub struct PlayerQuestView {
    pub id: u64,
    pub player_id: Seq<char>,
    pub quest_id: Seq<char>,
    pub status: Seq<char>,
    pub progress: Seq<char>,
    pub accepted_at: Option<i64>,
    pub completed_at: Option<i64>,
}

impl View for PlayerQuest {
    type V = PlayerQuestView;

    open spec fn view(&self) -> PlayerQuestView {
        PlayerQuestView {
            id: self.id,
            player_id: self.player_id@,
            quest_id: self.quest_id@,
            status: self.status@,
            progress: self.progress@,
            accepted_at: self.accepted_at,
            completed_at: self.completed_at,
        }
    }
}

/// A group of quests that tell one story.
#[derive(Clone, Debug, PartialEq, Eq)]
pub struct Storyline {
    /// Storyline id, such as `fishermans_guild`.
    pub id: String,
    /// Display name.
    pub name: String,
    /// Description.
    pub description: String,
    /// Icon shown with it.
    pub icon: Option<String>,
    /// `main`, `side` or `event`.
    pub category: String,
    /// Position in lists, lowest first.
    pub display_order: u32,
    /// What unlocks it, as a document; none if always open.
    pub unlock_conditions: Option<String>,
    /// Whether it is open at present.
    pub is_active: bool,
    /// Number of quests in it.
    pub total_quests: u32,
}

pub struct StorylineView {
    pub id: Seq<char>,
    pub name: Seq<char>,
    pub description: Seq<char>,
    pub icon: Option<Seq<char>>,
    pub category: Seq<char>,
    pub display_order: u32,
    pub unlock_conditions: Option<Seq<char>>,
    pub is_active: bool,
    pub total_quests: u32,
}

impl View for Storyline {
    type V = StorylineView;

    open spec fn view(&self) -> StorylineView {
        StorylineView {
            id: self.id@,
            name: self.name@,
            description: self.description@,
            icon: opt_view(self.icon),
            category: self.category@,
            display_order: self.display_order,
            unlock_conditions: opt_view(self.unlock_conditions),
            is_active: self.is_active,
            total_quests: self.total_quests,
        }
    }
}

/// One play session of a player.
#[derive(Clone, Debug, PartialEq, Eq)]
pub struct PlayerSession {
    /// Row id.
    pub id: u64,
    /// The player.
    pub player_id: String,
    /// When it began.
    pub started_at: i64,
    /// When it ended; none while it runs.
    pub ended_at: Option<i64>,
    /// How long it ran, in seconds; set when it ends.
    pub duration_seconds: u64,
    /// Whether it still runs.
    pub is_active: bool,
}

pub struct PlayerSessionView {
    pub id: u64,
    pub player_id: Seq<char>,
    pub started_at: i64,
    pub ended_at: Option<i64>,
    pub duration_seconds: u64,
    pub is_active: bool,
}

impl View for PlayerSession {
    type V = PlayerSessionView;

    open spec fn view(&self) -> PlayerSessionView {
        PlayerSessionView {
            id: self.id,
            player_id: self.player_id@,
            started_at: self.started_at,
            ended_at: self.ended_at,
            duration_seconds: self.duration_seconds,
            is_active: self.is_active,
        }
    }
}

/// Lifetime counters and the level of a player.
#[derive(Clone, Debug, PartialEq, Eq)]
pub struct PlayerStats {
    /// The player.
    pub player_id: String,
    /// Seconds played over all sessions.
    pub total_playtime_seconds: u64,
    /// Sessions started.
    pub total_sessions: u32,
    /// Fish caught.
    pub total_fish_caught: u32,
    /// Gold earned.
    pub total_gold_earned: u64,
    /// Gold spent.
    pub total_gold_spent: u64,
    /// When the player was first seen.
    pub first_seen_at: i64,
    /// When the player was last seen.
    pub last_seen_at: i64,
    /// Level, from 1; 0 in a record from before levels existed.
    pub level: u32,
    /// Experience gathered in the current level.
    pub xp: u64,
    /// Experience that the next level takes.
    pub xp_to_next_level: u64,
}

pub struct PlayerStatsView {
    pub player_id: Seq<char>,
    pub total_playtime_seconds: u64,
    pub total_sessions: u32,
    pub total_fish_caught: u32,
    pub total_gold_earned: u64,
    pub total_gold_spent: u64,
    pub first_seen_at: i64,
    pub last_seen_at: i64,
    pub level: u32,
    pub xp: u64,
    pub xp_to_next_level: u64,
}

impl View for PlayerStats {
    type V = PlayerStatsView;

    open spec fn view(&self) -> PlayerStatsView {
        PlayerStatsView {
            player_id: self.player_id@,
            total_playtime_seconds: self.total_playtime_seconds,
            total_sessions: self.total_sessions,
            total_fish_caught: self.total_fish_caught,
            total_gold_earned: self.total_gold_earned,
            total_gold_spent: self.total_gold_spent,
            first_seen_at: self.first_seen_at,
            last_seen_at: self.last_seen_at,
            level: self.level,
            xp: self.xp,
            xp_to_next_level: self.xp_to_next_level,
        }
    }
}

/// The kinds of event that the game records.
#[derive(Clone, Copy, Debug, PartialEq, Eq)]
pub enum GameEventType {
    FishCaught,
    ItemBought,
    ItemSold,
    SessionStarted,
    SessionEnded,
    PoleEquipped,
    PoleUnequipped,
}

impl GameEventType {
    /// The name under which events of this kind are recorded.
    pub open spec fn name(self) -> Seq<char> {
        match self {
            GameEventType::FishCaught => "fish_caught"@,
            GameEventType::ItemBought => "item_bought"@,
            GameEventType::ItemSold => "item_sold"@,
            GameEventType::SessionStarted => "session_started"@,
            GameEventType::SessionEnded => "session_ended"@,
            GameEventType::PoleEquipped => "pole_equipped"@,
            GameEventType::PoleUnequipped => "pole_unequipped"@,
        }
    }

    /// The name under which events of this kind are recorded.
    pub fn as_str(&self) -> (r: &'static str)
        ensures
            r@ == self.name(),
    {
        match self {
            GameEventType::FishCaught => "fish_caught",
            GameEventType::ItemBought => "item_bought",
            GameEventType::ItemSold => "item_sold",
            GameEventType::SessionStarted => "session_started",
            GameEventType::SessionEnded => "session_ended",
            GameEventType::PoleEquipped => "pole_equipped",
            GameEventType::PoleUnequipped => "pole_unequipped",
        }
    }

    /// The name under which events of this kind are recorded, as a string.
    pub fn to_string(&self) -> (r: String)
        ensures
            r@ == self.name(),
    {
        self.as_str().to_owned()
    }
}

/// One entry of the append-only record of what players did.
#[derive(Clone, Debug, PartialEq, Eq)]
pub struct GameEvent {
    /// Row id.
    pub id: u64,
    /// Who did it.
    pub player_id: String,
    /// The session it happened in, if one was running.
    pub session_id: Option<u64>,
    /// What happened, such as `fish_caught` or `item_sold`.
    pub event_type: String,
    /// The item concerned.
    pub item_id: Option<String>,
    /// How many units.
    pub quantity: Option<u32>,
    /// Gold paid or received.
    pub gold_amount: Option<u32>,
    /// Rarity of the item.
    pub rarity: Option<u8>,
    /// The water concerned.
    pub water_body_id: Option<String>,
    /// Anything else, as a document.
    pub metadata: Option<String>,
    /// When it happened.
    pub created_at: i64,
}

pub struct GameEventView {
    pub id: u64,
    pub player_id: Seq<char>,
    pub session_id: Option<u64>,
    pub event_type: Seq<char>,
    pub item_id: Option<Seq<char>>,
    pub quantity: Option<u32>,
    pub gold_amount: Option<u32>,
    pub rarity: Option<u8>,
    pub water_body_id: Option<Seq<char>>,
    pub metadata: Option<Seq<char>>,
    pub created_at: i64,
}

impl View for GameEvent {
    type V = GameEventView;

    open spec fn view(&self) -> GameEventView {
        GameEventView {
            id: self.id,
            player_id: self.player_id@,
            session_id: self.session_id,
            event_type: self.event_type@,
            item_id: opt_view(self.item_id),
            quantity: self.quantity,
            gold_amount: self.gold_amount,
            rarity: self.rarity,
            water_body_id: opt_view(self.water_body_id),
            metadata: opt_view(self.metadata),
            created_at: self.created_at,
        }
    }
}

/// The definition of an item.
#[derive(Clone, Debug, PartialEq, Eq)]
pub struct ItemDefinition {
    /// Item id, such as `fish_pond_1`, `pole_2` or `lure_3`.
    pub id: String,
    /// Display name.
    pub name: String,
    /// `fish`, `pole` or `lure`.
    pub category: String,
    /// The water a fish lives in.
    pub water_type: Option<String>,
    /// Tier, usually 1 to 4.
    pub tier: u8,
    /// What the shop asks; 0 if it is not for sale.
    pub buy_price: u32,
    /// What it sells for before rarity counts.
    pub sell_price: u32,
    /// Largest stack.
    pub stack_size: u32,
    /// Sprite shown for it.
    pub sprite_id: String,
    /// Tooltip text.
    pub description: Option<String>,
    /// Whether it is in the game at present.
    pub is_active: bool,
    /// Price factors by rarity, as a document.
    pub rarity_multipliers: Option<String>,
    /// Anything else, as a document.
    pub metadata: Option<String>,
}

pub struct ItemDefinitionView {
    pub id: Seq<char>,
    pub name: Seq<char>,
    pub category: Seq<char>,
    pub water_type: Option<Seq<char>>,
    pub tier: u8,
    pub buy_price: u32,
    pub sell_price: u32,
    pub stack_size: u32,
    pub sprite_id: Seq<char>,
    pub description: Option<Seq<char>>,
    pub is_active: bool,
    pub rarity_multipliers: Option<Seq<char>>,
    pub metadata: Option<Seq<char>>,
}

impl View for ItemDefinition {
    type V = ItemDefinitionView;

    open spec fn view(&self) -> ItemDefinitionView {
        ItemDefinitionView {
            id: self.id@,
            name: self.name@,
            category: self.category@,
            water_type: opt_view(self.water_type),
            tier: self.tier,
            buy_price: self.buy_price,
            sell_price: self.sell_price,
            stack_size: self.stack_size,
            sprite_id: self.sprite_id@,
            description: opt_view(self.description),
            is_active: self.is_active,
            rarity_multipliers: opt_view(self.rarity_multipliers),
            metadata: opt_view(self.metadata),
        }
    }
}

/// A player's progress through a storyline.
#[derive(Clone, Debug, PartialEq, Eq)]
pub struct PlayerStoryline {
    /// Row id.
    pub id: u64,
    /// The player.
    pub player_id: String,
    /// The storyline.
    pub storyline_id: String,
    /// `locked`, `unlocked`, `in_progress` or `completed`.
    pub status: String,
    /// Quests of the storyline that the player has completed.
    pub quests_completed: u32,
    /// The quest of the storyline that the player is in.
    pub current_quest_id: Option<String>,
    /// When the storyline was unlocked.
    pub unlocked_at: Option<i64>,
    /// When its last quest was completed.
    pub completed_at: Option<i64>,
}

pub struct PlayerStorylineView {
    pub id: u64,
    pub player_id: Seq<char>,
    pub storyline_id: Seq<char>,
    pub status: Seq<char>,
    pub quests_completed: u32,
    pub current_quest_id: Option<Seq<char>>,
    pub unlocked_at: Option<i64>,
    pub completed_at: Option<i64>,
}

impl View for PlayerStoryline {
    type V = PlayerStorylineView;

    open spec fn view(&self) -> PlayerStorylineView {
        PlayerStorylineView {
            id: self.id,
            player_id: self.player_id@,
            storyline_id: self.storyline_id@,
            status: self.status@,
            quests_completed: self.quests_completed,
            current_quest_id: opt_view(self.current_quest_id),
            unlocked_at: self.unlocked_at,
            completed_at: self.completed_at,
        }
    }
}

/// A character of the world that players can talk to and trade with. Where
/// it stands is kept outside these tables.
#[derive(Clone, Debug, PartialEq, Eq)]
pub struct Npc {
    /// Id, such as `guild_master`.
    pub id: String,
    /// Display name.
    pub name: String,
    /// Title or role.
    pub title: Option<String>,
    /// What it says of itself.
    pub description: Option<String>,
    /// Sprite shown for it.
    pub sprite_id: Option<String>,
    /// Whether it gives quests.
    pub can_give_quests: bool,
    /// Whether it trades.
    pub can_trade: bool,
    /// Whether it is in the world at present.
    pub is_active: bool,
}

pub struct NpcView {
    pub id: Seq<char>,
    pub name: Seq<char>,
    pub title: Option<Seq<char>>,
    pub description: Option<Seq<char>>,
    pub sprite_id: Option<Seq<char>>,
    pub can_give_quests: bool,
    pub can_trade: bool,
    pub is_active: bool,
}

impl View for Npc {
    type V = NpcView;

    open spec fn view(&self) -> NpcView {
        NpcView {
            id: self.id@,
            name: self.name@,
            title: opt_view(self.title),
            description: opt_view(self.description),
            sprite_id: opt_view(self.sprite_id),
            can_give_quests: self.can_give_quests,
            can_trade: self.can_trade,
            is_active: self.is_active,
        }
    }
}

/// What passed between a player and a character.
#[derive(Clone, Debug, PartialEq, Eq)]
pub struct PlayerNpcInteraction {
    /// Row id.
    pub id: u64,
    /// The player.
    pub player_id: String,
    /// The character.
    pub npc_id: String,
    /// Whether they ever talked.
    pub has_talked: bool,
    /// Whether they ever traded.
    pub has_traded: bool,
    /// How often they talked.
    pub talk_count: u32,
    /// The player's standing with the character, from -100 to 100.
    pub reputation: i32,
    /// When they first met.
    pub first_interaction_at: i64,
    /// When they last met.
    pub last_interaction_at: i64,
}

pub struct PlayerNpcInteractionView {
    pub id: u64,
    pub player_id: Seq<char>,
    pub npc_id: Seq<char>,
    pub has_talked: bool,
    pub has_traded: bool,
    pub talk_count: u32,
    pub reputation: i32,
    pub first_interaction_at: i64,
    pub last_interaction_at: i64,
}

impl View for PlayerNpcInteraction {
    type V = PlayerNpcInteractionView;

    open spec fn view(&self) -> PlayerNpcInteractionView {
        PlayerNpcInteractionView {
            id: self.id,
            player_id: self.player_id@,
            npc_id: self.npc_id@,
            has_talked: self.has_talked,
            has_traded: self.has_traded,
            talk_count: self.talk_count,
            reputation: self.reputation,
            first_interaction_at: self.first_interaction_at,
            last_interaction_at: self.last_interaction_at,
        }
    }
}

/// All tables of the game. Rows stand in the order in which they were added.
/// The tables whose rows are numbered have a counter that holds the id of
/// the next row.
#[derive(Clone, Debug, PartialEq, Eq)]
pub struct World {
    pub players: Vec<Player>,
    pub inventory: Vec<Inventory>,
    pub next_inventory_id: u64,
    pub fish_catches: Vec<FishCatch>,
    pub next_fish_catch_id: u64,
    pub quests: Vec<Quest>,
    pub player_quests: Vec<PlayerQuest>,
    pub next_player_quest_id: u64,
    pub storylines: Vec<Storyline>,
    pub sessions: Vec<PlayerSession>,
    pub next_session_id: u64,
    pub stats: Vec<PlayerStats>,
    pub events: Vec<GameEvent>,
    pub next_event_id: u64,
    pub items: Vec<ItemDefinition>,
    pub player_storylines: Vec<PlayerStoryline>,
    pub next_player_storyline_id: u64,
    pub npcs: Vec<Npc>,
    pub npc_interactions: Vec<PlayerNpcInteraction>,
    pub next_npc_interaction_id: u64,
}

pub struct WorldView {
    pub players: Seq<PlayerView>,
    pub inventory: Seq<InventoryView>,
    pub next_inventory_id: u64,
    pub fish_catches: Seq<FishCatchView>,
    pub next_fish_catch_id: u64,
    pub quests: Seq<QuestView>,
    pub player_quests: Seq<PlayerQuestView>,
    pub next_player_quest_id: u64,
    pub storylines: Seq<StorylineView>,
    pub sessions: Seq<PlayerSessionView>,
    pub next_session_id: u64,
    pub stats: Seq<PlayerStatsView>,
    pub events: Seq<GameEventView>,
    pub next_event_id: u64,
    pub items: Seq<ItemDefinitionView>,
    pub player_storylines: Seq<PlayerStorylineView>,
    pub next_player_storyline_id: u64,
    pub npcs: Seq<NpcView>,
    pub npc_interactions: Seq<PlayerNpcInteractionView>,
    pub next_npc_interaction_id: u64,
}

pub open spec fn players_view(v: Seq<Player>) -> Seq<PlayerView> {
    v.map_values(|r: Player| r@)
}

pub open spec fn inventory_view(v: Seq<Inventory>) -> Seq<InventoryView> {
    v.map_values(|r: Inventory| r@)
}

pub open spec fn fish_catches_view(v: Seq<FishCatch>) -> Seq<FishCatchView> {
    v.map_values(|r: FishCatch| r@)
}

pub open spec fn quests_view(v: Seq<Quest>) -> Seq<QuestView> {
    v.map_values(|r: Quest| r@)
}

pub open spec fn player_quests_view(v: Seq<PlayerQuest>) -> Seq<PlayerQuestView> {
    v.map_values(|r: PlayerQuest| r@)
}

pub open spec fn storylines_view(v: Seq<Storyline>) -> Seq<StorylineView> {
    v.map_values(|r: Storyline| r@)
}

pub open spec fn sessions_view(v: Seq<PlayerSession>) -> Seq<PlayerSessionView> {
    v.map_values(|r: PlayerSession| r@)
}

pub open spec fn stats_view(v: Seq<PlayerStats>) -> Seq<PlayerStatsView> {
    v.map_values(|r: PlayerStats| r@)
}

pub open spec fn events_view(v: Seq<GameEvent>) -> Seq<GameEventView> {
    v.map_values(|r: GameEvent| r@)
}

pub open spec fn items_view(v: Seq<ItemDefinition>) -> Seq<ItemDefinitionView> {
    v.map_values(|r: ItemDefinition| r@)
}

pub open spec fn player_storylines_view(v: Seq<PlayerStoryline>) -> Seq<PlayerStorylineView> {
    v.map_values(|r: PlayerStoryline| r@)
}

pub open spec fn npcs_view(v: Seq<Npc>) -> Seq<NpcView> {
    v.map_values(|r: Npc| r@)
}

pub open spec fn npc_interactions_view(v: Seq<PlayerNpcInteraction>) -> Seq<
    PlayerNpcInteractionView,
> {
    v.map_values(|r: PlayerNpcInteraction| r@)
}

impl View for World {
    type V = WorldView;

    open spec fn view(&self) -> WorldView {
        WorldView {
            players: players_view(self.players@),
            inventory: inventory_view(self.inventory@),
            next_inventory_id: self.next_inventory_id,
            fish_catches: fish_catches_view(self.fish_catches@),
            next_fish_catch_id: self.next_fish_catch_id,
            quests: quests_view(self.quests@),
            player_quests: player_quests_view(self.player_quests@),
            next_player_quest_id: self.next_player_quest_id,
            storylines: storylines_view(self.storylines@),
            sessions: sessions_view(self.sessions@),
            next_session_id: self.next_session_id,
            stats: stats_view(self.stats@),
            events: events_view(self.events@),
            next_event_id: self.next_event_id,
            items: items_view(self.items@),
            player_storylines: player_storylines_view(self.player_storylines@),
            next_player_storyline_id: self.next_player_storyline_id,
            npcs: npcs_view(self.npcs@),
            npc_interactions: npc_interactions_view(self.npc_interactions@),
            next_npc_interaction_id: self.next_npc_interaction_id,
        }
    }
}

impl WorldView {
    /// The world with no rows, whose counters stand at 1.
    pub open spec fn empty() -> WorldView {
        WorldView {
            players: Seq::empty(),
            inventory: Seq::empty(),
            next_inventory_id: 1,
            fish_catches: Seq::empty(),
            next_fish_catch_id: 1,
            quests: Seq::empty(),
            player_quests: Seq::empty(),
            next_player_quest_id: 1,
            storylines: Seq::empty(),
            sessions: Seq::empty(),
            next_session_id: 1,
            stats: Seq::empty(),
            events: Seq::empty(),
            next_event_id: 1,
            items: Seq::empty(),
            player_storylines: Seq::empty(),
            next_player_storyline_id: 1,
            npcs: Seq::empty(),
            npc_interactions: Seq::empty(),
            next_npc_interaction_id: 1,
        }
    }
}

impl World {
    /// A world with no rows.
    pub fn new() -> (w: World)
        ensures
            w@ == WorldView::empty(),
    {
        let w = World {
            players: Vec::new(),
            inventory: Vec::new(),
            next_inventory_id: 1,
            fish_catches: Vec::new(),
            next_fish_catch_id: 1,
            quests: Vec::new(),
            player_quests: Vec::new(),
            next_player_quest_id: 1,
            storylines: Vec::new(),
            sessions: Vec::new(),
            next_session_id: 1,
            stats: Vec::new(),
            events: Vec::new(),
            next_event_id: 1,
            items: Vec::new(),
            player_storylines: Vec::new(),
            next_player_storyline_id: 1,
            npcs: Vec::new(),
            npc_interactions: Vec::new(),
            next_npc_interaction_id: 1,
        };
        assert(w@.players =~= Seq::empty());
        assert(w@.inventory =~= Seq::empty());
        assert(w@.fish_catches =~= Seq::empty());
        assert(w@.quests =~= Seq::empty());
        assert(w@.player_quests =~= Seq::empty());
        assert(w@.storylines =~= Seq::empty());
        assert(w@.sessions =~= Seq::empty());
        assert(w@.stats =~= Seq::empty());
        assert(w@.events =~= Seq::empty());
        assert(w@.items =~= Seq::empty());
        assert(w@.player_storylines =~= Seq::empty());
        assert(w@.npcs =~= Seq::empty());
        assert(w@.npc_interactions =~= Seq::empty());
        w
    }
}

// ---------------------------------------------------------------------------
// Looking rows up
// ---------------------------------------------------------------------------
/// The index of the first player, from index `i` on, with the id.
pub open spec fn player_index_from(players: Seq<PlayerView>, id: Seq<char>, i: int) -> Option<int>
    decreases players.len() - i,
{
    if i < 0 || i >= players.len() {
        None
    } else if players[i].id == id {
        Some(i)
    } else {
        player_index_from(players, id, i + 1)
    }
}

/// The index of the account of the player.
pub open spec fn player_index(players: Seq<PlayerView>, id: Seq<char>) -> Option<int> {
    player_index_from(players, id, 0)
}

/// The index of the first stats record, from index `i` on, of the player.
pub open spec fn stats_index_from(stats: Seq<PlayerStatsView>, player_id: Seq<char>, i: int) -> Option<
    int,
>
    decreases stats.len() - i,
{
    if i < 0 || i >= stats.len() {
        None
    } else if stats[i].player_id == player_id {
        Some(i)
    } else {
        stats_index_from(stats, player_id, i + 1)
    }
}

/// The index of the stats record of the player.
pub open spec fn stats_index(stats: Seq<PlayerStatsView>, player_id: Seq<char>) -> Option<int> {
    stats_index_from(stats, player_id, 0)
}

/// The index of the first quest, from index `i` on, with the id.
pub open spec fn quest_index_from(quests: Seq<QuestView>, id: Seq<char>, i: int) -> Option<int>
    decreases quests.len() - i,
{
    if i < 0 || i >= quests.len() {
        None
    } else if quests[i].id == id {
        Some(i)
    } else {
        quest_index_from(quests, id, i + 1)
    }
}

/// The index of the definition of the quest.
pub open spec fn quest_index(quests: Seq<QuestView>, id: Seq<char>) -> Option<int> {
    quest_index_from(quests, id, 0)
}

/// The index of the first session, from index `i` on, of the player that
/// still runs.
pub open spec fn active_session_index_from(
    sessions: Seq<PlayerSessionView>,
    player_id: Seq<char>,
    i: int,
) -> Option<int>
    decreases sessions.len() - i,
{
    if i < 0 || i >= sessions.len() {
        None
    } else if sessions[i].player_id == player_id && sessions[i].is_active {
        Some(i)
    } else {
        active_session_index_from(sessions, player_id, i + 1)
    }
}

/// The index of the running session of the player.
pub open spec fn active_session_index(sessions: Seq<PlayerSessionView>, player_id: Seq<char>) -> Option<
    int,
> {
    active_session_index_from(sessions, player_id, 0)
}

/// The index of the first catch, from index `i` on, with the id.
pub open spec fn catch_index_from(catches: Seq<FishCatchView>, id: u64, i: int) -> Option<int>
    decreases catches.len() - i,
{
    if i < 0 || i >= catches.len() {
        None
    } else if catches[i].id == id {
        Some(i)
    } else {
        catch_index_from(catches, id, i + 1)
    }
}

/// The index of the log entry of the catch.
pub open spec fn catch_index(catches: Seq<FishCatchView>, id: u64) -> Option<int> {
    catch_index_from(catches, id, 0)
}

/// Whether a row of a player's quests is told apart by status as well.
pub enum QuestState {
    /// Rows of any status.
    Any,
    /// Rows whose status is `active`.
    Active,
    /// Rows whose status is `completed`.
    Completed,
}

/// The row is of the player and the quest, and in the state.
pub open spec fn is_quest_row(
    row: PlayerQuestView,
    player_id: Seq<char>,
    quest_id: Seq<char>,
    state: QuestState,
) -> bool {
    &&& row.player_id == player_id
    &&& row.quest_id == quest_id
    &&& match state {
        QuestState::Any => true,
        QuestState::Active => row.status == "active"@,
        QuestState::Completed => row.status == "completed"@,
    }
}

/// The index of the first row, from index `i` on, of the player and the
/// quest in the state.
pub open spec fn player_quest_index_from(
    rows: Seq<PlayerQuestView>,
    player_id: Seq<char>,
    quest_id: Seq<char>,
    state: QuestState,
    i: int,
) -> Option<int>
    decreases rows.len() - i,
{
    if i < 0 || i >= rows.len() {
        None
    } else if is_quest_row(rows[i], player_id, quest_id, state) {
        Some(i)
    } else {
        player_quest_index_from(rows, player_id, quest_id, state, i + 1)
    }
}

/// The index of the row of the player and the quest in the state.
pub open spec fn player_quest_index(
    rows: Seq<PlayerQuestView>,
    player_id: Seq<char>,
    quest_id: Seq<char>,
    state: QuestState,
) -> Option<int> {
    player_quest_index_from(rows, player_id, quest_id, state, 0)
}

/// The index of the first item definition, from index `i` on, with the id.
pub open spec fn item_index_from(items: Seq<ItemDefinitionView>, id: Seq<char>, i: int) -> Option<
    int,
>
    decreases items.len() - i,
{
    if i < 0 || i >= items.len() {
        None
    } else if items[i].id == id {
        Some(i)
    } else {
        item_index_from(items, id, i + 1)
    }
}

/// The index of the definition of the item.
pub open spec fn item_index(items: Seq<ItemDefinitionView>, id: Seq<char>) -> Option<int> {
    item_index_from(items, id, 0)
}

/// The index of the first storyline, from index `i` on, with the id.
pub open spec fn storyline_index_from(lines: Seq<StorylineView>, id: Seq<char>, i: int) -> Option<
    int,
>
    decreases lines.len() - i,
{
    if i < 0 || i >= lines.len() {
        None
    } else if lines[i].id == id {
        Some(i)
    } else {
        storyline_index_from(lines, id, i + 1)
    }
}

/// The index of the storyline.
pub open spec fn storyline_index(lines: Seq<StorylineView>, id: Seq<char>) -> Option<int> {
    storyline_index_from(lines, id, 0)
}

/// Finds the definition of the item.
pub fn find_item(items: &Vec<ItemDefinition>, id: &String) -> (r: Option<usize>)
    ensures
        match r {
            Some(i) => item_index(items_view(items@), id@) == Some(i as int) && i < items.len()
                && items[i as int].id@ == id@,
            None => item_index(items_view(items@), id@) is None,
        },
{
    let mut i: usize = 0;
    while i < items.len()
        invariant
            i <= items.len(),
            item_index(items_view(items@), id@) == item_index_from(
                items_view(items@),
                id@,
                i as int,
            ),
        decreases items.len() - i,
    {
        if items[i].id == *id {
            return Some(i);
        }
        i += 1;
    }
    None
}

/// Finds the storyline.
pub fn find_storyline(lines: &Vec<Storyline>, id: &String) -> (r: Option<usize>)
    ensures
        match r {
            Some(i) => storyline_index(storylines_view(lines@), id@) == Some(i as int) && i
                < lines.len() && lines[i as int].id@ == id@,
            None => storyline_index(storylines_view(lines@), id@) is None,
        },
{
    let mut i: usize = 0;
    while i < lines.len()
        invariant
            i <= lines.len(),
            storyline_index(storylines_view(lines@), id@) == storyline_index_from(
                storylines_view(lines@),
                id@,
                i as int,
            ),
        decreases lines.len() - i,
    {
        if lines[i].id == *id {
            return Some(i);
        }
        i += 1;
    }
    None
}

/// The account that is found, from index `i` on, lies in the table and has
/// the id.
pub proof fn lemma_player_index_found(players: Seq<PlayerView>, id: Seq<char>, i: int)
    requires
        0 <= i,
    ensures
        match player_index_from(players, id, i) {
            Some(k) => i <= k < players.len() && players[k].id == id,
            None => true,
        },
    decreases players.len() - i,
{
    if i < players.len() && players[i].id != id {
        lemma_player_index_found(players, id, i + 1);
    }
}

/// The row of a quest that is found, from index `i` on, is the first there of
/// the player and the quest in the state; where none is found, there is no
/// such row.
pub proof fn lemma_player_quest_index_found(
    rows: Seq<PlayerQuestView>,
    player_id: Seq<char>,
    quest_id: Seq<char>,
    state: QuestState,
    i: int,
)
    requires
        0 <= i,
    ensures
        match player_quest_index_from(rows, player_id, quest_id, state, i) {
            Some(k) => {
                &&& i <= k < rows.len()
                &&& is_quest_row(rows[k], player_id, quest_id, state)
                &&& forall|j: int|
                    i <= j < k ==> !is_quest_row(#[trigger] rows[j], player_id, quest_id, state)
            },
            None => forall|j: int|
                i <= j < rows.len() ==> !is_quest_row(
                    #[trigger] rows[j],
                    player_id,
                    quest_id,
                    state,
                ),
        },
    decreases rows.len() - i,
{
    if i < rows.len() && !is_quest_row(rows[i], player_id, quest_id, state) {
        lemma_player_quest_index_found(rows, player_id, quest_id, state, i + 1);
    }
}

/// Changing a stats record without changing whose it is leaves every
/// player's record where it was.
pub proof fn lemma_stats_index_update(
    stats: Seq<PlayerStatsView>,
    j: int,
    changed: PlayerStatsView,
    player_id: Seq<char>,
    i: int,
)
    requires
        0 <= j < stats.len(),
        changed.player_id == stats[j].player_id,
        0 <= i,
    ensures
        stats_index_from(stats.update(j, changed), player_id, i) == stats_index_from(
            stats,
            player_id,
            i,
        ),
    decreases stats.len() - i,
{
    if i < stats.len() {
        lemma_stats_index_update(stats, j, changed, player_id, i + 1);
    }
}

/// Changing an account without changing its id leaves every player's
/// account where it was.
pub proof fn lemma_player_index_update(
    players: Seq<PlayerView>,
    j: int,
    changed: PlayerView,
    id: Seq<char>,
    i: int,
)
    requires
        0 <= j < players.len(),
        changed.id == players[j].id,
        0 <= i,
    ensures
        player_index_from(players.update(j, changed), id, i) == player_index_from(players, id, i),
    decreases players.len() - i,
{
    if i < players.len() {
        lemma_player_index_update(players, j, changed, id, i + 1);
    }
}

/// Whether a string holds the characters of a literal.
pub fn string_is(s: &String, literal: &str) -> (r: bool)
    ensures
        r == (s@ == literal@),
{
    same_text(s.as_str(), literal)
}

/// Finds the account of the player.
pub fn find_player(players: &Vec<Player>, id: &String) -> (r: Option<usize>)
    ensures
        match r {
            Some(i) => player_index(players_view(players@), id@) == Some(i as int) && i
                < players.len() && players[i as int].id@ == id@,
            None => player_index(players_view(players@), id@) is None,
        },
{
    let mut i: usize = 0;
    while i < players.len()
        invariant
            i <= players.len(),
            player_index(players_view(players@), id@) == player_index_from(
                players_view(players@),
                id@,
                i as int,
            ),
        decreases players.len() - i,
    {
        if players[i].id == *id {
            return Some(i);
        }
        i += 1;
    }
    None
}

/// Finds the stats record of the player.
pub fn find_stats(stats: &Vec<PlayerStats>, player_id: &String) -> (r: Option<usize>)
    ensures
        match r {
            Some(i) => stats_index(stats_view(stats@), player_id@) == Some(i as int) && i
                < stats.len() && stats[i as int].player_id@ == player_id@,
            None => stats_index(stats_view(stats@), player_id@) is None,
        },
{
    let mut i: usize = 0;
    while i < stats.len()
        invariant
            i <= stats.len(),
            stats_index(stats_view(stats@), player_id@) == stats_index_from(
                stats_view(stats@),
                player_id@,
                i as int,
            ),
        decreases stats.len() - i,
    {
        if stats[i].player_id == *player_id {
            return Some(i);
        }
        i += 1;
    }
    None
}

/// Finds the definition of the quest.
pub fn find_quest(quests: &Vec<Quest>, id: &String) -> (r: Option<usize>)
    ensures
        match r {
            Some(i) => quest_index(quests_view(quests@), id@) == Some(i as int) && i < quests.len()
                && quests[i as int].id@ == id@,
            None => quest_index(quests_view(quests@), id@) is None,
        },
{
    let mut i: usize = 0;
    while i < quests.len()
        invariant
            i <= quests.len(),
            quest_index(quests_view(quests@), id@) == quest_index_from(
                quests_view(quests@),
                id@,
                i as int,
            ),
        decreases quests.len() - i,
    {
        if quests[i].id == *id {
            return Some(i);
        }
        i += 1;
    }
    None
}

/// Finds the running session of the player.
pub fn find_active_session(sessions: &Vec<PlayerSession>, player_id: &String) -> (r: Option<usize>)
    ensures
        match r {
            Some(i) => active_session_index(sessions_view(sessions@), player_id@) == Some(i as int)
                && i < sessions.len() && sessions[i as int].player_id@ == player_id@
                && sessions[i as int].is_active,
            None => active_session_index(sessions_view(sessions@), player_id@) is None,
        },
{
    let mut i: usize = 0;
    while i < sessions.len()
        invariant
            i <= sessions.len(),
            active_session_index(sessions_view(sessions@), player_id@)
                == active_session_index_from(sessions_view(sessions@), player_id@, i as int),
        decreases sessions.len() - i,
    {
        if sessions[i].player_id == *player_id && sessions[i].is_active {
            return Some(i);
        }
        i += 1;
    }
    None
}

/// Finds the log entry of the catch.
pub fn find_catch(catches: &Vec<FishCatch>, id: u64) -> (r: Option<usize>)
    ensures
        match r {
            Some(i) => catch_index(fish_catches_view(catches@), id) == Some(i as int) && i
                < catches.len(),
            None => catch_index(fish_catches_view(catches@), id) is None,
        },
{
    let mut i: usize = 0;
    while i < catches.len()
        invariant
            i <= catches.len(),
            catch_index(fish_catches_view(catches@), id) == catch_index_from(
                fish_catches_view(catches@),
                id,
                i as int,
            ),
        decreases catches.len() - i,
    {
        if catches[i].id == id {
            return Some(i);
        }
        i += 1;
    }
    None
}

/// Whether the row is of the player and the quest, and in the state.
pub fn row_is_quest_row(
    row: &PlayerQuest,
    player_id: &String,
    quest_id: &String,
    state: &QuestState,
) -> (r: bool)
    ensures
        r == is_quest_row(row@, player_id@, quest_id@, *state),
{
    row.player_id == *player_id && row.quest_id == *quest_id && match state {
        QuestState::Any => true,
        QuestState::Active => string_is(&row.status, "active"),
        QuestState::Completed => string_is(&row.status, "completed"),
    }
}

/// Finds the row of the player and the quest in the state.
pub fn find_player_quest(
    rows: &Vec<PlayerQuest>,
    player_id: &String,
    quest_id: &String,
    state: QuestState,
) -> (r: Option<usize>)
    ensures
        match r {
            Some(i) => player_quest_index(player_quests_view(rows@), player_id@, quest_id@, state)
                == Some(i as int) && i < rows.len() && is_quest_row(
                rows[i as int]@,
                player_id@,
                quest_id@,
                state,
            ),
            None => player_quest_index(player_quests_view(rows@), player_id@, quest_id@, state)
                is None,
        },
{
    let mut i: usize = 0;
    while i < rows.len()
        invariant
            i <= rows.len(),
            player_quest_index(player_quests_view(rows@), player_id@, quest_id@, state)
                == player_quest_index_from(
                player_quests_view(rows@),
                player_id@,
                quest_id@,
                state,
                i as int,
            ),
        decreases rows.len() - i,
    {
        if row_is_quest_row(&rows[i], player_id, quest_id, &state) {
            return Some(i);
        }
        i += 1;
    }
    None
}

/// Why a transaction was turned down. A transaction that is turned down
/// changes nothing.
#[derive(Clone, Copy, Debug, PartialEq, Eq)]
pub enum Rejection {
    /// The player has no account.
    PlayerNotFound,
    /// The quest has no definition.
    QuestNotFound,
    /// The fish catch has no log entry.
    CatchNotFound,
    /// A quantity of 0 was given.
    ZeroQuantity,
    /// The pole is the one in use.
    PoleEquipped,
    /// The player owns fewer units than asked for.
    InsufficientQuantity,
    /// The shop does not sell the item.
    NotPurchasable,
    /// The player has less gold than the amount.
    InsufficientGold,
    /// The player does not own the item.
    NotOwned,
    /// The player is in the quest already.
    QuestAlreadyActive,
    /// The player has completed the story quest.
    QuestAlreadyCompleted,
    /// The player has not completed the quest that comes before.
    PrerequisiteNotMet,
    /// The player is not in the quest.
    QuestNotActive,
    /// The player is in a quest whose definition is gone.
    QuestDefinitionMissing,
    /// The progress does not meet the requirements.
    RequirementsNotMet,
    /// The player has no running session.
    NoActiveSession,
    /// A row with the id exists already.
    AlreadyExists,
    /// No row with the id exists.
    NotFound,
}

} // verus!
