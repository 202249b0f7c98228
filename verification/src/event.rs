//! The closed set of typed events decoded from raw stream lines.
//!
//! Numeric measurements (positions, health, production rates) are carried as
//! their textual form, so the codec is exact and the logic stays free of
//! machine floating point. A `tick` or a count is a plain integer.

use vstd::prelude::*;
use crate::codec::wf_num;

verus! {

/// Player state embedded in a stats event. `x`, `y` and `health` hold the
/// numeric text exactly as it stands on the wire.
pub struct PlayerSnapshot {
    pub x: String,
    pub y: String,
    pub surface: String,
    pub health: String,
}

/// Spec-level value of a `PlayerSnapshot`.
pub struct PlayerView {
    pub x: Seq<char>,
    pub y: Seq<char>,
    pub surface: Seq<char>,
    pub health: Seq<char>,
}

impl View for PlayerSnapshot {
    type V = PlayerView;

    open spec fn view(&self) -> PlayerView {
        PlayerView {
            x: self.x@,
            y: self.y@,
            surface: self.surface@,
            health: self.health@,
        }
    }
}

/// One event of the closed variant set. Game events with a known name carry
/// exactly their variant-specific fields; a game event whose name is not in
/// the fixed handler set keeps only the common fields.
pub enum ParsedEvent {
    SessionInit { session_id: String, tick: u64, level_name: String },
    Stats {
        session_id: String,
        cycle: u64,
        tick: u64,
        player: Option<PlayerSnapshot>,
        screenshot_path: Option<String>,
        production: Vec<(String, String)>,
        consumption: Vec<(String, String)>,
    },
    ResearchStarted { session_id: String, tick: u64, tech_name: String, tech_level: u32 },
    ResearchFinished { session_id: String, tick: u64, tech_name: String, tech_level: u32 },
    EntityBuilt {
        session_id: String,
        tick: u64,
        player_index: u32,
        entity: String,
        x: String,
        y: String,
        surface: String,
    },
    EntityMined {
        session_id: String,
        tick: u64,
        player_index: u32,
        entity: String,
        x: String,
        y: String,
        surface: String,
    },
    ItemCrafted { session_id: String, tick: u64, player_index: u32, item: String, count: u32 },
    OtherGame { event_name: String, session_id: String, tick: u64 },
}

/// Spec-level value of a `ParsedEvent`.
pub enum EventView {
    SessionInit { session_id: Seq<char>, tick: u64, level_name: Seq<char> },
    Stats {
        session_id: Seq<char>,
        cycle: u64,
        tick: u64,
        player: Option<PlayerView>,
        screenshot_path: Option<Seq<char>>,
        production: Seq<(Seq<char>, Seq<char>)>,
        consumption: Seq<(Seq<char>, Seq<char>)>,
    },
    ResearchStarted { session_id: Seq<char>, tick: u64, tech_name: Seq<char>, tech_level: u32 },
    ResearchFinished { session_id: Seq<char>, tick: u64, tech_name: Seq<char>, tech_level: u32 },
    EntityBuilt {
        session_id: Seq<char>,
        tick: u64,
        player_index: u32,
        entity: Seq<char>,
        x: Seq<char>,
        y: Seq<char>,
        surface: Seq<char>,
    },
    EntityMined {
        session_id: Seq<char>,
        tick: u64,
        player_index: u32,
        entity: Seq<char>,
        x: Seq<char>,
        y: Seq<char>,
        surface: Seq<char>,
    },
    ItemCrafted { session_id: Seq<char>, tick: u64, player_index: u32, item: Seq<char>, count: u32 },
    OtherGame { event_name: Seq<char>, session_id: Seq<char>, tick: u64 },
}

/// The views of an association list of name/numeric-text pairs.
pub open spec fn pairs_view(ps: Seq<(String, String)>) -> Seq<(Seq<char>, Seq<char>)> {
    ps.map_values(|p: (String, String)| (p.0@, p.1@))
}

impl View for ParsedEvent {
    type V = EventView;

    open spec fn view(&self) -> EventView {
        match self {
            ParsedEvent::SessionInit { session_id, tick, level_name } => EventView::SessionInit {
                session_id: session_id@,
                tick: *tick,
                level_name: level_name@,
            },
            ParsedEvent::Stats {
                session_id,
                cycle,
                tick,
                player,
                screenshot_path,
                production,
                consumption,
            } => EventView::Stats {
                session_id: session_id@,
                cycle: *cycle,
                tick: *tick,
                player: match player {
                    Some(p) => Some(p@),
                    None => None,
                },
                screenshot_path: match screenshot_path {
                    Some(p) => Some(p@),
                    None => None,
                },
                production: pairs_view(production@),
                consumption: pairs_view(consumption@),
            },
            ParsedEvent::ResearchStarted { session_id, tick, tech_name, tech_level } =>
                EventView::ResearchStarted {
                    session_id: session_id@,
                    tick: *tick,
                    tech_name: tech_name@,
                    tech_level: *tech_level,
                },
            ParsedEvent::ResearchFinished { session_id, tick, tech_name, tech_level } =>
                EventView::ResearchFinished {
                    session_id: session_id@,
                    tick: *tick,
                    tech_name: tech_name@,
                    tech_level: *tech_level,
                },
            ParsedEvent::EntityBuilt { session_id, tick, player_index, entity, x, y, surface } =>
                EventView::EntityBuilt {
                    session_id: session_id@,
                    tick: *tick,
                    player_index: *player_index,
                    entity: entity@,
                    x: x@,
                    y: y@,
                    surface: surface@,
                },
            ParsedEvent::EntityMined { session_id, tick, player_index, entity, x, y, surface } =>
                EventView::EntityMined {
                    session_id: session_id@,
                    tick: *tick,
                    player_index: *player_index,
                    entity: entity@,
                    x: x@,
                    y: y@,
                    surface: surface@,
                },
            ParsedEvent::ItemCrafted { session_id, tick, player_index, item, count } =>
                EventView::ItemCrafted {
                    session_id: session_id@,
                    tick: *tick,
                    player_index: *player_index,
                    item: item@,
                    count: *count,
                },
            ParsedEvent::OtherGame { event_name, session_id, tick } => EventView::OtherGame {
                event_name: event_name@,
                session_id: session_id@,
                tick: *tick,
            },
        }
    }
}

/// The game-event names with a dedicated variant and handler.
pub open spec fn known_game_name(n: Seq<char>) -> bool {
    n == "on_research_started"@ || n == "on_research_finished"@ || n == "on_built_entity"@
        || n == "on_player_mined_entity"@ || n == "on_player_crafted_item"@
}

/// Every pair's value is a numeric text; names need no constraint, since
/// the string codec escapes what the grammar reserves.
pub open spec fn wf_pairs(ps: Seq<(Seq<char>, Seq<char>)>) -> bool {
    forall|i: int| 0 <= i < ps.len() ==> wf_num((#[trigger] ps[i]).1)
}

pub open spec fn wf_player(p: PlayerView) -> bool {
    wf_num(p.x) && wf_num(p.y) && wf_num(p.health)
}

/// The event is fit for the wire: its numeric texts are non-empty runs of
/// numeric characters, and an unrecognised game event does not shadow a
/// known name. Text fields carry anything — the string codec escapes the
/// characters the grammar reserves.
pub open spec fn wf_event(e: EventView) -> bool {
    match e {
        EventView::SessionInit { .. } => true,
        EventView::Stats { player, production, consumption, .. } => (match player {
            Some(p) => wf_player(p),
            None => true,
        }) && wf_pairs(production) && wf_pairs(consumption),
        EventView::ResearchStarted { .. } => true,
        EventView::ResearchFinished { .. } => true,
        EventView::EntityBuilt { x, y, .. } => wf_num(x) && wf_num(y),
        EventView::EntityMined { x, y, .. } => wf_num(x) && wf_num(y),
        EventView::ItemCrafted { .. } => true,
        EventView::OtherGame { event_name, .. } => !known_game_name(event_name),
    }
}

} // verus!
