//! The snapshot data model: one immutable record of the whole match state at
//! an instant, as handed over by the ingestion boundary, plus the store that
//! keeps the two most recent snapshots for diffing.
//!
//! Mappings arrive as association lists of `(key, value)` pairs; the ingestion
//! boundary is expected to hand over unique keys, and the places that rely on
//! uniqueness say so in their contracts.

use vstd::prelude::*;
use crate::text::{lower_seq, lower_char, ascii_lower};

verus! {

/// Information about the producer of the snapshot feed.
#[derive(Clone, Debug)]
pub struct Provider {
    pub name: Option<String>,
    pub appid: Option<i32>,
    pub version: Option<i32>,
    pub timestamp: Option<i64>,
}

/// Match-level state: clocks, day cycle, scores.
#[derive(Clone, Debug)]
pub struct MapState {
    pub name: Option<String>,
    pub matchid: Option<String>,
    pub game_time: Option<i32>,
    pub clock_time: Option<i32>,
    pub daytime: Option<bool>,
    pub nightstalker_night: Option<bool>,
    pub game_state: Option<String>,
    pub paused: Option<bool>,
    pub win_team: Option<String>,
    pub customgamename: Option<String>,
    pub ward_purchase_cooldown: Option<i32>,
    pub radiant_score: Option<i32>,
    pub dire_score: Option<i32>,
}

/// The locally tracked player: identity, team, score counters, and economy.
/// The elimination counters arrive as an association list from victim
/// identifier to cumulative count.
#[derive(Clone, Debug)]
pub struct Player {
    pub steamid: Option<String>,
    pub name: Option<String>,
    pub activity: Option<String>,
    pub kills: Option<i32>,
    pub deaths: Option<i32>,
    pub assists: Option<i32>,
    pub last_hits: Option<i32>,
    pub denies: Option<i32>,
    pub kill_streak: Option<i32>,
    pub commands_issued: Option<i32>,
    pub team_name: Option<String>,
    pub gold: Option<i32>,
    pub gold_reliable: Option<i32>,
    pub gold_unreliable: Option<i32>,
    pub gold_from_hero_kills: Option<i32>,
    pub gold_from_creep_kills: Option<i32>,
    pub gold_from_income: Option<i32>,
    pub gold_from_shared: Option<i32>,
    pub net_worth: Option<i32>,
    pub gpm: Option<i32>,
    pub xpm: Option<i32>,
    pub kill_list: Option<Vec<(String, i32)>>,
}

/// The locally tracked hero: life state, resources, status flags, talents,
/// and map position.
#[derive(Clone, Debug)]
pub struct Hero {
    pub id: Option<i32>,
    pub name: Option<String>,
    pub level: Option<i32>,
    pub xp: Option<i32>,
    pub alive: Option<bool>,
    pub respawn_seconds: Option<i32>,
    pub buyback_cost: Option<i32>,
    pub buyback_cooldown: Option<i32>,
    pub health: Option<i32>,
    pub max_health: Option<i32>,
    pub health_percent: Option<i32>,
    pub mana: Option<i32>,
    pub max_mana: Option<i32>,
    pub mana_percent: Option<i32>,
    pub silenced: Option<bool>,
    pub stunned: Option<bool>,
    pub disarmed: Option<bool>,
    pub magicimmune: Option<bool>,
    pub hexed: Option<bool>,
    pub muted: Option<bool>,
    pub break_active: Option<bool>,
    pub aghanims_scepter: Option<bool>,
    pub aghanims_shard: Option<bool>,
    pub smoked: Option<bool>,
    pub has_debuff: Option<bool>,
    pub talent_1: Option<bool>,
    pub talent_2: Option<bool>,
    pub talent_3: Option<bool>,
    pub talent_4: Option<bool>,
    pub talent_5: Option<bool>,
    pub talent_6: Option<bool>,
    pub talent_7: Option<bool>,
    pub talent_8: Option<bool>,
    pub xpos: Option<i32>,
    pub ypos: Option<i32>,
}

/// One hero ability: level, castability, and cooldown.
#[derive(Clone, Debug)]
pub struct Ability {
    pub name: Option<String>,
    pub level: Option<i32>,
    pub can_cast: Option<bool>,
    pub passive: Option<bool>,
    pub ability_active: Option<bool>,
    pub cooldown: Option<i32>,
    pub ultimate: Option<bool>,
}

/// One inventory item slot.
#[derive(Clone, Debug)]
pub struct Item {
    pub name: Option<String>,
    pub purchaser: Option<i32>,
    pub item_level: Option<i32>,
    pub contains_rune: Option<String>,
    pub can_cast: Option<bool>,
    pub cooldown: Option<i32>,
    pub passive: Option<bool>,
    pub charges: Option<i32>,
    pub item_charges: Option<i32>,
}

/// One building's health, keyed by building name within a team.
#[derive(Clone, Debug)]
pub struct Building {
    pub health: i32,
    pub max_health: i32,
}

/// One observed marker on the minimap: its icon classification tag, the
/// entity name when known, team id, and integer map coordinates.
#[derive(Clone, Debug)]
pub struct MinimapObject {
    pub image: String,
    pub name: Option<String>,
    pub team: i32,
    pub unitname: Option<String>,
    pub visionrange: i32,
    pub xpos: i32,
    pub ypos: i32,
    pub yaw: Option<i32>,
}

/// One full match-state snapshot at an instant. Every section is optional:
/// an absent section propagates as "unknown" downstream.
#[derive(Clone, Debug)]
pub struct GameState {
    pub provider: Option<Provider>,
    pub map: Option<MapState>,
    pub player: Option<Player>,
    pub hero: Option<Hero>,
    pub abilities: Option<Vec<(String, Ability)>>,
    pub items: Option<Vec<(String, Item)>>,
    pub buildings: Option<Vec<(String, Vec<(String, Building)>)>>,
    pub minimap: Option<Vec<(String, MinimapObject)>>,
}

/// Accumulated knowledge about one opposing hero. Health and mana are kept as
/// absence markers: the snapshot feed carries no genuine source for them.
#[derive(Debug)]
pub struct EnemyHero {
    pub name: String,
    pub position: (i32, i32),
    pub last_seen: i32,
    pub estimated_level: i32,
    pub items: Vec<String>,
    pub health: Option<i32>,
    pub max_health: Option<i32>,
    pub health_percent: Option<i32>,
    pub mana: Option<i32>,
    pub max_mana: Option<i32>,
    pub mana_percent: Option<i32>,
}

impl MapState {
    /// A map section with every field absent.
    pub fn unknown() -> (m: Self)
        ensures
            m == (MapState {
                name: None,
                matchid: None,
                game_time: None,
                clock_time: None,
                daytime: None,
                nightstalker_night: None,
                game_state: None,
                paused: None,
                win_team: None,
                customgamename: None,
                ward_purchase_cooldown: None,
                radiant_score: None,
                dire_score: None,
            }),
    {
        MapState {
            name: None,
            matchid: None,
            game_time: None,
            clock_time: None,
            daytime: None,
            nightstalker_night: None,
            game_state: None,
            paused: None,
            win_team: None,
            customgamename: None,
            ward_purchase_cooldown: None,
            radiant_score: None,
            dire_score: None,
        }
    }
}

impl Player {
    /// A player section with every field absent.
    pub fn unknown() -> (p: Self)
        ensures
            p == (Player {
                steamid: None,
                name: None,
                activity: None,
                kills: None,
                deaths: None,
                assists: None,
                last_hits: None,
                denies: None,
                kill_streak: None,
                commands_issued: None,
                team_name: None,
                gold: None,
                gold_reliable: None,
                gold_unreliable: None,
                gold_from_hero_kills: None,
                gold_from_creep_kills: None,
                gold_from_income: None,
                gold_from_shared: None,
                net_worth: None,
                gpm: None,
                xpm: None,
                kill_list: None,
            }),
    {
        Player {
            steamid: None,
            name: None,
            activity: None,
            kills: None,
            deaths: None,
            assists: None,
            last_hits: None,
            denies: None,
            kill_streak: None,
            commands_issued: None,
            team_name: None,
            gold: None,
            gold_reliable: None,
            gold_unreliable: None,
            gold_from_hero_kills: None,
            gold_from_creep_kills: None,
            gold_from_income: None,
            gold_from_shared: None,
            net_worth: None,
            gpm: None,
            xpm: None,
            kill_list: None,
        }
    }
}

impl Hero {
    /// A hero section with every field absent.
    pub fn unknown() -> (h: Self)
        ensures
            h == (Hero {
                id: None,
                name: None,
                level: None,
                xp: None,
                alive: None,
                respawn_seconds: None,
                buyback_cost: None,
                buyback_cooldown: None,
                health: None,
                max_health: None,
                health_percent: None,
                mana: None,
                max_mana: None,
                mana_percent: None,
                silenced: None,
                stunned: None,
                disarmed: None,
                magicimmune: None,
                hexed: None,
                muted: None,
                break_active: None,
                aghanims_scepter: None,
                aghanims_shard: None,
                smoked: None,
                has_debuff: None,
                talent_1: None,
                talent_2: None,
                talent_3: None,
                talent_4: None,
                talent_5: None,
                talent_6: None,
                talent_7: None,
                talent_8: None,
                xpos: None,
                ypos: None,
            }),
    {
        Hero {
            id: None,
            name: None,
            level: None,
            xp: None,
            alive: None,
            respawn_seconds: None,
            buyback_cost: None,
            buyback_cooldown: None,
            health: None,
            max_health: None,
            health_percent: None,
            mana: None,
            max_mana: None,
            mana_percent: None,
            silenced: None,
            stunned: None,
            disarmed: None,
            magicimmune: None,
            hexed: None,
            muted: None,
            break_active: None,
            aghanims_scepter: None,
            aghanims_shard: None,
            smoked: None,
            has_debuff: None,
            talent_1: None,
            talent_2: None,
            talent_3: None,
            talent_4: None,
            talent_5: None,
            talent_6: None,
            talent_7: None,
            talent_8: None,
            xpos: None,
            ypos: None,
        }
    }
}

impl GameState {
    /// A snapshot with every section absent.
    pub fn empty() -> (s: Self)
        ensures
            s == (GameState {
                provider: None,
                map: None,
                player: None,
                hero: None,
                abilities: None,
                items: None,
                buildings: None,
                minimap: None,
            }),
    {
        GameState {
            provider: None,
            map: None,
            player: None,
            hero: None,
            abilities: None,
            items: None,
            buildings: None,
            minimap: None,
        }
    }
}

/// The snapshot's game clock as the machine integer it arrived as, or zero
/// when the clock is absent.
pub open spec fn spec_game_time32(s: GameState) -> i32 {
    match s.map {
        Option::Some(m) => match m.game_time {
            Option::Some(t) => t,
            Option::None => 0,
        },
        Option::None => 0,
    }
}

/// The snapshot's game clock, or zero when the clock is absent.
pub open spec fn spec_game_time_of(s: GameState) -> int {
    spec_game_time32(s) as int
}

/// Read the snapshot's game clock, defaulting to zero when absent.
pub fn game_time_of(s: &GameState) -> (t: i32)
    ensures
        t as int == spec_game_time_of(*s),
{
    match &s.map {
        Option::Some(m) => match m.game_time {
            Option::Some(t) => t,
            Option::None => 0,
        },
        Option::None => 0,
    }
}

/// Whether a team name reads "radiant" once lowercased (ASCII).
pub fn is_radiant_name(team: &str) -> (r: bool)
    ensures
        r == (lower_seq(team@) == "radiant"@),
{
    proof {
        reveal_strlit("radiant");
    }
    let n = team.unicode_len();
    if n != 7 {
        proof {
            assert(lower_seq(team@).len() == team@.len());
        }
        return false;
    }
    let mut i: usize = 0;
    while i < 7
        invariant
            i <= 7,
            team@.len() == 7,
            "radiant"@.len() == 7,
            forall|k: int| 0 <= k < i ==> lower_char(team@[k]) == "radiant"@[k],
        decreases 7 - i,
    {
        let c = ascii_lower(team.get_char(i));
        let e = "radiant".get_char(i);
        if c != e {
            proof {
                assert(lower_seq(team@)[i as int] == lower_char(team@[i as int]));
            }
            return false;
        }
        i += 1;
    }
    proof {
        assert(lower_seq(team@) =~= "radiant"@);
    }
    true
}

/// The opposing team id derived from the player's team field: 3 (Dire) when
/// the player is Radiant, 2 (Radiant) when the player names any other team,
/// and 3 by default when the team is unknown.
pub open spec fn spec_enemy_team_id(s: GameState) -> int {
    match s.player {
        Option::Some(p) => match p.team_name {
            Option::Some(n) => if lower_seq(n@) == "radiant"@ {
                3
            } else {
                2
            },
            Option::None => 3,
        },
        Option::None => 3,
    }
}

/// Derive the opposing team id from the snapshot's player section.
pub fn enemy_team_id(s: &GameState) -> (r: i32)
    ensures
        r as int == spec_enemy_team_id(*s),
{
    match &s.player {
        Option::Some(p) => match &p.team_name {
            Option::Some(n) => if is_radiant_name(n.as_str()) {
                3
            } else {
                2
            },
            Option::None => 3,
        },
        Option::None => 3,
    }
}

/// Holds the two most recent snapshots, rotated on every ingestion so that
/// downstream components always read a consistent (current, previous) pair.
pub struct SnapshotStore {
    pub current: Option<GameState>,
    pub previous: Option<GameState>,
}

impl SnapshotStore {
    /// An empty store: no snapshot has arrived yet.
    pub fn new() -> (s: Self)
        ensures
            s.current is None,
            s.previous is None,
    {
        SnapshotStore { current: None, previous: None }
    }

    /// Rotate the held current snapshot into "previous" and store the new one
    /// as "current". Always succeeds; no validation is performed here.
    pub fn ingest(&mut self, snapshot: GameState)
        ensures
            final(self).previous == old(self).current,
            final(self).current == Some(snapshot),
    {
        self.previous = self.current.take();
        self.current = Some(snapshot);
    }

    /// The most recent snapshot, if any has arrived.
    pub fn current(&self) -> (r: &Option<GameState>)
        ensures
            r == &self.current,
    {
        &self.current
    }

    /// The snapshot before the most recent one, if two have arrived.
    pub fn previous(&self) -> (r: &Option<GameState>)
        ensures
            r == &self.previous,
    {
        &self.previous
    }
}

} // verus!
