use coach_core::snapshot::{GameState, MapState, Player, Hero, Ability, Building, MinimapObject,
    EnemyHero, SnapshotStore};
use coach_core::insights::{suggest_items_based_on_gold, assess_team_fight_readiness,
    extract_enemy_heroes, merge_enemy_heroes, generate_coaching_insights, analyze_item_timings,
    analyze_map_control, track_enemies, compose_insights, display_game_info};
use coach_core::tracker::EnemyPositionTracker;

fn base_snap(t: i32) -> GameState {
    let mut s = GameState::empty();
    let mut m = MapState::unknown();
    m.game_time = Some(t);
    s.map = Some(m);
    s
}

fn with_player(mut s: GameState, f: impl FnOnce(&mut Player)) -> GameState {
    let mut p = Player::unknown();
    f(&mut p);
    s.player = Some(p);
    s
}

fn with_hero(mut s: GameState, f: impl FnOnce(&mut Hero)) -> GameState {
    let mut h = Hero::unknown();
    f(&mut h);
    s.hero = Some(h);
    s
}

fn minimap_enemy(name: &str, x: i32, y: i32) -> (String, MinimapObject) {
    (
        name.to_string(),
        MinimapObject {
            image: "minimap_enemyicon".to_string(),
            name: Some(name.to_string()),
            team: 3,
            unitname: None,
            visionrange: 0,
            xpos: x,
            ypos: y,
            yaw: None,
        },
    )
}

#[test]
fn item_suggestions_follow_gold_thresholds() {
    assert_eq!(
        suggest_items_based_on_gold(4000),
        Some("  You have sufficient gold for major items (BKB, Blink, etc.)".to_string())
    );
    assert_eq!(
        suggest_items_based_on_gold(3999),
        Some("  You have gold for mid-tier items (Force Staff, Eul's, etc.)".to_string())
    );
    assert_eq!(
        suggest_items_based_on_gold(1500),
        Some("  Consider purchasing support/utility items".to_string())
    );
    assert_eq!(suggest_items_based_on_gold(999), None);
}

#[test]
fn readiness_tiers_follow_the_score() {
    let strong = with_hero(base_snap(0), |h| {
        h.health_percent = Some(90);
        h.mana_percent = Some(80);
    });
    assert_eq!(assess_team_fight_readiness(&strong), "Excellent! All systems ready for team fight.");
    let middling = with_hero(base_snap(0), |h| {
        h.health_percent = Some(60);
        h.mana_percent = Some(50);
    });
    assert_eq!(assess_team_fight_readiness(&middling), "Good. Most resources available.");
    let weak = with_hero(base_snap(0), |h| {
        h.health_percent = Some(10);
        h.mana_percent = Some(10);
    });
    assert_eq!(assess_team_fight_readiness(&weak), "Not ready for team fight. Consider retreating.");
    assert_eq!(assess_team_fight_readiness(&base_snap(0)), "Caution advised. Limited resources.");
}

#[test]
fn readiness_counts_ability_availability() {
    let mut s = with_hero(base_snap(0), |h| {
        h.health_percent = Some(60);
    });
    let mut ult = Ability {
        name: None,
        level: None,
        can_cast: Some(true),
        passive: Some(false),
        ability_active: None,
        cooldown: None,
        ultimate: Some(true),
    };
    s.abilities = Some(vec![("ability0".to_string(), ult.clone())]);
    // health +1, ultimate ready +2, all castable +1 = 4
    assert_eq!(assess_team_fight_readiness(&s), "Excellent! All systems ready for team fight.");
    ult.can_cast = Some(false);
    s.abilities = Some(vec![("ability0".to_string(), ult)]);
    // health +1 only
    assert_eq!(assess_team_fight_readiness(&s), "Caution advised. Limited resources.");
}

#[test]
fn extraction_builds_the_enemy_mapping() {
    let mut s = with_player(base_snap(600), |p| {
        p.team_name = Some("radiant".to_string());
    });
    s.minimap = Some(vec![
        minimap_enemy("npc_dota_hero_ursa", 100, 200),
        minimap_enemy("npc_dota_hero_bounty_hunter", -5, 7),
    ]);
    let enemies = extract_enemy_heroes(&s);
    assert_eq!(enemies.len(), 2);
    assert_eq!(enemies[0].0, "Ursa");
    assert_eq!(enemies[0].1.position, (100, 200));
    assert_eq!(enemies[0].1.last_seen, 600);
    assert_eq!(enemies[0].1.estimated_level, 8);
    assert_eq!(enemies[0].1.health, None);
    assert_eq!(enemies[1].0, "Bounty Hunter");
}

#[test]
fn extraction_keeps_the_later_sighting_of_a_name() {
    let mut s = with_player(base_snap(60), |p| {
        p.team_name = Some("radiant".to_string());
    });
    s.minimap = Some(vec![
        minimap_enemy("npc_dota_hero_ursa", 1, 1),
        minimap_enemy("npc_dota_hero_ursa", 9, 9),
    ]);
    let enemies = extract_enemy_heroes(&s);
    assert_eq!(enemies.len(), 1);
    assert_eq!(enemies[0].1.position, (9, 9));
}

#[test]
fn merging_prefers_newer_records_and_adds_new_names() {
    let mut s = with_player(base_snap(100), |p| {
        p.team_name = Some("radiant".to_string());
    });
    s.minimap = Some(vec![minimap_enemy("npc_dota_hero_ursa", 1, 1)]);
    let mut held = extract_enemy_heroes(&s);
    let mut s2 = with_player(base_snap(200), |p| {
        p.team_name = Some("radiant".to_string());
    });
    s2.minimap = Some(vec![
        minimap_enemy("npc_dota_hero_ursa", 5, 5),
        minimap_enemy("npc_dota_hero_axe", 2, 2),
    ]);
    let fresh = extract_enemy_heroes(&s2);
    merge_enemy_heroes(&mut held, fresh);
    assert_eq!(held.len(), 2);
    assert_eq!(held[0].0, "Ursa");
    assert_eq!(held[0].1.position, (5, 5));
    assert_eq!(held[0].1.last_seen, 200);
    assert_eq!(held[1].0, "Axe");
    // An older record does not overwrite a newer one.
    let mut s3 = with_player(base_snap(150), |p| {
        p.team_name = Some("radiant".to_string());
    });
    s3.minimap = Some(vec![minimap_enemy("npc_dota_hero_ursa", 7, 7)]);
    let stale = extract_enemy_heroes(&s3);
    merge_enemy_heroes(&mut held, stale);
    assert_eq!(held[0].1.position, (5, 5));
    assert_eq!(held[0].1.last_seen, 200);
}

#[test]
fn early_game_advice_tracks_last_hits_and_timings() {
    let s = with_player(base_snap(120), |p| {
        p.last_hits = Some(5);
    });
    let lines = generate_coaching_insights(&s, &Vec::new());
    assert_eq!(lines[0], "Coach Insights:");
    assert_eq!(lines[1], "Early Game Phase:");
    assert!(lines.contains(&"  Your last hits are low (5). Focus more on last hitting.".to_string()));
    let paced = with_player(base_snap(120), |p| {
        p.last_hits = Some(25);
    });
    let lines = generate_coaching_insights(&paced, &Vec::new());
    assert!(lines.contains(&"  Good job on last hitting! You have 25 CS.".to_string()));
    let stacking = generate_coaching_insights(&base_snap(165), &Vec::new());
    assert!(stacking.contains(&"  Stack camps now! Pull at X:53.".to_string()));
    let runes = generate_coaching_insights(&base_snap(175), &Vec::new());
    assert!(runes.contains(&"  Water runes spawning in a few seconds!".to_string()));
}

#[test]
fn mid_game_advice_warns_of_nearby_enemies() {
    let s = with_player(base_snap(600), |p| {
        p.gold = Some(2500);
    });
    let enemy = EnemyHero {
        name: "Ursa".to_string(),
        position: (500, 500),
        last_seen: 590,
        estimated_level: 8,
        items: Vec::new(),
        health: None,
        max_health: None,
        health_percent: None,
        mana: None,
        max_mana: None,
        mana_percent: None,
    };
    let enemies = vec![("Ursa".to_string(), enemy)];
    let lines = generate_coaching_insights(&s, &enemies);
    assert_eq!(lines[1], "Mid Game Phase:");
    assert!(lines.contains(&"  You have gold for mid-tier items (Force Staff, Eul's, etc.)".to_string()));
    assert!(lines.contains(&"  Ursa was recently spotted nearby - be careful!".to_string()));
    assert!(lines.contains(
        &"  Roshan is available. Consider checking/taking with team coordination.".to_string()
    ));
}

#[test]
fn late_game_advice_checks_buyback() {
    let mut s = with_player(base_snap(1500), |p| {
        p.gold = Some(400);
    });
    let mut h = Hero::unknown();
    h.buyback_cost = Some(500);
    s.hero = Some(h);
    let lines = generate_coaching_insights(&s, &Vec::new());
    assert_eq!(lines[1], "Late Game Phase:");
    assert!(lines.contains(&"  You don't have buyback gold! Need 100 more gold.".to_string()));
    assert!(lines.contains(&"  Team fight readiness: Caution advised. Limited resources.".to_string()));
}

#[test]
fn item_timings_compare_net_worth_to_benchmarks() {
    let s = with_player(base_snap(720), |p| {
        p.net_worth = Some(5200);
    });
    let lines = analyze_item_timings(&s);
    assert_eq!(
        lines,
        vec![
            "Item Timing Analysis:".to_string(),
            "  You're ahead of item timings! +1200 gold".to_string(),
            "  Current benchmark (10 min): Power Treads + Wraith Bands".to_string(),
            "  Next goal (15 min): Core farming item (Battlefury/Maelstrom)".to_string(),
            "  Need 1800 gold in 3 minutes (600 GPM)".to_string(),
        ]
    );
    let early = analyze_item_timings(&base_snap(60));
    assert_eq!(
        early,
        vec![
            "Item Timing Analysis:".to_string(),
            "  No item benchmarks available for current game time".to_string(),
        ]
    );
}

#[test]
fn map_control_counts_towers_per_side() {
    let mut s = with_player(base_snap(600), |p| {
        p.team_name = Some("radiant".to_string());
    });
    let tower = |name: &str| (name.to_string(), Building { health: 1000, max_health: 1800 });
    s.buildings = Some(vec![
        (
            "radiant".to_string(),
            vec![tower("dota_goodguys_tower1_mid"), tower("dota_goodguys_tower2_mid"), tower(
                "dota_goodguys_tower3_mid",
            ), ("dota_goodguys_fort".to_string(), Building { health: 1, max_health: 1 })],
        ),
        ("dire".to_string(), vec![tower("dota_badguys_tower1_top")]),
    ]);
    let lines = analyze_map_control(&s);
    assert_eq!(lines[0], "Map Control Analysis:");
    assert_eq!(lines[1], "  Your team has 3 towers, enemy has 1 towers");
    assert_eq!(lines[2], "  Slight map control advantage. Maintain pressure.");
    assert_eq!(lines[3], "  Tip: Use your map control to secure Roshan and invade jungle.");
    let bare = analyze_map_control(&base_snap(600));
    assert_eq!(bare[1], "  Building data not available");
}

#[test]
fn tracking_report_includes_predictions_and_proximity_warning() {
    let mut tracker = EnemyPositionTracker::new();
    let make = |t: i32, x: i32| {
        let mut s = with_player(base_snap(t), |p| {
            p.team_name = Some("radiant".to_string());
        });
        s.minimap = Some(vec![minimap_enemy("npc_dota_hero_ursa", x, 0)]);
        let mut h = Hero::unknown();
        h.xpos = Some(100);
        h.ypos = Some(0);
        s.hero = Some(h);
        s
    };
    let _ = track_enemies(&make(10, 0), &mut tracker);
    let lines = track_enemies(&make(20, 10), &mut tracker);
    assert_eq!(lines[0], "  Ursa: Last seen 0 seconds ago at (10, 0)");
    assert_eq!(lines[1], "    Moving East");
    assert_eq!(lines[2], "Enemy Movement Predictions:");
    assert_eq!(lines[3], "  Ursa likely at (10, 0)");
    assert_eq!(lines[4], "    WARNING: This enemy may be very close to you!");
}

#[test]
fn composition_orders_the_advisory_sections() {
    let out = compose_insights(
        &base_snap(0),
        &vec!["engagement line".to_string()],
        &vec!["tracking line".to_string()],
        &vec!["metric line".to_string()],
        &Vec::new(),
    );
    assert_eq!(
        out,
        vec![
            "engagement line".to_string(),
            "tracking line".to_string(),
            "metric line".to_string(),
            "Coach Insights:".to_string(),
            "Early Game Phase:".to_string(),
        ]
    );
}

#[test]
fn game_info_overview_lists_every_section() {
    let mut s = with_player(base_snap(125), |p| {
        p.name = Some("PlayerOne".to_string());
        p.team_name = Some("radiant".to_string());
        p.kills = Some(3);
        p.deaths = Some(1);
        p.assists = Some(7);
        p.net_worth = Some(5400);
    });
    if let Some(m) = &mut s.map {
        m.game_state = Some("DOTA_GAMERULES_STATE_GAME_IN_PROGRESS".to_string());
        m.radiant_score = Some(10);
        m.dire_score = Some(4);
    }
    let mut h = Hero::unknown();
    h.name = Some("npc_dota_hero_bounty_hunter".to_string());
    h.level = Some(6);
    h.health_percent = Some(85);
    s.hero = Some(h);
    let enemy = EnemyHero {
        name: "Ursa".to_string(),
        position: (100, -200),
        last_seen: 119,
        estimated_level: 2,
        items: Vec::new(),
        health: None,
        max_health: None,
        health_percent: None,
        mana: None,
        max_mana: None,
        mana_percent: None,
    };
    let enemies = vec![("Ursa".to_string(), enemy)];
    let lines = display_game_info(&s, &enemies);
    assert_eq!(
        lines,
        vec![
            "Dota 2 Coach - Live Game Assistant".to_string(),
            "Game Time: 2:05".to_string(),
            "Game State: DOTA_GAMERULES_STATE_GAME_IN_PROGRESS".to_string(),
            "Score: 10 Radiant - 4 Dire".to_string(),
            "Player Information:".to_string(),
            "Name: PlayerOne".to_string(),
            "Team: Radiant".to_string(),
            "KDA: 3/1/7".to_string(),
            "Net Worth: 5400".to_string(),
            "Hero Information:".to_string(),
            "Hero: Bounty Hunter, Level: 6".to_string(),
            "Health: 85%".to_string(),
            "Enemy Heroes:".to_string(),
            "Hero: Ursa (Est. Level: 2)".to_string(),
            "  Last seen: 1:59".to_string(),
            "  Position: (100, -200)".to_string(),
            "".to_string(),
        ]
    );
}

#[test]
fn game_info_overview_with_nothing_known() {
    let lines = display_game_info(&GameState::empty(), &Vec::new());
    assert_eq!(
        lines,
        vec![
            "Dota 2 Coach - Live Game Assistant".to_string(),
            "Enemy Heroes:".to_string(),
            "No enemy heroes detected yet".to_string(),
        ]
    );
}

#[test]
fn snapshot_store_rotates_pairs() {
    let mut store = SnapshotStore::new();
    assert!(store.current().is_none());
    store.ingest(base_snap(1));
    assert!(store.previous().is_none());
    store.ingest(base_snap(2));
    let cur = store.current().as_ref().unwrap();
    let prev = store.previous().as_ref().unwrap();
    assert_eq!(cur.map.as_ref().unwrap().game_time, Some(2));
    assert_eq!(prev.map.as_ref().unwrap().game_time, Some(1));
}
