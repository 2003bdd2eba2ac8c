use coach_core::snapshot::{GameState, MapState, Player, MinimapObject};
use coach_core::tracker::EnemyPositionTracker;

fn snap(t: i32, team: i32, enemies: &[(&str, i32, i32)]) -> GameState {
    let mut s = GameState::empty();
    let mut m = MapState::unknown();
    m.game_time = Some(t);
    s.map = Some(m);
    let mut p = Player::unknown();
    p.team_name = Some("radiant".to_string());
    s.player = Some(p);
    let mut mm = Vec::new();
    for (i, (name, x, y)) in enemies.iter().enumerate() {
        mm.push((
            format!("o{}", i),
            MinimapObject {
                image: "minimap_enemyicon".to_string(),
                name: Some(name.to_string()),
                team,
                unitname: None,
                visionrange: 0,
                xpos: *x,
                ypos: *y,
                yaw: None,
            },
        ));
    }
    s.minimap = Some(mm);
    s
}

#[test]
fn history_is_capped_and_clock_ordered() {
    let mut tracker = EnemyPositionTracker::new();
    for t in 1..=105 {
        tracker.update(&snap(t, 3, &[("npc_dota_hero_ursa", t, -t)]));
    }
    assert_eq!(tracker.positions.len(), 1);
    assert_eq!(tracker.positions[0].0, "Ursa");
    let history = &tracker.positions[0].1;
    assert_eq!(history.len(), 100);
    assert_eq!(history[0], (6, (6, -6)));
    assert_eq!(history[99], (105, (105, -105)));
    for w in history.windows(2) {
        assert!(w[0].0 <= w[1].0);
    }
}

#[test]
fn replayed_and_stale_snapshots_are_discarded() {
    let mut tracker = EnemyPositionTracker::new();
    tracker.update(&snap(10, 3, &[("npc_dota_hero_ursa", 1, 2)]));
    assert_eq!(tracker.positions[0].1.len(), 1);
    tracker.update(&snap(10, 3, &[("npc_dota_hero_ursa", 99, 99)]));
    assert_eq!(tracker.positions[0].1.len(), 1);
    assert_eq!(tracker.positions[0].1[0], (10, (1, 2)));
    tracker.update(&snap(5, 3, &[("npc_dota_hero_ursa", 77, 77)]));
    assert_eq!(tracker.positions[0].1.len(), 1);
    assert_eq!(tracker.last_game_time, 10);
}

#[test]
fn predictions_extrapolate_linearly() {
    let mut tracker = EnemyPositionTracker::new();
    tracker.update(&snap(10, 3, &[("npc_dota_hero_ursa", 0, 0)]));
    tracker.update(&snap(20, 3, &[("npc_dota_hero_ursa", 10, 0)]));
    let predictions = tracker.predict_movements(30);
    assert_eq!(predictions.len(), 1);
    assert_eq!(predictions[0].0, "Ursa");
    assert_eq!(predictions[0].1, (20, 0));
}

#[test]
fn predictions_skip_stale_and_single_sample_entities() {
    let mut tracker = EnemyPositionTracker::new();
    tracker.update(&snap(10, 3, &[("npc_dota_hero_ursa", 0, 0)]));
    assert_eq!(tracker.predict_movements(20).len(), 0);
    tracker.update(&snap(20, 3, &[("npc_dota_hero_ursa", 10, 0)]));
    assert_eq!(tracker.predict_movements(51).len(), 0);
    assert_eq!(tracker.predict_movements(50).len(), 1);
}

#[test]
fn movement_description_names_direction() {
    let mut tracker = EnemyPositionTracker::new();
    tracker.update(&snap(10, 3, &[("npc_dota_hero_ursa", 0, 0)]));
    tracker.update(&snap(20, 3, &[("npc_dota_hero_ursa", 10, 0)]));
    let lines = tracker.describe_enemy_movements(30);
    assert_eq!(lines.len(), 2);
    assert_eq!(lines[0], "  Ursa: Last seen 10 seconds ago at (10, 0)");
    assert_eq!(lines[1], "    Moving East");
}

#[test]
fn movement_description_skips_entities_seen_long_ago() {
    let mut tracker = EnemyPositionTracker::new();
    tracker.update(&snap(10, 3, &[("npc_dota_hero_ursa", 0, 0)]));
    assert_eq!(tracker.describe_enemy_movements(71).len(), 0);
    assert_eq!(tracker.describe_enemy_movements(70).len(), 1);
}

#[test]
fn only_hostile_icons_of_the_opposing_team_are_tracked() {
    let mut tracker = EnemyPositionTracker::new();
    let mut s = snap(10, 2, &[("npc_dota_hero_ursa", 0, 0)]);
    tracker.update(&s);
    assert_eq!(tracker.positions.len(), 0);
    s = snap(20, 3, &[("npc_dota_hero_ursa", 0, 0)]);
    if let Some(mm) = &mut s.minimap {
        mm[0].1.image = "minimap_ward".to_string();
    }
    tracker.update(&s);
    assert_eq!(tracker.positions.len(), 0);
    tracker.update(&snap(30, 3, &[("npc_dota_hero_ursa", 0, 0)]));
    assert_eq!(tracker.positions.len(), 1);
}

#[test]
fn unknown_team_defaults_to_dire_as_hostile() {
    let mut tracker = EnemyPositionTracker::new();
    let mut s = snap(10, 3, &[("npc_dota_hero_ursa", 0, 0)]);
    s.player = None;
    tracker.update(&s);
    assert_eq!(tracker.positions.len(), 1);
}
