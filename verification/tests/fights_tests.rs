use coach_core::snapshot::{GameState, MapState, Player, Hero};
use coach_core::fights::TeamFightAnalyzer;

fn snap(t: i32, alive: Option<bool>, kills: &[(&str, i32)]) -> GameState {
    let mut s = GameState::empty();
    let mut m = MapState::unknown();
    m.game_time = Some(t);
    s.map = Some(m);
    let mut h = Hero::unknown();
    h.alive = alive;
    s.hero = Some(h);
    let mut p = Player::unknown();
    p.kill_list = Some(kills.iter().map(|(k, c)| (k.to_string(), *c)).collect());
    s.player = Some(p);
    s
}

#[test]
fn death_transition_emits_exactly_one_event() {
    let mut analyzer = TeamFightAnalyzer::new();
    let before = snap(100, Some(true), &[]);
    let after = snap(105, Some(false), &[]);
    analyzer.update(&after, Some(&before));
    assert_eq!(analyzer.player_deaths, vec![105]);
    assert_eq!(analyzer.last_kill_time, 105);
    // Staying dead emits nothing further.
    let later = snap(110, Some(false), &[]);
    analyzer.update(&later, Some(&after));
    assert_eq!(analyzer.player_deaths, vec![105]);
}

#[test]
fn engagement_starts_after_three_events_and_ends_after_quiet() {
    let mut analyzer = TeamFightAnalyzer::new();
    let s0 = snap(99, Some(true), &[]);
    let s1 = snap(100, Some(true), &[("victimid_1", 1)]);
    let s2 = snap(110, Some(true), &[("victimid_1", 2)]);
    let s3 = snap(115, Some(true), &[("victimid_1", 3)]);
    analyzer.update(&s1, Some(&s0));
    assert!(!analyzer.team_fight_detected);
    analyzer.update(&s2, Some(&s1));
    assert!(!analyzer.team_fight_detected);
    analyzer.update(&s3, Some(&s2));
    assert!(analyzer.team_fight_detected);
    assert_eq!(analyzer.team_fight_start, 115);
    let status = analyzer.describe_team_fight_status(120);
    assert_eq!(status, vec!["TEAM FIGHT IN PROGRESS!", "  Started 5 seconds ago"]);
    // Sixteen quiet seconds end the engagement.
    let s4 = snap(131, Some(true), &[("victimid_1", 3)]);
    analyzer.update(&s4, Some(&s3));
    assert!(!analyzer.team_fight_detected);
}

#[test]
fn counter_jump_emits_one_event_per_unit() {
    let mut analyzer = TeamFightAnalyzer::new();
    let s0 = snap(99, Some(true), &[]);
    let s1 = snap(100, Some(true), &[("victimid_7", 3)]);
    analyzer.update(&s1, Some(&s0));
    assert_eq!(analyzer.enemy_deaths.len(), 1);
    assert_eq!(analyzer.enemy_deaths[0].0, "Enemy7");
    assert_eq!(analyzer.enemy_deaths[0].1, vec![100, 100, 100]);
    assert!(analyzer.team_fight_detected);
}

#[test]
fn victim_labels_strip_the_identifier_prefix() {
    let analyzer = TeamFightAnalyzer::new();
    assert_eq!(analyzer.get_enemy_name_from_id("victimid_7"), Some("Enemy7".to_string()));
    assert_eq!(analyzer.get_enemy_name_from_id("hero_3"), Some("Enemyhero_3".to_string()));
}

#[test]
fn duplicate_snapshot_emits_no_events() {
    let mut analyzer = TeamFightAnalyzer::new();
    let s0 = snap(99, Some(true), &[]);
    let s1 = snap(100, Some(true), &[("victimid_1", 2)]);
    analyzer.update(&s1, Some(&s0));
    let deaths_before = analyzer.player_deaths.len();
    let events_before: usize = analyzer.enemy_deaths.iter().map(|e| e.1.len()).sum();
    analyzer.update(&s1, Some(&s1));
    let events_after: usize = analyzer.enemy_deaths.iter().map(|e| e.1.len()).sum();
    assert_eq!(analyzer.player_deaths.len(), deaths_before);
    assert_eq!(events_after, events_before);
}

#[test]
fn skirmish_advisory_needs_two_recent_events() {
    let mut analyzer = TeamFightAnalyzer::new();
    let s0 = snap(99, Some(true), &[]);
    let s1 = snap(100, Some(true), &[("victimid_1", 1)]);
    analyzer.update(&s1, Some(&s0));
    assert_eq!(analyzer.describe_team_fight_status(130).len(), 0);
    let s2 = snap(140, Some(true), &[("victimid_1", 2)]);
    analyzer.update(&s2, Some(&s1));
    assert_eq!(
        analyzer.describe_team_fight_status(150),
        vec!["Skirmishes detected - team fight may be developing!"]
    );
}

#[test]
fn window_counting_is_inclusive_of_the_window_start() {
    let mut analyzer = TeamFightAnalyzer::new();
    let s0 = snap(99, Some(true), &[]);
    let s1 = snap(100, Some(true), &[("victimid_1", 1)]);
    analyzer.update(&s1, Some(&s0));
    assert_eq!(analyzer.count_kills_in_window(130, 30), 1);
    assert_eq!(analyzer.count_kills_in_window(131, 30), 0);
}
