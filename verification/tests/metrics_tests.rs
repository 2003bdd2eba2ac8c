use coach_core::snapshot::{GameState, MapState, Player, Hero};
use coach_core::metrics::HeroPerformanceTracker;

fn snap(t: i32, gpm: Option<i32>, xpm: Option<i32>, last_hits: Option<i32>) -> GameState {
    let mut s = GameState::empty();
    let mut m = MapState::unknown();
    m.game_time = Some(t);
    s.map = Some(m);
    let mut p = Player::unknown();
    p.gpm = gpm;
    p.xpm = xpm;
    p.last_hits = last_hits;
    s.player = Some(p);
    s
}

#[test]
fn rising_rate_reports_strong_upward_trend() {
    let mut sampler = HeroPerformanceTracker::new();
    sampler.update(&snap(10, Some(100), None, None), None);
    sampler.update(&snap(20, Some(300), None, None), None);
    let lines = sampler.display_performance_metrics(20);
    assert_eq!(lines[0], "Hero Performance Metrics:");
    assert_eq!(lines[1], "  GPM: 300 (Avg: 200)");
    assert!(lines.contains(&"    GPM trending up significantly!".to_string()));
}

#[test]
fn falling_rate_reports_strong_downward_trend() {
    let mut sampler = HeroPerformanceTracker::new();
    sampler.update(&snap(10, Some(300), None, None), None);
    sampler.update(&snap(20, Some(100), None, None), None);
    let lines = sampler.display_performance_metrics(20);
    assert_eq!(lines[1], "  GPM: 100 (Avg: 200)");
    assert!(lines.contains(&"    GPM trending down significantly".to_string()));
}

#[test]
fn mild_trends_and_flat_series() {
    let mut sampler = HeroPerformanceTracker::new();
    sampler.update(&snap(10, Some(200), None, None), None);
    sampler.update(&snap(20, Some(250), None, None), None);
    let lines = sampler.display_performance_metrics(20);
    assert!(lines.contains(&"    GPM trending up".to_string()));
    let mut flat = HeroPerformanceTracker::new();
    flat.update(&snap(10, Some(200), None, None), None);
    flat.update(&snap(20, Some(210), None, None), None);
    let lines = flat.display_performance_metrics(20);
    assert_eq!(
        lines,
        vec![
            "Hero Performance Metrics:".to_string(),
            "  GPM: 210 (Avg: 205)".to_string(),
            "  Deaths: 0 - Excellent survival!".to_string(),
        ]
    );
}

#[test]
fn duplicate_snapshot_leaves_series_unchanged() {
    let mut sampler = HeroPerformanceTracker::new();
    sampler.update(&snap(10, Some(100), Some(150), Some(20)), None);
    assert_eq!(sampler.gpm_samples.len(), 1);
    sampler.update(&snap(10, Some(999), Some(999), Some(999)), None);
    assert_eq!(sampler.gpm_samples.len(), 1);
    assert_eq!(sampler.xpm_samples.len(), 1);
    assert_eq!(sampler.last_hits_samples.len(), 1);
    assert_eq!(sampler.gpm_samples[0], (10, 100));
    assert_eq!(sampler.last_sample_time, 10);
}

#[test]
fn series_are_capped_with_oldest_first_eviction() {
    let mut sampler = HeroPerformanceTracker::new();
    for t in 1..=25 {
        sampler.update(&snap(t, Some(t * 10), None, None), None);
    }
    assert_eq!(sampler.gpm_samples.len(), 20);
    assert_eq!(sampler.gpm_samples[0], (6, 60));
    assert_eq!(sampler.gpm_samples[19], (25, 250));
}

#[test]
fn last_hit_rate_and_benchmark() {
    let mut sampler = HeroPerformanceTracker::new();
    sampler.update(&snap(590, None, None, Some(75)), None);
    sampler.update(&snap(600, None, None, Some(80)), None);
    let lines = sampler.display_performance_metrics(600);
    assert!(lines.contains(&"  CS/min: 8.0".to_string()));
    assert!(lines.contains(&"    Excellent CS".to_string()));
}

#[test]
fn early_last_hit_benchmark_uses_looser_thresholds() {
    let mut sampler = HeroPerformanceTracker::new();
    sampler.update(&snap(110, None, None, Some(10)), None);
    sampler.update(&snap(120, None, None, Some(11)), None);
    let lines = sampler.display_performance_metrics(120);
    assert!(lines.contains(&"  CS/min: 5.5".to_string()));
    assert!(lines.contains(&"    Good early game CS".to_string()));
}

#[test]
fn deaths_are_counted_and_reported() {
    let mut sampler = HeroPerformanceTracker::new();
    let mut before = snap(100, None, None, None);
    let mut h = Hero::unknown();
    h.alive = Some(true);
    before.hero = Some(h);
    let mut after = snap(105, None, None, None);
    let mut h2 = Hero::unknown();
    h2.alive = Some(false);
    after.hero = Some(h2);
    sampler.update(&before, None);
    sampler.update(&after, Some(&before));
    assert_eq!(sampler.death_count, 1);
    assert_eq!(sampler.last_death_time, 105);
    let lines = sampler.display_performance_metrics(105);
    assert!(lines.contains(&"  Deaths: 1".to_string()));
    assert!(lines.contains(&"    High death rate, play more cautiously".to_string()));
}

#[test]
fn survival_streak_is_reported_after_five_quiet_minutes() {
    let mut sampler = HeroPerformanceTracker::new();
    let mut before = snap(100, None, None, None);
    let mut h = Hero::unknown();
    h.alive = Some(true);
    before.hero = Some(h);
    let mut after = snap(105, None, None, None);
    let mut h2 = Hero::unknown();
    h2.alive = Some(false);
    after.hero = Some(h2);
    sampler.update(&before, None);
    sampler.update(&after, Some(&before));
    let lines = sampler.display_performance_metrics(466);
    assert!(lines.contains(&"    Good survival streak: 6 minutes without dying".to_string()));
}
