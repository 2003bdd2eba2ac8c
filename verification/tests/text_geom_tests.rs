use coach_core::text::{format_game_time, format_hero_name, estimate_hero_level};
use coach_core::geom::{is_position_dangerous, has_moved_significantly, distance_squared,
    describe_position_relative_to_player, describe_map_location};

#[test]
fn game_time_formats_minutes_and_padded_seconds() {
    assert_eq!(format_game_time(Some(125)), "2:05");
    assert_eq!(format_game_time(Some(0)), "0:00");
    assert_eq!(format_game_time(Some(59)), "0:59");
    assert_eq!(format_game_time(Some(600)), "10:00");
    assert_eq!(format_game_time(Some(3599)), "59:59");
}

#[test]
fn game_time_unknown_and_negative() {
    assert_eq!(format_game_time(None), "Unknown");
    assert_eq!(format_game_time(Some(-5)), "0:-5");
    assert_eq!(format_game_time(Some(-65)), "-1:-5");
}

#[test]
fn hero_names_are_prettified() {
    assert_eq!(format_hero_name("npc_dota_hero_bounty_hunter"), "Bounty Hunter");
    assert_eq!(format_hero_name("npc_dota_hero_ursa"), "Ursa");
    assert_eq!(format_hero_name("axe"), "Axe");
    assert_eq!(format_hero_name(""), "");
    assert_eq!(format_hero_name("a__b"), "A  B");
}

#[test]
fn hero_level_estimates() {
    assert_eq!(estimate_hero_level(0), 1);
    assert_eq!(estimate_hero_level(540), 5);
    assert_eq!(estimate_hero_level(600), 8);
    assert_eq!(estimate_hero_level(1200), 11);
}

#[test]
fn dangerous_positions_are_the_central_square() {
    assert!(is_position_dangerous(&(0, 0)));
    assert!(is_position_dangerous(&(-999, 999)));
    assert!(!is_position_dangerous(&(1000, 0)));
    assert!(!is_position_dangerous(&(0, -1000)));
}

#[test]
fn movement_threshold_is_a_thousand_units() {
    assert!(has_moved_significantly((0, 0), (1001, 0)));
    assert!(!has_moved_significantly((0, 0), (1000, 0)));
    assert!(!has_moved_significantly((0, 0), (700, 700)));
    assert!(has_moved_significantly((0, 0), (707, 708)));
}

#[test]
fn squared_distance_is_exact() {
    assert_eq!(distance_squared((0, 0), (3, 4)), 25);
    assert_eq!(distance_squared((-3, -4), (0, 0)), 25);
    assert_eq!(distance_squared((i32::MIN, 0), (i32::MAX, 0)), (u32::MAX as i128) * (u32::MAX as i128));
}

#[test]
fn relative_positions_combine_band_and_direction() {
    assert_eq!(describe_position_relative_to_player((0, 0), (500, 100)), "very close to you to the east");
    assert_eq!(describe_position_relative_to_player((0, 0), (-3000, -100)), "at medium distance to the west");
    assert_eq!(describe_position_relative_to_player((0, 0), (100, 1500)), "nearby to the north");
    assert_eq!(describe_position_relative_to_player((0, 0), (2000, 2000)), "at medium distance to the northeast");
    assert_eq!(describe_position_relative_to_player((0, 0), (-5000, -5000)), "far away to the southwest");
}

#[test]
fn map_locations_are_named() {
    assert_eq!(describe_map_location((6000, 6000)), "Radiant jungle");
    assert_eq!(describe_map_location((4000, -4000)), "Dire jungle");
    assert_eq!(describe_map_location((0, 0)), "mid lane area");
    assert_eq!(describe_map_location((4000, 4000)), "Radiant top lane");
    assert_eq!(describe_map_location((-4000, 4000)), "Radiant bottom lane");
    assert_eq!(describe_map_location((4000, -2000)), "Dire top lane");
    assert_eq!(describe_map_location((-4000, -4000)), "Dire bottom lane");
}
