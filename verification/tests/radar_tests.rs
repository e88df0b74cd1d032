use tui_radar_sim_core::radar::{Contact, DisplayColor, ObjectType, RadarWidget, WorldObjects};

fn field(max_range: i64, fade_duration: i64) -> RadarWidget {
    RadarWidget::new(max_range, fade_duration)
}

fn still_object(id: u32, angle: i64, distance: i64) -> WorldObjects {
    WorldObjects {
        id,
        angle,
        distance,
        object_type: ObjectType::AirCraft,
        velocity: (0, 0),
    }
}

#[test]
fn crossing_detects_wrap_through_zero() {
    // Sweep from 358 deg to 2 deg: an object at 1 deg is two degrees from
    // the wrap and registers; one at 170 deg is far outside the arc.
    let radar = field(1_000_000, 14_000);
    assert!(radar.sweep_crossed_target(358_000, 2_000, 1_000));
    assert!(!radar.sweep_crossed_target(358_000, 2_000, 170_000));
}

#[test]
fn crossing_includes_leading_edge_and_excludes_beyond_beam() {
    let radar = field(1_000_000, 14_000);
    // An object exactly on the old angle always registers.
    assert!(radar.sweep_crossed_target(10_000, 13_200, 10_000));
    // Exactly one beam width ahead still registers ...
    assert!(radar.sweep_crossed_target(0, 3_168, 3_000));
    // ... but a hundredth of a degree beyond the beam width never does,
    // even though the sweep travelled over it.
    assert!(!radar.sweep_crossed_target(0, 3_168, 3_010));
}

#[test]
fn wrapped_crossing_measures_from_the_wrap() {
    let radar = field(1_000_000, 14_000);
    // Sweep 359 -> 2.5 deg: object at 359.5 deg sits in the pre-wrap
    // segment; the effective distance is the whole step (3.5 deg > beam).
    assert!(!radar.sweep_crossed_target(359_000, 2_500, 359_500));
    // Sweep 359 -> 2.5 deg: object at 2 deg is measured as 2.5 deg <= 3.
    assert!(radar.sweep_crossed_target(359_000, 2_500, 2_000));
}

#[test]
fn first_tick_detects_aircraft_at_zero() {
    // max_range 1000 units, fade 14 s, one aircraft at angle 0, beam at 0:
    // the first tick crosses it and records a fully visible contact.
    let mut radar = field(1_000_000, 14_000);
    radar.world_objects.push(still_object(42, 0, 900_000));
    radar.update_sweep(66, 66);
    assert_eq!(radar.sweep_angle, 3_168);
    assert_eq!(radar.detected_contacts.len(), 1);
    let c = &radar.detected_contacts[0];
    assert_eq!(c.id, 42);
    assert_eq!(c.visibility, 1_000);
    assert_eq!(c.angle, 0);
    assert_eq!(c.distance, 900_000);
    assert_eq!(c.last_hit_time, 66);
}

#[test]
fn sweep_angle_follows_rate_and_wraps() {
    let mut radar = field(1_000_000, 14_000);
    radar.sweep_angle = 359_000;
    radar.update_sweep(66, 10);
    // 359 deg + 48 deg/s * 66 ms = 362.168 deg, wrapped to 2.168 deg.
    assert_eq!(radar.sweep_angle, 2_168);
}

#[test]
fn sweep_angle_after_n_ticks_matches_formula() {
    let mut radar = field(1_000_000, 14_000);
    let mut now: i64 = 0;
    for _ in 0..10 {
        now += 100;
        radar.update_sweep(100, now);
    }
    // (0 + 10 * 48 deg/s * 100 ms) mod 360 deg = 48 deg.
    assert_eq!(radar.sweep_angle, 48_000);
    let mut long_run = field(1_000_000, 14_000);
    let mut t: i64 = 0;
    for _ in 0..100 {
        t += 1_000;
        long_run.update_sweep(1_000, t);
    }
    // (100 * 48 deg) mod 360 deg = 120 deg.
    assert_eq!(long_run.sweep_angle, 120_000);
}

#[test]
fn motion_moves_objects_and_prunes_leavers() {
    let mut radar = field(100_000, 14_000);
    // Stays: drifts outward but remains inside the field.
    radar.world_objects.push(WorldObjects {
        id: 1,
        angle: 10_000,
        distance: 50_000,
        object_type: ObjectType::Ship,
        velocity: (2_000, 1_000),
    });
    // Leaves outward: 99 + 2 units > 100.
    radar.world_objects.push(WorldObjects {
        id: 2,
        angle: 0,
        distance: 99_000,
        object_type: ObjectType::Hostile,
        velocity: (0, 2_000),
    });
    // Collapses to the center: 1 - 2 units <= 0.
    radar.world_objects.push(WorldObjects {
        id: 3,
        angle: 0,
        distance: 1_000,
        object_type: ObjectType::Generic,
        velocity: (0, -2_000),
    });
    // Wraps its angle through 360.
    radar.world_objects.push(WorldObjects {
        id: 4,
        angle: 359_000,
        distance: 40_000,
        object_type: ObjectType::Weather,
        velocity: (2_000, 0),
    });
    radar.update_world_objects(1_000);
    let ids: Vec<u32> = radar.world_objects.iter().map(|o| o.id).collect();
    assert_eq!(ids, vec![1, 4]);
    assert_eq!(radar.world_objects[0].angle, 12_000);
    assert_eq!(radar.world_objects[0].distance, 51_000);
    assert_eq!(radar.world_objects[1].angle, 1_000);
}

#[test]
fn motion_keeps_object_entering_range_boundary() {
    let mut radar = field(100_000, 14_000);
    // Lands exactly on max_range: (0, max] is closed above, so it stays.
    radar.world_objects.push(WorldObjects {
        id: 9,
        angle: 0,
        distance: 99_000,
        object_type: ObjectType::Ship,
        velocity: (0, 1_000),
    });
    radar.update_world_objects(1_000);
    assert_eq!(radar.world_objects.len(), 1);
    assert_eq!(radar.world_objects[0].distance, 100_000);
}

#[test]
fn visibility_fades_then_contact_expires() {
    let mut radar = field(1_000_000, 10_000);
    radar.record_detection(7, 0, 5_000, ObjectType::AirCraft, 0);
    assert_eq!(radar.detected_contacts[0].visibility, 1_000);

    radar.update_target_visibility(5_000);
    // Half the fade time gone: visibility 0.5.
    assert_eq!(radar.detected_contacts[0].visibility, 500);

    radar.update_target_visibility(9_999);
    assert_eq!(radar.detected_contacts[0].visibility, 0);

    radar.update_target_visibility(12_000);
    // Past the fade but within the grace period: still tracked at zero.
    assert_eq!(radar.detected_contacts.len(), 1);
    assert_eq!(radar.detected_contacts[0].visibility, 0);

    radar.update_target_visibility(20_000);
    // Exactly twice the fade duration since the hit: gone.
    assert_eq!(radar.detected_contacts.len(), 0);
}

#[test]
fn refresh_twice_with_no_time_elapsed_is_identical() {
    let mut radar = field(1_000_000, 10_000);
    radar.record_detection(1, 1_000, 5_000, ObjectType::Ship, 0);
    radar.record_detection(2, 2_000, 6_000, ObjectType::Weather, 500);
    radar.update_target_visibility(4_000);
    let first: Vec<Contact> = radar.detected_contacts.clone();
    radar.update_target_visibility(4_000);
    assert_eq!(radar.detected_contacts, first);
}

#[test]
fn detection_refreshes_existing_contact_in_place() {
    let mut radar = field(1_000_000, 10_000);
    radar.record_detection(5, 1_000, 5_000, ObjectType::Unknown, 0);
    radar.update_target_visibility(4_000);
    assert_eq!(radar.detected_contacts[0].visibility, 600);

    radar.record_detection(5, 7_000, 9_000, ObjectType::Unknown, 4_000);
    assert_eq!(radar.detected_contacts.len(), 1);
    let c = &radar.detected_contacts[0];
    assert_eq!(c.angle, 7_000);
    assert_eq!(c.distance, 9_000);
    assert_eq!(c.visibility, 1_000);
    assert_eq!(c.last_hit_time, 4_000);

    radar.record_detection(6, 0, 1_000, ObjectType::Generic, 4_000);
    assert_eq!(radar.detected_contacts.len(), 2);
}

#[test]
fn rehit_this_tick_stays_fully_visible() {
    // A contact hit in the same tick as a refresh reads 1.0: detection wins.
    let mut radar = field(1_000_000, 14_000);
    radar.world_objects.push(still_object(3, 0, 500_000));
    radar.update_sweep(66, 66);
    assert_eq!(radar.detected_contacts[0].visibility, 1_000);
    radar.sweep_angle = 0;
    radar.update_sweep(66, 10_066);
    // Re-hit on this pass: visibility reset, snapshot time updated.
    assert_eq!(radar.detected_contacts[0].visibility, 1_000);
    assert_eq!(radar.detected_contacts[0].last_hit_time, 10_066);
}

#[test]
fn visible_contacts_drops_faded_ones() {
    let mut radar = field(1_000_000, 10_000);
    radar.record_detection(1, 0, 5_000, ObjectType::Ship, 0);
    radar.record_detection(2, 0, 6_000, ObjectType::AirCraft, 8_000);
    radar.update_target_visibility(12_000);
    // id 1 is 12 s old (faded to zero, still tracked); id 2 is 4 s old.
    assert_eq!(radar.detected_contacts.len(), 2);
    let shown = radar.visible_contacts();
    assert_eq!(shown.len(), 1);
    assert_eq!(shown[0].id, 2);
    assert_eq!(shown[0].visibility, 600);
}

#[test]
fn spawned_ship_lands_in_its_documented_band() {
    let mut radar = field(1_000_000, 14_000);
    radar.spawn_ship(11);
    assert_eq!(radar.world_objects.len(), 1);
    let o = &radar.world_objects[0];
    assert_eq!(o.id, 11);
    assert_eq!(o.object_type, ObjectType::Ship);
    assert!((0..360_000).contains(&o.angle));
    assert!((20_000..80_000).contains(&o.distance));
    assert!((-2_000..2_000).contains(&o.velocity.0));
    assert!((-1_000..1_000).contains(&o.velocity.1));
}

#[test]
fn spawned_aircraft_starts_at_the_rim() {
    let mut radar = field(1_000_000, 14_000);
    radar.spawn_aircraft(12);
    let o = &radar.world_objects[0];
    assert_eq!(o.id, 12);
    assert_eq!(o.object_type, ObjectType::AirCraft);
    assert_eq!(o.distance, 900_000);
    assert!((0..360_000).contains(&o.angle));
    assert!((-1_500..=1_500).contains(&o.velocity.0));
    assert!((-2_000..2_000).contains(&o.velocity.1));
}

#[test]
fn each_spawn_kind_stays_inside_the_field() {
    let mut radar = field(1_000_000, 14_000);
    radar.spawn_unknown(1);
    radar.spawn_hostile(2);
    radar.spawn_generic(3);
    radar.spawn_weather(4);
    radar.spawn_random_object(5);
    assert_eq!(radar.world_objects.len(), 5);
    for o in &radar.world_objects {
        assert!(o.distance > 0 && o.distance <= 1_000_000);
        assert!((0..360_000).contains(&o.angle));
    }
    assert_eq!(radar.world_objects[0].object_type, ObjectType::Unknown);
    assert_eq!(radar.world_objects[1].object_type, ObjectType::Hostile);
    assert_eq!(radar.world_objects[2].object_type, ObjectType::Generic);
    assert_eq!(radar.world_objects[3].object_type, ObjectType::Weather);
    assert_eq!(radar.world_objects[4].id, 5);
}

#[test]
fn symbols_and_colors_per_kind() {
    assert_eq!(ObjectType::AirCraft.symbol(), '^');
    assert_eq!(ObjectType::Ship.symbol(), '\u{25a2}');
    assert_eq!(ObjectType::Unknown.symbol(), '?');
    assert_eq!(ObjectType::Hostile.symbol(), 'X');
    assert_eq!(ObjectType::Generic.symbol(), '+');
    assert_eq!(ObjectType::Weather.symbol(), '*');

    assert_eq!(ObjectType::AirCraft.color(), DisplayColor::Cyan);
    assert_eq!(ObjectType::Ship.color(), DisplayColor::Green);
    assert_eq!(ObjectType::Unknown.color(), DisplayColor::Yellow);
    assert_eq!(ObjectType::Hostile.color(), DisplayColor::Red);
    assert_eq!(ObjectType::Generic.color(), DisplayColor::White);
    assert_eq!(ObjectType::Weather.color(), DisplayColor::Magenta);
}
