use tui_radar_sim_core::radar::ObjectType;
use tui_radar_sim_core::scheduler::{Cadence, Key, Message, Model, UpdateCommand, earlier, sleep_time};

#[test]
fn model_starts_with_eight_seeded_objects() {
    let m = Model::new(0);
    assert_eq!(m.radar.max_range, 1_000_000);
    assert_eq!(m.radar.fade_duration, 14_000);
    assert_eq!(m.radar.sweep_angle, 0);
    assert_eq!(m.sweep_rate, 8_000);
    assert_eq!(m.next_id, 1000);
    assert_eq!(m.radar.detected_contacts.len(), 0);
    let ids: Vec<u32> = m.radar.world_objects.iter().map(|o| o.id).collect();
    assert_eq!(ids, vec![1, 100, 200, 300, 400, 500, 2, 101]);
    assert_eq!(m.radar.world_objects[0].object_type, ObjectType::AirCraft);
    assert_eq!(m.radar.world_objects[1].object_type, ObjectType::Ship);
    assert_eq!(m.radar.world_objects[2].object_type, ObjectType::Unknown);
    assert_eq!(m.radar.world_objects[3].object_type, ObjectType::Hostile);
    assert_eq!(m.radar.world_objects[4].object_type, ObjectType::Generic);
    assert_eq!(m.radar.world_objects[5].object_type, ObjectType::Weather);
    assert_eq!(m.radar.world_objects[6].object_type, ObjectType::AirCraft);
    assert_eq!(m.radar.world_objects[7].object_type, ObjectType::Ship);
}

#[test]
fn quit_keys_ask_the_loop_to_exit() {
    let mut m = Model::new(0);
    assert_eq!(m.update(&Message::KeyPress(Key::Esc), 10, 66), UpdateCommand::Quit);
    assert_eq!(m.update(&Message::KeyPress(Key::Char('q')), 10, 66), UpdateCommand::Quit);
    assert_eq!(m.update(&Message::KeyPress(Key::Char('x')), 10, 66), UpdateCommand::Continue);
    assert_eq!(m.update(&Message::KeyPress(Key::Other), 10, 66), UpdateCommand::Continue);
    assert_eq!(m.update(&Message::Quit, 10, 66), UpdateCommand::Continue);
    assert_eq!(m.update(&Message::Render, 10, 66), UpdateCommand::Continue);
    // None of those touched the simulation.
    assert_eq!(m.radar.sweep_angle, 0);
    assert_eq!(m.radar.world_objects.len(), 8);
    assert_eq!(m.next_id, 1000);
}

#[test]
fn tick_advances_sweep_and_spawns_on_schedule() {
    let mut m = Model::new(0);
    let cmd = m.update(&Message::Tick, 6_000, 66);
    assert_eq!(cmd, UpdateCommand::Continue);
    // The beam moved one step: 48 deg/s over 66 ms.
    assert_eq!(m.radar.sweep_angle, 3_168);
    // Five simulated seconds had passed, so one ambient object spawned;
    // id 1000 ends in 0, which the weighting maps to an aircraft.
    assert_eq!(m.radar.world_objects.len(), 9);
    let spawned = m.radar.world_objects.last().unwrap();
    assert_eq!(spawned.id, 1000);
    assert_eq!(spawned.object_type, ObjectType::AirCraft);
    assert_eq!(m.next_id, 1001);
    assert_eq!(m.last_spawn_time, 6_000);

    // The next tick comes before the spawn interval has passed again.
    m.update(&Message::Tick, 6_100, 66);
    assert_eq!(m.radar.world_objects.len(), 9);
    assert_eq!(m.next_id, 1001);
    assert_eq!(m.last_spawn_time, 6_000);
}

#[test]
fn cadence_advances_by_exact_intervals() {
    let mut tick = Cadence::new(0, 100);
    assert!(!tick.due(99));
    assert!(tick.due(100));
    assert!(tick.due(250));
    tick.advance();
    assert_eq!(tick.last, 100);
    assert_eq!(tick.next_deadline(), 200);
    // Catch-up after a stall: two more fixed-size advances, no resampling.
    tick.advance();
    tick.advance();
    assert_eq!(tick.last, 300);
}

#[test]
fn sleep_until_the_earlier_deadline() {
    assert_eq!(earlier(200, 300), 200);
    assert_eq!(earlier(300, 200), 200);
    assert_eq!(sleep_time(200, 150), 50);
    assert_eq!(sleep_time(200, 200), 0);
    assert_eq!(sleep_time(200, 250), 0);
}
