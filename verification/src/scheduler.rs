//! The decision core of the real-time loop: the messages the loop consumes,
//! the model they drive, and the fixed-cadence boundaries that gate ticks
//! and frames.
//!
//! The loop itself — reading keys, sleeping, painting — lives outside; it
//! feeds events and clock readings in and performs what these decisions
//! call for.

use vstd::prelude::*;

use crate::radar::{
    ObjectType, RadarWidget, move_objects, record_hits, refresh_contacts,
};
use crate::units::{MAX_CLOCK_MS, MAX_STEP_MS, SWEEP_MDEG_PER_SEC, vel_step, wrap_angle};

verus! {

/// A key press, reduced to what the core distinguishes.
#[derive(Clone, Copy, Debug, PartialEq, Eq, Structural)]
pub enum Key {
    Esc,
    Char(char),
    Other,
}

/// A message the main loop consumes.
#[derive(Clone, Copy, Debug, PartialEq, Eq, Structural)]
pub enum Message {
    Quit,
    Tick,
    Render,
    KeyPress(Key),
}

/// What the loop should do after handling a message.
#[derive(Clone, Copy, Debug, PartialEq, Eq, Structural)]
pub enum UpdateCommand {
    Continue,
    Quit,
}

/// Whether a message asks the loop to exit: Escape or the letter q.
pub open spec fn quit_requested(message: Message) -> bool {
    match message {
        Message::KeyPress(k) => k == Key::Esc || k == Key::Char('q'),
        _ => false,
    }
}

/// Interval in simulated milliseconds between ambient traffic spawns.
pub const SPAWN_INTERVAL_MS: i64 = 5_000;

/// The kind of ambient traffic spawned for a given id: four in ten are
/// aircraft, two ships, and one each of the remaining kinds.
pub open spec fn ambient_kind(id: u32) -> ObjectType {
    let k = id % 10;
    if k <= 3 {
        ObjectType::AirCraft
    } else if k <= 5 {
        ObjectType::Ship
    } else if k == 6 {
        ObjectType::Unknown
    } else if k == 7 {
        ObjectType::Hostile
    } else if k == 8 {
        ObjectType::Generic
    } else {
        ObjectType::Weather
    }
}

/// The simulation state the loop owns exclusively.
pub struct Model {
    pub radar: RadarWidget,
    /// When ambient traffic last spawned, in milliseconds.
    pub last_spawn_time: i64,
    /// Displayed sweep rate, in thousandths of a rotation per minute.
    pub sweep_rate: i64,
    /// Next object id to hand out; ids only grow.
    pub next_id: u32,
}

impl Model {
    /// What stays true of the model between loop iterations.  The field is
    /// wide enough for every ambient spawn kind.
    pub open spec fn wf(self) -> bool {
        &&& self.radar.wf()
        &&& self.radar.max_range >= 80_000
        &&& 0 <= self.last_spawn_time <= MAX_CLOCK_MS
    }

    /// The starting model: a thousand-unit field whose fade duration is
    /// derived from the sweep rate, seeded with eight objects of known ids,
    /// two of them aircraft and ships, one of each remaining kind.
    pub fn new(now: i64) -> (m: Model)
        requires
            0 <= now <= MAX_CLOCK_MS,
        ensures
            m.wf(),
            m.radar.max_range == 1_000_000,
            m.radar.fade_duration == 14_000,
            m.radar.sweep_angle == 0,
            m.radar.clock == 0,
            m.radar.detected_contacts@.len() == 0,
            m.radar.world_objects@.len() == 8,
            m.radar.world_objects@[0].id == 1 && m.radar.world_objects@[0].object_type
                == ObjectType::AirCraft,
            m.radar.world_objects@[1].id == 100 && m.radar.world_objects@[1].object_type
                == ObjectType::Ship,
            m.radar.world_objects@[2].id == 200 && m.radar.world_objects@[2].object_type
                == ObjectType::Unknown,
            m.radar.world_objects@[3].id == 300 && m.radar.world_objects@[3].object_type
                == ObjectType::Hostile,
            m.radar.world_objects@[4].id == 400 && m.radar.world_objects@[4].object_type
                == ObjectType::Generic,
            m.radar.world_objects@[5].id == 500 && m.radar.world_objects@[5].object_type
                == ObjectType::Weather,
            m.radar.world_objects@[6].id == 2 && m.radar.world_objects@[6].object_type
                == ObjectType::AirCraft,
            m.radar.world_objects@[7].id == 101 && m.radar.world_objects@[7].object_type
                == ObjectType::Ship,
            m.last_spawn_time == now,
            m.sweep_rate == SWEEP_MDEG_PER_SEC / 6,
            m.next_id == 1000,
    {
        let sweep_rate = SWEEP_MDEG_PER_SEC / 6;
        let fade_duration = sweep_rate * 7 / 4;
        let mut radar = RadarWidget::new(1_000_000, fade_duration);

        radar.spawn_aircraft(1);
        radar.spawn_ship(100);
        radar.spawn_unknown(200);
        radar.spawn_hostile(300);
        radar.spawn_generic(400);
        radar.spawn_weather(500);

        radar.spawn_aircraft(2);
        radar.spawn_ship(101);

        Model { radar, last_spawn_time: now, sweep_rate, next_id: 1000 }
    }

    /// Handle one message.  A quit key asks the loop to exit; a tick
    /// advances motion, sweep, and contact refresh by `tick_delta`
    /// milliseconds and, once every spawn interval of simulated time,
    /// spawns one ambient object with the next id; every other message
    /// leaves the model untouched.  Rendering is the loop's affair: the
    /// model treats it as a pure read.
    pub fn update(&mut self, message: &Message, now: i64, tick_delta: i64) -> (cmd: UpdateCommand)
        requires
            old(self).wf(),
            old(self).radar.clock <= now <= MAX_CLOCK_MS,
            old(self).last_spawn_time <= now,
            0 <= tick_delta <= MAX_STEP_MS,
            old(self).next_id < 0xFFFF_FFFFu32,
        ensures
            final(self).wf(),
            cmd == (if quit_requested(*message) {
                UpdateCommand::Quit
            } else {
                UpdateCommand::Continue
            }),
            !(message is Tick) ==> *final(self) == *old(self),
            message is Tick ==> ({
                let moved = move_objects(
                    old(self).radar.world_objects@,
                    tick_delta as int,
                    old(self).radar.max_range as int,
                );
                let new_sweep = wrap_angle(
                    old(self).radar.sweep_angle + vel_step(
                        SWEEP_MDEG_PER_SEC as int,
                        tick_delta as int,
                    ),
                );
                let due = now - old(self).last_spawn_time >= SPAWN_INTERVAL_MS;
                &&& final(self).radar.sweep_angle == new_sweep
                &&& final(self).radar.detected_contacts@ == record_hits(
                    refresh_contacts(
                        old(self).radar.detected_contacts@,
                        now as int,
                        old(self).radar.fade_duration as int,
                    ),
                    moved,
                    old(self).radar.sweep_angle as int,
                    new_sweep,
                    now as int,
                )
                &&& final(self).radar.clock == now
                &&& final(self).radar.max_range == old(self).radar.max_range
                &&& final(self).radar.fade_duration == old(self).radar.fade_duration
                &&& final(self).sweep_rate == old(self).sweep_rate
                &&& (due ==> {
                    &&& final(self).radar.world_objects@.len() == moved.len() + 1
                    &&& final(self).radar.world_objects@.drop_last() == moved
                    &&& final(self).radar.world_objects@.last().id == old(self).next_id
                    &&& final(self).radar.world_objects@.last().object_type == ambient_kind(
                        old(self).next_id,
                    )
                    &&& final(self).next_id == old(self).next_id + 1
                    &&& final(self).last_spawn_time == now
                })
                &&& (!due ==> {
                    &&& final(self).radar.world_objects@ == moved
                    &&& final(self).next_id == old(self).next_id
                    &&& final(self).last_spawn_time == old(self).last_spawn_time
                })
            }),
    {
        match message {
            Message::Quit => UpdateCommand::Continue,
            Message::KeyPress(key) => {
                match key {
                    Key::Esc => UpdateCommand::Quit,
                    Key::Char(c) => {
                        if *c == 'q' {
                            UpdateCommand::Quit
                        } else {
                            UpdateCommand::Continue
                        }
                    },
                    _ => UpdateCommand::Continue,
                }
            },
            Message::Tick => {
                self.radar.update_world_objects(tick_delta);
                self.radar.update_sweep(tick_delta, now);

                if now - self.last_spawn_time >= SPAWN_INTERVAL_MS {
                    let id = self.next_id;
                    self.next_id = self.next_id + 1;

                    proof {
                        let m = self.radar.max_range as int;
                        assert(m * 8 / 10 > 30_000 && m * 7 / 10 > 40_000 && m * 9 / 10 > 15_000
                            && m * 6 / 10 > 10_000) by (nonlinear_arith)
                            requires
                                m >= 80_000,
                        ;
                    }
                    let k = id % 10;
                    if k <= 3 {
                        self.radar.spawn_aircraft(id);
                    } else if k <= 5 {
                        self.radar.spawn_ship(id);
                    } else if k == 6 {
                        self.radar.spawn_unknown(id);
                    } else if k == 7 {
                        self.radar.spawn_hostile(id);
                    } else if k == 8 {
                        self.radar.spawn_generic(id);
                    } else {
                        self.radar.spawn_weather(id);
                    }

                    self.last_spawn_time = now;
                }
                UpdateCommand::Continue
            },
            Message::Render => UpdateCommand::Continue,
        }
    }
}

/// One wall-clock cadence of the loop: a boundary that advances by exact
/// intervals, never by resampling the clock, so missed boundaries are
/// caught up one fixed step at a time and no drift accumulates.
pub struct Cadence {
    pub last: i64,
    pub interval: i64,
}

impl Cadence {
    /// A boundary stays within the clock range and its interval is positive.
    pub open spec fn wf(self) -> bool {
        &&& 0 < self.interval <= MAX_CLOCK_MS
        &&& 0 <= self.last <= MAX_CLOCK_MS
    }

    /// A cadence whose first boundary falls one interval after `start`.
    pub fn new(start: i64, interval: i64) -> (c: Cadence)
        requires
            0 <= start <= MAX_CLOCK_MS,
            0 < interval <= MAX_CLOCK_MS,
        ensures
            c.wf(),
            c.last == start,
            c.interval == interval,
    {
        Cadence { last: start, interval }
    }

    /// Whether the clock has reached the next boundary.
    pub fn due(&self, now: i64) -> (b: bool)
        requires
            self.wf(),
        ensures
            b == (now >= self.last + self.interval),
    {
        now >= self.last + self.interval
    }

    /// Move to the next boundary: exactly one interval on, regardless of
    /// where the clock stands.
    pub fn advance(&mut self)
        requires
            old(self).wf(),
            old(self).last + old(self).interval <= MAX_CLOCK_MS,
        ensures
            final(self).wf(),
            final(self).last == old(self).last + old(self).interval,
            final(self).interval == old(self).interval,
    {
        self.last = self.last + self.interval;
    }

    /// When the next boundary falls.
    pub fn next_deadline(&self) -> (t: i64)
        requires
            self.wf(),
        ensures
            t == self.last + self.interval,
    {
        self.last + self.interval
    }
}

/// The earlier of two deadlines.
pub fn earlier(a: i64, b: i64) -> (m: i64)
    ensures
        m == (if a <= b {
            a
        } else {
            b
        }),
{
    if a <= b {
        a
    } else {
        b
    }
}

/// How long to sleep from `now` until `deadline`: zero if it has passed.
pub fn sleep_time(deadline: i64, now: i64) -> (d: i64)
    requires
        0 <= now <= 2 * MAX_CLOCK_MS,
        0 <= deadline <= 2 * MAX_CLOCK_MS,
    ensures
        d == (if deadline > now {
            deadline - now
        } else {
            0
        }),
{
    if deadline > now {
        deadline - now
    } else {
        0
    }
}

} // verus!
