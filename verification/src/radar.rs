//! The radar simulation engine: a rotating sweep beam over a polar field of
//! moving objects, and the contacts the beam leaves behind.
//!
//! Angles are millidegrees in `[0, FULL_TURN_MDEG)`, distances thousandths of
//! a range unit in `(0, max_range]`, times milliseconds, and visibility
//! thousandths in `[0, MILLI]`.

use vstd::prelude::*;

use crate::rng::random_in_range;
use crate::units::{
    BEAM_WIDTH_MDEG, FULL_TURN_MDEG, MAX_CLOCK_MS, MAX_FADE_MS, MAX_RANGE_LIMIT, MAX_STEP_MS,
    MAX_VELOCITY, MILLI, SWEEP_MDEG_PER_SEC, div_trunc, div_trunc_exec,
    lemma_wrap_angle_range, vel_step, vel_step_exec, wrap_angle,
};

verus! {

/// Kind of a simulated world object; fixed display glyph and color per kind.
#[derive(Clone, Copy, Debug, PartialEq, Eq, Structural)]
pub enum ObjectType {
    AirCraft,
    Ship,
    Unknown,
    Hostile,
    Generic,
    Weather,
}

/// Display color of a contact glyph, named after the terminal palette entry
/// the renderer maps it to.
#[derive(Clone, Copy, Debug, PartialEq, Eq, Structural)]
pub enum DisplayColor {
    Cyan,
    Green,
    Yellow,
    Red,
    White,
    Magenta,
}

impl ObjectType {
    /// Glyph drawn for a contact of this kind.
    pub fn symbol(&self) -> (c: char)
        ensures
            c == self.symbol_spec(),
    {
        match self {
            ObjectType::AirCraft => '^',
            ObjectType::Ship => '\u{25a2}',
            ObjectType::Unknown => '?',
            ObjectType::Hostile => 'X',
            ObjectType::Generic => '+',
            ObjectType::Weather => '*',
        }
    }

    /// The glyph of each kind.
    pub open spec fn symbol_spec(self) -> char {
        match self {
            ObjectType::AirCraft => '^',
            ObjectType::Ship => '\u{25a2}',
            ObjectType::Unknown => '?',
            ObjectType::Hostile => 'X',
            ObjectType::Generic => '+',
            ObjectType::Weather => '*',
        }
    }

    /// Base color drawn for a contact of this kind.
    pub fn color(&self) -> (c: DisplayColor)
        ensures
            c == self.color_spec(),
    {
        match self {
            ObjectType::AirCraft => DisplayColor::Cyan,
            ObjectType::Ship => DisplayColor::Green,
            ObjectType::Unknown => DisplayColor::Yellow,
            ObjectType::Hostile => DisplayColor::Red,
            ObjectType::Generic => DisplayColor::White,
            ObjectType::Weather => DisplayColor::Magenta,
        }
    }

    /// The color of each kind.
    pub open spec fn color_spec(self) -> DisplayColor {
        match self {
            ObjectType::AirCraft => DisplayColor::Cyan,
            ObjectType::Ship => DisplayColor::Green,
            ObjectType::Unknown => DisplayColor::Yellow,
            ObjectType::Hostile => DisplayColor::Red,
            ObjectType::Generic => DisplayColor::White,
            ObjectType::Weather => DisplayColor::Magenta,
        }
    }
}

/// The sweep's memory of a detection: a position snapshot taken when the
/// beam last crossed the object, and a visibility that fades from there.
#[derive(Clone, Copy, Debug, PartialEq, Eq, Structural)]
pub struct Contact {
    pub id: u32,
    pub angle: i64,
    pub distance: i64,
    pub last_hit_time: i64,
    pub visibility: i64,
    pub object_type: ObjectType,
}

/// A simulated entity moving through the polar field, detected or not.
#[derive(Clone, Copy, Debug)]
pub struct WorldObjects {
    pub id: u32,
    pub angle: i64,
    pub distance: i64,
    pub object_type: ObjectType,
    /// Angular rate in millidegrees per second, radial rate in thousandths
    /// of a unit per second.
    pub velocity: (i64, i64),
}

/// A live object: angle in range, distance within the field, velocity
/// within the step bound.
pub open spec fn obj_wf(o: WorldObjects, max_range: int) -> bool {
    &&& 0 <= o.angle < FULL_TURN_MDEG
    &&& 0 < o.distance <= max_range
    &&& -MAX_VELOCITY <= o.velocity.0 <= MAX_VELOCITY
    &&& -MAX_VELOCITY <= o.velocity.1 <= MAX_VELOCITY
}

/// A tracked contact: position within the field, hit no later than the
/// clock, visibility within scale.
pub open spec fn contact_wf(c: Contact, max_range: int, clock: int) -> bool {
    &&& 0 <= c.angle < FULL_TURN_MDEG
    &&& 0 < c.distance <= max_range
    &&& 0 <= c.last_hit_time <= clock
    &&& 0 <= c.visibility <= MILLI
}

/// At most one contact per object id.
pub open spec fn unique_ids(s: Seq<Contact>) -> bool {
    forall|i: int, j: int| 0 <= i < j < s.len() ==> s[i].id != s[j].id
}

/// Whether the beam, travelling from `old_angle` to `new_angle` in one step,
/// registered a hit on an object sitting at `target_angle`.
///
/// Only objects within the beam width of the step's starting edge register:
/// the rule approximates a beam of fixed angular width rather than lighting
/// the whole travelled arc.  When the step wrapped through zero the distance
/// from the starting edge is measured across the wrap.
pub open spec fn sweep_crossed(old_angle: int, new_angle: int, target_angle: int) -> bool {
    if new_angle < old_angle {
        &&& (target_angle >= old_angle || target_angle <= new_angle)
        &&& (if target_angle >= old_angle {
            new_angle + (FULL_TURN_MDEG - old_angle)
        } else {
            new_angle
        }) <= BEAM_WIDTH_MDEG
    } else {
        &&& old_angle <= target_angle <= new_angle
        &&& target_angle - old_angle <= BEAM_WIDTH_MDEG
    }
}

/// An object sitting exactly on the step's starting edge always registers,
/// as long as the step did not carry the edge more than a beam width past
/// the wrap.
pub proof fn lemma_crossed_at_leading_edge(old_angle: int, new_angle: int)
    requires
        new_angle >= old_angle || new_angle + (FULL_TURN_MDEG - old_angle) <= BEAM_WIDTH_MDEG,
        0 <= old_angle,
    ensures
        sweep_crossed(old_angle, new_angle, old_angle),
{
}

/// An object strictly more than a beam width ahead of the starting edge,
/// ahead without wrapping through zero, never registers.  (An object past
/// the wrap is measured against the step's end alone, so a far object just
/// past zero can still register; the restriction to the unwrapped side is
/// what the crossing rule itself prescribes.)
pub proof fn lemma_not_crossed_beyond_beam(old_angle: int, new_angle: int, target_angle: int)
    requires
        0 <= old_angle <= target_angle < FULL_TURN_MDEG,
        0 <= new_angle < FULL_TURN_MDEG,
        target_angle - old_angle > BEAM_WIDTH_MDEG,
    ensures
        !sweep_crossed(old_angle, new_angle, target_angle),
{
}

impl Contact {
    /// The contact a detection of `o` at time `now` records.
    pub open spec fn from_hit(o: WorldObjects, now: int) -> Contact {
        Contact {
            id: o.id,
            angle: o.angle,
            distance: o.distance,
            last_hit_time: now as i64,
            visibility: MILLI,
            object_type: o.object_type,
        }
    }
}

/// Visibility, in thousandths, of a contact last hit `elapsed` milliseconds
/// ago under fade duration `fade`: the fraction of the fade time still left,
/// and zero from `fade` onward.
pub open spec fn visibility_of(elapsed: int, fade: int) -> int {
    if elapsed < fade {
        (fade - elapsed) * MILLI / fade
    } else {
        0
    }
}

/// Visibility stays within scale for any elapsed time that is not negative.
pub proof fn lemma_visibility_range(elapsed: int, fade: int)
    requires
        0 < fade,
        0 <= elapsed,
    ensures
        0 <= visibility_of(elapsed, fade) <= MILLI,
{
    if elapsed < fade {
        assert(0 < (fade - elapsed) * MILLI <= fade * MILLI) by (nonlinear_arith)
            requires
                0 < fade - elapsed <= fade,
        ;
        assert((fade - elapsed) * MILLI / fade >= 0) by (nonlinear_arith)
            requires
                (fade - elapsed) * MILLI > 0,
                fade > 0,
        ;
        assert(fade * MILLI / fade == MILLI) by (nonlinear_arith)
            requires
                fade > 0,
        ;
        vstd::arithmetic::div_mod::lemma_div_is_ordered(
            (fade - elapsed) * MILLI,
            fade * MILLI,
            fade,
        );
    }
}

/// A contact is fully visible exactly at the moment of a detection.
pub proof fn lemma_visibility_full_at_detection(fade: int)
    requires
        0 < fade,
    ensures
        visibility_of(0, fade) == MILLI,
{
    assert(fade * MILLI / fade == MILLI) by (nonlinear_arith)
        requires
            fade > 0,
    ;
}

/// Visibility fades with time since the last detection: the exact remaining
/// fraction, whose numerator over the common denominator `fade` is
/// `(fade - elapsed) * MILLI`, strictly decreases until it reaches zero at
/// `elapsed == fade`; the scaled reading never rises, and is zero from
/// `fade` onward.
pub proof fn lemma_visibility_decreases(e1: int, e2: int, fade: int)
    requires
        0 < fade,
        0 <= e1 < e2,
    ensures
        visibility_of(e2, fade) <= visibility_of(e1, fade),
        e2 <= fade ==> (fade - e2) * MILLI < (fade - e1) * MILLI,
        e2 >= fade ==> visibility_of(e2, fade) == 0,
{
    lemma_visibility_range(e1, fade);
    lemma_visibility_range(e2, fade);
    if e2 <= fade {
        assert((fade - e2) * MILLI < (fade - e1) * MILLI) by (nonlinear_arith)
            requires
                fade - e2 < fade - e1,
        ;
    }
    if e2 < fade {
        assert((fade - e2) * MILLI <= (fade - e1) * MILLI) by (nonlinear_arith)
            requires
                fade - e2 <= fade - e1,
        ;
        vstd::arithmetic::div_mod::lemma_div_is_ordered(
            (fade - e2) * MILLI,
            (fade - e1) * MILLI,
            fade,
        );
    }
}

/// The whole sweep state: beam angle, tracked contacts, live objects, and
/// the configuration they are measured against.  `clock` is the latest
/// time, in milliseconds, the simulation has been advanced to; detections
/// are never recorded in its past.
pub struct RadarWidget {
    pub sweep_angle: i64,
    pub detected_contacts: Vec<Contact>,
    pub world_objects: Vec<WorldObjects>,
    pub max_range: i64,
    pub fade_duration: i64,
    pub clock: i64,
}

/// One motion step: both position components advanced by their velocity
/// over `dt` milliseconds, the angle wrapped back into range.
pub open spec fn step_object(o: WorldObjects, dt: int) -> WorldObjects {
    WorldObjects {
        id: o.id,
        angle: wrap_angle(o.angle + vel_step(o.velocity.0 as int, dt)) as i64,
        distance: (o.distance + vel_step(o.velocity.1 as int, dt)) as i64,
        object_type: o.object_type,
        velocity: o.velocity,
    }
}

/// Whether a distance keeps an object in the field.
pub open spec fn in_range(distance: int, max_range: int) -> bool {
    0 < distance <= max_range
}

/// The live set after one motion step: every object advanced by `dt`, and
/// exactly those whose new distance left `(0, max_range]` removed.
pub open spec fn move_objects(s: Seq<WorldObjects>, dt: int, max_range: int) -> Seq<WorldObjects>
    decreases s.len(),
{
    if s.len() == 0 {
        Seq::empty()
    } else {
        let rest = move_objects(s.drop_last(), dt, max_range);
        let o = step_object(s.last(), dt);
        if in_range(o.distance as int, max_range) {
            rest.push(o)
        } else {
            rest
        }
    }
}

impl RadarWidget {
    /// Everything the simulation keeps true of its state between steps.
    pub open spec fn wf(self) -> bool {
        &&& 0 < self.max_range <= MAX_RANGE_LIMIT
        &&& 0 < self.fade_duration <= MAX_FADE_MS
        &&& 0 <= self.sweep_angle < FULL_TURN_MDEG
        &&& 0 <= self.clock <= MAX_CLOCK_MS
        &&& forall|i: int|
            0 <= i < self.world_objects@.len() ==> obj_wf(
                #[trigger] self.world_objects@[i],
                self.max_range as int,
            )
        &&& forall|i: int|
            0 <= i < self.detected_contacts@.len() ==> contact_wf(
                #[trigger] self.detected_contacts@[i],
                self.max_range as int,
                self.clock as int,
            )
        &&& unique_ids(self.detected_contacts@)
    }

    /// A fresh radar: beam at zero, nothing tracked, nothing live.
    pub fn new(max_range: i64, fade_duration: i64) -> (r: RadarWidget)
        requires
            0 < max_range <= MAX_RANGE_LIMIT,
            0 < fade_duration <= MAX_FADE_MS,
        ensures
            r.wf(),
            r.sweep_angle == 0,
            r.detected_contacts@ == Seq::<Contact>::empty(),
            r.world_objects@ == Seq::<WorldObjects>::empty(),
            r.max_range == max_range,
            r.fade_duration == fade_duration,
            r.clock == 0,
    {
        let r = RadarWidget {
            sweep_angle: 0,
            detected_contacts: Vec::new(),
            world_objects: Vec::new(),
            max_range,
            fade_duration,
            clock: 0,
        };
        proof {
            assert(r.detected_contacts@ =~= Seq::<Contact>::empty());
            assert(r.world_objects@ =~= Seq::<WorldObjects>::empty());
        }
        r
    }

    /// The crossing rule, on this radar's beam.
    pub fn sweep_crossed_target(&self, old_angle: i64, new_angle: i64, target_angle: i64) -> (r:
        bool)
        requires
            0 <= old_angle < FULL_TURN_MDEG,
            0 <= new_angle < FULL_TURN_MDEG,
            0 <= target_angle < FULL_TURN_MDEG,
        ensures
            r == sweep_crossed(old_angle as int, new_angle as int, target_angle as int),
    {
        let sweep_width = BEAM_WIDTH_MDEG;
        if new_angle < old_angle {
            if target_angle >= old_angle || target_angle <= new_angle {
                let angle_diff = if target_angle >= old_angle {
                    new_angle + (FULL_TURN_MDEG - old_angle)
                } else {
                    new_angle
                };
                return angle_diff <= sweep_width;
            }
        } else {
            if target_angle >= old_angle && target_angle <= new_angle {
                return (target_angle - old_angle) <= sweep_width;
            }
        }
        false
    }

    /// Advance every live object by `delta_time` milliseconds and remove
    /// those that left the field.
    pub fn update_world_objects(&mut self, delta_time: i64)
        requires
            old(self).wf(),
            0 <= delta_time <= MAX_STEP_MS,
        ensures
            final(self).wf(),
            final(self).world_objects@ == move_objects(
                old(self).world_objects@,
                delta_time as int,
                old(self).max_range as int,
            ),
            final(self).sweep_angle == old(self).sweep_angle,
            final(self).detected_contacts@ == old(self).detected_contacts@,
            final(self).max_range == old(self).max_range,
            final(self).fade_duration == old(self).fade_duration,
            final(self).clock == old(self).clock,
    {
        let ghost orig = self.world_objects@;
        let ghost dt = delta_time as int;
        let ghost max = self.max_range as int;
        let mut kept: Vec<WorldObjects> = Vec::new();
        let n = self.world_objects.len();
        proof {
            assert(orig.take(0) =~= Seq::<WorldObjects>::empty());
        }
        let mut i: usize = 0;
        while i < n
            invariant
                0 <= i <= n,
                n == orig.len(),
                orig == old(self).world_objects@,
                self.detected_contacts@ == old(self).detected_contacts@,
                self.sweep_angle == old(self).sweep_angle,
                self.max_range == old(self).max_range,
                self.fade_duration == old(self).fade_duration,
                self.clock == old(self).clock,
                self.world_objects@ == orig,
                self.wf(),
                dt == delta_time as int,
                0 <= delta_time <= MAX_STEP_MS,
                max == self.max_range as int,
                kept@ == move_objects(orig.take(i as int), dt, max),
                forall|j: int| 0 <= j < kept@.len() ==> obj_wf(#[trigger] kept@[j], max),
            decreases n - i,
        {
            let o = self.world_objects[i];
            let angle_step = vel_step_exec(o.velocity.0, delta_time);
            let radial_step = vel_step_exec(o.velocity.1, delta_time);
            let mut angle = o.angle + angle_step;
            if angle >= FULL_TURN_MDEG {
                angle = angle - FULL_TURN_MDEG;
            } else if angle < 0 {
                angle = angle + FULL_TURN_MDEG;
            }
            let distance = o.distance + radial_step;
            let stepped = WorldObjects {
                id: o.id,
                angle,
                distance,
                object_type: o.object_type,
                velocity: o.velocity,
            };
            proof {
                lemma_wrap_angle_range(o.angle + vel_step(o.velocity.0 as int, dt));
                assert(stepped == step_object(orig[i as int], dt));
                assert(orig.take(i + 1).drop_last() =~= orig.take(i as int));
                assert(orig.take(i + 1).last() == orig[i as int]);
            }
            if stepped.distance > 0 && stepped.distance <= self.max_range {
                kept.push(stepped);
            }
            i = i + 1;
        }
        self.world_objects = kept;
        proof {
            assert(orig.take(n as int) =~= orig);
        }
    }
}

/// The beam angle reached from `initial` after `n` sweep steps of
/// `rate_step` millidegrees each, each step wrapped as the sweep wraps.
pub open spec fn sweep_after(initial: int, rate_step: int, n: nat) -> int
    decreases n,
{
    if n == 0 {
        initial
    } else {
        wrap_angle(sweep_after(initial, rate_step, (n - 1) as nat) + rate_step)
    }
}

/// Law: after `n` equal steps the beam sits at `(initial + n * rate_step)`
/// modulo a full turn, and always within `[0, FULL_TURN_MDEG)`.
pub proof fn lemma_sweep_angle_after_steps(initial: int, rate_step: int, n: nat)
    requires
        0 <= initial < FULL_TURN_MDEG,
        0 <= rate_step < FULL_TURN_MDEG,
    ensures
        0 <= sweep_after(initial, rate_step, n) < FULL_TURN_MDEG,
        sweep_after(initial, rate_step, n) == (initial + n * rate_step) % (FULL_TURN_MDEG as int),
    decreases n,
{
    let f = FULL_TURN_MDEG as int;
    if n == 0 {
        vstd::arithmetic::div_mod::lemma_small_mod(initial as nat, f as nat);
        assert(n * rate_step == 0);
    } else {
        let m = (n - 1) as nat;
        lemma_sweep_angle_after_steps(initial, rate_step, m);
        let prev = sweep_after(initial, rate_step, m);
        crate::units::lemma_wrap_angle_is_mod(prev + rate_step);
        lemma_wrap_angle_range(prev + rate_step);
        vstd::arithmetic::div_mod::lemma_add_mod_noop(initial + m * rate_step, rate_step, f);
        vstd::arithmetic::div_mod::lemma_small_mod(rate_step as nat, f as nat);
        assert(m * rate_step + rate_step == n * rate_step) by (nonlinear_arith)
            requires
                m == n - 1,
        ;
        assert(sweep_after(initial, rate_step, n) == wrap_angle(prev + rate_step));
    }
}

/// Whether a contact last hit at `c.last_hit_time` is still tracked at
/// `now`: it is dropped once twice the fade duration has elapsed.
pub open spec fn keep_contact(c: Contact, now: int, fade: int) -> bool {
    now - c.last_hit_time < 2 * fade
}

/// The contact with its visibility recomputed for time `now`.
pub open spec fn decay_contact(c: Contact, now: int, fade: int) -> Contact {
    Contact {
        id: c.id,
        angle: c.angle,
        distance: c.distance,
        last_hit_time: c.last_hit_time,
        visibility: visibility_of(now - c.last_hit_time, fade) as i64,
        object_type: c.object_type,
    }
}

/// One refresh pass over the tracked set: contacts older than twice the
/// fade duration dropped, every other visibility recomputed from the time
/// since its last detection.
pub open spec fn refresh_contacts(s: Seq<Contact>, now: int, fade: int) -> Seq<Contact>
    decreases s.len(),
{
    if s.len() == 0 {
        Seq::empty()
    } else {
        let rest = refresh_contacts(s.drop_last(), now, fade);
        let c = s.last();
        if keep_contact(c, now, fade) {
            rest.push(decay_contact(c, now, fade))
        } else {
            rest
        }
    }
}

/// The tracked set after recording one detection `c`: the contact with the
/// same id overwritten if one exists, `c` appended otherwise.
pub open spec fn record_contact(s: Seq<Contact>, c: Contact) -> Seq<Contact> {
    if exists|i: int| 0 <= i < s.len() && s[i].id == c.id {
        s.update(choose|i: int| 0 <= i < s.len() && s[i].id == c.id, c)
    } else {
        s.push(c)
    }
}

/// The tracked set after one sweep step over `objs`: a detection recorded,
/// in order, for every object the beam crossed.
pub open spec fn record_hits(
    contacts: Seq<Contact>,
    objs: Seq<WorldObjects>,
    old_angle: int,
    new_angle: int,
    now: int,
) -> Seq<Contact>
    decreases objs.len(),
{
    if objs.len() == 0 {
        contacts
    } else {
        let prev = record_hits(contacts, objs.drop_last(), old_angle, new_angle, now);
        let o = objs.last();
        if sweep_crossed(old_angle, new_angle, o.angle as int) {
            record_contact(prev, Contact::from_hit(o, now as int))
        } else {
            prev
        }
    }
}

/// The contacts a render frame paints: those whose visibility has not yet
/// faded to zero, in tracking order.
pub open spec fn shown_contacts(s: Seq<Contact>) -> Seq<Contact>
    decreases s.len(),
{
    if s.len() == 0 {
        Seq::empty()
    } else {
        let rest = shown_contacts(s.drop_last());
        if s.last().visibility > 0 {
            rest.push(s.last())
        } else {
            rest
        }
    }
}

impl RadarWidget {
    /// Drop contacts not hit within twice the fade duration and recompute
    /// every remaining visibility from the time since its last detection.
    pub fn update_target_visibility(&mut self, now: i64)
        requires
            old(self).wf(),
            old(self).clock <= now <= MAX_CLOCK_MS,
        ensures
            final(self).wf(),
            final(self).detected_contacts@ == refresh_contacts(
                old(self).detected_contacts@,
                now as int,
                old(self).fade_duration as int,
            ),
            final(self).clock == now,
            final(self).sweep_angle == old(self).sweep_angle,
            final(self).world_objects@ == old(self).world_objects@,
            final(self).max_range == old(self).max_range,
            final(self).fade_duration == old(self).fade_duration,
    {
        let ghost orig = self.detected_contacts@;
        let ghost fade = self.fade_duration as int;
        self.clock = now;
        let mut kept: Vec<Contact> = Vec::new();
        let n = self.detected_contacts.len();
        proof {
            assert(orig.take(0) =~= Seq::<Contact>::empty());
        }
        let mut i: usize = 0;
        while i < n
            invariant
                0 <= i <= n,
                n == orig.len(),
                orig == old(self).detected_contacts@,
                self.detected_contacts@ == orig,
                self.sweep_angle == old(self).sweep_angle,
                self.world_objects@ == old(self).world_objects@,
                self.max_range == old(self).max_range,
                self.fade_duration == old(self).fade_duration,
                self.wf(),
                self.clock == now,
                old(self).clock <= now <= MAX_CLOCK_MS,
                fade == self.fade_duration as int,
                forall|k: int|
                    0 <= k < orig.len() ==> (#[trigger] orig[k]).last_hit_time <= old(self).clock,
                kept@ == refresh_contacts(orig.take(i as int), now as int, fade),
                forall|k: int|
                    0 <= k < kept@.len() ==> contact_wf(
                        #[trigger] kept@[k],
                        self.max_range as int,
                        now as int,
                    ),
            decreases n - i,
        {
            let c = self.detected_contacts[i];
            let elapsed = now - c.last_hit_time;
            proof {
                assert(orig.take(i + 1).drop_last() =~= orig.take(i as int));
                assert(orig.take(i + 1).last() == orig[i as int]);
                lemma_visibility_range(elapsed as int, fade);
            }
            if elapsed < 2 * self.fade_duration {
                let visibility = if elapsed < self.fade_duration {
                    ((self.fade_duration - elapsed) * MILLI) / self.fade_duration
                } else {
                    0
                };
                let refreshed = Contact {
                    id: c.id,
                    angle: c.angle,
                    distance: c.distance,
                    last_hit_time: c.last_hit_time,
                    visibility,
                    object_type: c.object_type,
                };
                proof {
                    assert(refreshed == decay_contact(orig[i as int], now as int, fade));
                }
                kept.push(refreshed);
            }
            i = i + 1;
        }
        proof {
            assert(orig.take(n as int) =~= orig);
            lemma_refresh_keeps_unique_ids(orig, now as int, fade);
        }
        self.detected_contacts = kept;
    }

    /// Record a detection: overwrite the position snapshot and reset the
    /// visibility of the contact with this id, or start tracking a new one.
    pub fn record_detection(
        &mut self,
        id: u32,
        angle: i64,
        distance: i64,
        object_type: ObjectType,
        now: i64,
    )
        requires
            old(self).wf(),
            0 <= angle < FULL_TURN_MDEG,
            0 < distance <= old(self).max_range,
            old(self).clock <= now <= MAX_CLOCK_MS,
        ensures
            final(self).wf(),
            final(self).detected_contacts@ == record_contact(
                old(self).detected_contacts@,
                Contact {
                    id,
                    angle,
                    distance,
                    last_hit_time: now,
                    visibility: MILLI,
                    object_type,
                },
            ),
            final(self).clock == now,
            final(self).sweep_angle == old(self).sweep_angle,
            final(self).world_objects@ == old(self).world_objects@,
            final(self).max_range == old(self).max_range,
            final(self).fade_duration == old(self).fade_duration,
    {
        let ghost orig = self.detected_contacts@;
        self.clock = now;
        let hit = Contact { id, angle, distance, last_hit_time: now, visibility: MILLI, object_type };
        let n = self.detected_contacts.len();
        let mut i: usize = 0;
        while i < n
            invariant
                0 <= i <= n,
                n == orig.len(),
                orig == old(self).detected_contacts@,
                self.wf(),
                self.detected_contacts@ == orig,
                self.clock == now,
                now <= MAX_CLOCK_MS,
                self.sweep_angle == old(self).sweep_angle,
                self.world_objects@ == old(self).world_objects@,
                self.max_range == old(self).max_range,
                self.fade_duration == old(self).fade_duration,
                hit == (Contact {
                    id,
                    angle,
                    distance,
                    last_hit_time: now,
                    visibility: MILLI,
                    object_type,
                }),
                contact_wf(hit, self.max_range as int, now as int),
                forall|k: int| 0 <= k < i ==> (#[trigger] orig[k]).id != id,
            decreases n - i,
        {
            if self.detected_contacts[i].id == id {
                self.detected_contacts.set(i, hit);
                proof {
                    assert(orig[i as int].id == id);
                    let w = choose|w: int| 0 <= w < orig.len() && orig[w].id == id;
                    assert(unique_ids(orig));
                    if w < i as int {
                        assert(orig[w].id != orig[i as int].id);
                    } else if w > i as int {
                        assert(orig[i as int].id != orig[w].id);
                    }
                    assert(w == i as int);
                    assert(self.detected_contacts@ =~= record_contact(orig, hit));
                    assert(unique_ids(self.detected_contacts@)) by {
                        assert(forall|a: int|
                            0 <= a < orig.len() ==> (#[trigger] self.detected_contacts@[a]).id
                                == orig[a].id);
                    }
                }
                return ;
            }
            i = i + 1;
        }
        self.detected_contacts.push(hit);
        proof {
            assert(forall|k: int| 0 <= k < orig.len() ==> (#[trigger] orig[k]).id != id);
            assert(self.detected_contacts@ =~= record_contact(orig, hit));
            assert(unique_ids(self.detected_contacts@)) by {
                assert(forall|a: int|
                    0 <= a < orig.len() ==> #[trigger] self.detected_contacts@[a] == orig[a]);
                assert(self.detected_contacts@[orig.len() as int] == hit);
            }
        }
    }

    /// Test every live object against the arc the beam travelled this step
    /// and record a detection for each one it crossed.
    pub fn check_sweep_hits(&mut self, old_angle: i64, now: i64)
        requires
            old(self).wf(),
            0 <= old_angle < FULL_TURN_MDEG,
            old(self).clock <= now <= MAX_CLOCK_MS,
        ensures
            final(self).wf(),
            final(self).detected_contacts@ == record_hits(
                old(self).detected_contacts@,
                old(self).world_objects@,
                old_angle as int,
                old(self).sweep_angle as int,
                now as int,
            ),
            final(self).clock == now,
            final(self).sweep_angle == old(self).sweep_angle,
            final(self).world_objects@ == old(self).world_objects@,
            final(self).max_range == old(self).max_range,
            final(self).fade_duration == old(self).fade_duration,
    {
        let ghost orig_contacts = self.detected_contacts@;
        let ghost objs = self.world_objects@;
        let ghost new_angle = self.sweep_angle as int;
        self.clock = now;
        let n = self.world_objects.len();
        proof {
            assert(objs.take(0) =~= Seq::<WorldObjects>::empty());
        }
        let mut i: usize = 0;
        while i < n
            invariant
                0 <= i <= n,
                n == objs.len(),
                objs == old(self).world_objects@,
                orig_contacts == old(self).detected_contacts@,
                self.wf(),
                self.world_objects@ == objs,
                self.clock == now,
                now <= MAX_CLOCK_MS,
                0 <= old_angle < FULL_TURN_MDEG,
                new_angle == self.sweep_angle as int,
                self.detected_contacts@ == record_hits(
                    orig_contacts,
                    objs.take(i as int),
                    old_angle as int,
                    new_angle,
                    now as int,
                ),
                self.max_range == old(self).max_range,
                self.fade_duration == old(self).fade_duration,
                self.sweep_angle == old(self).sweep_angle,
            decreases n - i,
        {
            let o = self.world_objects[i];
            proof {
                assert(obj_wf(objs[i as int], self.max_range as int));
                assert(objs.take(i + 1).drop_last() =~= objs.take(i as int));
                assert(objs.take(i + 1).last() == objs[i as int]);
            }
            if self.sweep_crossed_target(old_angle, self.sweep_angle, o.angle) {
                self.record_detection(o.id, o.angle, o.distance, o.object_type, now);
            }
            i = i + 1;
        }
        proof {
            assert(objs.take(n as int) =~= objs);
        }
    }

    /// One simulation step of the sweep: advance the beam at its fixed
    /// angular rate (wrapping at a full turn), refresh every contact's
    /// visibility, then record a detection for every object the travelled
    /// arc crossed — so a contact hit this step reads fully visible
    /// whatever the refresh did.
    pub fn update_sweep(&mut self, delta_time: i64, now: i64)
        requires
            old(self).wf(),
            0 <= delta_time <= MAX_STEP_MS,
            old(self).clock <= now <= MAX_CLOCK_MS,
        ensures
            final(self).wf(),
            final(self).sweep_angle == wrap_angle(
                old(self).sweep_angle + vel_step(SWEEP_MDEG_PER_SEC as int, delta_time as int),
            ),
            final(self).detected_contacts@ == record_hits(
                refresh_contacts(
                    old(self).detected_contacts@,
                    now as int,
                    old(self).fade_duration as int,
                ),
                old(self).world_objects@,
                old(self).sweep_angle as int,
                final(self).sweep_angle as int,
                now as int,
            ),
            final(self).clock == now,
            final(self).world_objects@ == old(self).world_objects@,
            final(self).max_range == old(self).max_range,
            final(self).fade_duration == old(self).fade_duration,
    {
        let old_angle = self.sweep_angle;
        let advance = vel_step_exec(SWEEP_MDEG_PER_SEC, delta_time);
        let mut next = self.sweep_angle + advance;
        if next >= FULL_TURN_MDEG {
            next = next - FULL_TURN_MDEG;
        }
        proof {
            lemma_wrap_angle_range(
                old(self).sweep_angle + vel_step(SWEEP_MDEG_PER_SEC as int, delta_time as int),
            );
        }
        self.sweep_angle = next;
        self.update_target_visibility(now);
        self.check_sweep_hits(old_angle, now);
    }

    /// The render snapshot: a copy of every contact still visible, in
    /// tracking order.  Reading it changes nothing.
    pub fn visible_contacts(&self) -> (v: Vec<Contact>)
        ensures
            v@ == shown_contacts(self.detected_contacts@),
    {
        let ghost orig = self.detected_contacts@;
        let mut shown: Vec<Contact> = Vec::new();
        let n = self.detected_contacts.len();
        proof {
            assert(orig.take(0) =~= Seq::<Contact>::empty());
        }
        let mut i: usize = 0;
        while i < n
            invariant
                0 <= i <= n,
                n == orig.len(),
                self.detected_contacts@ == orig,
                shown@ == shown_contacts(orig.take(i as int)),
            decreases n - i,
        {
            let c = self.detected_contacts[i];
            proof {
                assert(orig.take(i + 1).drop_last() =~= orig.take(i as int));
                assert(orig.take(i + 1).last() == orig[i as int]);
            }
            if c.visibility > 0 {
                shown.push(c);
            }
            i = i + 1;
        }
        proof {
            assert(orig.take(n as int) =~= orig);
        }
        shown
    }
}

impl RadarWidget {
    /// Add one live object, leaving everything else as it was.
    fn push_object(&mut self, o: WorldObjects)
        requires
            old(self).wf(),
            obj_wf(o, old(self).max_range as int),
        ensures
            final(self).wf(),
            final(self).world_objects@ == old(self).world_objects@.push(o),
            final(self).world_objects@.len() == old(self).world_objects@.len() + 1,
            final(self).world_objects@.drop_last() == old(self).world_objects@,
            final(self).world_objects@.last() == o,
            final(self).detected_contacts@ == old(self).detected_contacts@,
            final(self).sweep_angle == old(self).sweep_angle,
            final(self).max_range == old(self).max_range,
            final(self).fade_duration == old(self).fade_duration,
            final(self).clock == old(self).clock,
    {
        self.world_objects.push(o);
        proof {
            assert(self.world_objects@.drop_last() =~= old(self).world_objects@);
        }
    }

    /// Spawn an aircraft at the field's rim, headed for a random bearing:
    /// its angular rate is the normalized bearing difference spread over a
    /// two-minute transit.
    pub fn spawn_aircraft(&mut self, id: u32)
        requires
            old(self).wf(),
            old(self).max_range >= 2,
        ensures
            final(self).wf(),
            final(self).world_objects@.len() == old(self).world_objects@.len() + 1,
            final(self).world_objects@.drop_last() == old(self).world_objects@,
            ({
                let o = final(self).world_objects@.last();
                &&& o.id == id
                &&& o.object_type == ObjectType::AirCraft
                &&& 0 <= o.angle < FULL_TURN_MDEG
                &&& o.distance == old(self).max_range * 9 / 10
                &&& -1_500 <= o.velocity.0 <= 1_500
                &&& -2_000 <= o.velocity.1 < 2_000
            }),
            final(self).detected_contacts@ == old(self).detected_contacts@,
            final(self).sweep_angle == old(self).sweep_angle,
            final(self).max_range == old(self).max_range,
            final(self).fade_duration == old(self).fade_duration,
            final(self).clock == old(self).clock,
    {
        let start_angle = random_in_range(0, FULL_TURN_MDEG);
        let target_angle = random_in_range(0, FULL_TURN_MDEG);

        let mut angle_diff = target_angle - start_angle;
        if angle_diff > 180_000 {
            angle_diff = angle_diff - FULL_TURN_MDEG;
        }
        if angle_diff < -180_000 {
            angle_diff = angle_diff + FULL_TURN_MDEG;
        }

        let angular_velocity = div_trunc_exec(angle_diff, 120);
        proof {
            assert(-1_500 <= div_trunc(angle_diff as int, 120) <= 1_500) by (nonlinear_arith)
                requires
                    -180_000 <= angle_diff <= 180_000,
            ;
        }
        let radial_velocity = random_in_range(-2_000, 2_000);
        let distance = self.max_range * 9 / 10;
        proof {
            let m = self.max_range as int;
            assert(0 < m * 9 / 10 <= m) by (nonlinear_arith)
                requires
                    2 <= m,
            ;
        }
        self.push_object(
            WorldObjects {
                id,
                angle: start_angle,
                distance,
                object_type: ObjectType::AirCraft,
                velocity: (angular_velocity, radial_velocity),
            },
        );
    }

    /// Spawn a ship drifting in the inner field.
    pub fn spawn_ship(&mut self, id: u32)
        requires
            old(self).wf(),
            old(self).max_range >= 80_000,
        ensures
            final(self).wf(),
            final(self).world_objects@.len() == old(self).world_objects@.len() + 1,
            final(self).world_objects@.drop_last() == old(self).world_objects@,
            ({
                let o = final(self).world_objects@.last();
                &&& o.id == id
                &&& o.object_type == ObjectType::Ship
                &&& 0 <= o.angle < FULL_TURN_MDEG
                &&& 20_000 <= o.distance < 80_000
                &&& -2_000 <= o.velocity.0 < 2_000
                &&& -1_000 <= o.velocity.1 < 1_000
            }),
            final(self).detected_contacts@ == old(self).detected_contacts@,
            final(self).sweep_angle == old(self).sweep_angle,
            final(self).max_range == old(self).max_range,
            final(self).fade_duration == old(self).fade_duration,
            final(self).clock == old(self).clock,
    {
        self.push_object(
            WorldObjects {
                id,
                angle: random_in_range(0, FULL_TURN_MDEG),
                distance: random_in_range(20_000, 80_000),
                object_type: ObjectType::Ship,
                velocity: (random_in_range(-2_000, 2_000), random_in_range(-1_000, 1_000)),
            },
        );
    }

    /// Spawn an unidentified object anywhere in the middle field.
    pub fn spawn_unknown(&mut self, id: u32)
        requires
            old(self).wf(),
            old(self).max_range * 8 / 10 > 30_000,
        ensures
            final(self).wf(),
            final(self).world_objects@.len() == old(self).world_objects@.len() + 1,
            final(self).world_objects@.drop_last() == old(self).world_objects@,
            ({
                let o = final(self).world_objects@.last();
                &&& o.id == id
                &&& o.object_type == ObjectType::Unknown
                &&& 0 <= o.angle < FULL_TURN_MDEG
                &&& 30_000 <= o.distance < old(self).max_range * 8 / 10
                &&& -1_000 <= o.velocity.0 < 1_000
                &&& -2_000 <= o.velocity.1 < 2_000
            }),
            final(self).detected_contacts@ == old(self).detected_contacts@,
            final(self).sweep_angle == old(self).sweep_angle,
            final(self).max_range == old(self).max_range,
            final(self).fade_duration == old(self).fade_duration,
            final(self).clock == old(self).clock,
    {
        proof {
            let m = self.max_range as int;
            assert(m * 8 / 10 <= m) by (nonlinear_arith)
                requires
                    0 < m,
            ;
        }
        let upper = self.max_range * 8 / 10;
        self.push_object(
            WorldObjects {
                id,
                angle: random_in_range(0, FULL_TURN_MDEG),
                distance: random_in_range(30_000, upper),
                object_type: ObjectType::Unknown,
                velocity: (random_in_range(-1_000, 1_000), random_in_range(-2_000, 2_000)),
            },
        );
    }

    /// Spawn a hostile: faster and more aggressive movement than the rest.
    pub fn spawn_hostile(&mut self, id: u32)
        requires
            old(self).wf(),
            old(self).max_range * 7 / 10 > 40_000,
        ensures
            final(self).wf(),
            final(self).world_objects@.len() == old(self).world_objects@.len() + 1,
            final(self).world_objects@.drop_last() == old(self).world_objects@,
            ({
                let o = final(self).world_objects@.last();
                &&& o.id == id
                &&& o.object_type == ObjectType::Hostile
                &&& 0 <= o.angle < FULL_TURN_MDEG
                &&& 40_000 <= o.distance < old(self).max_range * 7 / 10
                &&& -8_000 <= o.velocity.0 < 8_000
                &&& -8_000 <= o.velocity.1 < 8_000
            }),
            final(self).detected_contacts@ == old(self).detected_contacts@,
            final(self).sweep_angle == old(self).sweep_angle,
            final(self).max_range == old(self).max_range,
            final(self).fade_duration == old(self).fade_duration,
            final(self).clock == old(self).clock,
    {
        proof {
            let m = self.max_range as int;
            assert(m * 7 / 10 <= m) by (nonlinear_arith)
                requires
                    0 < m,
            ;
        }
        let upper = self.max_range * 7 / 10;
        self.push_object(
            WorldObjects {
                id,
                angle: random_in_range(0, FULL_TURN_MDEG),
                distance: random_in_range(40_000, upper),
                object_type: ObjectType::Hostile,
                velocity: (random_in_range(-8_000, 8_000), random_in_range(-8_000, 8_000)),
            },
        );
    }

    /// Spawn a generic object anywhere in the field.
    pub fn spawn_generic(&mut self, id: u32)
        requires
            old(self).wf(),
            old(self).max_range * 9 / 10 > 15_000,
        ensures
            final(self).wf(),
            final(self).world_objects@.len() == old(self).world_objects@.len() + 1,
            final(self).world_objects@.drop_last() == old(self).world_objects@,
            ({
                let o = final(self).world_objects@.last();
                &&& o.id == id
                &&& o.object_type == ObjectType::Generic
                &&& 0 <= o.angle < FULL_TURN_MDEG
                &&& 15_000 <= o.distance < old(self).max_range * 9 / 10
                &&& -3_000 <= o.velocity.0 < 3_000
                &&& -3_000 <= o.velocity.1 < 3_000
            }),
            final(self).detected_contacts@ == old(self).detected_contacts@,
            final(self).sweep_angle == old(self).sweep_angle,
            final(self).max_range == old(self).max_range,
            final(self).fade_duration == old(self).fade_duration,
            final(self).clock == old(self).clock,
    {
        proof {
            let m = self.max_range as int;
            assert(m * 9 / 10 <= m) by (nonlinear_arith)
                requires
                    0 < m,
            ;
        }
        let upper = self.max_range * 9 / 10;
        self.push_object(
            WorldObjects {
                id,
                angle: random_in_range(0, FULL_TURN_MDEG),
                distance: random_in_range(15_000, upper),
                object_type: ObjectType::Generic,
                velocity: (random_in_range(-3_000, 3_000), random_in_range(-3_000, 3_000)),
            },
        );
    }

    /// Spawn a weather cell: slow drift in the inner field.
    pub fn spawn_weather(&mut self, id: u32)
        requires
            old(self).wf(),
            old(self).max_range * 6 / 10 > 10_000,
        ensures
            final(self).wf(),
            final(self).world_objects@.len() == old(self).world_objects@.len() + 1,
            final(self).world_objects@.drop_last() == old(self).world_objects@,
            ({
                let o = final(self).world_objects@.last();
                &&& o.id == id
                &&& o.object_type == ObjectType::Weather
                &&& 0 <= o.angle < FULL_TURN_MDEG
                &&& 10_000 <= o.distance < old(self).max_range * 6 / 10
                &&& -100 <= o.velocity.0 < 100
                &&& -200 <= o.velocity.1 < 200
            }),
            final(self).detected_contacts@ == old(self).detected_contacts@,
            final(self).sweep_angle == old(self).sweep_angle,
            final(self).max_range == old(self).max_range,
            final(self).fade_duration == old(self).fade_duration,
            final(self).clock == old(self).clock,
    {
        proof {
            let m = self.max_range as int;
            assert(m * 6 / 10 <= m) by (nonlinear_arith)
                requires
                    0 < m,
            ;
        }
        let upper = self.max_range * 6 / 10;
        self.push_object(
            WorldObjects {
                id,
                angle: random_in_range(0, FULL_TURN_MDEG),
                distance: random_in_range(10_000, upper),
                object_type: ObjectType::Weather,
                velocity: (random_in_range(-100, 100), random_in_range(-200, 200)),
            },
        );
    }

    /// Spawn an object of a kind drawn uniformly from the six.
    pub fn spawn_random_object(&mut self, id: u32)
        requires
            old(self).wf(),
            old(self).max_range >= 80_000,
        ensures
            final(self).wf(),
            final(self).world_objects@.len() == old(self).world_objects@.len() + 1,
            final(self).world_objects@.drop_last() == old(self).world_objects@,
            final(self).world_objects@.last().id == id,
            final(self).detected_contacts@ == old(self).detected_contacts@,
            final(self).sweep_angle == old(self).sweep_angle,
            final(self).max_range == old(self).max_range,
            final(self).fade_duration == old(self).fade_duration,
            final(self).clock == old(self).clock,
    {
        proof {
            let m = self.max_range as int;
            assert(m * 8 / 10 > 30_000 && m * 7 / 10 > 40_000 && m * 9 / 10 > 15_000 && m * 6 / 10
                > 10_000) by (nonlinear_arith)
                requires
                    m >= 80_000,
            ;
        }
        match random_in_range(0, 6) {
            0 => self.spawn_aircraft(id),
            1 => self.spawn_ship(id),
            2 => self.spawn_unknown(id),
            3 => self.spawn_hostile(id),
            4 => self.spawn_generic(id),
            5 => self.spawn_weather(id),
            _ => self.spawn_generic(id),
        }
    }
}

/// A refresh pass never introduces a duplicate id: it only drops contacts
/// and rewrites visibilities.
pub proof fn lemma_refresh_keeps_unique_ids(s: Seq<Contact>, now: int, fade: int)
    requires
        unique_ids(s),
    ensures
        unique_ids(refresh_contacts(s, now, fade)),
        forall|j: int|
            0 <= j < refresh_contacts(s, now, fade).len() ==> exists|i: int|
                0 <= i < s.len() && #[trigger] refresh_contacts(s, now, fade)[j] == decay_contact(
                    s[i],
                    now,
                    fade,
                ),
    decreases s.len(),
{
    if s.len() > 0 {
        assert(unique_ids(s.drop_last())) by {
            assert(forall|i: int, j: int|
                0 <= i < j < s.drop_last().len() ==> s.drop_last()[i] == s[i] && s.drop_last()[j]
                    == s[j]);
        }
        lemma_refresh_keeps_unique_ids(s.drop_last(), now, fade);
        let rest = refresh_contacts(s.drop_last(), now, fade);
        let full = refresh_contacts(s, now, fade);
        assert forall|j: int| 0 <= j < full.len() implies exists|i: int|
            0 <= i < s.len() && #[trigger] full[j] == decay_contact(s[i], now, fade) by {
            if j < rest.len() {
                assert(full[j] == rest[j]);
                let i = choose|i: int|
                    0 <= i < s.drop_last().len() && rest[j] == decay_contact(
                        s.drop_last()[i],
                        now,
                        fade,
                    );
                assert(s.drop_last()[i] == s[i]);
                assert(0 <= i < s.len() && full[j] == decay_contact(s[i], now, fade));
            } else {
                let i = s.len() - 1;
                assert(0 <= i < s.len() && full[j] == decay_contact(s[i], now, fade));
            }
        }
        if keep_contact(s.last(), now, fade) {
            let d = decay_contact(s.last(), now, fade);
            assert forall|k: int| 0 <= k < rest.len() implies (#[trigger] rest[k]).id != d.id by {
                let i = choose|i: int|
                    0 <= i < s.drop_last().len() && rest[k] == decay_contact(
                        s.drop_last()[i],
                        now,
                        fade,
                    );
                assert(s.drop_last()[i] == s[i]);
                assert(s[i].id != s.last().id);
            }
            assert forall|a: int, b: int|
                0 <= a < b < full.len() implies full[a].id != full[b].id by {
                if b < rest.len() {
                    assert(rest[a].id != rest[b].id);
                } else {
                    assert(full[b] == d);
                    assert(full[a] == rest[a]);
                }
            }
        }
    }
}

/// Law: a contact hit within twice the fade duration survives a refresh,
/// with its visibility recomputed.
pub proof fn lemma_young_contact_kept(s: Seq<Contact>, now: int, fade: int, i: int)
    requires
        0 <= i < s.len(),
        keep_contact(s[i], now, fade),
    ensures
        refresh_contacts(s, now, fade).contains(decay_contact(s[i], now, fade)),
    decreases s.len(),
{
    let full = refresh_contacts(s, now, fade);
    let rest = refresh_contacts(s.drop_last(), now, fade);
    if i < s.len() - 1 {
        assert(s.drop_last()[i] == s[i]);
        lemma_young_contact_kept(s.drop_last(), now, fade, i);
        let k = choose|k: int|
            0 <= k < rest.len() && rest[k] == decay_contact(s[i], now, fade);
        assert(full[k] == decay_contact(s[i], now, fade));
    } else {
        assert(full.last() == decay_contact(s[i], now, fade));
    }
}

/// Law: a contact not hit for twice the fade duration is absent from the
/// refreshed set — nothing there carries its id any more.
pub proof fn lemma_stale_contact_absent(s: Seq<Contact>, now: int, fade: int, i: int)
    requires
        unique_ids(s),
        0 <= i < s.len(),
        !keep_contact(s[i], now, fade),
    ensures
        forall|j: int|
            0 <= j < refresh_contacts(s, now, fade).len() ==> (#[trigger] refresh_contacts(
                s,
                now,
                fade,
            )[j]).id != s[i].id,
    decreases s.len(),
{
    let full = refresh_contacts(s, now, fade);
    let rest = refresh_contacts(s.drop_last(), now, fade);
    assert(unique_ids(s.drop_last())) by {
        assert(forall|a: int, b: int|
            0 <= a < b < s.drop_last().len() ==> s.drop_last()[a] == s[a] && s.drop_last()[b]
                == s[b]);
    }
    lemma_refresh_keeps_unique_ids(s.drop_last(), now, fade);
    if i < s.len() - 1 {
        assert(s.drop_last()[i] == s[i]);
        lemma_stale_contact_absent(s.drop_last(), now, fade, i);
        assert forall|j: int| 0 <= j < full.len() implies (#[trigger] full[j]).id != s[i].id by {
            if keep_contact(s.last(), now, fade) && j == full.len() - 1 {
                assert(full[j] == decay_contact(s.last(), now, fade));
                assert(s.last().id != s[i].id);
            } else {
                assert(full[j] == rest[j]);
            }
        }
    } else {
        assert(full == rest);
        assert forall|j: int| 0 <= j < full.len() implies (#[trigger] full[j]).id != s[i].id by {
            let k = choose|k: int|
                0 <= k < s.drop_last().len() && rest[j] == decay_contact(
                    s.drop_last()[k],
                    now,
                    fade,
                );
            assert(s.drop_last()[k] == s[k]);
            assert(rest[j].id == s[k].id);
            assert(s[k].id != s[i].id);
        }
    }
}

/// Law: refreshing twice at the same instant is the same as refreshing
/// once — with no new detections and no time elapsed between the calls,
/// every visibility comes out identical.
pub proof fn lemma_refresh_idempotent(s: Seq<Contact>, now: int, fade: int)
    ensures
        refresh_contacts(refresh_contacts(s, now, fade), now, fade) == refresh_contacts(
            s,
            now,
            fade,
        ),
    decreases s.len(),
{
    if s.len() > 0 {
        lemma_refresh_idempotent(s.drop_last(), now, fade);
        let rest = refresh_contacts(s.drop_last(), now, fade);
        let c = s.last();
        if keep_contact(c, now, fade) {
            let d = decay_contact(c, now, fade);
            assert(rest.push(d).drop_last() =~= rest);
            assert(rest.push(d).last() == d);
            assert(decay_contact(d, now, fade) == d);
            assert(refresh_contacts(rest.push(d), now, fade) == refresh_contacts(
                rest,
                now,
                fade,
            ).push(d));
        }
    }
}

/// One motion step keeps exactly the right objects: every object whose
/// stepped distance lands inside `(0, max_range]` stays in the live set,
/// and everything in the live set is such a stepped object — so an object
/// whose step carried it out of the field is gone the same step.
pub proof fn lemma_motion_keeps_exactly_the_live(s: Seq<WorldObjects>, dt: int, max_range: int)
    ensures
        forall|i: int|
            0 <= i < s.len() && in_range(#[trigger] step_object(s[i], dt).distance as int, max_range)
                ==> move_objects(s, dt, max_range).contains(step_object(s[i], dt)),
        forall|j: int|
            0 <= j < move_objects(s, dt, max_range).len() ==> in_range(
                (#[trigger] move_objects(s, dt, max_range)[j]).distance as int,
                max_range,
            ) && exists|i: int|
                0 <= i < s.len() && move_objects(s, dt, max_range)[j] == step_object(s[i], dt),
    decreases s.len(),
{
    if s.len() > 0 {
        lemma_motion_keeps_exactly_the_live(s.drop_last(), dt, max_range);
        let prior = s.drop_last();
        let rest = move_objects(prior, dt, max_range);
        let full = move_objects(s, dt, max_range);
        assert forall|i: int|
            0 <= i < s.len() && in_range(#[trigger] step_object(s[i], dt).distance as int, max_range)
                implies full.contains(step_object(s[i], dt)) by {
            if i < s.len() - 1 {
                assert(prior[i] == s[i]);
                assert(rest.contains(step_object(prior[i], dt)));
                let k = choose|k: int| 0 <= k < rest.len() && rest[k] == step_object(s[i], dt);
                assert(full[k] == step_object(s[i], dt));
            } else {
                assert(full.last() == step_object(s[i], dt));
            }
        }
        assert forall|j: int| 0 <= j < full.len() implies in_range(
            (#[trigger] full[j]).distance as int,
            max_range,
        ) && exists|i: int| 0 <= i < s.len() && full[j] == step_object(s[i], dt) by {
            if j < rest.len() {
                assert(full[j] == rest[j]);
                assert(in_range((move_objects(prior, dt, max_range)[j]).distance as int, max_range));
                let i = choose|i: int|
                    0 <= i < prior.len() && move_objects(prior, dt, max_range)[j] == step_object(
                        prior[i],
                        dt,
                    );
                assert(prior[i] == s[i]);
                assert(0 <= i < s.len() && full[j] == step_object(s[i], dt));
            } else {
                let i = s.len() - 1;
                assert(full[j] == step_object(s[i], dt));
                assert(0 <= i < s.len() && full[j] == step_object(s[i], dt));
            }
        }
    }
}

} // verus!
