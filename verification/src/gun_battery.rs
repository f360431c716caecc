//! The weapon firing scheduler: a battery of guns that fire in sequence.
//!
//! A battery has several guns, each with a pose relative to the battery's
//! own pose. Guns fire round-robin. Between two shots at least
//! `inter_gun_duration` passes. Each gun reloads on its own, counted from its
//! own last shot, and after the last gun of the sequence has fired the whole
//! battery reloads; both must have elapsed before the battery is ready again.
//!
//! Time is the simulation clock in whole ticks; durations are ticks too. The
//! scheduler never reads a clock: every operation is handed the current time.

use vstd::prelude::*;

verus! {

/// Whether `duration` ticks have passed at `now` since the instant `since`.
pub open spec fn elapsed(now: int, since: int, duration: int) -> bool {
    now - since >= duration
}

/// Where a battery stands in its firing cycle.
#[derive(Clone, Copy, Debug, PartialEq, Eq, Structural)]
pub enum BatteryPhase {
    /// The battery can fire.
    Ready,
    /// The battery is in the middle of its sequence and waits for the spacing
    /// between shots or for a gun to reload.
    Cycling,
    /// The sequence is over and the battery reloads.
    Reloading,
}

/// What the scheduler knows of one gun.
pub struct SlotState {
    /// When this gun last fired.
    pub last_fire_time: int,
    /// Whether this gun had reloaded at the last refresh.
    pub is_ready: bool,
}

/// The scheduling state of a battery, as a mathematical value.
pub struct BatteryState {
    /// Spacing between two consecutive shots of the battery.
    pub inter_gun_duration: int,
    /// Reload duration of one gun, counted from its own last shot.
    pub gun_reload: int,
    /// Reload duration of the battery, counted from the last shot of a sequence.
    pub battery_reload: int,
    /// One entry per gun, in firing order.
    pub slots: Seq<SlotState>,
    /// The gun that fires next.
    pub current_index: int,
    /// When any gun of the battery last fired.
    pub last_gun_fire_time: int,
    /// When the last gun of the sequence last fired.
    pub last_in_battery_fire_time: int,
    /// The externally set trigger.
    pub is_triggered: bool,
    /// Whether the battery could fire at the last refresh.
    pub is_ready: bool,
}

impl BatteryState {
    /// Durations are spans of time, and the next gun to fire exists (or the
    /// battery has no gun at all).
    pub open spec fn wf(self) -> bool {
        &&& 0 <= self.inter_gun_duration
        &&& 0 <= self.gun_reload
        &&& 0 <= self.battery_reload
        &&& 0 <= self.current_index
        &&& self.current_index < self.slots.len() || (self.slots.len() == 0
            && self.current_index == 0)
    }

    /// A battery of `guns` guns as it is at spawn: nothing triggered, every gun
    /// loaded, the first gun up next. Nothing has fired yet, so nothing is
    /// to be waited for: every stamp lies as far in the past as the duration
    /// that is counted from it, and at time zero each has already elapsed.
    pub open spec fn initial(
        inter_gun_duration: int,
        gun_reload: int,
        battery_reload: int,
        guns: nat,
    ) -> BatteryState {
        BatteryState {
            inter_gun_duration,
            gun_reload,
            battery_reload,
            slots: Seq::new(
                guns,
                |i: int| SlotState { last_fire_time: -gun_reload, is_ready: true },
            ),
            current_index: 0,
            last_gun_fire_time: -inter_gun_duration,
            last_in_battery_fire_time: -battery_reload,
            is_triggered: false,
            is_ready: true,
        }
    }

    /// Gun `i` has reloaded at `now`.
    pub open spec fn slot_loaded(self, i: int, now: int) -> bool {
        elapsed(now, self.slots[i].last_fire_time, self.gun_reload)
    }

    /// Some gun of the battery has reloaded at `now`.
    pub open spec fn any_slot_loaded(self, now: int) -> bool {
        exists|i: int| 0 <= i < self.slots.len() && #[trigger] self.slot_loaded(i, now)
    }

    /// The battery can fire at `now`: the battery reload and the spacing since
    /// the last shot have both elapsed, and at least one gun has reloaded.
    pub open spec fn ready_at(self, now: int) -> bool {
        &&& elapsed(now, self.last_in_battery_fire_time, self.battery_reload)
        &&& self.any_slot_loaded(now)
        &&& elapsed(now, self.last_gun_fire_time, self.inter_gun_duration)
    }

    /// Where the battery stands at `now`: ready, or reloading as long as the
    /// battery reload has not elapsed, or else cycling.
    pub open spec fn phase_at(self, now: int) -> BatteryPhase {
        if self.ready_at(now) {
            BatteryPhase::Ready
        } else if !elapsed(now, self.last_in_battery_fire_time, self.battery_reload) {
            BatteryPhase::Reloading
        } else {
            BatteryPhase::Cycling
        }
    }

    /// The state after a refresh at `now`: only the readiness flags change.
    pub open spec fn updated(self, now: int) -> BatteryState {
        BatteryState {
            slots: Seq::new(
                self.slots.len(),
                |i: int|
                    SlotState {
                        last_fire_time: self.slots[i].last_fire_time,
                        is_ready: self.slot_loaded(i, now),
                    },
            ),
            is_ready: self.ready_at(now),
            ..self
        }
    }

    /// A shot is due: the battery was ready at the last refresh, the trigger
    /// is set, and there is a gun to fire.
    pub open spec fn due(self) -> bool {
        self.is_ready && self.is_triggered && self.slots.len() > 0
    }

    /// Whether the gun that fires next is the last of the sequence.
    pub open spec fn at_last_slot(self) -> bool {
        self.current_index + 1 >= self.slots.len()
    }

    /// The state after the current gun has been stamped as fired at `now` and
    /// the index has moved on, before readiness is refreshed.
    pub open spec fn stamped(self, now: int) -> BatteryState {
        BatteryState {
            slots: self.slots.update(
                self.current_index,
                SlotState { last_fire_time: now, is_ready: false },
            ),
            last_gun_fire_time: now,
            last_in_battery_fire_time: if self.at_last_slot() {
                now
            } else {
                self.last_in_battery_fire_time
            },
            current_index: if self.at_last_slot() {
                0
            } else {
                self.current_index + 1
            },
            ..self
        }
    }

    /// The state after the current gun fired at `now`.
    pub open spec fn fired(self, now: int) -> BatteryState {
        self.stamped(now).updated(now)
    }

    /// The state after `shots` consecutive shots, all at `now`.
    pub open spec fn fired_times(self, now: int, shots: nat) -> BatteryState
        decreases shots,
    {
        if shots == 0 {
            self
        } else {
            self.fired_times(now, (shots - 1) as nat).fired(now)
        }
    }
}

/// Configuration of a battery. The fire effect is whatever the owner wants
/// to happen when a gun fires; the scheduler only keeps it.
pub struct GunBatteryConfig<P, E> {
    /// What is to happen when a gun of the battery fires.
    pub fire_effect: E,
    /// Ticks between two consecutive shots of the battery; may be zero.
    pub inter_gun_duration: u32,
    /// Ticks one gun takes to reload.
    pub gun_reload: u32,
    /// Ticks the battery takes to reload after the last gun has fired. Both
    /// this and the gun's own reload must have elapsed before firing resumes.
    pub battery_reload: u32,
    /// Pose of each gun, in firing order.
    pub poses: Vec<P>,
}

#[derive(Debug, Copy, Clone)]
struct GunStatus {
    /// Time of last firing of this gun, to track this gun's reload.
    last_fire_time: i64,
    /// Whether this gun is ready.
    is_ready: bool,
}

/// A battery of guns with its firing schedule.
pub struct GunBattery<P, E> {
    config: GunBatteryConfig<P, E>,
    current_index: usize,
    last_gun_fire_time: i64,
    last_in_battery_fire_time: i64,
    is_triggered: bool,
    is_ready: bool,
    status: Vec<GunStatus>,
}

/// Whether `duration` ticks have passed at `now` since `since`.
fn has_elapsed(now: i64, since: i64, duration: u32) -> (done: bool)
    ensures
        done == elapsed(now as int, since as int, duration as int),
{
    now as i128 - since as i128 >= duration as i128
}

impl<P, E> GunBattery<P, E> {
    /// The configuration the battery was made with.
    pub closed spec fn config(&self) -> GunBatteryConfig<P, E> {
        self.config
    }

    /// The scheduling state.
    pub closed spec fn view(&self) -> BatteryState {
        BatteryState {
            inter_gun_duration: self.config.inter_gun_duration as int,
            gun_reload: self.config.gun_reload as int,
            battery_reload: self.config.battery_reload as int,
            slots: Seq::new(
                self.status@.len(),
                |i: int|
                    SlotState {
                        last_fire_time: self.status@[i].last_fire_time as int,
                        is_ready: self.status@[i].is_ready,
                    },
            ),
            current_index: self.current_index as int,
            last_gun_fire_time: self.last_gun_fire_time as int,
            last_in_battery_fire_time: self.last_in_battery_fire_time as int,
            is_triggered: self.is_triggered,
            is_ready: self.is_ready,
        }
    }

    /// There is one slot per configured pose, and the state is well formed.
    pub closed spec fn wf(&self) -> bool {
        &&& self.status@.len() == self.config.poses@.len()
        &&& self@.wf()
    }

    /// A well-formed battery has as many slots as poses, and its state
    /// carries the configured durations.
    pub proof fn lemma_wf(&self)
        requires
            self.wf(),
        ensures
            self@.wf(),
            self@.slots.len() == self.config().poses@.len(),
            self@.inter_gun_duration == self.config().inter_gun_duration,
            self@.gun_reload == self.config().gun_reload,
            self@.battery_reload == self.config().battery_reload,
    {
    }

    /// A battery at spawn: every gun loaded, nothing triggered.
    pub fn new(config: GunBatteryConfig<P, E>) -> (battery: Self)
        ensures
            battery.wf(),
            battery.config() == config,
            battery@ == BatteryState::initial(
                config.inter_gun_duration as int,
                config.gun_reload as int,
                config.battery_reload as int,
                config.poses@.len(),
            ),
    {
        let guns = config.poses.len();
        let stamp: i64 = -(config.gun_reload as i64);
        let mut status: Vec<GunStatus> = Vec::new();
        while status.len() < guns
            invariant
                status@.len() <= guns,
                forall|i: int|
                    0 <= i < status@.len() ==> (#[trigger] status@[i]).last_fire_time == stamp
                        && status@[i].is_ready,
            decreases guns - status@.len(),
        {
            status.push(GunStatus { last_fire_time: stamp, is_ready: true });
        }
        let battery = GunBattery {
            current_index: 0,
            last_gun_fire_time: -(config.inter_gun_duration as i64),
            last_in_battery_fire_time: -(config.battery_reload as i64),
            config,
            is_triggered: false,
            is_ready: true,
            status,
        };
        assert(battery@.slots =~= BatteryState::initial(
            config.inter_gun_duration as int,
            config.gun_reload as int,
            config.battery_reload as int,
            config.poses@.len(),
        ).slots);
        battery
    }

    /// Whether the trigger is set.
    pub fn is_triggered(&self) -> (triggered: bool)
        ensures
            triggered == self@.is_triggered,
    {
        self.is_triggered
    }

    /// Sets or releases the trigger; nothing else changes.
    pub fn set_trigger(&mut self, value: bool)
        ensures
            final(self)@ == (BatteryState { is_triggered: value, ..old(self)@ }),
            final(self).config() == old(self).config(),
            old(self).wf() ==> final(self).wf(),
    {
        self.is_triggered = value;
        assert(final(self)@.slots =~= old(self)@.slots);
    }

    /// Whether the battery could fire at the last refresh.
    pub fn is_ready(&self) -> (ready: bool)
        ensures
            ready == self@.is_ready,
    {
        self.is_ready
    }

    /// Refreshes the readiness of every gun and of the battery for the time
    /// `current_time`. The schedule itself (index, fire stamps) is not touched.
    pub fn update(&mut self, current_time: i64)
        ensures
            final(self)@ == old(self)@.updated(current_time as int),
            final(self).config() == old(self).config(),
            old(self).wf() ==> final(self).wf(),
    {
        let gun_interval_done = has_elapsed(
            current_time,
            self.last_gun_fire_time,
            self.config.inter_gun_duration,
        );
        let battery_reload_done = has_elapsed(
            current_time,
            self.last_in_battery_fire_time,
            self.config.battery_reload,
        );
        let ghost before = old(self)@;
        let ghost now = current_time as int;
        let mut at_least_one_gun_loaded = false;
        let mut i: usize = 0;
        while i < self.status.len()
            invariant
                i <= self.status@.len(),
                self.status@.len() == old(self).status@.len(),
                self.config == old(self).config,
                self.current_index == old(self).current_index,
                self.last_gun_fire_time == old(self).last_gun_fire_time,
                self.last_in_battery_fire_time == old(self).last_in_battery_fire_time,
                self.is_triggered == old(self).is_triggered,
                self.is_ready == old(self).is_ready,
                before == old(self)@,
                now == current_time as int,
                forall|j: int|
                    0 <= j < self.status@.len() ==> (#[trigger] self.status@[j]).last_fire_time
                        == old(self).status@[j].last_fire_time,
                forall|j: int|
                    0 <= j < i ==> (#[trigger] self.status@[j]).is_ready == before.slot_loaded(
                        j,
                        now,
                    ),
                forall|j: int|
                    i <= j < self.status@.len() ==> (#[trigger] self.status@[j]).is_ready == old(
                        self,
                    ).status@[j].is_ready,
                at_least_one_gun_loaded <==> exists|j: int|
                    0 <= j < i && #[trigger] before.slot_loaded(j, now),
            decreases self.status@.len() - i,
        {
            let last_fire_time = self.status[i].last_fire_time;
            let loaded = has_elapsed(current_time, last_fire_time, self.config.gun_reload);
            self.status.set(i, GunStatus { last_fire_time, is_ready: loaded });
            if loaded {
                at_least_one_gun_loaded = true;
            }
            assert(before.slot_loaded(i as int, now) == loaded);
            i += 1;
        }
        self.is_ready = battery_reload_done && at_least_one_gun_loaded && gun_interval_done;
        assert(final(self)@.slots =~= before.updated(now).slots);
    }

    /// Whether some gun has reloaded at `current_time`.
    fn any_gun_loaded(&self, current_time: i64) -> (loaded: bool)
        ensures
            loaded == self@.any_slot_loaded(current_time as int),
    {
        let ghost state = self@;
        let ghost now = current_time as int;
        let mut i: usize = 0;
        while i < self.status.len()
            invariant
                i <= self.status@.len(),
                state == self@,
                now == current_time as int,
                forall|j: int| 0 <= j < i ==> !#[trigger] state.slot_loaded(j, now),
            decreases self.status@.len() - i,
        {
            if has_elapsed(current_time, self.status[i].last_fire_time, self.config.gun_reload) {
                assert(state.slot_loaded(i as int, now));
                return true;
            }
            i += 1;
        }
        false
    }

    /// Where the battery stands in its firing cycle at `current_time`. Unlike
    /// `is_ready` this looks at the clock, not at the last refresh.
    pub fn phase(&self, current_time: i64) -> (phase: BatteryPhase)
        ensures
            phase == self@.phase_at(current_time as int),
    {
        let battery_reload_done = has_elapsed(
            current_time,
            self.last_in_battery_fire_time,
            self.config.battery_reload,
        );
        if !battery_reload_done {
            BatteryPhase::Reloading
        } else if self.any_gun_loaded(current_time) && has_elapsed(
            current_time,
            self.last_gun_fire_time,
            self.config.inter_gun_duration,
        ) {
            BatteryPhase::Ready
        } else {
            BatteryPhase::Cycling
        }
    }

    /// The number of guns in the battery.
    pub fn gun_count(&self) -> (count: usize)
        ensures
            count == self@.slots.len(),
    {
        self.status.len()
    }

    /// The index of the gun that fires next.
    pub fn gun_index(&self) -> (index: usize)
        ensures
            index == self@.current_index,
    {
        self.current_index
    }

    /// The configured fire effect.
    pub fn effect(&self) -> (effect: &E)
        ensures
            *effect == self.config().fire_effect,
    {
        &self.config.fire_effect
    }
}

impl<P: Copy, E> GunBattery<P, E> {
    /// Records that the current gun fired at `current_time` and returns that
    /// gun's pose. The gun and the battery are stamped, the index moves on
    /// round-robin (a wraparound starts the battery reload), and readiness is
    /// refreshed at once. The scheduler does not gate firing: the caller
    /// fires only a battery that it saw ready.
    pub fn fired(&mut self, current_time: i64) -> (fire_pose: P)
        requires
            old(self).wf(),
            old(self)@.slots.len() > 0,
        ensures
            final(self).wf(),
            final(self)@ == old(self)@.fired(current_time as int),
            final(self).config() == old(self).config(),
            fire_pose == old(self).config().poses@[old(self)@.current_index],
    {
        // Modify this gun.
        self.status.set(
            self.current_index,
            GunStatus { last_fire_time: current_time, is_ready: false },
        );
        self.last_gun_fire_time = current_time;

        let fire_pose = self.config.poses[self.current_index];

        // Increment the gun index.
        assert(self.current_index < self.status.len());
        if self.current_index + 1 >= self.status.len() {
            // Wrap around, set the last gun fire time.
            self.last_in_battery_fire_time = current_time;
            self.current_index = 0;
        } else {
            self.current_index += 1;
        }
        assert(self@.slots =~= old(self)@.stamped(current_time as int).slots);
        assert(self@ == old(self)@.stamped(current_time as int));

        // Always update, the is_ready flag needs to update immediately.
        self.update(current_time);
        fire_pose
    }

    /// Fires if a shot is due: if the battery was ready at its last refresh,
    /// is triggered and has a gun, the shot is recorded as by `fired` and the
    /// pose of the gun that fired is returned. Otherwise nothing changes.
    pub fn fire_if_due(&mut self, current_time: i64) -> (fire_pose: Option<P>)
        requires
            old(self).wf(),
        ensures
            final(self).wf(),
            final(self).config() == old(self).config(),
            fire_pose is Some <==> old(self)@.due(),
            old(self)@.due() ==> fire_pose == Some(
                old(self).config().poses@[old(self)@.current_index],
            ) && final(self)@ == old(self)@.fired(current_time as int),
            !old(self)@.due() ==> final(self)@ == old(self)@,
    {
        if self.is_ready && self.is_triggered && self.status.len() > 0 {
            Some(self.fired(current_time))
        } else {
            None
        }
    }
}

impl BatteryState {
    /// A refresh never changes the schedule: the index of the next gun, every
    /// fire stamp, the trigger and the durations stay as they were, whatever
    /// the time. Only readiness flags are recomputed.
    pub proof fn lemma_update_keeps_schedule(self, now: int)
        ensures
            self.updated(now).current_index == self.current_index,
            self.updated(now).last_gun_fire_time == self.last_gun_fire_time,
            self.updated(now).last_in_battery_fire_time == self.last_in_battery_fire_time,
            self.updated(now).is_triggered == self.is_triggered,
            self.updated(now).inter_gun_duration == self.inter_gun_duration,
            self.updated(now).gun_reload == self.gun_reload,
            self.updated(now).battery_reload == self.battery_reload,
            self.updated(now).slots.len() == self.slots.len(),
            forall|i: int|
                0 <= i < self.slots.len() ==> (#[trigger] self.updated(
                    now,
                ).slots[i]).last_fire_time == self.slots[i].last_fire_time,
            self.wf() ==> self.updated(now).wf(),
    {
    }

    /// What a refresh computes depends on the schedule and the time alone, not
    /// on earlier refreshes: refreshing at `earlier` and then at `now` gives
    /// what refreshing at `now` gives.
    pub proof fn lemma_update_forgets_earlier_updates(self, earlier: int, now: int)
        ensures
            self.updated(earlier).updated(now) == self.updated(now),
    {
        let once = self.updated(earlier);
        assert forall|i: int| 0 <= i < self.slots.len() implies once.slot_loaded(i, now)
            == self.slot_loaded(i, now) by {}
        if self.any_slot_loaded(now) {
            let i = choose|i: int| 0 <= i < self.slots.len() && self.slot_loaded(i, now);
            assert(once.slot_loaded(i, now));
        }
        if once.any_slot_loaded(now) {
            let i = choose|i: int| 0 <= i < once.slots.len() && once.slot_loaded(i, now);
            assert(self.slot_loaded(i, now));
        }
        assert(once.updated(now).slots =~= self.updated(now).slots);
    }

    /// Full readiness at spawn: a battery that has never fired and has a gun
    /// is ready at every refresh from time zero on, whatever its durations.
    pub proof fn lemma_fresh_battery_is_ready(
        inter_gun_duration: int,
        gun_reload: int,
        battery_reload: int,
        guns: nat,
        now: int,
    )
        requires
            0 <= inter_gun_duration,
            0 <= gun_reload,
            0 <= battery_reload,
            guns > 0,
            0 <= now,
        ensures
            BatteryState::initial(inter_gun_duration, gun_reload, battery_reload, guns).updated(
                now,
            ).is_ready,
            BatteryState::initial(inter_gun_duration, gun_reload, battery_reload, guns).phase_at(
                now,
            ) == BatteryPhase::Ready,
    {
        let fresh = BatteryState::initial(inter_gun_duration, gun_reload, battery_reload, guns);
        assert(fresh.slot_loaded(0, now));
    }

    /// After a refresh the readiness flag tells the phase: the battery is
    /// flagged ready exactly if it is in the phase `Ready` at that time.
    pub proof fn lemma_ready_is_a_phase(self, now: int)
        ensures
            self.updated(now).is_ready <==> self.phase_at(now) == BatteryPhase::Ready,
            self.updated(now).phase_at(now) == self.phase_at(now),
    {
        self.lemma_update_forgets_earlier_updates(now, now);
    }

    /// Refreshing is idempotent: a second refresh at the same time changes
    /// nothing at all.
    pub proof fn lemma_update_idempotent(self, now: int)
        ensures
            self.updated(now).updated(now) == self.updated(now),
    {
        self.lemma_update_forgets_earlier_updates(now, now);
    }

    /// A shot moves the index round-robin and stamps the gun that fired, the
    /// battery, and, on wraparound, the start of the battery reload.
    pub proof fn lemma_fired_schedule(self, now: int)
        requires
            self.wf(),
            self.slots.len() > 0,
        ensures
            self.fired(now).wf(),
            self.fired(now).slots.len() == self.slots.len(),
            self.fired(now).current_index == (self.current_index + 1) % (
            self.slots.len() as int),
            self.fired(now).last_gun_fire_time == now,
            self.fired(now).slots[self.current_index].last_fire_time == now,
            self.fired(now).last_in_battery_fire_time == if self.at_last_slot() {
                now
            } else {
                self.last_in_battery_fire_time
            },
            forall|i: int|
                0 <= i < self.slots.len() && i != self.current_index ==> (
                #[trigger] self.fired(now).slots[i]).last_fire_time
                    == self.slots[i].last_fire_time,
    {
        let n = self.slots.len() as int;
        if self.at_last_slot() {
            assert(self.current_index + 1 == n);
            assert((self.current_index + 1) % n == 0) by {
                vstd::arithmetic::div_mod::lemma_mod_self_0(n);
            }
        } else {
            assert((self.current_index + 1) % n == self.current_index + 1) by {
                vstd::arithmetic::div_mod::lemma_small_mod((self.current_index + 1) as nat, n as nat);
            }
        }
    }

    /// After a shot at `fired_at` the battery is not ready at any time `now`
    /// at which the spacing between shots has not yet elapsed. With a
    /// spacing above zero it is therefore not ready right after the shot.
    pub proof fn lemma_not_ready_within_spacing(self, fired_at: int, now: int)
        requires
            now - fired_at < self.inter_gun_duration,
        ensures
            !self.fired(fired_at).updated(now).is_ready,
            now == fired_at ==> !self.fired(fired_at).is_ready,
    {
        self.stamped(fired_at).lemma_update_forgets_earlier_updates(fired_at, now);
        if now == fired_at {
            self.stamped(fired_at).lemma_update_idempotent(now);
        }
    }

    /// After the last gun of the sequence fired at `fired_at`, the index is
    /// back at the first gun and the battery is not ready at any time `now`
    /// at which the battery reload has not yet elapsed.
    pub proof fn lemma_not_ready_within_battery_reload(self, fired_at: int, now: int)
        requires
            self.at_last_slot(),
            now - fired_at < self.battery_reload,
        ensures
            self.fired(fired_at).current_index == 0,
            self.fired(fired_at).updated(now).current_index == 0,
            !self.fired(fired_at).updated(now).is_ready,
            now == fired_at ==> !self.fired(fired_at).is_ready,
    {
        self.stamped(fired_at).lemma_update_forgets_earlier_updates(fired_at, now);
        if now == fired_at {
            self.stamped(fired_at).lemma_update_idempotent(now);
        }
    }

    /// With no spacing between shots, a battery that has not just fired its
    /// last gun stays ready right after a shot, as long as the battery reload
    /// has elapsed and some other gun is loaded: guns fire back to back.
    pub proof fn lemma_zero_spacing_stays_ready(self, now: int, other: int)
        requires
            self.wf(),
            self.inter_gun_duration == 0,
            !self.at_last_slot(),
            elapsed(now, self.last_in_battery_fire_time, self.battery_reload),
            0 <= other < self.slots.len(),
            other != self.current_index,
            self.slot_loaded(other, now),
        ensures
            self.fired(now).is_ready,
    {
        assert(self.stamped(now).slot_loaded(other, now));
    }

    /// A fresh battery without spacing between shots fires all its guns but
    /// the last back to back at one instant `now`: after each of these shots
    /// it is ready again at once, with the next gun up.
    pub proof fn lemma_zero_spacing_back_to_back(
        gun_reload: int,
        battery_reload: int,
        guns: nat,
        now: int,
        shots: nat,
    )
        requires
            0 <= gun_reload,
            0 <= battery_reload,
            0 <= now,
            shots < guns,
        ensures
            BatteryState::initial(0, gun_reload, battery_reload, guns).fired_times(
                now,
                shots,
            ).is_ready,
            BatteryState::initial(0, gun_reload, battery_reload, guns).fired_times(
                now,
                shots,
            ).current_index == shots,
    {
        Self::lemma_fresh_shots(gun_reload, battery_reload, guns, now, shots);
    }

    proof fn lemma_fresh_shots(
        gun_reload: int,
        battery_reload: int,
        guns: nat,
        now: int,
        shots: nat,
    )
        requires
            0 <= gun_reload,
            0 <= battery_reload,
            0 <= now,
            shots < guns,
        ensures
            ({
                let after = BatteryState::initial(0, gun_reload, battery_reload, guns).fired_times(
                    now,
                    shots,
                );
                &&& after.wf()
                &&& after.is_ready
                &&& after.current_index == shots
                &&& after.slots.len() == guns
                &&& after.inter_gun_duration == 0
                &&& after.gun_reload == gun_reload
                &&& after.battery_reload == battery_reload
                &&& after.last_in_battery_fire_time == -battery_reload
                &&& forall|i: int|
                    shots <= i < guns ==> (#[trigger] after.slots[i]).last_fire_time
                        == -gun_reload
            }),
        decreases shots,
    {
        let fresh = BatteryState::initial(0, gun_reload, battery_reload, guns);
        if shots > 0 {
            let before = fresh.fired_times(now, (shots - 1) as nat);
            Self::lemma_fresh_shots(gun_reload, battery_reload, guns, now, (shots - 1) as nat);
            assert(fresh.fired_times(now, shots) == before.fired(now));
            assert(before.slots[shots as int].last_fire_time == -gun_reload);
            assert(before.slot_loaded(shots as int, now));
            before.lemma_zero_spacing_stays_ready(now, shots as int);
        }
    }
}

} // verus!
