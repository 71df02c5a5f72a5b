use vstd::prelude::*;
use vstd::wrapping::u64_specs;
use crate::log::{ContextLogger, LogCategory, LogConfig, LogLevel, outcome};
use crate::camera::{Camera, SCALE_ONE, SCREEN_LIMIT};
use crate::route::WORLD_LIMIT;
use crate::store::{SimulationState, VehicleCounts, counts_of, ticked};
use crate::vehicle::lemma_position_in_world;

verus! {

/// Tick interval while frames are cheap (about 60 per second).
pub const FAST_INTERVAL_MS: u32 = 16;

/// Tick interval when frames prove costly (about 30 per second).
pub const SLOW_INTERVAL_MS: u32 = 33;

/// Frames measured before the interval is chosen.
pub const CALIBRATION_FRAMES: u32 = 10;

/// Average frame cost, in microseconds, above which the slow interval is chosen.
pub const FRAME_COST_LIMIT_US: u64 = 8_000;

/// What the host scheduler has to do.
#[derive(Clone, Copy, Debug, PartialEq, Eq, Structural)]
pub enum ClockCommand {
    /// Install a repeating task with this ticker id.
    Install { ticker: u64, interval_ms: u32 },
    /// Cancel the task `cancel`, then install `ticker` with the same callback.
    Replace { cancel: u64, ticker: u64, interval_ms: u32 },
    /// Cancel the task `cancel`.
    Cancel { cancel: u64 },
}

/// The scheduler side of the simulation: whether a repeating task is
/// installed, its interval, and the one-time calibration of that interval.
#[derive(Clone, Copy, Debug, PartialEq, Eq, Structural)]
pub struct SimulationControl {
    /// Whether a repeating task is installed.
    pub running: bool,
    /// Id of the installed task; earlier ids are stale.
    pub ticker: u64,
    pub update_interval_ms: u32,
    /// Calibration still pending.
    pub auto_adjust: bool,
    pub frame_count: u32,
    pub total_frame_time_us: u64,
    pub vehicle_counts: VehicleCounts,
}

/// The interval that calibration picks from the summed cost of its frames.
pub open spec fn calibrated_interval(total_us: int) -> u32 {
    if total_us > FRAME_COST_LIMIT_US * CALIBRATION_FRAMES {
        SLOW_INTERVAL_MS
    } else {
        FAST_INTERVAL_MS
    }
}

/// The running total of frame costs, stuck at `u64::MAX` rather than wrapping.
pub open spec fn saturated_total(total: u64, frame: u64) -> u64 {
    if total + frame > u64::MAX {
        u64::MAX
    } else {
        (total + frame) as u64
    }
}

impl SimulationControl {
    pub open spec fn wf(&self) -> bool {
        &&& self.frame_count <= CALIBRATION_FRAMES
        &&& self.auto_adjust ==> self.frame_count < CALIBRATION_FRAMES
        &&& self.update_interval_ms > 0
    }

    /// Idle, at the fast interval, with calibration pending.
    pub fn new() -> (c: Self)
        ensures
            c.wf(),
            !c.running,
            c.ticker == 0,
            c.update_interval_ms == FAST_INTERVAL_MS,
            c.auto_adjust,
            c.frame_count == 0,
            c.total_frame_time_us == 0,
            c.vehicle_counts == (VehicleCounts { buses: 0, trains: 0, total: 0 }),
    {
        SimulationControl {
            running: false,
            ticker: 0,
            update_interval_ms: FAST_INTERVAL_MS,
            auto_adjust: true,
            frame_count: 0,
            total_frame_time_us: 0,
            vehicle_counts: VehicleCounts { buses: 0, trains: 0, total: 0 },
        }
    }

    /// Starts ticking; when a task is already installed it is replaced, so
    /// that there is never more than one.
    pub fn start(&mut self) -> (cmd: ClockCommand)
        requires
            old(self).wf(),
        ensures
            final(self).wf(),
            final(self).running,
            final(self).ticker == u64_specs::wrapping_add(old(self).ticker, 1),
            final(self).auto_adjust == old(self).auto_adjust,
            final(self).frame_count == old(self).frame_count,
            final(self).total_frame_time_us == old(self).total_frame_time_us,
            final(self).vehicle_counts == old(self).vehicle_counts,
            final(self).update_interval_ms == old(self).update_interval_ms,
            cmd == (if old(self).running {
                ClockCommand::Replace {
                    cancel: old(self).ticker,
                    ticker: final(self).ticker,
                    interval_ms: final(self).update_interval_ms,
                }
            } else {
                ClockCommand::Install { ticker: final(self).ticker, interval_ms: final(self).update_interval_ms }
            }),
    {
        let old_ticker = self.ticker;
        let was_running = self.running;
        self.ticker = self.ticker.wrapping_add(1);
        self.running = true;
        if was_running {
            ClockCommand::Replace { cancel: old_ticker, ticker: self.ticker, interval_ms: self.update_interval_ms }
        } else {
            ClockCommand::Install { ticker: self.ticker, interval_ms: self.update_interval_ms }
        }
    }

    /// Stops ticking: the installed task, if any, is to be cancelled.
    pub fn stop(&mut self) -> (cmd: Option<ClockCommand>)
        requires
            old(self).wf(),
        ensures
            final(self).wf(),
            !final(self).running,
            final(self).ticker == old(self).ticker,
            cmd == (if old(self).running {
                Some(ClockCommand::Cancel { cancel: old(self).ticker })
            } else {
                None::<ClockCommand>
            }),
    {
        let was_running = self.running;
        self.running = false;
        if was_running {
            Some(ClockCommand::Cancel { cancel: self.ticker })
        } else {
            None
        }
    }

    /// Changes the tick interval. A running task is cancelled and a new one
    /// installed under a new id, so the old one can never fire again.
    /// An interval of zero is refused and changes nothing.
    pub fn set_tick_interval(&mut self, interval_ms: u32) -> (cmd: Option<ClockCommand>)
        requires
            old(self).wf(),
        ensures
            final(self).wf(),
            interval_ms == 0 ==> *final(self) == *old(self) && cmd is None,
            interval_ms > 0 ==> final(self).update_interval_ms == interval_ms,
            interval_ms > 0 && old(self).running ==> {
                &&& final(self).ticker == u64_specs::wrapping_add(old(self).ticker, 1)
                &&& cmd == Some(ClockCommand::Replace {
                    cancel: old(self).ticker,
                    ticker: final(self).ticker,
                    interval_ms,
                })
            },
            interval_ms > 0 && !old(self).running ==> final(self).ticker == old(self).ticker && cmd is None,
            final(self).auto_adjust == old(self).auto_adjust,
            final(self).frame_count == old(self).frame_count,
            final(self).total_frame_time_us == old(self).total_frame_time_us,
            final(self).vehicle_counts == old(self).vehicle_counts,
            final(self).running == old(self).running,
    {
        if interval_ms == 0 {
            return None;
        }
        self.update_interval_ms = interval_ms;
        if self.running {
            Some(self.start())
        } else {
            None
        }
    }

    /// A scheduled task fired. Only the installed task of a running clock
    /// drives the simulation: it ticks the store (which advances the fleet
    /// unless paused) and refreshes the counts. Returns whether the frame is
    /// to be drawn.
    pub fn on_timer(&mut self, ticker: u64, state: &mut SimulationState) -> (render: bool)
        requires
            old(state).wf(),
        ensures
            final(state).wf(),
            render == (old(self).running && ticker == old(self).ticker),
            !render ==> *final(state) == *old(state) && *final(self) == *old(self),
            render ==> {
                &&& final(state).routes == old(state).routes
                &&& final(state).is_paused == old(state).is_paused
                &&& old(state).is_paused ==> final(state).vehicles == old(state).vehicles
                &&& !old(state).is_paused ==> final(state).vehicles@ == Seq::new(
                    old(state).vehicles@.len(),
                    |k: int| ticked(old(state).routes@, old(state).vehicles@[k]),
                )
                &&& old(state).is_paused ==> *final(self) == *old(self)
                &&& !old(state).is_paused ==> *final(self) == (SimulationControl {
                    vehicle_counts: counts_of(final(state).vehicles@),
                    ..*old(self)
                })
            },
    {
        if !self.running || ticker != self.ticker {
            return false;
        }
        if state.is_paused {
            return true;
        }
        self.vehicle_counts = state.tick();
        true
    }

    /// One frame of the installed task: `on_timer`, then, in follow mode,
    /// the camera is moved onto the selected vehicle for a `width` by
    /// `height` viewport. Returns whether the frame is to be drawn.
    pub fn on_frame(
        &mut self,
        ticker: u64,
        state: &mut SimulationState,
        camera: &mut Camera,
        width: i64,
        height: i64,
    ) -> (render: bool)
        requires
            old(state).wf(),
            old(camera).wf(),
            0 <= width <= SCREEN_LIMIT,
            0 <= height <= SCREEN_LIMIT,
        ensures
            final(state).wf(),
            final(camera).wf(),
            render == (old(self).running && ticker == old(self).ticker),
            !render ==> *final(state) == *old(state) && *final(self) == *old(self) && *final(camera) == *old(camera),
            render ==> {
                &&& final(state).routes == old(state).routes
                &&& final(state).is_paused == old(state).is_paused
                &&& old(state).is_paused ==> final(state).vehicles == old(state).vehicles
                &&& !old(state).is_paused ==> final(state).vehicles@ == Seq::new(
                    old(state).vehicles@.len(),
                    |k: int| ticked(old(state).routes@, old(state).vehicles@[k]),
                )
                &&& old(state).is_paused ==> *final(self) == *old(self)
                &&& !old(state).is_paused ==> *final(self) == (SimulationControl {
                    vehicle_counts: counts_of(final(state).vehicles@),
                    ..*old(self)
                })
                &&& final(camera).scale == old(camera).scale
                &&& final(camera).selected_vehicle == old(camera).selected_vehicle
                &&& final(camera).follow == old(camera).follow
                &&& match old(camera).selected_vehicle {
                    Some(i) if old(camera).follow && i < final(state).vehicles@.len() => {
                        let v = final(state).vehicles@[i as int];
                        let k = old(camera).scale as int;
                        &&& final(camera).pan_x == v.x - width * (SCALE_ONE as int) / (2 * k)
                        &&& final(camera).pan_y == v.y - height * (SCALE_ONE as int) / (2 * k)
                    },
                    _ => final(camera).pan_x == old(camera).pan_x && final(camera).pan_y == old(camera).pan_y,
                }
            },
    {
        let render = self.on_timer(ticker, state);
        if render {
            proof {
                assert forall|k: int| 0 <= k < state.vehicles@.len() implies -WORLD_LIMIT <= (#[trigger] state.vehicles@[k]).x
                    <= WORLD_LIMIT && -WORLD_LIMIT <= state.vehicles@[k].y <= WORLD_LIMIT by {
                    let v = state.vehicles@[k];
                    lemma_position_in_world(v, state.routes@[v.route_index as int].waypoints@);
                }
            }
            camera.follow_step(&state.vehicles, width, height);
        }
        render
    }

    /// Feeds the measured cost of one frame to the calibration. After
    /// `CALIBRATION_FRAMES` frames the slow interval is chosen if their
    /// average cost exceeds `FRAME_COST_LIMIT_US`, else the fast one, and
    /// calibration ends for good. Returns the command that applies a changed
    /// interval to a running clock.
    pub fn auto_adjust_interval(&mut self, frame_time_us: u64) -> (cmd: Option<ClockCommand>)
        requires
            old(self).wf(),
        ensures
            final(self).wf(),
            !old(self).auto_adjust ==> *final(self) == *old(self) && cmd is None,
            old(self).auto_adjust ==> {
                &&& final(self).frame_count == old(self).frame_count + 1
                &&& final(self).total_frame_time_us == saturated_total(old(self).total_frame_time_us, frame_time_us)
                &&& final(self).running == old(self).running
                &&& final(self).vehicle_counts == old(self).vehicle_counts
            },
            old(self).auto_adjust && old(self).frame_count + 1 < CALIBRATION_FRAMES ==> {
                &&& final(self).auto_adjust
                &&& final(self).update_interval_ms == old(self).update_interval_ms
                &&& final(self).ticker == old(self).ticker
                &&& cmd is None
            },
            old(self).auto_adjust && old(self).frame_count + 1 >= CALIBRATION_FRAMES ==> {
                let interval = calibrated_interval(saturated_total(old(self).total_frame_time_us, frame_time_us) as int);
                &&& !final(self).auto_adjust
                &&& final(self).update_interval_ms == interval
                &&& if interval != old(self).update_interval_ms && old(self).running {
                    &&& final(self).ticker == u64_specs::wrapping_add(old(self).ticker, 1)
                    &&& cmd == Some(ClockCommand::Replace {
                        cancel: old(self).ticker,
                        ticker: final(self).ticker,
                        interval_ms: interval,
                    })
                } else {
                    &&& final(self).ticker == old(self).ticker
                    &&& cmd is None
                }
            },
            final(self).running == old(self).running,
    {
        if !self.auto_adjust {
            return None;
        }
        self.total_frame_time_us = if frame_time_us > u64::MAX - self.total_frame_time_us {
            u64::MAX
        } else {
            self.total_frame_time_us + frame_time_us
        };
        self.frame_count = self.frame_count + 1;
        if self.frame_count < CALIBRATION_FRAMES {
            return None;
        }
        self.auto_adjust = false;
        let interval = if self.total_frame_time_us > FRAME_COST_LIMIT_US * CALIBRATION_FRAMES as u64 {
            SLOW_INTERVAL_MS
        } else {
            FAST_INTERVAL_MS
        };
        if interval == self.update_interval_ms {
            None
        } else {
            self.set_tick_interval(interval)
        }
    }

    /// Recounts the fleet of `state` by kind.
    pub fn update_vehicle_counts(&mut self, state: &SimulationState)
        ensures
            final(self).vehicle_counts == counts_of(state.vehicles@),
            *final(self) == (SimulationControl { vehicle_counts: final(self).vehicle_counts, ..*old(self) }),
    {
        self.vehicle_counts = state.vehicle_counts();
    }
}

/// Tick interval for a frame rate chosen by the user: `1000 / fps`
/// milliseconds, or about 30 frames per second for a rate of zero.
pub fn interval_for_fps(fps: u32) -> (ms: u32)
    ensures
        ms == (if fps > 0 { 1000u32 / fps } else { SLOW_INTERVAL_MS }),
{
    if fps > 0 {
        1000 / fps
    } else {
        SLOW_INTERVAL_MS
    }
}

/// Frame rate shown for a tick interval: `1000 / interval`, or 30 for an
/// interval of zero.
pub fn fps_for_interval(interval_ms: u32) -> (fps: u32)
    ensures
        fps == (if interval_ms > 0 { 1000u32 / interval_ms } else { 30u32 }),
{
    if interval_ms > 0 {
        1000 / interval_ms
    } else {
        30
    }
}

/// The fleet counts as of the last tick or recount.
pub fn get_vehicle_counts(control: &SimulationControl) -> (c: VehicleCounts)
    ensures
        c == control.vehicle_counts,
{
    control.vehicle_counts
}

pub open spec fn toggle_message(paused: bool) -> Seq<char> {
    if paused {
        "Pausing simulation"@
    } else {
        "Resuming simulation"@
    }
}

/// Pauses a running simulation or resumes a paused one; returns the log line
/// that reports it, if lines of that kind are written.
pub fn toggle_simulation(state: &mut SimulationState, config: &LogConfig) -> (line: Option<String>)
    ensures
        final(state).is_paused == !old(state).is_paused,
        final(state).routes == old(state).routes,
        final(state).vehicles == old(state).vehicles,
        final(state).animation_frame_id == old(state).animation_frame_id,
        final(state).source_generation == old(state).source_generation,
        outcome(
            *config,
            LogLevel::Info,
            LogCategory::Simulation,
            Some("toggle_simulation"@),
            toggle_message(final(state).is_paused),
            line,
        ),
{
    let logger = ContextLogger::new("toggle_simulation", LogCategory::Simulation);
    let paused = state.toggle_paused();
    if paused {
        logger.info(config, "Pausing simulation")
    } else {
        logger.info(config, "Resuming simulation")
    }
}

} // verus!
