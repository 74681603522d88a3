//! How a run is paced. The timestep of the simulation is fixed by the tick
//! rate alone; how long the worker rests between two ticks is a separate
//! choice and changes no result.

use vstd::prelude::*;

verus! {

/// How the worker spaces its ticks in wall-clock time.
#[derive(Clone, Copy, Debug, PartialEq, Eq, Structural)]
pub enum Pacing {
    /// One tick after the other, without rest.
    Unpaced,
    /// A rest after every tick, of the length of one tick.
    FixedRate,
}

/// The parameters of a run.
#[derive(Clone, Copy, Debug, PartialEq, Eq, Structural)]
pub struct RunConfig {
    /// The number of ticks after which the run finishes; `None` for a run
    /// that goes on until it is cancelled.
    pub tick_budget: Option<u64>,
    /// The number of ticks that make one second of simulated time.
    pub ticks_per_second: u32,
    /// How the worker spaces its ticks.
    pub pacing: Pacing,
}

/// The whole milliseconds that the worker rests after a tick.
pub open spec fn rest_millis(config: RunConfig) -> int {
    if config.pacing == Pacing::FixedRate && config.ticks_per_second > 0 {
        1000int / (config.ticks_per_second as int)
    } else {
        0
    }
}

/// The run of the demonstration: three hundred ticks of a sixtieth of a
/// second, spaced as they would be on screen.
pub fn demo_run() -> (config: RunConfig)
    ensures
        config == (RunConfig {
            tick_budget: Some(300u64),
            ticks_per_second: 60,
            pacing: Pacing::FixedRate,
        }),
{
    RunConfig { tick_budget: Some(300), ticks_per_second: 60, pacing: Pacing::FixedRate }
}

/// The whole milliseconds that the worker rests after a tick: none when
/// unpaced, else the thousandth part of a second divided by the tick rate,
/// rounded down.
pub fn pause_millis(config: &RunConfig) -> (millis: u64)
    ensures
        millis == rest_millis(*config),
{
    match config.pacing {
        Pacing::Unpaced => 0,
        Pacing::FixedRate => {
            if config.ticks_per_second == 0 {
                0
            } else {
                1000 / (config.ticks_per_second as u64)
            }
        },
    }
}

} // verus!
