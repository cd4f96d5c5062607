use vstd::prelude::*;

verus! {

/// What a deployment chooses.
#[derive(Clone, Copy, Debug)]
pub struct Config {
    /// The largest number of entries that a sweep leaves in either index.
    pub max_entries: usize,
    /// The seconds of life granted to a record when it is cached, created or reused.
    pub live_time: u32,
    /// The seconds from one sweep to the next.
    pub sweep_interval: u32,
}

impl Default for Config {
    /// A hundred entries, a day of life, a sweep every hour.
    fn default() -> (config: Config)
        ensures
            config.max_entries == 100,
            config.live_time == 86_400,
            config.sweep_interval == 3_600,
    {
        Config { max_entries: 100, live_time: 86_400, sweep_interval: 3_600 }
    }
}

} // verus!
