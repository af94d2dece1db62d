use vstd::prelude::*;

verus! {

/// The refresh interval, in milliseconds, when the configuration names none.
pub const DEFAULT_INTERVAL_MS: u64 = 5000;

/// The pause, in milliseconds, after the first refresh: rates and loads
/// need two readings, so the second comes soon after the first.
pub const FIRST_PAUSE_MS: u64 = 1100;

/// The least maximum throughput, in bytes per second, when `net.floor` is
/// not given.
pub const DEFAULT_NET_FLOOR: u64 = 2097152;

/// The whole configuration of the module. A monitor whose section is absent
/// is not shown. (The scaling of network throughput is floating point and
/// stays with the program that draws the bars.)
pub struct Config {
    pub interval_ms: u64,
    pub cpu: Option<ConfigCpu>,
    pub mem: Option<ConfigMem>,
    pub net: Option<ConfigNet>,
    pub temp: Option<ConfigTemp>,
}

/// The CPU monitor: `show` holds `max_core`, `avg_core` and `all_cores`.
pub struct ConfigCpu {
    pub label: String,
    pub show: Vec<String>,
}

/// The memory monitor: `show` holds `mem` and `swap`.
pub struct ConfigMem {
    pub label: String,
    pub show: Vec<String>,
}

/// The network monitor: `show` holds regexes of interface names.
pub struct ConfigNet {
    pub label: String,
    pub show: Vec<String>,
    pub floor: Option<u64>,
}

/// The temperature monitor: `show` holds exact sensor names, `show_max`
/// regexes whose matching sensors are shown as one bar of their maximum.
pub struct ConfigTemp {
    pub label: String,
    pub show: Option<Vec<String>>,
    pub show_max: Option<Vec<String>>,
}

impl ConfigCpu {
    /// The label of the CPU monitor when none is configured.
    pub fn default_label() -> (s: String)
        ensures
            s@ == "cpu"@,
    {
        String::from_str("cpu")
    }
}

impl ConfigMem {
    /// The label of the memory monitor when none is configured.
    pub fn default_label() -> (s: String)
        ensures
            s@ == "mem"@,
    {
        String::from_str("mem")
    }
}

impl ConfigNet {
    /// The label of the network monitor when none is configured.
    pub fn default_label() -> (s: String)
        ensures
            s@ == "net"@,
    {
        String::from_str("net")
    }

    /// The floor of the network maximum: the configured one, else
    /// `DEFAULT_NET_FLOOR`.
    pub fn floor_or_default(&self) -> (f: u64)
        ensures
            f == net_floor(self.floor),
    {
        match self.floor {
            Some(f) => f,
            None => DEFAULT_NET_FLOOR,
        }
    }
}

/// The floor that a network monitor configured with `floor` uses.
pub open spec fn net_floor(floor: Option<u64>) -> u64 {
    match floor {
        Some(f) => f,
        None => DEFAULT_NET_FLOOR,
    }
}

impl ConfigTemp {
    /// The label of the temperature monitor when none is configured.
    pub fn default_label() -> (s: String)
        ensures
            s@ == "temp"@,
    {
        String::from_str("temp")
    }
}

/// The pause, in ms, after refresh number `round` (from 1): a short first
/// pause, since rates need two readings, then the configured interval.
pub fn pause_after_refresh_ms(config: &Config, round: u64) -> (ms: u64)
    ensures
        ms == (if round <= 1 {
            FIRST_PAUSE_MS
        } else {
            config.interval_ms
        }),
{
    if round <= 1 {
        FIRST_PAUSE_MS
    } else {
        config.interval_ms
    }
}

/// Whether the widgets are shown again after the pause that follows
/// refresh number `round` (from 1): after every pause but the first.
pub fn show_all_after_pause(round: u64) -> (b: bool)
    ensures
        b == (round >= 2),
{
    round >= 2
}

/// A list that may be absent, read as empty when it is.
pub open spec fn or_empty(list: Option<Vec<String>>) -> Seq<Seq<char>> {
    match list {
        Some(v) => v.deep_view(),
        None => Seq::empty(),
    }
}

} // verus!
