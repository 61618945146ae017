//! Settings of the monitor.

use vstd::prelude::*;

verus! {

/// Shortest refresh interval that a caller can ask for, in milliseconds.
pub const MIN_REFRESH_MILLIS: u32 = 250;

/// Longest refresh interval that a caller can ask for, in milliseconds.
pub const MAX_REFRESH_MILLIS: u32 = 5000;

/// Settings of the monitor.
#[derive(Debug)]
pub struct Config {
    /// Time between two ticks, in milliseconds.
    pub refresh_rate: u32,
    /// Name of the colour theme.
    pub theme: String,
    pub gpu_enabled: bool,
    pub compact_mode: bool,
    pub show_graphs: bool,
    /// Number of samples that a graph shows.
    pub graph_history: usize,
}

/// The name of the theme that is used where none is chosen.
pub open spec fn default_theme_name() -> Seq<char> {
    seq!['h', 'a', 'c', 'k', 'e', 'r']
}

/// An interval held within the shortest and the longest that can be asked for.
pub open spec fn clamped_refresh(millis: u32) -> u32 {
    if millis < MIN_REFRESH_MILLIS {
        MIN_REFRESH_MILLIS
    } else if millis > MAX_REFRESH_MILLIS {
        MAX_REFRESH_MILLIS
    } else {
        millis
    }
}

/// The refresh interval of a new configuration: one second.
pub fn default_refresh_rate() -> (millis: u32)
    ensures
        millis == 1000,
{
    1000
}

/// The theme of a new configuration.
pub fn default_theme() -> (name: String)
    ensures
        name@ == default_theme_name(),
{
    proof {
        reveal_strlit("hacker");
    }
    let name = String::from_str("hacker");
    assert(name@ =~= default_theme_name());
    name
}

/// The value of a switch that is on unless it is turned off.
pub fn default_true() -> (on: bool)
    ensures
        on,
{
    true
}

/// The number of samples that the graphs of a new configuration show.
pub fn default_graph_history() -> (samples: usize)
    ensures
        samples == 60,
{
    60
}

impl Config {
    /// The settings of a monitor for which nothing was chosen.
    pub open spec fn is_default(&self) -> bool {
        &&& self.refresh_rate == 1000
        &&& self.theme@ == default_theme_name()
        &&& self.gpu_enabled
        &&& !self.compact_mode
        &&& self.show_graphs
        &&& self.graph_history == 60
    }

    /// Sets the refresh interval, held within a quarter of a second and
    /// five seconds.
    pub fn with_refresh_rate(self, millis: u32) -> (config: Self)
        ensures
            config.refresh_rate == clamped_refresh(millis),
            config.theme == self.theme,
            config.gpu_enabled == self.gpu_enabled,
            config.compact_mode == self.compact_mode,
            config.show_graphs == self.show_graphs,
            config.graph_history == self.graph_history,
    {
        let mut config = self;
        config.refresh_rate = if millis < MIN_REFRESH_MILLIS {
            MIN_REFRESH_MILLIS
        } else if millis > MAX_REFRESH_MILLIS {
            MAX_REFRESH_MILLIS
        } else {
            millis
        };
        config
    }

    /// Sets the theme.
    pub fn with_theme(self, theme: &str) -> (config: Self)
        ensures
            config.theme@ == theme@,
            config.refresh_rate == self.refresh_rate,
            config.gpu_enabled == self.gpu_enabled,
            config.compact_mode == self.compact_mode,
            config.show_graphs == self.show_graphs,
            config.graph_history == self.graph_history,
    {
        let mut config = self;
        config.theme = String::from_str(theme);
        config
    }

    /// Turns the graphics processor collector on or off.
    pub fn with_gpu(self, enabled: bool) -> (config: Self)
        ensures
            config.gpu_enabled == enabled,
            config.refresh_rate == self.refresh_rate,
            config.theme == self.theme,
            config.compact_mode == self.compact_mode,
            config.show_graphs == self.show_graphs,
            config.graph_history == self.graph_history,
    {
        let mut config = self;
        config.gpu_enabled = enabled;
        config
    }

    /// Turns the compact display on or off.
    pub fn with_compact(self, compact: bool) -> (config: Self)
        ensures
            config.compact_mode == compact,
            config.refresh_rate == self.refresh_rate,
            config.theme == self.theme,
            config.gpu_enabled == self.gpu_enabled,
            config.show_graphs == self.show_graphs,
            config.graph_history == self.graph_history,
    {
        let mut config = self;
        config.compact_mode = compact;
        config
    }
}

impl Default for Config {
    fn default() -> (config: Self)
        ensures
            config.is_default(),
    {
        Config {
            refresh_rate: default_refresh_rate(),
            theme: default_theme(),
            gpu_enabled: true,
            compact_mode: false,
            show_graphs: true,
            graph_history: default_graph_history(),
        }
    }
}

} // verus!
