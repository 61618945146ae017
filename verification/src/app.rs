//! State of the running monitor and the decisions of its event loop.

use vstd::prelude::*;
use crate::collectors::metrics::counter_delta;
use crate::collectors::{Collectors, Inventory, TickReadings};
use crate::config::Config;
use crate::themes::{find_theme, theme_index_of, theme_name, theme_name_text, THEME_COUNT};

verus! {

/// Time for which a status message is shown, in nanoseconds.
pub const STATUS_NANOS: u64 = 3_000_000_000;

/// Margin, in milliseconds, by which a step must differ from the current
/// refresh interval to count as the next one.
pub const STEP_MARGIN_MILLIS: u32 = 10;

/// Shortest refresh interval that the keys can set, in milliseconds.
pub const FASTEST_REFRESH_MILLIS: u32 = 250;

/// Longest refresh interval that the keys can set, in milliseconds.
pub const SLOWEST_REFRESH_MILLIS: u32 = 10_000;

/// A key that was pressed, as far as the monitor tells keys apart.
#[derive(Clone, Copy, Debug, PartialEq, Eq)]
pub enum Key {
    Char(char),
    /// A function key with its number.
    F(u8),
    Esc,
    Other,
}

/// What the host has to do after a key was handled.
#[derive(Clone, Copy, Debug, PartialEq, Eq)]
pub enum Command {
    /// Nothing.
    Continue,
    /// Read the system now and call `force_refresh`.
    Refresh,
    /// Write the configuration and call `save_config` with the outcome.
    Save,
}

/// How an attempt to write the configuration ended.
#[derive(Debug)]
pub enum SaveOutcome {
    /// Written to the file with this path.
    SavedTo(String),
    /// Written, to a place that has no path to show.
    Saved,
    /// Not written, for this reason.
    Failed(String),
}

/// State of the running monitor.
pub struct App {
    pub config: Config,
    pub collectors: Collectors,
    /// Place of the current theme among the themes.
    pub theme_index: usize,
    pub should_quit: bool,
    pub show_help: bool,
    pub status_message: Option<String>,
    /// Time at which the status message was set, in nanoseconds.
    pub status_message_time: Option<u64>,
}

/// The step that follows `current`, in milliseconds, among the refresh
/// intervals that the keys go through: the first that is more than the
/// margin above it, or the longest.
pub open spec fn slower_step(current: u32) -> u32 {
    if 250 > current + STEP_MARGIN_MILLIS {
        250
    } else if 500 > current + STEP_MARGIN_MILLIS {
        500
    } else if 1000 > current + STEP_MARGIN_MILLIS {
        1000
    } else if 1500 > current + STEP_MARGIN_MILLIS {
        1500
    } else if 2000 > current + STEP_MARGIN_MILLIS {
        2000
    } else if 3000 > current + STEP_MARGIN_MILLIS {
        3000
    } else if 5000 > current + STEP_MARGIN_MILLIS {
        5000
    } else {
        10_000
    }
}

/// The step before `current`, in milliseconds: the last that is more than
/// the margin below it, or the shortest.
pub open spec fn faster_step(current: u32) -> u32 {
    if 10_000 < current - STEP_MARGIN_MILLIS {
        10_000
    } else if 5000 < current - STEP_MARGIN_MILLIS {
        5000
    } else if 3000 < current - STEP_MARGIN_MILLIS {
        3000
    } else if 2000 < current - STEP_MARGIN_MILLIS {
        2000
    } else if 1500 < current - STEP_MARGIN_MILLIS {
        1500
    } else if 1000 < current - STEP_MARGIN_MILLIS {
        1000
    } else if 500 < current - STEP_MARGIN_MILLIS {
        500
    } else {
        250
    }
}

/// The message that reports how saving the configuration ended.
pub open spec fn save_message(outcome: SaveOutcome) -> Seq<char> {
    match outcome {
        SaveOutcome::SavedTo(path) => "\u{2713} Saved to "@ + path@,
        SaveOutcome::Saved => "\u{2713} Config saved!"@,
        SaveOutcome::Failed(reason) => "\u{2717} Save failed: "@ + reason@,
    }
}

/// Whether a status message set at `since` has been shown long enough at `now`.
pub open spec fn status_expired(since: u64, now: u64) -> bool {
    counter_delta(since as nat, now as nat) >= STATUS_NANOS
}

/// Whether the key quits the monitor.
pub open spec fn is_quit_key(key: Key) -> bool {
    key == Key::Char('q') || key == Key::Char('Q')
}

/// Whether the key changes the theme.
pub open spec fn is_theme_key(key: Key) -> bool {
    key == Key::Char('t') || key == Key::Char('T')
}

/// Whether the key asks for an immediate refresh.
pub open spec fn is_refresh_key(key: Key) -> bool {
    key == Key::Char('r') || key == Key::Char('R')
}

/// Whether the key shows or hides the help.
pub open spec fn is_help_key(key: Key) -> bool {
    key == Key::Char('h') || key == Key::Char('H') || key == Key::Char('?') || key == Key::F(1)
}

/// Whether the key makes the monitor refresh more often.
pub open spec fn is_faster_key(key: Key) -> bool {
    key == Key::Char('+') || key == Key::Char('=')
}

/// Whether the key makes the monitor refresh less often.
pub open spec fn is_slower_key(key: Key) -> bool {
    key == Key::Char('-') || key == Key::Char('_')
}

/// Whether the key saves the configuration.
pub open spec fn is_save_key(key: Key) -> bool {
    key == Key::Char('s') || key == Key::Char('S')
}

/// The refresh interval after the step to a slower one.
pub fn next_slower(current: u32) -> (millis: u32)
    ensures
        millis == slower_step(current),
{
    if current < 240 {
        250
    } else if current < 490 {
        500
    } else if current < 990 {
        1000
    } else if current < 1490 {
        1500
    } else if current < 1990 {
        2000
    } else if current < 2990 {
        3000
    } else if current < 4990 {
        5000
    } else {
        SLOWEST_REFRESH_MILLIS
    }
}

/// The refresh interval after the step to a faster one.
pub fn next_faster(current: u32) -> (millis: u32)
    ensures
        millis == faster_step(current),
{
    if current > 10_010 {
        10_000
    } else if current > 5010 {
        5000
    } else if current > 3010 {
        3000
    } else if current > 2010 {
        2000
    } else if current > 1510 {
        1500
    } else if current > 1010 {
        1000
    } else if current > 510 {
        500
    } else {
        FASTEST_REFRESH_MILLIS
    }
}

impl App {
    /// What `clear_expired_status` does to the status message: it goes once
    /// it has been shown long enough, and stays until then.
    pub open spec fn status_kept_or_cleared(pre: App, post: App, now: u64) -> bool {
        match pre.status_message_time {
            Some(since) => if status_expired(since, now) {
                post.status_message is None && post.status_message_time is None
            } else {
                post.status_message == pre.status_message && post.status_message_time
                    == pre.status_message_time
            },
            None => post.status_message == pre.status_message && post.status_message_time is None,
        }
    }

    /// What `handle_key` does to the state and what it asks of the host.
    pub open spec fn key_handled(pre: App, post: App, key: Key, command: Command) -> bool {
        &&& post.collectors == pre.collectors
        &&& post.status_message == pre.status_message
        &&& post.status_message_time == pre.status_message_time
        &&& post.config.gpu_enabled == pre.config.gpu_enabled
        &&& post.config.compact_mode == pre.config.compact_mode
        &&& post.config.show_graphs == pre.config.show_graphs
        &&& post.config.graph_history == pre.config.graph_history
        &&& post.should_quit == (pre.should_quit || is_quit_key(key) || (key == Key::Esc
            && !pre.show_help))
        &&& post.show_help == if is_help_key(key) {
            !pre.show_help
        } else if key == Key::Esc {
            false
        } else {
            pre.show_help
        }
        &&& post.theme_index == if is_theme_key(key) {
            (pre.theme_index + 1) % 9
        } else {
            pre.theme_index as int
        }
        &&& if is_theme_key(key) {
            post.config.theme@ == theme_name_text(post.theme_index as int)
        } else {
            post.config.theme == pre.config.theme
        }
        &&& post.config.refresh_rate == if is_faster_key(key) {
            faster_step(pre.config.refresh_rate)
        } else if is_slower_key(key) {
            slower_step(pre.config.refresh_rate)
        } else {
            pre.config.refresh_rate
        }
        &&& command == if is_refresh_key(key) {
            Command::Refresh
        } else if is_save_key(key) {
            Command::Save
        } else {
            Command::Continue
        }
    }

    /// Builds the state at time `now`, in nanoseconds: the collectors from
    /// what was read at start, and the theme that the configuration names,
    /// or the default theme where it names none that exists.
    pub fn new(config: Config, inventory: Inventory, now: u64) -> (app: Self)
        ensures
            app.config == config,
            Collectors::fresh(app.collectors, inventory, now),
            app.theme_index == theme_index_of(config.theme@),
            app.theme_index < THEME_COUNT,
            !app.should_quit,
            !app.show_help,
            app.status_message is None,
            app.status_message_time is None,
    {
        let theme_index = find_theme(config.theme.as_str());
        let collectors = Collectors::new(&config, inventory, now);
        App {
            config,
            collectors,
            theme_index,
            should_quit: false,
            show_help: false,
            status_message: None,
            status_message_time: None,
        }
    }

    /// Advances every collector by one tick.
    pub fn update(&mut self, readings: &TickReadings, now: u64)
        ensures
            Collectors::tick(old(self).collectors, final(self).collectors, *readings, now),
            final(self).config == old(self).config,
            final(self).theme_index == old(self).theme_index,
            final(self).should_quit == old(self).should_quit,
            final(self).show_help == old(self).show_help,
            final(self).status_message == old(self).status_message,
            final(self).status_message_time == old(self).status_message_time,
    {
        self.collectors.update(readings, now);
    }

    /// Advances every collector at once, outside the rhythm of the ticks.
    pub fn force_refresh(&mut self, readings: &TickReadings, now: u64)
        ensures
            Collectors::tick(old(self).collectors, final(self).collectors, *readings, now),
            final(self).config == old(self).config,
            final(self).theme_index == old(self).theme_index,
            final(self).should_quit == old(self).should_quit,
            final(self).show_help == old(self).show_help,
            final(self).status_message == old(self).status_message,
            final(self).status_message_time == old(self).status_message_time,
    {
        self.update(readings, now);
    }

    /// Goes to the next theme, and from the last to the first. The
    /// configuration names the new theme.
    pub fn cycle_theme(&mut self)
        ensures
            App::key_handled(*old(self), *final(self), Key::Char('t'), Command::Continue),
    {
        self.theme_index = (self.theme_index % THEME_COUNT + 1) % THEME_COUNT;
        self.config.theme = String::from_str(theme_name(self.theme_index));
    }

    /// Shows the help if it is hidden and hides it if it is shown.
    pub fn toggle_help(&mut self)
        ensures
            App::key_handled(*old(self), *final(self), Key::Char('h'), Command::Continue),
    {
        self.show_help = !self.show_help;
    }

    /// Makes the monitor refresh less often: the refresh interval goes to
    /// the next longer step.
    pub fn increase_refresh_rate(&mut self)
        ensures
            App::key_handled(*old(self), *final(self), Key::Char('-'), Command::Continue),
    {
        self.config.refresh_rate = next_slower(self.config.refresh_rate);
    }

    /// Makes the monitor refresh more often: the refresh interval goes to
    /// the next shorter step.
    pub fn decrease_refresh_rate(&mut self)
        ensures
            App::key_handled(*old(self), *final(self), Key::Char('+'), Command::Continue),
    {
        self.config.refresh_rate = next_faster(self.config.refresh_rate);
    }

    /// Reports at time `now` how saving the configuration ended.
    pub fn save_config(&mut self, outcome: SaveOutcome, now: u64)
        ensures
            final(self).status_message matches Some(text) && text@ == save_message(outcome),
            final(self).status_message_time == Some(now),
            final(self).config == old(self).config,
            final(self).collectors == old(self).collectors,
            final(self).theme_index == old(self).theme_index,
            final(self).should_quit == old(self).should_quit,
            final(self).show_help == old(self).show_help,
    {
        let text: String = match outcome {
            SaveOutcome::SavedTo(path) => {
                let mut text = String::from_str("\u{2713} Saved to ");
                text.append(path.as_str());
                text
            },
            SaveOutcome::Saved => String::from_str("\u{2713} Config saved!"),
            SaveOutcome::Failed(reason) => {
                let mut text = String::from_str("\u{2717} Save failed: ");
                text.append(reason.as_str());
                text
            },
        };
        self.status_message = Some(text);
        self.status_message_time = Some(now);
    }

    /// Takes the status message away once it has been shown for three seconds.
    pub fn clear_expired_status(&mut self, now: u64)
        ensures
            final(self).config == old(self).config,
            final(self).collectors == old(self).collectors,
            final(self).theme_index == old(self).theme_index,
            final(self).should_quit == old(self).should_quit,
            final(self).show_help == old(self).show_help,
            App::status_kept_or_cleared(*old(self), *final(self), now),
    {
        match self.status_message_time {
            Some(since) => {
                if now >= since && now - since >= STATUS_NANOS {
                    self.status_message = None;
                    self.status_message_time = None;
                }
            },
            None => {},
        }
    }

    /// Handles one key press and says what the host has to do next.
    pub fn handle_key(&mut self, key: Key) -> (command: Command)
        ensures
            App::key_handled(*old(self), *final(self), key, command),
    {
        match key {
            Key::Char(c) => {
                if c == 'q' || c == 'Q' {
                    self.should_quit = true;
                    Command::Continue
                } else if c == 't' || c == 'T' {
                    self.cycle_theme();
                    Command::Continue
                } else if c == 'r' || c == 'R' {
                    Command::Refresh
                } else if c == 'h' || c == 'H' || c == '?' {
                    self.toggle_help();
                    Command::Continue
                } else if c == '+' || c == '=' {
                    self.decrease_refresh_rate();
                    Command::Continue
                } else if c == '-' || c == '_' {
                    self.increase_refresh_rate();
                    Command::Continue
                } else if c == 's' || c == 'S' {
                    Command::Save
                } else {
                    Command::Continue
                }
            },
            Key::F(n) => {
                if n == 1 {
                    self.toggle_help();
                }
                Command::Continue
            },
            Key::Esc => {
                if self.show_help {
                    self.show_help = false;
                } else {
                    self.should_quit = true;
                }
                Command::Continue
            },
            Key::Other => Command::Continue,
        }
    }

    /// Whether a tick is due when `elapsed_nanos` nanoseconds have passed
    /// since the last one.
    pub fn tick_due(&self, elapsed_nanos: u64) -> (due: bool)
        ensures
            due == (elapsed_nanos >= self.config.refresh_rate * 1_000_000),
    {
        elapsed_nanos >= (self.config.refresh_rate as u64) * 1_000_000
    }

    /// How long the host may wait for a key, in nanoseconds, when
    /// `elapsed_nanos` nanoseconds have passed since the last tick: the rest
    /// of the refresh interval.
    pub fn poll_timeout(&self, elapsed_nanos: u64) -> (nanos: u64)
        ensures
            nanos == counter_delta(
                elapsed_nanos as nat,
                (self.config.refresh_rate * 1_000_000) as nat,
            ),
    {
        let interval: u64 = (self.config.refresh_rate as u64) * 1_000_000;
        if interval >= elapsed_nanos {
            interval - elapsed_nanos
        } else {
            0
        }
    }
}

} // verus!
