//! Identity of the system and its uptime.

use vstd::prelude::*;
use crate::text::{decimal, push_decimal};

verus! {

/// The facts about the system that are read when the collector is built.
/// A name that the operating system does not give is `None`.
#[derive(Debug)]
pub struct SystemReading {
    pub os_name: Option<String>,
    pub os_version: Option<String>,
    pub kernel_version: Option<String>,
    pub hostname: Option<String>,
    /// Seconds since the system started.
    pub uptime_secs: u64,
}

/// Identity of the system and its uptime.
#[derive(Debug)]
pub struct SystemData {
    pub os_name: String,
    pub os_version: String,
    pub kernel_version: String,
    pub hostname: String,
    pub uptime_secs: u64,
}

/// Collector for the system's identity and uptime.
pub struct SystemCollector {
    pub data: SystemData,
}

/// The name shown for an operating system that gives none.
pub open spec fn unknown_os() -> Seq<char> {
    seq!['U', 'n', 'k', 'n', 'o', 'w', 'n']
}

/// The name shown for a host that gives none.
pub open spec fn default_hostname() -> Seq<char> {
    seq!['l', 'o', 'c', 'a', 'l', 'h', 'o', 's', 't']
}

/// A name as read, or `fallback` where none was given.
pub open spec fn name_or(name: Option<String>, fallback: Seq<char>) -> Seq<char> {
    match name {
        Some(s) => s@,
        None => fallback,
    }
}

/// The text that shows an uptime of `secs` seconds: days, hours and minutes,
/// without the leading units that are zero.
pub open spec fn uptime_text(secs: nat) -> Seq<char> {
    let days = secs / 86400;
    let hours = (secs % 86400) / 3600;
    let mins = (secs % 3600) / 60;
    if days > 0 {
        decimal(days) + seq!['d', ' '] + decimal(hours) + seq!['h', ' '] + decimal(mins)
            + seq!['m']
    } else if hours > 0 {
        decimal(hours) + seq!['h', ' '] + decimal(mins) + seq!['m']
    } else {
        decimal(mins) + seq!['m']
    }
}

/// A name as read, or the text `fallback`.
fn name_or_text(name: Option<String>, fallback: &str) -> (text: String)
    ensures
        text@ == name_or(name, fallback@),
{
    match name {
        Some(s) => s,
        None => String::from_str(fallback),
    }
}

impl SystemCollector {
    /// What one call of `collect` does: the uptime is the one read, and the
    /// identity of the system stays.
    pub open spec fn tick(pre: SystemCollector, post: SystemCollector, uptime_secs: u64) -> bool {
        &&& post.data.uptime_secs == uptime_secs
        &&& post.data.os_name == pre.data.os_name
        &&& post.data.os_version == pre.data.os_version
        &&& post.data.kernel_version == pre.data.kernel_version
        &&& post.data.hostname == pre.data.hostname
    }

    /// What `new` builds: the facts as read, with `Unknown` for a missing
    /// system name, `localhost` for a missing host name and nothing for a
    /// missing version.
    pub open spec fn fresh(collector: SystemCollector, reading: SystemReading) -> bool {
        &&& collector.data.os_name@ == name_or(reading.os_name, unknown_os())
        &&& collector.data.os_version@ == name_or(reading.os_version, Seq::empty())
        &&& collector.data.kernel_version@ == name_or(reading.kernel_version, Seq::empty())
        &&& collector.data.hostname@ == name_or(reading.hostname, default_hostname())
        &&& collector.data.uptime_secs == reading.uptime_secs
    }

    /// Builds the collector from the facts read once at start.
    pub fn new(reading: SystemReading) -> (collector: Self)
        ensures
            SystemCollector::fresh(collector, reading),
    {
        proof {
            reveal_strlit("Unknown");
            reveal_strlit("localhost");
            reveal_strlit("");
            assert("Unknown"@ =~= unknown_os());
            assert("localhost"@ =~= default_hostname());
            assert(""@ =~= Seq::<char>::empty());
        }
        SystemCollector {
            data: SystemData {
                os_name: name_or_text(reading.os_name, "Unknown"),
                os_version: name_or_text(reading.os_version, ""),
                kernel_version: name_or_text(reading.kernel_version, ""),
                hostname: name_or_text(reading.hostname, "localhost"),
                uptime_secs: reading.uptime_secs,
            },
        }
    }

    /// Takes over one tick: the uptime as read, never derived.
    pub fn collect(&mut self, uptime_secs: u64)
        ensures
            SystemCollector::tick(*old(self), *final(self), uptime_secs),
    {
        self.data.uptime_secs = uptime_secs;
    }
}

/// Shows an uptime in days, hours and minutes: `3d 4h 5m`, `4h 5m`, `5m`.
pub fn format_uptime(secs: u64) -> (text: String)
    ensures
        text@ == uptime_text(secs as nat),
{
    let days: u64 = secs / 86400;
    let hours: u64 = (secs % 86400) / 3600;
    let mins: u64 = (secs % 3600) / 60;
    proof {
        reveal_strlit("d ");
        reveal_strlit("h ");
        reveal_strlit("m");
        assert("d "@ =~= seq!['d', ' ']);
        assert("h "@ =~= seq!['h', ' ']);
        assert("m"@ =~= seq!['m']);
    }
    let mut text = String::new();
    if days > 0 {
        push_decimal(&mut text, days as u128);
        text.append("d ");
    }
    if days > 0 || hours > 0 {
        push_decimal(&mut text, hours as u128);
        text.append("h ");
    }
    push_decimal(&mut text, mins as u128);
    text.append("m");
    assert(text@ =~= uptime_text(secs as nat));
    text
}

} // verus!
