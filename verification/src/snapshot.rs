//! The snapshot: the immutable record of collected host facts, one per
//! invocation.
//!
//! Every fact is gathered independently; a fact that cannot be
//! determined degrades to its sentinel or is omitted, and never stops
//! the others.  The user name, distribution name and architecture come
//! from the operating system through trusted `whoami` wrappers; the
//! battery readings are raw file lines handed in by the caller, so
//! that the library itself stays free of file handling.

use vstd::prelude::*;
use crate::battery::get_battery_percentage;
use crate::battery::spec_battery_field;
use crate::clock::get_current_time;
use crate::clock::spec_clock;
use crate::memory::get_memory_usage;
use crate::memory::spec_memory_field;

verus! {

/// The host facts of one invocation.  Optional fields are wholly
/// present or wholly absent, fixed by the configuration.
pub struct SystemSnapshot {
    pub time: String,
    pub user: String,
    pub distro: Option<String>,
    pub arch: Option<String>,
    pub memory: String,
    pub battery: Option<String>,
}

/// The mathematical shape of a snapshot: each field as a character
/// sequence.
pub struct SnapshotView {
    pub time: Seq<char>,
    pub user: Seq<char>,
    pub distro: Option<Seq<char>>,
    pub arch: Option<Seq<char>>,
    pub memory: Seq<char>,
    pub battery: Option<Seq<char>>,
}

impl View for SystemSnapshot {
    type V = SnapshotView;

    open spec fn view(&self) -> SnapshotView {
        SnapshotView {
            time: self.time@,
            user: self.user@,
            distro: self.distro.deep_view(),
            arch: self.arch.deep_view(),
            memory: self.memory@,
            battery: self.battery.deep_view(),
        }
    }
}

/// Relies on `whoami::username`: returns the name of the user owning
/// the process, falling back to a fixed placeholder name when the
/// account cannot be determined; it does not fail.  The value depends
/// on the host, so nothing is promised of it.
#[verifier::external_body]
fn os_username() -> String {
    whoami::username()
}

/// Relies on `whoami::distro`: returns a human-readable name of the
/// operating system distribution, falling back to a fixed placeholder
/// when it cannot be determined.  The value depends on the host, so
/// nothing is promised of it.
#[verifier::external_body]
fn os_distro() -> String {
    whoami::distro()
}

/// Relies on `whoami::arch` and the `Display` rendering of its
/// architecture value: a short instruction-set architecture name such
/// as `"x86_64"`.  The value depends on the host, so nothing is
/// promised of it.
#[verifier::external_body]
fn os_arch() -> String {
    whoami::arch().to_string()
}

/// Gathers one snapshot.  `battery_readings` holds the raw first lines
/// of the candidate battery sources in their fixed order (`None` for a
/// source that could not be read); they are consulted only when the
/// battery is not suppressed.
pub fn collect_system_info(skip_battery: bool, minimal: bool, battery_readings: &Vec<
    Option<String>,
>) -> (info: SystemSnapshot)
    ensures
        info@.distro is Some <==> !minimal,
        info@.arch is Some <==> !minimal,
        info@.battery is Some <==> !skip_battery,
        !skip_battery ==> info@.battery == Some(
            spec_battery_field(battery_readings.deep_view()),
        ),
        exists|h: u8, m: u8| h < 24 && m < 60 && info@.time == spec_clock(h as nat, m as nat),
        exists|used: u64, total: u64| info@.memory == spec_memory_field(used, total),
{
    let time = get_current_time();
    let user = os_username();
    let distro = if minimal {
        None
    } else {
        Some(os_distro())
    };
    let arch = if minimal {
        None
    } else {
        Some(os_arch())
    };
    let memory = get_memory_usage();
    let battery = if skip_battery {
        None
    } else {
        Some(get_battery_percentage(battery_readings))
    };
    SystemSnapshot { time, user, distro, arch, memory, battery }
}

} // verus!
