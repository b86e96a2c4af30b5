//! The compute side of each bar module: parsing what the module reads and
//! composing its block. This file also holds the registry that maps the
//! module names of the layout to modules, and the timer floors.
use vstd::prelude::*;

use crate::text::str_eq;

pub mod net;
pub mod disk;
pub mod bluetooth;
pub mod mpris;
pub mod cpu;
pub mod mem;
pub mod load;
pub mod temp;
pub mod volume;
pub mod packages;
pub mod vpn;
pub mod lang;
pub mod brightness;
pub mod date;

verus! {

/// The modules a layout can name.
#[derive(Clone, Copy, Debug, PartialEq, Eq, Structural)]
pub enum ModuleKind {
    Lang,
    Net,
    Bluetooth,
    Volume,
    Brightness,
    Cpu,
    Mem,
    Temp,
    Battery,
    Load,
    Disk,
    Date,
    Packages,
    Vpn,
    Mpris,
}

/// The module a layout name stands for.
pub open spec fn kind_of(name: Seq<char>) -> Option<ModuleKind> {
    if name == "lang"@ {
        Some(ModuleKind::Lang)
    } else if name == "net"@ {
        Some(ModuleKind::Net)
    } else if name == "bt"@ {
        Some(ModuleKind::Bluetooth)
    } else if name == "vol"@ {
        Some(ModuleKind::Volume)
    } else if name == "bri"@ {
        Some(ModuleKind::Brightness)
    } else if name == "cpu"@ {
        Some(ModuleKind::Cpu)
    } else if name == "mem"@ {
        Some(ModuleKind::Mem)
    } else if name == "temp"@ {
        Some(ModuleKind::Temp)
    } else if name == "bat"@ {
        Some(ModuleKind::Battery)
    } else if name == "load"@ {
        Some(ModuleKind::Load)
    } else if name == "disk"@ {
        Some(ModuleKind::Disk)
    } else if name == "date"@ {
        Some(ModuleKind::Date)
    } else if name == "packages"@ {
        Some(ModuleKind::Packages)
    } else if name == "vpn"@ {
        Some(ModuleKind::Vpn)
    } else if name == "mpris"@ {
        Some(ModuleKind::Mpris)
    } else {
        None
    }
}

/// The module a layout name stands for; nothing for an unknown name (the
/// layout then simply has no block for it).
pub fn module_kind(name: &str) -> (r: Option<ModuleKind>)
    ensures
        r == kind_of(name@),
{
    if str_eq(name, "lang") {
        Some(ModuleKind::Lang)
    } else if str_eq(name, "net") {
        Some(ModuleKind::Net)
    } else if str_eq(name, "bt") {
        Some(ModuleKind::Bluetooth)
    } else if str_eq(name, "vol") {
        Some(ModuleKind::Volume)
    } else if str_eq(name, "bri") {
        Some(ModuleKind::Brightness)
    } else if str_eq(name, "cpu") {
        Some(ModuleKind::Cpu)
    } else if str_eq(name, "mem") {
        Some(ModuleKind::Mem)
    } else if str_eq(name, "temp") {
        Some(ModuleKind::Temp)
    } else if str_eq(name, "bat") {
        Some(ModuleKind::Battery)
    } else if str_eq(name, "load") {
        Some(ModuleKind::Load)
    } else if str_eq(name, "disk") {
        Some(ModuleKind::Disk)
    } else if str_eq(name, "date") {
        Some(ModuleKind::Date)
    } else if str_eq(name, "packages") {
        Some(ModuleKind::Packages)
    } else if str_eq(name, "vpn") {
        Some(ModuleKind::Vpn)
    } else if str_eq(name, "mpris") {
        Some(ModuleKind::Mpris)
    } else {
        None
    }
}

/// The shortest poll interval and helper timeout, in milliseconds, so that a
/// misconfigured timer can never spin.
pub const POLL_FLOOR_MS: u64 = 50;

/// The shortest interval between two layout queries, in milliseconds.
pub const LANG_FLOOR_MS: u64 = 250;

/// `ms`, raised to `floor` when below it.
pub fn at_least(ms: u64, floor: u64) -> (r: u64)
    ensures
        r >= floor,
        r >= ms,
        r == ms || r == floor,
{
    if ms >= floor {
        ms
    } else {
        floor
    }
}

} // verus!
