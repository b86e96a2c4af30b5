//! Configuration model: the sections of `config.toml` and their defaults.
//! Parsing the TOML text into these types happens at the program's edge; the
//! defaults below are what every unset key takes.
use vstd::prelude::*;

use crate::state::NameMap;
use crate::text::{owned, strs};

verus! {

// ---------------------------------------------------------------------------
// Enums
// ---------------------------------------------------------------------------

/// Output protocol: i3bar JSON (colors, clicks, pango) or plain text.
#[derive(Clone, Copy, Debug, PartialEq, Eq, Structural)]
pub enum Protocol {
    I3bar,
    Plain,
}

/// Per-block markup: none or pango (sway supports pango).
#[derive(Clone, Copy, Debug, PartialEq, Eq, Structural)]
pub enum Markup {
    /// No markup (`"none"` in the config file).
    NoMarkup,
    Pango,
}

/// Bluetooth backend: event-driven D-Bus, or a throttled `bluetoothctl` poll.
#[derive(Clone, Copy, Debug, PartialEq, Eq, Structural)]
pub enum BtBackend {
    Dbus,
    Bluetoothctl,
}

/// Wireless signal presentation.
#[derive(Clone, Copy, Debug, PartialEq, Eq, Structural)]
pub enum SignalFmt {
    Percent,
    Dbm,
}

/// Which kinds of network interface the `net` block shows.
#[derive(Clone, Copy, Debug, PartialEq, Eq, Structural)]
pub enum NetKind {
    Wifi,
    Lan,
}

/// Memory block content.
#[derive(Clone, Copy, Debug, PartialEq, Eq, Structural)]
pub enum MemFormat {
    Used,
    UsedTotal,
}

/// Color palette source: literal `[colors]` values, or pywal's palette with
/// explicit `[colors]` keys overriding it.
#[derive(Clone, Copy, Debug, PartialEq, Eq, Structural)]
pub enum ColorSource {
    Static,
    Pywal,
}

/// Battery time-remaining presentation: `Auto` shows `2h15` / `45m`; `HM`
/// always shows `H:MM`.
#[derive(Clone, Copy, Debug, PartialEq, Eq, Structural)]
pub enum TimeFmt {
    Auto,
    HM,
}

impl Default for Protocol {
    fn default() -> (r: Protocol)
        ensures
            r == Protocol::I3bar,
    {
        Protocol::I3bar
    }
}

impl Default for Markup {
    fn default() -> (r: Markup)
        ensures
            r == Markup::Pango,
    {
        Markup::Pango
    }
}

impl Default for BtBackend {
    fn default() -> (r: BtBackend)
        ensures
            r == BtBackend::Dbus,
    {
        BtBackend::Dbus
    }
}

impl Default for SignalFmt {
    fn default() -> (r: SignalFmt)
        ensures
            r == SignalFmt::Percent,
    {
        SignalFmt::Percent
    }
}

impl Default for MemFormat {
    fn default() -> (r: MemFormat)
        ensures
            r == MemFormat::Used,
    {
        MemFormat::Used
    }
}

impl Default for ColorSource {
    fn default() -> (r: ColorSource)
        ensures
            r == ColorSource::Static,
    {
        ColorSource::Static
    }
}

impl Default for TimeFmt {
    fn default() -> (r: TimeFmt)
        ensures
            r == TimeFmt::Auto,
    {
        TimeFmt::Auto
    }
}

// ---------------------------------------------------------------------------
// Sections
// ---------------------------------------------------------------------------

/// `click_actions`: module name → button (`"1"`, `"3"`, ..., or `"*"` for any
/// unlisted button) → shell command.
pub type ClickActionsConfig = NameMap<NameMap<String>>;

#[derive(Debug)]
pub struct Config {
    pub bar: BarConfig,
    pub icons: IconsConfig,
    pub colors: ColorsConfig,
    pub click_actions: ClickActionsConfig,
    pub modules: ModulesConfig,
}

#[derive(Clone, Debug)]
pub struct BarConfig {
    pub render_interval_ms: u64,
    pub protocol: Protocol,
    pub markup: Markup,
    /// `{module}` placeholders interleaved with literal separator text.
    pub layout: String,
    pub default_color: String,
    pub separator_block_width: u32,
    pub click_events: bool,
}

#[derive(Debug)]
pub struct IconsConfig {
    pub pack: String,
    pub overrides: NameMap<String>,
}

/// Bar color palette. `None` is an unset field: it is filled from pywal or the
/// static palette, while an explicit value always wins.
#[derive(Clone, Debug)]
pub struct ColorsConfig {
    pub source: ColorSource,
    pub default: Option<String>,
    pub urgent: Option<String>,
    pub warn: Option<String>,
    pub good: Option<String>,
    pub mute: Option<String>,
}

#[derive(Clone, Debug)]
pub struct ModulesConfig {
    pub lang: LangConfig,
    pub net: NetConfig,
    pub bluetooth: BluetoothConfig,
    pub volume: VolumeConfig,
    pub brightness: BrightnessConfig,
    pub cpu: CpuConfig,
    pub mem: MemConfig,
    pub temp: TempConfig,
    pub battery: BatteryConfig,
    pub disk: DiskConfig,
    pub load: LoadConfig,
    pub date: DateConfig,
    pub packages: PackagesConfig,
    pub vpn: VpnConfig,
    pub mpris: MprisConfig,
}

#[derive(Clone, Debug)]
pub struct LangConfig {
    pub shorten: usize,
    pub fallback: String,
    /// Re-query interval for the active layout (sway sends no event for it).
    pub interval_ms: u64,
}

#[derive(Clone, Debug)]
pub struct NetConfig {
    pub interval_ms: u64,
    pub signal: SignalFmt,
    pub interfaces: Vec<NetKind>,
    pub show_ip: bool,
    pub show_rate: bool,
    pub rate_threshold_kb: u64,
}

#[derive(Clone, Debug)]
pub struct BluetoothConfig {
    pub interval_ms: u64,
    pub backend: BtBackend,
}

#[derive(Clone, Debug)]
pub struct VolumeConfig {
    pub interval_ms: u64,
    pub timeout_ms: u64,
}

#[derive(Clone, Debug)]
pub struct BrightnessConfig {
    pub interval_ms: u64,
    pub device: String,
}

#[derive(Clone, Debug)]
pub struct CpuConfig {
    pub interval_ms: u64,
    pub icon: String,
}

#[derive(Clone, Debug)]
pub struct MemConfig {
    pub interval_ms: u64,
    pub format: MemFormat,
    pub icon: String,
}

#[derive(Clone, Debug)]
pub struct TempConfig {
    pub interval_ms: u64,
    pub zone: String,
    pub icon: String,
    pub critical: i64,
}

#[derive(Clone, Debug)]
pub struct BatteryConfig {
    pub interval_ms: u64,
    pub device: String,
    /// Append an estimated time remaining (`79% 3:20`).
    pub show_time: bool,
    pub time_format: TimeFmt,
    /// Battery percentages (while discharging) at which the block turns
    /// `colors.warn` / `colors.urgent`.
    pub warn: i64,
    pub crit: i64,
}

#[derive(Clone, Debug)]
pub struct DiskConfig {
    pub interval_ms: u64,
    pub mounts: Vec<String>,
}

#[derive(Clone, Debug)]
pub struct LoadConfig {
    pub interval_ms: u64,
}

#[derive(Clone, Debug)]
pub struct DateConfig {
    pub interval_ms: u64,
    pub format: String,
    /// Locale for month names: `"en"` keeps them, `"ru"` uses Russian
    /// genitive forms.
    pub locale: String,
}

#[derive(Clone, Debug)]
pub struct PackagesConfig {
    pub interval_ms: u64,
    pub timeout_ms: u64,
    /// External command whose non-blank stdout lines are pending updates.
    pub command: String,
    /// Hide the block when there are no pending updates.
    pub hide_when_zero: bool,
}

#[derive(Clone, Debug)]
pub struct VpnConfig {
    pub interval_ms: u64,
    /// `/sys/class/net` name globs that count as VPN links.
    pub patterns: Vec<String>,
    /// Show an "Off" block when no VPN is up.
    pub show_when_off: bool,
}

#[derive(Clone, Debug)]
pub struct MprisConfig {
    /// Visible characters of the now-playing text (0 = no limit).
    pub max_len: usize,
    /// `{artist}` / `{title}` template.
    pub format: String,
    /// Show an idle icon when no player is playing.
    pub show_when_stopped: bool,
}

/// The text of an optional palette entry, or `fallback` when it is unset.
pub open spec fn color_or(o: Option<String>, fallback: Seq<char>) -> Seq<char> {
    match o {
        Some(s) => s@,
        None => fallback,
    }
}

impl ColorsConfig {
    pub fn default_color(&self) -> (r: &str)
        ensures
            r@ == color_or(self.default, "#cdd6f4"@),
    {
        match &self.default {
            Some(s) => s.as_str(),
            None => "#cdd6f4",
        }
    }

    pub fn urgent(&self) -> (r: &str)
        ensures
            r@ == color_or(self.urgent, "#f38ba8"@),
    {
        match &self.urgent {
            Some(s) => s.as_str(),
            None => "#f38ba8",
        }
    }

    pub fn warn(&self) -> (r: &str)
        ensures
            r@ == color_or(self.warn, "#f9e2af"@),
    {
        match &self.warn {
            Some(s) => s.as_str(),
            None => "#f9e2af",
        }
    }

    /// Reserved palette slot (no module uses it yet), settable as `[colors].good`.
    pub fn good(&self) -> (r: &str)
        ensures
            r@ == color_or(self.good, "#a6e3a1"@),
    {
        match &self.good {
            Some(s) => s.as_str(),
            None => "#a6e3a1",
        }
    }

    pub fn mute(&self) -> (r: &str)
        ensures
            r@ == color_or(self.mute, "#fab387"@),
    {
        match &self.mute {
            Some(s) => s.as_str(),
            None => "#fab387",
        }
    }
}


// ---------------------------------------------------------------------------
// Defaults
// ---------------------------------------------------------------------------

pub fn default_true() -> (r: bool)
    ensures
        r == true,
{
    true
}

pub fn default_render_interval() -> (r: u64)
    ensures
        r == 250,
{
    250
}

pub fn default_layout() -> (r: String)
    ensures
        r@ == "{lang} | {cpu} {mem} {temp} {bat} | {net} {bt} {vol} {bri} | {date}"@,
{
    owned("{lang} | {cpu} {mem} {temp} {bat} | {net} {bt} {vol} {bri} | {date}")
}

pub fn default_color() -> (r: String)
    ensures
        r@ == "#cdd6f4"@,
{
    owned("#cdd6f4")
}

pub fn default_sbw() -> (r: u32)
    ensures
        r == 0,
{
    0
}

pub fn default_click_events() -> (r: bool)
    ensures
        r == true,
{
    true
}

pub fn default_pack() -> (r: String)
    ensures
        r@ == "nerd"@,
{
    owned("nerd")
}

pub fn default_lang_shorten() -> (r: usize)
    ensures
        r == 2,
{
    2
}

pub fn default_lang_fallback() -> (r: String)
    ensures
        r@ == "KB"@,
{
    owned("KB")
}

pub fn default_lang_interval() -> (r: u64)
    ensures
        r == 1000,
{
    1000
}

pub fn default_net_interval() -> (r: u64)
    ensures
        r == 3000,
{
    3000
}

pub fn default_rate_threshold() -> (r: u64)
    ensures
        r == 1,
{
    1
}

pub fn default_bt_interval() -> (r: u64)
    ensures
        r == 5000,
{
    5000
}

pub fn default_vol_interval() -> (r: u64)
    ensures
        r == 2000,
{
    2000
}

pub fn default_vol_timeout() -> (r: u64)
    ensures
        r == 800,
{
    800
}

pub fn default_bri_interval() -> (r: u64)
    ensures
        r == 2000,
{
    2000
}

pub fn default_bri_device() -> (r: String)
    ensures
        r@ == "auto"@,
{
    owned("auto")
}

pub fn default_cpu_interval() -> (r: u64)
    ensures
        r == 1000,
{
    1000
}

pub fn default_mem_interval() -> (r: u64)
    ensures
        r == 2000,
{
    2000
}

pub fn default_temp_interval() -> (r: u64)
    ensures
        r == 2000,
{
    2000
}

pub fn default_temp_zone() -> (r: String)
    ensures
        r@ == "auto"@,
{
    owned("auto")
}

pub fn default_temp_critical() -> (r: i64)
    ensures
        r == 75,
{
    75
}

pub fn default_bat_interval() -> (r: u64)
    ensures
        r == 5000,
{
    5000
}

pub fn default_bat_device() -> (r: String)
    ensures
        r@ == "auto"@,
{
    owned("auto")
}

pub fn default_disk_interval() -> (r: u64)
    ensures
        r == 10000,
{
    10000
}

pub fn default_load_interval() -> (r: u64)
    ensures
        r == 2000,
{
    2000
}

pub fn default_date_interval() -> (r: u64)
    ensures
        r == 1000,
{
    1000
}

pub fn default_date_format() -> (r: String)
    ensures
        r@ == "[hour]:[minute] | [day] [month repr:long]"@,
{
    owned("[hour]:[minute] | [day] [month repr:long]")
}

pub fn default_date_locale() -> (r: String)
    ensures
        r@ == "en"@,
{
    owned("en")
}

pub fn default_packages_interval() -> (r: u64)
    ensures
        r == 1_800_000,
{
    1_800_000
}

pub fn default_packages_timeout() -> (r: u64)
    ensures
        r == 60_000,
{
    60_000
}

pub fn default_packages_command() -> (r: String)
    ensures
        r@ == "checkupdates"@,
{
    owned("checkupdates")
}

pub fn default_vpn_interval() -> (r: u64)
    ensures
        r == 2000,
{
    2000
}

pub fn default_mpris_max_len() -> (r: usize)
    ensures
        r == 24,
{
    24
}

pub fn default_mpris_format() -> (r: String)
    ensures
        r@ == "{artist} - {title}"@,
{
    owned("{artist} - {title}")
}

pub fn default_bat_warn() -> (r: i64)
    ensures
        r == 30,
{
    30
}

pub fn default_bat_crit() -> (r: i64)
    ensures
        r == 15,
{
    15
}

pub fn default_net_interfaces() -> (r: Vec<NetKind>)
    ensures
        r@ == seq![NetKind::Wifi, NetKind::Lan],
{
    let mut v = Vec::new();
    v.push(NetKind::Wifi);
    v.push(NetKind::Lan);
    v
}

pub fn default_mounts() -> (r: Vec<String>)
    ensures
        strs(r@) == seq!["/"@, "/home"@],
{
    let mut v = Vec::new();
    v.push(owned("/"));
    v.push(owned("/home"));
    assert(strs(v@) =~= seq!["/"@, "/home"@]);
    v
}

pub fn default_vpn_patterns() -> (r: Vec<String>)
    ensures
        strs(r@) == seq!["zt*"@, "wg*"@, "tun*"@, "tap*"@],
{
    let mut v = Vec::new();
    v.push(owned("zt*"));
    v.push(owned("wg*"));
    v.push(owned("tun*"));
    v.push(owned("tap*"));
    assert(strs(v@) =~= seq!["zt*"@, "wg*"@, "tun*"@, "tap*"@]);
    v
}


/// `c` holds the defaults of the `[bar]` table.
pub open spec fn is_default_bar(c: BarConfig) -> bool {
    &&& c.render_interval_ms == 250
    &&& c.protocol == Protocol::I3bar
    &&& c.markup == Markup::Pango
    &&& c.layout@ == "{lang} | {cpu} {mem} {temp} {bat} | {net} {bt} {vol} {bri} | {date}"@
    &&& c.default_color@ == "#cdd6f4"@
    &&& c.separator_block_width == 0
    &&& c.click_events
}

impl Default for BarConfig {
    fn default() -> (r: BarConfig)
        ensures
            is_default_bar(r),
    {
        BarConfig {
            render_interval_ms: default_render_interval(),
            protocol: Protocol::default(),
            markup: Markup::default(),
            layout: default_layout(),
            default_color: default_color(),
            separator_block_width: default_sbw(),
            click_events: default_click_events(),
        }
    }
}

/// `c` holds the defaults of the `[icons]` table.
pub open spec fn is_default_icons(c: IconsConfig) -> bool {
    &&& c.pack@ == "nerd"@
    &&& c.overrides@ == Map::<Seq<char>, String>::empty()
}

impl Default for IconsConfig {
    fn default() -> (r: IconsConfig)
        ensures
            is_default_icons(r),
    {
        IconsConfig { pack: default_pack(), overrides: NameMap::new() }
    }
}

/// `c` holds the defaults of the `[colors]` table.
pub open spec fn is_default_colors(c: ColorsConfig) -> bool {
    &&& c.source == ColorSource::Static
    &&& c.default is None
    &&& c.urgent is None
    &&& c.warn is None
    &&& c.good is None
    &&& c.mute is None
}

impl Default for ColorsConfig {
    fn default() -> (r: ColorsConfig)
        ensures
            is_default_colors(r),
    {
        ColorsConfig {
            source: ColorSource::default(),
            default: None,
            urgent: None,
            warn: None,
            good: None,
            mute: None,
        }
    }
}

/// `c` holds the defaults of the `[modules.lang]` table.
pub open spec fn is_default_lang(c: LangConfig) -> bool {
    &&& c.shorten == 2
    &&& c.fallback@ == "KB"@
    &&& c.interval_ms == 1000
}

impl Default for LangConfig {
    fn default() -> (r: LangConfig)
        ensures
            is_default_lang(r),
    {
        LangConfig {
            shorten: default_lang_shorten(),
            fallback: default_lang_fallback(),
            interval_ms: default_lang_interval(),
        }
    }
}

/// `c` holds the defaults of the `[modules.net]` table.
pub open spec fn is_default_net(c: NetConfig) -> bool {
    &&& c.interval_ms == 3000
    &&& c.signal == SignalFmt::Percent
    &&& c.interfaces@ == seq![NetKind::Wifi, NetKind::Lan]
    &&& c.show_ip
    &&& c.show_rate
    &&& c.rate_threshold_kb == 1
}

impl Default for NetConfig {
    fn default() -> (r: NetConfig)
        ensures
            is_default_net(r),
    {
        NetConfig {
            interval_ms: default_net_interval(),
            signal: SignalFmt::Percent,
            interfaces: default_net_interfaces(),
            show_ip: true,
            show_rate: true,
            rate_threshold_kb: default_rate_threshold(),
        }
    }
}

/// `c` holds the defaults of the `[modules.bluetooth]` table.
pub open spec fn is_default_bluetooth(c: BluetoothConfig) -> bool {
    &&& c.interval_ms == 5000
    &&& c.backend == BtBackend::Dbus
}

impl Default for BluetoothConfig {
    fn default() -> (r: BluetoothConfig)
        ensures
            is_default_bluetooth(r),
    {
        BluetoothConfig { interval_ms: default_bt_interval(), backend: BtBackend::Dbus }
    }
}

/// `c` holds the defaults of the `[modules.volume]` table.
pub open spec fn is_default_volume(c: VolumeConfig) -> bool {
    &&& c.interval_ms == 2000
    &&& c.timeout_ms == 800
}

impl Default for VolumeConfig {
    fn default() -> (r: VolumeConfig)
        ensures
            is_default_volume(r),
    {
        VolumeConfig { interval_ms: default_vol_interval(), timeout_ms: default_vol_timeout() }
    }
}

/// `c` holds the defaults of the `[modules.brightness]` table.
pub open spec fn is_default_brightness(c: BrightnessConfig) -> bool {
    &&& c.interval_ms == 2000
    &&& c.device@ == "auto"@
}

impl Default for BrightnessConfig {
    fn default() -> (r: BrightnessConfig)
        ensures
            is_default_brightness(r),
    {
        BrightnessConfig { interval_ms: default_bri_interval(), device: default_bri_device() }
    }
}

/// `c` holds the defaults of the `[modules.cpu]` table.
pub open spec fn is_default_cpu(c: CpuConfig) -> bool {
    &&& c.interval_ms == 1000
    &&& c.icon@ == Seq::<char>::empty()
}

impl Default for CpuConfig {
    fn default() -> (r: CpuConfig)
        ensures
            is_default_cpu(r),
    {
        CpuConfig { interval_ms: default_cpu_interval(), icon: String::new() }
    }
}

/// `c` holds the defaults of the `[modules.mem]` table.
pub open spec fn is_default_mem(c: MemConfig) -> bool {
    &&& c.interval_ms == 2000
    &&& c.format == MemFormat::Used
    &&& c.icon@ == Seq::<char>::empty()
}

impl Default for MemConfig {
    fn default() -> (r: MemConfig)
        ensures
            is_default_mem(r),
    {
        MemConfig { interval_ms: default_mem_interval(), format: MemFormat::Used, icon: String::new() }
    }
}

/// `c` holds the defaults of the `[modules.temp]` table.
pub open spec fn is_default_temp(c: TempConfig) -> bool {
    &&& c.interval_ms == 2000
    &&& c.zone@ == "auto"@
    &&& c.icon@ == Seq::<char>::empty()
    &&& c.critical == 75
}

impl Default for TempConfig {
    fn default() -> (r: TempConfig)
        ensures
            is_default_temp(r),
    {
        TempConfig {
            interval_ms: default_temp_interval(),
            zone: default_temp_zone(),
            icon: String::new(),
            critical: default_temp_critical(),
        }
    }
}

/// `c` holds the defaults of the `[modules.battery]` table.
pub open spec fn is_default_battery(c: BatteryConfig) -> bool {
    &&& c.interval_ms == 5000
    &&& c.device@ == "auto"@
    &&& !c.show_time
    &&& c.time_format == TimeFmt::Auto
    &&& c.warn == 30
    &&& c.crit == 15
}

impl Default for BatteryConfig {
    fn default() -> (r: BatteryConfig)
        ensures
            is_default_battery(r),
    {
        BatteryConfig {
            interval_ms: default_bat_interval(),
            device: default_bat_device(),
            show_time: false,
            time_format: TimeFmt::Auto,
            warn: default_bat_warn(),
            crit: default_bat_crit(),
        }
    }
}

/// `c` holds the defaults of the `[modules.disk]` table.
pub open spec fn is_default_disk(c: DiskConfig) -> bool {
    &&& c.interval_ms == 10000
    &&& strs(c.mounts@) == seq!["/"@, "/home"@]
}

impl Default for DiskConfig {
    fn default() -> (r: DiskConfig)
        ensures
            is_default_disk(r),
    {
        DiskConfig { interval_ms: default_disk_interval(), mounts: default_mounts() }
    }
}

/// `c` holds the defaults of the `[modules.load]` table.
pub open spec fn is_default_load(c: LoadConfig) -> bool {
    &&& c.interval_ms == 2000
}

impl Default for LoadConfig {
    fn default() -> (r: LoadConfig)
        ensures
            is_default_load(r),
    {
        LoadConfig { interval_ms: default_load_interval() }
    }
}

/// `c` holds the defaults of the `[modules.date]` table.
pub open spec fn is_default_date(c: DateConfig) -> bool {
    &&& c.interval_ms == 1000
    &&& c.format@ == "[hour]:[minute] | [day] [month repr:long]"@
    &&& c.locale@ == "en"@
}

impl Default for DateConfig {
    fn default() -> (r: DateConfig)
        ensures
            is_default_date(r),
    {
        DateConfig {
            interval_ms: default_date_interval(),
            format: default_date_format(),
            locale: default_date_locale(),
        }
    }
}

/// `c` holds the defaults of the `[modules.packages]` table.
pub open spec fn is_default_packages(c: PackagesConfig) -> bool {
    &&& c.interval_ms == 1_800_000
    &&& c.timeout_ms == 60_000
    &&& c.command@ == "checkupdates"@
    &&& c.hide_when_zero
}

impl Default for PackagesConfig {
    fn default() -> (r: PackagesConfig)
        ensures
            is_default_packages(r),
    {
        PackagesConfig {
            interval_ms: default_packages_interval(),
            timeout_ms: default_packages_timeout(),
            command: default_packages_command(),
            hide_when_zero: true,
        }
    }
}

/// `c` holds the defaults of the `[modules.vpn]` table.
pub open spec fn is_default_vpn(c: VpnConfig) -> bool {
    &&& c.interval_ms == 2000
    &&& strs(c.patterns@) == seq!["zt*"@, "wg*"@, "tun*"@, "tap*"@]
    &&& !c.show_when_off
}

impl Default for VpnConfig {
    fn default() -> (r: VpnConfig)
        ensures
            is_default_vpn(r),
    {
        VpnConfig {
            interval_ms: default_vpn_interval(),
            patterns: default_vpn_patterns(),
            show_when_off: false,
        }
    }
}

/// `c` holds the defaults of the `[modules.mpris]` table.
pub open spec fn is_default_mpris(c: MprisConfig) -> bool {
    &&& c.max_len == 24
    &&& c.format@ == "{artist} - {title}"@
    &&& !c.show_when_stopped
}

impl Default for MprisConfig {
    fn default() -> (r: MprisConfig)
        ensures
            is_default_mpris(r),
    {
        MprisConfig {
            max_len: default_mpris_max_len(),
            format: default_mpris_format(),
            show_when_stopped: false,
        }
    }
}

/// Every module table of `c` holds its defaults.
pub open spec fn is_default_modules(c: ModulesConfig) -> bool {
    &&& is_default_lang(c.lang)
    &&& is_default_net(c.net)
    &&& is_default_bluetooth(c.bluetooth)
    &&& is_default_volume(c.volume)
    &&& is_default_brightness(c.brightness)
    &&& is_default_cpu(c.cpu)
    &&& is_default_mem(c.mem)
    &&& is_default_temp(c.temp)
    &&& is_default_battery(c.battery)
    &&& is_default_disk(c.disk)
    &&& is_default_load(c.load)
    &&& is_default_date(c.date)
    &&& is_default_packages(c.packages)
    &&& is_default_vpn(c.vpn)
    &&& is_default_mpris(c.mpris)
}

impl Default for ModulesConfig {
    fn default() -> (r: ModulesConfig)
        ensures
            is_default_modules(r),
    {
        ModulesConfig {
            lang: LangConfig::default(),
            net: NetConfig::default(),
            bluetooth: BluetoothConfig::default(),
            volume: VolumeConfig::default(),
            brightness: BrightnessConfig::default(),
            cpu: CpuConfig::default(),
            mem: MemConfig::default(),
            temp: TempConfig::default(),
            battery: BatteryConfig::default(),
            disk: DiskConfig::default(),
            load: LoadConfig::default(),
            date: DateConfig::default(),
            packages: PackagesConfig::default(),
            vpn: VpnConfig::default(),
            mpris: MprisConfig::default(),
        }
    }
}

/// The configuration of an empty `config.toml`: every section at its default.
impl Default for Config {
    fn default() -> (r: Config)
        ensures
            is_default_bar(r.bar),
            is_default_icons(r.icons),
            is_default_colors(r.colors),
            r.click_actions@ == Map::<Seq<char>, NameMap<String>>::empty(),
            is_default_modules(r.modules),
    {
        Config {
            bar: BarConfig::default(),
            icons: IconsConfig::default(),
            colors: ColorsConfig::default(),
            click_actions: NameMap::new(),
            modules: ModulesConfig::default(),
        }
    }
}

} // verus!
