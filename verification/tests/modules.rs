use ferrite::config::{Config, IconsConfig, MemFormat, TimeFmt};
use ferrite::icons::Icons;
use ferrite::modules::bluetooth::{btctl_block, snapshot as bt_snapshot, BtDevice, BtObject};
use ferrite::modules::brightness;
use ferrite::modules::cpu::{cpu_block, cpu_pct, read_jiffies, stat_numbers, CpuMeter};
use ferrite::modules::date::{date_block, date_format, localize_months, produce as date_produce, DateParts};
use ferrite::modules::disk::{battery_block, disk_block, format_time, BatterySample, DiskUsage};
use ferrite::modules::lang::{lang_block, shorten};
use ferrite::modules::load::{human_uptime, produce as load_produce};
use ferrite::modules::mem::{meminfo, produce as mem_produce};
use ferrite::modules::mpris::{build_text, snapshot as mpris_snapshot, PlayerInfo};
use ferrite::modules::net::{build as net_build, dev_bytes, ip4, iw_link, physical_interfaces, NetEntry, NetLink};
use ferrite::modules::packages::{pending, produce as packages_produce};
use ferrite::modules::temp::{temp_block, zone_path, produce as temp_produce};
use ferrite::modules::volume::produce as volume_produce;
use ferrite::modules::vpn::{vpn_block, VpnLink};
use ferrite::modules::{at_least, module_kind, ModuleKind};
use ferrite::state::NameMap;

fn bare_icons() -> Icons {
    let cfg = IconsConfig {
        pack: "none".to_owned(),
        overrides: NameMap::new(),
    };
    Icons::build(&cfg, NameMap::new())
}

fn nerd_icons() -> Icons {
    Icons::build(&IconsConfig::default(), NameMap::new())
}

// --- mem -------------------------------------------------------------------

const MEMINFO: &str = "MemTotal:       16000000 kB\nMemFree:         1000000 kB\nMemAvailable:    8000000 kB\n";

#[test]
fn meminfo_reads_total_and_available() {
    assert_eq!(meminfo(MEMINFO), Some((16000000, 8000000)));
    assert_eq!(meminfo("MemTotal: 100 kB\n"), Some((100, 0)));
    assert_eq!(meminfo("MemFree: 100 kB\n"), None);
    assert_eq!(meminfo("MemTotal: lots\n"), None);
}

#[test]
fn mem_block_shows_used_and_total() {
    let mut cfg = Config::default();
    let b = mem_produce(&cfg, &bare_icons(), MEMINFO).unwrap();
    assert_eq!(b.full_text, "7.6G");
    cfg.modules.mem.format = MemFormat::UsedTotal;
    let b = mem_produce(&cfg, &bare_icons(), MEMINFO).unwrap();
    assert_eq!(b.full_text, "7.6G/15.3G");
    cfg.modules.mem.icon = "M".to_owned();
    let b = mem_produce(&cfg, &nerd_icons(), MEMINFO).unwrap();
    assert_eq!(b.full_text, "M 7.6G/15.3G");
    assert!(mem_produce(&cfg, &bare_icons(), "").is_none());
}

// --- load ------------------------------------------------------------------

#[test]
fn uptime_keeps_the_largest_units() {
    assert_eq!(human_uptime(0), "0m");
    assert_eq!(human_uptime(59), "0m");
    assert_eq!(human_uptime(3600 + 120), "1h 2m");
    assert_eq!(human_uptime(2 * 86_400 + 3 * 3600 + 4 * 60), "2d 3h 4m");
    assert_eq!(human_uptime(86_400), "1d 0h 0m");
}

#[test]
fn load_block_joins_load_and_uptime() {
    let b = load_produce("0.52 0.58 0.59 1/123 4567\n", 3720).unwrap();
    assert_eq!(b.full_text, "0.52  up 1h 2m");
    assert!(load_produce("", 5).is_none());
}

// --- temp ------------------------------------------------------------------

#[test]
fn temp_block_truncates_and_turns_urgent_at_critical() {
    let cfg = Config::default();
    let b = temp_block(&cfg, &bare_icons(), 45_500);
    assert_eq!(b.full_text, "45°C");
    assert!(!b.urgent);
    assert_eq!(b.color, None);
    let b = temp_block(&cfg, &bare_icons(), 75_000);
    assert!(b.urgent);
    assert_eq!(b.color.as_deref(), Some("#f38ba8"));
    let b = temp_block(&cfg, &bare_icons(), -1_500);
    assert_eq!(b.full_text, "-1°C");
    assert!(temp_produce(&cfg, &bare_icons(), "warm").is_none());
    assert_eq!(temp_produce(&cfg, &bare_icons(), "51000\n").unwrap().full_text, "51°C");
}

#[test]
fn zone_path_picks_the_first_thermal_zone() {
    let mut cfg = Config::default();
    let entries = vec!["thermal_zone1".to_owned(), "cooling_device0".to_owned(), "thermal_zone0".to_owned()];
    assert_eq!(zone_path(&cfg, &entries).as_deref(), Some("/sys/class/thermal/thermal_zone0/temp"));
    assert_eq!(zone_path(&cfg, &["cooling_device0".to_owned()]), None);
    cfg.modules.temp.zone = "/tmp/t".to_owned();
    assert_eq!(zone_path(&cfg, &entries).as_deref(), Some("/tmp/t"));
}

// --- volume ----------------------------------------------------------------

#[test]
fn volume_shows_level_or_mute() {
    let cfg = Config::default();
    let b = volume_produce(&cfg, &nerd_icons(), "false\n", "42\n").unwrap();
    assert_eq!(b.full_text, "\u{F027} 42%");
    let b = volume_produce(&cfg, &bare_icons(), "true", "42").unwrap();
    assert_eq!(b.full_text, "Mute");
    assert_eq!(b.color.as_deref(), Some("#fab387"));
    assert!(volume_produce(&cfg, &bare_icons(), "true", "loud").is_none());
    let b = volume_produce(&cfg, &nerd_icons(), "false", "5").unwrap();
    assert_eq!(b.full_text, "\u{F026} 5%");
    let b = volume_produce(&cfg, &nerd_icons(), "false", "70").unwrap();
    assert_eq!(b.full_text, "\u{F028} 70%");
}

// --- packages ----------------------------------------------------------------

#[test]
fn packages_count_non_blank_lines() {
    assert_eq!(pending("a 1 -> 2\n\n   \nb 3 -> 4\n"), 2);
    assert_eq!(pending(""), 0);
    let cfg = Config::default();
    let b = packages_produce(&cfg, &bare_icons(), "a\nb\n");
    assert_eq!(b.full_text, "2");
    assert_eq!(b.name.as_deref(), Some("packages"));
    let b = packages_produce(&cfg, &bare_icons(), "\n");
    assert_eq!(b.full_text, "");
    assert_eq!(b.name, None);
    let mut shown = Config::default();
    shown.modules.packages.hide_when_zero = false;
    assert_eq!(packages_produce(&shown, &bare_icons(), "").full_text, "0");
}

// --- vpn -----------------------------------------------------------------------

fn link(name: &str, operstate: &str, carrier: &str) -> VpnLink {
    VpnLink {
        name: name.to_owned(),
        operstate: operstate.to_owned(),
        carrier: carrier.to_owned(),
    }
}

#[test]
fn vpn_counts_matching_links_that_are_up() {
    let mut cfg = Config::default();
    let one = vec![link("wg0", "unknown", "1"), link("eth0", "up", "1"), link("tun0", "down", "0")];
    let b = vpn_block(&cfg, &bare_icons(), &one);
    assert_eq!(b.full_text, "On");
    assert_eq!(b.name.as_deref(), Some("vpn"));
    let two = vec![link("zt1", "up", ""), link("wg0", "unknown", "1")];
    assert_eq!(vpn_block(&cfg, &bare_icons(), &two).full_text, "On ×2");
    let none = vec![link("eth0", "up", "1")];
    assert_eq!(vpn_block(&cfg, &bare_icons(), &none).full_text, "");
    cfg.modules.vpn.show_when_off = true;
    assert_eq!(vpn_block(&cfg, &bare_icons(), &none).full_text, "Off");
}

// --- lang ------------------------------------------------------------------

#[test]
fn shorten_upper_cases_the_prefix() {
    assert_eq!(shorten("us", 2), "US");
    assert_eq!(shorten("English (US)", 0), "English (US)");
    assert_eq!(shorten("de", 5), "DE");
    assert_eq!(shorten("straße", 6), "STRASS");
}

#[test]
fn first_reported_layout_wins_else_fallback() {
    let cfg = Config::default();
    let b = lang_block(&cfg, &nerd_icons(), &[None, Some("russian".to_owned()), Some("us".to_owned())]);
    assert_eq!(b.full_text, "RU");
    assert_eq!(b.name.as_deref(), Some("lang"));
    let b = lang_block(&cfg, &nerd_icons(), &[None]);
    assert_eq!(b.full_text, "KB");
}

// --- brightness -------------------------------------------------------------

#[test]
fn brightness_needs_a_positive_maximum() {
    assert!(brightness::produce(&bare_icons(), 0, 50).is_none());
    assert_eq!(brightness::produce(&bare_icons(), 100, 50).unwrap().full_text, "50%");
    let b = brightness::produce(&nerd_icons(), 100, 10).unwrap();
    assert_eq!(b.full_text, "\u{F00DE} 10%");
    let cfg = Config::default();
    assert_eq!(
        brightness::device_dir(&cfg, &["intel_backlight".to_owned()]).as_deref(),
        Some("/sys/class/backlight/intel_backlight")
    );
    assert_eq!(brightness::device_dir(&cfg, &[]), None);
}

// --- date ------------------------------------------------------------------

#[test]
fn months_are_localized_for_ru() {
    assert_eq!(localize_months("26 June"), "26 июня");
    assert_eq!(localize_months("May 1, March 2"), "мая 1, марта 2");
    assert_eq!(localize_months("12:30"), "12:30");
    assert_eq!(date_block("26 June", "en").full_text, "26 June");
    assert_eq!(date_block("26 June", "ru").full_text, "26 июня");
}

fn epoch_plus(hour: u8, minute: u8, offset_seconds: i32) -> DateParts {
    DateParts { year: 1970, month: 1, day: 1, hour, minute, second: 0, nanosecond: 0, offset_seconds }
}

#[test]
fn date_format_falls_back_on_a_bad_description() {
    let (fd, rejected) = date_format("[year]-[month]-[day]");
    assert!(!rejected);
    let b = date_produce(&epoch_plus(0, 0, 0), &fd.unwrap(), "en").unwrap();
    assert_eq!(b.full_text, "1970-01-01");
    let (fd, rejected) = date_format("[bogus");
    assert!(rejected);
    let b = date_produce(&epoch_plus(7, 5, 0), &fd.unwrap(), "en").unwrap();
    assert_eq!(b.full_text, "07:05");
    let (fd, _) = date_format("[day] [month repr:long]");
    let b = date_produce(&epoch_plus(0, 0, 0), &fd.unwrap(), "ru").unwrap();
    assert_eq!(b.full_text, "01 января");
}

#[test]
fn date_parts_and_offset_are_formatted() {
    let (fd, _) = date_format("[hour]:[minute] [offset_hour sign:mandatory]");
    let fd = fd.unwrap();
    assert_eq!(date_produce(&epoch_plus(23, 30, 3600), &fd, "en").unwrap().full_text, "23:30 +01");
    let june = DateParts { year: 2024, month: 6, day: 26, hour: 9, minute: 0, second: 0, nanosecond: 0, offset_seconds: 0 };
    let (long, _) = date_format("[day] [month repr:long]");
    assert_eq!(date_produce(&june, &long.unwrap(), "ru").unwrap().full_text, "26 июня");
    let bad = DateParts { month: 13, ..june };
    assert!(date_produce(&bad, &fd, "en").is_none());
    let bad_day = DateParts { year: 2023, month: 2, day: 29, ..epoch_plus(0, 0, 0) };
    assert!(date_produce(&bad_day, &fd, "en").is_none());
}

// --- registry ---------------------------------------------------------------

#[test]
fn layout_names_map_to_modules() {
    assert_eq!(module_kind("cpu"), Some(ModuleKind::Cpu));
    assert_eq!(module_kind("bat"), Some(ModuleKind::Battery));
    assert_eq!(module_kind("bt"), Some(ModuleKind::Bluetooth));
    assert_eq!(module_kind("nope"), None);
    assert_eq!(at_least(10, 50), 50);
    assert_eq!(at_least(1000, 50), 1000);
}

// --- cpu -------------------------------------------------------------------

#[test]
fn cpu_usage_between_samples() {
    let f = stat_numbers("cpu  10 20 30 40 50 60 70 80 0 0\ncpu0 1 2 3 4 5 6 7 8 0 0\n").unwrap();
    assert_eq!(f, vec![10, 20, 30, 40, 50, 60, 70, 80, 0, 0]);
    assert_eq!(read_jiffies(&f), (360, 270));
    assert_eq!(cpu_pct((100, 50), (300, 100)), Some(25));
    assert_eq!(cpu_pct((100, 50), (100, 60)), None);
    assert!(stat_numbers("").is_none());
    let mut m = CpuMeter { prev: None };
    assert_eq!(m.tick((100, 50)), None);
    assert_eq!(m.tick((300, 150)), Some(50));
    assert_eq!(m.prev, Some((300, 150)));
    let cfg = Config::default();
    assert_eq!(cpu_block(&cfg, &nerd_icons(), 25).full_text, "\u{F2DB} 25%");
}

// --- battery and disk ---------------------------------------------------------

fn sample(status: &str) -> BatterySample {
    BatterySample {
        status: status.to_owned(),
        capacity: None,
        energy_now: None,
        energy_full: None,
        charge_now: None,
        charge_full: None,
        power_now: None,
        current_now: None,
    }
}

#[test]
fn battery_low_and_discharging_is_urgent() {
    let cfg = Config::default();
    let mut s = sample("Discharging");
    s.capacity = Some(12);
    let b = battery_block(&cfg, &bare_icons(), &s).unwrap();
    assert_eq!(b.full_text, "12%");
    assert!(b.urgent);
    assert_eq!(b.color.as_deref(), Some("#f38ba8"));
    s.capacity = Some(25);
    let b = battery_block(&cfg, &bare_icons(), &s).unwrap();
    assert!(!b.urgent);
    assert_eq!(b.color.as_deref(), Some("#f9e2af"));
    s.status = "Full".to_owned();
    let b = battery_block(&cfg, &bare_icons(), &s).unwrap();
    assert_eq!(b.color, None);
    assert!(battery_block(&cfg, &bare_icons(), &sample("Unknown")).is_none());
}

#[test]
fn battery_percentage_and_time_left() {
    let mut cfg = Config::default();
    cfg.modules.battery.show_time = true;
    let mut s = sample("Discharging");
    s.capacity = Some(60);
    s.power_now = Some(10_000_000);
    s.energy_now = Some(20_000_000);
    s.energy_full = Some(50_000_000);
    assert_eq!(battery_block(&cfg, &bare_icons(), &s).unwrap().full_text, "60% 2h0");
    s.status = "Charging".to_owned();
    cfg.modules.battery.time_format = TimeFmt::HM;
    assert_eq!(battery_block(&cfg, &bare_icons(), &s).unwrap().full_text, "60% 3:00");
    let mut e = sample("Unknown");
    e.energy_now = Some(40_000_000);
    e.energy_full = Some(80_000_000);
    assert_eq!(battery_block(&Config::default(), &bare_icons(), &e).unwrap().full_text, "50%");
}

#[test]
fn time_formats() {
    assert_eq!(format_time(2, 15, TimeFmt::Auto), "2h15");
    assert_eq!(format_time(0, 45, TimeFmt::Auto), "45m");
    assert_eq!(format_time(1, 5, TimeFmt::HM), "1:05");
}

#[test]
fn disk_block_joins_mounts() {
    let us = vec![
        DiskUsage { mount: "/".to_owned(), total: 4_000_000_000, avail: 2_389_387_264, pct: 42 },
        DiskUsage { mount: "/home".to_owned(), total: 100, avail: 612, pct: 1 },
    ];
    assert_eq!(disk_block(&us).unwrap().full_text, "/ 1.5G (42%)  /home 0B (1%)");
    assert_eq!(ferrite::modules::disk::used_bytes(10, 4), 6);
    assert!(disk_block(&[]).is_none());
}

// --- bluetooth ---------------------------------------------------------------

#[test]
fn bluetooth_snapshot_prefers_a_connected_device() {
    let objs = vec![
        BtObject { adapter_powered: Some(true), device: None },
        BtObject {
            adapter_powered: None,
            device: Some(BtDevice { connected: true, name: Some("WH-1000XM4 Headphones".to_owned()) }),
        },
    ];
    let b = bt_snapshot(&objs, &bare_icons()).unwrap();
    assert_eq!(b.full_text, "WH-1000XM4 Hea…");
    assert_eq!(b.name.as_deref(), Some("bt"));
    let on = vec![BtObject { adapter_powered: Some(true), device: None }];
    assert_eq!(bt_snapshot(&on, &bare_icons()).unwrap().full_text, "On");
    let off = vec![BtObject { adapter_powered: Some(false), device: None }];
    assert_eq!(bt_snapshot(&off, &nerd_icons()).unwrap().full_text, "\u{F00B2}");
    assert!(bt_snapshot(&[], &bare_icons()).is_none());
}

#[test]
fn bluetoothctl_show_output() {
    let b = btctl_block("Controller 00:11:22 (public)\n\tPowered: yes\n", &bare_icons()).unwrap();
    assert_eq!(b.full_text, "On");
    let b = btctl_block("Controller 00:11:22 (public)\n\tPowered: no\n", &nerd_icons()).unwrap();
    assert_eq!(b.full_text, "\u{F00B2}");
    assert!(btctl_block("No default controller available\n", &bare_icons()).is_none());
}

// --- mpris ---------------------------------------------------------------------

fn player(status: &str, artist: &str, title: &str) -> PlayerInfo {
    PlayerInfo { status: status.to_owned(), title: title.to_owned(), artist: artist.to_owned() }
}

#[test]
fn now_playing_text_and_choice() {
    let cfg = Config::default();
    assert_eq!(build_text(&player("Playing", "Band", " Song "), &cfg), "Band - Song");
    assert_eq!(build_text(&player("Playing", "", "Solo"), &cfg), "Solo");
    assert_eq!(
        build_text(&player("Playing", "A Very Long Band Name", "And Title"), &cfg),
        "A Very Long Band Name -…"
    );
    let ps = vec![player("Paused", "X", "x"), player("Playing", "Y", "y")];
    let b = mpris_snapshot(&ps, &cfg, &bare_icons()).unwrap();
    assert_eq!(b.full_text, "Y - y");
    assert_eq!(b.name.as_deref(), Some("mpris"));
    assert!(mpris_snapshot(&[player("Paused", "X", "x")], &cfg, &bare_icons()).is_none());
    assert!(mpris_snapshot(&[], &cfg, &bare_icons()).is_none());
}

// --- net -------------------------------------------------------------------------

#[test]
fn proc_net_dev_counters() {
    let text = "Inter-|   Receive |  Transmit\n face |bytes packets|bytes packets\n    lo: 5 1 0 0 0 0 0 0 5 1 0 0 0 0 0 0\n  eth0: 1000 2 0 0 0 0 0 0 3000 4 0 0 0 0 0 0\n";
    assert_eq!(dev_bytes("eth0", text), Some((1000, 3000)));
    assert_eq!(dev_bytes("wlan0", text), None);
}

#[test]
fn iw_and_ip_output() {
    let iw = "Connected to aa:bb:cc (on wlan0)\n\tSSID: \"home\"\n\tfreq: 2412\n\tsignal: -52 dBm\n";
    assert_eq!(iw_link(iw), ("home".to_owned(), Some(-52)));
    assert_eq!(iw_link("Not connected.\n"), (String::new(), None));
    let ip = "3: wlan0    inet 192.168.1.5/24 brd 192.168.1.255 scope global wlan0\\       valid_lft forever\n";
    assert_eq!(ip4(ip).as_deref(), Some("192.168.1.5"));
    assert_eq!(ip4(""), None);
}

#[test]
fn net_block_joins_wanted_links() {
    let cfg = Config::default();
    let wired = NetLink {
        dev: "eth0".to_owned(),
        wireless: false,
        rate_down: 2048,
        rate_up: 10,
        ip: "10.0.0.2".to_owned(),
        ssid: String::new(),
        signal: None,
    };
    let b = net_build(&cfg, &bare_icons(), &[wired]).unwrap();
    assert_eq!(b.full_text, "eth0  10.0.0.2  ↓2K/s ↑0B/s");
    assert_eq!(b.color, None);
    let wifi = NetLink {
        dev: "wlan0".to_owned(),
        wireless: true,
        rate_down: 0,
        rate_up: 0,
        ip: String::new(),
        ssid: "home".to_owned(),
        signal: Some(-52),
    };
    let b = net_build(&cfg, &bare_icons(), &[wifi]).unwrap();
    assert_eq!(b.full_text, "home  80%  ↓0B/s ↑0B/s");
    assert_eq!(b.color.as_deref(), Some("#cdd6f4"));
    assert!(net_build(&cfg, &bare_icons(), &[]).is_none());
}

#[test]
fn physical_links_that_are_up_sorted() {
    let e = |name: &str, op: &str, carrier: Option<i64>, dev: Option<&str>, wireless: bool| NetEntry {
        name: name.to_owned(),
        operstate: op.to_owned(),
        carrier,
        device: dev.map(|d| d.to_owned()),
        wireless,
    };
    let entries = vec![
        e("wlan0", "up", Some(1), Some("/sys/devices/pci0000:00/0000:00:14.3"), true),
        e("lo", "unknown", Some(1), None, false),
        e("docker0", "up", Some(1), Some("/sys/devices/virtual/net/docker0"), false),
        e("eth0", "down", Some(1), Some("/sys/devices/pci0000:00/0000:00:1f.6"), false),
        e("enp3s0", "down", Some(0), Some("/sys/devices/pci0000:00/0000:03:00.0"), false),
    ];
    assert_eq!(
        physical_interfaces(&entries),
        vec![("eth0".to_owned(), false), ("wlan0".to_owned(), true)]
    );
}

#[test]
fn signal_percentage_is_clamped() {
    let cfg = Config::default();
    let wifi = |dbm: i64| NetLink {
        dev: "wlan0".to_owned(),
        wireless: true,
        rate_down: 0,
        rate_up: 0,
        ip: String::new(),
        ssid: String::new(),
        signal: Some(dbm),
    };
    let text = |dbm: i64| net_build(&cfg, &bare_icons(), &[wifi(dbm)]).unwrap().full_text;
    assert_eq!(text(-120), "0%  ↓0B/s ↑0B/s");
    assert_eq!(text(-100), "0%  ↓0B/s ↑0B/s");
    assert_eq!(text(-70), "50%  ↓0B/s ↑0B/s");
    assert_eq!(text(-40), "100%  ↓0B/s ↑0B/s");
    assert_eq!(text(-20), "100%  ↓0B/s ↑0B/s");
    let weak = net_build(&cfg, &bare_icons(), &[wifi(-90)]).unwrap();
    assert_eq!(weak.color.as_deref(), Some("#f9e2af"));
}

#[test]
fn fully_busy_interval_is_one_hundred_percent() {
    let f0 = stat_numbers("cpu 10 0 0 5 0 0 0 0\n").unwrap();
    let f1 = stat_numbers("cpu 20 0 0 5 0 0 0 0\n").unwrap();
    let p = cpu_pct(read_jiffies(&f0), read_jiffies(&f1));
    assert_eq!(p, Some(100));
    let f2 = stat_numbers("cpu 21 0 0 8 0 0 0 0\n").unwrap();
    assert_eq!(cpu_pct(read_jiffies(&f1), read_jiffies(&f2)), Some(25));
}

#[test]
fn address_is_shown_only_when_configured() {
    let mut cfg = Config::default();
    let wired = || NetLink {
        dev: "eth0".to_owned(),
        wireless: false,
        rate_down: 0,
        rate_up: 0,
        ip: "10.0.0.2".to_owned(),
        ssid: String::new(),
        signal: None,
    };
    cfg.modules.net.show_rate = false;
    assert_eq!(net_build(&cfg, &bare_icons(), &[wired()]).unwrap().full_text, "eth0  10.0.0.2");
    cfg.modules.net.show_ip = false;
    assert_eq!(net_build(&cfg, &bare_icons(), &[wired()]).unwrap().full_text, "eth0");
}
