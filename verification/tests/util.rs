use ferrite::icons::{pack_map, Icons};
use ferrite::config::IconsConfig;
use ferrite::state::NameMap;
use ferrite::util::{glob_class, glob_match, human_bytes, human_rate, read_first_line, read_int, read_milli};

#[test]
fn human_bytes_exact_values() {
    assert_eq!(human_bytes(0), "0B");
    assert_eq!(human_bytes(1023), "1023B");
    assert_eq!(human_bytes(1024), "1K");
    assert_eq!(human_bytes(1280), "1.2K");
    assert_eq!(human_bytes(1536), "1.5K");
    assert_eq!(human_bytes(1_048_576), "1M");
    assert_eq!(human_bytes(4_509_715_660), "4.2G");
    assert_eq!(human_bytes(1_099_511_627_776), "1T");
    assert_eq!(human_bytes(u64::MAX), "16777216T");
    assert_eq!(human_bytes(851_443_712), "812M");
    assert_eq!(human_bytes(1_048_576 * 3 / 2), "1.5M");
    assert_eq!(human_bytes(1_073_741_823), "1024M");
    assert_eq!(human_rate(1536), "1.5K/s");
    assert_eq!(human_rate(2048), "2K/s");
}

#[test]
fn sysfs_reads() {
    assert_eq!(read_int(" 42 \n7"), Some(42));
    assert_eq!(read_int("x"), None);
    assert_eq!(read_int(""), None);
    assert_eq!(read_milli("45500\n"), Some(45));
    assert_eq!(read_milli("-1500"), Some(-1));
    assert_eq!(read_first_line("  hi  \nthere").as_deref(), Some("hi"));
    assert_eq!(read_first_line(""), None);
}

#[test]
fn glob_star_and_literals() {
    assert!(glob_match("wg*", "wg0"));
    assert!(glob_match("a*c", "abbc"));
    assert!(!glob_match("a*c", "abcd"));
    assert!(glob_match("*", ""));
    assert!(glob_match("eth0", "eth0"));
    assert!(!glob_match("eth0", "eth1"));
    assert!(glob_match("tun?", "tun0"));
    assert!(!glob_match("tun?", "tun"));
    assert!(!glob_match("tun?", "tun10"));
    assert!(glob_match("?", "x"));
    assert!(glob_match("w?0*", "wg0-home"));
    assert_eq!(
        glob_class("net", "wg*", &["wg1".to_owned(), "eth0".to_owned(), "wg0".to_owned()]),
        vec!["/sys/class/net/wg0".to_owned(), "/sys/class/net/wg1".to_owned()]
    );
}

#[test]
fn icons_overrides_win_and_unknown_keys_are_empty() {
    let mut overrides = NameMap::new();
    overrides.insert("cpu", "C".to_owned());
    let cfg = IconsConfig { pack: "nerd".to_owned(), overrides };
    let icons = Icons::build(&cfg, NameMap::new());
    assert_eq!(icons.get("cpu"), "C");
    assert_eq!(icons.get("mem"), "\u{EFC5}");
    assert_eq!(icons.get("nope"), "");
    let mut custom = NameMap::new();
    custom.insert("cpu", "k".to_owned());
    let mine = IconsConfig { pack: "mine".to_owned(), overrides: NameMap::new() };
    let icons = Icons::build(&mine, custom);
    assert_eq!(icons.get("cpu"), "k");
    assert!(pack_map("nerd").is_some());
    assert!(pack_map("mine").is_none());
    assert_eq!(pack_map("none").unwrap().len(), 0);
}

#[test]
fn glyph_packs_cover_the_same_keys() {
    let nerd = pack_map("nerd").unwrap();
    let emoji = pack_map("emoji").unwrap();
    let unicode = pack_map("unicode").unwrap();
    assert_eq!(nerd.len(), 31);
    assert_eq!(emoji.len(), 31);
    assert_eq!(unicode.len(), 31);
    for i in 0..nerd.len() {
        let (k, _) = nerd.entry(i);
        assert!(emoji.contains_key(k));
        assert!(unicode.contains_key(k));
    }
}
