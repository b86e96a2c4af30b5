use ferrite::config::{Config, Markup, Protocol};
use ferrite::layout;
use ferrite::protocol::{build_blocks, is_plain, write_plain};
use ferrite::state::{BarState, Block, NameMap};

fn cfg() -> Config {
    Config::default()
}

#[test]
fn module_name_is_injected_when_unset() {
    // A block produced without an explicit `name` must still be
    // click-routable: build_blocks stamps it with the layout placeholder name.
    let tokens = layout::parse("{vol}");
    let mut map = NameMap::new();
    map.insert("vol", Block::text("50%")); // no with_name
    let blocks = build_blocks(&tokens, &map, &cfg());
    assert_eq!(blocks.len(), 1);
    assert_eq!(blocks[0].name.as_deref(), Some("vol"));
}

#[test]
fn explicit_name_is_preserved() {
    // A module that sets its own name must not be overwritten by the layout name.
    let tokens = layout::parse("{bt}");
    let mut map = NameMap::new();
    let mut b = Block::text("On").with_name("bt");
    b.instance = Some("00:11".to_owned());
    map.insert("bt", b);
    let blocks = build_blocks(&tokens, &map, &cfg());
    assert_eq!(blocks[0].name.as_deref(), Some("bt"));
    assert_eq!(blocks[0].instance.as_deref(), Some("00:11"));
}

#[test]
fn hidden_module_drops_its_separators() {
    let tokens = layout::parse("{a} | {b} | {c}");
    let mut map = NameMap::new();
    map.insert("a", Block::text("A"));
    map.insert("c", Block::text("C"));
    let blocks = build_blocks(&tokens, &map, &cfg());
    let texts: Vec<&str> = blocks.iter().map(|b| b.full_text.as_str()).collect();
    assert_eq!(texts, vec!["A", " | ", "C"]);
    assert_eq!(blocks[1].separator, Some(false));
    assert_eq!(blocks[1].separator_block_width, Some(0));
    assert_eq!(blocks[1].name, None);
}

#[test]
fn separator_before_a_missing_last_module_is_dropped() {
    let tokens = layout::parse("{a} | {b}");
    let mut map = NameMap::new();
    map.insert("a", Block::text("A"));
    let blocks = build_blocks(&tokens, &map, &cfg());
    assert_eq!(blocks.len(), 1);
    assert_eq!(blocks[0].full_text, "A");
}

#[test]
fn bar_defaults_are_applied_to_module_blocks() {
    let tokens = layout::parse("{x}");
    let mut map = NameMap::new();
    map.insert("x", Block::text("X"));
    let mut c = cfg();
    c.bar.separator_block_width = 7;
    let blocks = build_blocks(&tokens, &map, &c);
    assert_eq!(blocks[0].color.as_deref(), Some("#cdd6f4"));
    assert_eq!(blocks[0].separator, Some(false));
    assert_eq!(blocks[0].separator_block_width, Some(7));
    assert_eq!(blocks[0].markup.as_deref(), Some("pango"));
}

#[test]
fn explicit_block_styling_wins() {
    let tokens = layout::parse("{x}");
    let mut map = NameMap::new();
    let mut b = Block::text("X").with_color("#123456");
    b.markup = Some("none".to_owned());
    b.separator = Some(true);
    b.separator_block_width = Some(3);
    map.insert("x", b);
    let mut c = cfg();
    c.bar.markup = Markup::NoMarkup;
    let blocks = build_blocks(&tokens, &map, &c);
    assert_eq!(blocks[0].color.as_deref(), Some("#123456"));
    assert_eq!(blocks[0].markup.as_deref(), Some("none"));
    assert_eq!(blocks[0].separator, Some(true));
    assert_eq!(blocks[0].separator_block_width, Some(3));
}

#[test]
fn no_markup_leaves_markup_unset() {
    let tokens = layout::parse("{x}");
    let mut map = NameMap::new();
    map.insert("x", Block::text("X"));
    let mut c = cfg();
    c.bar.markup = Markup::NoMarkup;
    let blocks = build_blocks(&tokens, &map, &c);
    assert_eq!(blocks[0].markup, None);
}

#[test]
fn plain_line_concatenates_texts() {
    let tokens = layout::parse("{a} | {b}");
    let mut map = NameMap::new();
    map.insert("a", Block::text("A"));
    map.insert("b", Block::text("B"));
    let blocks = build_blocks(&tokens, &map, &cfg());
    let mut out = String::from("x");
    write_plain(&mut out, &blocks);
    assert_eq!(out, "xA | B\n");
}

#[test]
fn plain_protocol_is_detected() {
    let mut c = cfg();
    assert!(!is_plain(&c));
    c.bar.protocol = Protocol::Plain;
    assert!(is_plain(&c));
}

#[test]
fn snapshot_hides_empty_blocks_and_shows_latest() {
    let mut s = BarState::default();
    s.set("cpu", Block::text("1%"));
    s.set("cpu", Block::text("2%"));
    s.set("vpn", Block::text(""));
    let m = s.snapshot_map();
    assert_eq!(m.get("cpu").map(|b| b.full_text.as_str()), Some("2%"));
    assert!(m.get("vpn").is_none());
    assert_eq!(m.len(), 1);
}

#[test]
fn block_builders_compose() {
    let b = Block::icon_text("I", "t").with_name("n").with_color("#c").with_urgent();
    assert_eq!(b.full_text, "I t");
    assert_eq!(b.name.as_deref(), Some("n"));
    assert_eq!(b.color.as_deref(), Some("#c"));
    assert!(b.urgent);
    assert_eq!(Block::icon_text("", "t").full_text, "t");
    let s = Block::separator(" | ");
    assert_eq!(s.separator, Some(false));
    assert_eq!(s.separator_block_width, Some(0));
}

#[test]
fn default_layout_renders_groups_and_items() {
    let c = cfg();
    let tokens = layout::parse(&c.bar.layout);
    let mut map = NameMap::new();
    for name in ["lang", "cpu", "mem", "temp", "bat", "net", "bt", "vol", "bri", "date"] {
        map.insert(name, Block::text(name));
    }
    let blocks = build_blocks(&tokens, &map, &c);
    let mut line = String::new();
    write_plain(&mut line, &blocks);
    assert_eq!(line, "lang | cpu mem temp bat | net bt vol bri | date\n");
}
