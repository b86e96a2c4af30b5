use ferrite::click::{click_command, click_payload, Click};
use ferrite::state::NameMap;

/// One line of the click stream as `(name, button)`: the library frames the
/// object, serde_json reads it.
fn parse_click_line(line: &str) -> Option<(Option<String>, Option<u64>)> {
    let payload = click_payload(line)?;
    let v: serde_json::Value = serde_json::from_str(&payload).ok()?;
    Some((v.get("name").and_then(|n| n.as_str()).map(|n| n.to_owned()), v.get("button").and_then(|b| b.as_u64())))
}

#[test]
fn parse_first_click_opens_array_with_bracket() {
    // sway puts the first event on the same line as the opening `[`.
    let c = parse_click_line("[{\"name\":\"temp\",\"button\":1}").unwrap();
    assert_eq!(c.0.as_deref(), Some("temp"));
    assert_eq!(c.1, Some(1));
}

#[test]
fn parse_subsequent_click_is_comma_prefixed() {
    // Every event after the first is `,{...}`; the leading comma is stripped.
    let c = parse_click_line(",{\"name\":\"vol\",\"button\":4}").unwrap();
    assert_eq!(c.0.as_deref(), Some("vol"));
    assert_eq!(c.1, Some(4));
}

#[test]
fn parse_lone_array_opener_is_skipped() {
    // A bare `[` (opener on its own line) carries no event.
    assert!(parse_click_line("[").is_none());
    assert!(parse_click_line("   ").is_none());
}

#[test]
fn parse_malformed_is_skipped_not_panicked() {
    assert!(parse_click_line(",{bad json").is_none());
}

#[test]
fn payload_framing_strips_openers_and_trailing_commas() {
    assert_eq!(
        click_payload("[{\"name\":\"temp\",\"button\":1}").as_deref(),
        Some("{\"name\":\"temp\",\"button\":1}")
    );
    assert_eq!(
        click_payload(",{\"name\":\"vol\",\"button\":4},").as_deref(),
        Some("{\"name\":\"vol\",\"button\":4}")
    );
    assert!(click_payload(",").is_none());
    assert_eq!(click_payload(",{bad json").as_deref(), Some("{bad json"));
}

fn actions() -> NameMap<NameMap<String>> {
    let mut vol = NameMap::new();
    vol.insert("1", "pavucontrol".to_owned());
    vol.insert("*", "pamixer -t".to_owned());
    let mut cpu = NameMap::new();
    cpu.insert("3", "htop".to_owned());
    let mut a = NameMap::new();
    a.insert("vol", vol);
    a.insert("cpu", cpu);
    a
}

fn click(name: Option<&str>, button: Option<u32>) -> Click {
    Click { name: name.map(|n| n.to_owned()), button }
}

#[test]
fn clicks_route_by_name_and_button() {
    let a = actions();
    assert_eq!(click_command(&a, &click(Some("vol"), Some(1))).as_deref(), Some("pavucontrol"));
    assert_eq!(click_command(&a, &click(Some("vol"), Some(4))).as_deref(), Some("pamixer -t"));
    assert_eq!(click_command(&a, &click(Some("vol"), None)).as_deref(), Some("pamixer -t"));
    assert_eq!(click_command(&a, &click(Some("cpu"), Some(3))).as_deref(), Some("htop"));
    assert_eq!(click_command(&a, &click(Some("cpu"), Some(1))), None);
    assert_eq!(click_command(&a, &click(Some("mem"), Some(1))), None);
    assert_eq!(click_command(&a, &click(None, Some(1))), None);
}
