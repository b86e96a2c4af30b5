use ferrite::colors::{apply_pywal, fill_static, resolve, Pywal};
use ferrite::config::{ColorSource, ColorsConfig};
use ferrite::state::NameMap;

#[test]
fn static_fills_defaults() {
    let mut c = ColorsConfig::default();
    resolve(&mut c, None);
    assert_eq!(c.default_color(), "#cdd6f4");
    assert_eq!(c.urgent(), "#f38ba8");
    assert_eq!(c.warn(), "#f9e2af");
    assert_eq!(c.good(), "#a6e3a1");
    assert_eq!(c.mute(), "#fab387");
}

#[test]
fn pywal_mapping_with_explicit_override() {
    let mut c = ColorsConfig {
        source: ColorSource::Pywal,
        default: Some("#override".to_owned()),
        urgent: None,
        warn: None,
        good: None,
        mute: None,
    };
    let mut special = NameMap::new();
    special.insert("foreground", "#fg".to_owned());
    let mut colors = NameMap::new();
    colors.insert("color1", "#u1".to_owned());
    colors.insert("color2", "#g2".to_owned());
    colors.insert("color3", "#w3".to_owned());
    colors.insert("color5", "#m5".to_owned());
    let p = Pywal { special, colors };
    apply_pywal(&mut c, &p);
    fill_static(&mut c);
    // Explicit TOML value wins over pywal.
    assert_eq!(c.default_color(), "#override");
    // Unset fields take pywal values.
    assert_eq!(c.urgent(), "#u1");
    assert_eq!(c.warn(), "#w3");
    assert_eq!(c.good(), "#g2");
    assert_eq!(c.mute(), "#m5");
}

#[test]
fn pywal_missing_keys_fall_back_to_static() {
    let mut c = ColorsConfig {
        source: ColorSource::Pywal,
        default: None,
        urgent: None,
        warn: None,
        good: None,
        mute: None,
    };
    let mut special = NameMap::new();
    special.insert("foreground", "#fg".to_owned());
    let p = Pywal {
        special,
        colors: NameMap::new(),
    };
    apply_pywal(&mut c, &p);
    fill_static(&mut c);
    assert_eq!(c.default_color(), "#fg");
    assert_eq!(c.urgent(), "#f38ba8");
    assert_eq!(c.mute(), "#fab387");
}

#[test]
fn resolve_with_pywal_palette_fills_from_it_then_static() {
    let mut c = ColorsConfig {
        source: ColorSource::Pywal,
        default: None,
        urgent: Some("#mine".to_owned()),
        warn: None,
        good: None,
        mute: None,
    };
    let mut colors = NameMap::new();
    colors.insert("color1", "#u1".to_owned());
    colors.insert("color3", "#w3".to_owned());
    let p = Pywal {
        special: NameMap::new(),
        colors,
    };
    resolve(&mut c, Some(&p));
    assert_eq!(c.default_color(), "#cdd6f4");
    assert_eq!(c.urgent(), "#mine");
    assert_eq!(c.warn(), "#w3");
    assert_eq!(c.good(), "#a6e3a1");
    assert_eq!(c.mute(), "#fab387");
}

#[test]
fn static_fill_twice_changes_nothing() {
    let mut c = ColorsConfig {
        source: ColorSource::Static,
        default: Some("#111111".to_owned()),
        urgent: None,
        warn: None,
        good: None,
        mute: None,
    };
    fill_static(&mut c);
    let once = (c.default.clone(), c.urgent.clone(), c.warn.clone(), c.good.clone(), c.mute.clone());
    fill_static(&mut c);
    let twice = (c.default.clone(), c.urgent.clone(), c.warn.clone(), c.good.clone(), c.mute.clone());
    assert_eq!(once, twice);
    assert_eq!(c.default_color(), "#111111");
}
