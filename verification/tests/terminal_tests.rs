use mux_core::terminal::{HyperlinkRule, PaletteChoice, TermConfig};

fn rule(regex: &str, format: &str) -> HyperlinkRule {
    HyperlinkRule { regex: regex.to_string(), format: format.to_string() }
}

#[test]
fn plain_settings_are_given_back() {
    let c: TermConfig<u32> = TermConfig::new(3, 3500, true);
    assert_eq!(c.generation(), 3);
    assert_eq!(c.scrollback_size(), 3500);
    assert!(c.enable_csi_u_key_encoding());
    assert_eq!(c.hyperlink_rules(), (3, Vec::new()));
    assert_eq!(c.color_palette(), PaletteChoice::Default);
}

#[test]
fn hyperlink_rules_come_with_the_generation() {
    let mut c: TermConfig<u32> = TermConfig::new(8, 0, false);
    let rules = vec![rule("\\bhttps?://\\S+", "$0"), rule("\\bT(\\d+)\\b", "https://t/$1")];
    c.set_hyperlink_rules(rules.clone());
    assert_eq!(c.hyperlink_rules(), (8, rules));
}

#[test]
fn named_scheme_goes_first() {
    let mut c: TermConfig<u32> = TermConfig::new(0, 0, false);
    c.add_color_scheme("dark".to_string(), 1);
    c.add_color_scheme("light".to_string(), 2);
    c.set_colors(Some(9));
    c.set_color_scheme(Some("light".to_string()));
    assert_eq!(c.color_palette(), PaletteChoice::Scheme(&2));
}

#[test]
fn unknown_scheme_falls_back_to_colors() {
    let mut c: TermConfig<u32> = TermConfig::new(0, 0, false);
    c.add_color_scheme("dark".to_string(), 1);
    c.set_colors(Some(9));
    c.set_color_scheme(Some("missing".to_string()));
    assert_eq!(c.color_palette(), PaletteChoice::Colors(&9));
}

#[test]
fn unknown_scheme_without_colors_is_default() {
    let mut c: TermConfig<u32> = TermConfig::new(0, 0, false);
    c.set_color_scheme(Some("missing".to_string()));
    assert_eq!(c.color_palette(), PaletteChoice::Default);
}

#[test]
fn colors_without_scheme() {
    let mut c: TermConfig<u32> = TermConfig::new(0, 0, false);
    c.add_color_scheme("dark".to_string(), 1);
    c.set_colors(Some(9));
    assert_eq!(c.color_palette(), PaletteChoice::Colors(&9));
    c.set_colors(None);
    assert_eq!(c.color_palette(), PaletteChoice::Default);
}

#[test]
fn scheme_added_again_replaces() {
    let mut c: TermConfig<u32> = TermConfig::new(0, 0, false);
    c.add_color_scheme("dark".to_string(), 1);
    c.add_color_scheme("light".to_string(), 2);
    c.add_color_scheme("dark".to_string(), 3);
    c.set_color_scheme(Some("dark".to_string()));
    assert_eq!(c.color_palette(), PaletteChoice::Scheme(&3));
    c.set_color_scheme(Some("light".to_string()));
    assert_eq!(c.color_palette(), PaletteChoice::Scheme(&2));
}
