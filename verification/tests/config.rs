use tiny_dfr::config::{
    either, load_config, merge, resolve, ButtonConfig, ConfigError, ConfigProxy,
};
use tiny_dfr::display::{crash_pixels, looks_like_touch_bar};
use tiny_dfr::fonts::{
    match_pattern, throw_on_fcpattern_result, FontConfigError, Pattern, PatternFault,
};

fn text_button(text: &str, action: u16) -> ButtonConfig {
    ButtonConfig { icon: None, text: Some(text.to_string()), theme: None, action, stretch: None }
}

fn defaults() -> ConfigProxy {
    ConfigProxy {
        media_layer_default: Some(false),
        show_button_outlines: Some(true),
        enable_pixel_shift: Some(false),
        font_template: Some(String::from(":bold")),
        adaptive_brightness: Some(true),
        active_brightness: Some(128),
        fn_toggle_layers: None,
        primary_layer_keys: Some(vec![text_button("F1", 59), text_button("F2", 60)]),
        media_layer_keys: Some(vec![text_button("mute", 113)]),
    }
}

fn nothing() -> ConfigProxy {
    ConfigProxy {
        media_layer_default: None,
        show_button_outlines: None,
        enable_pixel_shift: None,
        font_template: None,
        adaptive_brightness: None,
        active_brightness: None,
        fn_toggle_layers: None,
        primary_layer_keys: None,
        media_layer_keys: None,
    }
}

#[test]
fn either_takes_the_first_that_is_set() {
    assert_eq!(either(Some(1), Some(2)), Some(1));
    assert_eq!(either(None, Some(2)), Some(2));
    assert_eq!(either(Some(1), None), Some(1));
    assert_eq!(either::<u8>(None, None), None);
}

#[test]
fn user_settings_override_the_defaults() {
    let user = ConfigProxy {
        media_layer_default: Some(true),
        active_brightness: Some(64),
        font_template: Some(String::from("Mono")),
        media_layer_keys: Some(vec![text_button("play", 164), text_button("next", 163)]),
        ..nothing()
    };
    let m = merge(defaults(), user);
    assert_eq!(m.media_layer_default, Some(true));
    assert_eq!(m.show_button_outlines, Some(true));
    assert_eq!(m.enable_pixel_shift, Some(false));
    assert_eq!(m.font_template.as_deref(), Some("Mono"));
    assert_eq!(m.adaptive_brightness, Some(true));
    assert_eq!(m.active_brightness, Some(64));
    assert_eq!(m.fn_toggle_layers, None);
    assert_eq!(m.primary_layer_keys.as_ref().unwrap().len(), 2);
    assert_eq!(m.media_layer_keys.as_ref().unwrap().len(), 2);
    assert_eq!(m.media_layer_keys.as_ref().unwrap()[0].action, 164);
}

#[test]
fn defaults_alone_put_the_primary_layer_first() {
    let (cfg, layers) = load_config(defaults(), None).ok().unwrap();
    assert!(cfg.show_button_outlines);
    assert!(!cfg.enable_pixel_shift);
    assert!(cfg.adaptive_brightness);
    assert!(!cfg.fn_toggle_layers);
    assert_eq!(cfg.active_brightness, 128);
    assert_eq!(cfg.font_template, ":bold");
    assert_eq!(layers.len(), 2);
    assert_eq!(layers[0].buttons.len(), 2);
    assert_eq!(layers[0].buttons[1].1.action, 60);
    assert_eq!(layers[1].buttons.len(), 1);
    assert_eq!(layers[1].buttons[0].1.action, 113);
}

#[test]
fn media_layer_comes_first_where_it_is_the_default() {
    let user = ConfigProxy {
        media_layer_default: Some(true),
        fn_toggle_layers: Some(true),
        ..nothing()
    };
    let (cfg, layers) = load_config(defaults(), Some(user)).ok().unwrap();
    assert!(cfg.fn_toggle_layers);
    assert_eq!(layers[0].buttons[0].1.action, 113);
    assert_eq!(layers[1].buttons[0].1.action, 59);
}

#[test]
fn missing_setting_is_an_error() {
    let base = ConfigProxy { active_brightness: None, ..defaults() };
    assert!(matches!(load_config(base, None), Err(ConfigError::MissingSetting)));
    let base = ConfigProxy { media_layer_keys: None, primary_layer_keys: Some(vec![]), ..defaults() };
    assert!(matches!(resolve(base), Err(ConfigError::MissingSetting)));
    let base = ConfigProxy { active_brightness: None, ..defaults() };
    let user = ConfigProxy { active_brightness: Some(3), ..nothing() };
    assert!(load_config(base, Some(user)).is_ok());
}

#[test]
fn faulty_layers_are_errors() {
    let base = ConfigProxy { primary_layer_keys: Some(vec![]), ..defaults() };
    assert!(matches!(resolve(base), Err(ConfigError::EmptyLayer)));
    let bare = ButtonConfig { icon: None, text: None, theme: None, action: 1, stretch: None };
    let base = ConfigProxy {
        primary_layer_keys: Some(vec![]),
        media_layer_keys: Some(vec![bare]),
        ..defaults()
    };
    assert!(matches!(resolve(base), Err(ConfigError::ButtonWithoutImage)));
}

#[test]
fn result_codes_become_faults() {
    assert_eq!(throw_on_fcpattern_result(0), Ok(()));
    assert_eq!(throw_on_fcpattern_result(1), Err(PatternFault::NullPattern));
    assert_eq!(throw_on_fcpattern_result(2), Err(PatternFault::WrongType));
    assert_eq!(throw_on_fcpattern_result(3), Err(PatternFault::UnknownElement));
    assert_eq!(throw_on_fcpattern_result(4), Err(PatternFault::OutOfMemory));
    assert_eq!(throw_on_fcpattern_result(5), Err(PatternFault::Unknown(5)));
    assert_eq!(throw_on_fcpattern_result(-1), Err(PatternFault::Unknown(-1)));
}

#[test]
fn pattern_holds_what_the_lookups_gave() {
    let p = Pattern::new(0, String::from("/usr/share/fonts/a.ttf"), 0, 2).ok().unwrap();
    assert_eq!(p.get_file_name(), "/usr/share/fonts/a.ttf");
    assert_eq!(p.get_font_index(), 2);
    assert!(matches!(Pattern::new(3, String::new(), 2, 0), Err(PatternFault::UnknownElement)));
    assert!(matches!(Pattern::new(0, String::new(), 2, 0), Err(PatternFault::WrongType)));
    let found = match_pattern(Some(p)).ok().unwrap();
    assert_eq!(found.font_index, 2);
    assert!(matches!(match_pattern(None), Err(FontConfigError::FontNotFound)));
}

#[test]
fn strip_modes_are_long_and_narrow() {
    assert!(looks_like_touch_bar(64, 2008));
    assert!(looks_like_touch_bar(60, 1800));
    assert!(!looks_like_touch_bar(60, 1799));
    assert!(!looks_like_touch_bar(2560, 1600));
    assert!(!looks_like_touch_bar(0, 2008));
}

#[test]
fn crash_bitmap_is_painted_bit_by_bit() {
    let pixels = crash_pixels(&vec![0b0000_0001, 0xFF, 0x00]);
    assert_eq!(pixels.len(), 96);
    assert_eq!(&pixels[0..4], &[0, 0, 0, 0]);
    assert!(pixels[4..32].iter().all(|b| *b == 0xFF));
    assert!(pixels[32..64].iter().all(|b| *b == 0));
    assert!(pixels[64..96].iter().all(|b| *b == 0xFF));
    let pixels = crash_pixels(&vec![0b1000_0010]);
    assert_eq!(&pixels[0..8], &[0xFF, 0xFF, 0xFF, 0xFF, 0, 0, 0, 0]);
    assert_eq!(&pixels[28..32], &[0, 0, 0, 0]);
    assert!(crash_pixels(&Vec::new()).is_empty());
}
