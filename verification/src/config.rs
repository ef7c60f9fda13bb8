//! Settings and button descriptions, and how a user's file overrides the
//! defaults. Reading and parsing the files is left to the caller.

use vstd::prelude::*;
use crate::layer::{layer_fault, FunctionLayer};

verus! {

/// The settings in force.
pub struct Config {
    pub show_button_outlines: bool,
    pub enable_pixel_shift: bool,
    /// Pattern by which the caller looks up the font of the labels.
    pub font_template: String,
    pub adaptive_brightness: bool,
    pub active_brightness: u32,
    /// Whether holding and releasing the layer key without a touch in
    /// between exchanges the two layers for good.
    pub fn_toggle_layers: bool,
}

/// One button as a settings file describes it.
pub struct ButtonConfig {
    pub icon: Option<String>,
    pub text: Option<String>,
    pub theme: Option<String>,
    /// Code of the key that the button sends.
    pub action: u16,
    /// Width in layout units; absent means one.
    pub stretch: Option<usize>,
}

/// What is wrong with a set of settings.
#[derive(Clone, Copy, PartialEq, Eq, Structural, Debug)]
pub enum ConfigError {
    /// A layer has no button.
    EmptyLayer,
    /// A button has neither text nor icon.
    ButtonWithoutImage,
    /// The width of a layer, in layout units, does not fit `usize`.
    LayerTooWide,
    /// A setting is in neither file.
    MissingSetting,
}

/// A settings file as it was read: every setting may be absent.
pub struct ConfigProxy {
    pub media_layer_default: Option<bool>,
    pub show_button_outlines: Option<bool>,
    pub enable_pixel_shift: Option<bool>,
    pub font_template: Option<String>,
    pub adaptive_brightness: Option<bool>,
    pub active_brightness: Option<u32>,
    pub fn_toggle_layers: Option<bool>,
    pub primary_layer_keys: Option<Vec<ButtonConfig>>,
    pub media_layer_keys: Option<Vec<ButtonConfig>>,
}

/// `first` where it is set, else `second`.
pub open spec fn or_else<T>(first: Option<T>, second: Option<T>) -> Option<T> {
    if first is Some {
        first
    } else {
        second
    }
}

/// `first` where it is set, else `second`.
pub fn either<T>(first: Option<T>, second: Option<T>) -> (r: Option<T>)
    ensures
        r == or_else(first, second),
{
    match first {
        Some(v) => Some(v),
        None => second,
    }
}

/// The defaults in `base`, each overridden by `user` where `user` sets it.
pub open spec fn merged(base: ConfigProxy, user: ConfigProxy) -> ConfigProxy {
    ConfigProxy {
        media_layer_default: or_else(user.media_layer_default, base.media_layer_default),
        show_button_outlines: or_else(user.show_button_outlines, base.show_button_outlines),
        enable_pixel_shift: or_else(user.enable_pixel_shift, base.enable_pixel_shift),
        font_template: or_else(user.font_template, base.font_template),
        adaptive_brightness: or_else(user.adaptive_brightness, base.adaptive_brightness),
        active_brightness: or_else(user.active_brightness, base.active_brightness),
        fn_toggle_layers: or_else(user.fn_toggle_layers, base.fn_toggle_layers),
        primary_layer_keys: or_else(user.primary_layer_keys, base.primary_layer_keys),
        media_layer_keys: or_else(user.media_layer_keys, base.media_layer_keys),
    }
}

/// Whether every setting that has no default of its own is there.
pub open spec fn is_complete(m: ConfigProxy) -> bool {
    &&& m.media_layer_default is Some
    &&& m.show_button_outlines is Some
    &&& m.enable_pixel_shift is Some
    &&& m.font_template is Some
    &&& m.adaptive_brightness is Some
    &&& m.active_brightness is Some
    &&& m.primary_layer_keys is Some
    &&& m.media_layer_keys is Some
}

/// Why `m` gives no settings, if anything stands against it: a missing
/// setting first, then what is wrong with the media layer, then with the
/// primary one.
pub open spec fn config_fault(m: ConfigProxy) -> Option<ConfigError> {
    if !is_complete(m) {
        Some(ConfigError::MissingSetting)
    } else if layer_fault(m.media_layer_keys.unwrap()@) is Some {
        layer_fault(m.media_layer_keys.unwrap()@)
    } else {
        layer_fault(m.primary_layer_keys.unwrap()@)
    }
}

/// The settings that a complete `m` holds. The lock of the layer key is
/// off unless `m` turns it on.
pub open spec fn settings_of(m: ConfigProxy) -> Config {
    Config {
        show_button_outlines: m.show_button_outlines.unwrap(),
        enable_pixel_shift: m.enable_pixel_shift.unwrap(),
        font_template: m.font_template.unwrap(),
        adaptive_brightness: m.adaptive_brightness.unwrap(),
        active_brightness: m.active_brightness.unwrap(),
        fn_toggle_layers: m.fn_toggle_layers is Some && m.fn_toggle_layers.unwrap(),
    }
}

/// Overrides the defaults in `base` by what `user` sets.
pub fn merge(base: ConfigProxy, user: ConfigProxy) -> (m: ConfigProxy)
    ensures
        m == merged(base, user),
{
    ConfigProxy {
        media_layer_default: either(user.media_layer_default, base.media_layer_default),
        show_button_outlines: either(user.show_button_outlines, base.show_button_outlines),
        enable_pixel_shift: either(user.enable_pixel_shift, base.enable_pixel_shift),
        font_template: either(user.font_template, base.font_template),
        adaptive_brightness: either(user.adaptive_brightness, base.adaptive_brightness),
        active_brightness: either(user.active_brightness, base.active_brightness),
        fn_toggle_layers: either(user.fn_toggle_layers, base.fn_toggle_layers),
        primary_layer_keys: either(user.primary_layer_keys, base.primary_layer_keys),
        media_layer_keys: either(user.media_layer_keys, base.media_layer_keys),
    }
}

/// Settings and layers from a merged file. The media layer comes first
/// where it is the default, the primary one otherwise.
pub fn resolve(m: ConfigProxy) -> (res: Result<(Config, Vec<FunctionLayer>), ConfigError>)
    ensures
        match res {
            Ok((cfg, layers)) => {
                let media = if m.media_layer_default.unwrap() {
                    0int
                } else {
                    1int
                };
                &&& config_fault(m) is None
                &&& cfg == settings_of(m)
                &&& layers@.len() == 2
                &&& layers@[media].is_layer_of(m.media_layer_keys.unwrap()@)
                &&& layers@[1 - media].is_layer_of(m.primary_layer_keys.unwrap()@)
            },
            Err(e) => config_fault(m) == Some(e),
        },
{
    let (
        Some(media_first),
        Some(show_button_outlines),
        Some(enable_pixel_shift),
        Some(font_template),
        Some(adaptive_brightness),
        Some(active_brightness),
        Some(primary_keys),
        Some(media_keys),
    ) = (
        m.media_layer_default,
        m.show_button_outlines,
        m.enable_pixel_shift,
        m.font_template,
        m.adaptive_brightness,
        m.active_brightness,
        m.primary_layer_keys,
        m.media_layer_keys,
    ) else {
        return Err(ConfigError::MissingSetting);
    };
    let media_layer = match FunctionLayer::with_config(media_keys) {
        Ok(layer) => layer,
        Err(e) => {
            return Err(e);
        },
    };
    let fkey_layer = match FunctionLayer::with_config(primary_keys) {
        Ok(layer) => layer,
        Err(e) => {
            return Err(e);
        },
    };
    let mut layers: Vec<FunctionLayer> = Vec::new();
    if media_first {
        layers.push(media_layer);
        layers.push(fkey_layer);
    } else {
        layers.push(fkey_layer);
        layers.push(media_layer);
    }
    let cfg = Config {
        show_button_outlines,
        enable_pixel_shift,
        font_template,
        adaptive_brightness,
        active_brightness,
        fn_toggle_layers: match m.fn_toggle_layers {
            Some(on) => on,
            None => false,
        },
    };
    Ok((cfg, layers))
}

/// Settings and layers from the defaults and, where there is one, the
/// user's file.
pub fn load_config(base: ConfigProxy, user: Option<ConfigProxy>) -> (res: Result<
    (Config, Vec<FunctionLayer>),
    ConfigError,
>)
    ensures
        match res {
            Ok((cfg, layers)) => {
                let m = match user {
                    Some(u) => merged(base, u),
                    None => base,
                };
                let media = if m.media_layer_default.unwrap() {
                    0int
                } else {
                    1int
                };
                &&& config_fault(m) is None
                &&& cfg == settings_of(m)
                &&& layers@.len() == 2
                &&& layers@[media].is_layer_of(m.media_layer_keys.unwrap()@)
                &&& layers@[1 - media].is_layer_of(m.primary_layer_keys.unwrap()@)
            },
            Err(e) => config_fault(
                match user {
                    Some(u) => merged(base, u),
                    None => base,
                },
            ) == Some(e),
        },
{
    match user {
        Some(u) => resolve(merge(base, u)),
        None => resolve(base),
    }
}

} // verus!
