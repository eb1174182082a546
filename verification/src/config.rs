//! Configuration: keyboard repeat settings, the XKB keymap settings, and the
//! registries of key and mouse bindings. The script's `input.setup` call
//! performs partial updates: every field it names is replaced, every field it
//! omits keeps its previous value.

use vstd::prelude::*;

use crate::input::KeybindMap;

verus! {

/// Key-repeat settings handed to the keyboard: events per second and the
/// delay in milliseconds before repeating starts.
#[derive(Debug)]
pub struct StrataRepeatInfoConfig {
    pub rate: i32,
    pub delay: i32,
}

impl Default for StrataRepeatInfoConfig {
    /// 20 events per second after 200 ms.
    fn default() -> (r: Self)
        ensures
            r.rate == 20,
            r.delay == 200,
    {
        Self { rate: 20, delay: 200 }
    }
}

/// A partial update of the repeat settings.
pub struct StrataRepeatInfoUpdate {
    pub rate: Option<i32>,
    pub delay: Option<i32>,
}

impl StrataRepeatInfoConfig {
    /// Applies a partial update. The keyboard takes only non-negative
    /// values, so a negative value is folded to its magnitude.
    pub fn update(&mut self, upd: &StrataRepeatInfoUpdate)
        requires
            upd.rate != Some(i32::MIN),
            upd.delay != Some(i32::MIN),
        ensures
            final(self).rate == (match upd.rate {
                Some(r) => if r < 0 {
                    -r as int
                } else {
                    r as int
                },
                None => old(self).rate as int,
            }),
            final(self).delay == (match upd.delay {
                Some(d) => if d < 0 {
                    -d as int
                } else {
                    d as int
                },
                None => old(self).delay as int,
            }),
    {
        if let Some(r) = upd.rate {
            self.rate = if r < 0 {
                -r
            } else {
                r
            };
        }
        if let Some(d) = upd.delay {
            self.delay = if d < 0 {
                -d
            } else {
                d
            };
        }
    }
}

/// The XKB keymap settings: layout, rules, model, options and variant, as
/// the keyboard layer consumes them.
#[derive(Debug)]
pub struct StrataXkbConfig {
    pub layout: String,
    pub rules: String,
    pub model: String,
    pub options: Option<String>,
    pub variant: String,
}

impl Default for StrataXkbConfig {
    /// Everything empty: the keyboard layer then falls back to the system
    /// defaults.
    fn default() -> (r: Self)
        ensures
            r.layout@.len() == 0,
            r.rules@.len() == 0,
            r.model@.len() == 0,
            r.options is None,
            r.variant@.len() == 0,
    {
        Self {
            layout: String::new(),
            rules: String::new(),
            model: String::new(),
            options: None,
            variant: String::new(),
        }
    }
}

/// A partial update of the XKB settings: a present field replaces the whole
/// previous value of that field.
pub struct StrataXkbConfigUpdate {
    pub layout: Option<String>,
    pub rules: Option<String>,
    pub model: Option<String>,
    pub options: Option<String>,
    pub variant: Option<String>,
}

/// `r` is `base` with every field the update names replaced and every other
/// field kept.
pub open spec fn spec_xkb_updated(
    base: StrataXkbConfig,
    upd: StrataXkbConfigUpdate,
    r: StrataXkbConfig,
) -> bool {
    &&& r.layout@ == (match upd.layout {
        Some(s) => s@,
        None => base.layout@,
    })
    &&& r.rules@ == (match upd.rules {
        Some(s) => s@,
        None => base.rules@,
    })
    &&& r.model@ == (match upd.model {
        Some(s) => s@,
        None => base.model@,
    })
    &&& (match upd.options {
        Some(s) => r.options matches Some(o) && o@ == s@,
        None => match base.options {
            Some(o0) => r.options matches Some(o) && o@ == o0@,
            None => r.options is None,
        },
    })
    &&& r.variant@ == (match upd.variant {
        Some(s) => s@,
        None => base.variant@,
    })
}

impl StrataXkbConfig {
    /// A copy of the settings, for preparing a candidate that the keyboard
    /// layer may accept or reject.
    pub fn snapshot(&self) -> (r: StrataXkbConfig)
        ensures
            r == *self,
    {
        StrataXkbConfig {
            layout: self.layout.clone(),
            rules: self.rules.clone(),
            model: self.model.clone(),
            options: match &self.options {
                Some(s) => Some(s.clone()),
                None => None,
            },
            variant: self.variant.clone(),
        }
    }

    /// Applies a partial update field by field.
    pub fn update(&mut self, upd: StrataXkbConfigUpdate)
        ensures
            spec_xkb_updated(*old(self), upd, *final(self)),
    {
        if let Some(s) = upd.layout {
            self.layout = s;
        }
        if let Some(s) = upd.rules {
            self.rules = s;
        }
        if let Some(s) = upd.model {
            self.model = s;
        }
        if let Some(s) = upd.options {
            self.options = Some(s);
        }
        if let Some(s) = upd.variant {
            self.variant = s;
        }
    }
}

/// Everything the input stack is configured by: repeat settings, the XKB
/// settings, and the global key and mouse binding registries.
pub struct StrataInputConfig {
    pub repeat_info: StrataRepeatInfoConfig,
    pub xkbconfig: Option<StrataXkbConfig>,
    pub global_keybinds: KeybindMap,
    pub global_mousebinds: KeybindMap,
}

impl Default for StrataInputConfig {
    /// Default repeat settings, an Italian layout with caps-lock and escape
    /// swapped, and no bindings registered yet.
    fn default() -> (r: Self)
        ensures
            r.repeat_info.rate == 20,
            r.repeat_info.delay == 200,
            r.xkbconfig matches Some(x) && x.layout@ == "it"@ && x.rules@.len() == 0
                && x.model@.len() == 0 && (x.options matches Some(o) && o@ == "caps:swapescape"@)
                && x.variant@.len() == 0,
            r.global_keybinds.wf(),
            r.global_keybinds.as_map() == Map::<crate::input::KeyPattern, u64>::empty(),
            r.global_mousebinds.wf(),
            r.global_mousebinds.as_map() == Map::<crate::input::KeyPattern, u64>::empty(),
    {
        Self {
            repeat_info: Default::default(),
            xkbconfig: Some(
                StrataXkbConfig {
                    layout: String::from_str("it"),
                    rules: String::new(),
                    model: String::new(),
                    options: Some(String::from_str("caps:swapescape")),
                    variant: String::new(),
                },
            ),
            global_keybinds: KeybindMap::new(),
            global_mousebinds: KeybindMap::new(),
        }
    }
}

/// The whole compositor configuration.
pub struct StrataConfig {
    pub input_config: StrataInputConfig,
}

impl Default for StrataConfig {
    fn default() -> (r: Self)
        ensures
            r.input_config.repeat_info.rate == 20,
            r.input_config.repeat_info.delay == 200,
            r.input_config.xkbconfig is Some,
            r.input_config.global_keybinds.wf(),
            r.input_config.global_keybinds.as_map() == Map::<
                crate::input::KeyPattern,
                u64,
            >::empty(),
            r.input_config.global_mousebinds.wf(),
    {
        Self { input_config: Default::default() }
    }
}

/// The payload of one `input.setup` call, already read out of the script's
/// table: each sub-table that was present, with each field that was present.
pub struct StrataInputSetup {
    pub repeat_info: Option<StrataRepeatInfoUpdate>,
    pub xkbconfig: Option<StrataXkbConfigUpdate>,
}

} // verus!
