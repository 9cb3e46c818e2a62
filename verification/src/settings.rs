//! The global settings document: its typed record, its mathematical model,
//! per-field sanitization, and the settings store over the settings file.

use vstd::prelude::*;
use vstd::string::*;

use crate::codec;
use crate::errors::SettingsError;

verus! {

/// Theme choice for the application chrome.
#[derive(Clone, Copy, PartialEq, Eq, Structural, Debug)]
pub enum Theme {
    Light,
    Dark,
    System,
}

/// The global settings document: a flat record of typed, named options.
///
/// Per-field constraint and sanitization policy:
/// - `theme`: an enumerated choice; every value of the type is valid.
/// - `autostart`: a free toggle; every value is valid.
/// - `poll_interval_secs`: must lie in `[POLL_INTERVAL_MIN, POLL_INTERVAL_MAX]`;
///   sanitization clamps an out-of-range value to the nearest bound.
/// - `accent_color`: must be a `#rrggbb` hex color; sanitization rejects the
///   whole document with `Validation` naming this field.
#[derive(Debug)]
pub struct AppSettings {
    pub theme: Theme,
    pub autostart: bool,
    pub poll_interval_secs: u32,
    pub accent_color: String,
}

pub const POLL_INTERVAL_MIN: u32 = 1;
pub const POLL_INTERVAL_MAX: u32 = 3600;

/// Mathematical model of a settings document.
pub ghost struct SettingsModel {
    pub theme: Theme,
    pub autostart: bool,
    pub poll_interval_secs: int,
    pub accent_color: Seq<char>,
}

impl View for AppSettings {
    type V = SettingsModel;

    open spec fn view(&self) -> SettingsModel {
        SettingsModel {
            theme: self.theme,
            autostart: self.autostart,
            poll_interval_secs: self.poll_interval_secs as int,
            accent_color: self.accent_color@,
        }
    }
}

/// A hexadecimal digit, either case.
pub open spec fn is_hex_digit_char(c: char) -> bool {
    (48 <= c as u32 && c as u32 <= 57)  // '0' ..= '9'
    || (97 <= c as u32 && c as u32 <= 102)  // 'a' ..= 'f'
    || (65 <= c as u32 && c as u32 <= 70)  // 'A' ..= 'F'
}

/// A `#rrggbb` hex color: `#` followed by exactly six hex digits.
pub open spec fn is_hex_color(s: Seq<char>) -> bool {
    s.len() == 7 && s[0] == '#' && forall|i: int| 1 <= i < 7 ==> is_hex_digit_char(s[i])
}

/// A document every field of which satisfies its declared constraint.
pub open spec fn valid_model(m: SettingsModel) -> bool {
    &&& POLL_INTERVAL_MIN as int <= m.poll_interval_secs <= POLL_INTERVAL_MAX as int
    &&& is_hex_color(m.accent_color)
}

/// The poll interval after clamping to its valid range.
pub open spec fn spec_clamp_poll(p: int) -> int {
    if p < POLL_INTERVAL_MIN as int {
        POLL_INTERVAL_MIN as int
    } else if p > POLL_INTERVAL_MAX as int {
        POLL_INTERVAL_MAX as int
    } else {
        p
    }
}

/// The model after sanitization: clamped fields clamped, all others verbatim.
pub open spec fn sanitized_model(m: SettingsModel) -> SettingsModel {
    SettingsModel { poll_interval_secs: spec_clamp_poll(m.poll_interval_secs), ..m }
}

/// The built-in default settings document.
pub open spec fn default_model() -> SettingsModel {
    SettingsModel {
        theme: Theme::Dark,
        autostart: false,
        poll_interval_secs: 5,
        accent_color: "#7aa2f7"@,
    }
}

/// The built-in default document satisfies every field constraint.
pub proof fn lemma_default_model_valid()
    ensures
        valid_model(default_model()),
{
    reveal_strlit("#7aa2f7");
}

/// Whether `s` is a `#rrggbb` hex color.
pub fn is_hex_color_str(s: &str) -> (r: bool)
    ensures
        r == is_hex_color(s@),
{
    let n = s.unicode_len();
    if n != 7 {
        return false;
    }
    if s.get_char(0) != '#' {
        return false;
    }
    let mut i: usize = 1;
    while i < 7
        invariant
            1 <= i <= 7,
            s@.len() == 7,
            forall|k: int| 1 <= k < i ==> is_hex_digit_char(s@[k]),
        decreases 7 - i,
    {
        let c = s.get_char(i);
        let u = c as u32;
        if !((48 <= u && u <= 57) || (97 <= u && u <= 102) || (65 <= u && u <= 70)) {
            return false;
        }
        i += 1;
    }
    true
}

/// The built-in default settings document.
pub fn default_settings() -> (r: AppSettings)
    ensures
        r@ == default_model(),
        valid_model(r@),
{
    proof {
        lemma_default_model_valid();
    }
    AppSettings {
        theme: Theme::Dark,
        autostart: false,
        poll_interval_secs: 5,
        accent_color: String::from_str("#7aa2f7"),
    }
}

/// Apply the fixed per-field sanitization policy to a candidate document:
/// clamp `poll_interval_secs` into its range; reject the whole document with
/// `Validation` naming `accent_color` when that field is not a hex color.
/// Exactly the documents whose `accent_color` is well-formed are accepted.
pub fn validate_and_sanitize_settings(candidate: AppSettings) -> (r: Result<
    AppSettings,
    SettingsError,
>)
    ensures
        match r {
            Ok(v) => {
                &&& is_hex_color(candidate@.accent_color)
                &&& v@ == sanitized_model(candidate@)
                &&& valid_model(v@)
            },
            Err(e) => {
                &&& !is_hex_color(candidate@.accent_color)
                &&& e matches SettingsError::Validation(f) && f@ == "accent_color"@
            },
        },
{
    if !is_hex_color_str(candidate.accent_color.as_str()) {
        return Err(SettingsError::Validation(String::from_str("accent_color")));
    }
    let poll = if candidate.poll_interval_secs < POLL_INTERVAL_MIN {
        POLL_INTERVAL_MIN
    } else if candidate.poll_interval_secs > POLL_INTERVAL_MAX {
        POLL_INTERVAL_MAX
    } else {
        candidate.poll_interval_secs
    };
    Ok(AppSettings { poll_interval_secs: poll, ..candidate })
}

/// Reset law: resetting the store always leaves the same stored document —
/// the canonical rendering of the built-in default — so resetting twice
/// yields the same document both times, and a load after a reset reads back
/// exactly the built-in default.
pub proof fn lemma_reset_then_load_yields_default()
    ensures
        codec::spec_parse_settings(codec::spec_render_settings(default_model())) == Ok::<
            SettingsModel,
            codec::ParseFailure,
        >(default_model()),
{
    lemma_default_model_valid();
    codec::lemma_parse_render_round_trip(default_model());
}

/// The settings store: the modeled contents of the single settings file.
/// `None` stands for an absent file. The I/O shim outside this crate moves
/// this text to and from the real file with an atomic replace.
#[derive(Debug)]
pub struct SettingsStore {
    pub file: Option<String>,
}

impl SettingsStore {
    /// The stored document text, as a mathematical value.
    pub open spec fn doc(self) -> Option<Seq<char>> {
        match self.file {
            Some(t) => Some(t@),
            None => None,
        }
    }

    /// A store whose settings file is absent, as on first run.
    pub fn empty() -> (r: Self)
        ensures
            r.doc() is None,
    {
        SettingsStore { file: None }
    }

    /// Read the settings document. An absent file yields the built-in
    /// defaults and is not an error. A present file is decoded strictly:
    /// structurally unreadable text yields `JsonParse`, readable text whose
    /// fields violate their constraints yields `Corrupted`. The store is
    /// never written by a load, so a corrupted file stays in place for the
    /// caller to recover from.
    pub fn load_settings(&self) -> (r: Result<AppSettings, SettingsError>)
        ensures
            self.doc() is None ==> (r matches Ok(s) && s@ == default_model()),
            self.doc() matches Some(t) ==> match codec::spec_parse_settings(t) {
                Ok(m) => r matches Ok(s) && s@ == m,
                Err(pf) => r matches Err(e) && e == codec::parse_failure_error(pf),
            },
            r matches Ok(s) ==> valid_model(s@),
    {
        match &self.file {
            None => Ok(default_settings()),
            Some(text) => codec::parse_settings(text.as_str()),
        }
    }

    /// Overwrite the stored document with the canonical rendering of a
    /// validated settings document. The model write is all-or-nothing, as the
    /// real write is through its temp-write-then-rename shim.
    pub fn save_settings(&mut self, validated: &AppSettings)
        requires
            valid_model(validated@),
        ensures
            final(self).doc() == Some(codec::spec_render_settings(validated@)),
    {
        self.file = Some(codec::render_settings(validated));
    }

    /// Overwrite the stored document with the built-in default document and
    /// return that document. Calling this twice yields the same document both
    /// times, and that document is the built-in default.
    pub fn reset_to_defaults(&mut self) -> (r: AppSettings)
        ensures
            r@ == default_model(),
            final(self).doc() == Some(codec::spec_render_settings(default_model())),
    {
        let defaults = default_settings();
        self.save_settings(&defaults);
        defaults
    }
}

} // verus!
